use idmybee::error::PipelineError;
use idmybee::file_explorer::FileExplorer;
use idmybee::geometry::OrderedQuad;
use idmybee::geometry::Point2D;
use idmybee::markers::resolve;
use idmybee::markers::DetectedMarker;
use idmybee::pipeline::process_image;
use idmybee::raster::ImageRgb;
use idmybee::raster::Rgb;
use idmybee::rectifier::rectify;
use idmybee::rectifier::OutputSpec;
use idmybee::resizer::resize_if_larger;

fn rgb(r: u8, g: u8, b: u8) -> Rgb {
    Rgb { r, g, b }
}

fn solid(w: usize, h: usize, c: Rgb) -> ImageRgb {
    let rows: Vec<Vec<Rgb>> = (0..h).map(|_| vec![c; w]).collect();
    ImageRgb::try_from_rows(rows).unwrap()
}

/// Four quadrant colours, split at `w / 2` and `h / 2`.
fn quadrant_image(w: usize, h: usize) -> ImageRgb {
    let mut rows: Vec<Vec<Rgb>> = Vec::new();
    for y in 0..h {
        let mut row: Vec<Rgb> = Vec::new();
        for x in 0..w {
            row.push(match (x < w / 2, y < h / 2) {
                (true, true) => rgb(255, 0, 0),
                (false, true) => rgb(0, 255, 0),
                (false, false) => rgb(0, 0, 255),
                (true, false) => rgb(255, 255, 0),
            });
        }
        rows.push(row);
    }
    ImageRgb::try_from_rows(rows).unwrap()
}

fn coord_image(w: usize, h: usize) -> ImageRgb {
    let mut rows: Vec<Vec<Rgb>> = Vec::new();
    for y in 0..h {
        let mut row: Vec<Rgb> = Vec::new();
        for x in 0..w {
            row.push(rgb((x * 10) as u8, (y * 20) as u8, 7));
        }
        rows.push(row);
    }
    ImageRgb::try_from_rows(rows).unwrap()
}

fn marker(id: u64, x: i64, y: i64) -> DetectedMarker {
    let p = Point2D { x, y };
    DetectedMarker { id, corners: [p, p, p, p] }
}

fn pt(x: i64, y: i64) -> Point2D {
    Point2D { x, y }
}

#[test]
fn resizer_keeps_image_within_bound() {
    let img = quadrant_image(100, 50);
    let out = resize_if_larger(img, 600, 300);
    assert_eq!(out.width, 100);
    assert_eq!(out.height, 50);
    let again = quadrant_image(100, 50);
    for y in 0..50 {
        for x in 0..100 {
            assert_eq!(out.pixel(x, y), again.pixel(x, y));
        }
    }
}

#[test]
fn resizer_downscales_preserving_aspect() {
    let img = quadrant_image(800, 600);
    let out = resize_if_larger(img, 600, 300);
    assert_eq!(out.width, 400);
    assert_eq!(out.height, 300);
    // The cross-product aspect error is below one source side.
    let err = (out.width * 600) as i64 - (out.height * 800) as i64;
    assert!(err.abs() < 800);
    // Quadrant colours survive the uniform downscale.
    assert_eq!(out.pixel(10, 10), rgb(255, 0, 0));
    assert_eq!(out.pixel(390, 10), rgb(0, 255, 0));
    assert_eq!(out.pixel(390, 290), rgb(0, 0, 255));
    assert_eq!(out.pixel(10, 290), rgb(255, 255, 0));
}

#[test]
fn resizer_clamps_vanishing_side_to_one() {
    let img = solid(8000, 2, rgb(9, 9, 9));
    let out = resize_if_larger(img, 100, 100);
    assert_eq!(out.width, 100);
    assert_eq!(out.height, 1);
    assert_eq!(out.pixel(99, 0), rgb(9, 9, 9));
}

#[test]
fn resolver_orders_markers_by_id() {
    let ms = vec![
        marker(2, 375, 275),
        marker(0, 25, 25),
        marker(3, 25, 275),
        marker(1, 375, 25),
    ];
    let q = resolve(&ms).unwrap();
    assert_eq!(q.tl, pt(25, 25));
    assert_eq!(q.tr, pt(375, 25));
    assert_eq!(q.br, pt(375, 275));
    assert_eq!(q.bl, pt(25, 275));
}

#[test]
fn resolver_rejects_three_markers() {
    let ms = vec![marker(0, 0, 0), marker(1, 10, 0), marker(2, 10, 10)];
    assert_eq!(resolve(&ms), Err(PipelineError::MarkerCount { found: 3 }));
}

#[test]
fn resolver_rejects_five_markers() {
    let ms = vec![
        marker(0, 0, 0),
        marker(1, 10, 0),
        marker(2, 10, 10),
        marker(3, 0, 10),
        marker(7, 5, 5),
    ];
    assert_eq!(resolve(&ms), Err(PipelineError::MarkerCount { found: 5 }));
}

#[test]
fn resolver_rejects_wrong_identity() {
    let ms = vec![marker(0, 0, 0), marker(1, 10, 0), marker(2, 10, 10), marker(5, 0, 10)];
    assert_eq!(resolve(&ms), Err(PipelineError::MarkerIdentity));
}

#[test]
fn resolver_rejects_duplicate_identity() {
    let ms = vec![marker(0, 0, 0), marker(1, 10, 0), marker(2, 10, 10), marker(2, 0, 10)];
    assert_eq!(resolve(&ms), Err(PipelineError::MarkerIdentity));
}

#[test]
fn rectifier_output_has_requested_shape() {
    let img = quadrant_image(100, 100);
    let quad = OrderedQuad { tl: pt(10, 10), tr: pt(90, 10), br: pt(90, 90), bl: pt(10, 90) };
    let spec = OutputSpec { width: 60, height: 30, zoom_hundredths: 100 };
    let out = rectify(&img, &quad, &spec).unwrap();
    assert_eq!(out.width, 60);
    assert_eq!(out.height, 30);
}

#[test]
fn rectifier_rejects_collinear_corners() {
    let img = solid(100, 100, rgb(1, 2, 3));
    let quad = OrderedQuad { tl: pt(0, 0), tr: pt(50, 50), br: pt(100, 100), bl: pt(0, 100) };
    let spec = OutputSpec { width: 60, height: 30, zoom_hundredths: 100 };
    assert_eq!(rectify(&img, &quad, &spec), Err(PipelineError::DegenerateGeometry));
}

#[test]
fn rectifier_identity_quad_copies_pixels() {
    let img = coord_image(20, 10);
    let quad = OrderedQuad { tl: pt(0, 0), tr: pt(20, 0), br: pt(20, 10), bl: pt(0, 10) };
    let spec = OutputSpec { width: 20, height: 10, zoom_hundredths: 100 };
    let out = rectify(&img, &quad, &spec).unwrap();
    for y in 0..10 {
        for x in 0..20 {
            assert_eq!(out.pixel(x, y), img.pixel(x, y));
        }
    }
}

#[test]
fn rectifier_fills_background_outside_source() {
    let img = solid(10, 10, rgb(200, 100, 50));
    let quad = OrderedQuad { tl: pt(0, 0), tr: pt(100, 0), br: pt(100, 100), bl: pt(0, 100) };
    let spec = OutputSpec { width: 20, height: 20, zoom_hundredths: 100 };
    let out = rectify(&img, &quad, &spec).unwrap();
    // Output pixel (u, v) reads source (5u, 5v): inside for u, v < 2.
    assert_eq!(out.pixel(0, 0), rgb(200, 100, 50));
    assert_eq!(out.pixel(1, 1), rgb(200, 100, 50));
    assert_eq!(out.pixel(5, 5), rgb(0, 0, 0));
    assert_eq!(out.pixel(19, 19), rgb(0, 0, 0));
}

#[test]
fn pipeline_rectifies_marked_photo() {
    // A synthetic oversized photo, bounded to the working resolution, with
    // the four markers found on the working image near its corners.
    let photo = quadrant_image(800, 600);
    let working = resize_if_larger(photo, 600, 300);
    assert_eq!(working.width, 400);
    assert_eq!(working.height, 300);
    let ms = vec![
        marker(2, 375, 275),
        marker(0, 25, 25),
        marker(3, 25, 275),
        marker(1, 375, 25),
    ];
    let spec = OutputSpec { width: 600, height: 300, zoom_hundredths: 120 };
    let out = process_image(&Some(working), &ms, &spec).unwrap();
    assert_eq!(out.width, 600);
    assert_eq!(out.height, 300);
    // The frame's origin maps back to the top-left marker point (25, 25),
    // deep in the red quadrant; the far corner maps to (316, 232), in the
    // blue quadrant.
    assert_eq!(out.pixel(0, 0), rgb(255, 0, 0));
    assert_eq!(out.pixel(599, 299), rgb(0, 0, 255));
}

#[test]
fn pipeline_reports_occluded_marker_count() {
    let working = quadrant_image(400, 300);
    let ms = vec![marker(0, 25, 25), marker(3, 25, 275), marker(1, 375, 25)];
    let spec = OutputSpec { width: 600, height: 300, zoom_hundredths: 120 };
    let r = process_image(&Some(working), &ms, &spec);
    assert_eq!(r.unwrap_err(), PipelineError::MarkerCount { found: 3 });
}

#[test]
fn error_message_reports_marker_count() {
    assert_eq!(
        PipelineError::MarkerCount { found: 3 }.message(),
        "3 markers found instead of 4"
    );
    assert_eq!(
        PipelineError::MarkerCount { found: 120 }.message(),
        "120 markers found instead of 4"
    );
    assert_eq!(PipelineError::NoImageLoaded.message(), "no image was loaded");
}

#[test]
fn pipeline_requires_loaded_image() {
    let ms = vec![marker(0, 0, 0)];
    let spec = OutputSpec { width: 600, height: 300, zoom_hundredths: 120 };
    let r = process_image(&None, &ms, &spec);
    assert_eq!(r.unwrap_err(), PipelineError::NoImageLoaded);
}

#[test]
fn output_spec_validation() {
    assert!(OutputSpec { width: 600, height: 300, zoom_hundredths: 120 }.is_valid());
    assert!(!OutputSpec { width: 600, height: 300, zoom_hundredths: 50 }.is_valid());
    assert!(!OutputSpec { width: 0, height: 300, zoom_hundredths: 100 }.is_valid());
    // Scaled frame would exceed the working-resolution bound.
    assert!(!OutputSpec { width: 16000, height: 300, zoom_hundredths: 10000 }.is_valid());
    // Any zoom is accepted as long as the scaled frame stays within bound.
    assert!(OutputSpec { width: 1, height: 1, zoom_hundredths: 1_638_449 }.is_valid());
    assert!(!OutputSpec { width: 1, height: 1, zoom_hundredths: 1_638_450 }.is_valid());
}

fn explorer_with(path: &str) -> FileExplorer {
    FileExplorer {
        current_dir: String::from("/tmp"),
        selected_file: String::from(path),
        dir_vec: Vec::new(),
        file_vec: Vec::new(),
        dirnames: Vec::new(),
        filenames: Vec::new(),
    }
}

#[test]
fn get_filename_returns_last_component() {
    assert_eq!(explorer_with("/home/user/pic.jpg").get_filename(), "pic.jpg");
    assert_eq!(explorer_with("picture.png").get_filename(), "picture.png");
    assert_eq!(explorer_with("some/dir/").get_filename(), "dir");
    assert_eq!(explorer_with("foo/.").get_filename(), "foo");
    assert_eq!(explorer_with("a//").get_filename(), "a");
    assert_eq!(explorer_with("a/x.").get_filename(), "x.");
    assert_eq!(explorer_with("a/...").get_filename(), "...");
}

#[test]
fn get_filename_is_empty_without_component() {
    assert_eq!(explorer_with("").get_filename(), "");
    assert_eq!(explorer_with("/").get_filename(), "");
    assert_eq!(explorer_with(".").get_filename(), "");
    assert_eq!(explorer_with("..").get_filename(), "");
    assert_eq!(explorer_with("a/..").get_filename(), "");
    assert_eq!(explorer_with("a/../").get_filename(), "");
}

#[test]
fn get_filename_matches_std_path() {
    let paths = [
        "/home/user/pic.jpg",
        "picture.png",
        "some/dir/",
        "foo/.",
        "foo/./",
        "foo/./.",
        "a//",
        "a/x.",
        "a/...",
        "",
        "/",
        "//",
        ".",
        "./",
        "..",
        "a/..",
        "a/../",
        "a/./b",
        ".hidden",
        "dir/.hidden",
    ];
    for p in paths {
        let expected = std::path::Path::new(p)
            .file_name()
            .unwrap_or_default()
            .to_string_lossy()
            .to_string();
        assert_eq!(explorer_with(p).get_filename(), expected, "path {:?}", p);
    }
}
