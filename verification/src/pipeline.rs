//! The pipeline glue: from a loaded working image and the markers detected
//! on it to the rectified output, or the first typed failure.
//!
//! Detection itself is a capability of the caller: an external detector
//! scans the (already bounded) working image and hands the marker set in.

use vstd::prelude::*;

use crate::error::PipelineError;
use crate::geometry::OrderedQuad;
use crate::markers::ids_valid;
use crate::markers::lemma_count_exists;
use crate::markers::marker_rep;
use crate::markers::resolve;
use crate::markers::DetectedMarker;
use crate::raster::ImageRgb;
use crate::rectifier::rectify;
use crate::rectifier::warp_pixel;
use crate::rectifier::OutputSpec;

verus! {

/// The position of the marker carrying ID `k` in a set with valid IDs.
pub open spec fn idx_of(ms: Seq<DetectedMarker>, k: u64) -> int {
    choose|i: int| 0 <= i < ms.len() && (#[trigger] ms[i]).id == k
}

/// The quadrilateral that a marker set with valid IDs resolves to: the
/// representative point of the marker with ID 0 at the top-left, 1 at the
/// top-right, 2 at the bottom-right, 3 at the bottom-left.
pub open spec fn resolved_quad(ms: Seq<DetectedMarker>) -> OrderedQuad {
    OrderedQuad {
        tl: marker_rep(ms[idx_of(ms, 0)]),
        tr: marker_rep(ms[idx_of(ms, 1)]),
        br: marker_rep(ms[idx_of(ms, 2)]),
        bl: marker_rep(ms[idx_of(ms, 3)]),
    }
}

/// Runs corner resolution and rectification on a working image and the
/// markers detected on it. Fails fast with the first stage's error:
/// `NoImageLoaded` without an image, a count or identity failure from the
/// resolver, `DegenerateGeometry` from the rectifier; otherwise returns
/// the warped image cropped to exactly the requested dimensions.
pub fn process_image(
    img: &Option<ImageRgb>,
    markers: &Vec<DetectedMarker>,
    out_spec: &OutputSpec,
) -> (r: Result<ImageRgb, PipelineError>)
    requires
        match img {
            Some(im) => im.wf(),
            None => true,
        },
        forall|i: int| 0 <= i < markers@.len() ==> (#[trigger] markers@[i]).wf(),
        out_spec.wf(),
    ensures
        img is None ==> r == Err::<ImageRgb, PipelineError>(PipelineError::NoImageLoaded),
        img is Some && markers@.len() != 4 ==> r == Err::<ImageRgb, PipelineError>(
            PipelineError::MarkerCount { found: markers@.len() as usize },
        ),
        img is Some && markers@.len() == 4 && !ids_valid(markers@) ==> r == Err::<
            ImageRgb,
            PipelineError,
        >(PipelineError::MarkerIdentity),
        img is Some && ids_valid(markers@) && resolved_quad(markers@).is_degenerate() ==> r
            == Err::<ImageRgb, PipelineError>(PipelineError::DegenerateGeometry),
        img is Some && ids_valid(markers@) && !resolved_quad(markers@).is_degenerate() ==> r is Ok,
        match r {
            Ok(out) => {
                &&& img is Some
                &&& ids_valid(markers@)
                &&& !resolved_quad(markers@).is_degenerate()
                &&& out.wf()
                &&& out.width == out_spec.width
                &&& out.height == out_spec.height
                &&& forall|u: int, v: int|
                    0 <= u < out.width && 0 <= v < out.height ==> #[trigger] out.pixels()[v][u]
                        == warp_pixel(
                        img->0,
                        resolved_quad(markers@),
                        out_spec.scaled_w(),
                        out_spec.scaled_h(),
                        u,
                        v,
                    )
            },
            Err(_) => true,
        },
{
    match img {
        None => Err(PipelineError::NoImageLoaded),
        Some(im) => {
            match resolve(markers) {
                Err(e) => Err(e),
                Ok(q) => {
                    proof {
                        lemma_count_exists(markers@, 0);
                        lemma_count_exists(markers@, 1);
                        lemma_count_exists(markers@, 2);
                        lemma_count_exists(markers@, 3);
                        let i0 = idx_of(markers@, 0);
                        let i1 = idx_of(markers@, 1);
                        let i2 = idx_of(markers@, 2);
                        let i3 = idx_of(markers@, 3);
                        assert(0 <= i0 < markers@.len() && markers@[i0].id == 0);
                        assert(0 <= i1 < markers@.len() && markers@[i1].id == 1);
                        assert(0 <= i2 < markers@.len() && markers@[i2].id == 2);
                        assert(0 <= i3 < markers@.len() && markers@[i3].id == 3);
                        assert(q == resolved_quad(markers@));
                    }
                    rectify(im, &q, out_spec)
                },
            }
        },
    }
}

} // verus!
