//! Detected fiducial markers and the corner resolver: mapping a set of
//! markers to the ordered quadrilateral of the four physical corners.
//!
//! The printed convention is fixed: marker ID 0 marks the top-left corner,
//! 1 the top-right, 2 the bottom-right and 3 the bottom-left.

use vstd::prelude::*;

use crate::error::PipelineError;
use crate::geometry::OrderedQuad;
use crate::geometry::Point2D;

verus! {

/// One marker as the external detector reports it: its decoded ID and the
/// four corner points of the marker's own square, in detector order.
#[derive(Clone, Copy, Debug)]
pub struct DetectedMarker {
    pub id: u64,
    pub corners: [Point2D; 4],
}

impl DetectedMarker {
    pub open spec fn wf(self) -> bool {
        forall|i: int| 0 <= i < 4 ==> (#[trigger] self.corners@[i]).wf()
    }
}

/// The representative point of a marker: its first corner in detector
/// order. The resolver emits this point for the marker's physical corner.
pub open spec fn marker_rep(m: DetectedMarker) -> Point2D {
    m.corners@[0]
}

/// How many markers of a sequence carry the given ID.
pub open spec fn count_id(s: Seq<DetectedMarker>, k: u64) -> int
    decreases s.len(),
{
    if s.len() == 0 {
        0
    } else {
        count_id(s.drop_last(), k) + if s.last().id == k {
            1int
        } else {
            0int
        }
    }
}

/// The marker sets the resolver accepts: exactly four markers, whose IDs
/// are precisely {0, 1, 2, 3}, each once.
pub open spec fn ids_valid(s: Seq<DetectedMarker>) -> bool {
    &&& s.len() == 4
    &&& count_id(s, 0) == 1
    &&& count_id(s, 1) == 1
    &&& count_id(s, 2) == 1
    &&& count_id(s, 3) == 1
}

/// `q` pairs each marker's representative point with the corner that the
/// marker's ID names under the fixed printed convention.
pub open spec fn is_resolution(ms: Seq<DetectedMarker>, q: OrderedQuad) -> bool {
    forall|i: int|
        0 <= i < ms.len() ==> {
            &&& ((#[trigger] ms[i]).id == 0 ==> q.tl == marker_rep(ms[i]))
            &&& (ms[i].id == 1 ==> q.tr == marker_rep(ms[i]))
            &&& (ms[i].id == 2 ==> q.br == marker_rep(ms[i]))
            &&& (ms[i].id == 3 ==> q.bl == marker_rep(ms[i]))
        }
}

/// Counting over a prefix never exceeds counting over the whole sequence.
pub proof fn lemma_count_prefix(s: Seq<DetectedMarker>, k: u64, l: int)
    requires
        0 <= l <= s.len(),
    ensures
        count_id(s.take(l), k) <= count_id(s, k),
    decreases s.len() - l,
{
    if l == s.len() {
        assert(s.take(l) =~= s);
    } else {
        assert(s.take(l + 1).drop_last() =~= s.take(l));
        assert(s.take(l + 1).last() == s[l]);
        lemma_count_prefix(s, k, l + 1);
    }
}

/// The four per-ID counts together never exceed the length, and fall short
/// of it as soon as some marker carries an ID outside {0, 1, 2, 3}.
pub proof fn lemma_count_sum(s: Seq<DetectedMarker>)
    ensures
        count_id(s, 0) + count_id(s, 1) + count_id(s, 2) + count_id(s, 3) <= s.len(),
        (exists|i: int| 0 <= i < s.len() && (#[trigger] s[i]).id >= 4) ==> count_id(s, 0)
            + count_id(s, 1) + count_id(s, 2) + count_id(s, 3) <= s.len() - 1,
    decreases s.len(),
{
    if s.len() > 0 {
        lemma_count_sum(s.drop_last());
        if exists|i: int| 0 <= i < s.len() && (#[trigger] s[i]).id >= 4 {
            let i = choose|i: int| 0 <= i < s.len() && (#[trigger] s[i]).id >= 4;
            if i < s.len() - 1 {
                assert((s.drop_last()[i]).id >= 4);
            }
        }
    }
}

/// A positive count names at least one marker with that ID.
pub proof fn lemma_count_exists(s: Seq<DetectedMarker>, k: u64)
    requires
        count_id(s, k) >= 1,
    ensures
        exists|i: int| 0 <= i < s.len() && (#[trigger] s[i]).id == k,
    decreases s.len(),
{
    if s.len() > 0 {
        if s.last().id == k {
            assert(s[s.len() - 1].id == k);
        } else {
            lemma_count_exists(s.drop_last(), k);
            let i = choose|i: int| 0 <= i < s.drop_last().len() && (#[trigger] s.drop_last()[i]).id == k;
            assert(s[i].id == k);
        }
    }
}

/// Decides whether every marker's corners lie within the coordinate
/// range, so that unverified callers can gate detector output.
pub fn markers_wf(markers: &Vec<DetectedMarker>) -> (b: bool)
    ensures
        b == (forall|i: int| 0 <= i < markers@.len() ==> (#[trigger] markers@[i]).wf()),
{
    let n = markers.len();
    let mut i: usize = 0;
    while i < n
        invariant
            i <= n,
            n == markers@.len(),
            forall|j: int| 0 <= j < i ==> (#[trigger] markers@[j]).wf(),
        decreases n - i,
    {
        let m = &markers[i];
        let mut k: usize = 0;
        while k < 4
            invariant
                k <= 4,
                i < n,
                n == markers@.len(),
                *m == markers@[i as int],
                forall|c: int| 0 <= c < k ==> (#[trigger] m.corners@[c]).wf(),
            decreases 4 - k,
        {
            if !crate::geometry::point_in_range(&m.corners[k]) {
                proof {
                    assert(!m.corners@[k as int].wf());
                    assert(!markers@[i as int].wf());
                }
                return false;
            }
            k += 1;
        }
        i += 1;
    }
    true
}

/// Reads the representative point of a marker.
pub fn rep_point(m: &DetectedMarker) -> (p: Point2D)
    ensures
        p == marker_rep(*m),
{
    m.corners[0]
}

/// The corner resolver. Accepts exactly the marker sets of four markers
/// whose IDs are precisely {0, 1, 2, 3}; on success the returned
/// quadrilateral holds each marker's representative point at the corner
/// its ID names. A wrong count is reported with the count actually seen;
/// four markers with wrong identities are a `MarkerIdentity` failure.
pub fn resolve(markers: &Vec<DetectedMarker>) -> (r: Result<OrderedQuad, PipelineError>)
    requires
        forall|i: int| 0 <= i < markers@.len() ==> (#[trigger] markers@[i]).wf(),
    ensures
        r is Ok <==> ids_valid(markers@),
        markers@.len() != 4 ==> r == Err::<OrderedQuad, PipelineError>(
            PipelineError::MarkerCount { found: markers@.len() as usize },
        ),
        markers@.len() == 4 && !ids_valid(markers@) ==> r == Err::<OrderedQuad, PipelineError>(
            PipelineError::MarkerIdentity,
        ),
        match r {
            Ok(q) => q.wf() && is_resolution(markers@, q),
            Err(_) => true,
        },
{
    let n = markers.len();
    if n != 4 {
        proof {
            if ids_valid(markers@) {
                assert(false);
            }
        }
        return Err(PipelineError::MarkerCount { found: n });
    }
    let mut tl: Option<Point2D> = None;
    let mut tr: Option<Point2D> = None;
    let mut br: Option<Point2D> = None;
    let mut bl: Option<Point2D> = None;
    let mut i: usize = 0;
    while i < 4
        invariant
            i <= 4,
            markers@.len() == 4,
            forall|j: int| 0 <= j < markers@.len() ==> (#[trigger] markers@[j]).wf(),
            tl is None <==> count_id(markers@.take(i as int), 0) == 0,
            tr is None <==> count_id(markers@.take(i as int), 1) == 0,
            br is None <==> count_id(markers@.take(i as int), 2) == 0,
            bl is None <==> count_id(markers@.take(i as int), 3) == 0,
            tl is Some ==> count_id(markers@.take(i as int), 0) == 1,
            tr is Some ==> count_id(markers@.take(i as int), 1) == 1,
            br is Some ==> count_id(markers@.take(i as int), 2) == 1,
            bl is Some ==> count_id(markers@.take(i as int), 3) == 1,
            forall|j: int|
                0 <= j < i && (#[trigger] markers@[j]).id == 0 ==> tl == Some(
                    marker_rep(markers@[j]),
                ),
            forall|j: int|
                0 <= j < i && (#[trigger] markers@[j]).id == 1 ==> tr == Some(
                    marker_rep(markers@[j]),
                ),
            forall|j: int|
                0 <= j < i && (#[trigger] markers@[j]).id == 2 ==> br == Some(
                    marker_rep(markers@[j]),
                ),
            forall|j: int|
                0 <= j < i && (#[trigger] markers@[j]).id == 3 ==> bl == Some(
                    marker_rep(markers@[j]),
                ),
        decreases 4 - i,
    {
        let m = markers[i];
        proof {
            assert(markers@.take(i as int + 1).drop_last() =~= markers@.take(i as int));
            assert(markers@.take(i as int + 1).last() == markers@[i as int]);
        }
        if m.id == 0 {
            if tl.is_some() {
                proof {
                    lemma_count_prefix(markers@, 0, i as int + 1);
                }
                return Err(PipelineError::MarkerIdentity);
            }
            tl = Some(rep_point(&m));
        } else if m.id == 1 {
            if tr.is_some() {
                proof {
                    lemma_count_prefix(markers@, 1, i as int + 1);
                }
                return Err(PipelineError::MarkerIdentity);
            }
            tr = Some(rep_point(&m));
        } else if m.id == 2 {
            if br.is_some() {
                proof {
                    lemma_count_prefix(markers@, 2, i as int + 1);
                }
                return Err(PipelineError::MarkerIdentity);
            }
            br = Some(rep_point(&m));
        } else if m.id == 3 {
            if bl.is_some() {
                proof {
                    lemma_count_prefix(markers@, 3, i as int + 1);
                }
                return Err(PipelineError::MarkerIdentity);
            }
            bl = Some(rep_point(&m));
        } else {
            proof {
                lemma_count_sum(markers@);
            }
            return Err(PipelineError::MarkerIdentity);
        }
        i += 1;
    }
    proof {
        assert(markers@.take(4) =~= markers@);
    }
    if let (Some(a), Some(b), Some(c), Some(d)) = (tl, tr, br, bl) {
        let q = OrderedQuad { tl: a, tr: b, br: c, bl: d };
        proof {
            lemma_count_exists(markers@, 0);
            lemma_count_exists(markers@, 1);
            lemma_count_exists(markers@, 2);
            lemma_count_exists(markers@, 3);
            let j0 = choose|i: int| 0 <= i < markers@.len() && (#[trigger] markers@[i]).id == 0;
            let j1 = choose|i: int| 0 <= i < markers@.len() && (#[trigger] markers@[i]).id == 1;
            let j2 = choose|i: int| 0 <= i < markers@.len() && (#[trigger] markers@[i]).id == 2;
            let j3 = choose|i: int| 0 <= i < markers@.len() && (#[trigger] markers@[i]).id == 3;
            assert(a == marker_rep(markers@[j0]) && markers@[j0].corners@[0].wf());
            assert(b == marker_rep(markers@[j1]) && markers@[j1].corners@[0].wf());
            assert(c == marker_rep(markers@[j2]) && markers@[j2].corners@[0].wf());
            assert(d == marker_rep(markers@[j3]) && markers@[j3].corners@[0].wf());
        }
        Ok(q)
    } else {
        Err(PipelineError::MarkerIdentity)
    }
}

} // verus!
