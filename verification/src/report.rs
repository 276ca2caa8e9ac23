//! The report of one cycle: every detection with its distance, or the one
//! entry that says nothing was found.

use vstd::prelude::*;
use crate::detection::{Detection, CONFIDENCE_ONE};
use crate::estimation::{distance_cm, estimate_distance, height_factor, height_factor_of};
use crate::geometry::{BoundingBox, Rect};
use crate::labels::ClassLabel;

verus! {

/// A detection and the estimated distance to it, in centimetres.
#[derive(Clone, Copy, Debug, PartialEq, Eq, Structural)]
pub struct ReportEntry {
    pub bbox: BoundingBox,
    pub label: ClassLabel,
    pub confidence: i64,
    pub distance_cm: i64,
}

/// A detection of a class that the distance model does not cover.
#[derive(Clone, Copy, Debug, PartialEq, Eq, Structural)]
pub struct UncoveredClass {
    /// Position of the detection in the list.
    pub index: usize,
    pub label: ClassLabel,
}

/// The report entry of a detection: the detection itself and the distance
/// that its box height and class give.
pub open spec fn entry_of(d: Detection) -> ReportEntry {
    ReportEntry {
        bbox: d.bbox,
        label: d.label,
        confidence: d.confidence,
        distance_cm: distance_cm(d.bbox@.y2 - d.bbox@.y1, d.label) as i64,
    }
}

/// The distance model covers the class of every detection.
pub open spec fn all_covered(dets: Seq<Detection>) -> bool {
    forall|i: int| 0 <= i < dets.len() ==> height_factor_of((#[trigger] dets[i]).label) is Some
}

/// The entry that stands for "nothing detected": an empty box at the origin,
/// full confidence, distance zero.
pub open spec fn sentinel() -> ReportEntry {
    ReportEntry {
        bbox: BoundingBox::of(Rect { x1: 0, y1: 0, x2: 0, y2: 0 }),
        label: ClassLabel::Nothing,
        confidence: CONFIDENCE_ONE,
        distance_cm: 0,
    }
}

/// What is reported for the given entries: the entries themselves, or the
/// sentinel alone where there are none.
pub open spec fn report_of(entries: Seq<ReportEntry>) -> Seq<ReportEntry> {
    if entries.len() == 0 {
        seq![sentinel()]
    } else {
        entries
    }
}

/// Attaches to each detection the estimated distance to it. Fails at the
/// first detection whose class the distance model does not cover.
pub fn enrich(dets: &Vec<Detection>) -> (r: Result<Vec<ReportEntry>, UncoveredClass>)
    ensures
        r is Ok <==> all_covered(dets@),
        r matches Ok(entries) ==> entries@ == dets@.map_values(|d: Detection| entry_of(d)),
        r matches Err(e) ==> {
            &&& e.index < dets.len()
            &&& e.label == dets[e.index as int].label
            &&& height_factor_of(e.label) is None
            &&& all_covered(dets@.subrange(0, e.index as int))
        },
{
    let mut out: Vec<ReportEntry> = Vec::new();
    let n: usize = dets.len();
    let mut i: usize = 0;
    while i < n
        invariant
            n == dets.len(),
            i <= n,
            all_covered(dets@.subrange(0, i as int)),
            out@ == dets@.subrange(0, i as int).map_values(|d: Detection| entry_of(d)),
        decreases n - i,
    {
        let d: Detection = dets[i];
        if height_factor(d.label).is_none() {
            return Err(UncoveredClass { index: i, label: d.label });
        }
        let h: i32 = d.bbox.height();
        let cm: i64 = estimate_distance(h, d.label);
        proof {
            let before = dets@.subrange(0, i as int);
            let after = dets@.subrange(0, i + 1);
            assert(after =~= before.push(d));
            assert(after.map_values(|d: Detection| entry_of(d)) =~= before.map_values(
                |d: Detection| entry_of(d),
            ).push(entry_of(d)));
            assert forall|j: int| 0 <= j < after.len() implies height_factor_of(
                (#[trigger] after[j]).label,
            ) is Some by {
                if j < i {
                    assert(before[j] == after[j]);
                }
            }
        }
        out.push(ReportEntry { bbox: d.bbox, label: d.label, confidence: d.confidence, distance_cm: cm });
        i += 1;
    }
    proof {
        assert(dets@.subrange(0, n as int) =~= dets@);
    }
    Ok(out)
}

/// The entries to report: the given ones, or the sentinel where none is given.
pub fn with_sentinel(entries: Vec<ReportEntry>) -> (r: Vec<ReportEntry>)
    ensures
        r@ == report_of(entries@),
        r.len() > 0,
{
    if entries.len() == 0 {
        let zero: BoundingBox = BoundingBox::zero();
        proof {
            zero.lemma_of_view();
        }
        let mut out: Vec<ReportEntry> = Vec::new();
        out.push(
            ReportEntry {
                bbox: zero,
                label: ClassLabel::Nothing,
                confidence: CONFIDENCE_ONE,
                distance_cm: 0,
            },
        );
        assert(out@ =~= seq![sentinel()]);
        out
    } else {
        entries
    }
}

} // verus!
