//! From a model's raw output to the report of a cycle.

use vstd::prelude::*;
use crate::decode::{boxes_fit, decode, decoded, fails_with, well_shaped, DecodeError};
use crate::detection::Detection;
use crate::labels::ModelVariant;
use crate::nms::{deduplicate, deduplicated};
use crate::report::{all_covered, enrich, entry_of, report_of, with_sentinel, ReportEntry, UncoveredClass};

verus! {

/// Why a model output gave no report.
#[derive(Clone, Copy, Debug, PartialEq, Eq, Structural)]
pub enum DetectError {
    /// The output could not be decoded.
    Decode(DecodeError),
    /// A detection that outlived deduplication is of a class without a
    /// distance model.
    Uncovered(UncoveredClass),
}

/// The detections of a model output: its rows decoded, then deduplicated.
pub open spec fn detections_of(
    output: Seq<Seq<i64>>,
    img_width: u32,
    img_height: u32,
    model: ModelVariant,
    thr: i64,
    per_class: bool,
) -> Seq<Detection> {
    deduplicated(decoded(output, img_width, img_height, model, thr), per_class)
}

/// Turns the raw output of the model into detections on an image of
/// `img_width` by `img_height` pixels: rows whose best score reaches `thr`
/// become detections, which are then deduplicated, across classes unless
/// `per_class` is set. The result is ordered by falling confidence.
pub fn process_output(
    output: &Vec<Vec<i64>>,
    img_width: u32,
    img_height: u32,
    model: ModelVariant,
    thr: i64,
    per_class: bool,
) -> (r: Result<Vec<Detection>, DecodeError>)
    ensures
        r is Ok <==> well_shaped(output.deep_view()) && boxes_fit(
            output.deep_view(),
            img_width,
            img_height,
            thr,
        ),
        r matches Ok(dets) ==> dets@ == detections_of(
            output.deep_view(),
            img_width,
            img_height,
            model,
            thr,
            per_class,
        ),
        r matches Err(e) ==> fails_with(output.deep_view(), img_width, img_height, thr, e),
{
    match decode(output, img_width, img_height, model, thr) {
        Ok(candidates) => Ok(deduplicate(&candidates, per_class)),
        Err(e) => Err(e),
    }
}

/// The detections of the model's output on an image of `img_width` by
/// `img_height` pixels, deduplicated across classes.
pub fn detect(
    output: &Vec<Vec<i64>>,
    img_width: u32,
    img_height: u32,
    model: ModelVariant,
    thr: i64,
) -> (r: Result<Vec<Detection>, DecodeError>)
    ensures
        r is Ok <==> well_shaped(output.deep_view()) && boxes_fit(
            output.deep_view(),
            img_width,
            img_height,
            thr,
        ),
        r matches Ok(dets) ==> dets@ == detections_of(
            output.deep_view(),
            img_width,
            img_height,
            model,
            thr,
            false,
        ),
        r matches Err(e) ==> fails_with(output.deep_view(), img_width, img_height, thr, e),
{
    process_output(output, img_width, img_height, model, thr, false)
}

/// The report for a model output: the detections with their distances, or
/// the sentinel where nothing was detected.
pub fn report_for(
    output: &Vec<Vec<i64>>,
    img_width: u32,
    img_height: u32,
    model: ModelVariant,
    thr: i64,
    per_class: bool,
) -> (r: Result<Vec<ReportEntry>, DetectError>)
    ensures
        r is Ok <==> {
            &&& well_shaped(output.deep_view())
            &&& boxes_fit(output.deep_view(), img_width, img_height, thr)
            &&& all_covered(
                detections_of(output.deep_view(), img_width, img_height, model, thr, per_class),
            )
        },
        r matches Ok(entries) ==> entries@ == report_of(
            detections_of(
                output.deep_view(),
                img_width,
                img_height,
                model,
                thr,
                per_class,
            ).map_values(|d: Detection| entry_of(d)),
        ),
        r matches Err(DetectError::Decode(e)) ==> fails_with(
            output.deep_view(),
            img_width,
            img_height,
            thr,
            e,
        ),
        r matches Err(DetectError::Uncovered(u)) ==> {
            let dets = detections_of(
                output.deep_view(),
                img_width,
                img_height,
                model,
                thr,
                per_class,
            );
            &&& well_shaped(output.deep_view())
            &&& boxes_fit(output.deep_view(), img_width, img_height, thr)
            &&& u.index < dets.len()
            &&& u.label == dets[u.index as int].label
            &&& crate::estimation::height_factor_of(u.label) is None
            &&& all_covered(dets.subrange(0, u.index as int))
        },
{
    let dets: Vec<Detection> = match process_output(
        output,
        img_width,
        img_height,
        model,
        thr,
        per_class,
    ) {
        Ok(d) => d,
        Err(e) => {
            return Err(DetectError::Decode(e));
        },
    };
    match enrich(&dets) {
        Ok(entries) => Ok(with_sentinel(entries)),
        Err(u) => Err(DetectError::Uncovered(u)),
    }
}

} // verus!
