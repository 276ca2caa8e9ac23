//! Decoding of a detector's raw output into detections.
//!
//! The output is a list of rows `[cx, cy, w, h, score_0, score_1, score_2]`,
//! every value in millionths: a box by centre and size on the model's square
//! grid, then one score for each class.

use vstd::prelude::*;
use crate::detection::Detection;
use crate::geometry::{BoundingBox, Rect, MAX_COORD, SUBPIXEL};
use crate::labels::{ClassLabel, ModelVariant, CLASS_COUNT};
use crate::rounding::{div_round, round_div};

verus! {

/// The raw value that stands for one: a whole grid cell, or a score of 1.
pub const TENSOR_ONE: i64 = 1_000_000;

/// Side of the model's grid, in cells.
pub const MODEL_SIZE: u32 = 640;

/// Number of values that describe the box at the start of a row.
pub const BOX_FIELDS: usize = 4;

/// Length of a row: the box and one score for each class.
pub const ROW_LEN: usize = BOX_FIELDS + CLASS_COUNT;

/// Why an output could not be decoded.
#[derive(Clone, Copy, Debug, PartialEq, Eq, Structural)]
pub enum DecodeError {
    /// Row `row` does not hold a box and one score for each class: the model
    /// and the label table do not belong together.
    Shape { row: usize },
    /// The box of row `row` does not fit the coordinate range.
    Range { row: usize },
}

/// Index of the largest score; of several equal ones, the first.
pub open spec fn best_class(scores: Seq<i64>) -> int
    decreases scores.len(),
{
    if scores.len() <= 1 {
        0
    } else {
        let before = best_class(scores.drop_last());
        if scores.last() > scores[before] {
            scores.len() - 1
        } else {
            before
        }
    }
}

/// The class scores of a row.
pub open spec fn scores_of(row: Seq<i64>) -> Seq<i64> {
    row.skip(BOX_FIELDS as int)
}

/// The largest class score of a row.
pub open spec fn best_score(row: Seq<i64>) -> int {
    scores_of(row)[best_class(scores_of(row))] as int
}

/// A score in tenths, rounded to the nearest.
pub open spec fn confidence_of(score: int) -> int {
    round_div(score * 10, TENSOR_ONE as int)
}

/// The image coordinate, in sixteenths of a pixel, of the grid position
/// `twice / 2` millionths along an image side of `dim` pixels.
pub open spec fn corner(twice: int, dim: int) -> int {
    round_div(twice * dim * SUBPIXEL, 2 * MODEL_SIZE * TENSOR_ONE)
}

/// The box of a row on an image of `width` by `height` pixels: centre and
/// size scaled from the grid to the image, then turned into corners.
pub open spec fn row_box(row: Seq<i64>, width: u32, height: u32) -> Rect {
    Rect {
        x1: corner(2 * row[0] - row[2], width as int),
        y1: corner(2 * row[1] - row[3], height as int),
        x2: corner(2 * row[0] + row[2], width as int),
        y2: corner(2 * row[1] + row[3], height as int),
    }
}

/// Whether a row's best score reaches the threshold.
pub open spec fn row_passes(row: Seq<i64>, threshold: i64) -> bool {
    best_score(row) >= threshold
}

/// The detection that a row stands for.
pub open spec fn row_detection(row: Seq<i64>, width: u32, height: u32, model: ModelVariant) -> Detection {
    Detection {
        bbox: BoundingBox::of(row_box(row, width, height)),
        label: model.labels()[best_class(scores_of(row))],
        confidence: confidence_of(best_score(row)) as i64,
    }
}

/// Every row holds a box and one score for each class.
pub open spec fn well_shaped(rows: Seq<Seq<i64>>) -> bool {
    forall|i: int| 0 <= i < rows.len() ==> (#[trigger] rows[i]).len() == ROW_LEN
}

/// Every row that reaches the threshold has a box within the coordinate range.
pub open spec fn boxes_fit(rows: Seq<Seq<i64>>, width: u32, height: u32, threshold: i64) -> bool {
    forall|i: int|
        0 <= i < rows.len() && row_passes(#[trigger] rows[i], threshold) ==> row_box(
            rows[i],
            width,
            height,
        ).fits()
}

/// Whether decoding the rows fails with `e`: a misshapen row comes before
/// anything else, and of several rows at fault the first is named.
pub open spec fn fails_with(
    rows: Seq<Seq<i64>>,
    width: u32,
    height: u32,
    threshold: i64,
    e: DecodeError,
) -> bool {
    match e {
        DecodeError::Shape { row } => {
            &&& row < rows.len()
            &&& rows[row as int].len() != ROW_LEN
            &&& well_shaped(rows.subrange(0, row as int))
        },
        DecodeError::Range { row } => {
            &&& well_shaped(rows)
            &&& row < rows.len()
            &&& row_passes(rows[row as int], threshold)
            &&& !row_box(rows[row as int], width, height).fits()
            &&& boxes_fit(rows.subrange(0, row as int), width, height, threshold)
        },
    }
}

/// The detections of the rows that reach the threshold, in row order.
pub open spec fn decoded(
    rows: Seq<Seq<i64>>,
    width: u32,
    height: u32,
    model: ModelVariant,
    threshold: i64,
) -> Seq<Detection> {
    rows.filter(|row: Seq<i64>| row_passes(row, threshold)).map_values(
        |row: Seq<i64>| row_detection(row, width, height, model),
    )
}

/// The best class is a class of the row, no score is larger than its score,
/// and every score before it is smaller.
pub proof fn lemma_best_class(scores: Seq<i64>)
    requires
        scores.len() > 0,
    ensures
        0 <= best_class(scores) < scores.len(),
        forall|j: int|
            0 <= j < scores.len() ==> (#[trigger] scores[j]) <= scores[best_class(scores)],
        forall|j: int|
            0 <= j < best_class(scores) ==> (#[trigger] scores[j]) < scores[best_class(scores)],
    decreases scores.len(),
{
    if scores.len() > 1 {
        let front = scores.drop_last();
        lemma_best_class(front);
        assert(forall|j: int| 0 <= j < front.len() ==> front[j] == scores[j]);
    }
}

/// A score in tenths is no farther from zero than the raw score.
pub proof fn lemma_confidence_bounds(score: int)
    ensures
        score >= 0 ==> 0 <= confidence_of(score) <= score,
        score <= 0 ==> score <= confidence_of(score) <= 0,
{
    let m = if score >= 0 { score } else { -score };
    assert(0 <= (2 * (m * 10) + 1_000_000) / 2_000_000 <= m);
}

fn best_class_index(row: &Vec<i64>) -> (k: usize)
    requires
        row.len() > BOX_FIELDS,
    ensures
        k == best_class(scores_of(row@)),
        BOX_FIELDS + k < row.len(),
        row[BOX_FIELDS + k as int] == best_score(row@),
{
    let ghost scores = scores_of(row@);
    let n: usize = row.len() - BOX_FIELDS;
    let mut best: usize = 0;
    let mut i: usize = 1;
    assert(scores.subrange(0, 1).len() == 1);
    while i < n
        invariant
            n == row.len() - BOX_FIELDS,
            scores == scores_of(row@),
            1 <= i <= n,
            best < i,
            best == best_class(scores.subrange(0, i as int)),
        decreases n - i,
    {
        proof {
            assert(scores.subrange(0, i + 1).drop_last() =~= scores.subrange(0, i as int));
        }
        if row[BOX_FIELDS + i] > row[BOX_FIELDS + best] {
            best = i;
        }
        i += 1;
    }
    assert(scores.subrange(0, n as int) =~= scores);
    best
}

fn scaled_corner(twice: i128, dim: u32) -> (q: i128)
    requires
        -0x2_0000_0000_0000_0000 <= twice <= 0x2_0000_0000_0000_0000,
    ensures
        q == corner(twice as int, dim as int),
{
    let span: i128 = (dim as i128) * 16;
    assert(SUBPIXEL == 16 && 2 * MODEL_SIZE * TENSOR_ONE == 1_280_000_000);
    assert(-0x40_0000_0000_0000_0000_0000_0000 <= twice * span
        <= 0x40_0000_0000_0000_0000_0000_0000) by (nonlinear_arith)
        requires
            -0x2_0000_0000_0000_0000 <= twice <= 0x2_0000_0000_0000_0000,
            0 <= span <= 0x20_0000_0000,
    ;
    assert(twice * span == twice * dim * 16) by (nonlinear_arith)
        requires
            span == dim * 16,
    ;
    div_round(twice * span, 1_280_000_000)
}

fn box_of_row(row: &Vec<i64>, width: u32, height: u32) -> (r: Option<BoundingBox>)
    requires
        row.len() >= BOX_FIELDS,
    ensures
        r is Some <==> row_box(row@, width, height).fits(),
        r matches Some(b) ==> b == BoundingBox::of(row_box(row@, width, height)),
{
    let cx: i128 = row[0] as i128;
    let cy: i128 = row[1] as i128;
    let w: i128 = row[2] as i128;
    let h: i128 = row[3] as i128;
    let x1: i128 = scaled_corner(2 * cx - w, width);
    let y1: i128 = scaled_corner(2 * cy - h, height);
    let x2: i128 = scaled_corner(2 * cx + w, width);
    let y2: i128 = scaled_corner(2 * cy + h, height);
    let lo: i128 = -(MAX_COORD as i128);
    let hi: i128 = MAX_COORD as i128;
    if lo <= x1 && x1 <= hi && lo <= y1 && y1 <= hi && lo <= x2 && x2 <= hi && lo <= y2 && y2
        <= hi {
        let made: Option<BoundingBox> = BoundingBox::new(x1 as i32, y1 as i32, x2 as i32, y2 as i32);
        proof {
            made.unwrap().lemma_of_view();
        }
        made
    } else {
        None
    }
}

fn confidence_tenths(score: i64) -> (c: i64)
    ensures
        c == confidence_of(score as int),
{
    proof {
        lemma_confidence_bounds(score as int);
    }
    let q: i128 = div_round((score as i128) * 10, TENSOR_ONE as i128);
    q as i64
}

fn first_misshapen(rows: &Vec<Vec<i64>>) -> (r: Option<usize>)
    ensures
        r is None <==> well_shaped(rows.deep_view()),
        r matches Some(i) ==> i < rows.len() && rows.deep_view()[i as int].len() != ROW_LEN
            && well_shaped(rows.deep_view().subrange(0, i as int)),
{
    let n: usize = rows.len();
    let mut i: usize = 0;
    while i < n
        invariant
            n == rows.len(),
            i <= n,
            forall|j: int| 0 <= j < i ==> (#[trigger] rows.deep_view()[j]).len() == ROW_LEN,
        decreases n - i,
    {
        assert(rows.deep_view()[i as int] =~= rows@[i as int]@);
        if rows[i].len() != ROW_LEN {
            return Some(i);
        }
        i += 1;
    }
    None
}

/// The rows of an output that is stored value by value: first value 0 of
/// every row, then value 1 of every row, and so on.
pub open spec fn rows_of(values: Seq<i64>, row_len: nat, rows: nat) -> Seq<Seq<i64>> {
    Seq::new(rows, |a: int| Seq::new(row_len, |c: int| values[c * rows + a]))
}

/// Turns an output that is stored value by value into rows of `row_len`
/// values; none if the values do not make up whole rows.
pub fn transpose(values: &Vec<i64>, row_len: usize) -> (r: Option<Vec<Vec<i64>>>)
    ensures
        r is Some <==> row_len > 0 && values.len() % row_len == 0,
        r matches Some(rows) ==> rows.deep_view() == rows_of(
            values@,
            row_len as nat,
            (values.len() / row_len) as nat,
        ),
{
    if row_len == 0 || values.len() % row_len != 0 {
        return None;
    }
    let count: usize = values.len() / row_len;
    proof {
        vstd::arithmetic::div_mod::lemma_fundamental_div_mod(values.len() as int, row_len as int);
    }
    let mut rows: Vec<Vec<i64>> = Vec::new();
    let mut a: usize = 0;
    while a < count
        invariant
            a <= count,
            values.len() == row_len * count,
            rows.len() == a,
            forall|i: int|
                0 <= i < a ==> (#[trigger] rows[i])@ == Seq::new(
                    row_len as nat,
                    |c: int| values[c * count + i],
                ),
        decreases count - a,
    {
        let mut row: Vec<i64> = Vec::new();
        let mut c: usize = 0;
        while c < row_len
            invariant
                c <= row_len,
                a < count,
                values.len() == row_len * count,
                row.len() == c,
                forall|j: int| 0 <= j < c ==> row[j] == values[j * count + a],
            decreases row_len - c,
        {
            assert(0 <= c * count + a < row_len * count) by (nonlinear_arith)
                requires
                    0 <= c < row_len,
                    0 <= a < count,
            ;
            row.push(values[c * count + a]);
            c += 1;
        }
        assert(row@ =~= Seq::new(row_len as nat, |c: int| values[c * count + a]));
        rows.push(row);
        a += 1;
    }
    assert(rows.deep_view() =~~= rows_of(values@, row_len as nat, count as nat)) by {
        assert forall|i: int| 0 <= i < count implies (#[trigger] rows.deep_view()[i]) =~= rows_of(
            values@,
            row_len as nat,
            count as nat,
        )[i] by {
            assert(rows.deep_view()[i] =~= rows[i]@);
        }
    }
    Some(rows)
}

/// Decodes the rows of a model's output for an image of `width` by `height`
/// pixels. A row whose best score is below `threshold` gives nothing; every
/// other row gives a detection: its box scaled to the image, the class of its
/// best score, and that score in tenths. The detections come in row order.
///
/// A misshapen row is reported before anything else; otherwise the first row
/// that reaches the threshold with a box outside the coordinate range.
pub fn decode(
    rows: &Vec<Vec<i64>>,
    width: u32,
    height: u32,
    model: ModelVariant,
    threshold: i64,
) -> (r: Result<Vec<Detection>, DecodeError>)
    ensures
        r is Ok <==> well_shaped(rows.deep_view()) && boxes_fit(
            rows.deep_view(),
            width,
            height,
            threshold,
        ),
        r matches Ok(dets) ==> dets@ == decoded(rows.deep_view(), width, height, model, threshold),
        r matches Err(e) ==> fails_with(rows.deep_view(), width, height, threshold, e),
{
    match first_misshapen(rows) {
        Some(row) => {
            return Err(DecodeError::Shape { row });
        },
        None => {},
    }
    let ghost all = rows.deep_view();
    let ghost passes = |row: Seq<i64>| row_passes(row, threshold);
    let ghost build = |row: Seq<i64>| row_detection(row, width, height, model);
    let mut out: Vec<Detection> = Vec::new();
    let n: usize = rows.len();
    let mut i: usize = 0;
    proof {
        reveal(Seq::filter);
        assert(all.subrange(0, 0) =~= Seq::<Seq<i64>>::empty());
        assert(all.subrange(0, 0).filter(passes).map_values(build) =~= Seq::<Detection>::empty());
    }
    while i < n
        invariant
            n == rows.len(),
            i <= n,
            all == rows.deep_view(),
            well_shaped(all),
            passes == (|row: Seq<i64>| row_passes(row, threshold)),
            build == (|row: Seq<i64>| row_detection(row, width, height, model)),
            boxes_fit(all.subrange(0, i as int), width, height, threshold),
            out@ == all.subrange(0, i as int).filter(passes).map_values(build),
        decreases n - i,
    {
        let row: &Vec<i64> = &rows[i];
        proof {
            reveal(Seq::filter);
            assert(all[i as int] =~= row@);
            assert(all.subrange(0, i + 1).drop_last() =~= all.subrange(0, i as int));
            assert(all.subrange(0, i + 1).last() == row@);
        }
        let k: usize = best_class_index(row);
        let score: i64 = row[BOX_FIELDS + k];
        if score >= threshold {
            let label: ClassLabel = match model.label(k) {
                Some(l) => l,
                None => ClassLabel::Nothing,
            };
            let bbox: BoundingBox = match box_of_row(row, width, height) {
                Some(b) => b,
                None => {
                    return Err(DecodeError::Range { row: i });
                },
            };
            let ghost before = all.subrange(0, i as int).filter(passes);
            proof {
                assert(before.push(row@).map_values(build) =~= before.map_values(build).push(
                    build(row@),
                ));
            }
            out.push(Detection { bbox, label, confidence: confidence_tenths(score) });
        }
        proof {
            let next = all.subrange(0, i + 1);
            assert forall|j: int| 0 <= j < next.len() && row_passes(
                #[trigger] next[j],
                threshold,
            ) implies row_box(next[j], width, height).fits() by {
                if j < i {
                    assert(all.subrange(0, i as int)[j] == next[j]);
                }
            }
        }
        i += 1;
    }
    proof {
        assert(all.subrange(0, n as int) =~= all);
    }
    Ok(out)
}

} // verus!
