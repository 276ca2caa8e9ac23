//! The loop as a state machine. The caller does the work that reaches outside
//! the process (opening the device, capturing, running the model, writing
//! the report as text, publishing) and hands each result in as an event; the
//! machine answers with the next thing to do.
//!
//! One cycle: a timer tick, three captures that are thrown away, the capture
//! that is used, the preview if one is asked for, the model, the report. A
//! failure at any point ends the cycle and leaves the loop waiting for the
//! next tick; only a device that cannot be opened, or a model whose output
//! does not fit the label table, halts the machine.
//!
//! Every step but one is a function of the stage and the event: `next`. The
//! one is the frame that a cycle uses, whose pixels the decoder settles, not
//! its bytes: there `after_frame` says what follows for each way the frame can
//! be opened, and `follows` ties the two together.

use vstd::prelude::*;
use crate::camera::{DEVICE_COUNT, WARMUP_FRAMES};
use crate::config::PipelineConfig;
use crate::decode::{boxes_fit, well_shaped, DecodeError};
use crate::detect::{detections_of, report_for, DetectError};
use crate::detection::Detection;
use crate::frame::{
    is_model_input, is_opened, preview_of, view_of_opened, Frame, FrameError, Raster,
};
use crate::report::{all_covered, entry_of, report_of, ReportEntry};

verus! {

/// Why a cycle ended without a report.
#[derive(Clone, Copy, Debug, PartialEq, Eq, Structural)]
pub enum SkipReason {
    /// The device gave no frame.
    Capture,
    /// The frame could not be decoded, or has no usable size.
    Frame(FrameError),
    /// The model gave no output.
    Inference,
    /// A box of the output lies outside the coordinate range.
    BoxRange,
    /// A detection is of a class without a distance model.
    ClassUncovered,
    /// The report could not be written as text.
    Serialize,
}

/// Why the machine halted.
#[derive(Clone, Copy, Debug, PartialEq, Eq, Structural)]
pub enum HaltReason {
    /// None of the device paths could be opened.
    NoDevice,
    /// A row of the model's output does not hold a box and one score for each
    /// class of the label table.
    OutputShape,
}

/// Where the machine stands: what it waits for.
#[derive(Debug, PartialEq, Eq)]
pub enum Stage {
    /// For the outcome of opening device path number `candidate`.
    Opening { candidate: usize },
    /// For the next tick.
    Idle,
    /// For a capture that is thrown away, `remaining` of them to come.
    WarmUp { remaining: u8 },
    /// For the capture that is used.
    Capture,
    /// For the preview to be published; the model input is ready.
    PreviewOut { input: Vec<u8>, width: u32, height: u32 },
    /// For the model's output on a frame of `width` by `height` pixels.
    Inference { width: u32, height: u32 },
    /// For the report as text.
    Serialize,
    /// For nothing.
    Halted(HaltReason),
}

/// What happened outside.
#[derive(Debug, PartialEq, Eq)]
pub enum Event {
    /// The device path last asked for was opened, or not.
    Opened(bool),
    /// The timer fired.
    Tick,
    /// A capture ended, with a frame or without.
    Captured(Option<Vec<u8>>),
    /// The preview was handed to the transport.
    PreviewSent,
    /// The model ran, and gave its output rows or failed.
    Inferred(Option<Vec<Vec<i64>>>),
    /// The report was written as text, or could not be.
    Serialized(Option<String>),
}

/// What is to be done outside.
#[derive(Debug, PartialEq, Eq)]
pub enum Action {
    /// Open device path number `candidate`.
    Open { candidate: usize },
    /// Nothing; the event changed nothing.
    Rest,
    /// Nothing more in this cycle, for the reason given.
    Skip(SkipReason),
    /// Capture a frame; `discard` says whether it is one to throw away.
    Capture { discard: bool },
    /// Publish these bytes as the preview.
    PublishPreview(Vec<u8>),
    /// Run the model on this input.
    Infer(Vec<u8>),
    /// Write these entries as text.
    Serialize(Vec<ReportEntry>),
    /// Publish this text as the report; the cycle is over.
    Publish(String),
    /// Stop: the loop cannot run.
    Halt(HaltReason),
}

/// A stage with its data as mathematical values.
pub enum StageView {
    Opening { candidate: usize },
    Idle,
    WarmUp { remaining: u8 },
    Capture,
    PreviewOut { input: Seq<u8>, width: u32, height: u32 },
    Inference { width: u32, height: u32 },
    Serialize,
    Halted(HaltReason),
}

/// An event with its data as mathematical values.
pub enum EventView {
    Opened(bool),
    Tick,
    Captured(Option<Seq<u8>>),
    PreviewSent,
    Inferred(Option<Seq<Seq<i64>>>),
    Serialized(Option<Seq<char>>),
}

/// An action with its data as mathematical values.
pub enum ActionView {
    Open { candidate: usize },
    Rest,
    Skip(SkipReason),
    Capture { discard: bool },
    PublishPreview(Seq<u8>),
    Infer(Seq<u8>),
    Serialize(Seq<ReportEntry>),
    Publish(Seq<char>),
    Halt(HaltReason),
}

impl View for Stage {
    type V = StageView;

    open spec fn view(&self) -> StageView {
        match *self {
            Stage::Opening { candidate } => StageView::Opening { candidate },
            Stage::Idle => StageView::Idle,
            Stage::WarmUp { remaining } => StageView::WarmUp { remaining },
            Stage::Capture => StageView::Capture,
            Stage::PreviewOut { input, width, height } => StageView::PreviewOut {
                input: input@,
                width,
                height,
            },
            Stage::Inference { width, height } => StageView::Inference { width, height },
            Stage::Serialize => StageView::Serialize,
            Stage::Halted(reason) => StageView::Halted(reason),
        }
    }
}

impl View for Event {
    type V = EventView;

    open spec fn view(&self) -> EventView {
        match *self {
            Event::Opened(ok) => EventView::Opened(ok),
            Event::Tick => EventView::Tick,
            Event::Captured(Some(bytes)) => EventView::Captured(Some(bytes@)),
            Event::Captured(None) => EventView::Captured(None),
            Event::PreviewSent => EventView::PreviewSent,
            Event::Inferred(Some(rows)) => EventView::Inferred(Some(rows.deep_view())),
            Event::Inferred(None) => EventView::Inferred(None),
            Event::Serialized(Some(text)) => EventView::Serialized(Some(text@)),
            Event::Serialized(None) => EventView::Serialized(None),
        }
    }
}

impl View for Action {
    type V = ActionView;

    open spec fn view(&self) -> ActionView {
        match *self {
            Action::Open { candidate } => ActionView::Open { candidate },
            Action::Rest => ActionView::Rest,
            Action::Skip(reason) => ActionView::Skip(reason),
            Action::Capture { discard } => ActionView::Capture { discard },
            Action::PublishPreview(bytes) => ActionView::PublishPreview(bytes@),
            Action::Infer(input) => ActionView::Infer(input@),
            Action::Serialize(entries) => ActionView::Serialize(entries@),
            Action::Publish(text) => ActionView::Publish(text@),
            Action::Halt(reason) => ActionView::Halt(reason),
        }
    }
}

/// Whether the event is the frame that a cycle uses. What follows it
/// depends on what the frame decodes to, which the bytes do not settle.
pub open spec fn opens_frame(stage: StageView, event: EventView) -> bool {
    stage is Capture && event matches EventView::Captured(Some(_))
}

/// What follows the frame that a cycle uses, once it is opened as `frame`
/// and, where it could be opened, the model input `input` is made of it.
pub open spec fn after_frame(
    config: PipelineConfig,
    frame: Result<Raster, FrameError>,
    input: Seq<u8>,
) -> (StageView, ActionView) {
    match frame {
        Err(e) => (StageView::Idle, ActionView::Skip(SkipReason::Frame(e))),
        Ok(image) => match preview_of(image, config.preview) {
            Err(e) => (StageView::Idle, ActionView::Skip(SkipReason::Frame(e))),
            Ok(None) => (
                StageView::Inference { width: image.width as u32, height: image.height as u32 },
                ActionView::Infer(input),
            ),
            Ok(Some(jpeg)) => (
                StageView::PreviewOut {
                    input,
                    width: image.width as u32,
                    height: image.height as u32,
                },
                ActionView::PublishPreview(jpeg),
            ),
        },
    }
}

/// Whether opening a frame can give `frame`, and making the model input of
/// it `input`.
pub open spec fn can_be_opened(frame: Result<Raster, FrameError>, input: Seq<u8>) -> bool {
    is_opened(frame) && (frame is Ok ==> is_model_input(input))
}

/// What follows the model's run on a frame of `width` by `height` pixels.
pub open spec fn after_inference(
    config: PipelineConfig,
    width: u32,
    height: u32,
    output: Option<Seq<Seq<i64>>>,
) -> (StageView, ActionView) {
    match output {
        None => (StageView::Idle, ActionView::Skip(SkipReason::Inference)),
        Some(rows) => if !well_shaped(rows) {
            (StageView::Halted(HaltReason::OutputShape), ActionView::Halt(HaltReason::OutputShape))
        } else if !boxes_fit(rows, width, height, config.threshold) {
            (StageView::Idle, ActionView::Skip(SkipReason::BoxRange))
        } else {
            let dets = detections_of(
                rows,
                width,
                height,
                config.model,
                config.threshold,
                config.per_class,
            );
            if !all_covered(dets) {
                (StageView::Idle, ActionView::Skip(SkipReason::ClassUncovered))
            } else {
                (
                    StageView::Serialize,
                    ActionView::Serialize(report_of(dets.map_values(|d: Detection| entry_of(d)))),
                )
            }
        },
    }
}

/// The stage that follows `stage` on `event`, and what is to be done. An
/// event that the stage does not wait for changes nothing. For the frame that
/// a cycle uses this says nothing: see `after_frame`.
pub open spec fn next(config: PipelineConfig, stage: StageView, event: EventView) -> (
    StageView,
    ActionView,
)
    recommends
        !opens_frame(stage, event),
{
    match (stage, event) {
        (StageView::Halted(reason), _) => (stage, ActionView::Halt(reason)),
        (StageView::Opening { candidate }, EventView::Opened(true)) => (
            StageView::Idle,
            ActionView::Rest,
        ),
        (StageView::Opening { candidate }, EventView::Opened(false)) => if candidate + 1
            < DEVICE_COUNT {
            (
                StageView::Opening { candidate: (candidate + 1) as usize },
                ActionView::Open { candidate: (candidate + 1) as usize },
            )
        } else {
            (StageView::Halted(HaltReason::NoDevice), ActionView::Halt(HaltReason::NoDevice))
        },
        (StageView::Idle, EventView::Tick) => (
            StageView::WarmUp { remaining: WARMUP_FRAMES },
            ActionView::Capture { discard: true },
        ),
        (StageView::WarmUp { remaining }, EventView::Captured(_)) => if remaining > 1 {
            (
                StageView::WarmUp { remaining: (remaining - 1) as u8 },
                ActionView::Capture { discard: true },
            )
        } else {
            (StageView::Capture, ActionView::Capture { discard: false })
        },
        (StageView::Capture, EventView::Captured(None)) => (
            StageView::Idle,
            ActionView::Skip(SkipReason::Capture),
        ),
        (StageView::Capture, EventView::Captured(Some(_))) => arbitrary(),
        (StageView::PreviewOut { input, width, height }, EventView::PreviewSent) => (
            StageView::Inference { width, height },
            ActionView::Infer(input),
        ),
        (StageView::Inference { width, height }, EventView::Inferred(output)) => after_inference(
            config,
            width,
            height,
            output,
        ),
        (StageView::Serialize, EventView::Serialized(None)) => (
            StageView::Idle,
            ActionView::Skip(SkipReason::Serialize),
        ),
        (StageView::Serialize, EventView::Serialized(Some(text))) => (
            StageView::Idle,
            ActionView::Publish(text),
        ),
        _ => (stage, ActionView::Rest),
    }
}

/// Whether `outcome` can follow `event` in `stage`: for the frame that a
/// cycle uses, what follows some way the frame can be opened; for every other
/// event, what `next` says.
pub open spec fn follows(
    config: PipelineConfig,
    stage: StageView,
    event: EventView,
    outcome: (StageView, ActionView),
) -> bool {
    if opens_frame(stage, event) {
        exists|frame: Result<Raster, FrameError>, input: Seq<u8>|
            can_be_opened(frame, input) && outcome == #[trigger] after_frame(config, frame, input)
    } else {
        outcome == next(config, stage, event)
    }
}

/// The number of cycles begun, after `event` arrives in `stage`: one more
/// for a tick that begins a cycle, counted modulo 2^64.
pub open spec fn ticks_after(ticks: u64, stage: StageView, event: EventView) -> u64 {
    if stage is Idle && event is Tick {
        if ticks == u64::MAX {
            0
        } else {
            (ticks + 1) as u64
        }
    } else {
        ticks
    }
}

/// The stage reached from `stage` by the events in their order, and what was
/// to be done after each; for events of which none is the frame that a cycle
/// uses.
pub open spec fn run(config: PipelineConfig, stage: StageView, events: Seq<EventView>) -> (
    StageView,
    Seq<ActionView>,
)
    decreases events.len(),
{
    if events.len() == 0 {
        (stage, Seq::empty())
    } else {
        let before = run(config, stage, events.drop_last());
        let last = next(config, before.0, events.last());
        (last.0, before.1.push(last.1))
    }
}

/// Whether the action hands anything to the transport.
pub open spec fn publishes(action: ActionView) -> bool {
    action is Publish || action is PublishPreview
}

/// A cycle whose capture fails publishes nothing and leaves the loop waiting
/// for the next tick, whatever the three captures before it gave; the next
/// tick begins a cycle like any other.
pub proof fn lemma_failed_capture(
    config: PipelineConfig,
    first: Option<Seq<u8>>,
    second: Option<Seq<u8>>,
    third: Option<Seq<u8>>,
)
    ensures
        run(
            config,
            StageView::Idle,
            seq![
                EventView::Tick,
                EventView::Captured(first),
                EventView::Captured(second),
                EventView::Captured(third),
                EventView::Captured(None),
            ],
        ) == (
            StageView::Idle,
            seq![
                ActionView::Capture { discard: true },
                ActionView::Capture { discard: true },
                ActionView::Capture { discard: true },
                ActionView::Capture { discard: false },
                ActionView::Skip(SkipReason::Capture),
            ],
        ),
        next(config, StageView::Idle, EventView::Tick) == (
            StageView::WarmUp { remaining: WARMUP_FRAMES },
            ActionView::Capture { discard: true },
        ),
{
    let e0 = seq![EventView::Tick];
    let e1 = e0.push(EventView::Captured(first));
    let e2 = e1.push(EventView::Captured(second));
    let e3 = e2.push(EventView::Captured(third));
    let e4 = e3.push(EventView::Captured(None));
    assert(e0.drop_last() =~= Seq::<EventView>::empty());
    assert(e1.drop_last() =~= e0);
    assert(e2.drop_last() =~= e1);
    assert(e3.drop_last() =~= e2);
    assert(e4.drop_last() =~= e3);
    assert(run(config, StageView::Idle, e0.drop_last()) == (
        StageView::Idle,
        Seq::<ActionView>::empty(),
    ));
    assert(run(config, StageView::Idle, e0).0 == StageView::WarmUp { remaining: 3 });
    assert(run(config, StageView::Idle, e1).0 == StageView::WarmUp { remaining: 2 });
    assert(run(config, StageView::Idle, e2).0 == StageView::WarmUp { remaining: 1 });
    assert(run(config, StageView::Idle, e3).0 == StageView::Capture);
    assert(run(config, StageView::Idle, e4).0 == StageView::Idle);
    assert(run(config, StageView::Idle, e4).1 =~= seq![
        ActionView::Capture { discard: true },
        ActionView::Capture { discard: true },
        ActionView::Capture { discard: true },
        ActionView::Capture { discard: false },
        ActionView::Skip(SkipReason::Capture),
    ]);
    assert(e4 =~= seq![
        EventView::Tick,
        EventView::Captured(first),
        EventView::Captured(second),
        EventView::Captured(third),
        EventView::Captured(None),
    ]);
}

/// From the frame on, a cycle in which nothing fails gives the model the
/// input made of the frame, publishes the text it was handed for the report,
/// and leaves the loop waiting for the next tick. `sent` holds the event that
/// answers the preview where the mode asks for one, and is empty where it
/// asks for none.
pub proof fn lemma_whole_cycle(
    config: PipelineConfig,
    frame: Raster,
    input: Seq<u8>,
    sent: Seq<EventView>,
    output: Seq<Seq<i64>>,
    text: Seq<char>,
)
    requires
        preview_of(frame, config.preview) is Ok,
        sent == if preview_of(frame, config.preview)->Ok_0 is None {
            Seq::<EventView>::empty()
        } else {
            seq![EventView::PreviewSent]
        },
        after_inference(config, frame.width as u32, frame.height as u32, Some(output)).0
            is Serialize,
    ensures
        ({
            let start = after_frame(config, Ok(frame), input);
            let events = sent + seq![
                EventView::Inferred(Some(output)),
                EventView::Serialized(Some(text)),
            ];
            let end = run(config, start.0, events);
            let actions = seq![start.1] + end.1;
            &&& end.0 is Idle
            &&& actions.len() == events.len() + 1
            &&& actions[sent.len() as int] == ActionView::Infer(input)
            &&& actions.last() == ActionView::Publish(text)
            &&& forall|i: int|
                0 <= i < actions.len() - 1 ==> !(#[trigger] actions[i] is Publish) && !(
                actions[i] is Skip) && !(actions[i] is Halt)
        }),
{
    let start = after_frame(config, Ok(frame), input);
    let waiting = StageView::Inference { width: frame.width as u32, height: frame.height as u32 };
    let e0 = sent;
    let e1 = e0.push(EventView::Inferred(Some(output)));
    let e2 = e1.push(EventView::Serialized(Some(text)));
    assert(e1.drop_last() =~= e0);
    assert(e2.drop_last() =~= e1);
    assert(e2 =~= sent + seq![
        EventView::Inferred(Some(output)),
        EventView::Serialized(Some(text)),
    ]);
    let r0 = run(config, start.0, e0);
    let r1 = run(config, start.0, e1);
    let r2 = run(config, start.0, e2);
    if preview_of(frame, config.preview)->Ok_0 is None {
        assert(start.0 == waiting);
        assert(r0 == (waiting, Seq::<ActionView>::empty()));
    } else {
        assert(e0.drop_last() =~= Seq::<EventView>::empty());
        assert(run(config, start.0, e0.drop_last()) == (start.0, Seq::<ActionView>::empty()));
        assert(r0.0 == waiting);
        assert(r0.1 =~= seq![ActionView::Infer(input)]);
    }
    assert(r1.0 is Serialize);
    assert(r1.1 == r0.1.push(next(config, waiting, EventView::Inferred(Some(output))).1));
    assert(r2.0 is Idle);
    assert(r2.1 == r1.1.push(ActionView::Publish(text)));
    let actions = seq![start.1] + r2.1;
    assert forall|i: int| 0 <= i < actions.len() - 1 implies !(#[trigger] actions[i] is Publish)
        && !(actions[i] is Skip) && !(actions[i] is Halt) by {
        if i > 0 {
            assert(actions[i] == r2.1[i - 1]);
            assert(r2.1[i - 1] == r1.1[i - 1]);
            if i - 1 < r0.1.len() {
                assert(r1.1[i - 1] == r0.1[i - 1]);
            }
        }
    }
}

/// A failure of the work outside ends the cycle: nothing is published and
/// the loop waits for the next tick.
pub proof fn lemma_failure_ends_cycle(config: PipelineConfig, width: u32, height: u32)
    ensures
        next(config, StageView::Capture, EventView::Captured(None)) == (
            StageView::Idle,
            ActionView::Skip(SkipReason::Capture),
        ),
        next(config, StageView::Inference { width, height }, EventView::Inferred(None)) == (
            StageView::Idle,
            ActionView::Skip(SkipReason::Inference),
        ),
        next(config, StageView::Serialize, EventView::Serialized(None)) == (
            StageView::Idle,
            ActionView::Skip(SkipReason::Serialize),
        ),
        forall|e: FrameError, input: Seq<u8>|
            (#[trigger] after_frame(config, Err(e), input)) == (
                StageView::Idle,
                ActionView::Skip(SkipReason::Frame(e)),
            ),
{
}

/// A report is published only as the answer to its text, and ends the
/// cycle; a preview is published only as the answer to the frame that the
/// cycle uses, and only where the mode asks for one; and what is skipped
/// leaves the loop idle.
pub proof fn lemma_publishing(
    config: PipelineConfig,
    stage: StageView,
    event: EventView,
    outcome: (StageView, ActionView),
)
    requires
        follows(config, stage, event, outcome),
    ensures
        outcome.1 is Publish ==> stage is Serialize && event == EventView::Serialized(
            Some(outcome.1->Publish_0),
        ) && outcome.0 is Idle,
        outcome.1 is PublishPreview ==> opens_frame(stage, event) && config.preview
            != crate::preview::PreviewMode::Off,
        outcome.1 is Skip ==> outcome.0 is Idle,
        outcome.1 is Rest ==> outcome.0 == stage || (stage is Opening && event
            == EventView::Opened(true)),
{
}

/// A halted machine stays halted.
pub proof fn lemma_halted_stays(config: PipelineConfig, reason: HaltReason, event: EventView)
    ensures
        next(config, StageView::Halted(reason), event) == (
            StageView::Halted(reason),
            ActionView::Halt(reason),
        ),
{
}

/// The device paths are tried in their order, each once: the machine halts
/// when the last one fails, and is idle as soon as one opens.
pub proof fn lemma_opening(config: PipelineConfig)
    ensures
        next(config, StageView::Opening { candidate: 0 }, EventView::Opened(false)) == (
            StageView::Opening { candidate: 1 },
            ActionView::Open { candidate: 1 },
        ),
        next(config, StageView::Opening { candidate: 1 }, EventView::Opened(false)) == (
            StageView::Halted(HaltReason::NoDevice),
            ActionView::Halt(HaltReason::NoDevice),
        ),
        forall|candidate: usize|
            (#[trigger] next(
                config,
                StageView::Opening { candidate },
                EventView::Opened(true),
            )) == (StageView::Idle, ActionView::Rest),
{
}

/// What follows the frame that a cycle uses, for what opening it gave and
/// the model input made of it: the preview goes out first where the mode
/// asks for one, else the input goes to the model; a frame that could not be
/// opened, or a preview that could not be made, ends the cycle.
pub fn on_frame(config: &PipelineConfig, frame: Result<Frame, FrameError>, input: Vec<u8>) -> (r: (
    Stage,
    Action,
))
    ensures
        (r.0@, r.1@) == after_frame(*config, view_of_opened(frame), input@),
{
    let frame: Frame = match frame {
        Ok(f) => f,
        Err(e) => {
            return (Stage::Idle, Action::Skip(SkipReason::Frame(e)));
        },
    };
    let width: u32 = frame.width();
    let height: u32 = frame.height();
    match frame.preview(config.preview) {
        Err(e) => (Stage::Idle, Action::Skip(SkipReason::Frame(e))),
        Ok(None) => (Stage::Inference { width, height }, Action::Infer(input)),
        Ok(Some(jpeg)) => (Stage::PreviewOut { input, width, height }, Action::PublishPreview(jpeg)),
    }
}

fn handle_frame(config: &PipelineConfig, bytes: Vec<u8>) -> (r: (Stage, Action))
    ensures
        follows(*config, StageView::Capture, EventView::Captured(Some(bytes@)), (r.0@, r.1@)),
{
    let opened: Result<Frame, FrameError> = Frame::open(bytes.as_slice());
    let input: Vec<u8> = match &opened {
        Ok(frame) => frame.model_input(),
        Err(_) => Vec::new(),
    };
    proof {
        assert(can_be_opened(view_of_opened(opened), input@));
    }
    on_frame(config, opened, input)
}

fn handle_output(config: &PipelineConfig, width: u32, height: u32, rows: Vec<Vec<i64>>) -> (r: (
    Stage,
    Action,
))
    ensures
        (r.0@, r.1@) == after_inference(*config, width, height, Some(rows.deep_view())),
{
    match report_for(&rows, width, height, config.model, config.threshold, config.per_class) {
        Ok(entries) => (Stage::Serialize, Action::Serialize(entries)),
        Err(DetectError::Decode(DecodeError::Shape { .. })) => (
            Stage::Halted(HaltReason::OutputShape),
            Action::Halt(HaltReason::OutputShape),
        ),
        Err(DetectError::Decode(DecodeError::Range { .. })) => (
            Stage::Idle,
            Action::Skip(SkipReason::BoxRange),
        ),
        Err(DetectError::Uncovered(_)) => (Stage::Idle, Action::Skip(SkipReason::ClassUncovered)),
    }
}

/// The stage that follows `stage` on `event`, and what is to be done. The
/// bytes of the frame that a cycle uses go to the decoder as they came.
pub fn advance(config: &PipelineConfig, stage: Stage, event: Event) -> (r: (Stage, Action))
    ensures
        follows(*config, stage@, event@, (r.0@, r.1@)),
{
    match stage {
        Stage::Halted(reason) => (Stage::Halted(reason), Action::Halt(reason)),
        Stage::Opening { candidate } => match event {
            Event::Opened(true) => (Stage::Idle, Action::Rest),
            Event::Opened(false) => if candidate < DEVICE_COUNT - 1 {
                (Stage::Opening { candidate: candidate + 1 }, Action::Open { candidate: candidate + 1 })
            } else {
                (Stage::Halted(HaltReason::NoDevice), Action::Halt(HaltReason::NoDevice))
            },
            _ => (Stage::Opening { candidate }, Action::Rest),
        },
        Stage::Idle => match event {
            Event::Tick => (
                Stage::WarmUp { remaining: WARMUP_FRAMES },
                Action::Capture { discard: true },
            ),
            _ => (Stage::Idle, Action::Rest),
        },
        Stage::WarmUp { remaining } => match event {
            Event::Captured(_) => if remaining > 1 {
                (Stage::WarmUp { remaining: remaining - 1 }, Action::Capture { discard: true })
            } else {
                (Stage::Capture, Action::Capture { discard: false })
            },
            _ => (Stage::WarmUp { remaining }, Action::Rest),
        },
        Stage::Capture => match event {
            Event::Captured(None) => (Stage::Idle, Action::Skip(SkipReason::Capture)),
            Event::Captured(Some(bytes)) => handle_frame(config, bytes),
            _ => (Stage::Capture, Action::Rest),
        },
        Stage::PreviewOut { input, width, height } => match event {
            Event::PreviewSent => (Stage::Inference { width, height }, Action::Infer(input)),
            _ => (Stage::PreviewOut { input, width, height }, Action::Rest),
        },
        Stage::Inference { width, height } => match event {
            Event::Inferred(None) => (Stage::Idle, Action::Skip(SkipReason::Inference)),
            Event::Inferred(Some(rows)) => handle_output(config, width, height, rows),
            _ => (Stage::Inference { width, height }, Action::Rest),
        },
        Stage::Serialize => match event {
            Event::Serialized(None) => (Stage::Idle, Action::Skip(SkipReason::Serialize)),
            Event::Serialized(Some(text)) => (Stage::Idle, Action::Publish(text)),
            _ => (Stage::Serialize, Action::Rest),
        },
    }
}

/// The loop's state: its settings, where it stands, and how many cycles it
/// has begun.
pub struct Orchestrator {
    config: PipelineConfig,
    stage: Stage,
    ticks: u64,
}

/// The state of the loop as mathematical values.
pub struct OrchestratorView {
    pub config: PipelineConfig,
    pub stage: StageView,
    pub ticks: u64,
}

impl View for Orchestrator {
    type V = OrchestratorView;

    closed spec fn view(&self) -> OrchestratorView {
        OrchestratorView { config: self.config, stage: self.stage@, ticks: self.ticks }
    }
}

impl Orchestrator {
    /// A loop that is about to open the first device path, and the request
    /// to open it.
    pub fn new(config: PipelineConfig) -> (r: (Orchestrator, Action))
        ensures
            r.0@ == (OrchestratorView {
                config,
                stage: StageView::Opening { candidate: 0 },
                ticks: 0,
            }),
            r.1@ == (ActionView::Open { candidate: 0 }),
    {
        (
            Orchestrator { config, stage: Stage::Opening { candidate: 0 }, ticks: 0 },
            Action::Open { candidate: 0 },
        )
    }

    /// The settings the loop was made with.
    pub fn config(&self) -> (c: PipelineConfig)
        ensures
            c == self@.config,
    {
        self.config
    }

    /// The number of cycles begun so far, modulo 2^64.
    pub fn ticks(&self) -> (n: u64)
        ensures
            n == self@.ticks,
    {
        self.ticks
    }

    /// Whether the loop waits for the next tick.
    pub fn is_idle(&self) -> (b: bool)
        ensures
            b == (self@.stage is Idle),
    {
        match self.stage {
            Stage::Idle => true,
            _ => false,
        }
    }

    /// Whether the loop has halted.
    pub fn is_halted(&self) -> (b: bool)
        ensures
            b == (self@.stage is Halted),
    {
        match self.stage {
            Stage::Halted(_) => true,
            _ => false,
        }
    }

    /// Takes in what happened outside, moves to the next stage, and says
    /// what is to be done. The settings never change.
    pub fn step(&mut self, event: Event) -> (action: Action)
        ensures
            follows(old(self)@.config, old(self)@.stage, event@, (final(self)@.stage, action@)),
            final(self)@.config == old(self)@.config,
            final(self)@.ticks == ticks_after(old(self)@.ticks, old(self)@.stage, event@),
    {
        let mut stage: Stage = Stage::Idle;
        std::mem::swap(&mut self.stage, &mut stage);
        let begins: bool = match (&stage, &event) {
            (Stage::Idle, Event::Tick) => true,
            _ => false,
        };
        if begins {
            self.ticks = if self.ticks == u64::MAX { 0 } else { self.ticks + 1 };
        }
        let (following, action) = advance(&self.config, stage, event);
        self.stage = following;
        action
    }
}

} // verus!
