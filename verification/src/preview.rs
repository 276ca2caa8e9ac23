//! The preview image that may go out with each cycle, by bandwidth.

use vstd::prelude::*;
use crate::text::same_text;

verus! {

/// How much of the frame is published as a preview.
#[derive(Clone, Copy, Debug, PartialEq, Eq, Structural)]
pub enum PreviewMode {
    /// No preview.
    Off,
    /// 320 by 180 pixels, grayscale.
    Low,
    /// 320 by 180 pixels, colour.
    Med,
    /// 640 by 360 pixels, colour.
    High,
}

/// Size and colour of a preview.
#[derive(Clone, Copy, Debug, PartialEq, Eq, Structural)]
pub struct PreviewPlan {
    pub width: u32,
    pub height: u32,
    pub gray: bool,
}

/// The preview that a mode asks for, if it asks for one.
pub open spec fn plan_of(mode: PreviewMode) -> Option<PreviewPlan> {
    match mode {
        PreviewMode::Off => None,
        PreviewMode::Low => Some(PreviewPlan { width: 320, height: 180, gray: true }),
        PreviewMode::Med => Some(PreviewPlan { width: 320, height: 180, gray: false }),
        PreviewMode::High => Some(PreviewPlan { width: 640, height: 360, gray: false }),
    }
}

impl PreviewMode {
    /// The mode that goes by `name`: `none`, `low`, `med` or `high`.
    pub open spec fn named(name: Seq<char>) -> Option<PreviewMode> {
        if name == "none"@ {
            Some(PreviewMode::Off)
        } else if name == "low"@ {
            Some(PreviewMode::Low)
        } else if name == "med"@ {
            Some(PreviewMode::Med)
        } else if name == "high"@ {
            Some(PreviewMode::High)
        } else {
            None
        }
    }

    /// The mode that goes by `name`: `none`, `low`, `med` or `high`.
    pub fn from_name(name: &str) -> (r: Option<PreviewMode>)
        ensures
            r == PreviewMode::named(name@),
    {
        if same_text(name, "none") {
            Some(PreviewMode::Off)
        } else if same_text(name, "low") {
            Some(PreviewMode::Low)
        } else if same_text(name, "med") {
            Some(PreviewMode::Med)
        } else if same_text(name, "high") {
            Some(PreviewMode::High)
        } else {
            None
        }
    }

    /// The preview that this mode asks for, if it asks for one.
    pub fn plan(self) -> (r: Option<PreviewPlan>)
        ensures
            r == plan_of(self),
    {
        match self {
            PreviewMode::Off => None,
            PreviewMode::Low => Some(PreviewPlan { width: 320, height: 180, gray: true }),
            PreviewMode::Med => Some(PreviewPlan { width: 320, height: 180, gray: false }),
            PreviewMode::High => Some(PreviewPlan { width: 640, height: 360, gray: false }),
        }
    }
}

} // verus!
