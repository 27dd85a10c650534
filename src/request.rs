//! The requests that the manager asks the connection to perform.
use vstd::prelude::*;
use crate::atom::{Window, WmState};

verus! {

/// How a configured window is restacked relative to its sibling.
#[derive(PartialEq, Eq, Structural, Clone, Copy, Debug)]
pub enum StackMode {
    Above,
    Below,
    TopIf,
    BottomIf,
    Opposite,
}

/// The fields of a ConfigureWindow request; `None` leaves a field unchanged.
#[derive(PartialEq, Eq, Structural, Clone, Copy, Debug)]
pub struct WindowChanges {
    pub x: Option<i32>,
    pub y: Option<i32>,
    pub width: Option<u32>,
    pub height: Option<u32>,
    pub border_width: Option<u32>,
    pub sibling: Option<Window>,
    pub stack_mode: Option<StackMode>,
}

impl WindowChanges {
    /// Changes nothing.
    pub fn new() -> (r: WindowChanges)
        ensures
            r == WindowChanges::none(),
    {
        WindowChanges {
            x: None,
            y: None,
            width: None,
            height: None,
            border_width: None,
            sibling: None,
            stack_mode: None,
        }
    }

    pub open spec fn none() -> WindowChanges {
        WindowChanges {
            x: None,
            y: None,
            width: None,
            height: None,
            border_width: None,
            sibling: None,
            stack_mode: None,
        }
    }
}

/// The 16-bit form of an event mask that core requests such as GrabButton
/// take; only masks that fit are accepted.
pub fn event_mask_to_u16(mask: u32) -> (r: u16)
    requires
        mask <= u16::MAX,
    ensures
        r == mask,
{
    mask as u16
}

} // verus!
