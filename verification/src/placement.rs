//! Where the popup sits on the screen, as layer-shell anchors and margins.
use vstd::prelude::*;
use crate::config::{BehaviorConfig, ClickToCopy, WindowConfig, WindowPosition};

verus! {

/// The screen edges that the popup is anchored to, each with its margin in
/// pixels; an edge without a margin is not anchored (and has margin 0).
#[derive(Clone, Copy, Debug, PartialEq, Eq, Structural)]
pub struct Anchors {
    pub top: Option<i32>,
    pub bottom: Option<i32>,
    pub left: Option<i32>,
    pub right: Option<i32>,
}

/// A margin, with negative values raised to 0.
pub open spec fn margin(m: i32) -> i32 {
    if m < 0 {
        0
    } else {
        m
    }
}

/// The anchors of each position: none for the centre, the top and left edges
/// at the configured offsets for `offset`, and the named edges at margin 0
/// otherwise.
pub open spec fn anchors_spec(config: WindowConfig) -> Anchors {
    let none = Anchors { top: None, bottom: None, left: None, right: None };
    match config.position {
        WindowPosition::Center => none,
        WindowPosition::Offset => Anchors {
            top: Some(margin(config.offset_y)),
            left: Some(margin(config.offset_x)),
            ..none
        },
        WindowPosition::Top => Anchors { top: Some(0), ..none },
        WindowPosition::TopLeft => Anchors { top: Some(0), left: Some(0), ..none },
        WindowPosition::TopRight => Anchors { top: Some(0), right: Some(0), ..none },
        WindowPosition::Bottom => Anchors { bottom: Some(0), ..none },
        WindowPosition::BottomLeft => Anchors { bottom: Some(0), left: Some(0), ..none },
        WindowPosition::BottomRight => Anchors { bottom: Some(0), right: Some(0), ..none },
    }
}

fn non_negative(m: i32) -> (r: i32)
    ensures
        r == margin(m),
{
    if m < 0 {
        0
    } else {
        m
    }
}

/// The anchors and margins of the popup for the window settings.
pub fn window_anchors(config: &WindowConfig) -> (r: Anchors)
    ensures
        r == anchors_spec(*config),
{
    let none = Anchors { top: None, bottom: None, left: None, right: None };
    match config.position {
        WindowPosition::Center => none,
        WindowPosition::Offset => Anchors {
            top: Some(non_negative(config.offset_y)),
            left: Some(non_negative(config.offset_x)),
            ..none
        },
        WindowPosition::Top => Anchors { top: Some(0), ..none },
        WindowPosition::TopLeft => Anchors { top: Some(0), left: Some(0), ..none },
        WindowPosition::TopRight => Anchors { top: Some(0), right: Some(0), ..none },
        WindowPosition::Bottom => Anchors { bottom: Some(0), ..none },
        WindowPosition::BottomLeft => Anchors { bottom: Some(0), left: Some(0), ..none },
        WindowPosition::BottomRight => Anchors { bottom: Some(0), right: Some(0), ..none },
    }
}

/// Whether one click on a row copies it (otherwise it takes two).
pub fn single_click_copies(behavior: &BehaviorConfig) -> (r: bool)
    ensures
        r == (behavior.click_to_copy == ClickToCopy::Single),
{
    match behavior.click_to_copy {
        ClickToCopy::Single => true,
        ClickToCopy::Double => false,
    }
}

/// Every margin is non-negative, and the popup is never anchored to two
/// opposite edges.
pub proof fn lemma_margins_are_non_negative(config: WindowConfig)
    ensures
        ({
            let a = anchors_spec(config);
            &&& a.top matches Some(m) ==> m >= 0
            &&& a.bottom matches Some(m) ==> m >= 0
            &&& a.left matches Some(m) ==> m >= 0
            &&& a.right matches Some(m) ==> m >= 0
            &&& !(a.top is Some && a.bottom is Some)
            &&& !(a.left is Some && a.right is Some)
        }),
{
}

/// Every position but `offset` ignores the offsets.
pub proof fn lemma_named_positions_ignore_offsets(a: WindowConfig, b: WindowConfig)
    requires
        a.position == b.position,
        a.position != WindowPosition::Offset,
    ensures
        anchors_spec(a) == anchors_spec(b),
{
}

} // verus!
