//! The per-tick input snapshot handed to the simulation.
use vstd::prelude::*;
use crate::geom::{bounded, rect_ok, Rect, Vec2};

verus! {

/// State of a button or key during one tick.
#[derive(Clone, Copy, Debug, PartialEq, Eq, Structural)]
pub enum KeyStatus {
    Up,
    JustPressed,
    Pressed,
    JustReleased,
}

impl KeyStatus {
    pub open spec fn is_held(&self) -> bool {
        *self == KeyStatus::JustPressed || *self == KeyStatus::Pressed
    }

    /// Down during this tick, whether or not it went down on it.
    pub fn held(&self) -> (r: bool)
        ensures
            r == self.is_held(),
    {
        match self {
            KeyStatus::JustPressed => true,
            KeyStatus::Pressed => true,
            _ => false,
        }
    }

    /// Went down on this tick.
    pub fn just_pressed(&self) -> (r: bool)
        ensures
            r == (*self == KeyStatus::JustPressed),
    {
        match self {
            KeyStatus::JustPressed => true,
            _ => false,
        }
    }
}

/// Everything the simulation reads from the platform for one tick.
#[derive(Clone, Copy, Debug, PartialEq, Eq, Structural)]
pub struct FrameInputState {
    /// Milliseconds since the previous tick.
    pub dt_ms: u32,
    /// Seed of this tick's random decisions.
    pub seed: u32,
    /// Pointer position, in the units of `screen_rect`.
    pub mouse_pos: Vec2,
    pub screen_rect: Rect,
    pub up: KeyStatus,
    pub down: KeyStatus,
    pub left: KeyStatus,
    pub right: KeyStatus,
    pub lmb: KeyStatus,
    pub rmb: KeyStatus,
    pub build: KeyStatus,
    pub reset: KeyStatus,
    pub scroll_up: bool,
    pub scroll_down: bool,
}

impl FrameInputState {
    pub open spec fn wf(&self) -> bool {
        rect_ok(self.screen_rect) && self.screen_rect.w > 0 && self.screen_rect.h > 0 && bounded(
            self.mouse_pos,
        )
    }

    /// A snapshot with nothing pressed, over the given screen.
    pub fn idle(dt_ms: u32, seed: u32, screen_rect: Rect) -> (r: FrameInputState)
        ensures
            r.dt_ms == dt_ms,
            r.seed == seed,
            r.screen_rect == screen_rect,
            r.mouse_pos == (Vec2 { x: screen_rect.x, y: screen_rect.y }),
            r.up == KeyStatus::Up && r.down == KeyStatus::Up && r.left == KeyStatus::Up && r.right == KeyStatus::Up,
            r.lmb == KeyStatus::Up && r.rmb == KeyStatus::Up && r.build == KeyStatus::Up && r.reset == KeyStatus::Up,
            !r.scroll_up && !r.scroll_down,
    {
        FrameInputState {
            dt_ms,
            seed,
            mouse_pos: Vec2 { x: screen_rect.x, y: screen_rect.y },
            screen_rect,
            up: KeyStatus::Up,
            down: KeyStatus::Up,
            left: KeyStatus::Up,
            right: KeyStatus::Up,
            lmb: KeyStatus::Up,
            rmb: KeyStatus::Up,
            build: KeyStatus::Up,
            reset: KeyStatus::Up,
            scroll_up: false,
            scroll_down: false,
        }
    }
}

} // verus!
