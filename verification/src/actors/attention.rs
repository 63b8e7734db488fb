//! Attention - O Eu (The "I"): which memory window holds focus.
//!
//! Windows compete by salience; the winner of each competition is offered
//! focus. Focus, once taken, is held for a minimum time before another
//! window may take it; when no window competes, focus is released.
use vstd::prelude::*;
use std::time::Duration;
use crate::cognition::cognitive_loop::{
    duration_le, duration_length, duration_nanos, duration_sum, duration_zero, max_duration_nanos,
};
use crate::cognition::types::WindowId;

verus! {

/// Which window holds focus, and for how long it has held it
#[derive(Debug)]
pub struct FocusState {
    /// The focused window, if any
    pub current: Option<WindowId>,
    /// How long the current window has held focus
    pub focus_duration: Duration,
}

impl FocusState {
    /// Nothing in focus
    pub fn new() -> (f: Self)
        ensures
            f.current is None,
            duration_nanos(f.focus_duration) == 0,
    {
        FocusState { current: None, focus_duration: duration_zero() }
    }

    /// Whether some window holds focus
    pub fn is_focused(&self) -> (r: bool)
        ensures
            r == self.current is Some,
    {
        self.current.is_some()
    }

    /// The focused window, if any
    pub fn focused_window(&self) -> (w: Option<WindowId>)
        ensures
            w == self.current,
    {
        self.current
    }

    /// Give focus to `window_id`, starting its hold time afresh
    pub fn focus_on(&mut self, window_id: WindowId)
        ensures
            final(self).current == Some(window_id),
            duration_nanos(final(self).focus_duration) == 0,
    {
        self.current = Some(window_id);
        self.focus_duration = duration_zero();
    }

    /// Release focus
    pub fn clear_focus(&mut self)
        ensures
            final(self).current is None,
            duration_nanos(final(self).focus_duration) == 0,
    {
        self.current = None;
        self.focus_duration = duration_zero();
    }

    /// Whether focus can be held for `step` longer without its length
    /// passing that of the longest `Duration`
    pub fn can_extend(&self, step: &Duration) -> (r: bool)
        ensures
            r == (duration_nanos(self.focus_duration) + duration_nanos(*step)
                <= max_duration_nanos()),
    {
        let max: u128 = 18_446_744_073_709_551_615u128 * 1_000_000_000u128 + 999_999_999u128;
        duration_length(&self.focus_duration) + duration_length(step) <= max
    }

    /// The current window has held focus for `elapsed` longer
    pub fn update_duration(&mut self, elapsed: Duration)
        requires
            duration_nanos(old(self).focus_duration) + duration_nanos(elapsed)
                <= max_duration_nanos(),
        ensures
            final(self).current == old(self).current,
            duration_nanos(final(self).focus_duration) == duration_nanos(old(self).focus_duration)
                + duration_nanos(elapsed),
    {
        self.focus_duration = duration_sum(self.focus_duration, elapsed);
    }

    /// Focus may move when nothing holds it or the current window has held
    /// it for at least `min_focus`
    pub fn can_shift_focus(&self, min_focus: Duration) -> (r: bool)
        ensures
            r == (self.current is None || duration_nanos(min_focus) <= duration_nanos(
                self.focus_duration,
            )),
    {
        if !self.is_focused() {
            return true;
        }
        duration_le(&min_focus, &self.focus_duration)
    }

    /// Settle focus after a competition. With no winner, focus is released.
    /// With a winner, the current window (if any) has held focus `step`
    /// longer; the winner then takes focus if focus may move and the winner
    /// is not already focused.
    pub fn settle(&mut self, winner: Option<WindowId>, step: Duration, min_focus: Duration)
        requires
            duration_nanos(old(self).focus_duration) + duration_nanos(step)
                <= max_duration_nanos(),
        ensures
            final(self)@ == old(self)@.settled(
                winner,
                duration_nanos(step),
                duration_nanos(min_focus),
            ),
    {
        match winner {
            None => self.clear_focus(),
            Some(w) => {
                if self.is_focused() {
                    self.update_duration(step);
                }
                if self.can_shift_focus(min_focus) && self.focused_window() != Some(w) {
                    self.focus_on(w);
                }
            },
        }
    }
}

/// Mathematical model of a `FocusState`.
pub struct FocusView {
    pub current: Option<WindowId>,
    pub held: nat,
}

impl View for FocusState {
    type V = FocusView;

    open spec fn view(&self) -> FocusView {
        FocusView { current: self.current, held: duration_nanos(self.focus_duration) }
    }
}

impl FocusView {
    /// The focus after a competition won by `winner` (none when no window
    /// competed), `step` after the last one, with focus held at least
    /// `min_focus` before it moves.
    pub open spec fn settled(self, winner: Option<WindowId>, step: nat, min_focus: nat) -> FocusView {
        match winner {
            None => FocusView { current: None, held: 0 },
            Some(w) => {
                let held = if self.current is Some {
                    self.held + step
                } else {
                    self.held
                };
                if (self.current is None || min_focus <= held) && self.current != Some(w) {
                    FocusView { current: Some(w), held: 0 }
                } else {
                    FocusView { current: self.current, held }
                }
            },
        }
    }
}

/// A window that has held focus for less than the minimum keeps it,
/// whichever window wins the next competition.
pub proof fn lemma_focus_held_for_minimum(f: FocusView, w: WindowId, step: nat, min_focus: nat)
    requires
        f.current is Some,
        f.held + step < min_focus,
    ensures
        f.settled(Some(w), step, min_focus).current == f.current,
{
}

/// After a competition with a winner, focus is on the winner or stays where
/// it was; it is never released.
pub proof fn lemma_focus_follows_winner(f: FocusView, w: WindowId, step: nat, min_focus: nat)
    ensures
        f.settled(Some(w), step, min_focus).current == Some(w)
            || f.settled(Some(w), step, min_focus).current == f.current,
        f.settled(Some(w), step, min_focus).current is Some,
{
}

/// Unfocused, the winner of a competition takes focus at once.
pub proof fn lemma_winner_takes_free_focus(f: FocusView, w: WindowId, step: nat, min_focus: nat)
    requires
        f.current is None,
    ensures
        f.settled(Some(w), step, min_focus).current == Some(w),
{
}

} // verus!
