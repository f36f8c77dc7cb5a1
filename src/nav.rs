use vstd::prelude::*;

use crate::layout::{cap_usize, sat_sub};

verus! {

/// An input event, as the loop reads it from the terminal.
#[derive(Clone, Copy, Debug, PartialEq, Eq, Structural)]
pub enum Input {
    /// Next slide (the down arrow).
    Advance,
    /// Previous slide (the up arrow).
    Retreat,
    /// End the presentation (escape).
    Quit,
    /// Any other key or event.
    Ignored,
    /// Reading the terminal failed.
    Failed,
}

/// Why the presentation ends.
#[derive(Clone, Copy, Debug, PartialEq, Eq, Structural)]
pub enum ExitReason {
    Quit,
    EndOfDeck,
    InputError,
}

/// What the loop does next.
#[derive(Clone, Copy, Debug, PartialEq, Eq, Structural)]
pub enum Action {
    /// Render the slide at this index.
    Show(usize),
    Exit(ExitReason),
}

/// The index of the current slide. It has no upper bound of its own: an
/// index past the deck ends the presentation.
#[derive(Clone, Copy, Debug, PartialEq, Eq, Structural)]
pub struct Navigator {
    pub index: usize,
}

/// The index after moving forward: one more, saturating.
pub open spec fn advanced(index: usize) -> usize {
    cap_usize(index + 1) as usize
}

/// The index after moving back: one less, never below 0.
pub open spec fn retreated(index: usize) -> usize {
    sat_sub(index as int, 1) as usize
}

/// At `index` in a deck of `len` slides, the loop shows that slide, or ends
/// when there is none.
pub open spec fn action_at(len: usize, index: usize) -> Action {
    if index < len {
        Action::Show(index)
    } else {
        Action::Exit(ExitReason::EndOfDeck)
    }
}

/// The index and the loop's next action after `input` at `index`.
pub open spec fn step(index: usize, input: Input, len: usize) -> (usize, Action) {
    match input {
        Input::Advance => (advanced(index), action_at(len, advanced(index))),
        Input::Retreat => (retreated(index), action_at(len, retreated(index))),
        Input::Quit => (index, Action::Exit(ExitReason::Quit)),
        Input::Ignored => (index, action_at(len, index)),
        Input::Failed => (index, Action::Exit(ExitReason::InputError)),
    }
}

impl Navigator {
    /// At the first slide.
    pub fn new() -> (r: Self)
        ensures
            r.index == 0,
    {
        Navigator { index: 0 }
    }

    pub fn advance(&mut self)
        ensures
            final(self).index == advanced(old(self).index),
    {
        self.index = self.index.saturating_add(1);
    }

    pub fn retreat(&mut self)
        ensures
            final(self).index == retreated(old(self).index),
    {
        self.index = self.index.saturating_sub(1);
    }

    /// What the loop does at the current index in a deck of `len` slides.
    pub fn action(&self, len: usize) -> (r: Action)
        ensures
            r == action_at(len, self.index),
    {
        if self.index < len {
            Action::Show(self.index)
        } else {
            Action::Exit(ExitReason::EndOfDeck)
        }
    }

    /// Applies `input` and says what the loop does next.
    pub fn on_input(&mut self, input: Input, len: usize) -> (r: Action)
        ensures
            (final(self).index, r) == step(old(self).index, input, len),
    {
        match input {
            Input::Advance => {
                self.advance();
                self.action(len)
            },
            Input::Retreat => {
                self.retreat();
                self.action(len)
            },
            Input::Quit => Action::Exit(ExitReason::Quit),
            Input::Ignored => self.action(len),
            Input::Failed => Action::Exit(ExitReason::InputError),
        }
    }
}

/// Advancing from the last slide of a deck of `len` slides reaches index
/// `len`, and the loop then ends without error.
pub proof fn advance_past_last_slide_ends(len: usize)
    requires
        len >= 1,
    ensures
        step((len - 1) as usize, Input::Advance, len) == (len, Action::Exit(ExitReason::EndOfDeck)),
{
}

/// Moving back from any index never wraps: from 0 it stays at 0, from any
/// other index it goes down by one.
pub proof fn retreat_saturates(index: usize, len: usize)
    ensures
        step(index, Input::Retreat, len).0 == if index == 0 {
            0
        } else {
            index - 1
        },
{
}

} // verus!
