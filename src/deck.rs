use vstd::prelude::*;

use crate::nav::{action_at, Action};

verus! {

/// One slide of a deck.
#[derive(Clone, Debug)]
pub enum Slide {
    /// Text centred on screen.
    Text(String),
    /// A markdown file, read when the slide is shown.
    Markdown(String),
    /// An image file, read and decoded when the slide is shown.
    Image(String),
    /// A source file and the language tag that highlights it.
    Code(String, String),
    /// A command to run; its output goes straight to the terminal.
    Command(Vec<String>),
}

/// The slides in the order they are presented.
#[derive(Clone, Debug)]
pub struct Deck {
    pub slides: Vec<Slide>,
}

impl Deck {
    pub fn new(slides: Vec<Slide>) -> (r: Self)
        ensures
            r.slides@ == slides@,
    {
        Deck { slides }
    }

    pub fn len(&self) -> (r: usize)
        ensures
            r == self.slides@.len(),
    {
        self.slides.len()
    }

    /// The slide at `index`, or `None` past the end.
    pub fn slide(&self, index: usize) -> (r: Option<&Slide>)
        ensures
            index < self.slides@.len() ==> r == Some(&self.slides@[index as int]),
            index >= self.slides@.len() ==> r.is_none(),
    {
        if index < self.slides.len() {
            Some(&self.slides[index])
        } else {
            None
        }
    }

    /// What the loop does at `index`: show that slide, or end past the last one.
    pub fn action_at(&self, index: usize) -> (r: Action)
        ensures
            r == action_at(self.slides@.len() as usize, index),
    {
        if index < self.slides.len() {
            Action::Show(index)
        } else {
            Action::Exit(crate::nav::ExitReason::EndOfDeck)
        }
    }
}

} // verus!
