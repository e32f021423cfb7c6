//! A cursor over the characters of a template, with one character of lookahead.

use vstd::prelude::*;
use crate::text::chars_of;

verus! {

/// A template held in memory together with the index of the next unread
/// character.
pub struct Cursor {
    chars: Vec<char>,
    pos: usize,
}

impl Cursor {
    #[verifier::type_invariant]
    spec fn in_bounds(&self) -> bool {
        self.pos <= self.chars.len()
    }

    /// Every character of the template, read or not.
    pub closed spec fn text(&self) -> Seq<char> {
        self.chars@
    }

    /// The index in `text()` of the next unread character.
    pub closed spec fn position(&self) -> int {
        self.pos as int
    }

    /// What `peek` shows: the character at `position()`, if there is one.
    pub open spec fn upcoming(&self) -> Option<char> {
        if 0 <= self.position() < self.text().len() {
            Some(self.text()[self.position()])
        } else {
            None
        }
    }

    /// A cursor at the start of `text`.
    pub fn new(text: &str) -> (cursor: Cursor)
        ensures
            cursor.text() == text@,
            cursor.position() == 0,
    {
        Cursor { chars: chars_of(text), pos: 0 }
    }

    /// The number of characters already read.
    pub fn offset(&self) -> (n: usize)
        ensures
            n == self.position(),
            0 <= self.position() <= self.text().len(),
    {
        proof {
            use_type_invariant(self);
        }
        self.pos
    }

    /// The next character, without consuming it.
    pub fn peek(&self) -> (next: Option<char>)
        ensures
            next == self.upcoming(),
            0 <= self.position() <= self.text().len(),
    {
        proof {
            use_type_invariant(self);
        }
        if self.pos < self.chars.len() {
            Some(self.chars[self.pos])
        } else {
            None
        }
    }

    /// Moves the cursor to `position`, or to the end of the template where
    /// `position` lies beyond it.
    pub fn seek(&mut self, position: usize)
        ensures
            final(self).text() == old(self).text(),
            final(self).position() == if position <= old(self).text().len() {
                position as int
            } else {
                old(self).text().len() as int
            },
    {
        if position <= self.chars.len() {
            self.pos = position;
        } else {
            self.pos = self.chars.len();
        }
    }

    /// Consumes and returns the next character; at the end of the template
    /// it returns `None` and the cursor stays where it is.
    pub fn next(&mut self) -> (next: Option<char>)
        ensures
            next == old(self).upcoming(),
            final(self).text() == old(self).text(),
            final(self).position() == old(self).position() + (if next is Some { 1int } else { 0int }),
            0 <= old(self).position() <= final(self).position() <= final(self).text().len(),
    {
        proof {
            use_type_invariant(&*self);
        }
        if self.pos < self.chars.len() {
            let c = self.chars[self.pos];
            self.pos = self.pos + 1;
            Some(c)
        } else {
            None
        }
    }
}

} // verus!
