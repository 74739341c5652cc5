//! The editable command line of the console's text prompt: a line of text with a cursor.

use vstd::prelude::*;
use super::input::ConsoleInput;
use crate::util::string_from_chars;

verus! {

/// The editable command line of the console.
pub struct CmdLine {
    line: ConsoleInput,
}

impl CmdLine {
    /// The text.
    pub closed spec fn text(&self) -> Seq<char> {
        self.line.text()
    }

    /// The position of the cursor: the number of characters before it.
    pub closed spec fn cursor(&self) -> nat {
        self.line.cursor()
    }

    /// The cursor is within the text.
    pub closed spec fn wf(&self) -> bool {
        self.line.wf()
    }

    /// An empty line with the cursor at its start.
    pub fn new() -> (r: CmdLine)
        ensures
            r.wf(),
            r.text() == Seq::<char>::empty(),
            r.cursor() == 0,
    {
        CmdLine { line: ConsoleInput::new() }
    }

    /// Inserts a character at the cursor and moves the cursor past it.
    pub fn insert(&mut self, c: char)
        requires
            old(self).wf(),
        ensures
            final(self).wf(),
            final(self).text() == old(self).text().insert(old(self).cursor() as int, c),
            final(self).cursor() == old(self).cursor() + 1,
    {
        self.line.insert(c);
    }

    /// Moves the cursor one character to the right, unless it is at the end.
    pub fn cursor_right(&mut self)
        requires
            old(self).wf(),
        ensures
            final(self).wf(),
            final(self).text() == old(self).text(),
            final(self).cursor() == if old(self).cursor() < old(self).text().len() {
                old(self).cursor() + 1
            } else {
                old(self).cursor()
            },
    {
        self.line.cursor_right();
    }

    /// Moves the cursor one character to the left, unless it is at the start.
    pub fn cursor_left(&mut self)
        requires
            old(self).wf(),
        ensures
            final(self).wf(),
            final(self).text() == old(self).text(),
            final(self).cursor() == if old(self).cursor() > 0 {
                old(self).cursor() - 1
            } else {
                0
            },
    {
        self.line.cursor_left();
    }

    /// Deletes the character after the cursor, if there is one.
    pub fn delete(&mut self)
        requires
            old(self).wf(),
        ensures
            final(self).wf(),
            final(self).text() == if old(self).cursor() < old(self).text().len() {
                old(self).text().remove(old(self).cursor() as int)
            } else {
                old(self).text()
            },
            final(self).cursor() == old(self).cursor(),
    {
        self.line.delete();
    }

    /// Deletes the character before the cursor, if there is one, and moves the cursor back.
    pub fn backspace(&mut self)
        requires
            old(self).wf(),
        ensures
            final(self).wf(),
            old(self).cursor() > 0 ==> final(self).text() == old(self).text().remove(
                old(self).cursor() - 1,
            ) && final(self).cursor() == old(self).cursor() - 1,
            old(self).cursor() == 0 ==> final(self).text() == old(self).text()
                && final(self).cursor() == 0,
    {
        self.line.backspace();
    }

    /// The text of the line.
    pub fn get_string(&self) -> (r: String)
        ensures
            r@ == self.text(),
    {
        let chars = self.line.get_text();
        string_from_chars(chars.as_slice())
    }

    /// The text with an underscore where the cursor is.
    pub fn debug_string(&self) -> (r: String)
        requires
            self.wf(),
        ensures
            r@ == self.text().take(self.cursor() as int) + seq!['_'] + self.text().skip(
                self.cursor() as int,
            ),
    {
        self.line.debug_string()
    }
}

} // verus!
