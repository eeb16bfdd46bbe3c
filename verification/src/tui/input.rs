//! Text-input state: a character buffer with a character-indexed
//! cursor.

use vstd::prelude::*;
use crate::text;

verus! {

/// The displayed column width of a string; a pure function of its
/// characters.
pub uninterp spec fn display_width_of(s: Seq<char>) -> usize;

/// Relies on unicode_width's `UnicodeWidthStr::width`: the displayed
/// width depends on the characters alone.
#[verifier::external_body]
fn str_display_width(s: &str) -> (r: usize)
    ensures
        r == display_width_of(s@),
{
    unicode_width::UnicodeWidthStr::width(s)
}

/// Text-input state. The cursor counts characters, never bytes, and
/// always sits within the buffer.
#[derive(Debug, Clone)]
pub struct InputState {
    buffer: Vec<char>,
    cursor: usize,
}

impl InputState {
    /// The buffered characters.
    pub closed spec fn buffer_spec(self) -> Seq<char> {
        self.buffer@
    }

    /// The cursor, as a character index.
    pub closed spec fn cursor_spec(self) -> int {
        self.cursor as int
    }

    /// The cursor sits within the buffer.
    pub open spec fn wf(self) -> bool {
        0 <= self.cursor_spec() <= self.buffer_spec().len()
    }

    /// Fresh, empty input.
    pub fn new() -> (r: Self)
        ensures
            r.wf(),
            r.buffer_spec().len() == 0,
            r.cursor_spec() == 0,
    {
        InputState { buffer: Vec::new(), cursor: 0 }
    }

    /// Input holding a given value, cursor at its end.
    pub fn with_value(value: &str) -> (r: Self)
        ensures
            r.wf(),
            r.buffer_spec() == value@,
            r.cursor_spec() == value@.len(),
    {
        let buffer = text::str_to_chars(value);
        let cursor = buffer.len();
        InputState { buffer, cursor }
    }

    /// Empty the buffer.
    pub fn clear(&mut self)
        ensures
            final(self).wf(),
            final(self).buffer_spec().len() == 0,
            final(self).cursor_spec() == 0,
    {
        self.buffer.clear();
        self.cursor = 0;
    }

    /// Insert a character at the cursor and step past it.
    pub fn insert_char(&mut self, c: char)
        requires
            old(self).wf(),
            old(self).buffer_spec().len() < usize::MAX,
        ensures
            final(self).wf(),
            final(self).buffer_spec() == old(self).buffer_spec().insert(
                old(self).cursor_spec(),
                c,
            ),
            final(self).cursor_spec() == old(self).cursor_spec() + 1,
    {
        self.buffer.insert(self.cursor, c);
        self.cursor = self.cursor + 1;
    }

    /// Remove the character before the cursor, if any.
    pub fn delete_before_cursor(&mut self)
        requires
            old(self).wf(),
        ensures
            final(self).wf(),
            old(self).cursor_spec() > 0 ==> final(self).buffer_spec() == old(self).buffer_spec().remove(
                old(self).cursor_spec() - 1,
            ) && final(self).cursor_spec() == old(self).cursor_spec() - 1,
            old(self).cursor_spec() == 0 ==> *final(self) == *old(self),
    {
        if self.cursor > 0 {
            self.cursor = self.cursor - 1;
            self.buffer.remove(self.cursor);
        }
    }

    /// Remove the character after the cursor, if any.
    pub fn delete_after_cursor(&mut self)
        requires
            old(self).wf(),
        ensures
            final(self).wf(),
            old(self).cursor_spec() < old(self).buffer_spec().len() ==> final(self).buffer_spec()
                == old(self).buffer_spec().remove(old(self).cursor_spec()) && final(self).cursor_spec()
                == old(self).cursor_spec(),
            old(self).cursor_spec() == old(self).buffer_spec().len() ==> *final(self) == *old(self),
    {
        if self.cursor < self.buffer.len() {
            self.buffer.remove(self.cursor);
        }
    }

    /// Step the cursor left, stopping at the start.
    pub fn move_cursor_left(&mut self)
        requires
            old(self).wf(),
        ensures
            final(self).wf(),
            final(self).buffer_spec() == old(self).buffer_spec(),
            final(self).cursor_spec() == (if old(self).cursor_spec() > 0 {
                old(self).cursor_spec() - 1
            } else {
                0int
            }),
    {
        if self.cursor > 0 {
            self.cursor = self.cursor - 1;
        }
    }

    /// Step the cursor right, stopping at the end.
    pub fn move_cursor_right(&mut self)
        requires
            old(self).wf(),
        ensures
            final(self).wf(),
            final(self).buffer_spec() == old(self).buffer_spec(),
            final(self).cursor_spec() == (if old(self).cursor_spec() < old(self).buffer_spec().len() {
                old(self).cursor_spec() + 1
            } else {
                old(self).cursor_spec()
            }),
    {
        if self.cursor < self.buffer.len() {
            self.cursor = self.cursor + 1;
        }
    }

    /// Jump to the start.
    pub fn move_cursor_to_start(&mut self)
        ensures
            final(self).wf(),
            final(self).buffer_spec() == old(self).buffer_spec(),
            final(self).cursor_spec() == 0,
    {
        self.cursor = 0;
    }

    /// Jump to the end.
    pub fn move_cursor_to_end(&mut self)
        ensures
            final(self).wf(),
            final(self).buffer_spec() == old(self).buffer_spec(),
            final(self).cursor_spec() == old(self).buffer_spec().len(),
    {
        self.cursor = self.buffer.len();
    }

    /// The displayed column of the cursor: the width of everything
    /// before it.
    pub fn visual_cursor_position(&self) -> (r: usize)
        requires
            self.wf(),
        ensures
            r == display_width_of(self.buffer_spec().take(self.cursor_spec())),
    {
        let mut prefix: Vec<char> = Vec::new();
        let mut i: usize = 0;
        while i < self.cursor
            invariant
                i <= self.cursor <= self.buffer@.len(),
                prefix@ == self.buffer@.take(i as int),
            decreases self.cursor - i,
        {
            prefix.push(self.buffer[i]);
            i += 1;
            assert(prefix@ =~= self.buffer@.take(i as int));
        }
        let s = text::chars_to_string(&prefix);
        str_display_width(s.as_str())
    }

    /// The buffered text.
    pub fn value(&self) -> (r: String)
        ensures
            r@ == self.buffer_spec(),
    {
        text::chars_to_string(&self.buffer)
    }

    /// The cursor, as a character index.
    pub fn cursor_position(&self) -> (r: usize)
        ensures
            r == self.cursor_spec(),
    {
        self.cursor
    }

    /// Replace the buffer, clamping the cursor to the new length.
    pub fn set_buffer(&mut self, buffer: String, cursor: usize)
        ensures
            final(self).wf(),
            final(self).buffer_spec() == buffer@,
            final(self).cursor_spec() == (if cursor <= buffer@.len() {
                cursor as int
            } else {
                buffer@.len() as int
            }),
    {
        let chars = text::str_to_chars(buffer.as_str());
        let n = chars.len();
        self.buffer = chars;
        self.cursor = if cursor <= n {
            cursor
        } else {
            n
        };
    }
}

} // verus!
