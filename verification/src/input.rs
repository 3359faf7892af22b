//! A single-line text input buffer with a character cursor.

use vstd::prelude::*;

verus! {

/// Relies on `String::push`: it appends the given character to the end of
/// the string.
pub assume_specification[ String::push ](s: &mut String, c: char)
    ensures
        final(s)@ == old(s)@.push(c),
;

/// The text being entered, as characters, with the cursor between them.
pub struct TextInput {
    pub value: Vec<char>,
    pub cursor_position: usize,
}

impl TextInput {
    /// The cursor never leaves the text.
    pub open spec fn wf(self) -> bool {
        self.cursor_position <= self.value@.len()
    }

    /// An empty input with the cursor at the start.
    pub fn new() -> (r: TextInput)
        ensures
            r.wf(),
            r.value@.len() == 0,
            r.cursor_position == 0,
    {
        TextInput { value: Vec::new(), cursor_position: 0 }
    }

    /// Insert a character at the cursor and step past it.
    pub fn insert_char(&mut self, c: char)
        requires
            old(self).wf(),
        ensures
            final(self).wf(),
            final(self).value@ == old(self).value@.insert(old(self).cursor_position as int, c),
            final(self).cursor_position == old(self).cursor_position + 1,
    {
        self.value.insert(self.cursor_position, c);
        let n = self.value.len();
        self.cursor_position += 1;
    }

    /// Delete the character before the cursor, if any, and step back.
    pub fn delete_char(&mut self)
        requires
            old(self).wf(),
        ensures
            final(self).wf(),
            old(self).cursor_position > 0 ==> final(self).value@ == old(self).value@.remove(
                old(self).cursor_position - 1,
            ) && final(self).cursor_position == old(self).cursor_position - 1,
            old(self).cursor_position == 0 ==> *final(self) == *old(self),
    {
        if self.cursor_position > 0 {
            self.value.remove(self.cursor_position - 1);
            self.cursor_position -= 1;
        }
    }

    /// Step the cursor left, stopping at the start.
    pub fn move_cursor_left(&mut self)
        requires
            old(self).wf(),
        ensures
            final(self).wf(),
            final(self).value@ == old(self).value@,
            final(self).cursor_position as int == (if old(self).cursor_position > 0 {
                old(self).cursor_position - 1
            } else {
                0int
            }),
    {
        if self.cursor_position > 0 {
            self.cursor_position -= 1;
        }
    }

    /// Step the cursor right, stopping at the end of the text.
    pub fn move_cursor_right(&mut self)
        requires
            old(self).wf(),
        ensures
            final(self).wf(),
            final(self).value@ == old(self).value@,
            final(self).cursor_position as int == (if old(self).cursor_position < old(
                self,
            ).value@.len() {
                old(self).cursor_position + 1
            } else {
                old(self).cursor_position as int
            }),
    {
        if self.cursor_position < self.value.len() {
            self.cursor_position += 1;
        }
    }

    /// Empty the input and reset the cursor.
    pub fn clear(&mut self)
        ensures
            final(self).wf(),
            final(self).value@.len() == 0,
            final(self).cursor_position == 0,
    {
        self.value.clear();
        self.cursor_position = 0;
    }

    /// The entered text as a string.
    pub fn text(&self) -> (r: String)
        ensures
            r@ == self.value@,
    {
        let mut r = String::new();
        let mut i: usize = 0;
        while i < self.value.len()
            invariant
                i <= self.value@.len(),
                r@ == self.value@.take(i as int),
            decreases self.value@.len() - i,
        {
            r.push(self.value[i]);
            proof {
                assert(self.value@.take(i + 1).drop_last() == self.value@.take(i as int));
                assert(self.value@.take(i + 1) == self.value@.take(i as int).push(
                    self.value@[i as int],
                ));
            }
            i += 1;
        }
        proof {
            assert(self.value@.take(self.value@.len() as int) == self.value@);
        }
        r
    }
}

} // verus!
