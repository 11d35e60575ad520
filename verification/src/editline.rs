//! The one-line text input buffer used by every text-entry mode. The cursor
//! counts characters, never bytes, so edits can never split a multi-byte
//! character.
use vstd::prelude::*;

use vstd::string::StrSliceExecFns;

use crate::strutil::chars_string;
use crate::strutil::str_chars;

verus! {

#[derive(Debug)]
pub struct InputLine {
    pub text: String,
    pub cursor: usize,
}

impl InputLine {
    /// The cursor sits on a character boundary.
    pub open spec fn wf(&self) -> bool {
        self.cursor <= self.text@.len()
    }

    pub fn new() -> (r: Self)
        ensures
            r.wf(),
            r.text@.len() == 0,
            r.cursor == 0,
    {
        InputLine { text: String::new(), cursor: 0 }
    }

    /// Replaces the text and puts the cursor at its end.
    pub fn set(&mut self, value: String)
        ensures
            final (self).wf(),
            final (self).text@ == value@,
            final (self).cursor == value@.len(),
    {
        let n = value.as_str().unicode_len();
        self.text = value;
        self.cursor = n;
    }

    /// Inserts a character at the cursor and moves the cursor past it.
    pub fn insert_char(&mut self, ch: char)
        requires
            old(self).wf(),
        ensures
            final (self).wf(),
            final (self).text@ == old(self).text@.insert(old(self).cursor as int, ch),
            final (self).cursor == old(self).cursor + 1,
    {
        let mut cs = str_chars(self.text.as_str());
        cs.insert(self.cursor, ch);
        let n = cs.len();
        self.text = chars_string(&cs);
        proof {
            assert(self.cursor < n);
        }
        self.cursor = self.cursor + 1;
    }

    /// Removes the character before the cursor, when there is one.
    pub fn backspace(&mut self)
        requires
            old(self).wf(),
        ensures
            final (self).wf(),
            old(self).cursor == 0 ==> *final (self) == *old(self),
            old(self).cursor > 0 ==> final (self).text@ == old(self).text@.remove(
                old(self).cursor - 1,
            ) && final (self).cursor == old(self).cursor - 1,
    {
        if self.cursor == 0 {
            return ;
        }
        self.cursor = self.cursor - 1;
        let mut cs = str_chars(self.text.as_str());
        cs.remove(self.cursor);
        self.text = chars_string(&cs);
    }

    /// Removes the character at the cursor, when there is one.
    pub fn delete(&mut self)
        requires
            old(self).wf(),
        ensures
            final (self).wf(),
            old(self).cursor >= old(self).text@.len() ==> *final (self) == *old(self),
            old(self).cursor < old(self).text@.len() ==> final (self).text@ == old(
                self,
            ).text@.remove(old(self).cursor as int) && final (self).cursor == old(self).cursor,
    {
        let mut cs = str_chars(self.text.as_str());
        if self.cursor >= cs.len() {
            return ;
        }
        cs.remove(self.cursor);
        self.text = chars_string(&cs);
    }

    pub fn move_left(&mut self)
        ensures
            final (self).text == old(self).text,
            final (self).cursor == if old(self).cursor > 0 {
                (old(self).cursor - 1) as usize
            } else {
                0usize
            },
    {
        if self.cursor > 0 {
            self.cursor = self.cursor - 1;
        }
    }

    pub fn move_right(&mut self)
        requires
            old(self).wf(),
        ensures
            final (self).wf(),
            final (self).text == old(self).text,
            final (self).cursor == if old(self).cursor < old(self).text@.len() {
                old(self).cursor + 1
            } else {
                old(self).cursor as int
            },
    {
        let n = self.text.as_str().unicode_len();
        if self.cursor < n {
            self.cursor = self.cursor + 1;
        }
    }

    pub fn move_home(&mut self)
        ensures
            final (self).wf(),
            final (self).text == old(self).text,
            final (self).cursor == 0,
    {
        self.cursor = 0;
    }

    pub fn move_end(&mut self)
        ensures
            final (self).wf(),
            final (self).text == old(self).text,
            final (self).cursor == old(self).text@.len(),
    {
        self.cursor = self.text.as_str().unicode_len();
    }
}

} // verus!
