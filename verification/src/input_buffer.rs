//! The prompt being typed: its characters and the cursor within them.

use vstd::prelude::*;
use crate::text::{is_white_space, string_of, white_space};

verus! {

/// Start of the run of white space that ends at `i`.
pub open spec fn skip_back_white(t: Seq<char>, i: int) -> int
    decreases i,
{
    if 0 < i <= t.len() && white_space(t[i - 1]) {
        skip_back_white(t, i - 1)
    } else {
        i
    }
}

/// Start of the run of characters other than white space that ends at `i`.
pub open spec fn skip_back_word(t: Seq<char>, i: int) -> int
    decreases i,
{
    if 0 < i <= t.len() && !white_space(t[i - 1]) {
        skip_back_word(t, i - 1)
    } else {
        i
    }
}

/// Where "delete word" stops: back over white space, then over the word.
pub open spec fn word_start(t: Seq<char>, i: int) -> int {
    skip_back_word(t, skip_back_white(t, i))
}

proof fn lemma_skip_white_bounds(t: Seq<char>, i: int)
    requires
        0 <= i <= t.len(),
    ensures
        0 <= skip_back_white(t, i) <= i,
    decreases i,
{
    if 0 < i && white_space(t[i - 1]) {
        lemma_skip_white_bounds(t, i - 1);
    }
}

/// A text being edited, with a cursor between characters.
#[derive(Debug, Clone)]
pub struct InputBuffer {
    chars: Vec<char>,
    cursor: usize,
}

impl InputBuffer {
    /// The characters of the buffer.
    pub closed spec fn text(&self) -> Seq<char> {
        self.chars@
    }

    /// The cursor: the number of characters before it.
    pub closed spec fn cursor_at(&self) -> nat {
        self.cursor as nat
    }

    /// The cursor lies within the text.
    pub closed spec fn wf(&self) -> bool {
        self.cursor <= self.chars@.len()
    }

    /// The cursor of a well-formed buffer lies within its text.
    pub proof fn lemma_cursor_in_text(&self)
        requires
            self.wf(),
        ensures
            self.cursor_at() <= self.text().len(),
    {
    }

    /// An empty buffer.
    pub fn new() -> (b: InputBuffer)
        ensures
            b.wf(),
            b.text() == Seq::<char>::empty(),
            b.cursor_at() == 0,
    {
        InputBuffer { chars: Vec::new(), cursor: 0 }
    }

    /// The text as a string.
    pub fn text_string(&self) -> (s: String)
        ensures
            s@ == self.text(),
    {
        string_of(&self.chars)
    }

    /// The cursor position, in characters.
    pub fn cursor(&self) -> (c: usize)
        ensures
            c == self.cursor_at(),
    {
        self.cursor
    }

    /// Whether the buffer holds no character.
    pub fn is_empty(&self) -> (b: bool)
        ensures
            b == (self.text().len() == 0),
    {
        self.chars.len() == 0
    }

    /// Insert a character at the cursor and move the cursor past it.
    pub fn insert(&mut self, c: char)
        requires
            old(self).wf(),
        ensures
            final(self).wf(),
            final(self).text() == old(self).text().insert(old(self).cursor_at() as int, c),
            final(self).cursor_at() == old(self).cursor_at() + 1,
    {
        self.chars.insert(self.cursor, c);
        let len = self.chars.len();
        assert(self.cursor < len);
        self.cursor = self.cursor + 1;
    }

    /// Delete the character before the cursor, if any.
    pub fn backspace(&mut self)
        requires
            old(self).wf(),
        ensures
            final(self).wf(),
            old(self).cursor_at() == 0 ==> *final(self) == *old(self),
            old(self).cursor_at() > 0 ==> final(self).text() == old(self).text().remove(
                old(self).cursor_at() - 1,
            ) && final(self).cursor_at() == old(self).cursor_at() - 1,
    {
        if self.cursor > 0 {
            self.cursor = self.cursor - 1;
            self.chars.remove(self.cursor);
        }
    }

    /// Delete the character after the cursor, if any.
    pub fn delete(&mut self)
        requires
            old(self).wf(),
        ensures
            final(self).wf(),
            old(self).cursor_at() == old(self).text().len() ==> *final(self) == *old(self),
            old(self).cursor_at() < old(self).text().len() ==> final(self).text() == old(self).text().remove(old(self).cursor_at() as int) && final(self).cursor_at() == old(self).cursor_at(),
    {
        if self.cursor < self.chars.len() {
            self.chars.remove(self.cursor);
        }
    }

    /// Move the cursor one character left, stopping at the start.
    pub fn move_left(&mut self)
        requires
            old(self).wf(),
        ensures
            final(self).wf(),
            final(self).text() == old(self).text(),
            final(self).cursor_at() == if old(self).cursor_at() > 0 {
                old(self).cursor_at() - 1
            } else {
                0
            },
    {
        if self.cursor > 0 {
            self.cursor = self.cursor - 1;
        }
    }

    /// Move the cursor one character right, stopping at the end.
    pub fn move_right(&mut self)
        requires
            old(self).wf(),
        ensures
            final(self).wf(),
            final(self).text() == old(self).text(),
            final(self).cursor_at() == if old(self).cursor_at() < old(self).text().len() {
                old(self).cursor_at() + 1
            } else {
                old(self).cursor_at()
            },
    {
        if self.cursor < self.chars.len() {
            self.cursor = self.cursor + 1;
        }
    }

    /// Move the cursor to the start of the text.
    pub fn move_to_start(&mut self)
        requires
            old(self).wf(),
        ensures
            final(self).wf(),
            final(self).text() == old(self).text(),
            final(self).cursor_at() == 0,
    {
        self.cursor = 0;
    }

    /// Move the cursor to the end of the text.
    pub fn move_to_end(&mut self)
        requires
            old(self).wf(),
        ensures
            final(self).wf(),
            final(self).text() == old(self).text(),
            final(self).cursor_at() == old(self).text().len(),
    {
        self.cursor = self.chars.len();
    }

    /// Delete everything before the cursor.
    pub fn delete_to_start(&mut self)
        requires
            old(self).wf(),
        ensures
            final(self).wf(),
            final(self).text() == old(self).text().subrange(
                old(self).cursor_at() as int,
                old(self).text().len() as int,
            ),
            final(self).cursor_at() == 0,
    {
        let mut rest: Vec<char> = Vec::new();
        let mut i: usize = self.cursor;
        while i < self.chars.len()
            invariant
                self.wf(),
                self.cursor <= i <= self.chars@.len(),
                rest@ == self.chars@.subrange(self.cursor as int, i as int),
            decreases self.chars@.len() - i,
        {
            rest.push(self.chars[i]);
            i = i + 1;
            assert(rest@ =~= self.chars@.subrange(self.cursor as int, i as int));
        }
        self.chars = rest;
        self.cursor = 0;
    }

    /// Delete the word before the cursor: back over white space, then back
    /// over the characters that are not white space.
    pub fn delete_word(&mut self)
        requires
            old(self).wf(),
        ensures
            final(self).wf(),
            final(self).text() == old(self).text().subrange(
                0,
                word_start(old(self).text(), old(self).cursor_at() as int),
            ) + old(self).text().subrange(
                old(self).cursor_at() as int,
                old(self).text().len() as int,
            ),
            final(self).cursor_at() == word_start(old(self).text(), old(self).cursor_at() as int),
    {
        let ghost t = self.chars@;
        let mut j: usize = self.cursor;
        while j > 0 && is_white_space(self.chars[j - 1])
            invariant
                self.wf(),
                self.chars@ == t,
                j <= self.cursor,
                skip_back_white(t, j as int) == skip_back_white(t, self.cursor as int),
            decreases j,
        {
            j = j - 1;
        }
        let ghost w = j as int;
        proof {
            lemma_skip_white_bounds(t, self.cursor as int);
        }
        while j > 0 && !is_white_space(self.chars[j - 1])
            invariant
                self.wf(),
                self.chars@ == t,
                j <= w <= self.cursor,
                w == skip_back_white(t, self.cursor as int),
                skip_back_word(t, j as int) == skip_back_word(t, w),
            decreases j,
        {
            j = j - 1;
        }
        let mut out: Vec<char> = Vec::new();
        let mut i: usize = 0;
        while i < j
            invariant
                self.chars@ == t,
                j <= self.cursor <= t.len(),
                i <= j,
                out@ == t.subrange(0, i as int),
            decreases j - i,
        {
            out.push(self.chars[i]);
            i = i + 1;
            assert(out@ =~= t.subrange(0, i as int));
        }
        let mut k: usize = self.cursor;
        while k < self.chars.len()
            invariant
                self.chars@ == t,
                j <= self.cursor <= k <= t.len(),
                out@ == t.subrange(0, j as int) + t.subrange(self.cursor as int, k as int),
            decreases t.len() - k,
        {
            out.push(self.chars[k]);
            k = k + 1;
            assert(out@ =~= t.subrange(0, j as int) + t.subrange(self.cursor as int, k as int));
        }
        self.chars = out;
        self.cursor = j;
    }

    /// Empty the buffer.
    pub fn clear(&mut self)
        ensures
            final(self).wf(),
            final(self).text() == Seq::<char>::empty(),
            final(self).cursor_at() == 0,
    {
        self.chars = Vec::new();
        self.cursor = 0;
    }
}

/// Typing a character and deleting it again with backspace gives back the
/// buffer one started with.
pub proof fn law_insert_then_backspace(t: Seq<char>, cursor: nat, c: char)
    requires
        cursor <= t.len(),
    ensures
        t.insert(cursor as int, c).remove(cursor as int) == t,
{
    assert(t.insert(cursor as int, c).remove(cursor as int) =~= t);
}

} // verus!
