//! A cursor over a text with checkpoints to return to.

use vstd::prelude::*;
use vstd::string::*;
use crate::results::{outcome, ParsingError, ParsingFailure, ParsingResult};
use crate::text::{atext, blank, is_atext, is_blank};

verus! {

/// The character at `pos`, if the text reaches that far.
pub open spec fn char_at(s: Seq<char>, pos: int) -> Option<char> {
    if 0 <= pos < s.len() {
        Some(s[pos])
    } else {
        None
    }
}

/// Where the run of word characters that starts at `pos` ends.
pub open spec fn word_end(s: Seq<char>, pos: int) -> int
    decreases s.len() - pos,
{
    if 0 <= pos < s.len() && atext(s[pos]) {
        word_end(s, pos + 1)
    } else {
        pos
    }
}

/// Where the first `"` at or after `pos` stands; the text's length if there
/// is none.
pub open spec fn closing_quote(s: Seq<char>, pos: int) -> int
    decreases s.len() - pos,
{
    if 0 <= pos < s.len() && s[pos] != '"' {
        closing_quote(s, pos + 1)
    } else {
        pos
    }
}

/// The word at `pos` and the cursor after it. A word is a maximal run of
/// word characters; where quoting is allowed and `pos` holds a `"`, it is
/// what stands between that quote and the next one. Without a word the
/// cursor stays.
pub open spec fn word_at(s: Seq<char>, pos: int, allow_quoted: bool) -> (Option<Seq<char>>, int) {
    if allow_quoted && char_at(s, pos) == Some('"') {
        let q = closing_quote(s, pos + 1);
        if q < s.len() {
            (Some(s.subrange(pos + 1, q)), q + 1)
        } else {
            (None, pos)
        }
    } else {
        let e = word_end(s, pos);
        if e > pos {
            (Some(s.subrange(pos, e)), e)
        } else {
            (None, pos)
        }
    }
}

/// How many characters of folding whitespace start at `pos`: one blank, the
/// three of a line fold (CR, LF and a blank), or none.
pub open spec fn fold_step(s: Seq<char>, pos: int) -> int {
    if 0 <= pos < s.len() && blank(s[pos]) {
        1
    } else if 0 <= pos && pos + 2 < s.len() && s[pos] == '\r' && s[pos + 1] == '\n' && blank(
        s[pos + 2],
    ) {
        3
    } else {
        0
    }
}

/// Where the folding whitespace that starts at `pos` ends.
pub open spec fn lws_end(s: Seq<char>, pos: int) -> int
    decreases s.len() - pos,
{
    if fold_step(s, pos) > 0 {
        lws_end(s, pos + fold_step(s, pos))
    } else {
        pos
    }
}

/// Where the run of characters of `class` that starts at `pos` ends.
pub open spec fn run_end(s: Seq<char>, pos: int, class: spec_fn(char) -> bool) -> int
    decreases s.len() - pos,
{
    if 0 <= pos < s.len() && class(s[pos]) {
        run_end(s, pos + 1, class)
    } else {
        pos
    }
}

/// A run is maximal in one way only: a position that every character from
/// `pos` on leads to within the class, and that ends the text or holds a
/// character outside the class, is where the run ends.
pub proof fn lemma_run_end(s: Seq<char>, pos: int, end: int, class: spec_fn(char) -> bool)
    requires
        0 <= pos <= end <= s.len(),
        forall|i: int| pos <= i < end ==> class(#[trigger] s[i]),
        end == s.len() || !class(s[end]),
    ensures
        run_end(s, pos, class) == end,
    decreases end - pos,
{
    if pos < end {
        assert(class(s[pos]));
        lemma_run_end(s, pos + 1, end, class);
    }
}

/// A word ends within the text, at or after its start.
pub proof fn lemma_word_end_bounds(s: Seq<char>, pos: int)
    requires
        0 <= pos <= s.len(),
    ensures
        pos <= word_end(s, pos) <= s.len(),
    decreases s.len() - pos,
{
    if pos < s.len() && atext(s[pos]) {
        lemma_word_end_bounds(s, pos + 1);
    }
}

/// A word depends on the text from its start on alone: without the first `k`
/// characters the same word ends at the same place, counted from there.
pub proof fn lemma_word_end_skip(s: Seq<char>, k: int, pos: int)
    requires
        0 <= k <= pos <= s.len(),
    ensures
        word_end(s, pos) == word_end(s.skip(k), pos - k) + k,
    decreases s.len() - pos,
{
    if pos < s.len() {
        assert(s.skip(k)[pos - k] == s[pos]);
        if atext(s[pos]) {
            lemma_word_end_skip(s, k, pos + 1);
        }
    }
}

/// Folding whitespace depends on the text from its start on alone.
pub proof fn lemma_lws_end_skip(s: Seq<char>, k: int, pos: int)
    requires
        0 <= k <= pos <= s.len(),
    ensures
        lws_end(s, pos) == lws_end(s.skip(k), pos - k) + k,
        pos <= lws_end(s, pos) <= s.len(),
    decreases s.len() - pos,
{
    let t = s.skip(k);
    if pos < s.len() {
        assert(t[pos - k] == s[pos]);
    }
    if pos + 2 < s.len() {
        assert(t[pos - k + 1] == s[pos + 1]);
        assert(t[pos - k + 2] == s[pos + 2]);
    }
    assert(fold_step(s, pos) == fold_step(t, pos - k));
    if fold_step(s, pos) > 0 {
        lemma_lws_end_skip(s, k, pos + fold_step(s, pos));
    }
}

/// A run of a class depends on the text from its start on alone.
pub proof fn lemma_run_end_skip(s: Seq<char>, k: int, pos: int, class: spec_fn(char) -> bool)
    requires
        0 <= k <= pos <= s.len(),
    ensures
        run_end(s, pos, class) == run_end(s.skip(k), pos - k, class) + k,
        pos <= run_end(s, pos, class) <= s.len(),
    decreases s.len() - pos,
{
    if pos < s.len() {
        assert(s.skip(k)[pos - k] == s[pos]);
        if class(s[pos]) {
            lemma_run_end_skip(s, k, pos + 1, class);
        }
    }
}

/// An unquoted word and the cursor after it depend on the text from the
/// cursor on alone.
pub proof fn lemma_word_at_skip(s: Seq<char>, k: int, pos: int)
    requires
        0 <= k <= pos <= s.len(),
    ensures
        word_at(s, pos, false).0 == word_at(s.skip(k), pos - k, false).0,
        word_at(s, pos, false).1 == word_at(s.skip(k), pos - k, false).1 + k,
        pos <= word_at(s, pos, false).1 <= s.len(),
{
    lemma_word_end_skip(s, k, pos);
    lemma_word_end_bounds(s, pos);
    let e = word_end(s, pos);
    assert(s.subrange(pos, e) =~= s.skip(k).subrange(pos - k, e - k));
}

/// A cursor over a borrowed text, counted in characters, with a stack of
/// saved cursor positions.
pub struct Rfc5322Parser<'s> {
    s: &'s str,
    len: usize,
    pos: usize,
    pos_stack: Vec<usize>,
}

impl<'s> Rfc5322Parser<'s> {
    /// The text that is scanned.
    pub closed spec fn text(&self) -> Seq<char> {
        self.s@
    }

    /// How many characters have been passed.
    pub closed spec fn cursor(&self) -> int {
        self.pos as int
    }

    /// The saved positions, the latest last.
    pub closed spec fn saved(&self) -> Seq<usize> {
        self.pos_stack@
    }

    /// The cursor and every saved position lie within the text.
    pub closed spec fn wf(&self) -> bool {
        &&& self.len == self.s@.len()
        &&& self.pos <= self.len
        &&& forall|i: int| 0 <= i < self.pos_stack@.len() ==> #[trigger] self.pos_stack@[i] <= self.len
    }

    /// The cursor of a well-formed scanner lies within its text.
    pub proof fn lemma_cursor_in_text(&self)
        requires
            self.wf(),
        ensures
            0 <= self.cursor() <= self.text().len(),
    {
    }

    /// A scanner at the start of `s`, with nothing saved.
    pub fn new(s: &'s str) -> (p: Rfc5322Parser<'s>)
        ensures
            p.wf(),
            p.text() == s@,
            p.cursor() == 0,
            p.saved() == Seq::<usize>::empty(),
    {
        Rfc5322Parser { s, len: s.unicode_len(), pos: 0, pos_stack: Vec::new() }
    }

    /// The cursor, as a count of characters from the start of the text.
    pub fn position(&self) -> (r: usize)
        ensures
            r == self.cursor(),
    {
        self.pos
    }

    /// How many positions are saved.
    pub fn depth(&self) -> (r: usize)
        ensures
            r == self.saved().len(),
    {
        self.pos_stack.len()
    }

    /// Whether the cursor has reached the end of the text.
    pub fn eof(&self) -> (r: bool)
        requires
            self.wf(),
        ensures
            r == (self.cursor() == self.text().len()),
    {
        self.pos >= self.len
    }

    /// The character at the cursor, without moving.
    pub fn peek(&self) -> (r: Option<char>)
        requires
            self.wf(),
        ensures
            r == char_at(self.text(), self.cursor()),
    {
        if self.pos < self.len {
            Some(self.s.get_char(self.pos))
        } else {
            None
        }
    }

    /// Saves the cursor on the stack.
    pub fn push_position(&mut self)
        requires
            old(self).wf(),
        ensures
            final(self).wf(),
            final(self).text() == old(self).text(),
            final(self).cursor() == old(self).cursor(),
            final(self).saved().len() == old(self).saved().len() + 1,
            final(self).saved().drop_last() == old(self).saved(),
            final(self).saved().last() == old(self).cursor(),
    {
        proof {
            assert(self.pos_stack@.push(self.pos).drop_last() =~= self.pos_stack@);
        }
        self.pos_stack.push(self.pos);
    }

    /// Takes the latest saved position off the stack and moves the cursor
    /// back to it.
    pub fn pop_position(&mut self)
        requires
            old(self).wf(),
            old(self).saved().len() > 0,
        ensures
            final(self).wf(),
            final(self).text() == old(self).text(),
            final(self).cursor() == old(self).saved().last(),
            final(self).saved() == old(self).saved().drop_last(),
    {
        match self.pos_stack.pop() {
            Some(p) => {
                self.pos = p;
            },
            None => {},
        }
    }

    /// Takes the latest saved position off the stack and keeps the cursor
    /// where it is.
    pub fn discard_position(&mut self)
        requires
            old(self).wf(),
            old(self).saved().len() > 0,
        ensures
            final(self).wf(),
            final(self).text() == old(self).text(),
            final(self).cursor() == old(self).cursor(),
            final(self).saved() == old(self).saved().drop_last(),
    {
        let _ = self.pos_stack.pop();
    }

    /// Passes one character, whatever it is, and returns it. At the end of
    /// the text nothing moves and nothing is returned.
    pub fn consume_char(&mut self) -> (r: Option<char>)
        requires
            old(self).wf(),
        ensures
            final(self).wf(),
            final(self).text() == old(self).text(),
            final(self).saved() == old(self).saved(),
            r == char_at(old(self).text(), old(self).cursor()),
            final(self).cursor() == if r is Some {
                old(self).cursor() + 1
            } else {
                old(self).cursor()
            },
    {
        if self.pos < self.len {
            let c = self.s.get_char(self.pos);
            self.pos = self.pos + 1;
            Some(c)
        } else {
            None
        }
    }

    /// Succeeds exactly when the character at the cursor is `c`. The cursor
    /// does not move.
    pub fn assert_char(&self, c: char) -> (r: ParsingResult<()>)
        requires
            self.wf(),
        ensures
            outcome(r) == if char_at(self.text(), self.cursor()) == Some(c) {
                Ok::<(), ParsingFailure>(())
            } else {
                Err::<(), ParsingFailure>(
                    ParsingFailure::ExpectedChar {
                        expected: c,
                        found: char_at(self.text(), self.cursor()),
                    },
                )
            },
    {
        let found = self.peek();
        match found {
            Some(f) => {
                if f == c {
                    return Ok(());
                }
            },
            None => {},
        }
        Err(ParsingError::ExpectedChar { expected: c, found })
    }

    /// Passes the longest run of characters for which `f` answers yes; it
    /// may be empty.
    pub fn consume_while<F: Fn(char) -> bool>(&mut self, f: F)
        requires
            old(self).wf(),
            forall|c: char| #[trigger] f.requires((c,)),
        ensures
            final(self).wf(),
            final(self).text() == old(self).text(),
            final(self).saved() == old(self).saved(),
            old(self).cursor() <= final(self).cursor() <= final(self).text().len(),
            forall|i: int|
                old(self).cursor() <= i < final(self).cursor() ==> f.ensures(
                    (#[trigger] final(self).text()[i],),
                    true,
                ),
            final(self).cursor() == final(self).text().len() || f.ensures(
                (final(self).text()[final(self).cursor()],),
                false,
            ),
    {
        let ghost start = self.pos;
        let mut more: bool = self.pos < self.len;
        while more
            invariant
                self.wf(),
                self.s == old(self).s,
                self.pos_stack == old(self).pos_stack,
                start == old(self).pos,
                start <= self.pos <= self.len,
                forall|c: char| #[trigger] f.requires((c,)),
                forall|i: int| start <= i < self.pos ==> f.ensures((#[trigger] self.s@[i],), true),
                !more ==> self.pos == self.len || f.ensures((self.s@[self.pos as int],), false),
                more ==> self.pos < self.len,
            decreases (self.len - self.pos) + (if more { 1int } else { 0int }),
        {
            if f(self.s.get_char(self.pos)) {
                self.pos = self.pos + 1;
                more = self.pos < self.len;
            } else {
                more = false;
            }
        }
    }

    fn blank_step(&self) -> (n: usize)
        requires
            self.wf(),
        ensures
            n == fold_step(self.s@, self.pos as int),
            self.pos + n <= self.len,
    {
        if self.pos >= self.len {
            return 0;
        }
        let c = self.s.get_char(self.pos);
        if is_blank(c) {
            1
        } else if c == '\r' && self.len - self.pos > 2 && self.s.get_char(self.pos + 1) == '\n'
            && is_blank(self.s.get_char(self.pos + 2)) {
            3
        } else {
            0
        }
    }

    /// Passes folding whitespace: blanks, and line folds made of CR, LF and
    /// a blank. There may be none.
    pub fn consume_linear_whitespace(&mut self)
        requires
            old(self).wf(),
        ensures
            final(self).wf(),
            final(self).text() == old(self).text(),
            final(self).saved() == old(self).saved(),
            final(self).cursor() == lws_end(old(self).text(), old(self).cursor()),
            old(self).cursor() <= final(self).cursor(),
    {
        let mut step: usize = self.blank_step();
        while step > 0
            invariant
                self.wf(),
                self.s == old(self).s,
                self.pos_stack == old(self).pos_stack,
                step == fold_step(self.s@, self.pos as int),
                old(self).pos <= self.pos,
                self.pos + step <= self.len,
                lws_end(self.s@, self.pos as int) == lws_end(old(self).s@, old(self).pos as int),
            decreases self.len - self.pos,
        {
            self.pos = self.pos + step;
            step = self.blank_step();
        }
    }

    /// Passes the word at the cursor and returns it; without a word the
    /// cursor stays.
    pub fn consume_word(&mut self, allow_quoted: bool) -> (r: Option<String>)
        requires
            old(self).wf(),
        ensures
            final(self).wf(),
            final(self).text() == old(self).text(),
            final(self).saved() == old(self).saved(),
            final(self).cursor() == word_at(old(self).text(), old(self).cursor(), allow_quoted).1,
            old(self).cursor() <= final(self).cursor(),
            match word_at(old(self).text(), old(self).cursor(), allow_quoted).0 {
                Some(w) => r matches Some(t) && t@ == w,
                None => r is None,
            },
    {
        let start: usize = self.pos;
        if allow_quoted && self.pos < self.len && self.s.get_char(self.pos) == '"' {
            let mut q: usize = start + 1;
            while q < self.len && self.s.get_char(q) != '"'
                invariant
                    self.len == self.s@.len(),
                    start + 1 <= q <= self.len,
                    closing_quote(self.s@, q as int) == closing_quote(self.s@, start + 1),
                decreases self.len - q,
            {
                q = q + 1;
            }
            if q < self.len {
                self.pos = q + 1;
                Some(self.s.substring_char(start + 1, q).to_owned())
            } else {
                None
            }
        } else {
            let mut e: usize = start;
            while e < self.len && is_atext(self.s.get_char(e))
                invariant
                    self.len == self.s@.len(),
                    start <= e <= self.len,
                    word_end(self.s@, e as int) == word_end(self.s@, start as int),
                decreases self.len - e,
            {
                e = e + 1;
            }
            if e > start {
                self.pos = e;
                Some(self.s.substring_char(start, e).to_owned())
            } else {
                None
            }
        }
    }
}

} // verus!
