//! Splitting a console command line into tokens.

use vstd::prelude::*;
use crate::util::{chars_of, string_from_chars};

verus! {

/// Whether a character has the Unicode `White_Space` property.
pub open spec fn spec_is_whitespace(c: char) -> bool {
    ||| '\u{9}' <= c <= '\u{d}'
    ||| c == ' '
    ||| c == '\u{85}'
    ||| c == '\u{a0}'
    ||| c == '\u{1680}'
    ||| '\u{2000}' <= c <= '\u{200a}'
    ||| c == '\u{2028}'
    ||| c == '\u{2029}'
    ||| c == '\u{202f}'
    ||| c == '\u{205f}'
    ||| c == '\u{3000}'
}

/// Whether a character has the Unicode `White_Space` property.
pub fn is_whitespace(c: char) -> (r: bool)
    ensures
        r == spec_is_whitespace(c),
{
    ('\u{9}' <= c && c <= '\u{d}') || c == ' ' || c == '\u{85}' || c == '\u{a0}' || c
        == '\u{1680}' || ('\u{2000}' <= c && c <= '\u{200a}') || c == '\u{2028}' || c == '\u{2029}'
        || c == '\u{202f}' || c == '\u{205f}' || c == '\u{3000}'
}

/// The first position at or after `p` that does not hold whitespace, or the end.
pub open spec fn skip_ws(s: Seq<char>, p: int) -> int
    decreases s.len() - p,
{
    if p < 0 || p >= s.len() || !spec_is_whitespace(s[p]) {
        p
    } else {
        skip_ws(s, p + 1)
    }
}

/// The first position at or after `p` that holds a line feed, or the end.
pub open spec fn find_newline(s: Seq<char>, p: int) -> int
    decreases s.len() - p,
{
    if p < 0 || p >= s.len() || s[p] == '\n' {
        p
    } else {
        find_newline(s, p + 1)
    }
}

/// Whether a line comment starts at `p`.
pub open spec fn comment_at(s: Seq<char>, p: int) -> bool {
    0 <= p && p + 1 < s.len() && s[p] == '/' && s[p + 1] == '/'
}

/// Where the next token starts, at or after `p`: whitespace and line comments are skipped.
pub open spec fn token_start(s: Seq<char>, p: int) -> int
    decreases s.len() - p,
{
    let q = skip_ws(s, p);
    if p < 0 || p > s.len() {
        q
    } else if comment_at(s, q) {
        proof {
            lemma_skip_ws(s, p);
            lemma_find_newline(s, q + 2);
        }
        let n = find_newline(s, q + 2);
        if n <= p {
            n
        } else {
            token_start(s, n)
        }
    } else {
        q
    }
}

/// The first position at or after `p` that holds a double quote, if there is one.
pub open spec fn find_quote(s: Seq<char>, p: int) -> Option<int>
    decreases s.len() - p,
{
    if p < 0 || p >= s.len() {
        None
    } else if s[p] == '"' {
        Some(p)
    } else {
        find_quote(s, p + 1)
    }
}

/// The first position at or after `p` that holds whitespace, or the end.
pub open spec fn find_ws(s: Seq<char>, p: int) -> int
    decreases s.len() - p,
{
    if p < 0 || p >= s.len() || spec_is_whitespace(s[p]) {
        p
    } else {
        find_ws(s, p + 1)
    }
}

/// What asking for the next token yields.
pub enum Token {
    /// No token is left.
    End,
    /// A token and the position after it.
    Text(Seq<char>, int),
    /// Asking panics: a quote is not closed, or a token of more than one character ends with a
    /// character that is not ASCII.
    Panics,
}

/// The next token of `s` at or after `p`.
///
/// A token is the text between a double quote and the next one, or else a run of characters
/// other than whitespace.
pub open spec fn spec_next(s: Seq<char>, p: int) -> Token {
    let q = token_start(s, p);
    if q < 0 || q >= s.len() {
        Token::End
    } else if s[q] == '"' {
        match find_quote(s, q + 1) {
            Some(e) => Token::Text(s.subrange(q + 1, e), e + 1),
            None => Token::Panics,
        }
    } else {
        let e = find_ws(s, q + 1);
        if e - q >= 2 && (s[e - 1] as u32) >= 0x80 {
            Token::Panics
        } else {
            Token::Text(s.subrange(q, e), e)
        }
    }
}

/// Skipping whitespace stays within the input and does not go back.
pub proof fn lemma_skip_ws(s: Seq<char>, p: int)
    requires
        0 <= p <= s.len(),
    ensures
        p <= skip_ws(s, p) <= s.len(),
    decreases s.len() - p,
{
    if p < s.len() && spec_is_whitespace(s[p]) {
        lemma_skip_ws(s, p + 1);
    }
}

/// The line feed found is within the input and not before where the search starts.
pub proof fn lemma_find_newline(s: Seq<char>, p: int)
    requires
        0 <= p <= s.len(),
    ensures
        p <= find_newline(s, p) <= s.len(),
    decreases s.len() - p,
{
    if p < s.len() && s[p] != '\n' {
        lemma_find_newline(s, p + 1);
    }
}

/// The whitespace found is within the input, and no whitespace comes before it.
pub proof fn lemma_find_ws(s: Seq<char>, p: int)
    requires
        0 <= p <= s.len(),
    ensures
        p <= find_ws(s, p) <= s.len(),
        forall|i: int| p <= i < find_ws(s, p) ==> !spec_is_whitespace(s[i]),
    decreases s.len() - p,
{
    if p < s.len() && !spec_is_whitespace(s[p]) {
        lemma_find_ws(s, p + 1);
    }
}

/// The double quote found is within the input, not before where the search starts.
pub proof fn lemma_find_quote(s: Seq<char>, p: int)
    requires
        0 <= p <= s.len(),
    ensures
        find_quote(s, p) matches Some(e) ==> p <= e < s.len() && s[e] == '"',
    decreases s.len() - p,
{
    if p < s.len() && s[p] != '"' {
        lemma_find_quote(s, p + 1);
    }
}

/// The start of the next token is within the input and not before the position.
pub proof fn lemma_token_start(s: Seq<char>, p: int)
    requires
        0 <= p <= s.len(),
    ensures
        p <= token_start(s, p) <= s.len(),
    decreases s.len() - p,
{
    lemma_skip_ws(s, p);
    let q = skip_ws(s, p);
    if comment_at(s, q) {
        lemma_find_newline(s, q + 2);
        let n = find_newline(s, q + 2);
        if n > p {
            lemma_token_start(s, n);
        }
    }
}

/// Splits console input into tokens.
pub struct Tokenizer {
    input: Vec<char>,
    pos: usize,
}

impl Tokenizer {
    /// The characters of the input.
    pub closed spec fn input(&self) -> Seq<char> {
        self.input@
    }

    /// The position of the next character to read.
    pub closed spec fn pos(&self) -> int {
        self.pos as int
    }

    /// The position is within the input.
    pub closed spec fn wf(&self) -> bool {
        self.pos <= self.input.len()
    }

    /// A tokenizer at the start of `input`.
    pub fn new(input: &str) -> (r: Tokenizer)
        ensures
            r.wf(),
            r.input() == input@,
            r.pos() == 0,
    {
        Tokenizer { input: chars_of(input), pos: 0 }
    }

    /// The input that has not been read yet.
    pub fn get_remaining_input(&self) -> (r: String)
        requires
            self.wf(),
        ensures
            r@ == self.input().skip(self.pos()),
    {
        let rest = vstd::slice::slice_subrange(self.input.as_slice(), self.pos, self.input.len());
        assert(rest@ =~= self.input@.skip(self.pos as int));
        string_from_chars(rest)
    }

    fn skip_spaces(&mut self)
        requires
            old(self).wf(),
        ensures
            final(self).wf(),
            final(self).input() == old(self).input(),
            final(self).pos() == skip_ws(old(self).input(), old(self).pos()),
    {
        while self.pos < self.input.len() && is_whitespace(self.input[self.pos])
            invariant
                self.wf(),
                self.input() == old(self).input(),
                skip_ws(self.input(), self.pos()) == skip_ws(old(self).input(), old(self).pos()),
            decreases self.input.len() - self.pos,
        {
            self.pos = self.pos + 1;
        }
    }

    fn try_skip_line_comment(&mut self) -> (r: bool)
        requires
            old(self).wf(),
        ensures
            final(self).wf(),
            final(self).input() == old(self).input(),
            r == comment_at(old(self).input(), old(self).pos()),
            r ==> final(self).pos() == find_newline(old(self).input(), old(self).pos() + 2),
            !r ==> final(self).pos() == old(self).pos(),
    {
        if self.input.len() - self.pos >= 2 && self.input[self.pos] == '/' && self.input[self.pos
            + 1] == '/' {
            self.pos = self.pos + 2;
            while self.pos < self.input.len() && self.input[self.pos] != '\n'
                invariant
                    self.wf(),
                    self.input() == old(self).input(),
                    old(self).pos() + 2 <= self.pos(),
                    find_newline(self.input(), self.pos()) == find_newline(
                        old(self).input(),
                        old(self).pos() + 2,
                    ),
                decreases self.input.len() - self.pos,
            {
                self.pos = self.pos + 1;
            }
            true
        } else {
            false
        }
    }

    /// Moves to where the next token starts.
    fn skip_to_token(&mut self)
        requires
            old(self).wf(),
        ensures
            final(self).wf(),
            final(self).input() == old(self).input(),
            final(self).pos() == token_start(old(self).input(), old(self).pos()),
    {
        proof {
            lemma_token_start(self.input(), self.pos());
        }
        loop
            invariant
                self.wf(),
                self.input() == old(self).input(),
                old(self).pos() <= self.pos(),
                token_start(self.input(), self.pos()) == token_start(
                    old(self).input(),
                    old(self).pos(),
                ),
            decreases self.input.len() - self.pos,
        {
            let before = self.pos;
            proof {
                lemma_skip_ws(self.input(), self.pos());
            }
            self.skip_spaces();
            if !self.try_skip_line_comment() {
                return;
            }
            proof {
                lemma_find_newline(self.input(), skip_ws(self.input(), before as int) + 2);
            }
        }
    }

    /// Whether asking for the next token panics: a quote is not closed, or a token of more than
    /// one character ends with a character that is not ASCII.
    pub fn next_panics(&self) -> (r: bool)
        requires
            self.wf(),
        ensures
            r == (spec_next(self.input(), self.pos()) is Panics),
    {
        let mut probe = Tokenizer { input: self.input.clone(), pos: self.pos };
        assert(probe.input@ == self.input@);
        probe.next_impl().is_none()
    }

    /// The next token, and the position moves past it; `None` where no token is left.
    ///
    /// Whitespace and line comments, from `//` to the end of the line, are skipped. A token
    /// that starts with a double quote runs to the next double quote, which is not part of it;
    /// any other token runs to the next whitespace. Semicolons do not split tokens.
    pub fn next(&mut self) -> (r: Option<String>)
        requires
            old(self).wf(),
            !(spec_next(old(self).input(), old(self).pos()) is Panics),
        ensures
            final(self).wf(),
            final(self).input() == old(self).input(),
            match spec_next(old(self).input(), old(self).pos()) {
                Token::End => r is None,
                Token::Text(t, q) => r matches Some(x) && x@ == t && final(self).pos() == q,
                Token::Panics => false,
            },
    {
        match self.next_impl() {
            Some(r) => r,
            None => None,
        }
    }

    /// The next token as `next` gives it, or `None` where asking for it panics.
    fn next_impl(&mut self) -> (r: Option<Option<String>>)
        requires
            old(self).wf(),
        ensures
            final(self).wf(),
            final(self).input() == old(self).input(),
            match spec_next(old(self).input(), old(self).pos()) {
                Token::End => r matches Some(None),
                Token::Text(t, q) => r matches Some(Some(x)) && x@ == t && final(self).pos() == q,
                Token::Panics => r is None,
            },
    {
        self.skip_to_token();
        let q = self.pos;
        proof {
            lemma_token_start(old(self).input(), old(self).pos());
        }
        if q >= self.input.len() {
            return Some(None);
        }
        if self.input[q] == '"' {
            let mut e = q + 1;
            while e < self.input.len() && self.input[e] != '"'
                invariant
                    q + 1 <= e <= self.input.len(),
                    self.wf(),
                    find_quote(self.input(), e as int) == find_quote(self.input(), q + 1),
                decreases self.input.len() - e,
            {
                e = e + 1;
            }
            if e >= self.input.len() {
                return None;
            }
            let tok = string_from_chars(&self.input.as_slice()[q + 1..e]);
            self.pos = e + 1;
            Some(Some(tok))
        } else {
            let mut e = q + 1;
            while e < self.input.len() && !is_whitespace(self.input[e])
                invariant
                    q + 1 <= e <= self.input.len(),
                    self.wf(),
                    find_ws(self.input(), e as int) == find_ws(self.input(), q + 1),
                decreases self.input.len() - e,
            {
                e = e + 1;
            }
            if e - q >= 2 && (self.input[e - 1] as u32) >= 0x80 {
                return None;
            }
            let tok = string_from_chars(&self.input.as_slice()[q..e]);
            self.pos = e;
            Some(Some(tok))
        }
    }
}

} // verus!
