//! Scripts written with `"\r\n"` line endings read as the same scripts written with `"\n"`.
//!
//! A script `s` without carriage returns is related to the script `t` in which each line feed
//! of `s` is written `"\r\n"`; position `p` of `s` corresponds to `crlf_pos(s, p)` of `t`. Each
//! rule of the grammar, read at corresponding positions, gives the same values and ends at
//! corresponding positions.

use vstd::prelude::*;
use crate::console::parse::{
    at, basic_end, basic_stop, quotable, quoted_body, spec_arg, spec_args, spec_basic_arg,
    spec_command, spec_command_list, spec_command_terminator, spec_commands, spec_empty_line,
    spec_empty_lines, spec_line_comment, spec_line_ending, spec_not_line_ending, spec_quoted,
    spec_space0,
};

verus! {

/// The number of line feeds in `s` before position `p`.
pub open spec fn feeds_before(s: Seq<char>, p: int) -> int
    decreases p,
{
    if p <= 0 {
        0
    } else {
        feeds_before(s, p - 1) + if s[p - 1] == '\n' { 1int } else { 0int }
    }
}

/// Where position `p` of `s` stands once each line feed before it is written `"\r\n"`.
pub open spec fn crlf_pos(s: Seq<char>, p: int) -> int {
    p + feeds_before(s, p)
}

/// `s` holds no carriage return.
pub open spec fn no_cr(s: Seq<char>) -> bool {
    forall|i: int| 0 <= i < s.len() ==> s[i] != '\r'
}

/// `t` is `s` with each line feed written as a carriage return and a line feed.
pub open spec fn is_crlf_form(s: Seq<char>, t: Seq<char>) -> bool {
    &&& t.len() == crlf_pos(s, s.len() as int)
    &&& forall|p: int| 0 <= p < s.len() ==> if s[p] == '\n' {
        t[#[trigger] crlf_pos(s, p)] == '\r' && t[crlf_pos(s, p) + 1] == '\n'
    } else {
        t[crlf_pos(s, p)] == s[p]
    }
}

/// An optional end position, carried over to the script with `"\r\n"` line endings.
pub open spec fn crlf_end(s: Seq<char>, o: Option<int>) -> Option<int> {
    match o {
        Some(e) => Some(crlf_pos(s, e)),
        None => None,
    }
}

/// An optional value with its end position, the position carried over.
pub open spec fn crlf_item<A>(s: Seq<char>, o: Option<(A, int)>) -> Option<(A, int)> {
    match o {
        Some((a, e)) => Some((a, crlf_pos(s, e))),
        None => None,
    }
}

proof fn lemma_step(s: Seq<char>, p: int)
    requires
        0 <= p,
    ensures
        crlf_pos(s, p + 1) == crlf_pos(s, p) + if s[p] == '\n' { 2int } else { 1int },
{
}

proof fn lemma_mono(s: Seq<char>, p: int, q: int)
    requires
        0 <= p <= q,
    ensures
        crlf_pos(s, q) - crlf_pos(s, p) >= q - p,
        crlf_pos(s, p) >= p,
    decreases q,
{
    if p < q {
        lemma_mono(s, p, q - 1);
        lemma_step(s, q - 1);
    } else if p > 0 {
        lemma_mono(s, p - 1, p - 1);
        lemma_step(s, p - 1);
    }
}

/// What `t` holds at the position that corresponds to `p`.
proof fn lemma_at(s: Seq<char>, t: Seq<char>, p: int)
    requires
        no_cr(s),
        is_crlf_form(s, t),
        0 <= p <= s.len(),
    ensures
        crlf_pos(s, p) >= p,
        p == s.len() ==> crlf_pos(s, p) == t.len(),
        p < s.len() ==> crlf_pos(s, p) < t.len(),
        p < s.len() && s[p] != '\n' ==> t[crlf_pos(s, p)] == s[p] && s[p] != '\r'
            && crlf_pos(s, p + 1) == crlf_pos(s, p) + 1,
        p < s.len() && s[p] == '\n' ==> t[crlf_pos(s, p)] == '\r' && crlf_pos(s, p) + 1 < t.len()
            && t[crlf_pos(s, p) + 1] == '\n' && crlf_pos(s, p + 1) == crlf_pos(s, p) + 2,
{
    lemma_mono(s, p, p);
    if p < s.len() {
        lemma_step(s, p);
        lemma_mono(s, p + 1, s.len() as int);
        assert(t[crlf_pos(s, p)] == t[crlf_pos(s, p)]);
    }
}

/// Positions keep their order.
proof fn lemma_order(s: Seq<char>, p: int, q: int)
    requires
        0 <= p <= q,
    ensures
        crlf_pos(s, p) <= crlf_pos(s, q),
        p < q ==> crlf_pos(s, p) < crlf_pos(s, q),
{
    lemma_mono(s, p, q);
}

proof fn lemma_space0(s: Seq<char>, t: Seq<char>, p: int)
    requires
        no_cr(s),
        is_crlf_form(s, t),
        0 <= p <= s.len(),
    ensures
        p <= spec_space0(s, p) <= s.len(),
        spec_space0(t, crlf_pos(s, p)) == crlf_pos(s, spec_space0(s, p)),
    decreases s.len() - p,
{
    lemma_at(s, t, p);
    if at(s, p, ' ') || at(s, p, '\t') {
        lemma_space0(s, t, p + 1);
    }
}

proof fn lemma_line_ending(s: Seq<char>, t: Seq<char>, p: int)
    requires
        no_cr(s),
        is_crlf_form(s, t),
        0 <= p <= s.len(),
    ensures
        spec_line_ending(s, p) matches Some(e) ==> p < e <= s.len(),
        spec_line_ending(t, crlf_pos(s, p)) == crlf_end(s, spec_line_ending(s, p)),
{
    lemma_at(s, t, p);
}

proof fn lemma_not_line_ending(s: Seq<char>, t: Seq<char>, p: int)
    requires
        no_cr(s),
        is_crlf_form(s, t),
        0 <= p <= s.len(),
    ensures
        p <= spec_not_line_ending(s, p) <= s.len(),
        spec_not_line_ending(t, crlf_pos(s, p)) == crlf_pos(s, spec_not_line_ending(s, p)),
    decreases s.len() - p,
{
    lemma_at(s, t, p);
    lemma_line_ending(s, t, p);
    if p < s.len() && spec_line_ending(s, p) is None {
        lemma_not_line_ending(s, t, p + 1);
    }
}

proof fn lemma_line_comment(s: Seq<char>, t: Seq<char>, p: int)
    requires
        no_cr(s),
        is_crlf_form(s, t),
        0 <= p <= s.len(),
    ensures
        spec_line_comment(s, p) matches Some(e) ==> p < e <= s.len(),
        spec_line_comment(t, crlf_pos(s, p)) == crlf_end(s, spec_line_comment(s, p)),
{
    lemma_at(s, t, p);
    if at(s, p, '/') {
        lemma_at(s, t, p + 1);
        if at(s, p + 1, '/') {
            lemma_at(s, t, p + 2);
            lemma_not_line_ending(s, t, p + 2);
        }
    }
}

proof fn lemma_empty_line(s: Seq<char>, t: Seq<char>, p: int)
    requires
        no_cr(s),
        is_crlf_form(s, t),
        0 <= p <= s.len(),
    ensures
        spec_empty_line(s, p) matches Some(e) ==> p < e <= s.len(),
        spec_empty_line(t, crlf_pos(s, p)) == crlf_end(s, spec_empty_line(s, p)),
{
    lemma_space0(s, t, p);
    let q = spec_space0(s, p);
    lemma_line_comment(s, t, q);
    let r = match spec_line_comment(s, q) {
        Some(e) => e,
        None => q,
    };
    lemma_line_ending(s, t, r);
}

proof fn lemma_basic_stop(s: Seq<char>, t: Seq<char>, p: int)
    requires
        no_cr(s),
        is_crlf_form(s, t),
        0 <= p < s.len(),
    ensures
        basic_stop(t, crlf_pos(s, p)) == basic_stop(s, p),
{
    lemma_at(s, t, p);
    lemma_at(s, t, p + 1);
}

proof fn lemma_basic_end(s: Seq<char>, t: Seq<char>, p: int)
    requires
        no_cr(s),
        is_crlf_form(s, t),
        0 <= p <= s.len(),
    ensures
        p <= basic_end(s, p) <= s.len(),
        basic_end(t, crlf_pos(s, p)) == crlf_pos(s, basic_end(s, p)),
        t.subrange(crlf_pos(s, p), crlf_pos(s, basic_end(s, p))) == s.subrange(p, basic_end(s, p)),
    decreases s.len() - p,
{
    lemma_at(s, t, p);
    if p < s.len() {
        lemma_basic_stop(s, t, p);
        if !basic_stop(s, p) {
            lemma_basic_end(s, t, p + 1);
            let e = basic_end(s, p + 1);
            lemma_order(s, p + 1, e);
            lemma_at(s, t, e);
            assert(t.subrange(crlf_pos(s, p), crlf_pos(s, e)) =~= seq![s[p]] + t.subrange(
                crlf_pos(s, p + 1),
                crlf_pos(s, e),
            ));
            assert(s.subrange(p, e) =~= seq![s[p]] + s.subrange(p + 1, e));
        }
    }
}

proof fn lemma_quoted_body(s: Seq<char>, t: Seq<char>, i: int)
    requires
        no_cr(s),
        is_crlf_form(s, t),
        0 <= i <= s.len(),
    ensures
        quoted_body(s, i) matches Some((x, e)) ==> i < e <= s.len(),
        quoted_body(t, crlf_pos(s, i)) == crlf_item(s, quoted_body(s, i)),
    decreases s.len() - i,
{
    lemma_at(s, t, i);
    if i < s.len() {
        lemma_at(s, t, i + 1);
        if s[i] == '"' {
        } else if s[i] == '\\' && at(s, i + 1, '"') {
            lemma_at(s, t, i + 2);
            lemma_quoted_body(s, t, i + 2);
        } else if quotable(s[i]) {
            lemma_quoted_body(s, t, i + 1);
        }
    }
}

proof fn lemma_quoted(s: Seq<char>, t: Seq<char>, p: int)
    requires
        no_cr(s),
        is_crlf_form(s, t),
        0 <= p <= s.len(),
    ensures
        spec_quoted(s, p) matches Some((x, e)) ==> p < e <= s.len(),
        spec_quoted(t, crlf_pos(s, p)) == crlf_item(s, spec_quoted(s, p)),
{
    lemma_at(s, t, p);
    if at(s, p, '"') {
        lemma_quoted_body(s, t, p + 1);
    }
}

proof fn lemma_arg(s: Seq<char>, t: Seq<char>, p: int)
    requires
        no_cr(s),
        is_crlf_form(s, t),
        0 <= p <= s.len(),
    ensures
        spec_arg(s, p) matches Some((x, e)) ==> p < e <= s.len(),
        spec_arg(t, crlf_pos(s, p)) == crlf_item(s, spec_arg(s, p)),
{
    lemma_quoted(s, t, p);
    lemma_basic_end(s, t, p);
    lemma_order(s, p, basic_end(s, p));
}

proof fn lemma_command_terminator(s: Seq<char>, t: Seq<char>, p: int)
    requires
        no_cr(s),
        is_crlf_form(s, t),
        0 <= p <= s.len(),
    ensures
        spec_command_terminator(s, p) matches Some(e) ==> p < e <= s.len(),
        spec_command_terminator(t, crlf_pos(s, p)) == crlf_end(s, spec_command_terminator(s, p)),
{
    lemma_empty_line(s, t, p);
    lemma_at(s, t, p);
}

proof fn lemma_args(s: Seq<char>, t: Seq<char>, p: int)
    requires
        no_cr(s),
        is_crlf_form(s, t),
        0 <= p <= s.len(),
    ensures
        p <= spec_args(s, p).1 <= s.len(),
        spec_args(t, crlf_pos(s, p)) == (spec_args(s, p).0, crlf_pos(s, spec_args(s, p).1)),
    decreases s.len() - p,
{
    lemma_at(s, t, p);
    lemma_space0(s, t, p);
    let q = spec_space0(s, p);
    lemma_order(s, p, q);
    lemma_arg(s, t, q);
    lemma_at(s, t, q);
    if let Some((a, e)) = spec_arg(s, q) {
        lemma_order(s, q, e);
        lemma_order(s, e, s.len() as int);
        lemma_at(s, t, s.len() as int);
        lemma_args(s, t, e);
    }
}

proof fn lemma_command(s: Seq<char>, t: Seq<char>, p: int)
    requires
        no_cr(s),
        is_crlf_form(s, t),
        0 <= p <= s.len(),
    ensures
        spec_command(s, p) matches Some((c, e)) ==> p < e <= s.len(),
        spec_command(t, crlf_pos(s, p)) == crlf_item(s, spec_command(s, p)),
{
    lemma_args(s, t, p);
    lemma_command_terminator(s, t, spec_args(s, p).1);
}

proof fn lemma_empty_lines(s: Seq<char>, t: Seq<char>, p: int)
    requires
        no_cr(s),
        is_crlf_form(s, t),
        0 <= p <= s.len(),
    ensures
        p <= spec_empty_lines(s, p) <= s.len(),
        spec_empty_lines(t, crlf_pos(s, p)) == crlf_pos(s, spec_empty_lines(s, p)),
    decreases s.len() - p,
{
    lemma_empty_line(s, t, p);
    lemma_at(s, t, p);
    if let Some(e) = spec_empty_line(s, p) {
        lemma_order(s, p, e);
        lemma_order(s, e, s.len() as int);
        lemma_at(s, t, s.len() as int);
        lemma_empty_lines(s, t, e);
    }
}

proof fn lemma_command_list(s: Seq<char>, t: Seq<char>, p: int)
    requires
        no_cr(s),
        is_crlf_form(s, t),
        0 <= p <= s.len(),
    ensures
        p <= spec_command_list(s, p).1 <= s.len(),
        spec_command_list(t, crlf_pos(s, p)) == (spec_command_list(s, p).0, crlf_pos(
            s,
            spec_command_list(s, p).1,
        )),
    decreases s.len() - p,
{
    lemma_command(s, t, p);
    lemma_at(s, t, p);
    if let Some((c, e)) = spec_command(s, p) {
        lemma_empty_lines(s, t, e);
        let f = spec_empty_lines(s, e);
        lemma_order(s, p, f);
        lemma_order(s, f, s.len() as int);
        lemma_at(s, t, s.len() as int);
        if p < f {
            lemma_command_list(s, t, f);
        }
    }
}

/// A script read with `"\r\n"` line endings gives the same commands as the script with `"\n"`:
/// where `t` is `s` with each line feed written `"\r\n"` (and `s` has no carriage return of
/// its own), `t` gives the commands that `s` gives, and stops where `s` stops.
pub proof fn lemma_crlf_commands(s: Seq<char>, t: Seq<char>)
    requires
        no_cr(s),
        is_crlf_form(s, t),
    ensures
        spec_commands(t).0 == spec_commands(s).0,
        spec_commands(t).1 == crlf_pos(s, spec_commands(s).1),
{
    lemma_empty_lines(s, t, 0);
    lemma_command_list(s, t, spec_empty_lines(s, 0));
    assert(crlf_pos(s, 0) == 0);
}

} // verus!
