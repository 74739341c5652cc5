//! The grammar of console scripts: commands made of arguments, ended by a semicolon or a line
//! ending, with line comments and empty lines between them.
//!
//! Each rule is given by a `spec_*` function on the characters of the input and a position,
//! and read by an executable function proved against it.

use vstd::prelude::*;
use crate::util::{chars_of, string_from_chars};

verus! {

/// The input does not match the rule.
#[derive(Debug, PartialEq, Eq)]
pub struct ParseError;

/// Whether `s` holds `c` at `p`.
pub open spec fn at(s: Seq<char>, p: int, c: char) -> bool {
    0 <= p < s.len() && s[p] == c
}

/// The first position at or after `p` that holds neither a space nor a tab.
pub open spec fn spec_space0(s: Seq<char>, p: int) -> int
    decreases s.len() - p,
{
    if at(s, p, ' ') || at(s, p, '\t') {
        spec_space0(s, p + 1)
    } else {
        p
    }
}

/// The end of a line ending (`"\n"` or `"\r\n"`) at `p`, if one is there.
pub open spec fn spec_line_ending(s: Seq<char>, p: int) -> Option<int> {
    if at(s, p, '\n') {
        Some(p + 1)
    } else if at(s, p, '\r') && at(s, p + 1, '\n') {
        Some(p + 2)
    } else {
        None
    }
}

/// The first position at or after `p` where a line ending starts, or the end of the input.
pub open spec fn spec_not_line_ending(s: Seq<char>, p: int) -> int
    decreases s.len() - p,
{
    if p < 0 || p >= s.len() || spec_line_ending(s, p) is Some {
        p
    } else {
        spec_not_line_ending(s, p + 1)
    }
}

/// The end of a line comment at `p`: `//` and what follows up to a line ending.
pub open spec fn spec_line_comment(s: Seq<char>, p: int) -> Option<int> {
    if at(s, p, '/') && at(s, p + 1, '/') {
        Some(spec_not_line_ending(s, p + 2))
    } else {
        None
    }
}

/// The end of an empty line at `p`: spaces and tabs, an optional line comment, a line ending.
pub open spec fn spec_empty_line(s: Seq<char>, p: int) -> Option<int> {
    let q = spec_space0(s, p);
    let r = match spec_line_comment(s, q) {
        Some(e) => e,
        None => q,
    };
    spec_line_ending(s, r)
}

/// Whether an unquoted argument stops at `i`: at a comment, a semicolon, a quote, a space, a
/// tab, a line ending, a character that is not ASCII or a control character.
pub open spec fn basic_stop(s: Seq<char>, i: int) -> bool {
    ||| at(s, i, '/') && at(s, i + 1, '/')
    ||| s[i] == ';'
    ||| s[i] == '"'
    ||| s[i] == ' '
    ||| s[i] == '\t'
    ||| (s[i] as u32) >= 0x80
    ||| (s[i] as u32) < 0x20
    ||| (s[i] as u32) == 0x7f
}

/// The first position at or after `p` where an unquoted argument stops, or the end.
pub open spec fn basic_end(s: Seq<char>, p: int) -> int
    decreases s.len() - p,
{
    if p < 0 || p >= s.len() || basic_stop(s, p) {
        p
    } else {
        basic_end(s, p + 1)
    }
}

/// The end of an unquoted argument at `p`, if it is not empty.
pub open spec fn spec_basic_arg(s: Seq<char>, p: int) -> Option<int> {
    let e = basic_end(s, p);
    if e > p {
        Some(e)
    } else {
        None
    }
}

/// Whether a character may stand inside quotes: ASCII, not a control character.
pub open spec fn quotable(c: char) -> bool {
    0x20 <= (c as u32) < 0x7f
}

/// The rest of a quoted string from `i` on: its text, where `\"` stands for a double quote,
/// and the position after the closing quote.
pub open spec fn quoted_body(s: Seq<char>, i: int) -> Option<(Seq<char>, int)>
    decreases s.len() - i,
{
    if i < 0 || i >= s.len() {
        None
    } else if s[i] == '"' {
        Some((Seq::empty(), i + 1))
    } else if s[i] == '\\' && at(s, i + 1, '"') {
        match quoted_body(s, i + 2) {
            Some((t, e)) => Some((seq!['"'] + t, e)),
            None => None,
        }
    } else if quotable(s[i]) {
        match quoted_body(s, i + 1) {
            Some((t, e)) => Some((seq![s[i]] + t, e)),
            None => None,
        }
    } else {
        None
    }
}

/// A quoted string at `p`: its text, not empty, and the position after it.
pub open spec fn spec_quoted(s: Seq<char>, p: int) -> Option<(Seq<char>, int)> {
    if at(s, p, '"') {
        match quoted_body(s, p + 1) {
            Some((t, e)) => if t.len() > 0 {
                Some((t, e))
            } else {
                None
            },
            None => None,
        }
    } else {
        None
    }
}

/// An argument at `p`: a quoted string, or else an unquoted argument.
pub open spec fn spec_arg(s: Seq<char>, p: int) -> Option<(Seq<char>, int)> {
    match spec_quoted(s, p) {
        Some(r) => Some(r),
        None => match spec_basic_arg(s, p) {
            Some(e) => Some((s.subrange(p, e), e)),
            None => None,
        },
    }
}

/// The end of a command terminator at `p`: an empty line or a semicolon.
pub open spec fn spec_command_terminator(s: Seq<char>, p: int) -> Option<int> {
    match spec_empty_line(s, p) {
        Some(e) => Some(e),
        None => if at(s, p, ';') {
            Some(p + 1)
        } else {
            None
        },
    }
}

/// The arguments at `p`, each after spaces or tabs, and the position after the last one.
pub open spec fn spec_args(s: Seq<char>, p: int) -> (Seq<Seq<char>>, int)
    decreases s.len() - p,
{
    let q = spec_space0(s, p);
    if p < 0 || p > s.len() || q < p {
        (Seq::empty(), p)
    } else {
        match spec_arg(s, q) {
            Some((a, e)) => if e <= q || e > s.len() {
                (Seq::empty(), p)
            } else {
                let (rest, f) = spec_args(s, e);
                (seq![a] + rest, f)
            },
            None => (Seq::empty(), p),
        }
    }
}

/// A command at `p`: one or more arguments and a terminator.
pub open spec fn spec_command(s: Seq<char>, p: int) -> Option<(Seq<Seq<char>>, int)> {
    let (args, e) = spec_args(s, p);
    if args.len() == 0 {
        None
    } else {
        match spec_command_terminator(s, e) {
            Some(f) => Some((args, f)),
            None => None,
        }
    }
}

/// The position after the empty lines at `p`.
pub open spec fn spec_empty_lines(s: Seq<char>, p: int) -> int
    decreases s.len() - p,
{
    match spec_empty_line(s, p) {
        Some(e) => if p < e <= s.len() {
            spec_empty_lines(s, e)
        } else {
            p
        },
        None => p,
    }
}

/// The commands at `p`, each followed by empty lines, and the position after them.
pub open spec fn spec_command_list(s: Seq<char>, p: int) -> (Seq<Seq<Seq<char>>>, int)
    decreases s.len() - p,
{
    match spec_command(s, p) {
        Some((c, e)) => {
            let f = spec_empty_lines(s, e);
            if p < f <= s.len() {
                let (rest, g) = spec_command_list(s, f);
                (seq![c] + rest, g)
            } else {
                (Seq::empty(), p)
            }
        },
        None => (Seq::empty(), p),
    }
}

/// A script: empty lines, then commands, each followed by empty lines.
pub open spec fn spec_commands(s: Seq<char>) -> (Seq<Seq<Seq<char>>>, int) {
    spec_command_list(s, spec_empty_lines(s, 0))
}

fn space0(s: &[char], p: usize) -> (r: usize)
    requires
        p <= s.len(),
    ensures
        r == spec_space0(s@, p as int),
        p <= r <= s.len(),
{
    let mut i = p;
    while i < s.len() && (s[i] == ' ' || s[i] == '\t')
        invariant
            p <= i <= s.len(),
            spec_space0(s@, i as int) == spec_space0(s@, p as int),
        decreases s.len() - i,
    {
        i = i + 1;
    }
    i
}

fn line_ending_at(s: &[char], p: usize) -> (r: Option<usize>)
    requires
        p <= s.len(),
    ensures
        match spec_line_ending(s@, p as int) {
            Some(e) => r == Some(e as usize) && p < e <= s.len(),
            None => r is None,
        },
{
    if p < s.len() && s[p] == '\n' {
        Some(p + 1)
    } else if s.len() - p >= 2 && s[p] == '\r' && s[p + 1] == '\n' {
        Some(p + 2)
    } else {
        None
    }
}

fn not_line_ending(s: &[char], p: usize) -> (r: usize)
    requires
        p <= s.len(),
    ensures
        r == spec_not_line_ending(s@, p as int),
        p <= r <= s.len(),
{
    let mut i = p;
    while i < s.len() && line_ending_at(s, i).is_none()
        invariant
            p <= i <= s.len(),
            spec_not_line_ending(s@, i as int) == spec_not_line_ending(s@, p as int),
        decreases s.len() - i,
    {
        i = i + 1;
    }
    i
}

fn line_comment_at(s: &[char], p: usize) -> (r: Option<usize>)
    requires
        p <= s.len(),
    ensures
        match spec_line_comment(s@, p as int) {
            Some(e) => r == Some(e as usize) && p < e <= s.len(),
            None => r is None,
        },
{
    if s.len() - p >= 2 && s[p] == '/' && s[p + 1] == '/' {
        Some(not_line_ending(s, p + 2))
    } else {
        None
    }
}

fn empty_line_at(s: &[char], p: usize) -> (r: Option<usize>)
    requires
        p <= s.len(),
    ensures
        match spec_empty_line(s@, p as int) {
            Some(e) => r == Some(e as usize) && p < e <= s.len(),
            None => r is None,
        },
{
    let q = space0(s, p);
    let r = match line_comment_at(s, q) {
        Some(e) => e,
        None => q,
    };
    line_ending_at(s, r)
}

fn is_basic_stop(s: &[char], i: usize) -> (r: bool)
    requires
        i < s.len(),
    ensures
        r == basic_stop(s@, i as int),
{
    let c = s[i];
    (c == '/' && i + 1 < s.len() && s[i + 1] == '/') || c == ';' || c == '"' || c == ' ' || c
        == '\t' || (c as u32) >= 0x80 || (c as u32) < 0x20 || (c as u32) == 0x7f
}

fn basic_arg_at(s: &[char], p: usize) -> (r: Option<usize>)
    requires
        p <= s.len(),
    ensures
        match spec_basic_arg(s@, p as int) {
            Some(e) => r == Some(e as usize) && p < e <= s.len(),
            None => r is None,
        },
{
    let mut i = p;
    while i < s.len() && !is_basic_stop(s, i)
        invariant
            p <= i <= s.len(),
            basic_end(s@, i as int) == basic_end(s@, p as int),
        decreases s.len() - i,
    {
        i = i + 1;
    }
    if i > p {
        Some(i)
    } else {
        None
    }
}

/// The text `pre` followed by the text of a quoted string's rest.
pub open spec fn after(pre: Seq<char>, r: Option<(Seq<char>, int)>) -> Option<(Seq<char>, int)> {
    match r {
        Some((t, e)) => Some((pre + t, e)),
        None => None,
    }
}

fn quoted_at(s: &[char], p: usize) -> (r: Option<(Vec<char>, usize)>)
    requires
        p <= s.len(),
    ensures
        match spec_quoted(s@, p as int) {
            Some((t, e)) => r matches Some((x, n)) && x@ == t && n == e && p < e <= s.len(),
            None => r is None,
        },
{
    if !(p < s.len() && s[p] == '"') {
        return None;
    }
    let mut text: Vec<char> = Vec::new();
    let mut i = p + 1;
    assert(after(text@, quoted_body(s@, i as int)) =~= quoted_body(s@, p + 1)) by {
        if let Some((t, e)) = quoted_body(s@, i as int) {
            assert(Seq::<char>::empty() + t =~= t);
        }
    }
    loop
        invariant
            p + 1 <= i <= s.len(),
            at(s@, p as int, '"'),
            quoted_body(s@, p + 1) == after(text@, quoted_body(s@, i as int)),
        decreases s.len() - i,
    {
        if i >= s.len() {
            return None;
        }
        let c = s[i];
        if c == '"' {
            assert(quoted_body(s@, i as int) == Some((Seq::<char>::empty(), i + 1)));
            assert(text@ + Seq::<char>::empty() =~= text@);
            assert(quoted_body(s@, p + 1) == Some((text@, i + 1)));
            if text.len() == 0 {
                return None;
            }
            return Some((text, i + 1));
        } else if c == '\\' && i + 1 < s.len() && s[i + 1] == '"' {
            let ghost before = text@;
            text.push('"');
            proof {
                if let Some((t, e)) = quoted_body(s@, i + 2) {
                    assert(before + (seq!['"'] + t) =~= text@ + t);
                }
            }
            i = i + 2;
        } else if 0x20u32 <= c as u32 && (c as u32) < 0x7fu32 {
            let ghost before = text@;
            text.push(c);
            proof {
                if let Some((t, e)) = quoted_body(s@, i + 1) {
                    assert(before + (seq![c] + t) =~= text@ + t);
                }
            }
            i = i + 1;
        } else {
            return None;
        }
    }
}

fn arg_at(s: &[char], p: usize) -> (r: Option<(Vec<char>, usize)>)
    requires
        p <= s.len(),
    ensures
        match spec_arg(s@, p as int) {
            Some((t, e)) => r matches Some((x, n)) && x@ == t && n == e && p < e <= s.len(),
            None => r is None,
        },
{
    match quoted_at(s, p) {
        Some(r) => Some(r),
        None => match basic_arg_at(s, p) {
            Some(e) => Some((vstd::slice::slice_to_vec(&s[p..e]), e)),
            None => None,
        },
    }
}

fn command_terminator_at(s: &[char], p: usize) -> (r: Option<usize>)
    requires
        p <= s.len(),
    ensures
        match spec_command_terminator(s@, p as int) {
            Some(e) => r == Some(e as usize) && p < e <= s.len(),
            None => r is None,
        },
{
    match empty_line_at(s, p) {
        Some(e) => Some(e),
        None => if p < s.len() && s[p] == ';' {
            Some(p + 1)
        } else {
            None
        },
    }
}

/// The characters of each argument.
pub open spec fn args_view(l: Seq<Vec<char>>) -> Seq<Seq<char>> {
    l.map_values(|v: Vec<char>| v@)
}

fn args_at(s: &[char], p: usize) -> (r: (Vec<Vec<char>>, usize))
    requires
        p <= s.len(),
    ensures
        args_view(r.0@) == spec_args(s@, p as int).0,
        r.1 == spec_args(s@, p as int).1,
        p <= r.1 <= s.len(),
{
    let mut args: Vec<Vec<char>> = Vec::new();
    let mut i = p;
    assert(args_view(args@) + spec_args(s@, i as int).0 =~= spec_args(s@, p as int).0);
    loop
        invariant
            p <= i <= s.len(),
            args_view(args@) + spec_args(s@, i as int).0 == spec_args(s@, p as int).0,
            spec_args(s@, i as int).1 == spec_args(s@, p as int).1,
        decreases s.len() - i,
    {
        let q = space0(s, i);
        match arg_at(s, q) {
            Some((a, e)) => {
                let ghost before = args_view(args@);
                let ghost rest = spec_args(s@, e as int).0;
                args.push(a);
                assert(args_view(args@) =~= before + seq![a@]);
                assert(before + (seq![a@] + rest) =~= args_view(args@) + rest);
                i = e;
            },
            None => {
                assert(args_view(args@) + Seq::<Seq<char>>::empty() =~= args_view(args@));
                return (args, i);
            },
        }
    }
}

fn command_at(s: &[char], p: usize) -> (r: Option<(Vec<Vec<char>>, usize)>)
    requires
        p <= s.len(),
    ensures
        match spec_command(s@, p as int) {
            Some((c, e)) => r matches Some((x, n)) && args_view(x@) == c && n == e && p < e <= s.len(),
            None => r is None,
        },
{
    let (args, e) = args_at(s, p);
    if args.len() == 0 {
        return None;
    }
    match command_terminator_at(s, e) {
        Some(f) => Some((args, f)),
        None => None,
    }
}

fn empty_lines_at(s: &[char], p: usize) -> (r: usize)
    requires
        p <= s.len(),
    ensures
        r == spec_empty_lines(s@, p as int),
        p <= r <= s.len(),
{
    let mut i = p;
    loop
        invariant
            p <= i <= s.len(),
            spec_empty_lines(s@, i as int) == spec_empty_lines(s@, p as int),
        decreases s.len() - i,
    {
        match empty_line_at(s, i) {
            Some(e) => {
                i = e;
            },
            None => {
                return i;
            },
        }
    }
}

/// The arguments of each command.
pub open spec fn commands_view(l: Seq<Vec<Vec<char>>>) -> Seq<Seq<Seq<char>>> {
    l.map_values(|c: Vec<Vec<char>>| args_view(c@))
}

fn command_list_at(s: &[char], p: usize) -> (r: (Vec<Vec<Vec<char>>>, usize))
    requires
        p <= s.len(),
    ensures
        commands_view(r.0@) == spec_command_list(s@, p as int).0,
        r.1 == spec_command_list(s@, p as int).1,
        p <= r.1 <= s.len(),
{
    let mut cmds: Vec<Vec<Vec<char>>> = Vec::new();
    let mut i = p;
    assert(commands_view(cmds@) + spec_command_list(s@, i as int).0 =~= spec_command_list(
        s@,
        p as int,
    ).0);
    loop
        invariant
            p <= i <= s.len(),
            commands_view(cmds@) + spec_command_list(s@, i as int).0 == spec_command_list(
                s@,
                p as int,
            ).0,
            spec_command_list(s@, i as int).1 == spec_command_list(s@, p as int).1,
        decreases s.len() - i,
    {
        match command_at(s, i) {
            Some((c, e)) => {
                let f = empty_lines_at(s, e);
                let ghost before = commands_view(cmds@);
                let ghost rest = spec_command_list(s@, f as int).0;
                let ghost cv = args_view(c@);
                cmds.push(c);
                assert(commands_view(cmds@) =~= before + seq![cv]);
                assert(before + (seq![cv] + rest) =~= commands_view(cmds@) + rest);
                i = f;
            },
            None => {
                assert(commands_view(cmds@) + Seq::<Seq<Seq<char>>>::empty() =~= commands_view(
                    cmds@,
                ));
                return (cmds, i);
            },
        }
    }
}

/// The text after the first `e` characters, and those characters.
fn split_chars(chars: &[char], e: usize) -> (r: (String, String))
    requires
        e <= chars.len(),
    ensures
        r.0@ == chars@.skip(e as int),
        r.1@ == chars@.take(e as int),
{
    let rest = string_from_chars(&chars[e..chars.len()]);
    let matched = string_from_chars(&chars[0..e]);
    assert(chars@.subrange(e as int, chars@.len() as int) =~= chars@.skip(e as int));
    assert(chars@.subrange(0, e as int) =~= chars@.take(e as int));
    (rest, matched)
}

/// The strings of a list of character lists.
fn strings_of(l: &Vec<Vec<char>>) -> (r: Vec<String>)
    ensures
        r@.len() == l@.len(),
        forall|i: int| 0 <= i < l@.len() ==> #[trigger] r@[i]@ == l@[i]@,
{
    let mut r: Vec<String> = Vec::new();
    let mut i: usize = 0;
    while i < l.len()
        invariant
            i <= l@.len(),
            r@.len() == i,
            forall|k: int| 0 <= k < i ==> #[trigger] r@[k]@ == l@[k]@,
        decreases l@.len() - i,
    {
        r.push(string_from_chars(l[i].as_slice()));
        i = i + 1;
    }
    r
}

/// The text of each string.
pub open spec fn strings_view(l: Seq<String>) -> Seq<Seq<char>> {
    l.map_values(|x: String| x@)
}

/// What a rule that matches a prefix of the input gives: the rest of the input and the text
/// matched, or an error where it does not match.
pub open spec fn prefix_result(r: Result<(String, String), ParseError>, s: Seq<char>, e: Option<int>) -> bool {
    match e {
        Some(e) => r matches Ok((rest, m)) && rest@ == s.skip(e) && m@ == s.take(e),
        None => r is Err,
    }
}

/// A line comment: `//` and the rest of the line, up to a line ending.
pub fn line_comment(input: &str) -> (r: Result<(String, String), ParseError>)
    ensures
        prefix_result(r, input@, spec_line_comment(input@, 0)),
{
    let s = chars_of(input);
    match line_comment_at(s.as_slice(), 0) {
        Some(e) => Ok(split_chars(s.as_slice(), e)),
        None => Err(ParseError),
    }
}

/// An empty line: spaces and tabs, an optional line comment, and a line ending.
pub fn empty_line(input: &str) -> (r: Result<(String, String), ParseError>)
    ensures
        prefix_result(r, input@, spec_empty_line(input@, 0)),
{
    let s = chars_of(input);
    match empty_line_at(s.as_slice(), 0) {
        Some(e) => Ok(split_chars(s.as_slice(), e)),
        None => Err(ParseError),
    }
}

/// A line ending: `"\n"` or `"\r\n"`.
pub fn newline(input: &str) -> (r: Result<(String, String), ParseError>)
    ensures
        prefix_result(r, input@, spec_line_ending(input@, 0)),
{
    let s = chars_of(input);
    match line_ending_at(s.as_slice(), 0) {
        Some(e) => Ok(split_chars(s.as_slice(), e)),
        None => Err(ParseError),
    }
}

/// The end of a line terminator at `p`: a semicolon or a line ending.
pub open spec fn spec_line_terminator(s: Seq<char>, p: int) -> Option<int> {
    if at(s, p, ';') {
        Some(p + 1)
    } else {
        spec_line_ending(s, p)
    }
}

/// A line terminator: a semicolon or a line ending.
pub fn line_ending(input: &str) -> (r: Result<(String, String), ParseError>)
    ensures
        prefix_result(r, input@, spec_line_terminator(input@, 0)),
{
    let s = chars_of(input);
    if s.len() > 0 && s[0] == ';' {
        return Ok(split_chars(s.as_slice(), 1));
    }
    match line_ending_at(s.as_slice(), 0) {
        Some(e) => Ok(split_chars(s.as_slice(), e)),
        None => Err(ParseError),
    }
}

/// The end of one or more spaces and tabs at `p`.
pub open spec fn spec_space1(s: Seq<char>, p: int) -> Option<int> {
    let e = spec_space0(s, p);
    if e > p {
        Some(e)
    } else {
        None
    }
}

/// One or more spaces and tabs.
pub fn non_newline_spaces(input: &str) -> (r: Result<(String, String), ParseError>)
    ensures
        prefix_result(r, input@, spec_space1(input@, 0)),
{
    let s = chars_of(input);
    let e = space0(s.as_slice(), 0);
    if e > 0 {
        Ok(split_chars(s.as_slice(), e))
    } else {
        Err(ParseError)
    }
}

/// The end of what ends an unquoted argument at `p`: a space, a tab, a semicolon, a line
/// ending, or the start of a comment.
pub open spec fn spec_basic_arg_terminator(s: Seq<char>, p: int) -> Option<int> {
    if at(s, p, ' ') || at(s, p, '\t') || at(s, p, ';') {
        Some(p + 1)
    } else if spec_line_ending(s, p) is Some {
        spec_line_ending(s, p)
    } else if at(s, p, '/') && at(s, p + 1, '/') {
        Some(p + 2)
    } else {
        None
    }
}

/// What ends an unquoted argument: a space, a tab, a semicolon, a line ending, or `//`.
pub fn basic_arg_terminator(input: &str) -> (r: Result<(String, String), ParseError>)
    ensures
        prefix_result(r, input@, spec_basic_arg_terminator(input@, 0)),
{
    let s = chars_of(input);
    let n = s.len();
    if n > 0 && (s[0] == ' ' || s[0] == '\t' || s[0] == ';') {
        return Ok(split_chars(s.as_slice(), 1));
    }
    match line_ending_at(s.as_slice(), 0) {
        Some(e) => { return Ok(split_chars(s.as_slice(), e)); },
        None => {},
    }
    if n >= 2 && s[0] == '/' && s[1] == '/' {
        Ok(split_chars(s.as_slice(), 2))
    } else {
        Err(ParseError)
    }
}

/// An unquoted argument: ASCII characters other than control characters, up to a comment, a
/// semicolon, a quote, a space or a tab; it must not be empty.
pub fn basic_arg(input: &str) -> (r: Result<(String, String), ParseError>)
    ensures
        prefix_result(r, input@, spec_basic_arg(input@, 0)),
{
    let s = chars_of(input);
    match basic_arg_at(s.as_slice(), 0) {
        Some(e) => Ok(split_chars(s.as_slice(), e)),
        None => Err(ParseError),
    }
}

/// What a rule that reads a value gives: the rest of the input and the value, or an error
/// where it does not match.
pub open spec fn value_result(
    r: Result<(String, String), ParseError>,
    s: Seq<char>,
    v: Option<(Seq<char>, int)>,
) -> bool {
    match v {
        Some((t, e)) => r matches Ok((rest, m)) && rest@ == s.skip(e) && m@ == t,
        None => r is Err,
    }
}

/// A quoted string: printable ASCII text between double quotes, in which `\"` stands for a
/// double quote; it must not be empty. The value is the text without the quotes.
pub fn quoted(input: &str) -> (r: Result<(String, String), ParseError>)
    ensures
        value_result(r, input@, spec_quoted(input@, 0)),
{
    let s = chars_of(input);
    match quoted_at(s.as_slice(), 0) {
        Some((t, e)) => {
            let (rest, _) = split_chars(s.as_slice(), e);
            Ok((rest, string_from_chars(t.as_slice())))
        },
        None => Err(ParseError),
    }
}

/// An argument: a quoted string, or else an unquoted argument.
pub fn arg(input: &str) -> (r: Result<(String, String), ParseError>)
    ensures
        value_result(r, input@, spec_arg(input@, 0)),
{
    let s = chars_of(input);
    match arg_at(s.as_slice(), 0) {
        Some((t, e)) => {
            let (rest, _) = split_chars(s.as_slice(), e);
            Ok((rest, string_from_chars(t.as_slice())))
        },
        None => Err(ParseError),
    }
}

/// What ends a command: an empty line or a semicolon.
pub fn command_terminator(input: &str) -> (r: Result<(String, String), ParseError>)
    ensures
        prefix_result(r, input@, spec_command_terminator(input@, 0)),
{
    let s = chars_of(input);
    match command_terminator_at(s.as_slice(), 0) {
        Some(e) => Ok(split_chars(s.as_slice(), e)),
        None => Err(ParseError),
    }
}

/// A command: one or more arguments, each after spaces or tabs, and a terminator. The value
/// is the list of arguments.
pub fn command(input: &str) -> (r: Result<(String, Vec<String>), ParseError>)
    ensures
        match spec_command(input@, 0) {
            Some((c, e)) => r matches Ok((rest, args)) && rest@ == input@.skip(e)
                && strings_view(args@) == c,
            None => r is Err,
        },
{
    let s = chars_of(input);
    match command_at(s.as_slice(), 0) {
        Some((c, e)) => {
            let (rest, _) = split_chars(s.as_slice(), e);
            let args = strings_of(&c);
            assert(strings_view(args@) =~= args_view(c@));
            Ok((rest, args))
        },
        None => Err(ParseError),
    }
}

/// A script: empty lines, then commands, each followed by empty lines. The value is the
/// arguments of each command; reading stops at the first text that is not a command.
pub fn commands(input: &str) -> (r: Result<(String, Vec<Vec<String>>), ParseError>)
    ensures
        r matches Ok((rest, cmds)) && rest@ == input@.skip(spec_commands(input@).1)
            && cmds@.len() == spec_commands(input@).0.len()
            && forall|i: int| 0 <= i < cmds@.len() ==> #[trigger] strings_view(cmds@[i]@)
                == spec_commands(input@).0[i],
{
    let s = chars_of(input);
    let p = empty_lines_at(s.as_slice(), 0);
    let (cmds, e) = command_list_at(s.as_slice(), p);
    let (rest, _) = split_chars(s.as_slice(), e);
    let mut out: Vec<Vec<String>> = Vec::new();
    let mut i: usize = 0;
    while i < cmds.len()
        invariant
            i <= cmds@.len(),
            out@.len() == i,
            commands_view(cmds@) == spec_commands(s@).0,
            forall|k: int| 0 <= k < i ==> #[trigger] strings_view(out@[k]@) == args_view(
                cmds@[k]@,
            ),
        decreases cmds@.len() - i,
    {
        let args = strings_of(&cmds[i]);
        assert(strings_view(args@) =~= args_view(cmds@[i as int]@));
        out.push(args);
        i = i + 1;
    }
    assert forall|k: int| 0 <= k < out@.len() implies #[trigger] strings_view(out@[k]@)
        == spec_commands(s@).0[k] by {
        assert(commands_view(cmds@)[k] == args_view(cmds@[k]@));
    }
    Ok((rest, out))
}


/// Whether a key was pressed or released.
#[derive(Copy, Clone, Debug, PartialEq, Eq, Structural)]
pub enum ElementState {
    Pressed,
    Released,
}

/// Whether `c` is an ASCII letter or digit.
pub open spec fn alphanumeric(c: char) -> bool {
    ('a' <= c <= 'z') || ('A' <= c <= 'Z') || ('0' <= c <= '9')
}

/// The first position at or after `i` that does not hold an ASCII letter or digit.
pub open spec fn alphanumeric_end(s: Seq<char>, i: int) -> int
    decreases s.len() - i,
{
    if 0 <= i < s.len() && alphanumeric(s[i]) {
        alphanumeric_end(s, i + 1)
    } else {
        i
    }
}

/// An action at the start of `s`: `+` for pressed or `-` for released, then one or more ASCII
/// letters or digits naming it; and the position after it.
pub open spec fn spec_action(s: Seq<char>) -> Option<(ElementState, Seq<char>, int)> {
    if s.len() > 0 && (s[0] == '+' || s[0] == '-') && alphanumeric_end(s, 1) > 1 {
        Some((
            if s[0] == '+' { ElementState::Pressed } else { ElementState::Released },
            s.subrange(1, alphanumeric_end(s, 1)),
            alphanumeric_end(s, 1),
        ))
    } else {
        None
    }
}

/// An action bound to a key: `+` (pressed) or `-` (released) and its name of ASCII letters and
/// digits. The value is the state and the name, with the rest of the input.
pub fn action(input: &str) -> (r: Result<(String, (ElementState, String)), ParseError>)
    ensures
        match spec_action(input@) {
            Some((st, name, e)) => r matches Ok((rest, x)) && rest@ == input@.skip(e) && x.0 == st && x.1@ == name,
            None => r is Err,
        },
{
    let s = chars_of(input);
    if s.len() == 0 || !(s[0] == '+' || s[0] == '-') {
        return Err(ParseError);
    }
    let state = if s[0] == '+' {
        ElementState::Pressed
    } else {
        ElementState::Released
    };
    let mut i: usize = 1;
    while i < s.len() && ((s[i] >= 'a' && s[i] <= 'z') || (s[i] >= 'A' && s[i] <= 'Z') || (s[i] >= '0' && s[i] <= '9'))
        invariant
            1 <= i <= s.len(),
            s@ == input@,
            alphanumeric_end(s@, i as int) == alphanumeric_end(s@, 1),
        decreases s.len() - i,
    {
        i = i + 1;
    }
    if i == 1 {
        return Err(ParseError);
    }
    let name = string_from_chars(vstd::slice::slice_subrange(s.as_slice(), 1, i));
    let (rest, _) = split_chars(s.as_slice(), i);
    Ok((rest, (state, name)))
}


/// A line ending is `"\n"` or `"\r\n"`: either one ends an empty line and a command alike,
/// after spaces and tabs, and the two are read the same way.
pub proof fn lemma_line_endings(s: Seq<char>, p: int)
    requires
        0 <= p,
    ensures
        at(s, p, '\n') ==> spec_line_ending(s, p) == Some(p + 1),
        at(s, p, '\r') && at(s, p + 1, '\n') ==> spec_line_ending(s, p) == Some(p + 2),
        !at(s, p, '\n') && !(at(s, p, '\r') && at(s, p + 1, '\n')) ==> spec_line_ending(s, p) is None,
        at(s, p, '\n') ==> spec_empty_line(s, p) == Some(p + 1) && spec_command_terminator(s, p) == Some(p + 1),
        at(s, p, '\r') && at(s, p + 1, '\n') ==> spec_empty_line(s, p) == Some(p + 2)
            && spec_command_terminator(s, p) == Some(p + 2),
{
    if at(s, p, '\n') || (at(s, p, '\r') && at(s, p + 1, '\n')) {
        assert(spec_space0(s, p) == p);
        assert(spec_line_comment(s, p) is None);
    }
}

} // verus!
