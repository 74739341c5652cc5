//! The entities of a map as its text gives them: each entity a block between a line `{` and a
//! line `}`, each line of the block a quoted name, a space and a quoted value.
//!
//! Each rule is given by a `spec_*` function on the characters of the input and a position,
//! and read by an executable function proved against it.

use vstd::prelude::*;
use crate::console::parse::{at, quotable, ParseError};
use crate::util::{chars_of, string_from_chars};

verus! {

/// Whether `c` may stand inside the quotes of a map's string: printable ASCII, not a quote.
pub open spec fn string_char(c: char) -> bool {
    quotable(c) && c != '"'
}

/// The first position at or after `i` that does not hold a character of a string.
pub open spec fn string_end(s: Seq<char>, i: int) -> int
    decreases s.len() - i,
{
    if 0 <= i < s.len() && string_char(s[i]) {
        string_end(s, i + 1)
    } else {
        i
    }
}

/// A quoted string at `p`: one or more characters of a string between double quotes, and the
/// position after the closing quote.
pub open spec fn spec_map_quoted(s: Seq<char>, p: int) -> Option<(Seq<char>, int)> {
    if at(s, p, '"') && string_end(s, p + 1) > p + 1 && at(s, string_end(s, p + 1), '"') {
        Some((s.subrange(p + 1, string_end(s, p + 1)), string_end(s, p + 1) + 1))
    } else {
        None
    }
}

/// A line of an entity at `p`: a quoted name, a space, a quoted value and a newline; and the
/// position after it.
pub open spec fn spec_attribute(s: Seq<char>, p: int) -> Option<((Seq<char>, Seq<char>), int)> {
    match spec_map_quoted(s, p) {
        Some((n, q)) => if at(s, q, ' ') {
            match spec_map_quoted(s, q + 1) {
                Some((v, e)) => if at(s, e, '\n') {
                    Some(((n, v), e + 1))
                } else {
                    None
                },
                None => None,
            }
        } else {
            None
        },
        None => None,
    }
}

/// The lines of an entity from `p`, as many as follow one another, and the position after
/// them.
pub open spec fn spec_attributes(s: Seq<char>, p: int) -> (Seq<(Seq<char>, Seq<char>)>, int)
    decreases s.len() - p,
{
    match spec_attribute(s, p) {
        Some((a, e)) => if p < e <= s.len() {
            let (rest, f) = spec_attributes(s, e);
            (seq![a] + rest, f)
        } else {
            (Seq::empty(), p)
        },
        None => (Seq::empty(), p),
    }
}

/// An entity at `p`: a line `{`, its lines, and a line `}`; and the position after it.
pub open spec fn spec_entity(s: Seq<char>, p: int) -> Option<(Seq<(Seq<char>, Seq<char>)>, int)> {
    if at(s, p, '{') && at(s, p + 1, '\n') {
        let (a, q) = spec_attributes(s, p + 2);
        if at(s, q, '}') && at(s, q + 1, '\n') {
            Some((a, q + 2))
        } else {
            None
        }
    } else {
        None
    }
}

/// The entities from `p`, as many as follow one another, and the position after them.
pub open spec fn spec_entities(s: Seq<char>, p: int) -> (Seq<Seq<(Seq<char>, Seq<char>)>>, int)
    decreases s.len() - p,
{
    match spec_entity(s, p) {
        Some((a, e)) => if p < e <= s.len() {
            let (rest, f) = spec_entities(s, e);
            (seq![a] + rest, f)
        } else {
            (Seq::empty(), p)
        },
        None => (Seq::empty(), p),
    }
}

/// The texts of each name and value.
pub open spec fn pairs_view(l: Seq<(String, String)>) -> Seq<(Seq<char>, Seq<char>)> {
    l.map_values(|x: (String, String)| (x.0@, x.1@))
}

/// The texts of each entity's names and values.
pub open spec fn entities_view(l: Seq<Vec<(String, String)>>) -> Seq<Seq<(Seq<char>, Seq<char>)>> {
    l.map_values(|x: Vec<(String, String)>| pairs_view(x@))
}

fn map_quoted_at(s: &[char], p: usize) -> (r: Option<(String, usize)>)
    requires
        p <= s.len(),
    ensures
        match spec_map_quoted(s@, p as int) {
            Some((t, e)) => r matches Some((x, n)) && x@ == t && n == e && p < e <= s.len(),
            None => r is None,
        },
{
    if !(p < s.len() && s[p] == '"') {
        return None;
    }
    let mut i = p + 1;
    while i < s.len() && 0x20u32 <= s[i] as u32 && (s[i] as u32) < 0x7fu32 && s[i] != '"'
        invariant
            p + 1 <= i <= s.len(),
            string_end(s@, i as int) == string_end(s@, p + 1),
        decreases s.len() - i,
    {
        i = i + 1;
    }
    if i > p + 1 && i < s.len() && s[i] == '"' {
        let body = vstd::slice::slice_subrange(s, p + 1, i);
        let t = string_from_chars(body);
        Some((t, i + 1))
    } else {
        None
    }
}

fn attribute_at(s: &[char], p: usize) -> (r: Option<((String, String), usize)>)
    requires
        p <= s.len(),
    ensures
        match spec_attribute(s@, p as int) {
            Some((a, e)) => r matches Some((x, n)) && x.0@ == a.0 && x.1@ == a.1 && n == e && p < e <= s.len(),
            None => r is None,
        },
{
    let (n, q) = match map_quoted_at(s, p) {
        Some(x) => x,
        None => {
            return None;
        },
    };
    if !(q < s.len() && s[q] == ' ') {
        return None;
    }
    let (v, e) = match map_quoted_at(s, q + 1) {
        Some(x) => x,
        None => {
            return None;
        },
    };
    if !(e < s.len() && s[e] == '\n') {
        return None;
    }
    Some(((n, v), e + 1))
}

fn attributes_at(s: &[char], p: usize) -> (r: (Vec<(String, String)>, usize))
    requires
        p <= s.len(),
    ensures
        pairs_view(r.0@) == spec_attributes(s@, p as int).0,
        r.1 == spec_attributes(s@, p as int).1,
        p <= r.1 <= s.len(),
{
    let mut v: Vec<(String, String)> = Vec::new();
    let mut i = p;
    assert(pairs_view(v@) + spec_attributes(s@, i as int).0 =~= spec_attributes(s@, p as int).0);
    loop
        invariant
            p <= i <= s.len(),
            pairs_view(v@) + spec_attributes(s@, i as int).0 == spec_attributes(s@, p as int).0,
            spec_attributes(s@, i as int).1 == spec_attributes(s@, p as int).1,
        decreases s.len() - i,
    {
        match attribute_at(s, i) {
            Some((a, e)) => {
                let ghost before = pairs_view(v@);
                let ghost rest = spec_attributes(s@, e as int).0;
                let ghost av = (a.0@, a.1@);
                v.push(a);
                assert(pairs_view(v@) =~= before + seq![av]);
                assert(before + (seq![av] + rest) =~= pairs_view(v@) + rest);
                i = e;
            },
            None => {
                assert(pairs_view(v@) + Seq::<(Seq<char>, Seq<char>)>::empty() =~= pairs_view(v@));
                return (v, i);
            },
        }
    }
}

fn entity_at(s: &[char], p: usize) -> (r: Option<(Vec<(String, String)>, usize)>)
    requires
        p <= s.len(),
    ensures
        match spec_entity(s@, p as int) {
            Some((a, e)) => r matches Some((x, n)) && pairs_view(x@) == a && n == e && p < e <= s.len(),
            None => r is None,
        },
{
    if !(p < s.len() && s.len() - p >= 2 && s[p] == '{' && s[p + 1] == '\n') {
        return None;
    }
    let (a, q) = attributes_at(s, p + 2);
    if !(q < s.len() && s.len() - q >= 2 && s[q] == '}' && s[q + 1] == '\n') {
        return None;
    }
    Some((a, q + 2))
}

fn entities_at(s: &[char], p: usize) -> (r: (Vec<Vec<(String, String)>>, usize))
    requires
        p <= s.len(),
    ensures
        entities_view(r.0@) == spec_entities(s@, p as int).0,
        r.1 == spec_entities(s@, p as int).1,
        p <= r.1 <= s.len(),
{
    let mut v: Vec<Vec<(String, String)>> = Vec::new();
    let mut i = p;
    assert(entities_view(v@) + spec_entities(s@, i as int).0 =~= spec_entities(s@, p as int).0);
    loop
        invariant
            p <= i <= s.len(),
            entities_view(v@) + spec_entities(s@, i as int).0 == spec_entities(s@, p as int).0,
            spec_entities(s@, i as int).1 == spec_entities(s@, p as int).1,
        decreases s.len() - i,
    {
        match entity_at(s, i) {
            Some((a, e)) => {
                let ghost before = entities_view(v@);
                let ghost rest = spec_entities(s@, e as int).0;
                let ghost av = pairs_view(a@);
                v.push(a);
                assert(entities_view(v@) =~= before + seq![av]);
                assert(before + (seq![av] + rest) =~= entities_view(v@) + rest);
                i = e;
            },
            None => {
                assert(entities_view(v@) + Seq::<Seq<(Seq<char>, Seq<char>)>>::empty() =~= entities_view(v@));
                return (v, i);
            },
        }
    }
}

/// The text after the first `e` characters.
fn rest_after(chars: &[char], e: usize) -> (r: String)
    requires
        e <= chars.len(),
    ensures
        r@ == chars@.skip(e as int),
{
    assert(chars@.subrange(e as int, chars@.len() as int) =~= chars@.skip(e as int));
    string_from_chars(&chars[e..chars.len()])
}

/// A line of an entity: `"name" "value"` and a newline. The value is the name and the value,
/// with the rest of the input.
pub fn entity_attribute(input: &str) -> (r: Result<(String, (String, String)), ParseError>)
    ensures
        match spec_attribute(input@, 0) {
            Some((a, e)) => r matches Ok((rest, x)) && rest@ == input@.skip(e) && x.0@ == a.0 && x.1@ == a.1,
            None => r is Err,
        },
{
    let s = chars_of(input);
    match attribute_at(s.as_slice(), 0) {
        Some((a, e)) => Ok((rest_after(s.as_slice(), e), a)),
        None => Err(ParseError),
    }
}

/// An entity: a line `{`, its lines, and a line `}`. The value is its names and values in the
/// order of its lines; where a name comes twice, its later value is the one that counts.
pub fn entity(input: &str) -> (r: Result<(String, Vec<(String, String)>), ParseError>)
    ensures
        match spec_entity(input@, 0) {
            Some((a, e)) => r matches Ok((rest, x)) && rest@ == input@.skip(e) && pairs_view(x@) == a,
            None => r is Err,
        },
{
    let s = chars_of(input);
    match entity_at(s.as_slice(), 0) {
        Some((a, e)) => Ok((rest_after(s.as_slice(), e), a)),
        None => Err(ParseError),
    }
}

/// The entities at the start of the input, as many as follow one another, with the rest of
/// the input.
pub fn entities(input: &str) -> (r: Result<(String, Vec<Vec<(String, String)>>), ParseError>)
    ensures
        r matches Ok((rest, x)) && rest@ == input@.skip(spec_entities(input@, 0).1)
            && entities_view(x@) == spec_entities(input@, 0).0,
{
    let s = chars_of(input);
    let (v, e) = entities_at(s.as_slice(), 0);
    Ok((rest_after(s.as_slice(), e), v))
}


/// A text that a map may quote: printable ASCII, not a double quote, not empty.
pub open spec fn map_text(t: Seq<char>) -> bool {
    &&& t.len() > 0
    &&& forall|i: int| 0 <= i < t.len() ==> 0x20 <= #[trigger] (t[i] as u32) < 0x7f && t[i] != '"'
}

/// Every printable ASCII character other than a double quote, the space included, may stand in
/// a quoted name or value: quoting such a text and reading it back gives the text, and reading
/// ends just after the closing quote.
pub proof fn lemma_quoted_text(t: Seq<char>, rest: Seq<char>)
    requires
        map_text(t),
    ensures
        spec_map_quoted(seq!['"'] + t + seq!['"'] + rest, 0) == Some((t, t.len() as int + 2)),
{
    lemma_quoted_at(seq!['"'] + t + seq!['"'] + rest, 0, t);
}

/// A line of an entity with a name and a value that a map may quote, spaces inside them
/// included, reads as that name and that value, and ends after its newline.
pub proof fn lemma_attribute_line(n: Seq<char>, v: Seq<char>, rest: Seq<char>)
    requires
        map_text(n),
        map_text(v),
    ensures
        spec_attribute(
            seq!['"'] + n + seq!['"', ' ', '"'] + v + seq!['"', '\n'] + rest,
            0,
        ) == Some(((n, v), n.len() + v.len() as int + 6)),
{
    let s = seq!['"'] + n + seq!['"', ' ', '"'] + v + seq!['"', '\n'] + rest;
    lemma_quoted_at(s, 0, n);
    assert(s[n.len() as int + 2] == ' ');
    lemma_quoted_at(s, n.len() as int + 3, v);
    assert(s[n.len() + v.len() as int + 5] == '\n');
}

/// A double quote at `p`, the text `t` and a double quote: the quoted string there is `t`.
proof fn lemma_quoted_at(s: Seq<char>, p: int, t: Seq<char>)
    requires
        map_text(t),
        0 <= p,
        p + t.len() + 2 <= s.len(),
        s[p] == '"',
        s[p + 1 + t.len()] == '"',
        forall|i: int| 0 <= i < t.len() ==> #[trigger] s[p + 1 + i] == t[i],
    ensures
        spec_map_quoted(s, p) == Some((t, p + t.len() + 2)),
{
    lemma_string_end(s, p, t, 0);
    assert forall|i: int| 0 <= i < t.len() implies s.subrange(p + 1, p + 1 + t.len())[i] == t[i] by {
        assert(s[p + 1 + i] == t[i]);
    }
    assert(s.subrange(p + 1, p + 1 + t.len()) =~= t);
}

proof fn lemma_string_end(s: Seq<char>, p: int, t: Seq<char>, k: int)
    requires
        map_text(t),
        0 <= p,
        0 <= k <= t.len(),
        p + t.len() + 2 <= s.len(),
        s[p + 1 + t.len()] == '"',
        forall|i: int| 0 <= i < t.len() ==> #[trigger] s[p + 1 + i] == t[i],
    ensures
        string_end(s, p + 1 + k) == p + 1 + t.len(),
    decreases t.len() - k,
{
    if k < t.len() {
        assert(s[p + 1 + k] == t[k]);
        lemma_string_end(s, p, t, k + 1);
    }
}

} // verus!
