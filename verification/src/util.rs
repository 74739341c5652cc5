//! Small helpers shared by the file formats and the protocol.

use vstd::prelude::*;
use vstd::utf8::{decode_utf8, valid_utf8};
use std::string::FromUtf8Error;

verus! {

/// The error of `String::from_utf8`.
#[verifier::external_type_specification]
#[verifier::external_body]
pub struct ExFromUtf8Error(FromUtf8Error);

/// The position of the first zero byte at or after `p`.
pub open spec fn find_nul(s: Seq<u8>, p: int) -> Option<int>
    decreases s.len() - p,
{
    if p < 0 || p >= s.len() {
        None
    } else if s[p] == 0 {
        Some(p)
    } else {
        find_nul(s, p + 1)
    }
}

/// The first zero byte at or after `p` is the one that `find_nul` finds.
pub proof fn lemma_find_nul(s: Seq<u8>, p: int)
    ensures
        find_nul(s, p) matches Some(z) ==> {
            &&& 0 <= p <= z < s.len()
            &&& s[z] == 0
            &&& forall|i: int| p <= i < z ==> s[i] != 0
        },
        find_nul(s, p) is None ==> forall|i: int| 0 <= p <= i < s.len() ==> s[i] != 0,
    decreases s.len() - p,
{
    if p >= 0 && p < s.len() && s[p] != 0 {
        lemma_find_nul(s, p + 1);
    }
}

/// The position of the first zero byte at or after `p`, if there is one.
pub fn find_nul_from(src: &[u8], p: usize) -> (r: Option<usize>)
    requires
        p <= src.len(),
    ensures
        match r {
            Some(z) => find_nul(src@, p as int) == Some(z as int),
            None => find_nul(src@, p as int) is None,
        },
{
    let mut i = p;
    while i < src.len()
        invariant
            p <= i <= src.len(),
            find_nul(src@, p as int) == find_nul(src@, i as int),
        decreases src.len() - i,
    {
        if src[i] == 0 {
            return Some(i);
        }
        i = i + 1;
    }
    None
}

/// `String::from_utf8`: the bytes as a string when they are valid UTF-8.
///
/// The standard library accepts exactly the byte sequences that the UTF-8 standard allows and
/// keeps the characters they encode; that is what `valid_utf8` and `decode_utf8` define.
#[verifier::external_body]
pub(crate) fn string_from_utf8(bytes: Vec<u8>) -> (r: Result<String, FromUtf8Error>)
    ensures
        r is Ok <==> valid_utf8(bytes@),
        r matches Ok(s) ==> s@ == decode_utf8(bytes@),
{
    String::from_utf8(bytes)
}

/// Reads a zero-terminated string that starts at `*pos`, and moves `*pos` past its zero byte.
///
/// The result is the text before the zero byte, or an error if those bytes are not UTF-8.
/// The input must hold a zero byte at or after `*pos`.
pub fn read_cstring(src: &[u8], pos: &mut usize) -> (r: Result<String, FromUtf8Error>)
    requires
        *old(pos) <= src.len(),
        find_nul(src@, *old(pos) as int) is Some,
    ensures
        ({
            let z = find_nul(src@, *old(pos) as int)->0;
            let bytes = src@.subrange(*old(pos) as int, z);
            &&& *final(pos) == z + 1
            &&& r is Ok <==> valid_utf8(bytes)
            &&& r matches Ok(s) ==> s@ == decode_utf8(bytes)
        }),
{
    let p = *pos;
    let z = find_nul_from(src, p).unwrap();
    proof {
        lemma_find_nul(src@, p as int);
    }
    let bytes = vstd::slice::slice_to_vec(&src[p..z]);
    *pos = z + 1;
    string_from_utf8(bytes)
}

/// `String::from_iter`: the string of the given characters, in order.
#[verifier::external_body]
pub(crate) fn string_from_chars(chars: &[char]) -> (r: String)
    ensures
        r@ == chars@,
{
    String::from_iter(chars.iter())
}

/// The number of bytes that a read of up to `n` bytes at `p` gets from `b`.
pub open spec fn readable(b: Seq<u8>, p: int, n: int) -> int {
    let rest = if p < b.len() { b.len() - p } else { 0 };
    if n < rest { n } else { rest }
}

/// What `out` holds after a read at `p` from `b`: the bytes read, then what it held.
pub open spec fn read_into(out: Seq<u8>, b: Seq<u8>, p: int) -> Seq<u8> {
    let r = readable(b, p, out.len() as int);
    Seq::new(out.len(), |k: int| if k < r { b[p + k] } else { out[k] })
}

/// The lowercase form of a string, as the standard library's `str::to_lowercase` gives it.
pub uninterp spec fn lowercase(s: Seq<char>) -> Seq<char>;

/// `str::to_lowercase`: each character replaced by its lowercase form under the Unicode tables
/// of the standard library. What those tables hold is not stated; the result is named.
#[verifier::external_body]
pub(crate) fn to_lowercase(s: &str) -> (r: String)
    ensures
        r@ == lowercase(s@),
{
    s.to_lowercase()
}

/// The characters of a string, in order.
pub fn chars_of(s: &str) -> (r: Vec<char>)
    ensures
        r@ == s@,
{
    broadcast use vstd::string::group_string_axioms;

    let mut v: Vec<char> = Vec::new();
    for c in it: s.chars()
        invariant
            v@ == it.seq().take(it.index() as int),
            it.seq() == s@,
    {
        v.push(c);
    }
    v
}

/// A copy of a list of characters.
pub fn copy_chars(chars: &[char]) -> (r: Vec<char>)
    ensures
        r@ == chars@,
{
    vstd::slice::slice_to_vec(chars)
}

/// A plain-old-data type: copied bit for bit, with no references and no destructor.
pub trait Pod: 'static + Copy + Sized + Send + Sync {}

impl<T: 'static + Copy + Sized + Send + Sync> Pod for T {}

} // verus!
