//! Reading little-endian integers from a byte buffer, each checked against an optional range.

use vstd::prelude::*;
use crate::wire::{read_i16_le, read_i32_le, read_u16_le, read_u32_le, seq_u16_le, seq_u32_le};

verus! {

/// Why a value could not be loaded.
#[derive(Clone, Copy, Debug, PartialEq, Eq, Structural)]
pub enum LoadError {
    /// The buffer ended first.
    Read,
    /// The value is outside the allowed range.
    Range,
}

/// One end of a range.
#[derive(Clone, Copy, Debug, PartialEq, Eq, Structural)]
pub enum LoadBound {
    Included(i64),
    Excluded(i64),
    Unbounded,
}

/// A range of allowed values.
#[derive(Clone, Copy, Debug, PartialEq, Eq, Structural)]
pub struct LoadRange {
    pub start: LoadBound,
    pub end: LoadBound,
}

/// Whether `x` lies in `r`.
pub open spec fn spec_in_range(x: int, r: LoadRange) -> bool {
    &&& match r.start {
        LoadBound::Included(s) => x >= s,
        LoadBound::Excluded(s) => x > s,
        LoadBound::Unbounded => true,
    }
    &&& match r.end {
        LoadBound::Included(e) => x <= e,
        LoadBound::Excluded(e) => x < e,
        LoadBound::Unbounded => true,
    }
}

/// Whether `x` lies in `r`.
pub fn in_range(x: i64, r: &LoadRange) -> (b: bool)
    ensures
        b == spec_in_range(x as int, *r),
{
    match r.start {
        LoadBound::Included(s) => {
            if x < s {
                return false;
            }
        },
        LoadBound::Excluded(s) => {
            if x <= s {
                return false;
            }
        },
        LoadBound::Unbounded => {},
    }
    match r.end {
        LoadBound::Included(e) => {
            if x > e {
                return false;
            }
        },
        LoadBound::Excluded(e) => {
            if x >= e {
                return false;
            }
        },
        LoadBound::Unbounded => {},
    }
    true
}

/// What loading a value of `n` bytes at `pos` gives, given the value those bytes hold: a read
/// error where the buffer is too short, with the position unchanged; otherwise the position
/// moves past the bytes, and the value is returned if it lies in the range.
pub open spec fn loaded<T>(
    len: int,
    n: int,
    value: int,
    range: Option<LoadRange>,
    old_pos: int,
    new_pos: int,
    r: Result<T, LoadError>,
    v: spec_fn(T) -> int,
) -> bool {
    if old_pos + n > len {
        r == Err::<T, LoadError>(LoadError::Read) && new_pos == old_pos
    } else {
        &&& new_pos == old_pos + n
        &&& match range {
            Some(rg) => if spec_in_range(value, rg) {
                r matches Ok(x) && v(x) == value
            } else {
                r == Err::<T, LoadError>(LoadError::Range)
            },
            None => r matches Ok(x) && v(x) == value,
        }
    }
}

/// Loads a byte.
pub fn load_u8(buf: &[u8], pos: &mut usize, range: Option<&LoadRange>) -> (r: Result<u8, LoadError>)
    requires
        *old(pos) <= buf.len(),
    ensures
        loaded(
            buf.len() as int,
            1,
            if *old(pos) < buf.len() { buf@[*old(pos) as int] as int } else { 0 },
            match range { Some(x) => Some(*x), None => None },
            *old(pos) as int,
            *final(pos) as int,
            r,
            |x: u8| x as int,
        ),
{
    if buf.len() - *pos < 1 {
        return Err(LoadError::Read);
    }
    let x = buf[*pos];
    *pos = *pos + 1;
    if let Some(rg) = range {
        if !in_range(x as i64, rg) {
            return Err(LoadError::Range);
        }
    }
    Ok(x)
}

/// Loads a little-endian `u16`.
pub fn load_u16le(buf: &[u8], pos: &mut usize, range: Option<&LoadRange>) -> (r: Result<u16, LoadError>)
    requires
        *old(pos) <= buf.len(),
    ensures
        loaded(
            buf.len() as int,
            2,
            if *old(pos) + 2 <= buf.len() { seq_u16_le(buf@.skip(*old(pos) as int)) as int } else { 0 },
            match range { Some(x) => Some(*x), None => None },
            *old(pos) as int,
            *final(pos) as int,
            r,
            |x: u16| x as int,
        ),
{
    if buf.len() - *pos < 2 {
        return Err(LoadError::Read);
    }
    let x = read_u16_le(vstd::slice::slice_subrange(buf, *pos, *pos + 2));
    assert(buf@.subrange(*old(pos) as int, *old(pos) + 2)[0] == buf@.skip(*old(pos) as int)[0]);
    assert(buf@.subrange(*old(pos) as int, *old(pos) + 2)[1] == buf@.skip(*old(pos) as int)[1]);
    *pos = *pos + 2;
    if let Some(rg) = range {
        if !in_range(x as i64, rg) {
            return Err(LoadError::Range);
        }
    }
    Ok(x)
}

/// Loads a little-endian `i16`.
pub fn load_i16le(buf: &[u8], pos: &mut usize, range: Option<&LoadRange>) -> (r: Result<i16, LoadError>)
    requires
        *old(pos) <= buf.len(),
    ensures
        loaded(
            buf.len() as int,
            2,
            if *old(pos) + 2 <= buf.len() { seq_u16_le(buf@.skip(*old(pos) as int)) as i16 as int } else { 0 },
            match range { Some(x) => Some(*x), None => None },
            *old(pos) as int,
            *final(pos) as int,
            r,
            |x: i16| x as int,
        ),
{
    if buf.len() - *pos < 2 {
        return Err(LoadError::Read);
    }
    let x = read_i16_le(vstd::slice::slice_subrange(buf, *pos, *pos + 2));
    assert(buf@.subrange(*old(pos) as int, *old(pos) + 2)[0] == buf@.skip(*old(pos) as int)[0]);
    assert(buf@.subrange(*old(pos) as int, *old(pos) + 2)[1] == buf@.skip(*old(pos) as int)[1]);
    *pos = *pos + 2;
    if let Some(rg) = range {
        if !in_range(x as i64, rg) {
            return Err(LoadError::Range);
        }
    }
    Ok(x)
}

/// Loads a little-endian `u32`.
pub fn load_u32le(buf: &[u8], pos: &mut usize, range: Option<&LoadRange>) -> (r: Result<u32, LoadError>)
    requires
        *old(pos) <= buf.len(),
    ensures
        loaded(
            buf.len() as int,
            4,
            if *old(pos) + 4 <= buf.len() { seq_u32_le(buf@.skip(*old(pos) as int)) as int } else { 0 },
            match range { Some(x) => Some(*x), None => None },
            *old(pos) as int,
            *final(pos) as int,
            r,
            |x: u32| x as int,
        ),
{
    if buf.len() - *pos < 4 {
        return Err(LoadError::Read);
    }
    let x = read_u32_le(vstd::slice::slice_subrange(buf, *pos, *pos + 4));
    assert(forall|k: int| 0 <= k < 4 ==> buf@.subrange(*old(pos) as int, *old(pos) + 4)[k] == buf@.skip(*old(pos) as int)[k]);
    *pos = *pos + 4;
    if let Some(rg) = range {
        if !in_range(x as i64, rg) {
            return Err(LoadError::Range);
        }
    }
    Ok(x)
}

/// Loads a little-endian `i32`.
pub fn load_i32le(buf: &[u8], pos: &mut usize, range: Option<&LoadRange>) -> (r: Result<i32, LoadError>)
    requires
        *old(pos) <= buf.len(),
    ensures
        loaded(
            buf.len() as int,
            4,
            if *old(pos) + 4 <= buf.len() { seq_u32_le(buf@.skip(*old(pos) as int)) as i32 as int } else { 0 },
            match range { Some(x) => Some(*x), None => None },
            *old(pos) as int,
            *final(pos) as int,
            r,
            |x: i32| x as int,
        ),
{
    if buf.len() - *pos < 4 {
        return Err(LoadError::Read);
    }
    let x = read_i32_le(vstd::slice::slice_subrange(buf, *pos, *pos + 4));
    assert(forall|k: int| 0 <= k < 4 ==> buf@.subrange(*old(pos) as int, *old(pos) + 4)[k] == buf@.skip(*old(pos) as int)[k]);
    *pos = *pos + 4;
    if let Some(rg) = range {
        if !in_range(x as i64, rg) {
            return Err(LoadError::Range);
        }
    }
    Ok(x)
}

} // verus!
