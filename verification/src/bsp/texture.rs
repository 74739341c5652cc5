//! The textures of a map: reading each texture that the texture section holds, and putting the
//! frames of animated textures together.
//!
//! A texture whose name has the form `+` frame stem is a frame of the animated texture `stem`.
//! Frames `0` to `9` make its primary animation and frames `a` to `j` its alternate one.

use vstd::prelude::*;
use super::{BspError, BspTexInfoBits, MIPLEVELS};
use super::load::{BspFileError, MAX_TEXTURES};
use crate::wire::{seq_u32_le, u32_le_at, i32_le_at};
use crate::util::{find_nul, find_nul_from, lemma_find_nul, lowercase, string_from_utf8, to_lowercase};
use vstd::utf8::{decode_utf8, valid_utf8};

verus! {

/// The number of bytes of a texture's name.
pub const TEX_NAME_MAX: usize = 16;

/// The number of bytes before a texture's pixels: its name, its size and the offsets of its
/// levels of detail.
pub const TEX_HEADER_SIZE: usize = 40;

/// A texture as a map file stores it.
pub struct BspFileTexture {
    /// The name, in lowercase.
    pub name: String,
    pub width: u32,
    pub height: u32,
    /// The pixels of each level of detail, each a palette index.
    pub mipmaps: [Vec<u8>; MIPLEVELS],
}

/// The `u32` at `p`.
pub open spec fn u32_at(s: Seq<u8>, p: int) -> u32 {
    seq_u32_le(s.skip(p))
}

/// By how much level `m` divides each side of a texture.
pub open spec fn mip_factor(m: int) -> int {
    if m == 0 {
        1
    } else if m == 1 {
        2
    } else if m == 2 {
        4
    } else {
        8
    }
}

/// The number of pixels of level `m` of a texture of `width` by `height`.
pub open spec fn mip_len(width: u32, height: u32, m: int) -> int {
    (width as int / mip_factor(m)) * (height as int / mip_factor(m))
}

/// At most `n` bytes from `o`: reading stops at the end of the data, and nothing is read from
/// past it.
pub open spec fn read_upto(s: Seq<u8>, o: int, n: int) -> Seq<u8> {
    if o >= s.len() {
        Seq::empty()
    } else if o + n <= s.len() {
        s.subrange(o, o + n)
    } else {
        s.subrange(o, s.len() as int)
    }
}

/// The bytes of the name of the texture at `p`: its sixteen name bytes up to the first zero
/// byte among them.
pub open spec fn tex_name_bytes(s: Seq<u8>, p: int) -> Seq<u8> {
    let raw = s.subrange(p, p + 16);
    match find_nul(raw, 0) {
        Some(z) => raw.subrange(0, z),
        None => raw,
    }
}

/// Where level `m` of the texture at `p` starts.
pub open spec fn mip_start(s: Seq<u8>, p: int, m: int) -> int {
    p + u32_at(s, p + 24 + 4 * m)
}

/// The pixels of level `m` of the texture at `p`.
pub open spec fn mip_bytes(s: Seq<u8>, p: int, m: int) -> Seq<u8> {
    read_upto(s, mip_start(s, p, m), mip_len(u32_at(s, p + 16), u32_at(s, p + 20), m))
}

/// Whether `t` is the texture stored at `p`.
pub open spec fn texture_is(s: Seq<u8>, p: int, t: BspFileTexture) -> bool {
    &&& t.name@ == lowercase(decode_utf8(tex_name_bytes(s, p)))
    &&& t.width == u32_at(s, p + 16)
    &&& t.height == u32_at(s, p + 20)
    &&& forall|m: int| 0 <= m < 4 ==> #[trigger] t.mipmaps@[m]@ == mip_bytes(s, p, m)
}

/// Where reading the texture at `p` ends: after the last byte read of its last level.
pub open spec fn texture_end(s: Seq<u8>, p: int) -> int {
    mip_start(s, p, 3) + mip_bytes(s, p, 3).len()
}

/// At most `n` bytes from `o`.
fn read_bytes_upto(buf: &[u8], o: u64, n: u64) -> (r: Vec<u8>)
    ensures
        r@ == read_upto(buf@, o as int, n as int),
{
    if o >= buf.len() as u64 {
        return Vec::new();
    }
    let start = o as usize;
    let end = if ((buf.len() - start) as u64) >= n {
        start + (n as usize)
    } else {
        buf.len()
    };
    vstd::slice::slice_to_vec(vstd::slice::slice_subrange(buf, start, end))
}

/// Reads level `m` of the texture at `p`, whose size is `width` by `height`; also gives where
/// the reading ended.
fn read_mip(buf: &[u8], p: u64, width: u32, height: u32, m: usize) -> (r: (Vec<u8>, u64))
    requires
        m < 4,
        p + 40 <= buf.len(),
        p + 0xffff_ffffu64 <= u64::MAX,
        width == u32_at(buf@, p + 16),
        height == u32_at(buf@, p + 20),
    ensures
        r.0@ == mip_bytes(buf@, p as int, m as int),
        r.1 == mip_start(buf@, p as int, m as int) + r.0@.len(),
{
    let off = u32_le_at(buf, (p as usize) + 24 + 4 * m);
    let o: u64 = p + off as u64;
    let factor: u64 = if m == 0 {
        1
    } else if m == 1 {
        2
    } else if m == 2 {
        4
    } else {
        8
    };
    let a: u64 = width as u64 / factor;
    let b: u64 = height as u64 / factor;
    assert(a * b <= 0xffff_ffffu64 * 0xffff_ffffu64) by (nonlinear_arith)
        requires
            a <= 0xffff_ffffu64,
            b <= 0xffff_ffffu64,
    ;
    let n: u64 = a * b;
    let bytes = read_bytes_upto(buf, o, n);
    proof {
        assert(read_upto(buf@, o as int, n as int).len() <= buf@.len());
    }
    let end = o + bytes.len() as u64;
    (bytes, end)
}

/// Reads the texture at offset `tex_ofs` of the texture section at `tex_section_ofs`, and gives
/// where the reading ended.
///
/// The name is its sixteen bytes up to the first zero byte, which must be UTF-8, in lowercase.
/// Each level of detail is read from where the texture says it starts, as far as the data
/// holds it.
pub fn load_texture(buf: &[u8], tex_section_ofs: u64, tex_ofs: u64) -> (r: Result<(BspFileTexture, u64), BspError>)
    requires
        tex_section_ofs + tex_ofs + 0xffff_ffffu64 <= u64::MAX,
    ensures
        ({
            let p = tex_section_ofs + tex_ofs;
            if p + 16 > buf@.len() {
                r matches Err(BspError::Io)
            } else if !valid_utf8(tex_name_bytes(buf@, p)) {
                r matches Err(BspError::Other(_))
            } else if p + 40 > buf@.len() {
                r matches Err(BspError::Io)
            } else {
                r matches Ok((t, end)) && texture_is(buf@, p, t) && end == texture_end(buf@, p)
            }
        }),
{
    let p: u64 = tex_section_ofs + tex_ofs;
    if p > buf.len() as u64 || buf.len() - (p as usize) < 16 {
        return Err(BspError::Io);
    }
    let start = p as usize;
    let raw = vstd::slice::slice_subrange(buf, start, start + 16);
    proof {
        lemma_find_nul(raw@, 0);
    }
    let len = match find_nul_from(raw, 0) {
        Some(z) => z,
        None => 16,
    };
    let name_bytes = vstd::slice::slice_to_vec(vstd::slice::slice_subrange(raw, 0, len));
    proof {
        if find_nul(raw@, 0) is None {
            assert(raw@.subrange(0, 16) =~= raw@);
        }
        assert(name_bytes@ == tex_name_bytes(buf@, p as int));
    }
    let name = match string_from_utf8(name_bytes) {
        Ok(t) => t,
        Err(_) => {
            return Err(BspError::with_msg("invalid utf-8 in texture name"));
        },
    };
    let name = to_lowercase(name.as_str());
    if buf.len() - start < 40 {
        return Err(BspError::Io);
    }
    let width = u32_le_at(buf, start + 16);
    let height = u32_le_at(buf, start + 20);
    let (m0, _e0) = read_mip(buf, p, width, height, 0);
    let (m1, _e1) = read_mip(buf, p, width, height, 1);
    let (m2, _e2) = read_mip(buf, p, width, height, 2);
    let (m3, end) = read_mip(buf, p, width, height, 3);
    let t = BspFileTexture { name, width, height, mipmaps: [m0, m1, m2, m3] };
    proof {
        assert(t.mipmaps@[0]@ == mip_bytes(buf@, p as int, 0));
        assert(t.mipmaps@[1]@ == mip_bytes(buf@, p as int, 1));
        assert(t.mipmaps@[2]@ == mip_bytes(buf@, p as int, 2));
        assert(t.mipmaps@[3]@ == mip_bytes(buf@, p as int, 3));
    }
    Ok((t, end))
}

/// The number of textures that the texture section at `sec` says it holds.
pub open spec fn tex_count_at(s: Seq<u8>, sec: int) -> i32 {
    seq_u32_le(s.skip(sec)) as i32
}

/// The offset of texture `i` within the texture section at `sec`; `-1` stands for no texture.
pub open spec fn tex_offset_at(s: Seq<u8>, sec: int, i: int) -> i32 {
    seq_u32_le(s.skip(sec + 4 + 4 * i)) as i32
}

/// Whether the texture section at `sec` holds a valid count.
pub open spec fn tex_count_ok(s: Seq<u8>, sec: int) -> bool {
    sec + 4 <= s.len() && 0 <= tex_count_at(s, sec) <= MAX_TEXTURES
}

/// Whether the offset of texture `i` lies within the data.
pub open spec fn tex_offset_fits(s: Seq<u8>, sec: int, i: int) -> bool {
    sec + 8 + 4 * i <= s.len()
}

/// Whether the offset of texture `i` can be read and is valid.
pub open spec fn tex_offset_ok(s: Seq<u8>, sec: int, i: int) -> bool {
    tex_offset_fits(s, sec, i) && tex_offset_at(s, sec, i) >= -1
}

/// Whether the texture at offset `ofs` of the section at `sec` can be read.
pub open spec fn texture_loads(s: Seq<u8>, sec: int, ofs: int) -> bool {
    let p = sec + ofs;
    p + 40 <= s.len() && valid_utf8(tex_name_bytes(s, p))
}

/// The error that reading the texture at offset `ofs` of the section at `sec` ends with.
pub open spec fn texture_error(s: Seq<u8>, sec: int, ofs: int, e: BspError) -> bool {
    let p = sec + ofs;
    if p + 16 > s.len() {
        e is Io
    } else if !valid_utf8(tex_name_bytes(s, p)) {
        e is Other
    } else {
        e is Io
    }
}

/// Whether texture `i` of the section at `sec` is read without error, where there is one.
pub open spec fn tex_entry_loads(s: Seq<u8>, sec: int, i: int) -> bool {
    tex_offset_at(s, sec, i) >= 0 ==> texture_loads(s, sec, tex_offset_at(s, sec, i) as int)
}

/// Where reading stands once the first `i` textures of the section at `sec`, which holds `n`,
/// are read: after the last one that is there, or after the offsets where there is none.
pub open spec fn tex_read_end(s: Seq<u8>, sec: int, n: int, i: int) -> int
    decreases i,
{
    if i <= 0 {
        sec + 4 + 4 * n
    } else if tex_offset_at(s, sec, i - 1) >= 0 {
        texture_end(s, sec + tex_offset_at(s, sec, i - 1))
    } else {
        tex_read_end(s, sec, n, i - 1)
    }
}

/// Whether `t` is the texture that stands for a missing one: no name, no size, no pixels.
pub open spec fn texture_is_empty(t: BspFileTexture) -> bool {
    &&& t.name@ == Seq::<char>::empty()
    &&& t.width == 0
    &&& t.height == 0
    &&& forall|m: int| 0 <= m < 4 ==> #[trigger] t.mipmaps@[m]@ == Seq::<u8>::empty()
}

/// Whether `t` is texture `i` of the section at `sec`.
pub open spec fn tex_entry_is(s: Seq<u8>, sec: int, i: int, t: BspFileTexture) -> bool {
    if tex_offset_at(s, sec, i) >= 0 {
        texture_is(s, sec + tex_offset_at(s, sec, i), t)
    } else {
        texture_is_empty(t)
    }
}

/// A texture that stands for a missing one.
fn empty_texture() -> (t: BspFileTexture)
    ensures
        texture_is_empty(t),
{
    let t = BspFileTexture {
        name: String::new(),
        width: 0,
        height: 0,
        mipmaps: [Vec::new(), Vec::new(), Vec::new(), Vec::new()],
    };
    assert(t.mipmaps@[0]@ == Seq::<u8>::empty());
    assert(t.mipmaps@[1]@ == Seq::<u8>::empty());
    assert(t.mipmaps@[2]@ == Seq::<u8>::empty());
    assert(t.mipmaps@[3]@ == Seq::<u8>::empty());
    t
}

/// Reads the offsets of the textures of the section at `sec`, after their count `n`; `None`
/// stands for a missing texture. The first offset that is cut short or below `-1` decides the
/// error.
fn load_tex_offsets(buf: &[u8], sec: u64, n: usize) -> (r: Result<Vec<Option<u64>>, BspError>)
    requires
        sec + 4 <= buf.len(),
        n <= MAX_TEXTURES,
    ensures
        r is Ok <==> forall|i: int| 0 <= i < n ==> #[trigger] tex_offset_ok(buf@, sec as int, i),
        r matches Ok(v) ==> v@.len() == n && forall|i: int| 0 <= i < n ==> (match #[trigger] v@[i] {
            Some(o) => o == tex_offset_at(buf@, sec as int, i) && tex_offset_at(buf@, sec as int, i) >= 0,
            None => tex_offset_at(buf@, sec as int, i) == -1,
        }),
        r matches Err(e) ==> exists|i: int| 0 <= i < n && (forall|j: int| 0 <= j < i ==> #[trigger] tex_offset_ok(buf@, sec as int, j)) && !#[trigger] tex_offset_ok(buf@, sec as int, i) && (if tex_offset_fits(buf@, sec as int, i) { e is Other } else { e is Io }),
{
    let mut v: Vec<Option<u64>> = Vec::new();
    let mut i: usize = 0;
    while i < n
        invariant
            sec + 4 <= buf.len(),
            n <= MAX_TEXTURES,
            i <= n,
            v@.len() == i,
            forall|k: int| 0 <= k < i ==> #[trigger] tex_offset_ok(buf@, sec as int, k),
            forall|k: int| 0 <= k < i ==> (match #[trigger] v@[k] {
                Some(o) => o == tex_offset_at(buf@, sec as int, k) && tex_offset_at(buf@, sec as int, k) >= 0,
                None => tex_offset_at(buf@, sec as int, k) == -1,
            }),
        decreases n - i,
    {
        let q: usize = 4 * i;
        if buf.len() - (sec as usize) - 4 < q + 4 {
            assert(!tex_offset_fits(buf@, sec as int, i as int));
            assert(!tex_offset_ok(buf@, sec as int, i as int));
            return Err(BspError::Io);
        }
        let p: usize = (sec as usize) + 4 + q;
        let o = i32_le_at(buf, p);
        if o < -1 {
            assert(!tex_offset_ok(buf@, sec as int, i as int));
            return Err(BspError::with_msg("negative texture offset"));
        }
        let ghost before = v@;
        if o == -1 {
            v.push(None);
        } else {
            v.push(Some(o as u64));
        }
        assert(forall|k: int| 0 <= k < i ==> v@[k] == before[k]);
        i = i + 1;
    }
    Ok(v)
}

/// Reads the textures of the texture section at `sec`, `size` bytes long: their count, which
/// may not exceed `MAX_TEXTURES`, their offsets, and each texture in turn; a texture whose
/// offset is `-1` is missing and stands empty. The first failure decides the error; once all
/// are read, reading must have ended at the end of the section.
pub fn load_textures(buf: &[u8], sec: u64, size: usize) -> (r: Result<Vec<BspFileTexture>, BspError>)
    requires
        sec <= 0x7fff_ffff,
    ensures
        ({
            let s = buf@;
            let n = tex_count_at(s, sec as int) as int;
            &&& r is Ok <==> {
                &&& tex_count_ok(s, sec as int)
                &&& forall|i: int| 0 <= i < n ==> #[trigger] tex_offset_ok(s, sec as int, i)
                &&& forall|i: int| 0 <= i < n ==> #[trigger] tex_entry_loads(s, sec as int, i)
                &&& tex_read_end(s, sec as int, n, n) == sec + size
            }
            &&& r matches Ok(v) ==> v@.len() == n && forall|i: int| 0 <= i < n ==> #[trigger] tex_entry_is(s, sec as int, i, v@[i])
            &&& r matches Err(e) ==> {
                if sec + 4 > s.len() {
                    e is Io
                } else if !tex_count_ok(s, sec as int) {
                    e is Other
                } else if exists|i: int| 0 <= i < n && !#[trigger] tex_offset_ok(s, sec as int, i) {
                    exists|i: int| 0 <= i < n && (forall|j: int| 0 <= j < i ==> #[trigger] tex_offset_ok(s, sec as int, j)) && !#[trigger] tex_offset_ok(s, sec as int, i) && (if tex_offset_fits(s, sec as int, i) { e is Other } else { e is Io })
                } else if exists|i: int| 0 <= i < n && !#[trigger] tex_entry_loads(s, sec as int, i) {
                    exists|i: int| 0 <= i < n && (forall|j: int| 0 <= j < i ==> #[trigger] tex_entry_loads(s, sec as int, j)) && !#[trigger] tex_entry_loads(s, sec as int, i) && texture_error(s, sec as int, tex_offset_at(s, sec as int, i) as int, e)
                } else {
                    e is Other
                }
            }
        }),
{
    if buf.len() < 4 || sec > (buf.len() - 4) as u64 {
        return Err(BspError::Io);
    }
    let count = i32_le_at(buf, sec as usize);
    if count < 0 || count as usize > MAX_TEXTURES {
        return Err(BspError::with_msg("Invalid texture count"));
    }
    let n = count as usize;
    let offsets = match load_tex_offsets(buf, sec, n) {
        Ok(v) => v,
        Err(e) => {
            return Err(e);
        },
    };
    let mut textures: Vec<BspFileTexture> = Vec::new();
    let mut pos: u64 = sec + 4 + 4 * (n as u64);
    let mut i: usize = 0;
    while i < n
        invariant
            sec <= 0x7fff_ffff,
            n == tex_count_at(buf@, sec as int),
            n <= MAX_TEXTURES,
            offsets@.len() == n,
            forall|k: int| 0 <= k < n ==> #[trigger] tex_offset_ok(buf@, sec as int, k),
            forall|k: int| 0 <= k < n ==> (match #[trigger] offsets@[k] {
                Some(o) => o == tex_offset_at(buf@, sec as int, k) && tex_offset_at(buf@, sec as int, k) >= 0,
                None => tex_offset_at(buf@, sec as int, k) == -1,
            }),
            i <= n,
            textures@.len() == i,
            pos == tex_read_end(buf@, sec as int, n as int, i as int),
            forall|k: int| 0 <= k < i ==> #[trigger] tex_entry_loads(buf@, sec as int, k),
            forall|k: int| 0 <= k < i ==> #[trigger] tex_entry_is(buf@, sec as int, k, textures@[k]),
        decreases n - i,
    {
        let ghost before = textures@;
        match offsets[i] {
            Some(o) => {
                assert(o <= 0x7fff_ffff);
                let (t, end) = match load_texture(buf, sec, o) {
                    Ok(x) => x,
                    Err(e) => {
                        assert(!tex_entry_loads(buf@, sec as int, i as int));
                        return Err(e);
                    },
                };
                textures.push(t);
                pos = end;
            },
            None => {
                textures.push(empty_texture());
            },
        }
        assert(forall|k: int| 0 <= k < i ==> textures@[k] == before[k]);
        i = i + 1;
    }
    if pos < sec || pos - sec != size as u64 {
        return Err(BspError::with_msg("BSP read misaligned"));
    }
    Ok(textures)
}

/// A frame of a texture: the pixels of each level of detail.
pub struct BspTextureFrame {
    pub mipmaps: [Vec<u8>; MIPLEVELS],
}

/// Whether a texture stands still or is animated.
pub enum BspTextureKind {
    Static(BspTextureFrame),
    Animated { primary: Vec<BspTextureFrame>, alternate: Option<Vec<BspTextureFrame>> },
}

/// A texture of a map, its animated frames put together.
pub struct BspTexture {
    pub name: String,
    pub width: u32,
    pub height: u32,
    pub kind: BspTextureKind,
}

impl BspTexture {
    /// The name of the texture.
    pub fn name(&self) -> (r: &str)
        ensures
            r@ == self.name@,
    {
        self.name.as_str()
    }

    /// The width and height of the texture.
    pub fn dimensions(&self) -> (r: (u32, u32))
        ensures
            r == (self.width, self.height),
    {
        (self.width, self.height)
    }

    /// Whether the texture stands still or is animated, with its frames.
    pub fn kind(&self) -> (r: &BspTextureKind)
        ensures
            r == &self.kind,
    {
        &self.kind
    }
}

/// Whether a texture name names a frame of an animated texture.
pub open spec fn is_frame_name(n: Seq<char>) -> bool {
    n.len() > 0 && n[0] == '+'
}

/// Whether splitting a frame name into its frame and its stem fails: there is no frame
/// character, or it takes more than one byte.
pub open spec fn frame_split_panics(n: Seq<char>) -> bool {
    is_frame_name(n) && (n.len() < 2 || n[1] as u32 >= 0x80)
}

/// The name of the animated texture that a frame name belongs to.
pub open spec fn stem(n: Seq<char>) -> Seq<char> {
    n.subrange(2, n.len() as int)
}

/// Whether `c` names a frame of a primary animation.
pub open spec fn is_primary_frame(c: char) -> bool {
    '0' <= c <= '9'
}

/// Whether `c` names a frame of an alternate animation.
pub open spec fn is_alternate_frame(c: char) -> bool {
    'a' <= c <= 'j'
}

/// Whether a frame name's frame character is neither a digit nor a letter from `a` to `j`.
pub open spec fn has_invalid_frame(n: Seq<char>) -> bool {
    is_frame_name(n) && !frame_split_panics(n) && !is_primary_frame(n[1]) && !is_alternate_frame(n[1])
}

/// The stems of the first `k` textures that are frames, each once, in the order in which they
/// first appear.
pub open spec fn stems_upto(f: Seq<BspFileTexture>, k: int) -> Seq<Seq<char>>
    decreases k,
{
    if k <= 0 {
        Seq::empty()
    } else {
        let prev = stems_upto(f, k - 1);
        let n = f[k - 1].name@;
        if is_frame_name(n) && !prev.contains(stem(n)) {
            prev.push(stem(n))
        } else {
            prev
        }
    }
}

/// The animated textures, by stem.
pub open spec fn stems(f: Seq<BspFileTexture>) -> Seq<Seq<char>> {
    stems_upto(f, f.len() as int)
}

/// The number of textures among the first `k` that stand still.
pub open spec fn static_count_upto(f: Seq<BspFileTexture>, k: int) -> int
    decreases k,
{
    if k <= 0 {
        0
    } else {
        static_count_upto(f, k - 1) + if is_frame_name(f[k - 1].name@) { 0int } else { 1int }
    }
}

/// The number of textures that stand still.
pub open spec fn static_count(f: Seq<BspFileTexture>) -> int {
    static_count_upto(f, f.len() as int)
}

/// The textures among the first `k` that are frame `c` of the animated texture `s`, in order.
pub open spec fn frame_ids_with(f: Seq<BspFileTexture>, s: Seq<char>, c: u32, k: int) -> Seq<usize>
    decreases k,
{
    if k <= 0 {
        Seq::empty()
    } else {
        let prev = frame_ids_with(f, s, c, k - 1);
        let n = f[k - 1].name@;
        if is_frame_name(n) && n.len() >= 2 && n[1] as u32 == c && stem(n) == s {
            prev.push((k - 1) as usize)
        } else {
            prev
        }
    }
}

/// The frames of the animated texture `s` whose characters lie from `lo` to below `hi`:
/// ordered by their character, and those with the same character in file order.
pub open spec fn frame_ids_below(f: Seq<BspFileTexture>, s: Seq<char>, lo: u32, hi: u32) -> Seq<usize>
    decreases hi - lo,
{
    if hi <= lo {
        Seq::empty()
    } else {
        frame_ids_below(f, s, lo, (hi - 1) as u32) + frame_ids_with(f, s, (hi - 1) as u32, f.len() as int)
    }
}

/// The frames of the primary animation of `s`, `0` to `9`, in order.
pub open spec fn primary_ids(f: Seq<BspFileTexture>, s: Seq<char>) -> Seq<usize> {
    frame_ids_below(f, s, 0x30, 0x3a)
}

/// The frames of the alternate animation of `s`, `a` to `j`, in order.
pub open spec fn alternate_ids(f: Seq<BspFileTexture>, s: Seq<char>) -> Seq<usize> {
    frame_ids_below(f, s, 0x61, 0x6b)
}

/// Whether two frames hold the same pixels.
pub open spec fn same_pixels(a: [Vec<u8>; MIPLEVELS], b: [Vec<u8>; MIPLEVELS]) -> bool {
    forall|m: int| 0 <= m < 4 ==> #[trigger] a@[m]@ == b@[m]@
}

/// Whether `frames` are the frames of the textures `ids`, in order.
pub open spec fn frames_are(frames: Seq<BspTextureFrame>, f: Seq<BspFileTexture>, ids: Seq<usize>) -> bool {
    &&& frames.len() == ids.len()
    &&& forall|k: int| 0 <= k < ids.len() ==> same_pixels(#[trigger] frames[k].mipmaps, f[ids[k] as int].mipmaps)
}

/// Whether `t` is the texture that the still texture `file` becomes.
pub open spec fn static_texture_is(t: BspTexture, file: BspFileTexture) -> bool {
    &&& t.name@ == file.name@
    &&& t.width == file.width
    &&& t.height == file.height
    &&& t.kind matches BspTextureKind::Static(frame) && same_pixels(frame.mipmaps, file.mipmaps)
}

/// Whether `t` is the animated texture `s` that the frames in `f` make: its size is that of its
/// first primary frame.
pub open spec fn animated_texture_is(t: BspTexture, f: Seq<BspFileTexture>, s: Seq<char>) -> bool {
    let pri = primary_ids(f, s);
    let alt = alternate_ids(f, s);
    &&& t.name@ == s
    &&& t.width == f[pri[0] as int].width
    &&& t.height == f[pri[0] as int].height
    &&& t.kind matches BspTextureKind::Animated { primary, alternate } && {
        &&& frames_are(primary@, f, pri)
        &&& if alt.len() == 0 {
            alternate is None
        } else {
            alternate matches Some(a) && frames_are(a@, f, alt)
        }
    }
}

/// The characters of each list, in order.
pub open spec fn char_views(v: Seq<Vec<char>>) -> Seq<Seq<char>> {
    v.map_values(|x: Vec<char>| x@)
}

/// Whether two lists of characters are equal.
fn chars_eq(a: &[char], b: &[char]) -> (r: bool)
    ensures
        r == (a@ == b@),
{
    if a.len() != b.len() {
        return false;
    }
    let mut i: usize = 0;
    while i < a.len()
        invariant
            a@.len() == b@.len(),
            i <= a.len(),
            forall|k: int| 0 <= k < i ==> a@[k] == b@[k],
        decreases a.len() - i,
    {
        if a[i] != b[i] {
            return false;
        }
        i = i + 1;
    }
    assert(a@ =~= b@);
    true
}

/// The names of the textures, as characters.
fn texture_names(files: &Vec<BspFileTexture>) -> (r: Vec<Vec<char>>)
    ensures
        r@.len() == files@.len(),
        forall|k: int| 0 <= k < files@.len() ==> #[trigger] r@[k]@ == files@[k].name@,
{
    let mut r: Vec<Vec<char>> = Vec::new();
    let mut i: usize = 0;
    while i < files.len()
        invariant
            i <= files@.len(),
            r@.len() == i,
            forall|k: int| 0 <= k < i ==> #[trigger] r@[k]@ == files@[k].name@,
        decreases files@.len() - i,
    {
        r.push(crate::util::chars_of(files[i].name.as_str()));
        i = i + 1;
    }
    r
}

/// Where `s` stands among `stems`, if it is there.
fn find_stem(stems: &Vec<Vec<char>>, s: &[char]) -> (r: Option<usize>)
    ensures
        match r {
            Some(j) => j < stems@.len() && stems@[j as int]@ == s@,
            None => !char_views(stems@).contains(s@),
        },
{
    let mut j: usize = 0;
    while j < stems.len()
        invariant
            j <= stems@.len(),
            forall|k: int| 0 <= k < j ==> #[trigger] stems@[k]@ != s@,
        decreases stems@.len() - j,
    {
        if chars_eq(stems[j].as_slice(), s) {
            return Some(j);
        }
        j = j + 1;
    }
    assert forall|k: int| 0 <= k < char_views(stems@).len() implies char_views(stems@)[k] != s@ by {
        assert(stems@[k]@ != s@);
    }
    None
}

/// The stem of a frame name.
fn stem_of(n: &Vec<char>) -> (r: Vec<char>)
    requires
        n@.len() >= 2,
    ensures
        r@ == stem(n@),
{
    vstd::slice::slice_to_vec(vstd::slice::slice_subrange(n.as_slice(), 2, n.len()))
}

/// The animated textures that the frames among `files` make, by stem, in the order in which
/// they first appear; the first frame name whose frame character is invalid decides the error.
fn collect_stems(files: &Vec<BspFileTexture>, names: &Vec<Vec<char>>) -> (r: Result<Vec<Vec<char>>, BspFileError>)
    requires
        names@.len() == files@.len(),
        forall|k: int| 0 <= k < files@.len() ==> #[trigger] names@[k]@ == files@[k].name@,
        forall|k: int| 0 <= k < files@.len() ==> !frame_split_panics(#[trigger] files@[k].name@),
    ensures
        r is Ok <==> forall|k: int| 0 <= k < files@.len() ==> !has_invalid_frame(#[trigger] files@[k].name@),
        r matches Ok(v) ==> char_views(v@) == stems(files@),
        r matches Err(e) ==> exists|i: int| 0 <= i < files@.len() && (forall|k: int| 0 <= k < i ==> !has_invalid_frame(#[trigger] files@[k].name@)) && has_invalid_frame(#[trigger] files@[i].name@) && (e matches BspFileError::InvalidTextureFrameSpecifier(m) && m@ == files@[i].name@),
{
    let mut v: Vec<Vec<char>> = Vec::new();
    let mut i: usize = 0;
    while i < names.len()
        invariant
            names@.len() == files@.len(),
            forall|k: int| 0 <= k < files@.len() ==> #[trigger] names@[k]@ == files@[k].name@,
            forall|k: int| 0 <= k < files@.len() ==> !frame_split_panics(#[trigger] files@[k].name@),
            i <= names@.len(),
            forall|k: int| 0 <= k < i ==> !has_invalid_frame(#[trigger] files@[k].name@),
            char_views(v@) == stems_upto(files@, i as int),
        decreases names@.len() - i,
    {
        let n = &names[i];
        assert(n@ == files@[i as int].name@);
        if n.len() > 0 && n[0] == '+' {
            let c = n[1];
            if !((c >= '0' && c <= '9') || (c >= 'a' && c <= 'j')) {
                assert(has_invalid_frame(files@[i as int].name@));
                let m = crate::util::string_from_chars(n.as_slice());
                return Err(BspFileError::InvalidTextureFrameSpecifier(m));
            }
            let st = stem_of(n);
            match find_stem(&v, st.as_slice()) {
                Some(j) => {
                    assert(char_views(v@)[j as int] == stem(n@));
                    assert(char_views(v@).contains(stem(n@)));
                },
                None => {
                    let ghost before = v@;
                    v.push(st);
                    assert(char_views(v@) =~= char_views(before).push(stem(n@)));
                },
            }
        }
        assert(stems_upto(files@, i + 1) == {
            let prev = stems_upto(files@, i as int);
            let nn = files@[i as int].name@;
            if is_frame_name(nn) && !prev.contains(stem(nn)) { prev.push(stem(nn)) } else { prev }
        });
        i = i + 1;
    }
    assert(names@.len() == files@.len());
    Ok(v)
}

/// The frames of the animated texture `s` whose characters lie from `lo` to below `hi`,
/// ordered by their character, and those with the same character in file order.
fn frame_ids(files: &Vec<BspFileTexture>, names: &Vec<Vec<char>>, s: &[char], lo: u32, hi: u32) -> (r: Vec<usize>)
    requires
        names@.len() == files@.len(),
        forall|k: int| 0 <= k < files@.len() ==> #[trigger] names@[k]@ == files@[k].name@,
        lo <= hi,
    ensures
        r@ == frame_ids_below(files@, s@, lo, hi),
{
    let mut r: Vec<usize> = Vec::new();
    let mut c: u32 = lo;
    while c < hi
        invariant
            names@.len() == files@.len(),
            forall|k: int| 0 <= k < files@.len() ==> #[trigger] names@[k]@ == files@[k].name@,
            lo <= c <= hi,
            r@ == frame_ids_below(files@, s@, lo, c),
        decreases hi - c,
    {
        let ghost base = r@;
        let mut i: usize = 0;
        while i < names.len()
            invariant
                names@.len() == files@.len(),
                forall|k: int| 0 <= k < files@.len() ==> #[trigger] names@[k]@ == files@[k].name@,
                i <= names@.len(),
                r@ == base + frame_ids_with(files@, s@, c, i as int),
            decreases names@.len() - i,
        {
            let n = &names[i];
            assert(n@ == files@[i as int].name@);
            if n.len() >= 2 && n[0] == '+' && (n[1] as u32) == c && chars_eq(
                vstd::slice::slice_subrange(n.as_slice(), 2, n.len()),
                s,
            ) {
                r.push(i);
                assert(r@ =~= base + frame_ids_with(files@, s@, c, i + 1));
            }
            i = i + 1;
        }
        assert(frame_ids_below(files@, s@, lo, (c + 1) as u32) == frame_ids_below(files@, s@, lo, c)
            + frame_ids_with(files@, s@, c, files@.len() as int));
        c = c + 1;
    }
    r
}

/// Counting still textures never goes down, and passes each one.
proof fn lemma_static_count_grows(f: Seq<BspFileTexture>, i: int, k: int)
    requires
        0 <= i <= k,
    ensures
        0 <= static_count_upto(f, i) <= static_count_upto(f, k) <= k,
        i < k && !is_frame_name(f[i].name@) ==> static_count_upto(f, i) < static_count_upto(f, k),
    decreases k,
{
    if k > 0 {
        if i < k {
            lemma_static_count_grows(f, i, k - 1);
            if i < k - 1 {
                lemma_static_count_grows(f, i + 1, k - 1);
            }
        } else {
            lemma_static_count_grows(f, i - 1, k - 1);
        }
    }
}

/// The stem of each frame among the first `k` textures is among their stems.
proof fn lemma_stem_listed(f: Seq<BspFileTexture>, i: int, k: int)
    requires
        0 <= i < k,
        is_frame_name(f[i].name@),
    ensures
        stems_upto(f, k).contains(stem(f[i].name@)),
    decreases k,
{
    if i < k - 1 {
        lemma_stem_listed(f, i, k - 1);
        let prev = stems_upto(f, k - 1);
        let x = choose|j: int| 0 <= j < prev.len() && prev[j] == stem(f[i].name@);
        let n = f[k - 1].name@;
        if is_frame_name(n) && !prev.contains(stem(n)) {
            assert(prev.push(stem(n))[x] == stem(f[i].name@));
        }
    } else {
        let prev = stems_upto(f, k - 1);
        let n = f[k - 1].name@;
        if !prev.contains(stem(n)) {
            assert(prev.push(stem(n))[prev.len() as int] == stem(n));
        }
    }
}

/// The frames of a texture are textures that there are.
proof fn lemma_frame_ids_with_bound(f: Seq<BspFileTexture>, s: Seq<char>, c: u32, k: int)
    requires
        k <= usize::MAX,
    ensures
        forall|x: int| 0 <= x < frame_ids_with(f, s, c, k).len() ==> #[trigger] frame_ids_with(f, s, c, k)[x] < k,
    decreases k,
{
    if k > 0 {
        lemma_frame_ids_with_bound(f, s, c, k - 1);
        let prev = frame_ids_with(f, s, c, k - 1);
        let n = f[k - 1].name@;
        if is_frame_name(n) && n.len() >= 2 && n[1] as u32 == c && stem(n) == s {
            assert(((k - 1) as usize) as int == k - 1);
            assert forall|x: int| 0 <= x < prev.push((k - 1) as usize).len() implies #[trigger] prev.push((k - 1) as usize)[x] < k by {
                if x < prev.len() {
                    assert(prev.push((k - 1) as usize)[x] == prev[x]);
                }
            }
        }
    }
}

/// The frames of a texture are textures that there are.
proof fn lemma_frame_ids_below_bound(f: Seq<BspFileTexture>, s: Seq<char>, lo: u32, hi: u32)
    requires
        f.len() <= usize::MAX,
    ensures
        forall|x: int| 0 <= x < frame_ids_below(f, s, lo, hi).len() ==> #[trigger] frame_ids_below(f, s, lo, hi)[x] < f.len(),
    decreases hi - lo,
{
    if hi > lo {
        lemma_frame_ids_below_bound(f, s, lo, (hi - 1) as u32);
        lemma_frame_ids_with_bound(f, s, (hi - 1) as u32, f.len() as int);
        let a = frame_ids_below(f, s, lo, (hi - 1) as u32);
        let b = frame_ids_with(f, s, (hi - 1) as u32, f.len() as int);
        assert forall|x: int| 0 <= x < (a + b).len() implies #[trigger] (a + b)[x] < f.len() by {
            if x < a.len() {
                assert((a + b)[x] == a[x]);
            } else {
                assert((a + b)[x] == b[x - a.len()]);
            }
        }
    }
}

/// A copy of the pixels of a frame.
fn copy_mipmaps(m: &[Vec<u8>; MIPLEVELS]) -> (r: [Vec<u8>; MIPLEVELS])
    ensures
        same_pixels(r, *m),
{
    let r = [
        vstd::slice::slice_to_vec(m[0].as_slice()),
        vstd::slice::slice_to_vec(m[1].as_slice()),
        vstd::slice::slice_to_vec(m[2].as_slice()),
        vstd::slice::slice_to_vec(m[3].as_slice()),
    ];
    assert(r@[0]@ == m@[0]@);
    assert(r@[1]@ == m@[1]@);
    assert(r@[2]@ == m@[2]@);
    assert(r@[3]@ == m@[3]@);
    r
}

/// The frames of the textures `ids`, in order.
fn frames_of(files: &Vec<BspFileTexture>, ids: &Vec<usize>) -> (r: Vec<BspTextureFrame>)
    requires
        forall|k: int| 0 <= k < ids@.len() ==> #[trigger] ids@[k] < files@.len(),
    ensures
        frames_are(r@, files@, ids@),
{
    let mut r: Vec<BspTextureFrame> = Vec::new();
    let mut k: usize = 0;
    while k < ids.len()
        invariant
            forall|x: int| 0 <= x < ids@.len() ==> #[trigger] ids@[x] < files@.len(),
            k <= ids@.len(),
            r@.len() == k,
            forall|x: int| 0 <= x < k ==> same_pixels(#[trigger] r@[x].mipmaps, files@[ids@[x] as int].mipmaps),
        decreases ids@.len() - k,
    {
        let id = ids[k];
        let ghost before = r@;
        r.push(BspTextureFrame { mipmaps: copy_mipmaps(&files[id].mipmaps) });
        assert(forall|x: int| 0 <= x < k ==> r@[x] == before[x]);
        k = k + 1;
    }
    r
}

/// Whether every animated texture among `f` has a primary frame.
pub open spec fn primaries_present(f: Seq<BspFileTexture>) -> bool {
    forall|j: int| 0 <= j < stems(f).len() ==> #[trigger] primary_ids(f, stems(f)[j]).len() > 0
}

/// Puts the textures of a map file together: each texture that stands still keeps its place
/// among those that do, and after them come the animated textures, one for each stem in the
/// order in which it first appears, its primary frames `0` to `9` and its alternate frames `a`
/// to `j` in the order of their characters. Also gives, for each texture of the file, the
/// texture that it became.
///
/// The first frame name whose frame character is invalid, then the first animated texture
/// without a primary frame, decides the error.
pub fn sequence_textures(files: &Vec<BspFileTexture>) -> (r: Result<(Vec<BspTexture>, Vec<usize>), BspFileError>)
    requires
        forall|k: int| 0 <= k < files@.len() ==> !frame_split_panics(#[trigger] files@[k].name@),
    ensures
        ({
            let f = files@;
            let sc = static_count(f);
            let st = stems(f);
            &&& r is Ok <==> (forall|k: int| 0 <= k < f.len() ==> !has_invalid_frame(#[trigger] f[k].name@)) && primaries_present(f)
            &&& r matches Ok((t, ids)) ==> {
                &&& t@.len() == sc + st.len()
                &&& ids@.len() == f.len()
                &&& forall|i: int| 0 <= i < f.len() && !is_frame_name(#[trigger] f[i].name@) ==> ids@[i] == static_count_upto(f, i) && static_texture_is(t@[ids@[i] as int], f[i])
                &&& forall|i: int| 0 <= i < f.len() && is_frame_name(#[trigger] f[i].name@) ==> sc <= ids@[i] < t@.len() && st[ids@[i] - sc] == stem(f[i].name@)
                &&& forall|j: int| 0 <= j < st.len() ==> animated_texture_is(#[trigger] t@[sc + j], f, st[j])
            }
            &&& r matches Err(e) ==> if exists|k: int| 0 <= k < f.len() && has_invalid_frame(#[trigger] f[k].name@) {
                exists|i: int| 0 <= i < f.len() && (forall|k: int| 0 <= k < i ==> !has_invalid_frame(#[trigger] f[k].name@)) && has_invalid_frame(#[trigger] f[i].name@) && (e matches BspFileError::InvalidTextureFrameSpecifier(m) && m@ == f[i].name@)
            } else {
                exists|j: int| 0 <= j < st.len() && (forall|k: int| 0 <= k < j ==> #[trigger] primary_ids(f, st[k]).len() > 0) && primary_ids(f, #[trigger] st[j]).len() == 0 && (e matches BspFileError::EmptyPrimaryAnimation(m) && m@ == st[j])
            }
        }),
{
    let ghost f = files@;
    let names = texture_names(files);
    let stems_v = match collect_stems(files, &names) {
        Ok(v) => v,
        Err(e) => {
            return Err(e);
        },
    };
    let ghost st = stems(f);
    let total = files.len();
    let mut textures: Vec<BspTexture> = Vec::new();
    let mut i: usize = 0;
    while i < files.len()
        invariant
            f == files@,
            names@.len() == f.len(),
            forall|k: int| 0 <= k < f.len() ==> #[trigger] names@[k]@ == f[k].name@,
            i <= f.len(),
            textures@.len() == static_count_upto(f, i as int),
            forall|k: int| 0 <= k < i && !is_frame_name(#[trigger] f[k].name@) ==> static_texture_is(textures@[static_count_upto(f, k)], f[k]),
        decreases f.len() - i,
    {
        let n = &names[i];
        assert(n@ == f[i as int].name@);
        let ghost before = textures@;
        if !(n.len() > 0 && n[0] == '+') {
            let t = BspTexture {
                name: crate::util::string_from_chars(n.as_slice()),
                width: files[i].width,
                height: files[i].height,
                kind: BspTextureKind::Static(BspTextureFrame { mipmaps: copy_mipmaps(&files[i].mipmaps) }),
            };
            textures.push(t);
            assert(forall|x: int| 0 <= x < before.len() ==> textures@[x] == before[x]);
        }
        assert(forall|x: int| 0 <= x < before.len() ==> textures@[x] == before[x]);
        assert forall|k: int| 0 <= k < i + 1 && !is_frame_name(#[trigger] f[k].name@) implies static_texture_is(textures@[static_count_upto(f, k)], f[k]) by {
            if k < i {
                lemma_static_count_grows(f, k, i as int);
                assert(static_count_upto(f, k) < before.len());
                assert(textures@.len() >= before.len());
                assert(textures@[static_count_upto(f, k)] == before[static_count_upto(f, k)]);
            }
        }
        i = i + 1;
    }
    let sc = textures.len();
    let mut j: usize = 0;
    while j < stems_v.len()
        invariant
            f == files@,
            names@.len() == f.len(),
            forall|k: int| 0 <= k < f.len() ==> #[trigger] names@[k]@ == f[k].name@,
            st == stems(f),
            char_views(stems_v@) == st,
            sc == static_count(f),
            f.len() == total,
            forall|k: int| 0 <= k < f.len() ==> !has_invalid_frame(#[trigger] f[k].name@),
            j <= stems_v@.len(),
            textures@.len() == sc + j,
            forall|k: int| 0 <= k < f.len() && !is_frame_name(#[trigger] f[k].name@) ==> static_texture_is(textures@[static_count_upto(f, k)], f[k]),
            forall|k: int| 0 <= k < j ==> #[trigger] primary_ids(f, st[k]).len() > 0,
            forall|k: int| 0 <= k < j ==> animated_texture_is(#[trigger] textures@[sc + k], f, st[k]),
        decreases stems_v@.len() - j,
    {
        let s = stems_v[j].as_slice();
        assert(s@ == st[j as int]);
        let pri = frame_ids(files, &names, s, 0x30, 0x3a);
        if pri.len() == 0 {
            assert(primary_ids(f, stems(f)[j as int]).len() == 0);
            assert(!primaries_present(f));
            let m = crate::util::string_from_chars(s);
            return Err(BspFileError::EmptyPrimaryAnimation(m));
        }
        let alt = frame_ids(files, &names, s, 0x61, 0x6b);
        proof {
            lemma_frame_ids_below_bound(f, s@, 0x30, 0x3a);
            lemma_frame_ids_below_bound(f, s@, 0x61, 0x6b);
        }
        let first = pri[0];
        let primary = frames_of(files, &pri);
        let alternate = if alt.len() == 0 {
            None
        } else {
            Some(frames_of(files, &alt))
        };
        let t = BspTexture {
            name: crate::util::string_from_chars(s),
            width: files[first].width,
            height: files[first].height,
            kind: BspTextureKind::Animated { primary, alternate },
        };
        assert(animated_texture_is(t, f, st[j as int]));
        let ghost before = textures@;
        textures.push(t);
        assert forall|k: int| 0 <= k < f.len() && !is_frame_name(#[trigger] f[k].name@) implies static_texture_is(textures@[static_count_upto(f, k)], f[k]) by {
            lemma_static_count_grows(f, k, f.len() as int);
            assert(textures@[static_count_upto(f, k)] == before[static_count_upto(f, k)]);
        }
        assert forall|k: int| 0 <= k < j + 1 implies animated_texture_is(#[trigger] textures@[sc + k], f, st[k]) by {
            if k < j {
                assert(textures@[sc + k] == before[sc + k]);
            }
        }
        j = j + 1;
    }
    let count = textures.len();
    let mut ids: Vec<usize> = Vec::new();
    let mut rank: usize = 0;
    let mut i: usize = 0;
    while i < files.len()
        invariant
            f == files@,
            names@.len() == f.len(),
            forall|k: int| 0 <= k < f.len() ==> #[trigger] names@[k]@ == f[k].name@,
            st == stems(f),
            char_views(stems_v@) == st,
            sc == static_count(f),
            textures@.len() == sc + st.len(),
            count == textures@.len(),
            forall|k: int| 0 <= k < f.len() ==> !frame_split_panics(#[trigger] f[k].name@),
            i <= f.len(),
            rank == static_count_upto(f, i as int),
            ids@.len() == i,
            forall|k: int| 0 <= k < i && !is_frame_name(#[trigger] f[k].name@) ==> ids@[k] == static_count_upto(f, k),
            forall|k: int| 0 <= k < i && is_frame_name(#[trigger] f[k].name@) ==> sc <= ids@[k] < textures@.len() && st[ids@[k] - sc] == stem(f[k].name@),
        decreases f.len() - i,
    {
        let n = &names[i];
        assert(n@ == f[i as int].name@);
        let ghost before = ids@;
        proof {
            lemma_static_count_grows(f, i as int, f.len() as int);
            lemma_static_count_grows(f, i + 1, f.len() as int);
        }
        if !(n.len() > 0 && n[0] == '+') {
            ids.push(rank);
            rank = rank + 1;
        } else {
            let stem_chars = stem_of(n);
            proof {
                lemma_stem_listed(f, i as int, f.len() as int);
            }
            let k = match find_stem(&stems_v, stem_chars.as_slice()) {
                Some(k) => k,
                None => {
                    proof {
                        assert(false);
                    }
                    0
                },
            };
            assert(st[k as int] == stem(f[i as int].name@));
            ids.push(sc + k);
        }
        assert(forall|k: int| 0 <= k < i ==> ids@[k] == before[k]);
        i = i + 1;
    }
    Ok((textures, ids))
}

/// Each animated texture is listed once: no two stems are the same.
pub proof fn lemma_stems_distinct(f: Seq<BspFileTexture>)
    ensures
        forall|a: int, b: int| 0 <= a < b < stems(f).len() ==> stems(f)[a] != stems(f)[b],
{
    lemma_stems_upto_distinct(f, f.len() as int);
}

proof fn lemma_stems_upto_distinct(f: Seq<BspFileTexture>, k: int)
    ensures
        forall|a: int, b: int| 0 <= a < b < stems_upto(f, k).len() ==> stems_upto(f, k)[a] != stems_upto(f, k)[b],
    decreases k,
{
    if k > 0 {
        lemma_stems_upto_distinct(f, k - 1);
        let prev = stems_upto(f, k - 1);
        let n = f[k - 1].name@;
        if is_frame_name(n) && !prev.contains(stem(n)) {
            let cur = prev.push(stem(n));
            assert forall|a: int, b: int| 0 <= a < b < cur.len() implies cur[a] != cur[b] by {
                if b == prev.len() {
                    assert(cur[a] == prev[a]);
                } else {
                    assert(cur[a] == prev[a] && cur[b] == prev[b]);
                }
            }
        }
    }
}

/// Points each texture information at the texture that its file texture became.
pub fn remap_texinfo_textures(texinfo: &mut Vec<BspTexInfoBits>, texture_ids: &Vec<usize>)
    requires
        forall|k: int| 0 <= k < old(texinfo)@.len() ==> #[trigger] old(texinfo)@[k].tex_id < texture_ids@.len(),
    ensures
        final(texinfo)@.len() == old(texinfo)@.len(),
        forall|k: int| 0 <= k < old(texinfo)@.len() ==> {
            let a = #[trigger] final(texinfo)@[k];
            let b = old(texinfo)@[k];
            &&& a.tex_id == texture_ids@[b.tex_id as int]
            &&& a.s_vector == b.s_vector
            &&& a.s_offset == b.s_offset
            &&& a.t_vector == b.t_vector
            &&& a.t_offset == b.t_offset
            &&& a.special == b.special
        },
{
    let mut out: Vec<BspTexInfoBits> = Vec::new();
    let mut k: usize = 0;
    while k < texinfo.len()
        invariant
            forall|x: int| 0 <= x < texinfo@.len() ==> #[trigger] texinfo@[x].tex_id < texture_ids@.len(),
            k <= texinfo@.len(),
            out@.len() == k,
            forall|x: int| 0 <= x < k ==> {
                let a = #[trigger] out@[x];
                let b = texinfo@[x];
                &&& a.tex_id == texture_ids@[b.tex_id as int]
                &&& a.s_vector == b.s_vector
                &&& a.s_offset == b.s_offset
                &&& a.t_vector == b.t_vector
                &&& a.t_offset == b.t_offset
                &&& a.special == b.special
            },
        decreases texinfo@.len() - k,
    {
        let t = &texinfo[k];
        let ghost before = out@;
        out.push(BspTexInfoBits {
            s_vector: t.s_vector,
            s_offset: t.s_offset,
            t_vector: t.t_vector,
            t_offset: t.t_offset,
            tex_id: texture_ids[t.tex_id],
            special: t.special,
        });
        assert(forall|x: int| 0 <= x < k ==> out@[x] == before[x]);
        k = k + 1;
    }
    *texinfo = out;
}

} // verus!
