//! Sprites: flat pictures that face the viewer, and reading them from a sprite file.
//!
//! The file starts with a header of nine numbers; then come the frames, each a single picture
//! or a group of pictures shown in turn. The floating-point numbers of a sprite (its radius and
//! the durations of animated frames) are kept as their bits.

use vstd::prelude::*;
use crate::bsp::load::i32_at;
use crate::bsp::texture::u32_at;
use crate::model::SyncType;
use crate::wire::{i32_le_at, u32_le_at};

verus! {

/// How a sprite faces the viewer.
#[derive(Copy, Clone, Debug, PartialEq, Eq, Structural)]
pub enum SpriteKind {
    ViewPlaneParallelUpright,
    Upright,
    ViewPlaneParallel,
    Oriented,
    ViewPlaneParallelOriented,
}

impl SpriteKind {
    /// The number of this value.
    pub open spec fn spec_code(self) -> u32 {
        match self {
            SpriteKind::ViewPlaneParallelUpright => 0,
            SpriteKind::Upright => 1,
            SpriteKind::ViewPlaneParallel => 2,
            SpriteKind::Oriented => 3,
            SpriteKind::ViewPlaneParallelOriented => 4,
        }
    }

    /// The value with the given number, if there is one.
    pub open spec fn spec_from_u32(v: u32) -> Option<SpriteKind> {
        match v {
            0 => Some(SpriteKind::ViewPlaneParallelUpright),
            1 => Some(SpriteKind::Upright),
            2 => Some(SpriteKind::ViewPlaneParallel),
            3 => Some(SpriteKind::Oriented),
            4 => Some(SpriteKind::ViewPlaneParallelOriented),
            _ => None,
        }
    }

    /// The number of this value.
    pub fn code(self) -> (r: u32)
        ensures
            r == self.spec_code(),
    {
        match self {
            SpriteKind::ViewPlaneParallelUpright => 0,
            SpriteKind::Upright => 1,
            SpriteKind::ViewPlaneParallel => 2,
            SpriteKind::Oriented => 3,
            SpriteKind::ViewPlaneParallelOriented => 4,
        }
    }

    /// The value with the given number, if there is one.
    pub fn from_u32(v: u32) -> (r: Option<SpriteKind>)
        ensures
            r == SpriteKind::spec_from_u32(v),
    {
        match v {
            0 => Some(SpriteKind::ViewPlaneParallelUpright),
            1 => Some(SpriteKind::Upright),
            2 => Some(SpriteKind::ViewPlaneParallel),
            3 => Some(SpriteKind::Oriented),
            4 => Some(SpriteKind::ViewPlaneParallelOriented),
            _ => None,
        }
    }

    /// Reading back the number of a value gives the value.
    pub proof fn lemma_code_roundtrip(self)
        ensures
            SpriteKind::spec_from_u32(self.spec_code()) == Some(self),
    {
    }
}

/// The number that starts a sprite file: `IDSP`, little-endian.
pub const MAGIC: u32 = 0x5053_4449;

/// The version of the sprite format.
pub const VERSION: u32 = 1;

/// The size of a sprite file's header.
pub const HEADER_SIZE: usize = 36;

/// A picture of a sprite: its size, its edges around the sprite's origin, and its palette
/// indices, row by row.
#[derive(Debug)]
pub struct SpriteSubframe {
    pub width: u32,
    pub height: u32,
    pub up: i32,
    pub down: i32,
    pub left: i32,
    pub right: i32,
    pub indexed: Vec<u8>,
}

impl SpriteSubframe {
    /// The width.
    pub fn width(&self) -> (r: u32)
        ensures
            r == self.width,
    {
        self.width
    }

    /// The height.
    pub fn height(&self) -> (r: u32)
        ensures
            r == self.height,
    {
        self.height
    }

    /// The palette indices.
    pub fn indexed(&self) -> (r: &[u8])
        ensures
            r@ == self.indexed@,
    {
        self.indexed.as_slice()
    }
}

/// A frame of a sprite: one picture, or pictures shown in turn, each for its duration (the
/// bits of a number of seconds).
#[derive(Debug)]
pub enum SpriteFrame {
    Static { frame: SpriteSubframe },
    Animated { subframes: Vec<SpriteSubframe>, durations: Vec<u32> },
}

/// A sprite: how it faces the viewer, the largest size of its pictures, the bits of its radius,
/// and its frames.
#[derive(Debug)]
pub struct SpriteModel {
    pub kind: SpriteKind,
    pub max_width: usize,
    pub max_height: usize,
    pub radius: u32,
    pub frames: Vec<SpriteFrame>,
}

impl SpriteModel {
    /// The bits of the radius.
    pub fn radius_bits(&self) -> (r: u32)
        ensures
            r == self.radius,
    {
        self.radius
    }

    /// How the sprite faces the viewer.
    pub fn kind(&self) -> (r: SpriteKind)
        ensures
            r == self.kind,
    {
        self.kind
    }

    /// The frames.
    pub fn frames(&self) -> (r: &[SpriteFrame])
        ensures
            r@ == self.frames@,
    {
        self.frames.as_slice()
    }
}

/// The width of the picture at `q`.
pub open spec fn sub_width(s: Seq<u8>, q: int) -> int {
    i32_at(s, q + 8) as int
}

/// The height of the picture at `q`.
pub open spec fn sub_height(s: Seq<u8>, q: int) -> int {
    i32_at(s, q + 12) as int
}

/// Whether the picture at `q` can be read: its header is there, its size is not negative, its
/// number of pixels and its edges fit in an `i32`, and its pixels are there.
pub open spec fn subframe_ok(s: Seq<u8>, q: int) -> bool {
    let w = sub_width(s, q);
    let h = sub_height(s, q);
    &&& 0 <= q
    &&& q + 16 <= s.len()
    &&& w >= 0
    &&& h >= 0
    &&& w * h <= i32::MAX
    &&& q + 16 + w * h <= s.len()
    &&& i32_at(s, q + 4) - h >= i32::MIN
    &&& w + i32_at(s, q) <= i32::MAX
}

/// Where the picture at `q` ends.
pub open spec fn subframe_end(s: Seq<u8>, q: int) -> int {
    q + 16 + sub_width(s, q) * sub_height(s, q)
}

/// Whether `f` is the picture at `q`.
pub open spec fn subframe_is(s: Seq<u8>, q: int, f: SpriteSubframe) -> bool {
    &&& f.width == sub_width(s, q)
    &&& f.height == sub_height(s, q)
    &&& f.up == i32_at(s, q + 4)
    &&& f.down == i32_at(s, q + 4) - sub_height(s, q)
    &&& f.left == i32_at(s, q)
    &&& f.right == sub_width(s, q) + i32_at(s, q)
    &&& f.indexed@ == s.subrange(q + 16, subframe_end(s, q))
}

/// Where the `k`-th of the pictures from `q` starts, and where the `k` first end.
pub open spec fn subframes_end(s: Seq<u8>, q: int, k: int) -> int
    decreases k,
{
    if k <= 0 {
        q
    } else {
        subframe_end(s, subframes_end(s, q, k - 1))
    }
}

/// Whether the `k` pictures from `q` can be read.
pub open spec fn subframes_ok(s: Seq<u8>, q: int, k: int) -> bool
    decreases k,
{
    if k <= 0 {
        true
    } else {
        subframes_ok(s, q, k - 1) && subframe_ok(s, subframes_end(s, q, k - 1))
    }
}

/// Whether the frame at `p` is a single picture.
pub open spec fn frame_is_static(s: Seq<u8>, p: int) -> bool {
    i32_at(s, p) == 0
}

/// The number of pictures of the group at `p`.
pub open spec fn group_count(s: Seq<u8>, p: int) -> int {
    i32_at(s, p + 4) as int
}

/// Where the pictures of the group at `p` start, after its durations.
pub open spec fn group_pictures(s: Seq<u8>, p: int) -> int {
    p + 8 + 4 * group_count(s, p)
}

/// Whether the frame at `p` can be read.
pub open spec fn frame_ok(s: Seq<u8>, p: int) -> bool {
    &&& 0 <= p
    &&& p + 4 <= s.len()
    &&& if frame_is_static(s, p) {
        subframe_ok(s, p + 4)
    } else {
        &&& p + 8 <= s.len()
        &&& group_count(s, p) >= 0
        &&& group_pictures(s, p) <= s.len()
        &&& subframes_ok(s, group_pictures(s, p), group_count(s, p))
    }
}

/// Where the frame at `p` ends.
pub open spec fn frame_end(s: Seq<u8>, p: int) -> int {
    if frame_is_static(s, p) {
        subframe_end(s, p + 4)
    } else {
        subframes_end(s, group_pictures(s, p), group_count(s, p))
    }
}

/// Whether `f` is the frame at `p`.
pub open spec fn frame_is(s: Seq<u8>, p: int, f: SpriteFrame) -> bool {
    if frame_is_static(s, p) {
        f matches SpriteFrame::Static { frame } && subframe_is(s, p + 4, frame)
    } else {
        f matches SpriteFrame::Animated { subframes, durations } && {
            let n = group_count(s, p);
            let q = group_pictures(s, p);
            &&& durations@.len() == n
            &&& forall|j: int| 0 <= j < n ==> #[trigger] durations@[j] == u32_at(s, p + 8 + 4 * j)
            &&& subframes@.len() == n
            &&& forall|j: int| 0 <= j < n ==> subframe_is(s, subframes_end(s, q, j), #[trigger] subframes@[j])
        }
    }
}

/// Where the `k`-th of the frames from `p` starts, and where the `k` first end.
pub open spec fn frames_end(s: Seq<u8>, p: int, k: int) -> int
    decreases k,
{
    if k <= 0 {
        p
    } else {
        frame_end(s, frames_end(s, p, k - 1))
    }
}

/// Whether the `k` frames from `p` can be read.
pub open spec fn frames_ok(s: Seq<u8>, p: int, k: int) -> bool
    decreases k,
{
    if k <= 0 {
        true
    } else {
        frames_ok(s, p, k - 1) && frame_ok(s, frames_end(s, p, k - 1))
    }
}

/// The number of frames that the header says the sprite has.
pub open spec fn frame_count(s: Seq<u8>) -> int {
    i32_at(s, 24) as int
}

/// Whether the header of a sprite file is valid: the magic number and version, a known kind
/// and kind of animation, sizes that are not negative, and at least one frame.
pub open spec fn header_ok(s: Seq<u8>) -> bool {
    &&& s.len() >= HEADER_SIZE
    &&& u32_at(s, 0) == MAGIC
    &&& u32_at(s, 4) == VERSION
    &&& SpriteKind::spec_from_u32(i32_at(s, 8) as u32) is Some
    &&& i32_at(s, 16) >= 0
    &&& i32_at(s, 20) >= 0
    &&& frame_count(s) >= 1
    &&& i32_at(s, 28) >= 0
    &&& SyncType::spec_from_u32(i32_at(s, 32) as u32) is Some
}

/// Whether a sprite file can be read.
pub open spec fn sprite_ok(s: Seq<u8>) -> bool {
    header_ok(s) && frames_ok(s, HEADER_SIZE as int, frame_count(s))
}

/// Whether `m` is the sprite that the file `s` holds.
pub open spec fn sprite_is(s: Seq<u8>, m: SpriteModel) -> bool {
    &&& Some(m.kind) == SpriteKind::spec_from_u32(i32_at(s, 8) as u32)
    &&& m.radius == u32_at(s, 12)
    &&& m.max_width == i32_at(s, 16)
    &&& m.max_height == i32_at(s, 20)
    &&& m.frames@.len() == frame_count(s)
    &&& forall|i: int| 0 <= i < frame_count(s) ==> frame_is(s, frames_end(s, HEADER_SIZE as int, i), #[trigger] m.frames@[i])
}

/// Reads the picture at `q`, and gives where it ends; nothing where it cannot be read.
fn read_subframe(buf: &[u8], q: usize) -> (r: Option<(SpriteSubframe, usize)>)
    ensures
        r is Some <==> subframe_ok(buf@, q as int),
        r matches Some((f, e)) ==> subframe_is(buf@, q as int, f) && e == subframe_end(buf@, q as int),
{
    if q > buf.len() || buf.len() - q < 16 {
        return None;
    }
    let ox = i32_le_at(buf, q);
    let oz = i32_le_at(buf, q + 4);
    let w = i32_le_at(buf, q + 8);
    let h = i32_le_at(buf, q + 12);
    if w < 0 || h < 0 {
        return None;
    }
    let wide: i64 = w as i64;
    let high: i64 = h as i64;
    assert(wide * high <= 0x7fff_ffffi64 * 0x7fff_ffffi64) by (nonlinear_arith)
        requires
            0 <= wide <= 0x7fff_ffffi64,
            0 <= high <= 0x7fff_ffffi64,
    ;
    if wide * high > i32::MAX as i64 {
        return None;
    }
    let n = (w * h) as usize;
    if buf.len() - (q + 16) < n {
        return None;
    }
    if (oz as i64) - (h as i64) < i32::MIN as i64 || (w as i64) + (ox as i64) > i32::MAX as i64 {
        return None;
    }
    let indexed = vstd::slice::slice_to_vec(vstd::slice::slice_subrange(buf, q + 16, q + 16 + n));
    let f = SpriteSubframe {
        width: w as u32,
        height: h as u32,
        up: oz,
        down: oz - h,
        left: ox,
        right: w + ox,
        indexed,
    };
    Some((f, q + 16 + n))
}

/// Reads `n` pictures from `q`, and gives where they end; nothing where one cannot be read.
fn read_subframes(buf: &[u8], q: usize, n: usize) -> (r: Option<(Vec<SpriteSubframe>, usize)>)
    ensures
        r is Some <==> subframes_ok(buf@, q as int, n as int),
        r matches Some((v, e)) ==> e == subframes_end(buf@, q as int, n as int) && v@.len() == n
            && forall|j: int| 0 <= j < n ==> subframe_is(buf@, subframes_end(buf@, q as int, j), #[trigger] v@[j]),
{
    let mut v: Vec<SpriteSubframe> = Vec::new();
    let mut pos = q;
    let mut i: usize = 0;
    while i < n
        invariant
            i <= n,
            v@.len() == i,
            pos == subframes_end(buf@, q as int, i as int),
            subframes_ok(buf@, q as int, i as int),
            forall|j: int| 0 <= j < i ==> subframe_is(buf@, subframes_end(buf@, q as int, j), #[trigger] v@[j]),
        decreases n - i,
    {
        let (f, e) = match read_subframe(buf, pos) {
            Some(x) => x,
            None => {
                proof {
                    lemma_subframes_ok_prefix(buf@, q as int, i as int + 1, n as int);
                }
                return None;
            },
        };
        let ghost before = v@;
        v.push(f);
        assert(forall|j: int| 0 <= j < i ==> v@[j] == before[j]);
        pos = e;
        i = i + 1;
    }
    Some((v, pos))
}

/// Pictures can be read only where all before them can.
proof fn lemma_subframes_ok_prefix(s: Seq<u8>, q: int, k: int, n: int)
    requires
        0 <= k <= n,
    ensures
        subframes_ok(s, q, n) ==> subframes_ok(s, q, k),
    decreases n,
{
    if k < n {
        lemma_subframes_ok_prefix(s, q, k, n - 1);
    }
}


/// The `n` words from `p`, each the bits of a duration.
fn read_durations(buf: &[u8], p: usize, n: usize) -> (r: Vec<u32>)
    requires
        p + 4 * n <= buf.len(),
    ensures
        r@.len() == n,
        forall|j: int| 0 <= j < n ==> #[trigger] r@[j] == u32_at(buf@, p + 4 * j),
{
    let mut v: Vec<u32> = Vec::new();
    let mut i: usize = 0;
    while i < n
        invariant
            p + 4 * n <= buf.len(),
            i <= n,
            v@.len() == i,
            forall|j: int| 0 <= j < i ==> #[trigger] v@[j] == u32_at(buf@, p + 4 * j),
        decreases n - i,
    {
        v.push(u32_le_at(buf, p + 4 * i));
        i = i + 1;
    }
    v
}

/// Reads the frame at `p`, and gives where it ends; nothing where it cannot be read.
fn read_frame(buf: &[u8], p: usize) -> (r: Option<(SpriteFrame, usize)>)
    ensures
        r is Some <==> frame_ok(buf@, p as int),
        r matches Some((f, e)) ==> frame_is(buf@, p as int, f) && e == frame_end(buf@, p as int),
{
    if p > buf.len() || buf.len() - p < 4 {
        return None;
    }
    let kind = i32_le_at(buf, p);
    if kind == 0 {
        match read_subframe(buf, p + 4) {
            Some((frame, e)) => Some((SpriteFrame::Static { frame }, e)),
            None => None,
        }
    } else {
        if buf.len() - p < 8 {
            return None;
        }
        let count = i32_le_at(buf, p + 4);
        if count < 0 {
            return None;
        }
        let n = count as usize;
        if (buf.len() - p - 8) / 4 < n {
            return None;
        }
        let durations = read_durations(buf, p + 8, n);
        match read_subframes(buf, p + 8 + 4 * n, n) {
            Some((subframes, e)) => Some((SpriteFrame::Animated { subframes, durations }, e)),
            None => None,
        }
    }
}

/// Frames can be read only where all before them can.
proof fn lemma_frames_ok_prefix(s: Seq<u8>, p: int, k: int, n: int)
    requires
        0 <= k <= n,
    ensures
        frames_ok(s, p, n) ==> frames_ok(s, p, k),
    decreases n,
{
    if k < n {
        lemma_frames_ok_prefix(s, p, k, n - 1);
    }
}

/// Reads the sprite that a sprite file holds; nothing where the file cannot be read.
pub fn parse(buf: &[u8]) -> (r: Option<SpriteModel>)
    ensures
        r is Some <==> sprite_ok(buf@),
        r matches Some(m) ==> sprite_is(buf@, m),
{
    if buf.len() < HEADER_SIZE {
        return None;
    }
    if u32_le_at(buf, 0) != MAGIC || u32_le_at(buf, 4) != VERSION {
        return None;
    }
    let kind = match SpriteKind::from_u32(i32_le_at(buf, 8) as u32) {
        Some(k) => k,
        None => {
            return None;
        },
    };
    let radius = u32_le_at(buf, 12);
    let max_width = i32_le_at(buf, 16);
    let max_height = i32_le_at(buf, 20);
    let count = i32_le_at(buf, 24);
    let beam_len = i32_le_at(buf, 28);
    if max_width < 0 || max_height < 0 || count < 1 || beam_len < 0 {
        return None;
    }
    if SyncType::from_u32(i32_le_at(buf, 32) as u32).is_none() {
        return None;
    }
    let n = count as usize;
    let mut frames: Vec<SpriteFrame> = Vec::new();
    let mut pos: usize = HEADER_SIZE;
    let mut i: usize = 0;
    while i < n
        invariant
            header_ok(buf@),
            n == frame_count(buf@),
            i <= n,
            frames@.len() == i,
            pos == frames_end(buf@, HEADER_SIZE as int, i as int),
            frames_ok(buf@, HEADER_SIZE as int, i as int),
            forall|j: int| 0 <= j < i ==> frame_is(buf@, frames_end(buf@, HEADER_SIZE as int, j), #[trigger] frames@[j]),
        decreases n - i,
    {
        let (f, e) = match read_frame(buf, pos) {
            Some(x) => x,
            None => {
                proof {
                    lemma_frames_ok_prefix(buf@, HEADER_SIZE as int, i as int + 1, n as int);
                }
                return None;
            },
        };
        let ghost before = frames@;
        frames.push(f);
        assert(forall|j: int| 0 <= j < i ==> frames@[j] == before[j]);
        pos = e;
        i = i + 1;
    }
    Some(SpriteModel {
        kind,
        max_width: max_width as usize,
        max_height: max_height as usize,
        radius,
        frames,
    })
}

/// Reads a sprite file, which must be valid.
pub fn load(buf: &[u8]) -> (r: SpriteModel)
    requires
        sprite_ok(buf@),
    ensures
        sprite_is(buf@, r),
{
    match parse(buf) {
        Some(m) => m,
        None => {
            proof {
                assert(false);
            }
            SpriteModel {
                kind: SpriteKind::Upright,
                max_width: 0,
                max_height: 0,
                radius: 0,
                frames: Vec::new(),
            }
        },
    }
}

} // verus!
