//! Alias models: their texture coordinates, triangles and textures, and reading those parts of
//! a model file.

use vstd::prelude::*;
use crate::bsp::load::i32_at;
use crate::wire::i32_le_at;

verus! {

/// An error in a model file.
#[derive(Debug)]
pub enum MdlFileError {
    /// The file ended first.
    Io,
    InvalidMagicNumber(i32),
    UnrecognizedVersion(i32),
    InvalidTextureWidth(i32),
    InvalidTextureHeight(i32),
    InvalidVertexCount(i32),
    InvalidPolygonCount(i32),
    InvalidKeyframeCount(i32),
    InvalidFlags(i32),
    InvalidTextureKind(i32),
    InvalidSeamFlag(i32),
    InvalidTexcoord([i32; 2]),
    InvalidFrontFacing(i32),
    KeyframeNameTooLong([u8; 16]),
    /// A keyframe's name is not UTF-8.
    NonUtf8KeyframeName,
}

/// A texture that does not change: its palette indices.
#[derive(Clone, Debug)]
pub struct StaticTexture {
    indices: Vec<u8>,
}

impl StaticTexture {
    /// A texture with the given palette indices.
    pub fn new(indices: Vec<u8>) -> (r: StaticTexture)
        ensures
            r.spec_indices() == indices@,
    {
        StaticTexture { indices }
    }

    /// The palette indices.
    pub closed spec fn spec_indices(&self) -> Seq<u8> {
        self.indices@
    }

    /// The palette indices.
    pub fn indices(&self) -> (r: &[u8])
        ensures
            r@ == self.spec_indices(),
    {
        self.indices.as_slice()
    }
}

/// A texture coordinate of a vertex, and whether the vertex lies on the seam between the front
/// and back halves of the skin.
#[derive(Clone, Copy, Debug, PartialEq, Eq, Structural)]
pub struct Texcoord {
    pub is_on_seam: bool,
    pub s: u32,
    pub t: u32,
}

impl Texcoord {
    /// Whether the vertex lies on the seam.
    pub open spec fn spec_is_on_seam(&self) -> bool {
        self.is_on_seam
    }

    /// The horizontal coordinate.
    pub open spec fn spec_s(&self) -> u32 {
        self.s
    }

    /// The vertical coordinate.
    pub open spec fn spec_t(&self) -> u32 {
        self.t
    }

    /// Whether the vertex lies on the seam.
    pub fn is_on_seam(&self) -> (r: bool)
        ensures
            r == self.spec_is_on_seam(),
    {
        self.is_on_seam
    }

    /// The horizontal coordinate.
    pub fn s(&self) -> (r: u32)
        ensures
            r == self.spec_s(),
    {
        self.s
    }

    /// The vertical coordinate.
    pub fn t(&self) -> (r: u32)
        ensures
            r == self.spec_t(),
    {
        self.t
    }
}

/// A triangle: the indices of its vertices and whether it faces the front.
#[derive(Clone, Copy, Debug)]
pub struct IndexedPolygon {
    pub faces_front: bool,
    pub indices: [u32; 3],
}

impl IndexedPolygon {
    /// Whether the triangle faces the front.
    pub open spec fn spec_faces_front(&self) -> bool {
        self.faces_front
    }

    /// The indices of the vertices.
    pub open spec fn spec_indices(&self) -> Seq<u32> {
        self.indices@
    }

    /// Whether the triangle faces the front.
    pub fn faces_front(&self) -> (r: bool)
        ensures
            r == self.spec_faces_front(),
    {
        self.faces_front
    }

    /// The indices of the vertices.
    pub fn indices(&self) -> (r: &[u32; 3])
        ensures
            r@ == self.spec_indices(),
    {
        &self.indices
    }
}

/// What reading the texture coordinate at `p` gives: the seam flag is 0 or 0x20, and neither
/// coordinate is negative.
#[verifier::opaque]
pub open spec fn texcoord_at(s: Seq<u8>, p: int) -> Result<Texcoord, MdlFileError> {
    if p + 4 > s.len() {
        Err(MdlFileError::Io)
    } else if i32_at(s, p) != 0 && i32_at(s, p) != 0x20 {
        Err(MdlFileError::InvalidSeamFlag(i32_at(s, p)))
    } else if p + 12 > s.len() {
        Err(MdlFileError::Io)
    } else if i32_at(s, p + 4) < 0 || i32_at(s, p + 8) < 0 {
        Err(MdlFileError::InvalidTexcoord([i32_at(s, p + 4), i32_at(s, p + 8)]))
    } else {
        Ok(Texcoord {
            is_on_seam: i32_at(s, p) == 0x20,
            s: i32_at(s, p + 4) as u32,
            t: i32_at(s, p + 8) as u32,
        })
    }
}

/// Reads the texture coordinate at `p`.
fn read_texcoord(buf: &[u8], p: usize) -> (r: Result<Texcoord, MdlFileError>)
    requires
        p <= buf.len(),
    ensures
        r == texcoord_at(buf@, p as int),
        r is Ok ==> p + 12 <= buf.len(),
{
    reveal(texcoord_at);
    if buf.len() - p < 4 {
        return Err(MdlFileError::Io);
    }
    let seam = i32_le_at(buf, p);
    if seam != 0 && seam != 0x20 {
        return Err(MdlFileError::InvalidSeamFlag(seam));
    }
    if buf.len() - p < 12 {
        return Err(MdlFileError::Io);
    }
    let s = i32_le_at(buf, p + 4);
    let t = i32_le_at(buf, p + 8);
    if s < 0 || t < 0 {
        return Err(MdlFileError::InvalidTexcoord([s, t]));
    }
    Ok(Texcoord { is_on_seam: seam == 0x20, s: s as u32, t: t as u32 })
}

/// What reading the texture coordinate `i` of a list at `p` gives.
pub open spec fn texcoord_nth(s: Seq<u8>, p: int, i: int) -> Result<Texcoord, MdlFileError> {
    texcoord_at(s, p + 12 * i)
}

/// Reads `count` texture coordinates from `pos`, stopping at the first that fails.
pub fn read_texcoords(buf: &[u8], pos: &mut usize, count: usize) -> (r: Result<Vec<Texcoord>, MdlFileError>)
    requires
        *old(pos) <= buf.len(),
    ensures
        r matches Ok(v) ==> v@.len() == count && *final(pos) == *old(pos) + 12 * count && forall|i: int|
            0 <= i < count ==> texcoord_nth(buf@, *old(pos) as int, i) == Ok::<Texcoord, MdlFileError>(#[trigger] v@[i]),
        r matches Err(e) ==> exists|i: int|
            0 <= i < count && (forall|j: int| 0 <= j < i ==> #[trigger] texcoord_nth(buf@, *old(pos) as int, j) is Ok)
                && texcoord_nth(buf@, *old(pos) as int, i) == Err::<Texcoord, MdlFileError>(e),
{
    let ghost p0 = *pos as int;
    let mut v: Vec<Texcoord> = Vec::new();
    let mut i: usize = 0;
    while i < count
        invariant
            i <= count,
            p0 == *old(pos) as int,
            *pos == p0 + 12 * i,
            *pos <= buf.len(),
            v@.len() == i,
            forall|k: int| 0 <= k < i ==> texcoord_nth(buf@, p0, k) == Ok::<Texcoord, MdlFileError>(#[trigger] v@[k]),
        decreases count - i,
    {
        let p = *pos;
        let tc = match read_texcoord(buf, p) {
            Ok(tc) => tc,
            Err(e) => {
                assert(texcoord_nth(buf@, p0, i as int) == Err::<Texcoord, MdlFileError>(e));
                assert forall|j: int| 0 <= j < i implies #[trigger] texcoord_nth(buf@, p0, j) is Ok by {
                    assert(texcoord_nth(buf@, p0, j) == Ok::<Texcoord, MdlFileError>(v@[j]));
                }
                assert(p0 == *old(pos) as int);
                assert(exists|k: int|
                    0 <= k < count && (forall|j: int| 0 <= j < k ==> #[trigger] texcoord_nth(buf@, *old(pos) as int, j) is Ok)
                        && texcoord_nth(buf@, *old(pos) as int, k) == Err::<Texcoord, MdlFileError>(e)) by {
                    assert(texcoord_nth(buf@, *old(pos) as int, i as int) == Err::<Texcoord, MdlFileError>(e));
                }
                return Err(e);
            },
        };
        assert(texcoord_nth(buf@, p0, i as int) == Ok::<Texcoord, MdlFileError>(tc));
        v.push(tc);
        *pos = p + 12;
        assert(*pos <= buf.len());
        i = i + 1;
    }
    Ok(v)
}

/// What reading the triangle at `p` gives: the front flag is 0 or 1, and the indices are
/// taken as unsigned.
#[verifier::opaque]
pub open spec fn polygon_at(s: Seq<u8>, p: int) -> Result<IndexedPolygon, MdlFileError> {
    if p + 4 > s.len() {
        Err(MdlFileError::Io)
    } else if i32_at(s, p) != 0 && i32_at(s, p) != 1 {
        Err(MdlFileError::InvalidFrontFacing(i32_at(s, p)))
    } else if p + 16 > s.len() {
        Err(MdlFileError::Io)
    } else {
        Ok(IndexedPolygon {
            faces_front: i32_at(s, p) == 1,
            indices: [i32_at(s, p + 4) as u32, i32_at(s, p + 8) as u32, i32_at(s, p + 12) as u32],
        })
    }
}

/// Reads the triangle at `p`.
fn read_polygon(buf: &[u8], p: usize) -> (r: Result<IndexedPolygon, MdlFileError>)
    requires
        p <= buf.len(),
    ensures
        r == polygon_at(buf@, p as int),
        r is Ok ==> p + 16 <= buf.len(),
{
    reveal(polygon_at);
    if buf.len() - p < 4 {
        return Err(MdlFileError::Io);
    }
    let front = i32_le_at(buf, p);
    if front != 0 && front != 1 {
        return Err(MdlFileError::InvalidFrontFacing(front));
    }
    if buf.len() - p < 16 {
        return Err(MdlFileError::Io);
    }
    let a = i32_le_at(buf, p + 4) as u32;
    let b = i32_le_at(buf, p + 8) as u32;
    let c = i32_le_at(buf, p + 12) as u32;
    let poly = IndexedPolygon { faces_front: front == 1, indices: [a, b, c] };
    assert(poly.indices@ =~= polygon_at(buf@, p as int)->Ok_0.indices@);
    Ok(poly)
}

/// What reading the triangle `i` of a list at `p` gives.
pub open spec fn polygon_nth(s: Seq<u8>, p: int, i: int) -> Result<IndexedPolygon, MdlFileError> {
    polygon_at(s, p + 16 * i)
}

/// Reads `count` triangles from `pos`, stopping at the first that fails.
pub fn read_polygons(buf: &[u8], pos: &mut usize, count: usize) -> (r: Result<Vec<IndexedPolygon>, MdlFileError>)
    requires
        *old(pos) <= buf.len(),
    ensures
        r matches Ok(v) ==> v@.len() == count && *final(pos) == *old(pos) + 16 * count && forall|i: int|
            0 <= i < count ==> polygon_nth(buf@, *old(pos) as int, i) == Ok::<IndexedPolygon, MdlFileError>(#[trigger] v@[i]),
        r matches Err(e) ==> exists|i: int|
            0 <= i < count && (forall|j: int| 0 <= j < i ==> #[trigger] polygon_nth(buf@, *old(pos) as int, j) is Ok)
                && polygon_nth(buf@, *old(pos) as int, i) == Err::<IndexedPolygon, MdlFileError>(e),
{
    let ghost p0 = *pos as int;
    let mut v: Vec<IndexedPolygon> = Vec::new();
    let mut i: usize = 0;
    while i < count
        invariant
            i <= count,
            p0 == *old(pos) as int,
            *pos == p0 + 16 * i,
            *pos <= buf.len(),
            v@.len() == i,
            forall|k: int| 0 <= k < i ==> polygon_nth(buf@, p0, k) == Ok::<IndexedPolygon, MdlFileError>(#[trigger] v@[k]),
        decreases count - i,
    {
        let p = *pos;
        let poly = match read_polygon(buf, p) {
            Ok(x) => x,
            Err(e) => {
                assert(polygon_nth(buf@, p0, i as int) == Err::<IndexedPolygon, MdlFileError>(e));
                assert forall|j: int| 0 <= j < i implies #[trigger] polygon_nth(buf@, p0, j) is Ok by {
                    assert(polygon_nth(buf@, p0, j) == Ok::<IndexedPolygon, MdlFileError>(v@[j]));
                }
                assert(p0 == *old(pos) as int);
                assert(exists|k: int|
                    0 <= k < count && (forall|j: int| 0 <= j < k ==> #[trigger] polygon_nth(buf@, *old(pos) as int, j) is Ok)
                        && polygon_nth(buf@, *old(pos) as int, k) == Err::<IndexedPolygon, MdlFileError>(e)) by {
                    assert(polygon_nth(buf@, *old(pos) as int, i as int) == Err::<IndexedPolygon, MdlFileError>(e));
                }
                return Err(e);
            },
        };
        assert(polygon_nth(buf@, p0, i as int) == Ok::<IndexedPolygon, MdlFileError>(poly));
        v.push(poly);
        *pos = p + 16;
        i = i + 1;
    }
    Ok(v)
}

} // verus!
