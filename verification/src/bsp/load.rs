//! Reading a map file: its version, its table of sections, and the sections whose elements hold
//! integers only: the rendering tree's nodes and leaves, the faces, the collision nodes, the
//! face list, the edges and the edge list.
//!
//! Each element is checked as it is read; the first element that is cut short or invalid decides
//! the error.

use vstd::prelude::*;
use super::{
    BspCollisionNode, BspCollisionNodeChild, BspEdge, BspEdgeDirection, BspEdgeIndex, BspError,
    BspFace, BspFaceSide, BspLeaf, BspLeafContents, BspRenderNode, BspRenderNodeChild,
    BspTexInfoBits, BspModelIndices,
};
use crate::wire::{i16_le_at, i32_le_at, u16_le_at, u32_le_at, seq_u16_le, seq_u32_le};
use crate::util::{find_nul, find_nul_from, lemma_find_nul, string_from_utf8};
use vstd::utf8::{decode_utf8, valid_utf8};

verus! {

/// The version of the map format.
pub const VERSION: i32 = 29;

/// The largest number of brush models.
pub const MAX_MODELS: usize = 256;

/// The largest number of leaves.
pub const MAX_LEAVES: usize = 32767;

/// The largest entity text.
pub const MAX_ENTSTRING: usize = 65536;

/// The largest number of planes.
pub const MAX_PLANES: usize = 8192;

/// The largest number of rendering nodes.
pub const MAX_RENDER_NODES: usize = 32767;

/// The largest number of collision nodes.
pub const MAX_COLLISION_NODES: usize = 32767;

/// The largest number of vertices.
pub const MAX_VERTICES: usize = 65535;

/// The largest number of faces.
pub const MAX_FACES: usize = 65535;

/// The largest number of edges.
pub const MAX_EDGES: usize = 256000;

/// The largest number of edge list entries.
pub const MAX_EDGELIST: usize = 512000;

/// The largest number of textures.
pub const MAX_TEXTURES: usize = 0x200000;

/// The largest visibility data.
pub const MAX_VISLIST: usize = 0x100000;

/// The number of sections in a map file.
pub const SECTION_COUNT: usize = 15;

/// An error in a map file.
#[derive(Debug)]
pub enum BspFileError {
    /// The file ended first.
    Io,
    /// The file has a version other than `VERSION`.
    UnsupportedVersion(i32),
    /// A section starts at a negative offset.
    NegativeSectionOffset(i32),
    /// A section has a negative size.
    NegativeSectionSize(i32),
    /// A section's size is not a multiple of its element's size.
    InvalidSectionSize { section: BspFileSectionId, size: usize },
    /// An animated texture's frame is named by a character other than a digit or a letter
    /// from `a` to `j`.
    InvalidTextureFrameSpecifier(String),
    /// An animated texture has no primary frame.
    EmptyPrimaryAnimation(String),
}

/// A section of a map file.
#[derive(Copy, Clone, Debug, PartialEq, Eq, Structural)]
pub enum BspFileSectionId {
    Entities,
    Planes,
    Textures,
    Vertices,
    Visibility,
    RenderNodes,
    TextureInfo,
    Faces,
    Lightmaps,
    CollisionNodes,
    Leaves,
    FaceList,
    Edges,
    EdgeList,
    Models,
}

impl BspFileSectionId {
    /// The number of this value.
    pub open spec fn spec_code(self) -> usize {
        match self {
            BspFileSectionId::Entities => 0,
            BspFileSectionId::Planes => 1,
            BspFileSectionId::Textures => 2,
            BspFileSectionId::Vertices => 3,
            BspFileSectionId::Visibility => 4,
            BspFileSectionId::RenderNodes => 5,
            BspFileSectionId::TextureInfo => 6,
            BspFileSectionId::Faces => 7,
            BspFileSectionId::Lightmaps => 8,
            BspFileSectionId::CollisionNodes => 9,
            BspFileSectionId::Leaves => 10,
            BspFileSectionId::FaceList => 11,
            BspFileSectionId::Edges => 12,
            BspFileSectionId::EdgeList => 13,
            BspFileSectionId::Models => 14,
        }
    }

    /// The value with the given number, if there is one.
    pub open spec fn spec_from_usize(v: usize) -> Option<BspFileSectionId> {
        match v {
            0 => Some(BspFileSectionId::Entities),
            1 => Some(BspFileSectionId::Planes),
            2 => Some(BspFileSectionId::Textures),
            3 => Some(BspFileSectionId::Vertices),
            4 => Some(BspFileSectionId::Visibility),
            5 => Some(BspFileSectionId::RenderNodes),
            6 => Some(BspFileSectionId::TextureInfo),
            7 => Some(BspFileSectionId::Faces),
            8 => Some(BspFileSectionId::Lightmaps),
            9 => Some(BspFileSectionId::CollisionNodes),
            10 => Some(BspFileSectionId::Leaves),
            11 => Some(BspFileSectionId::FaceList),
            12 => Some(BspFileSectionId::Edges),
            13 => Some(BspFileSectionId::EdgeList),
            14 => Some(BspFileSectionId::Models),
            _ => None,
        }
    }

    /// The number of this value.
    pub fn code(self) -> (r: usize)
        ensures
            r == self.spec_code(),
    {
        match self {
            BspFileSectionId::Entities => 0,
            BspFileSectionId::Planes => 1,
            BspFileSectionId::Textures => 2,
            BspFileSectionId::Vertices => 3,
            BspFileSectionId::Visibility => 4,
            BspFileSectionId::RenderNodes => 5,
            BspFileSectionId::TextureInfo => 6,
            BspFileSectionId::Faces => 7,
            BspFileSectionId::Lightmaps => 8,
            BspFileSectionId::CollisionNodes => 9,
            BspFileSectionId::Leaves => 10,
            BspFileSectionId::FaceList => 11,
            BspFileSectionId::Edges => 12,
            BspFileSectionId::EdgeList => 13,
            BspFileSectionId::Models => 14,
        }
    }

    /// The value with the given number, if there is one.
    pub fn from_usize(v: usize) -> (r: Option<BspFileSectionId>)
        ensures
            r == BspFileSectionId::spec_from_usize(v),
    {
        match v {
            0 => Some(BspFileSectionId::Entities),
            1 => Some(BspFileSectionId::Planes),
            2 => Some(BspFileSectionId::Textures),
            3 => Some(BspFileSectionId::Vertices),
            4 => Some(BspFileSectionId::Visibility),
            5 => Some(BspFileSectionId::RenderNodes),
            6 => Some(BspFileSectionId::TextureInfo),
            7 => Some(BspFileSectionId::Faces),
            8 => Some(BspFileSectionId::Lightmaps),
            9 => Some(BspFileSectionId::CollisionNodes),
            10 => Some(BspFileSectionId::Leaves),
            11 => Some(BspFileSectionId::FaceList),
            12 => Some(BspFileSectionId::Edges),
            13 => Some(BspFileSectionId::EdgeList),
            14 => Some(BspFileSectionId::Models),
            _ => None,
        }
    }

    /// Reading back the number of a value gives the value.
    pub proof fn lemma_code_roundtrip(self)
        ensures
            BspFileSectionId::spec_from_usize(self.spec_code()) == Some(self),
    {
    }
}
impl BspFileSectionId {
    /// The size in the file of one element of the section.
    pub open spec fn spec_element_size(self) -> usize {
        match self {
            BspFileSectionId::Entities => 1,
            BspFileSectionId::Planes => 20,
            BspFileSectionId::Textures => 1,
            BspFileSectionId::Vertices => 12,
            BspFileSectionId::Visibility => 1,
            BspFileSectionId::RenderNodes => 24,
            BspFileSectionId::TextureInfo => 40,
            BspFileSectionId::Faces => 20,
            BspFileSectionId::Lightmaps => 1,
            BspFileSectionId::CollisionNodes => 8,
            BspFileSectionId::Leaves => 28,
            BspFileSectionId::FaceList => 2,
            BspFileSectionId::Edges => 4,
            BspFileSectionId::EdgeList => 4,
            BspFileSectionId::Models => 64,
        }
    }

    /// The size in the file of one element of the section.
    pub fn element_size(&self) -> (r: usize)
        ensures
            r == self.spec_element_size(),
            r > 0,
    {
        match self {
            BspFileSectionId::Entities => 1,
            BspFileSectionId::Planes => 20,
            BspFileSectionId::Textures => 1,
            BspFileSectionId::Vertices => 12,
            BspFileSectionId::Visibility => 1,
            BspFileSectionId::RenderNodes => 24,
            BspFileSectionId::TextureInfo => 40,
            BspFileSectionId::Faces => 20,
            BspFileSectionId::Lightmaps => 1,
            BspFileSectionId::CollisionNodes => 8,
            BspFileSectionId::Leaves => 28,
            BspFileSectionId::FaceList => 2,
            BspFileSectionId::Edges => 4,
            BspFileSectionId::EdgeList => 4,
            BspFileSectionId::Models => 64,
        }
    }
}

/// A section of a map file: where it starts and how long it is.
#[derive(Clone, Copy, Debug, PartialEq, Eq, Structural)]
pub struct BspFileSection {
    pub offset: u64,
    pub size: usize,
}

/// The `i16` at `p`.
pub open spec fn i16_at(s: Seq<u8>, p: int) -> i16 {
    seq_u16_le(s.skip(p)) as i16
}

/// The `u16` at `p`.
pub open spec fn u16_at(s: Seq<u8>, p: int) -> u16 {
    seq_u16_le(s.skip(p))
}

/// The `i32` at `p`.
pub open spec fn i32_at(s: Seq<u8>, p: int) -> i32 {
    seq_u32_le(s.skip(p)) as i32
}

/// How reading the section entry at `p` ends.
pub enum EntryStatus {
    Good,
    Io,
    NegativeOffset,
    NegativeSize,
}

/// How reading the section entry at `p` ends.
pub open spec fn entry_status(s: Seq<u8>, p: int) -> EntryStatus {
    if p + 4 > s.len() {
        EntryStatus::Io
    } else if i32_at(s, p) < 0 {
        EntryStatus::NegativeOffset
    } else if p + 8 > s.len() {
        EntryStatus::Io
    } else if i32_at(s, p + 4) < 0 {
        EntryStatus::NegativeSize
    } else {
        EntryStatus::Good
    }
}

/// The error that a section entry's status gives.
pub open spec fn entry_error(s: Seq<u8>, p: int, e: BspFileError) -> bool {
    match entry_status(s, p) {
        EntryStatus::Io => e is Io,
        EntryStatus::NegativeOffset => e == BspFileError::NegativeSectionOffset(i32_at(s, p)),
        EntryStatus::NegativeSize => e == BspFileError::NegativeSectionSize(i32_at(s, p + 4)),
        EntryStatus::Good => false,
    }
}

impl BspFileSection {
    /// Reads a section entry at `pos`: its offset and its size, neither negative.
    pub fn read_from(buf: &[u8], pos: &mut usize) -> (r: Result<BspFileSection, BspFileError>)
        requires
            *old(pos) <= buf.len(),
        ensures
            *final(pos) <= buf.len(),
            r is Ok <==> entry_status(buf@, *old(pos) as int) is Good,
            r matches Ok(sec) ==> sec.offset == i32_at(buf@, *old(pos) as int) as u64
                && sec.size == i32_at(buf@, *old(pos) + 4) as usize && *final(pos) == *old(pos) + 8,
            r matches Err(e) ==> entry_error(buf@, *old(pos) as int, e),
    {
        if buf.len() - *pos < 4 {
            return Err(BspFileError::Io);
        }
        let ofs = i32_le_at(buf, *pos);
        if ofs < 0 {
            return Err(BspFileError::NegativeSectionOffset(ofs));
        }
        if buf.len() - *pos < 8 {
            return Err(BspFileError::Io);
        }
        let sz = i32_le_at(buf, *pos + 4);
        if sz < 0 {
            return Err(BspFileError::NegativeSectionSize(sz));
        }
        *pos = *pos + 8;
        Ok(BspFileSection { offset: ofs as u64, size: sz as usize })
    }
}

/// The table of the sections of a map file.
#[derive(Debug)]
pub struct BspFileTable {
    pub sections: [BspFileSection; 15],
}

/// Whether the section entry `k` of a table at `p` reads well and has a size that fits its
/// elements.
pub open spec fn table_entry_ok(s: Seq<u8>, p: int, k: int) -> bool {
    &&& entry_status(s, p + 8 * k) is Good
    &&& (i32_at(s, p + 8 * k + 4) as usize) % BspFileSectionId::spec_from_usize(k as usize)->0.spec_element_size() == 0
}

/// The error that the section entry `k` of a table at `p` gives, if it gives one.
pub open spec fn table_entry_error(s: Seq<u8>, p: int, k: int, e: BspFileError) -> bool {
    if entry_status(s, p + 8 * k) is Good {
        e == BspFileError::InvalidSectionSize {
            section: BspFileSectionId::spec_from_usize(k as usize)->0,
            size: i32_at(s, p + 8 * k + 4) as usize,
        }
    } else {
        entry_error(s, p + 8 * k, e)
    }
}

impl BspFileTable {
    /// Reads the table of sections at `pos`; the first entry that does not read well, or whose
    /// size is not a multiple of its element's size, decides the error.
    pub fn read_from(buf: &[u8], pos: &mut usize) -> (r: Result<BspFileTable, BspFileError>)
        requires
            *old(pos) <= buf.len(),
        ensures
            r is Ok <==> forall|k: int| 0 <= k < 15 ==> table_entry_ok(buf@, *old(pos) as int, k),
            r matches Ok(t) ==> *final(pos) == *old(pos) + 120 && forall|k: int|
                0 <= k < 15 ==> #[trigger] t.sections@[k].offset == i32_at(buf@, *old(pos) + 8 * k) as u64
                    && t.sections@[k].size == i32_at(buf@, *old(pos) + 8 * k + 4) as usize,
            r matches Err(e) ==> exists|k: int|
                0 <= k < 15 && (forall|j: int| 0 <= j < k ==> table_entry_ok(buf@, *old(pos) as int, j))
                    && !table_entry_ok(buf@, *old(pos) as int, k) && table_entry_error(buf@, *old(pos) as int, k, e),
    {
        let ghost p0 = *pos as int;
        let mut sections = [BspFileSection { offset: 0, size: 0 }; 15];
        let mut k: usize = 0;
        while k < SECTION_COUNT
            invariant
                k <= 15,
                *pos == p0 + 8 * k,
                *pos <= buf.len(),
                p0 == *old(pos),
                forall|j: int| 0 <= j < k ==> table_entry_ok(buf@, p0, j),
                forall|j: int| 0 <= j < k ==> #[trigger] sections@[j].offset == i32_at(buf@, p0 + 8 * j) as u64
                    && sections@[j].size == i32_at(buf@, p0 + 8 * j + 4) as usize,
            decreases 15 - k,
        {
            let sec = match BspFileSection::read_from(buf, pos) {
                Ok(s) => s,
                Err(e) => {
                    assert(!table_entry_ok(buf@, p0, k as int));
                    assert(table_entry_error(buf@, p0, k as int, e));
                    return Err(e);
                },
            };
            let id = match BspFileSectionId::from_usize(k) {
                Some(i) => i,
                None => {
                    return Err(BspFileError::Io);
                },
            };
            assert(id == BspFileSectionId::spec_from_usize(k)->0);
            assert(sec.size == i32_at(buf@, p0 + 8 * k + 4) as usize);
            assert(entry_status(buf@, p0 + 8 * k) is Good);
            if sec.size % id.element_size() != 0 {
                assert(!table_entry_ok(buf@, p0, k as int));
                return Err(BspFileError::InvalidSectionSize { section: id, size: sec.size });
            }
            assert(table_entry_ok(buf@, p0, k as int));
            let ghost before = sections@;
            sections.set(k, sec);
            assert(forall|j: int| 0 <= j < k ==> sections@[j] == before[j]);
            k = k + 1;
        }
        Ok(BspFileTable { sections })
    }

    /// The entry of the given section.
    pub fn section(&self, id: BspFileSectionId) -> (r: BspFileSection)
        ensures
            r == self.sections@[id.spec_code() as int],
    {
        self.sections[id.code()]
    }
}

/// Checks the version at `pos`, the first word of a map file.
pub fn check_version(buf: &[u8], pos: &mut usize) -> (r: Result<(), BspFileError>)
    requires
        *old(pos) <= buf.len(),
    ensures
        *old(pos) + 4 > buf.len() ==> r matches Err(BspFileError::Io),
        *old(pos) + 4 <= buf.len() && i32_at(buf@, *old(pos) as int) == VERSION ==> r is Ok && *final(pos) == *old(pos) + 4,
        *old(pos) + 4 <= buf.len() && i32_at(buf@, *old(pos) as int) != VERSION ==> r
            == Err::<(), BspFileError>(BspFileError::UnsupportedVersion(i32_at(buf@, *old(pos) as int))),
{
    if buf.len() - *pos < 4 {
        return Err(BspFileError::Io);
    }
    let v = i32_le_at(buf, *pos);
    if v != VERSION {
        return Err(BspFileError::UnsupportedVersion(v));
    }
    *pos = *pos + 4;
    Ok(())
}

/// Whether the counts of a map's sections are within the engine's limits, and there is a
/// world model.
pub open spec fn limits_ok(t: BspFileTable) -> bool {
    &&& t.sections@[1].size / 20 <= MAX_PLANES
    &&& t.sections@[3].size / 12 <= MAX_VERTICES
    &&& t.sections@[4].size <= MAX_VISLIST
    &&& t.sections@[5].size / 24 <= MAX_RENDER_NODES
    &&& t.sections@[9].size / 8 <= MAX_COLLISION_NODES
    &&& t.sections@[10].size / 28 <= MAX_LEAVES
    &&& t.sections@[12].size / 4 <= MAX_EDGES
    &&& t.sections@[13].size / 4 <= MAX_EDGELIST
    &&& t.sections@[14].size / 64 > 0
    &&& t.sections@[14].size / 64 <= MAX_MODELS
}

/// Checks the counts of a map's sections against the engine's limits.
pub fn check_limits(t: &BspFileTable) -> (r: Result<(), BspError>)
    ensures
        r is Ok <==> limits_ok(*t),
        r matches Err(e) ==> e is Other,
{
    if t.sections[1].size / 20 > MAX_PLANES {
        return Err(BspError::with_msg("Plane count exceeds MAX_PLANES"));
    }
    if t.sections[3].size / 12 > MAX_VERTICES {
        return Err(BspError::with_msg("Vertex count exceeds MAX_VERTICES"));
    }
    if t.sections[4].size > MAX_VISLIST {
        return Err(BspError::with_msg("Visibility data size exceeds MAX_VISLIST"));
    }
    if t.sections[5].size / 24 > MAX_RENDER_NODES {
        return Err(BspError::with_msg("Render node count exceeds MAX_RENDER_NODES"));
    }
    if t.sections[9].size / 8 > MAX_COLLISION_NODES {
        return Err(BspError::with_msg("Collision node count exceeds MAX_COLLISION_NODES"));
    }
    if t.sections[10].size / 28 > MAX_LEAVES {
        return Err(BspError::with_msg("Leaf count exceeds MAX_LEAVES"));
    }
    if t.sections[12].size / 4 > MAX_EDGES {
        return Err(BspError::with_msg("Edge count exceeds MAX_EDGES"));
    }
    if t.sections[13].size / 4 > MAX_EDGELIST {
        return Err(BspError::with_msg("Edge list count exceeds MAX_EDGELIST"));
    }
    if t.sections[14].size / 64 == 0 {
        return Err(BspError::with_msg("No brush models (need at least 1 for worldmodel)"));
    }
    if t.sections[14].size / 64 > MAX_MODELS {
        return Err(BspError::with_msg("Model count exceeds MAX_MODELS"));
    }
    Ok(())
}

/// The child of a rendering node that a stored number names: a node, or, where it is negative,
/// the leaf its complement names.
pub open spec fn render_child(x: i16) -> BspRenderNodeChild {
    if x < 0 {
        BspRenderNodeChild::Leaf((-1 - x) as usize)
    } else {
        BspRenderNodeChild::Node(x as usize)
    }
}

/// The three `i16` at `p`.
pub open spec fn i16x3(s: Seq<u8>, p: int) -> Seq<i16> {
    seq![i16_at(s, p), i16_at(s, p + 2), i16_at(s, p + 4)]
}

/// Whether the rendering node at `p` is valid: its plane and its first face are not negative.
pub open spec fn render_node_valid(s: Seq<u8>, p: int) -> bool {
    i32_at(s, p) >= 0 && i16_at(s, p + 20) >= 0
}

/// Reading a rendering node never panics.
pub open spec fn render_node_panics(s: Seq<u8>, p: int) -> bool {
    false
}

/// Whether `n` is the rendering node stored at `p`.
pub open spec fn render_node_is(s: Seq<u8>, p: int, n: BspRenderNode) -> bool {
    &&& n.plane_id == i32_at(s, p) as usize
    &&& n.children@ == seq![render_child(i16_at(s, p + 4)), render_child(i16_at(s, p + 6))]
    &&& n.min@ == i16x3(s, p + 8)
    &&& n.max@ == i16x3(s, p + 14)
    &&& n.face_id == i16_at(s, p + 20) as usize
    &&& n.face_count == u16_at(s, p + 22) as usize
}

fn render_child_of(x: i16) -> (r: BspRenderNodeChild)
    ensures
        r == render_child(x),
{
    if x < 0 {
        assert(!x == -1 - x && !x >= 0) by (bit_vector)
            requires x < 0;
        BspRenderNodeChild::Leaf((!x) as usize)
    } else {
        BspRenderNodeChild::Node(x as usize)
    }
}

fn i16x3_at(buf: &[u8], p: usize) -> (r: [i16; 3])
    requires
        p + 6 <= buf.len(),
    ensures
        r@ == i16x3(buf@, p as int),
{
    let r = [i16_le_at(buf, p), i16_le_at(buf, p + 2), i16_le_at(buf, p + 4)];
    assert(r@ =~= i16x3(buf@, p as int));
    r
}

/// Reads the rendering node at `p`.
pub fn read_render_node(buf: &[u8], p: usize) -> (r: Result<BspRenderNode, BspError>)
    requires
        p + 24 <= buf.len(),
    ensures
        r is Ok <==> render_node_valid(buf@, p as int),
        r matches Ok(n) ==> render_node_is(buf@, p as int, n),
        r matches Err(e) ==> e is Other,
{
    let plane_id = i32_le_at(buf, p);
    if plane_id < 0 {
        return Err(BspError::with_msg("Invalid plane id"));
    }
    let front = render_child_of(i16_le_at(buf, p + 4));
    let back = render_child_of(i16_le_at(buf, p + 6));
    let min = i16x3_at(buf, p + 8);
    let max = i16x3_at(buf, p + 14);
    let face_id = i16_le_at(buf, p + 20);
    if face_id < 0 {
        return Err(BspError::with_msg("Invalid face id"));
    }
    let face_count = u16_le_at(buf, p + 22);
    if face_count as usize > super::load::MAX_FACES {
        return Err(BspError::with_msg("Invalid face count"));
    }
    let n = BspRenderNode {
        plane_id: plane_id as usize,
        children: [front, back],
        min,
        max,
        face_id: face_id as usize,
        face_count: face_count as usize,
    };
    assert(n.children@ =~= seq![front, back]);
    Ok(n)
}

/// Whether the element `i` of `size` bytes of a section at `offset` lies within the data.
pub open spec fn fits(s: Seq<u8>, offset: int, size: int, i: int) -> bool {
    offset + size * (i + 1) <= s.len()
}

/// Whether the element `i` of the section at `offset` is a valid render node.
pub open spec fn render_node_valid_at(s: Seq<u8>, offset: int, i: int) -> bool {
    render_node_valid(s, offset + 24 * i)
}

/// Whether `x` is the element `i` of the section at `offset`.
pub open spec fn render_node_is_at(s: Seq<u8>, offset: int, i: int, x: BspRenderNode) -> bool {
    render_node_is(s, offset + 24 * i, x)
}

/// Whether reading the element `i` of the section at `offset` panics.
pub open spec fn render_node_panics_at(s: Seq<u8>, offset: int, i: int) -> bool {
    render_node_panics(s, offset + 24 * i)
}

/// Loads the rendering nodes: `size / 24` elements from `offset`, each checked, the first failure deciding
/// the error.
#[verifier::spinoff_prover]
pub fn load_render_nodes(buf: &[u8], offset: u64, size: usize) -> (r: Result<Vec<BspRenderNode>, BspError>)
    requires
        forall|i: int| 0 <= i < size / 24 && #[trigger] fits(buf@, offset as int, 24, i) ==> !render_node_panics_at(buf@, offset as int, i),
    ensures
        r is Ok <==> forall|i: int| 0 <= i < size / 24 ==> #[trigger] fits(buf@, offset as int, 24, i) && render_node_valid_at(buf@, offset as int, i),
        r matches Ok(v) ==> v@.len() == size / 24 && forall|i: int| 0 <= i < size / 24 ==> #[trigger] render_node_is_at(buf@, offset as int, i, v@[i]),
        r matches Err(e) ==> exists|i: int| 0 <= i < size / 24 && (forall|j: int| 0 <= j < i ==> #[trigger] fits(buf@, offset as int, 24, j) && render_node_valid_at(buf@, offset as int, j)) && if #[trigger] fits(buf@, offset as int, 24, i) {
            !render_node_valid_at(buf@, offset as int, i) && e is Other
        } else {
            e is Io
        },
{
    let count = size / 24;
    let mut v: Vec<BspRenderNode> = Vec::new();
    if count == 0 {
        return Ok(v);
    }
    if offset > buf.len() as u64 {
        assert(!fits(buf@, offset as int, 24, 0));
        return Err(BspError::Io);
    }
    let mut p: usize = offset as usize;
    let mut i: usize = 0;
    while i < count
        invariant
            count == size / 24,
            p == offset + 24 * i,
            p <= buf.len(),
            i <= count,
            v@.len() == i,
            forall|k: int| 0 <= k < i ==> #[trigger] fits(buf@, offset as int, 24, k) && render_node_valid_at(buf@, offset as int, k),
            forall|k: int| 0 <= k < i ==> #[trigger] render_node_is_at(buf@, offset as int, k, v@[k]),
            forall|k: int| 0 <= k < size / 24 && #[trigger] fits(buf@, offset as int, 24, k) ==> !render_node_panics_at(buf@, offset as int, k),
        decreases count - i,
    {
        if buf.len() - p < 24 {
            assert(!fits(buf@, offset as int, 24, i as int));
            return Err(BspError::Io);
        }
        assert(fits(buf@, offset as int, 24, i as int));
        let e = match read_render_node(buf, p) {
            Ok(e) => e,
            Err(e) => {
                return Err(e);
            },
        };
        assert(render_node_valid_at(buf@, offset as int, i as int));
        assert(render_node_is_at(buf@, offset as int, i as int, e));
        let ghost before = v@;
        v.push(e);
        assert(forall|k: int| 0 <= k < i ==> v@[k] == before[k]);
        p = p + 24;
        i = i + 1;
        assert forall|k: int| 0 <= k < i implies #[trigger] fits(buf@, offset as int, 24, k) && render_node_valid_at(buf@, offset as int, k) by {
            if k < i - 1 {
                assert(fits(buf@, offset as int, 24, k));
            }
        }
    }
    Ok(v)
}

/// The bytes `p .. p + n`.
pub open spec fn bytes_at(s: Seq<u8>, p: int, n: int) -> Seq<u8> {
    s.subrange(p, p + n)
}

fn bytes4_at(buf: &[u8], p: usize) -> (r: [u8; 4])
    requires
        p + 4 <= buf.len(),
    ensures
        r@ == bytes_at(buf@, p as int, 4),
{
    let r = [buf[p], buf[p + 1], buf[p + 2], buf[p + 3]];
    assert(r@ =~= bytes_at(buf@, p as int, 4));
    r
}

/// Whether the face at `p` is valid: its plane and texture information within their counts,
/// its side 0 or 1, its first edge not negative, at least three edges, and a lightmap offset of
/// -1 (none) or more.
pub open spec fn face_valid(s: Seq<u8>, p: int, plane_count: usize, texinfo_count: usize) -> bool {
    &&& 0 <= i16_at(s, p) <= plane_count
    &&& (i16_at(s, p + 2) == 0 || i16_at(s, p + 2) == 1)
    &&& i32_at(s, p + 4) >= 0
    &&& i16_at(s, p + 8) >= 3
    &&& 0 <= i16_at(s, p + 10) <= texinfo_count
    &&& i32_at(s, p + 16) >= -1
}

/// Reading a face never panics.
pub open spec fn face_panics(s: Seq<u8>, p: int, plane_count: usize, texinfo_count: usize) -> bool {
    false
}

/// Whether `f` is the face stored at `p`; its texture extents are not stored and start at zero.
pub open spec fn face_is(s: Seq<u8>, p: int, plane_count: usize, texinfo_count: usize, f: BspFace) -> bool {
    &&& f.plane_id == i16_at(s, p) as usize
    &&& f.side == (if i16_at(s, p + 2) == 0 { BspFaceSide::Front } else { BspFaceSide::Back })
    &&& f.edge_id == i32_at(s, p + 4) as usize
    &&& f.edge_count == i16_at(s, p + 8) as usize
    &&& f.texinfo_id == i16_at(s, p + 10) as usize
    &&& f.light_styles@ == bytes_at(s, p + 12, 4)
    &&& f.lightmap_id == (if i32_at(s, p + 16) == -1 { None } else { Some(i32_at(s, p + 16) as usize) })
    &&& f.texture_mins@ == seq![0i16, 0i16]
    &&& f.extents@ == seq![0i16, 0i16]
}

/// Reads the face at `p`.
pub fn read_face(buf: &[u8], p: usize, plane_count: usize, texinfo_count: usize) -> (r: Result<BspFace, BspError>)
    requires
        p + 20 <= buf.len(),
    ensures
        r is Ok <==> face_valid(buf@, p as int, plane_count, texinfo_count),
        r matches Ok(f) ==> face_is(buf@, p as int, plane_count, texinfo_count, f),
        r matches Err(e) ==> e is Other,
{
    let plane_id = i16_le_at(buf, p);
    if plane_id < 0 || plane_id as usize > plane_count {
        return Err(BspError::with_msg("Invalid plane count"));
    }
    let side = match i16_le_at(buf, p + 2) {
        0 => BspFaceSide::Front,
        1 => BspFaceSide::Back,
        _ => {
            return Err(BspError::with_msg("Invalid face side"));
        },
    };
    let edge_id = i32_le_at(buf, p + 4);
    if edge_id < 0 {
        return Err(BspError::with_msg("Invalid edge ID"));
    }
    let edge_count = i16_le_at(buf, p + 8);
    if edge_count < 3 {
        return Err(BspError::with_msg("Invalid edge count"));
    }
    let texinfo_id = i16_le_at(buf, p + 10);
    if texinfo_id < 0 || texinfo_id as usize > texinfo_count {
        return Err(BspError::with_msg("Invalid texinfo ID"));
    }
    let light_styles = bytes4_at(buf, p + 12);
    let lm = i32_le_at(buf, p + 16);
    let lightmap_id = if lm < -1 {
        return Err(BspError::with_msg("Invalid lightmap offset"));
    } else if lm == -1 {
        None
    } else {
        Some(lm as usize)
    };
    let f = BspFace {
        plane_id: plane_id as usize,
        side,
        edge_id: edge_id as usize,
        edge_count: edge_count as usize,
        texinfo_id: texinfo_id as usize,
        light_styles,
        lightmap_id,
        texture_mins: [0, 0],
        extents: [0, 0],
    };
    assert(f.texture_mins@ =~= seq![0i16, 0i16]);
    assert(f.extents@ =~= seq![0i16, 0i16]);
    Ok(f)
}

/// The child of a collision node that a stored number names: a node, or, where it is
/// negative, the contents whose code is its negation, if there are such contents.
pub open spec fn collision_child(x: i16) -> Option<BspCollisionNodeChild> {
    if x < 0 {
        match BspLeafContents::spec_from_i32(-x as i32) {
            Some(c) => Some(BspCollisionNodeChild::Contents(c)),
            None => None,
        }
    } else {
        Some(BspCollisionNodeChild::Node(x as usize))
    }
}

/// Whether the collision node at `p` is valid: its plane not negative, and each child a node
/// or known contents.
pub open spec fn collision_node_valid(s: Seq<u8>, p: int) -> bool {
    &&& i32_at(s, p) >= 0
    &&& collision_child(i16_at(s, p + 4)) is Some
    &&& collision_child(i16_at(s, p + 6)) is Some
}

/// Reading the collision node at `p` panics where a child is the one number whose negation
/// overflows.
pub open spec fn collision_node_panics(s: Seq<u8>, p: int) -> bool {
    &&& i32_at(s, p) >= 0
    &&& (i16_at(s, p + 4) == i16::MIN || (collision_child(i16_at(s, p + 4)) is Some && i16_at(s, p + 6)
        == i16::MIN))
}

/// Whether `n` is the collision node stored at `p`.
pub open spec fn collision_node_is(s: Seq<u8>, p: int, n: BspCollisionNode) -> bool {
    &&& n.plane_id == i32_at(s, p) as usize
    &&& n.children@ == seq![
        collision_child(i16_at(s, p + 4))->0,
        collision_child(i16_at(s, p + 6))->0,
    ]
}

fn collision_child_of(x: i16) -> (r: Option<BspCollisionNodeChild>)
    requires
        x != i16::MIN,
    ensures
        r == collision_child(x),
{
    if x < 0 {
        match BspLeafContents::from_i32(-(x as i32)) {
            Some(c) => Some(BspCollisionNodeChild::Contents(c)),
            None => None,
        }
    } else {
        Some(BspCollisionNodeChild::Node(x as usize))
    }
}

/// Reads the collision node at `p`.
pub fn read_collision_node(buf: &[u8], p: usize) -> (r: Result<BspCollisionNode, BspError>)
    requires
        p + 8 <= buf.len(),
        !collision_node_panics(buf@, p as int),
    ensures
        r is Ok <==> collision_node_valid(buf@, p as int),
        r matches Ok(n) ==> collision_node_is(buf@, p as int, n),
        r matches Err(e) ==> e is Other,
{
    let plane_id = i32_le_at(buf, p);
    if plane_id < 0 {
        return Err(BspError::with_msg("Invalid plane id"));
    }
    let fx = i16_le_at(buf, p + 4);
    let front = match collision_child_of(fx) {
        Some(c) => c,
        None => {
            return Err(BspError::with_msg("Invalid leaf contents"));
        },
    };
    let bx = i16_le_at(buf, p + 6);
    let back = match collision_child_of(bx) {
        Some(c) => c,
        None => {
            return Err(BspError::with_msg("Invalid leaf contents"));
        },
    };
    let n = BspCollisionNode { plane_id: plane_id as usize, children: [front, back] };
    assert(n.children@ =~= seq![front, back]);
    Ok(n)
}

/// Whether the leaf at `p` is valid: known contents, and a visibility offset of -1 (none) or
/// more.
pub open spec fn leaf_valid(s: Seq<u8>, p: int) -> bool {
    &&& BspLeafContents::spec_from_i32((-i32_at(s, p)) as i32) is Some
    &&& i32_at(s, p + 4) >= -1
}

/// Reading the leaf at `p` panics where its contents are the one number whose negation
/// overflows.
pub open spec fn leaf_panics(s: Seq<u8>, p: int) -> bool {
    i32_at(s, p) == i32::MIN
}

/// Whether `l` is the leaf stored at `p`.
pub open spec fn leaf_is(s: Seq<u8>, p: int, l: BspLeaf) -> bool {
    &&& Some(l.contents) == BspLeafContents::spec_from_i32((-i32_at(s, p)) as i32)
    &&& l.vis_offset == (if i32_at(s, p + 4) == -1 { None } else { Some(i32_at(s, p + 4) as usize) })
    &&& l.min@ == i16x3(s, p + 8)
    &&& l.max@ == i16x3(s, p + 14)
    &&& l.facelist_id == u16_at(s, p + 20) as usize
    &&& l.facelist_count == u16_at(s, p + 22) as usize
    &&& l.sounds@ == bytes_at(s, p + 24, 4)
}

/// Reads the leaf at `p`.
pub fn read_leaf(buf: &[u8], p: usize) -> (r: Result<BspLeaf, BspError>)
    requires
        p + 28 <= buf.len(),
        !leaf_panics(buf@, p as int),
    ensures
        r is Ok <==> leaf_valid(buf@, p as int),
        r matches Ok(l) ==> leaf_is(buf@, p as int, l),
        r matches Err(e) ==> e is Other,
{
    let contents_id = -i32_le_at(buf, p);
    let contents = match BspLeafContents::from_i32(contents_id) {
        Some(c) => c,
        None => {
            return Err(BspError::with_msg("Invalid leaf contents"));
        },
    };
    let vis = i32_le_at(buf, p + 4);
    let vis_offset = if vis < -1 {
        return Err(BspError::with_msg("Invalid visibility data offset"));
    } else if vis == -1 {
        None
    } else {
        Some(vis as usize)
    };
    let min = i16x3_at(buf, p + 8);
    let max = i16x3_at(buf, p + 14);
    let facelist_id = u16_le_at(buf, p + 20) as usize;
    let facelist_count = u16_le_at(buf, p + 22) as usize;
    let sounds = bytes4_at(buf, p + 24);
    Ok(BspLeaf { contents, vis_offset, min, max, facelist_id, facelist_count, sounds })
}

/// Every entry of the face list is valid.
pub open spec fn facelist_entry_valid(s: Seq<u8>, p: int) -> bool {
    true
}

/// Reading an entry of the face list never panics.
pub open spec fn facelist_entry_panics(s: Seq<u8>, p: int) -> bool {
    false
}

/// Whether `x` is the entry of the face list stored at `p`.
pub open spec fn facelist_entry_is(s: Seq<u8>, p: int, x: usize) -> bool {
    x == u16_at(s, p) as usize
}

/// Reads the entry of the face list at `p`.
pub fn read_facelist_entry(buf: &[u8], p: usize) -> (r: Result<usize, BspError>)
    requires
        p + 2 <= buf.len(),
    ensures
        r matches Ok(x) && facelist_entry_is(buf@, p as int, x),
{
    Ok(u16_le_at(buf, p) as usize)
}

/// Every edge is valid.
pub open spec fn edge_valid(s: Seq<u8>, p: int) -> bool {
    true
}

/// Reading an edge never panics.
pub open spec fn edge_panics(s: Seq<u8>, p: int) -> bool {
    false
}

/// Whether `e` is the edge stored at `p`.
pub open spec fn edge_is(s: Seq<u8>, p: int, e: BspEdge) -> bool {
    e.vertex_ids@ == seq![u16_at(s, p), u16_at(s, p + 2)]
}

/// Reads the edge at `p`.
pub fn read_edge(buf: &[u8], p: usize) -> (r: Result<BspEdge, BspError>)
    requires
        p + 4 <= buf.len(),
    ensures
        r matches Ok(e) && edge_is(buf@, p as int, e),
{
    let e = BspEdge { vertex_ids: [u16_le_at(buf, p), u16_le_at(buf, p + 2)] };
    assert(e.vertex_ids@ =~= seq![u16_at(buf@, p as int), u16_at(buf@, p + 2)]);
    Ok(e)
}

/// Every entry of the edge list is valid.
pub open spec fn edge_index_valid(s: Seq<u8>, p: int) -> bool {
    true
}

/// Reading an entry of the edge list panics on the one number whose negation overflows.
pub open spec fn edge_index_panics(s: Seq<u8>, p: int) -> bool {
    i32_at(s, p) == i32::MIN
}

/// Whether `e` is the entry of the edge list stored at `p`: an edge walked forwards, or, where
/// the number is negative, the edge its negation names walked backwards.
pub open spec fn edge_index_is(s: Seq<u8>, p: int, e: BspEdgeIndex) -> bool {
    if i32_at(s, p) >= 0 {
        e.direction == BspEdgeDirection::Forward && e.index == i32_at(s, p) as usize
    } else {
        e.direction == BspEdgeDirection::Backward && e.index == (-i32_at(s, p)) as usize
    }
}

/// Reads the entry of the edge list at `p`.
pub fn read_edge_index(buf: &[u8], p: usize) -> (r: Result<BspEdgeIndex, BspError>)
    requires
        p + 4 <= buf.len(),
        !edge_index_panics(buf@, p as int),
    ensures
        r matches Ok(e) && edge_index_is(buf@, p as int, e),
{
    let x = i32_le_at(buf, p);
    if x >= 0 {
        Ok(BspEdgeIndex { direction: BspEdgeDirection::Forward, index: x as usize })
    } else {
        Ok(BspEdgeIndex { direction: BspEdgeDirection::Backward, index: (-x) as usize })
    }
}

/// Whether the element `i` of the section at `offset` is a valid face.
pub open spec fn face_valid_at(s: Seq<u8>, offset: int, i: int, plane_count: usize, texinfo_count: usize) -> bool {
    face_valid(s, offset + 20 * i, plane_count, texinfo_count)
}

/// Whether `x` is the element `i` of the section at `offset`.
pub open spec fn face_is_at(s: Seq<u8>, offset: int, i: int, plane_count: usize, texinfo_count: usize, x: BspFace) -> bool {
    face_is(s, offset + 20 * i, plane_count, texinfo_count, x)
}

/// Whether reading the element `i` of the section at `offset` panics.
pub open spec fn face_panics_at(s: Seq<u8>, offset: int, i: int, plane_count: usize, texinfo_count: usize) -> bool {
    face_panics(s, offset + 20 * i, plane_count, texinfo_count)
}

/// Loads the faces: `size / 20` elements from `offset`, each checked, the first failure deciding
/// the error.
#[verifier::spinoff_prover]
pub fn load_faces(buf: &[u8], offset: u64, size: usize, plane_count: usize, texinfo_count: usize) -> (r: Result<Vec<BspFace>, BspError>)
    requires
        forall|i: int| 0 <= i < size / 20 && #[trigger] fits(buf@, offset as int, 20, i) ==> !face_panics_at(buf@, offset as int, i, plane_count, texinfo_count),
    ensures
        r is Ok <==> forall|i: int| 0 <= i < size / 20 ==> #[trigger] fits(buf@, offset as int, 20, i) && face_valid_at(buf@, offset as int, i, plane_count, texinfo_count),
        r matches Ok(v) ==> v@.len() == size / 20 && forall|i: int| 0 <= i < size / 20 ==> #[trigger] face_is_at(buf@, offset as int, i, plane_count, texinfo_count, v@[i]),
        r matches Err(e) ==> exists|i: int| 0 <= i < size / 20 && (forall|j: int| 0 <= j < i ==> #[trigger] fits(buf@, offset as int, 20, j) && face_valid_at(buf@, offset as int, j, plane_count, texinfo_count)) && if #[trigger] fits(buf@, offset as int, 20, i) {
            !face_valid_at(buf@, offset as int, i, plane_count, texinfo_count) && e is Other
        } else {
            e is Io
        },
{
    let count = size / 20;
    let mut v: Vec<BspFace> = Vec::new();
    if count == 0 {
        return Ok(v);
    }
    if offset > buf.len() as u64 {
        assert(!fits(buf@, offset as int, 20, 0));
        return Err(BspError::Io);
    }
    let mut p: usize = offset as usize;
    let mut i: usize = 0;
    while i < count
        invariant
            count == size / 20,
            p == offset + 20 * i,
            p <= buf.len(),
            i <= count,
            v@.len() == i,
            forall|k: int| 0 <= k < i ==> #[trigger] fits(buf@, offset as int, 20, k) && face_valid_at(buf@, offset as int, k, plane_count, texinfo_count),
            forall|k: int| 0 <= k < i ==> #[trigger] face_is_at(buf@, offset as int, k, plane_count, texinfo_count, v@[k]),
            forall|k: int| 0 <= k < size / 20 && #[trigger] fits(buf@, offset as int, 20, k) ==> !face_panics_at(buf@, offset as int, k, plane_count, texinfo_count),
        decreases count - i,
    {
        if buf.len() - p < 20 {
            assert(!fits(buf@, offset as int, 20, i as int));
            return Err(BspError::Io);
        }
        assert(fits(buf@, offset as int, 20, i as int));
        let e = match read_face(buf, p, plane_count, texinfo_count) {
            Ok(e) => e,
            Err(e) => {
                return Err(e);
            },
        };
        assert(face_valid_at(buf@, offset as int, i as int, plane_count, texinfo_count));
        assert(face_is_at(buf@, offset as int, i as int, plane_count, texinfo_count, e));
        let ghost before = v@;
        v.push(e);
        assert(forall|k: int| 0 <= k < i ==> v@[k] == before[k]);
        p = p + 20;
        i = i + 1;
        assert forall|k: int| 0 <= k < i implies #[trigger] fits(buf@, offset as int, 20, k) && face_valid_at(buf@, offset as int, k, plane_count, texinfo_count) by {
            if k < i - 1 {
                assert(fits(buf@, offset as int, 20, k));
            }
        }
    }
    Ok(v)
}

/// Whether the element `i` of the section at `offset` is a valid collision node.
pub open spec fn collision_node_valid_at(s: Seq<u8>, offset: int, i: int) -> bool {
    collision_node_valid(s, offset + 8 * i)
}

/// Whether `x` is the element `i` of the section at `offset`.
pub open spec fn collision_node_is_at(s: Seq<u8>, offset: int, i: int, x: BspCollisionNode) -> bool {
    collision_node_is(s, offset + 8 * i, x)
}

/// Whether reading the element `i` of the section at `offset` panics.
pub open spec fn collision_node_panics_at(s: Seq<u8>, offset: int, i: int) -> bool {
    collision_node_panics(s, offset + 8 * i)
}

/// Loads the collision nodes: `size / 8` elements from `offset`, each checked, the first failure deciding
/// the error.
#[verifier::spinoff_prover]
pub fn load_collision_nodes(buf: &[u8], offset: u64, size: usize) -> (r: Result<Vec<BspCollisionNode>, BspError>)
    requires
        forall|i: int| 0 <= i < size / 8 && #[trigger] fits(buf@, offset as int, 8, i) ==> !collision_node_panics_at(buf@, offset as int, i),
    ensures
        r is Ok <==> forall|i: int| 0 <= i < size / 8 ==> #[trigger] fits(buf@, offset as int, 8, i) && collision_node_valid_at(buf@, offset as int, i),
        r matches Ok(v) ==> v@.len() == size / 8 && forall|i: int| 0 <= i < size / 8 ==> #[trigger] collision_node_is_at(buf@, offset as int, i, v@[i]),
        r matches Err(e) ==> exists|i: int| 0 <= i < size / 8 && (forall|j: int| 0 <= j < i ==> #[trigger] fits(buf@, offset as int, 8, j) && collision_node_valid_at(buf@, offset as int, j)) && if #[trigger] fits(buf@, offset as int, 8, i) {
            !collision_node_valid_at(buf@, offset as int, i) && e is Other
        } else {
            e is Io
        },
{
    let count = size / 8;
    let mut v: Vec<BspCollisionNode> = Vec::new();
    if count == 0 {
        return Ok(v);
    }
    if offset > buf.len() as u64 {
        assert(!fits(buf@, offset as int, 8, 0));
        return Err(BspError::Io);
    }
    let mut p: usize = offset as usize;
    let mut i: usize = 0;
    while i < count
        invariant
            count == size / 8,
            p == offset + 8 * i,
            p <= buf.len(),
            i <= count,
            v@.len() == i,
            forall|k: int| 0 <= k < i ==> #[trigger] fits(buf@, offset as int, 8, k) && collision_node_valid_at(buf@, offset as int, k),
            forall|k: int| 0 <= k < i ==> #[trigger] collision_node_is_at(buf@, offset as int, k, v@[k]),
            forall|k: int| 0 <= k < size / 8 && #[trigger] fits(buf@, offset as int, 8, k) ==> !collision_node_panics_at(buf@, offset as int, k),
        decreases count - i,
    {
        if buf.len() - p < 8 {
            assert(!fits(buf@, offset as int, 8, i as int));
            return Err(BspError::Io);
        }
        assert(fits(buf@, offset as int, 8, i as int));
        let e = match read_collision_node(buf, p) {
            Ok(e) => e,
            Err(e) => {
                return Err(e);
            },
        };
        assert(collision_node_valid_at(buf@, offset as int, i as int));
        assert(collision_node_is_at(buf@, offset as int, i as int, e));
        let ghost before = v@;
        v.push(e);
        assert(forall|k: int| 0 <= k < i ==> v@[k] == before[k]);
        p = p + 8;
        i = i + 1;
        assert forall|k: int| 0 <= k < i implies #[trigger] fits(buf@, offset as int, 8, k) && collision_node_valid_at(buf@, offset as int, k) by {
            if k < i - 1 {
                assert(fits(buf@, offset as int, 8, k));
            }
        }
    }
    Ok(v)
}

/// Whether the element `i` of the section at `offset` is a valid leaf.
pub open spec fn leaf_valid_at(s: Seq<u8>, offset: int, i: int) -> bool {
    leaf_valid(s, offset + 28 * i)
}

/// Whether `x` is the element `i` of the section at `offset`.
pub open spec fn leaf_is_at(s: Seq<u8>, offset: int, i: int, x: BspLeaf) -> bool {
    leaf_is(s, offset + 28 * i, x)
}

/// Whether reading the element `i` of the section at `offset` panics.
pub open spec fn leaf_panics_at(s: Seq<u8>, offset: int, i: int) -> bool {
    leaf_panics(s, offset + 28 * i)
}

/// Loads the leaves: `size / 28` elements from `offset`, each checked, the first failure deciding
/// the error.
#[verifier::spinoff_prover]
pub fn load_leaves(buf: &[u8], offset: u64, size: usize) -> (r: Result<Vec<BspLeaf>, BspError>)
    requires
        forall|i: int| 0 <= i < size / 28 && #[trigger] fits(buf@, offset as int, 28, i) ==> !leaf_panics_at(buf@, offset as int, i),
    ensures
        r is Ok <==> forall|i: int| 0 <= i < size / 28 ==> #[trigger] fits(buf@, offset as int, 28, i) && leaf_valid_at(buf@, offset as int, i),
        r matches Ok(v) ==> v@.len() == size / 28 && forall|i: int| 0 <= i < size / 28 ==> #[trigger] leaf_is_at(buf@, offset as int, i, v@[i]),
        r matches Err(e) ==> exists|i: int| 0 <= i < size / 28 && (forall|j: int| 0 <= j < i ==> #[trigger] fits(buf@, offset as int, 28, j) && leaf_valid_at(buf@, offset as int, j)) && if #[trigger] fits(buf@, offset as int, 28, i) {
            !leaf_valid_at(buf@, offset as int, i) && e is Other
        } else {
            e is Io
        },
{
    let count = size / 28;
    let mut v: Vec<BspLeaf> = Vec::new();
    if count == 0 {
        return Ok(v);
    }
    if offset > buf.len() as u64 {
        assert(!fits(buf@, offset as int, 28, 0));
        return Err(BspError::Io);
    }
    let mut p: usize = offset as usize;
    let mut i: usize = 0;
    while i < count
        invariant
            count == size / 28,
            p == offset + 28 * i,
            p <= buf.len(),
            i <= count,
            v@.len() == i,
            forall|k: int| 0 <= k < i ==> #[trigger] fits(buf@, offset as int, 28, k) && leaf_valid_at(buf@, offset as int, k),
            forall|k: int| 0 <= k < i ==> #[trigger] leaf_is_at(buf@, offset as int, k, v@[k]),
            forall|k: int| 0 <= k < size / 28 && #[trigger] fits(buf@, offset as int, 28, k) ==> !leaf_panics_at(buf@, offset as int, k),
        decreases count - i,
    {
        if buf.len() - p < 28 {
            assert(!fits(buf@, offset as int, 28, i as int));
            return Err(BspError::Io);
        }
        assert(fits(buf@, offset as int, 28, i as int));
        let e = match read_leaf(buf, p) {
            Ok(e) => e,
            Err(e) => {
                return Err(e);
            },
        };
        assert(leaf_valid_at(buf@, offset as int, i as int));
        assert(leaf_is_at(buf@, offset as int, i as int, e));
        let ghost before = v@;
        v.push(e);
        assert(forall|k: int| 0 <= k < i ==> v@[k] == before[k]);
        p = p + 28;
        i = i + 1;
        assert forall|k: int| 0 <= k < i implies #[trigger] fits(buf@, offset as int, 28, k) && leaf_valid_at(buf@, offset as int, k) by {
            if k < i - 1 {
                assert(fits(buf@, offset as int, 28, k));
            }
        }
    }
    Ok(v)
}

/// Whether the element `i` of the section at `offset` is a valid facelist entry.
pub open spec fn facelist_entry_valid_at(s: Seq<u8>, offset: int, i: int) -> bool {
    facelist_entry_valid(s, offset + 2 * i)
}

/// Whether `x` is the element `i` of the section at `offset`.
pub open spec fn facelist_entry_is_at(s: Seq<u8>, offset: int, i: int, x: usize) -> bool {
    facelist_entry_is(s, offset + 2 * i, x)
}

/// Whether reading the element `i` of the section at `offset` panics.
pub open spec fn facelist_entry_panics_at(s: Seq<u8>, offset: int, i: int) -> bool {
    facelist_entry_panics(s, offset + 2 * i)
}

/// Loads the face list: `size / 2` elements from `offset`, each checked, the first failure deciding
/// the error.
#[verifier::spinoff_prover]
pub fn load_face_list(buf: &[u8], offset: u64, size: usize) -> (r: Result<Vec<usize>, BspError>)
    requires
        forall|i: int| 0 <= i < size / 2 && #[trigger] fits(buf@, offset as int, 2, i) ==> !facelist_entry_panics_at(buf@, offset as int, i),
    ensures
        r is Ok <==> forall|i: int| 0 <= i < size / 2 ==> #[trigger] fits(buf@, offset as int, 2, i) && facelist_entry_valid_at(buf@, offset as int, i),
        r matches Ok(v) ==> v@.len() == size / 2 && forall|i: int| 0 <= i < size / 2 ==> #[trigger] facelist_entry_is_at(buf@, offset as int, i, v@[i]),
        r matches Err(e) ==> exists|i: int| 0 <= i < size / 2 && (forall|j: int| 0 <= j < i ==> #[trigger] fits(buf@, offset as int, 2, j) && facelist_entry_valid_at(buf@, offset as int, j)) && if #[trigger] fits(buf@, offset as int, 2, i) {
            !facelist_entry_valid_at(buf@, offset as int, i) && e is Other
        } else {
            e is Io
        },
{
    let count = size / 2;
    let mut v: Vec<usize> = Vec::new();
    if count == 0 {
        return Ok(v);
    }
    if offset > buf.len() as u64 {
        assert(!fits(buf@, offset as int, 2, 0));
        return Err(BspError::Io);
    }
    let mut p: usize = offset as usize;
    let mut i: usize = 0;
    while i < count
        invariant
            count == size / 2,
            p == offset + 2 * i,
            p <= buf.len(),
            i <= count,
            v@.len() == i,
            forall|k: int| 0 <= k < i ==> #[trigger] fits(buf@, offset as int, 2, k) && facelist_entry_valid_at(buf@, offset as int, k),
            forall|k: int| 0 <= k < i ==> #[trigger] facelist_entry_is_at(buf@, offset as int, k, v@[k]),
            forall|k: int| 0 <= k < size / 2 && #[trigger] fits(buf@, offset as int, 2, k) ==> !facelist_entry_panics_at(buf@, offset as int, k),
        decreases count - i,
    {
        if buf.len() - p < 2 {
            assert(!fits(buf@, offset as int, 2, i as int));
            return Err(BspError::Io);
        }
        assert(fits(buf@, offset as int, 2, i as int));
        let e = match read_facelist_entry(buf, p) {
            Ok(e) => e,
            Err(e) => {
                return Err(e);
            },
        };
        assert(facelist_entry_valid_at(buf@, offset as int, i as int));
        assert(facelist_entry_is_at(buf@, offset as int, i as int, e));
        let ghost before = v@;
        v.push(e);
        assert(forall|k: int| 0 <= k < i ==> v@[k] == before[k]);
        p = p + 2;
        i = i + 1;
        assert forall|k: int| 0 <= k < i implies #[trigger] fits(buf@, offset as int, 2, k) && facelist_entry_valid_at(buf@, offset as int, k) by {
            if k < i - 1 {
                assert(fits(buf@, offset as int, 2, k));
            }
        }
    }
    Ok(v)
}

/// Whether the element `i` of the section at `offset` is a valid edge.
pub open spec fn edge_valid_at(s: Seq<u8>, offset: int, i: int) -> bool {
    edge_valid(s, offset + 4 * i)
}

/// Whether `x` is the element `i` of the section at `offset`.
pub open spec fn edge_is_at(s: Seq<u8>, offset: int, i: int, x: BspEdge) -> bool {
    edge_is(s, offset + 4 * i, x)
}

/// Whether reading the element `i` of the section at `offset` panics.
pub open spec fn edge_panics_at(s: Seq<u8>, offset: int, i: int) -> bool {
    edge_panics(s, offset + 4 * i)
}

/// Loads the edges: `size / 4` elements from `offset`, each checked, the first failure deciding
/// the error.
#[verifier::spinoff_prover]
pub fn load_edges(buf: &[u8], offset: u64, size: usize) -> (r: Result<Vec<BspEdge>, BspError>)
    requires
        forall|i: int| 0 <= i < size / 4 && #[trigger] fits(buf@, offset as int, 4, i) ==> !edge_panics_at(buf@, offset as int, i),
    ensures
        r is Ok <==> forall|i: int| 0 <= i < size / 4 ==> #[trigger] fits(buf@, offset as int, 4, i) && edge_valid_at(buf@, offset as int, i),
        r matches Ok(v) ==> v@.len() == size / 4 && forall|i: int| 0 <= i < size / 4 ==> #[trigger] edge_is_at(buf@, offset as int, i, v@[i]),
        r matches Err(e) ==> exists|i: int| 0 <= i < size / 4 && (forall|j: int| 0 <= j < i ==> #[trigger] fits(buf@, offset as int, 4, j) && edge_valid_at(buf@, offset as int, j)) && if #[trigger] fits(buf@, offset as int, 4, i) {
            !edge_valid_at(buf@, offset as int, i) && e is Other
        } else {
            e is Io
        },
{
    let count = size / 4;
    let mut v: Vec<BspEdge> = Vec::new();
    if count == 0 {
        return Ok(v);
    }
    if offset > buf.len() as u64 {
        assert(!fits(buf@, offset as int, 4, 0));
        return Err(BspError::Io);
    }
    let mut p: usize = offset as usize;
    let mut i: usize = 0;
    while i < count
        invariant
            count == size / 4,
            p == offset + 4 * i,
            p <= buf.len(),
            i <= count,
            v@.len() == i,
            forall|k: int| 0 <= k < i ==> #[trigger] fits(buf@, offset as int, 4, k) && edge_valid_at(buf@, offset as int, k),
            forall|k: int| 0 <= k < i ==> #[trigger] edge_is_at(buf@, offset as int, k, v@[k]),
            forall|k: int| 0 <= k < size / 4 && #[trigger] fits(buf@, offset as int, 4, k) ==> !edge_panics_at(buf@, offset as int, k),
        decreases count - i,
    {
        if buf.len() - p < 4 {
            assert(!fits(buf@, offset as int, 4, i as int));
            return Err(BspError::Io);
        }
        assert(fits(buf@, offset as int, 4, i as int));
        let e = match read_edge(buf, p) {
            Ok(e) => e,
            Err(e) => {
                return Err(e);
            },
        };
        assert(edge_valid_at(buf@, offset as int, i as int));
        assert(edge_is_at(buf@, offset as int, i as int, e));
        let ghost before = v@;
        v.push(e);
        assert(forall|k: int| 0 <= k < i ==> v@[k] == before[k]);
        p = p + 4;
        i = i + 1;
        assert forall|k: int| 0 <= k < i implies #[trigger] fits(buf@, offset as int, 4, k) && edge_valid_at(buf@, offset as int, k) by {
            if k < i - 1 {
                assert(fits(buf@, offset as int, 4, k));
            }
        }
    }
    Ok(v)
}

/// Whether the element `i` of the section at `offset` is a valid edge index.
pub open spec fn edge_index_valid_at(s: Seq<u8>, offset: int, i: int) -> bool {
    edge_index_valid(s, offset + 4 * i)
}

/// Whether `x` is the element `i` of the section at `offset`.
pub open spec fn edge_index_is_at(s: Seq<u8>, offset: int, i: int, x: BspEdgeIndex) -> bool {
    edge_index_is(s, offset + 4 * i, x)
}

/// Whether reading the element `i` of the section at `offset` panics.
pub open spec fn edge_index_panics_at(s: Seq<u8>, offset: int, i: int) -> bool {
    edge_index_panics(s, offset + 4 * i)
}

/// Loads the edge list: `size / 4` elements from `offset`, each checked, the first failure deciding
/// the error.
#[verifier::spinoff_prover]
pub fn load_edge_list(buf: &[u8], offset: u64, size: usize) -> (r: Result<Vec<BspEdgeIndex>, BspError>)
    requires
        forall|i: int| 0 <= i < size / 4 && #[trigger] fits(buf@, offset as int, 4, i) ==> !edge_index_panics_at(buf@, offset as int, i),
    ensures
        r is Ok <==> forall|i: int| 0 <= i < size / 4 ==> #[trigger] fits(buf@, offset as int, 4, i) && edge_index_valid_at(buf@, offset as int, i),
        r matches Ok(v) ==> v@.len() == size / 4 && forall|i: int| 0 <= i < size / 4 ==> #[trigger] edge_index_is_at(buf@, offset as int, i, v@[i]),
        r matches Err(e) ==> exists|i: int| 0 <= i < size / 4 && (forall|j: int| 0 <= j < i ==> #[trigger] fits(buf@, offset as int, 4, j) && edge_index_valid_at(buf@, offset as int, j)) && if #[trigger] fits(buf@, offset as int, 4, i) {
            !edge_index_valid_at(buf@, offset as int, i) && e is Other
        } else {
            e is Io
        },
{
    let count = size / 4;
    let mut v: Vec<BspEdgeIndex> = Vec::new();
    if count == 0 {
        return Ok(v);
    }
    if offset > buf.len() as u64 {
        assert(!fits(buf@, offset as int, 4, 0));
        return Err(BspError::Io);
    }
    let mut p: usize = offset as usize;
    let mut i: usize = 0;
    while i < count
        invariant
            count == size / 4,
            p == offset + 4 * i,
            p <= buf.len(),
            i <= count,
            v@.len() == i,
            forall|k: int| 0 <= k < i ==> #[trigger] fits(buf@, offset as int, 4, k) && edge_index_valid_at(buf@, offset as int, k),
            forall|k: int| 0 <= k < i ==> #[trigger] edge_index_is_at(buf@, offset as int, k, v@[k]),
            forall|k: int| 0 <= k < size / 4 && #[trigger] fits(buf@, offset as int, 4, k) ==> !edge_index_panics_at(buf@, offset as int, k),
        decreases count - i,
    {
        if buf.len() - p < 4 {
            assert(!fits(buf@, offset as int, 4, i as int));
            return Err(BspError::Io);
        }
        assert(fits(buf@, offset as int, 4, i as int));
        let e = match read_edge_index(buf, p) {
            Ok(e) => e,
            Err(e) => {
                return Err(e);
            },
        };
        assert(edge_index_valid_at(buf@, offset as int, i as int));
        assert(edge_index_is_at(buf@, offset as int, i as int, e));
        let ghost before = v@;
        v.push(e);
        assert(forall|k: int| 0 <= k < i ==> v@[k] == before[k]);
        p = p + 4;
        i = i + 1;
        assert forall|k: int| 0 <= k < i implies #[trigger] fits(buf@, offset as int, 4, k) && edge_index_valid_at(buf@, offset as int, k) by {
            if k < i - 1 {
                assert(fits(buf@, offset as int, 4, k));
            }
        }
    }
    Ok(v)
}

/// The `u32` at `p`.
pub open spec fn u32_at(s: Seq<u8>, p: int) -> u32 {
    seq_u32_le(s.skip(p))
}

/// The three `u32` at `p`.
pub open spec fn u32x3(s: Seq<u8>, p: int) -> Seq<u32> {
    seq![u32_at(s, p), u32_at(s, p + 4), u32_at(s, p + 8)]
}

fn u32x3_at(buf: &[u8], p: usize) -> (r: [u32; 3])
    requires
        p + 12 <= buf.len(),
    ensures
        r@ == u32x3(buf@, p as int),
{
    let r = [u32_le_at(buf, p), u32_le_at(buf, p + 4), u32_le_at(buf, p + 8)];
    assert(r@ =~= u32x3(buf@, p as int));
    r
}

/// Whether the texture information at `p` is valid: its texture within the count of
/// textures, and its flags 0 or 1.
pub open spec fn texinfo_valid(s: Seq<u8>, p: int, texture_count: usize) -> bool {
    &&& 0 <= i32_at(s, p + 32) <= texture_count
    &&& (i32_at(s, p + 36) == 0 || i32_at(s, p + 36) == 1)
}

/// Reading texture information never panics.
pub open spec fn texinfo_panics(s: Seq<u8>, p: int, texture_count: usize) -> bool {
    false
}

/// Whether `t` is the texture information stored at `p`.
pub open spec fn texinfo_is(s: Seq<u8>, p: int, texture_count: usize, t: BspTexInfoBits) -> bool {
    &&& t.s_vector@ == u32x3(s, p)
    &&& t.s_offset == u32_at(s, p + 12)
    &&& t.t_vector@ == u32x3(s, p + 16)
    &&& t.t_offset == u32_at(s, p + 28)
    &&& t.tex_id == i32_at(s, p + 32) as usize
    &&& t.special == (i32_at(s, p + 36) == 1)
}

/// Reads the texture information at `p`.
pub fn read_texinfo(buf: &[u8], p: usize, texture_count: usize) -> (r: Result<BspTexInfoBits, BspError>)
    requires
        p + 40 <= buf.len(),
    ensures
        r is Ok <==> texinfo_valid(buf@, p as int, texture_count),
        r matches Ok(t) ==> texinfo_is(buf@, p as int, texture_count, t),
        r matches Err(e) ==> e is Other,
{
    let s_vector = u32x3_at(buf, p);
    let s_offset = u32_le_at(buf, p + 12);
    let t_vector = u32x3_at(buf, p + 16);
    let t_offset = u32_le_at(buf, p + 28);
    let tex_id = i32_le_at(buf, p + 32);
    if tex_id < 0 || tex_id as usize > texture_count {
        return Err(BspError::with_msg("Invalid texture ID"));
    }
    let special = match i32_le_at(buf, p + 36) {
        0 => false,
        1 => true,
        _ => {
            return Err(BspError::with_msg("Invalid texture flags"));
        },
    };
    Ok(BspTexInfoBits { s_vector, s_offset, t_vector, t_offset, tex_id: tex_id as usize, special })
}

/// Whether the model at `p` is valid: its first three collision roots, its leaf count, its
/// first face and its face count are not negative.
pub open spec fn model_valid(s: Seq<u8>, p: int) -> bool {
    &&& i32_at(s, p + 36) >= 0
    &&& i32_at(s, p + 40) >= 0
    &&& i32_at(s, p + 44) >= 0
    &&& i32_at(s, p + 52) >= 0
    &&& i32_at(s, p + 56) >= 0
    &&& i32_at(s, p + 60) >= 0
}

/// Reading a model never panics.
pub open spec fn model_panics(s: Seq<u8>, p: int) -> bool {
    false
}

/// Whether `m` is the model stored at `p`; the fourth collision root is not kept.
pub open spec fn model_is(s: Seq<u8>, p: int, m: BspModelIndices) -> bool {
    &&& m.min@ == u32x3(s, p)
    &&& m.max@ == u32x3(s, p + 12)
    &&& m.origin@ == u32x3(s, p + 24)
    &&& m.collision_node_ids@ == seq![
        i32_at(s, p + 36) as usize,
        i32_at(s, p + 40) as usize,
        i32_at(s, p + 44) as usize,
    ]
    &&& m.leaf_count == i32_at(s, p + 52) as usize
    &&& m.face_id == i32_at(s, p + 56) as usize
    &&& m.face_count == i32_at(s, p + 60) as usize
}

/// Reads the model at `p`.
pub fn read_model(buf: &[u8], p: usize) -> (r: Result<BspModelIndices, BspError>)
    requires
        p + 64 <= buf.len(),
    ensures
        r is Ok <==> model_valid(buf@, p as int),
        r matches Ok(m) ==> model_is(buf@, p as int, m),
        r matches Err(e) ==> e is Other,
{
    let min = u32x3_at(buf, p);
    let max = u32x3_at(buf, p + 12);
    let origin = u32x3_at(buf, p + 24);
    let a = i32_le_at(buf, p + 36);
    if a < 0 {
        return Err(BspError::with_msg("Invalid collision tree root node"));
    }
    let b = i32_le_at(buf, p + 40);
    if b < 0 {
        return Err(BspError::with_msg("Invalid collision tree root node"));
    }
    let c = i32_le_at(buf, p + 44);
    if c < 0 {
        return Err(BspError::with_msg("Invalid collision tree root node"));
    }
    let leaf_count = i32_le_at(buf, p + 52);
    if leaf_count < 0 {
        return Err(BspError::with_msg("Invalid leaf count"));
    }
    let face_id = i32_le_at(buf, p + 56);
    if face_id < 0 {
        return Err(BspError::with_msg("Invalid face id"));
    }
    let face_count = i32_le_at(buf, p + 60);
    if face_count < 0 {
        return Err(BspError::with_msg("Invalid face count"));
    }
    let m = BspModelIndices {
        min,
        max,
        origin,
        collision_node_ids: [a as usize, b as usize, c as usize],
        leaf_count: leaf_count as usize,
        face_id: face_id as usize,
        face_count: face_count as usize,
    };
    assert(m.collision_node_ids@ =~= seq![a as usize, b as usize, c as usize]);
    Ok(m)
}

/// Whether the element `i` of the section at `offset` is a valid texinfo.
pub open spec fn texinfo_valid_at(s: Seq<u8>, offset: int, i: int, texture_count: usize) -> bool {
    texinfo_valid(s, offset + 40 * i, texture_count)
}

/// Whether `x` is the element `i` of the section at `offset`.
pub open spec fn texinfo_is_at(s: Seq<u8>, offset: int, i: int, texture_count: usize, x: BspTexInfoBits) -> bool {
    texinfo_is(s, offset + 40 * i, texture_count, x)
}

/// Whether reading the element `i` of the section at `offset` panics.
pub open spec fn texinfo_panics_at(s: Seq<u8>, offset: int, i: int, texture_count: usize) -> bool {
    texinfo_panics(s, offset + 40 * i, texture_count)
}

/// Loads the texture information: `size / 40` elements from `offset`, each checked, the first failure deciding
/// the error.
#[verifier::spinoff_prover]
pub fn load_texinfos(buf: &[u8], offset: u64, size: usize, texture_count: usize) -> (r: Result<Vec<BspTexInfoBits>, BspError>)
    requires
        forall|i: int| 0 <= i < size / 40 && #[trigger] fits(buf@, offset as int, 40, i) ==> !texinfo_panics_at(buf@, offset as int, i, texture_count),
    ensures
        r is Ok <==> forall|i: int| 0 <= i < size / 40 ==> #[trigger] fits(buf@, offset as int, 40, i) && texinfo_valid_at(buf@, offset as int, i, texture_count),
        r matches Ok(v) ==> v@.len() == size / 40 && forall|i: int| 0 <= i < size / 40 ==> #[trigger] texinfo_is_at(buf@, offset as int, i, texture_count, v@[i]),
        r matches Err(e) ==> exists|i: int| 0 <= i < size / 40 && (forall|j: int| 0 <= j < i ==> #[trigger] fits(buf@, offset as int, 40, j) && texinfo_valid_at(buf@, offset as int, j, texture_count)) && if #[trigger] fits(buf@, offset as int, 40, i) {
            !texinfo_valid_at(buf@, offset as int, i, texture_count) && e is Other
        } else {
            e is Io
        },
{
    let count = size / 40;
    let mut v: Vec<BspTexInfoBits> = Vec::new();
    if count == 0 {
        return Ok(v);
    }
    if offset > buf.len() as u64 {
        assert(!fits(buf@, offset as int, 40, 0));
        return Err(BspError::Io);
    }
    let mut p: usize = offset as usize;
    let mut i: usize = 0;
    while i < count
        invariant
            count == size / 40,
            p == offset + 40 * i,
            p <= buf.len(),
            i <= count,
            v@.len() == i,
            forall|k: int| 0 <= k < i ==> #[trigger] fits(buf@, offset as int, 40, k) && texinfo_valid_at(buf@, offset as int, k, texture_count),
            forall|k: int| 0 <= k < i ==> #[trigger] texinfo_is_at(buf@, offset as int, k, texture_count, v@[k]),
            forall|k: int| 0 <= k < size / 40 && #[trigger] fits(buf@, offset as int, 40, k) ==> !texinfo_panics_at(buf@, offset as int, k, texture_count),
        decreases count - i,
    {
        if buf.len() - p < 40 {
            assert(!fits(buf@, offset as int, 40, i as int));
            return Err(BspError::Io);
        }
        assert(fits(buf@, offset as int, 40, i as int));
        let e = match read_texinfo(buf, p, texture_count) {
            Ok(e) => e,
            Err(e) => {
                return Err(e);
            },
        };
        assert(texinfo_valid_at(buf@, offset as int, i as int, texture_count));
        assert(texinfo_is_at(buf@, offset as int, i as int, texture_count, e));
        let ghost before = v@;
        v.push(e);
        assert(forall|k: int| 0 <= k < i ==> v@[k] == before[k]);
        p = p + 40;
        i = i + 1;
        assert forall|k: int| 0 <= k < i implies #[trigger] fits(buf@, offset as int, 40, k) && texinfo_valid_at(buf@, offset as int, k, texture_count) by {
            if k < i - 1 {
                assert(fits(buf@, offset as int, 40, k));
            }
        }
    }
    Ok(v)
}

/// Whether the element `i` of the section at `offset` is a valid model.
pub open spec fn model_valid_at(s: Seq<u8>, offset: int, i: int) -> bool {
    model_valid(s, offset + 64 * i)
}

/// Whether `x` is the element `i` of the section at `offset`.
pub open spec fn model_is_at(s: Seq<u8>, offset: int, i: int, x: BspModelIndices) -> bool {
    model_is(s, offset + 64 * i, x)
}

/// Whether reading the element `i` of the section at `offset` panics.
pub open spec fn model_panics_at(s: Seq<u8>, offset: int, i: int) -> bool {
    model_panics(s, offset + 64 * i)
}

/// Loads the brush models: `size / 64` elements from `offset`, each checked, the first failure deciding
/// the error.
#[verifier::spinoff_prover]
pub fn load_models(buf: &[u8], offset: u64, size: usize) -> (r: Result<Vec<BspModelIndices>, BspError>)
    requires
        forall|i: int| 0 <= i < size / 64 && #[trigger] fits(buf@, offset as int, 64, i) ==> !model_panics_at(buf@, offset as int, i),
    ensures
        r is Ok <==> forall|i: int| 0 <= i < size / 64 ==> #[trigger] fits(buf@, offset as int, 64, i) && model_valid_at(buf@, offset as int, i),
        r matches Ok(v) ==> v@.len() == size / 64 && forall|i: int| 0 <= i < size / 64 ==> #[trigger] model_is_at(buf@, offset as int, i, v@[i]),
        r matches Err(e) ==> exists|i: int| 0 <= i < size / 64 && (forall|j: int| 0 <= j < i ==> #[trigger] fits(buf@, offset as int, 64, j) && model_valid_at(buf@, offset as int, j)) && if #[trigger] fits(buf@, offset as int, 64, i) {
            !model_valid_at(buf@, offset as int, i) && e is Other
        } else {
            e is Io
        },
{
    let count = size / 64;
    let mut v: Vec<BspModelIndices> = Vec::new();
    if count == 0 {
        return Ok(v);
    }
    if offset > buf.len() as u64 {
        assert(!fits(buf@, offset as int, 64, 0));
        return Err(BspError::Io);
    }
    let mut p: usize = offset as usize;
    let mut i: usize = 0;
    while i < count
        invariant
            count == size / 64,
            p == offset + 64 * i,
            p <= buf.len(),
            i <= count,
            v@.len() == i,
            forall|k: int| 0 <= k < i ==> #[trigger] fits(buf@, offset as int, 64, k) && model_valid_at(buf@, offset as int, k),
            forall|k: int| 0 <= k < i ==> #[trigger] model_is_at(buf@, offset as int, k, v@[k]),
            forall|k: int| 0 <= k < size / 64 && #[trigger] fits(buf@, offset as int, 64, k) ==> !model_panics_at(buf@, offset as int, k),
        decreases count - i,
    {
        if buf.len() - p < 64 {
            assert(!fits(buf@, offset as int, 64, i as int));
            return Err(BspError::Io);
        }
        assert(fits(buf@, offset as int, 64, i as int));
        let e = match read_model(buf, p) {
            Ok(e) => e,
            Err(e) => {
                return Err(e);
            },
        };
        assert(model_valid_at(buf@, offset as int, i as int));
        assert(model_is_at(buf@, offset as int, i as int, e));
        let ghost before = v@;
        v.push(e);
        assert(forall|k: int| 0 <= k < i ==> v@[k] == before[k]);
        p = p + 64;
        i = i + 1;
        assert forall|k: int| 0 <= k < i implies #[trigger] fits(buf@, offset as int, 64, k) && model_valid_at(buf@, offset as int, k) by {
            if k < i - 1 {
                assert(fits(buf@, offset as int, 64, k));
            }
        }
    }
    Ok(v)
}

/// Whether a section of `size` bytes at `offset` lies within the data. A section of no bytes
/// always does, wherever it starts.
pub open spec fn section_in_data(s: Seq<u8>, offset: int, size: int) -> bool {
    size == 0 || offset + size <= s.len()
}

/// Reads the bytes of a section. Reading stops at the end of the data; a section that does not
/// end where its reading ended is misaligned.
pub fn section_bytes(buf: &[u8], offset: u64, size: usize) -> (r: Result<Vec<u8>, BspError>)
    ensures
        r is Ok <==> section_in_data(buf@, offset as int, size as int),
        r matches Ok(v) ==> v@ == (if size == 0 { Seq::empty() } else { buf@.subrange(offset as int, offset + size) }),
        r matches Err(e) ==> e is Other,
{
    if size == 0 {
        return Ok(Vec::new());
    }
    if offset > buf.len() as u64 || buf.len() - (offset as usize) < size {
        return Err(BspError::with_msg("BSP read misaligned"));
    }
    let start = offset as usize;
    Ok(vstd::slice::slice_to_vec(vstd::slice::slice_subrange(buf, start, start + size)))
}

/// The entity text of a map as stored at `offset`: the bytes up to and with the first zero
/// byte, or to the end of the data where there is none.
pub open spec fn entity_bytes(s: Seq<u8>, offset: int) -> Seq<u8> {
    if offset >= s.len() {
        Seq::empty()
    } else {
        match find_nul(s, offset) {
            Some(z) => s.subrange(offset, z + 1),
            None => s.subrange(offset, s.len() as int),
        }
    }
}

/// Reads the entity text of a map from its section at `offset`: it may be no longer than
/// `MAX_ENTSTRING` bytes, its zero byte included, and must be UTF-8; the zero byte stays in the
/// text. The section must end where the text ends.
pub fn load_entities(buf: &[u8], offset: u64, size: usize) -> (r: Result<String, BspError>)
    ensures
        ({
            let b = entity_bytes(buf@, offset as int);
            &&& r is Ok <==> (b.len() <= MAX_ENTSTRING && valid_utf8(b) && b.len() == size)
            &&& r matches Ok(t) ==> t@ == decode_utf8(b)
            &&& r matches Err(e) ==> e is Other
        }),
{
    let bytes: Vec<u8> = if offset >= buf.len() as u64 {
        Vec::new()
    } else {
        let start = offset as usize;
        proof {
            lemma_find_nul(buf@, start as int);
        }
        let end = match find_nul_from(buf, start) {
            Some(z) => z + 1,
            None => buf.len(),
        };
        vstd::slice::slice_to_vec(vstd::slice::slice_subrange(buf, start, end))
    };
    let len = bytes.len();
    if len > MAX_ENTSTRING {
        return Err(BspError::with_msg("Entity data exceeds MAX_ENTSTRING"));
    }
    let text = match string_from_utf8(bytes) {
        Ok(t) => t,
        Err(_) => {
            return Err(BspError::with_msg("Failed to create string from entity data"));
        },
    };
    if len != size {
        return Err(BspError::with_msg("BSP read misaligned"));
    }
    Ok(text)
}

/// A leaf stores its contents as the negated number of the contents: -1 empty, -2 solid,
/// -3 water, -4 slime, -5 lava, -9 to -14 the currents; a collision node names contents as a
/// child in the same way.
pub proof fn lemma_stored_contents(s: Seq<u8>, p: int, l: BspLeaf)
    requires
        leaf_is(s, p, l),
    ensures
        i32_at(s, p) == -1 ==> l.contents == BspLeafContents::Empty,
        i32_at(s, p) == -2 ==> l.contents == BspLeafContents::Solid,
        i32_at(s, p) == -3 ==> l.contents == BspLeafContents::Water,
        i32_at(s, p) == -4 ==> l.contents == BspLeafContents::Slime,
        i32_at(s, p) == -5 ==> l.contents == BspLeafContents::Lava,
        i32_at(s, p) == -9 ==> l.contents == BspLeafContents::Current0,
        i32_at(s, p) == -10 ==> l.contents == BspLeafContents::Current90,
        i32_at(s, p) == -11 ==> l.contents == BspLeafContents::Current180,
        i32_at(s, p) == -12 ==> l.contents == BspLeafContents::Current270,
        i32_at(s, p) == -13 ==> l.contents == BspLeafContents::CurrentUp,
        i32_at(s, p) == -14 ==> l.contents == BspLeafContents::CurrentDown,
        collision_child(-1i16) == Some(BspCollisionNodeChild::Contents(BspLeafContents::Empty)),
        collision_child(-2i16) == Some(BspCollisionNodeChild::Contents(BspLeafContents::Solid)),
        collision_child(-3i16) == Some(BspCollisionNodeChild::Contents(BspLeafContents::Water)),
        collision_child(-4i16) == Some(BspCollisionNodeChild::Contents(BspLeafContents::Slime)),
        collision_child(-5i16) == Some(BspCollisionNodeChild::Contents(BspLeafContents::Lava)),
{
}

} // verus!
