//! The data of a map: its tree of nodes and leaves, faces, edges and lightmaps, and the reading
//! of its file.

pub mod load;
pub mod texture;

use vstd::prelude::*;

verus! {

/// The number of light styles of a face.
pub const MAX_LIGHTSTYLES: usize = 4;

/// The number of ambient sounds of a leaf.
pub const MAX_SOUNDS: usize = 4;

/// The number of levels of detail of a texture.
pub const MIPLEVELS: usize = 4;

/// An error in map data.
#[derive(Debug)]
pub enum BspError {
    /// The data ended first.
    Io,
    /// The data is invalid, with a message.
    Other(String),
}

impl BspError {
    /// An error with the given message.
    pub fn with_msg(msg: &str) -> (r: BspError)
        ensures
            r matches BspError::Other(m) && m@ == msg@,
    {
        BspError::Other(msg.to_owned())
    }
}

/// A level of detail of a texture: full size, half, a quarter or an eighth.
#[derive(Copy, Clone, Debug, PartialEq, Eq, Structural)]
pub enum BspTextureMipmap {
    Full,
    Half,
    Quarter,
    Eighth,
}

impl BspTextureMipmap {
    /// The number of this value.
    pub open spec fn spec_code(self) -> u32 {
        match self {
            BspTextureMipmap::Full => 0,
            BspTextureMipmap::Half => 1,
            BspTextureMipmap::Quarter => 2,
            BspTextureMipmap::Eighth => 3,
        }
    }

    /// The value with the given number, if there is one.
    pub open spec fn spec_from_u32(v: u32) -> Option<BspTextureMipmap> {
        match v {
            0 => Some(BspTextureMipmap::Full),
            1 => Some(BspTextureMipmap::Half),
            2 => Some(BspTextureMipmap::Quarter),
            3 => Some(BspTextureMipmap::Eighth),
            _ => None,
        }
    }

    /// The number of this value.
    pub fn code(self) -> (r: u32)
        ensures
            r == self.spec_code(),
    {
        match self {
            BspTextureMipmap::Full => 0,
            BspTextureMipmap::Half => 1,
            BspTextureMipmap::Quarter => 2,
            BspTextureMipmap::Eighth => 3,
        }
    }

    /// The value with the given number, if there is one.
    pub fn from_u32(v: u32) -> (r: Option<BspTextureMipmap>)
        ensures
            r == BspTextureMipmap::spec_from_u32(v),
    {
        match v {
            0 => Some(BspTextureMipmap::Full),
            1 => Some(BspTextureMipmap::Half),
            2 => Some(BspTextureMipmap::Quarter),
            3 => Some(BspTextureMipmap::Eighth),
            _ => None,
        }
    }

    /// Reading back the number of a value gives the value.
    pub proof fn lemma_code_roundtrip(self)
        ensures
            BspTextureMipmap::spec_from_u32(self.spec_code()) == Some(self),
    {
    }
}
/// A child of a node of the rendering tree.
#[derive(Clone, Copy, Debug, PartialEq, Eq, Structural)]
pub enum BspRenderNodeChild {
    Node(usize),
    Leaf(usize),
}

/// A node of the rendering tree.
#[derive(Debug)]
pub struct BspRenderNode {
    pub plane_id: usize,
    pub children: [BspRenderNodeChild; 2],
    pub min: [i16; 3],
    pub max: [i16; 3],
    pub face_id: usize,
    pub face_count: usize,
}

/// How a texture lies on the faces that use it, as stored: the bits of the two axis vectors
/// and offsets, the texture, and whether it is special (not lit).
#[derive(Debug)]
pub struct BspTexInfoBits {
    pub s_vector: [u32; 3],
    pub s_offset: u32,
    pub t_vector: [u32; 3],
    pub t_offset: u32,
    pub tex_id: usize,
    pub special: bool,
}

/// A brush model as stored: the bits of its bounds and origin, the roots of its collision
/// trees, its leaves and its faces.
#[derive(Debug)]
pub struct BspModelIndices {
    pub min: [u32; 3],
    pub max: [u32; 3],
    pub origin: [u32; 3],
    pub collision_node_ids: [usize; 3],
    pub leaf_count: usize,
    pub face_id: usize,
    pub face_count: usize,
}

/// The side of its plane that a face is on.
#[derive(Clone, Copy, Debug, PartialEq, Eq, Structural)]
pub enum BspFaceSide {
    Front,
    Back,
}

/// A face of the map.
#[derive(Debug)]
pub struct BspFace {
    pub plane_id: usize,
    pub side: BspFaceSide,
    pub edge_id: usize,
    pub edge_count: usize,
    pub texinfo_id: usize,
    pub light_styles: [u8; 4],
    pub lightmap_id: Option<usize>,
    pub texture_mins: [i16; 2],
    pub extents: [i16; 2],
}

/// The contents of a leaf of the tree: what it looks like and how things move in it.
#[derive(Copy, Clone, Debug, PartialEq, Eq, Structural)]
pub enum BspLeafContents {
    /// Nothing: sight and movement are free.
    Empty,
    /// Solid: nothing moves inside it.
    Solid,
    /// Water: sight is warped and movement is swimming.
    Water,
    /// Slime: like water, tinted green, and it hurts a little.
    Slime,
    /// Lava: like water, tinted red, and it hurts a lot.
    Lava,
    /// Water that pushes towards positive x (east).
    Current0,
    /// Water that pushes towards positive y (north).
    Current90,
    /// Water that pushes towards negative x (west).
    Current180,
    /// Water that pushes towards negative y (south).
    Current270,
    /// Water that pushes up.
    CurrentUp,
    /// Water that pushes down.
    CurrentDown,
}

impl BspLeafContents {
    /// The number of this value.
    pub open spec fn spec_code(self) -> i32 {
        match self {
            BspLeafContents::Empty => 1,
            BspLeafContents::Solid => 2,
            BspLeafContents::Water => 3,
            BspLeafContents::Slime => 4,
            BspLeafContents::Lava => 5,
            BspLeafContents::Current0 => 9,
            BspLeafContents::Current90 => 10,
            BspLeafContents::Current180 => 11,
            BspLeafContents::Current270 => 12,
            BspLeafContents::CurrentUp => 13,
            BspLeafContents::CurrentDown => 14,
        }
    }

    /// The value with the given number, if there is one.
    pub open spec fn spec_from_i32(v: i32) -> Option<BspLeafContents> {
        match v {
            1 => Some(BspLeafContents::Empty),
            2 => Some(BspLeafContents::Solid),
            3 => Some(BspLeafContents::Water),
            4 => Some(BspLeafContents::Slime),
            5 => Some(BspLeafContents::Lava),
            9 => Some(BspLeafContents::Current0),
            10 => Some(BspLeafContents::Current90),
            11 => Some(BspLeafContents::Current180),
            12 => Some(BspLeafContents::Current270),
            13 => Some(BspLeafContents::CurrentUp),
            14 => Some(BspLeafContents::CurrentDown),
            _ => None,
        }
    }

    /// The number of this value.
    pub fn code(self) -> (r: i32)
        ensures
            r == self.spec_code(),
    {
        match self {
            BspLeafContents::Empty => 1,
            BspLeafContents::Solid => 2,
            BspLeafContents::Water => 3,
            BspLeafContents::Slime => 4,
            BspLeafContents::Lava => 5,
            BspLeafContents::Current0 => 9,
            BspLeafContents::Current90 => 10,
            BspLeafContents::Current180 => 11,
            BspLeafContents::Current270 => 12,
            BspLeafContents::CurrentUp => 13,
            BspLeafContents::CurrentDown => 14,
        }
    }

    /// The value with the given number, if there is one.
    pub fn from_i32(v: i32) -> (r: Option<BspLeafContents>)
        ensures
            r == BspLeafContents::spec_from_i32(v),
    {
        match v {
            1 => Some(BspLeafContents::Empty),
            2 => Some(BspLeafContents::Solid),
            3 => Some(BspLeafContents::Water),
            4 => Some(BspLeafContents::Slime),
            5 => Some(BspLeafContents::Lava),
            9 => Some(BspLeafContents::Current0),
            10 => Some(BspLeafContents::Current90),
            11 => Some(BspLeafContents::Current180),
            12 => Some(BspLeafContents::Current270),
            13 => Some(BspLeafContents::CurrentUp),
            14 => Some(BspLeafContents::CurrentDown),
            _ => None,
        }
    }

    /// Reading back the number of a value gives the value.
    pub proof fn lemma_code_roundtrip(self)
        ensures
            BspLeafContents::spec_from_i32(self.spec_code()) == Some(self),
    {
    }
}
/// A child of a node of a collision tree.
#[derive(Clone, Copy, Debug, PartialEq, Eq, Structural)]
pub enum BspCollisionNodeChild {
    Node(usize),
    Contents(BspLeafContents),
}

/// A node of a collision tree.
#[derive(Debug)]
pub struct BspCollisionNode {
    pub plane_id: usize,
    pub children: [BspCollisionNodeChild; 2],
}

/// A leaf of the rendering tree.
#[derive(Debug)]
pub struct BspLeaf {
    pub contents: BspLeafContents,
    pub vis_offset: Option<usize>,
    pub min: [i16; 3],
    pub max: [i16; 3],
    pub facelist_id: usize,
    pub facelist_count: usize,
    pub sounds: [u8; 4],
}

/// An edge: the vertices at its two ends.
#[derive(Debug)]
pub struct BspEdge {
    pub vertex_ids: [u16; 2],
}

/// The direction in which a face walks an edge.
#[derive(Copy, Clone, Debug, PartialEq, Eq, Structural)]
pub enum BspEdgeDirection {
    Forward,
    Backward,
}

impl BspEdgeDirection {
    /// The number of this value.
    pub open spec fn spec_code(self) -> u32 {
        match self {
            BspEdgeDirection::Forward => 0,
            BspEdgeDirection::Backward => 1,
        }
    }

    /// The value with the given number, if there is one.
    pub open spec fn spec_from_u32(v: u32) -> Option<BspEdgeDirection> {
        match v {
            0 => Some(BspEdgeDirection::Forward),
            1 => Some(BspEdgeDirection::Backward),
            _ => None,
        }
    }

    /// The number of this value.
    pub fn code(self) -> (r: u32)
        ensures
            r == self.spec_code(),
    {
        match self {
            BspEdgeDirection::Forward => 0,
            BspEdgeDirection::Backward => 1,
        }
    }

    /// The value with the given number, if there is one.
    pub fn from_u32(v: u32) -> (r: Option<BspEdgeDirection>)
        ensures
            r == BspEdgeDirection::spec_from_u32(v),
    {
        match v {
            0 => Some(BspEdgeDirection::Forward),
            1 => Some(BspEdgeDirection::Backward),
            _ => None,
        }
    }

    /// Reading back the number of a value gives the value.
    pub proof fn lemma_code_roundtrip(self)
        ensures
            BspEdgeDirection::spec_from_u32(self.spec_code()) == Some(self),
    {
    }
}
/// An edge of a face, and the direction the face walks it in.
#[derive(Debug)]
pub struct BspEdgeIndex {
    pub direction: BspEdgeDirection,
    pub index: usize,
}

/// The lightmap of a face: its size and its light levels.
#[derive(Debug)]
pub struct BspLightmap {
    width: u32,
    height: u32,
    data: Vec<u8>,
}

impl BspLightmap {
    /// A lightmap of the given size and light levels.
    pub fn new(width: u32, height: u32, data: Vec<u8>) -> (r: BspLightmap)
        ensures
            r.spec_width() == width,
            r.spec_height() == height,
            r.spec_data() == data@,
    {
        BspLightmap { width, height, data }
    }

    /// The width.
    pub closed spec fn spec_width(&self) -> u32 {
        self.width
    }

    /// The height.
    pub closed spec fn spec_height(&self) -> u32 {
        self.height
    }

    /// The light levels.
    pub closed spec fn spec_data(&self) -> Seq<u8> {
        self.data@
    }

    /// The width.
    pub fn width(&self) -> (r: u32)
        ensures
            r == self.spec_width(),
    {
        self.width
    }

    /// The height.
    pub fn height(&self) -> (r: u32)
        ensures
            r == self.spec_height(),
    {
        self.height
    }

    /// The light levels.
    pub fn data(&self) -> (r: &[u8])
        ensures
            r@ == self.spec_data(),
    {
        self.data.as_slice()
    }
}

/// The leaves named by the set bits of `bits`, bit `k` naming leaf `first + k`, lowest first,
/// from bit `shift` on.
pub open spec fn bits_leaves(bits: u8, first: int, shift: int) -> Seq<usize>
    decreases 8 - shift,
{
    if shift >= 8 || shift < 0 {
        Seq::empty()
    } else {
        (if (bits >> (shift as u8)) & 1u8 == 1u8 { seq![(first + shift) as usize] } else { Seq::empty() })
            + bits_leaves(bits, first, shift + 1)
    }
}

/// The leaves visible from a leaf whose visibility data starts at `pos`, from leaf `visleaf`
/// on: a zero byte skips eight leaves for each unit of the byte after it, any other byte names
/// the visible leaves among the next eight. `None` where the data ends before `leaf_count`
/// leaves are covered, on which decoding panics.
pub open spec fn pvs_from(s: Seq<u8>, pos: int, visleaf: int, leaf_count: int) -> Option<Seq<usize>>
    decreases s.len() - pos,
{
    if visleaf >= leaf_count {
        Some(Seq::empty())
    } else if pos < 0 || pos >= s.len() {
        None
    } else if s[pos] == 0 {
        if pos + 1 >= s.len() {
            None
        } else {
            pvs_from(s, pos + 2, visleaf + 8 * s[pos + 1], leaf_count)
        }
    } else {
        match pvs_from(s, pos + 1, visleaf + 8, leaf_count) {
            Some(rest) => Some(bits_leaves(s[pos], visleaf, 0) + rest),
            None => None,
        }
    }
}

/// Decodes the visibility data at `offset`: the leaves visible from a leaf, lowest first, for
/// a map of `leaf_count` leaves.
pub fn decompress_pvs(visibility: &[u8], offset: usize, leaf_count: usize) -> (r: Vec<usize>)
    requires
        offset <= visibility.len(),
        leaf_count <= usize::MAX - 2048,
        pvs_from(visibility@, offset as int, 1, leaf_count as int) is Some,
    ensures
        r@ == pvs_from(visibility@, offset as int, 1, leaf_count as int)->0,
{
    let mut visleaf: usize = 1;
    let mut pos: usize = offset;
    let mut list: Vec<usize> = Vec::new();
    while visleaf < leaf_count
        invariant
            leaf_count <= usize::MAX - 2048,
            pos <= visibility.len(),
            pvs_from(visibility@, pos as int, visleaf as int, leaf_count as int) is Some,
            list@ + pvs_from(visibility@, pos as int, visleaf as int, leaf_count as int)->0
                == pvs_from(visibility@, offset as int, 1, leaf_count as int)->0,
        decreases visibility.len() - pos,
    {
        let byte = visibility[pos];
        if byte == 0 {
            let skip = visibility[pos + 1];
            visleaf = visleaf + 8 * (skip as usize);
            pos = pos + 2;
        } else {
            let ghost rest = pvs_from(visibility@, pos + 1, visleaf + 8, leaf_count as int)->0;
            let ghost before = list@;
            let mut shift: u8 = 0;
            while shift < 8
                invariant
                    shift <= 8,
                    visleaf < leaf_count <= usize::MAX - 2048,
                    list@ + bits_leaves(byte, visleaf as int, shift as int) == before + bits_leaves(byte, visleaf as int, 0),
                decreases 8 - shift,
            {
                if (byte >> shift) & 1 == 1 {
                    list.push(visleaf + shift as usize);
                    assert(list@ + bits_leaves(byte, visleaf as int, shift + 1) =~= before + bits_leaves(byte, visleaf as int, 0));
                }
                shift = shift + 1;
            }
            assert(bits_leaves(byte, visleaf as int, 8) =~= Seq::<usize>::empty());
            assert(list@ =~= before + bits_leaves(byte, visleaf as int, 0));
            visleaf = visleaf + 8;
            pos = pos + 1;
            assert(before + pvs_from(visibility@, (pos - 1) as int, (visleaf - 8) as int, leaf_count as int)->0
                =~= list@ + rest);
        }
    }
    assert(list@ + Seq::<usize>::empty() =~= list@);
    list
}

/// The leaves visible from leaf `leaf_id`: none for leaf 0, which lies outside the map, and
/// none for a leaf without visibility data.
pub fn get_pvs(leaves: &[BspLeaf], visibility: &[u8], leaf_id: usize, leaf_count: usize) -> (r: Vec<usize>)
    requires
        leaf_id == 0 || leaf_id < leaves.len(),
        leaf_id != 0 ==> (leaves@[leaf_id as int].vis_offset matches Some(o) ==> o <= visibility.len()
            && pvs_from(visibility@, o as int, 1, leaf_count as int) is Some),
        leaf_count <= usize::MAX - 2048,
    ensures
        leaf_id == 0 ==> r@.len() == 0,
        leaf_id != 0 ==> match leaves@[leaf_id as int].vis_offset {
            Some(o) => r@ == pvs_from(visibility@, o as int, 1, leaf_count as int)->0,
            None => r@.len() == 0,
        },
{
    if leaf_id == 0 {
        return Vec::new();
    }
    match leaves[leaf_id].vis_offset {
        Some(o) => decompress_pvs(visibility, o, leaf_count),
        None => Vec::new(),
    }
}

/// The width or height of a face's lightmaps for a texture extent: one luxel every sixteen
/// texels, plus one.
pub open spec fn lightmap_side(extent: i16) -> int {
    (extent as u32) / 16 + 1
}

/// The number of luxels in each lightmap of a face.
pub open spec fn lightmap_size(f: BspFace) -> int {
    lightmap_side(f.extents[0]) * lightmap_side(f.extents[1])
}

/// The number of light styles that a face uses: those before the first 255.
pub open spec fn style_count(styles: Seq<u8>, n: int) -> int
    decreases n,
{
    if n <= 0 {
        0
    } else if style_count(styles, n - 1) == n - 1 && styles[n - 1] != 255 {
        n
    } else {
        style_count(styles, n - 1)
    }
}

/// Whether the lightmaps of a face fit the lightmap data and their sizes fit in memory.
pub open spec fn face_lightmaps_fit(face: BspFace, lightmaps_len: int) -> bool {
    match face.lightmap_id {
        Some(id) => {
            let w = lightmap_side(face.extents[0]);
            let h = lightmap_side(face.extents[1]);
            &&& w * h <= u32::MAX
            &&& id + w * h * style_count(face.light_styles@, 4) <= lightmaps_len
        },
        None => true,
    }
}

proof fn lemma_style_count(styles: Seq<u8>, n: int)
    requires
        0 <= n,
    ensures
        0 <= style_count(styles, n) <= n,
        style_count(styles, n) < n ==> style_count(styles, n + 1) == style_count(styles, n),
    decreases n,
{
    if n > 0 {
        lemma_style_count(styles, n - 1);
    }
}

/// The lightmaps of face `face_id`, one for each light style before the first 255, laid out
/// one after another from the face's lightmap offset; none for a face without lightmaps.
pub fn face_lightmaps(faces: &[BspFace], lightmaps: &[u8], face_id: usize) -> (r: Vec<BspLightmap>)
    requires
        face_id < faces.len(),
        face_lightmaps_fit(faces@[face_id as int], lightmaps.len() as int),
    ensures
        faces@[face_id as int].lightmap_id is None ==> r@.len() == 0,
        faces@[face_id as int].lightmap_id matches Some(id) ==> {
            let f = faces@[face_id as int];
            let n = lightmap_size(f);
            &&& r@.len() == style_count(f.light_styles@, 4)
            &&& forall|i: int| 0 <= i < r@.len() ==> {
                &&& #[trigger] r@[i].spec_width() == lightmap_side(f.extents[0])
                &&& r@[i].spec_height() == lightmap_side(f.extents[1])
                &&& r@[i].spec_data() == lightmaps@.subrange(id + n * i, id + n * (i + 1))
            }
        },
{
    let face = &faces[face_id];
    match face.lightmap_id {
        None => Vec::new(),
        Some(lightmap_id) => {
            let w: u32 = face.extents[0] as u32 / 16 + 1;
            let h: u32 = face.extents[1] as u32 / 16 + 1;
            let size = (w * h) as usize;
            let ghost n = style_count(face.light_styles@, 4);
            proof {
                lemma_style_count(face.light_styles@, 4);
                assert(0 <= n <= 4);
            }
            let mut r: Vec<BspLightmap> = Vec::new();
            let mut i: usize = 0;
            while i < 4 && face.light_styles[i] != 255
                invariant
                    i <= 4,
                    face == &faces@[face_id as int],
                    face.lightmap_id == Some(lightmap_id),
                    size == w * h,
                    size == lightmap_size(*face),
                    w == lightmap_side(face.extents[0]),
                    h == lightmap_side(face.extents[1]),
                    n == style_count(face.light_styles@, 4),
                    0 <= n <= 4,
                    lightmap_id + size * n <= lightmaps.len(),
                    style_count(face.light_styles@, i as int) == i,
                    r@.len() == i,
                    forall|k: int| 0 <= k < i ==> {
                        &&& #[trigger] r@[k].spec_width() == w
                        &&& r@[k].spec_height() == h
                        &&& r@[k].spec_data() == lightmaps@.subrange(lightmap_id + size * k, lightmap_id + size * (k + 1))
                    },
                decreases 4 - i,
            {
                proof {
                    lemma_style_count(face.light_styles@, i as int);
                    lemma_style_count(face.light_styles@, i + 1);
                    assert(style_count(face.light_styles@, i + 1) == i + 1);
                    assert(i + 1 <= n) by {
                        assert(style_count(face.light_styles@, i + 1) == i + 1);
                        if i + 1 < 4 {
                            lemma_style_count_mono(face.light_styles@, i + 1, 4);
                        }
                    }
                    assert(size * (i + 1) <= size * n) by (nonlinear_arith)
                        requires i + 1 <= n, size >= 0;
                    assert(size * (i + 1) == size * i + size) by (nonlinear_arith);
                }
                let start = lightmap_id + size * i;
                let end = start + size;
                let data = vstd::slice::slice_to_vec(vstd::slice::slice_subrange(lightmaps, start, end));
                r.push(BspLightmap::new(w, h, data));
                i = i + 1;
            }
            proof {
                lemma_style_count(face.light_styles@, i as int);
                if i < 4 {
                    assert(face.light_styles@[i as int] == 255);
                    lemma_style_count_stops(face.light_styles@, i as int, 4);
                }
                assert(r@.len() == n);
            }
            r
        },
    }
}

proof fn lemma_style_count_mono(styles: Seq<u8>, a: int, b: int)
    requires
        0 <= a <= b,
    ensures
        style_count(styles, a) <= style_count(styles, b),
    decreases b - a,
{
    if a < b {
        lemma_style_count_mono(styles, a, b - 1);
        lemma_style_count(styles, b - 1);
    }
}

proof fn lemma_style_count_stops(styles: Seq<u8>, i: int, b: int)
    requires
        0 <= i < b,
        style_count(styles, i) == i,
        styles[i] == 255,
    ensures
        style_count(styles, b) == i,
    decreases b - i,
{
    lemma_style_count(styles, i);
    if b == i + 1 {
    } else {
        lemma_style_count_stops(styles, i, b - 1);
        lemma_style_count(styles, b - 1);
    }
}

/// The number of leaves of the models before model `n`.
pub open spec fn leaves_before(models: Seq<BspModelIndices>, n: int) -> int
    decreases n,
{
    if n <= 0 {
        0
    } else {
        leaves_before(models, n - 1) + models[n - 1].leaf_count
    }
}

/// The first leaf of each model: the models' leaves follow one another.
pub fn model_leaf_ids(models: &Vec<BspModelIndices>) -> (r: Vec<usize>)
    requires
        leaves_before(models@, models@.len() as int) <= usize::MAX,
    ensures
        r@.len() == models@.len(),
        forall|i: int| 0 <= i < r@.len() ==> #[trigger] r@[i] == leaves_before(models@, i),
{
    let mut r: Vec<usize> = Vec::new();
    let mut total: usize = 0;
    let mut i: usize = 0;
    while i < models.len()
        invariant
            i <= models@.len(),
            r@.len() == i,
            total == leaves_before(models@, i as int),
            forall|k: int| 0 <= k < i ==> #[trigger] r@[k] == leaves_before(models@, k),
            leaves_before(models@, models@.len() as int) <= usize::MAX,
        decreases models@.len() - i,
    {
        proof {
            lemma_leaves_before_mono(models@, i + 1, models@.len() as int);
        }
        r.push(total);
        total = total + models[i].leaf_count;
        i = i + 1;
    }
    r
}

proof fn lemma_leaves_before_mono(models: Seq<BspModelIndices>, a: int, b: int)
    requires
        0 <= a <= b <= models.len(),
    ensures
        leaves_before(models, a) <= leaves_before(models, b),
    decreases b - a,
{
    if a < b {
        lemma_leaves_before_mono(models, a, b - 1);
    }
}

/// The number of collision nodes from each of a model's collision roots to the end of the
/// collision nodes.
pub fn collision_node_counts(m: &BspModelIndices, collision_node_count: usize) -> (r: [usize; 3])
    requires
        m.collision_node_ids[0] <= collision_node_count,
        m.collision_node_ids[1] <= collision_node_count,
        m.collision_node_ids[2] <= collision_node_count,
    ensures
        r@ == seq![
            (collision_node_count - m.collision_node_ids[0]) as usize,
            (collision_node_count - m.collision_node_ids[1]) as usize,
            (collision_node_count - m.collision_node_ids[2]) as usize,
        ],
{
    let r = [
        collision_node_count - m.collision_node_ids[0],
        collision_node_count - m.collision_node_ids[1],
        collision_node_count - m.collision_node_ids[2],
    ];
    assert(r@ =~= seq![
        (collision_node_count - m.collision_node_ids[0]) as usize,
        (collision_node_count - m.collision_node_ids[1]) as usize,
        (collision_node_count - m.collision_node_ids[2]) as usize,
    ]);
    r
}

/// The collision child that a rendering child stands for: the same node, or the contents of
/// the leaf.
pub open spec fn hull_child(c: BspRenderNodeChild, leaves: Seq<BspLeaf>) -> BspCollisionNodeChild {
    match c {
        BspRenderNodeChild::Node(n) => BspCollisionNodeChild::Node(n),
        BspRenderNodeChild::Leaf(l) => BspCollisionNodeChild::Contents(leaves[l as int].contents),
    }
}

/// Whether every leaf that a rendering node names is among `leaves`.
pub open spec fn leaves_named(nodes: Seq<BspRenderNode>, leaves_len: int) -> bool {
    forall|i: int, k: int|
        0 <= i < nodes.len() && 0 <= k < 2 ==> (#[trigger] nodes[i].children[k] matches BspRenderNodeChild::Leaf(l) ==> l < leaves_len)
}

/// The collision tree that the rendering tree stands for, for collisions of a point: each
/// rendering node becomes a collision node with the same plane, and each leaf its contents.
pub fn render_as_collision_nodes(nodes: &Vec<BspRenderNode>, leaves: &Vec<BspLeaf>) -> (r: Vec<BspCollisionNode>)
    requires
        leaves_named(nodes@, leaves@.len() as int),
    ensures
        r@.len() == nodes@.len(),
        forall|i: int| 0 <= i < r@.len() ==> {
            &&& (#[trigger] r@[i]).plane_id == nodes@[i].plane_id
            &&& r@[i].children@ == seq![
                hull_child(nodes@[i].children[0], leaves@),
                hull_child(nodes@[i].children[1], leaves@),
            ]
        },
{
    let mut r: Vec<BspCollisionNode> = Vec::new();
    let mut i: usize = 0;
    while i < nodes.len()
        invariant
            i <= nodes@.len(),
            r@.len() == i,
            leaves_named(nodes@, leaves@.len() as int),
            forall|k: int| 0 <= k < i ==> {
                &&& (#[trigger] r@[k]).plane_id == nodes@[k].plane_id
                &&& r@[k].children@ == seq![
                    hull_child(nodes@[k].children[0], leaves@),
                    hull_child(nodes@[k].children[1], leaves@),
                ]
            },
        decreases nodes@.len() - i,
    {
        let n = &nodes[i];
        assert(n.children[0] == nodes@[i as int].children[0]);
        let front = match n.children[0] {
            BspRenderNodeChild::Node(x) => BspCollisionNodeChild::Node(x),
            BspRenderNodeChild::Leaf(l) => {
                assert(nodes@[i as int].children@[0] matches BspRenderNodeChild::Leaf(l) ==> l < leaves@.len());
                BspCollisionNodeChild::Contents(leaves[l].contents)
            },
        };
        let back = match n.children[1] {
            BspRenderNodeChild::Node(x) => BspCollisionNodeChild::Node(x),
            BspRenderNodeChild::Leaf(l) => {
                assert(nodes@[i as int].children@[1] matches BspRenderNodeChild::Leaf(l) ==> l < leaves@.len());
                BspCollisionNodeChild::Contents(leaves[l].contents)
            },
        };
        let c = BspCollisionNode { plane_id: n.plane_id, children: [front, back] };
        assert(c.children@ =~= seq![
            hull_child(nodes@[i as int].children[0], leaves@),
            hull_child(nodes@[i as int].children[1], leaves@),
        ]);
        r.push(c);
        i = i + 1;
    }
    r
}


/// The contents of a leaf are numbered as the map format numbers them: 1 empty, 2 solid,
/// 3 water, 4 slime, 5 lava, and 9 to 14 the currents east, north, west, south, up and down;
/// no other number names contents.
pub proof fn lemma_leaf_contents_numbers(v: i32)
    ensures
        BspLeafContents::spec_from_i32(1) == Some(BspLeafContents::Empty),
        BspLeafContents::spec_from_i32(2) == Some(BspLeafContents::Solid),
        BspLeafContents::spec_from_i32(3) == Some(BspLeafContents::Water),
        BspLeafContents::spec_from_i32(4) == Some(BspLeafContents::Slime),
        BspLeafContents::spec_from_i32(5) == Some(BspLeafContents::Lava),
        BspLeafContents::spec_from_i32(9) == Some(BspLeafContents::Current0),
        BspLeafContents::spec_from_i32(10) == Some(BspLeafContents::Current90),
        BspLeafContents::spec_from_i32(11) == Some(BspLeafContents::Current180),
        BspLeafContents::spec_from_i32(12) == Some(BspLeafContents::Current270),
        BspLeafContents::spec_from_i32(13) == Some(BspLeafContents::CurrentUp),
        BspLeafContents::spec_from_i32(14) == Some(BspLeafContents::CurrentDown),
        BspLeafContents::spec_from_i32(v) is Some <==> (1 <= v <= 5 || 9 <= v <= 14),
{
}

/// Bit `k` of `b` is set: `b & (1 << k)` is not zero.
proof fn lemma_bit_set(b: u8, k: u8)
    by (bit_vector)
    requires
        k < 8,
    ensures
        ((b >> k) & 1u8 == 1u8) == (b & (1u8 << k) != 0u8),
{
}

/// A visibility byte that is not zero names the leaves among the eight from `first` whose bit
/// is set: leaf `first + k` is named exactly where `b & (1 << k)` is not zero, each once, in
/// increasing order, and no other leaf is named.
pub proof fn lemma_bits_leaves(b: u8, first: int)
    requires
        0 <= first,
        first + 8 <= usize::MAX,
    ensures
        forall|k: int| 0 <= k < 8 ==> (#[trigger] bits_leaves(b, first, 0).contains((first + k) as usize)
            <==> b & (1u8 << (k as u8)) != 0u8),
        forall|i: int| 0 <= i < bits_leaves(b, first, 0).len() ==> first <= #[trigger] bits_leaves(b, first, 0)[i] < first + 8,
        forall|i: int, j: int| 0 <= i < j < bits_leaves(b, first, 0).len() ==> bits_leaves(b, first, 0)[i] < bits_leaves(b, first, 0)[j],
{
    lemma_bits_leaves_from(b, first, 0);
    assert forall|k: int| 0 <= k < 8 implies (#[trigger] bits_leaves(b, first, 0).contains((first + k) as usize)
        <==> b & (1u8 << (k as u8)) != 0u8) by {
        lemma_bit_set(b, k as u8);
    }
}

proof fn lemma_bits_leaves_from(b: u8, first: int, shift: int)
    requires
        0 <= first,
        first + 8 <= usize::MAX,
        0 <= shift <= 8,
    ensures
        forall|k: int| shift <= k < 8 ==> (#[trigger] bits_leaves(b, first, shift).contains((first + k) as usize)
            <==> (b >> (k as u8)) & 1u8 == 1u8),
        forall|i: int| 0 <= i < bits_leaves(b, first, shift).len() ==> first + shift <= #[trigger] bits_leaves(b, first, shift)[i] < first + 8,
        forall|i: int, j: int| 0 <= i < j < bits_leaves(b, first, shift).len() ==> bits_leaves(b, first, shift)[i] < bits_leaves(b, first, shift)[j],
    decreases 8 - shift,
{
    if shift < 8 {
        lemma_bits_leaves_from(b, first, shift + 1);
        let head: Seq<usize> = if (b >> (shift as u8)) & 1u8 == 1u8 { seq![(first + shift) as usize] } else { Seq::empty() };
        let rest = bits_leaves(b, first, shift + 1);
        let all = bits_leaves(b, first, shift);
        assert(all == head + rest);
        assert forall|i: int| 0 <= i < all.len() implies first + shift <= #[trigger] all[i] < first + 8 by {
            if i >= head.len() {
                assert(all[i] == rest[i - head.len()]);
            }
        }
        assert forall|i: int, j: int| 0 <= i < j < all.len() implies all[i] < all[j] by {
            if i >= head.len() {
                assert(all[i] == rest[i - head.len()]);
            }
            assert(all[j] == rest[j - head.len()]);
        }
        assert forall|k: int| shift <= k < 8 implies (#[trigger] all.contains((first + k) as usize)
            <==> (b >> (k as u8)) & 1u8 == 1u8) by {
            if k == shift {
                if (b >> (k as u8)) & 1u8 == 1u8 {
                    assert(all[0] == (first + k) as usize);
                } else {
                    assert forall|i: int| 0 <= i < all.len() implies all[i] != (first + k) as usize by {
                        assert(all[i] == rest[i]);
                    }
                }
            } else {
                if rest.contains((first + k) as usize) {
                    let i = choose|i: int| 0 <= i < rest.len() && rest[i] == (first + k) as usize;
                    assert(all[i + head.len()] == rest[i]);
                }
                if all.contains((first + k) as usize) {
                    let i = choose|i: int| 0 <= i < all.len() && all[i] == (first + k) as usize;
                    if i < head.len() {
                        assert(all[i] == (first + shift) as usize);
                    } else {
                        assert(rest[i - head.len()] == all[i]);
                    }
                }
            }
        }
    }
}

/// Where the leaves left to cover fit in one group of eight, a visibility byte that is not
/// zero decodes to exactly the leaves whose bit it sets: leaf `v + k` is visible where
/// `b & (1 << k)` is not zero, for each `k` below eight, and no leaf outside that group is.
pub proof fn lemma_pvs_one_byte(s: Seq<u8>, pos: int, v: int, leaf_count: int)
    requires
        0 <= pos < s.len(),
        s[pos] != 0,
        0 <= v < leaf_count <= v + 8,
        v + 8 <= usize::MAX,
    ensures
        pvs_from(s, pos, v, leaf_count) is Some,
        forall|k: int| 0 <= k < 8 ==> (#[trigger] pvs_from(s, pos, v, leaf_count)->0.contains((v + k) as usize)
            <==> s[pos] & (1u8 << (k as u8)) != 0u8),
        forall|i: int| 0 <= i < pvs_from(s, pos, v, leaf_count)->0.len()
            ==> v <= #[trigger] pvs_from(s, pos, v, leaf_count)->0[i] < v + 8,
{
    assert(pvs_from(s, pos + 1, v + 8, leaf_count) == Some(Seq::<usize>::empty()));
    assert(pvs_from(s, pos, v, leaf_count)->0 =~= bits_leaves(s[pos], v, 0));
    lemma_bits_leaves(s[pos], v);
}

} // verus!
