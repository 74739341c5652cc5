//! WAD archives of pictures, and the pictures they hold.
//!
//! An archive starts with the bytes `WAD2`, the number of its lumps and the offset of their
//! table. Each entry of the table takes 32 bytes: the lump's offset, its size on disk, its size,
//! its type, its compression, two bytes of padding and a zero-terminated name in 16 bytes.

use vstd::prelude::*;
use vstd::utf8::{decode_utf8, valid_utf8};
use std::string::FromUtf8Error;
use crate::wire::{read_u32_le, seq_u32_le};
use crate::util::{find_nul, lemma_find_nul, find_nul_from, string_from_utf8};
use crate::files::FileTable;
use crate::pak::file_data;

verus! {

/// The first four bytes of an archive, read as a little-endian `u32`: `WAD2`.
pub const WAD_MAGIC: u32 = 0x3244_4157;

/// The size of an entry of the lump table.
pub const LUMPINFO_SIZE: usize = 32;

/// What went wrong in reading an archive or a picture.
#[derive(Clone, Copy, Eq, PartialEq, Debug)]
pub enum WadErrorKind {
    /// The character set must be opened with `open_conchars`.
    ConcharsUseDedicatedFunction,
    /// The archive does not start with `WAD2`.
    InvalidMagicNumber,
    /// Reading failed.
    Io,
    /// No lump has this name.
    NoSuchFile,
    /// The picture could not be read.
    QPicNotLoaded,
    /// The data ended early.
    UnexpectedEof,
}

/// An error in reading an archive or a picture.
#[derive(Debug)]
pub enum WadError {
    /// An error of a known kind.
    Kind(WadErrorKind),
    /// A lump's name is not UTF-8.
    NonUtf8Name(FromUtf8Error),
    /// The archive holds no character set.
    NoConchars,
}

/// How reading an archive fails.
pub enum WadFail {
    Eof,
    Magic,
    NonUtf8,
    /// Reading panics: a lump's name fills its 16 bytes with no zero byte.
    Panic,
}

/// The `u32` at `p`.
pub open spec fn u32_at(s: Seq<u8>, p: int) -> u32 {
    seq_u32_le(s.subrange(p, p + 4))
}

/// Reading the lump table entry at `e`: the lump's offset, size and name.
pub open spec fn spec_lumpinfo(s: Seq<u8>, e: int) -> Result<(u32, u32, Seq<char>), WadFail> {
    if e + 32 > s.len() {
        Err(WadFail::Eof)
    } else {
        let name = s.subrange(e + 16, e + 32);
        match find_nul(name, 0) {
            None => Err(WadFail::Panic),
            Some(z) => if valid_utf8(name.subrange(0, z)) {
                Ok((u32_at(s, e), u32_at(s, e + 8), decode_utf8(name.subrange(0, z))))
            } else {
                Err(WadFail::NonUtf8)
            },
        }
    }
}

/// Reading the first `n` entries of the lump table at `ofs`.
pub open spec fn spec_lumpinfos(s: Seq<u8>, ofs: int, n: nat) -> Result<
    Seq<(u32, u32, Seq<char>)>,
    WadFail,
>
    decreases n,
{
    if n == 0 {
        Ok(Seq::empty())
    } else {
        match spec_lumpinfos(s, ofs, (n - 1) as nat) {
            Err(f) => Err(f),
            Ok(l) => match spec_lumpinfo(s, ofs + (n - 1) * 32) {
                Err(f) => Err(f),
                Ok(x) => Ok(l.push(x)),
            },
        }
    }
}

/// Reading an archive: its lumps' names and data in table order, or how it fails.
pub open spec fn spec_wad(s: Seq<u8>) -> Result<Seq<(Seq<char>, Seq<u8>)>, WadFail> {
    if s.len() < 4 {
        Err(WadFail::Eof)
    } else if u32_at(s, 0) != WAD_MAGIC {
        Err(WadFail::Magic)
    } else if s.len() < 12 {
        Err(WadFail::Eof)
    } else {
        match spec_lumpinfos(s, u32_at(s, 8) as int, u32_at(s, 4) as nat) {
            Err(f) => Err(f),
            Ok(l) => Ok(
                l.map_values(
                    |x: (u32, u32, Seq<char>)| (x.2, file_data(s, x.0 as int, x.1 as int)),
                ),
            ),
        }
    }
}

/// Whether an error is the one that a failure is reported as.
pub open spec fn wad_reports(e: WadError, f: WadFail) -> bool {
    match f {
        WadFail::Eof => e == WadError::Kind(WadErrorKind::UnexpectedEof),
        WadFail::Magic => e == WadError::Kind(WadErrorKind::InvalidMagicNumber),
        WadFail::NonUtf8 => e is NonUtf8Name,
        WadFail::Panic => false,
    }
}

/// A picture: its size and a palette index for each pixel, row by row.
pub struct QPic {
    width: u32,
    height: u32,
    indices: Vec<u8>,
}

/// Reading a picture: its width, its height, and as many indices as it has pixels, cut at the
/// end of the data.
pub open spec fn spec_qpic(s: Seq<u8>) -> Option<(u32, u32, Seq<u8>)> {
    if s.len() < 8 {
        None
    } else {
        let w = u32_at(s, 0);
        let h = u32_at(s, 4);
        Some((w, h, file_data(s, 8, w * h)))
    }
}

/// Whether reading a picture panics: its width times its height overflows a `u32`.
pub open spec fn qpic_overflows(s: Seq<u8>) -> bool {
    s.len() >= 8 && u32_at(s, 0) * u32_at(s, 4) > u32::MAX
}

impl QPic {
    /// The width in pixels.
    pub closed spec fn spec_width(&self) -> u32 {
        self.width
    }

    /// The height in pixels.
    pub closed spec fn spec_height(&self) -> u32 {
        self.height
    }

    /// The palette index of each pixel.
    pub closed spec fn spec_indices(&self) -> Seq<u8> {
        self.indices@
    }

    /// Reads a picture from its bytes.
    pub fn load(data: &[u8]) -> (r: Result<QPic, WadError>)
        requires
            !qpic_overflows(data@),
        ensures
            match spec_qpic(data@) {
                Some((w, h, ix)) => r matches Ok(q) && q.spec_width() == w && q.spec_height() == h
                    && q.spec_indices() == ix,
                None => r matches Err(e) && e == WadError::Kind(WadErrorKind::UnexpectedEof),
            },
    {
        if data.len() < 8 {
            return Err(WadError::Kind(WadErrorKind::UnexpectedEof));
        }
        let width = read_u32_le(&data[0..4]);
        let height = read_u32_le(&data[4..8]);
        let n = width * height;
        let len = data.len() as u64;
        let indices = if n as u64 <= len - 8 {
            vstd::slice::slice_to_vec(&data[8..8 + n as usize])
        } else {
            vstd::slice::slice_to_vec(&data[8..data.len()])
        };
        Ok(QPic { width, height, indices })
    }

    /// The width in pixels.
    pub fn width(&self) -> (r: u32)
        ensures
            r == self.spec_width(),
    {
        self.width
    }

    /// The height in pixels.
    pub fn height(&self) -> (r: u32)
        ensures
            r == self.spec_height(),
    {
        self.height
    }

    /// The palette index of each pixel, row by row.
    pub fn indices(&self) -> (r: &[u8])
        ensures
            r@ == self.spec_indices(),
    {
        self.indices.as_slice()
    }
}

/// An open WAD archive: its lumps by name.
pub struct Wad {
    files: FileTable,
}

/// The name of the character set's lump.
pub open spec fn conchars_name() -> Seq<char> {
    seq!['C', 'O', 'N', 'C', 'H', 'A', 'R', 'S']
}

/// Why reading the lump table failed.
enum LumpError {
    Eof,
    NonUtf8(FromUtf8Error),
    Panic,
}

/// Whether a failure in reading the lump table is the one the format says.
spec fn lump_fails(e: LumpError, f: WadFail) -> bool {
    match f {
        WadFail::Eof => e is Eof,
        WadFail::NonUtf8 => e is NonUtf8,
        WadFail::Panic => e is Panic,
        WadFail::Magic => false,
    }
}

/// The `u32` at `p`.
fn u32_from(data: &[u8], p: usize) -> (r: u32)
    requires
        p + 4 <= data.len(),
    ensures
        r == u32_at(data@, p as int),
{
    read_u32_le(&data[p..p + 4])
}

/// Reads the lump table entry at `e`.
fn read_lumpinfo(data: &[u8], e: u64) -> (r: Result<(u32, u32, String), LumpError>)
    ensures
        match spec_lumpinfo(data@, e as int) {
            Ok((o, z, n)) => r matches Ok((x, y, m)) && x == o && y == z && m@ == n,
            Err(f) => r matches Err(g) && lump_fails(g, f),
        },
{
    let len = data.len() as u64;
    if e > len || len - e < 32 {
        return Err(LumpError::Eof);
    }
    let p = e as usize;
    let offset = u32_from(data, p);
    let size = u32_from(data, p + 8);
    let name = &data[p + 16..p + 32];
    proof {
        lemma_find_nul(name@, 0);
    }
    let z = match find_nul_from(name, 0) {
        Some(z) => z,
        None => { return Err(LumpError::Panic); },
    };
    match string_from_utf8(vstd::slice::slice_to_vec(&name[0..z])) {
        Ok(n) => Ok((offset, size, n)),
        Err(err) => Err(LumpError::NonUtf8(err)),
    }
}

impl View for Wad {
    type V = Map<Seq<char>, Seq<u8>>;

    closed spec fn view(&self) -> Map<Seq<char>, Seq<u8>> {
        self.files@
    }
}

/// Once reading the lump table fails, reading more of it fails the same way.
pub proof fn lemma_lumpinfos_err(s: Seq<u8>, ofs: int, k: nat, m: nat)
    requires
        k <= m,
        spec_lumpinfos(s, ofs, k) is Err,
    ensures
        spec_lumpinfos(s, ofs, m) == spec_lumpinfos(s, ofs, k),
    decreases m - k,
{
    if k < m {
        lemma_lumpinfos_err(s, ofs, k, (m - 1) as nat);
    }
}

/// The files of a list of entries, by name; a later entry wins over an earlier one.
pub open spec fn lumps_of(l: Seq<(Seq<char>, Seq<u8>)>) -> Map<Seq<char>, Seq<u8>>
    decreases l.len(),
{
    if l.len() == 0 {
        Map::empty()
    } else {
        lumps_of(l.drop_last()).insert(l.last().0, l.last().1)
    }
}

/// Reads the lump table of `n` entries at `ofs`.
fn read_lumpinfos(data: &[u8], ofs: u32, n: u32) -> (r: Result<Vec<(u32, u32, String)>, LumpError>)
    ensures
        match spec_lumpinfos(data@, ofs as int, n as nat) {
            Ok(l) => r matches Ok(v) && v@.len() == l.len() && forall|i: int| 0 <= i < l.len()
                ==> #[trigger] v@[i].0 == l[i].0 && v@[i].1 == l[i].1 && v@[i].2@ == l[i].2,
            Err(f) => r matches Err(g) && lump_fails(g, f),
        },
{
    let mut v: Vec<(u32, u32, String)> = Vec::new();
    let mut i: u32 = 0;
    let ghost mut acc: Seq<(u32, u32, Seq<char>)> = Seq::empty();
    while i < n
        invariant
            i <= n,
            spec_lumpinfos(data@, ofs as int, i as nat) == Ok::<
                Seq<(u32, u32, Seq<char>)>,
                WadFail,
            >(acc),
            v@.len() == acc.len(),
            forall|j: int| 0 <= j < acc.len() ==> #[trigger] v@[j].0 == acc[j].0 && v@[j].1
                == acc[j].1 && v@[j].2@ == acc[j].2,
        decreases n - i,
    {
        let e: u64 = ofs as u64 + (i as u64) * 32;
        match read_lumpinfo(data, e) {
            Err(f) => {
                proof {
                    lemma_lumpinfos_err(data@, ofs as int, (i + 1) as nat, n as nat);
                }
                return Err(f);
            },
            Ok((o, z, name)) => {
                let ghost entry = (o, z, name@);
                v.push((o, z, name));
                proof {
                    acc = acc.push(entry);
                }
            },
        }
        i = i + 1;
    }
    Ok(v)
}

/// The data of a lump: from its offset, its size in bytes or up to the end of the data.
fn lump_data(data: &[u8], offset: u32, size: u32) -> (r: Vec<u8>)
    ensures
        r@ == file_data(data@, offset as int, size as int),
{
    let len = data.len() as u64;
    let o = offset as u64;
    let z = size as u64;
    if o >= len {
        Vec::new()
    } else if z <= len - o {
        vstd::slice::slice_to_vec(&data[o as usize..(o + z) as usize])
    } else {
        vstd::slice::slice_to_vec(&data[o as usize..data.len()])
    }
}

impl Wad {
    /// No two lumps share a name.
    pub closed spec fn wf(&self) -> bool {
        self.files.wf()
    }

    /// Whether reading an archive from `data` panics: a lump's name fills its 16 bytes with no
    /// zero byte.
    pub fn load_panics(data: &[u8]) -> (r: bool)
        ensures
            r == (spec_wad(data@) matches Err(WadFail::Panic)),
    {
        if data.len() < 12 || u32_from(data, 0) != WAD_MAGIC {
            return false;
        }
        let count = u32_from(data, 4);
        let ofs = u32_from(data, 8);
        matches!(read_lumpinfos(data, ofs, count), Err(LumpError::Panic))
    }

    /// Reads an archive from its bytes.
    ///
    /// The lumps are those of the table, in order; where two have the same name, the later one
    /// is kept. Data that runs past the end is cut at the end.
    pub fn load(data: &[u8]) -> (r: Result<Wad, WadError>)
        requires
            !(spec_wad(data@) matches Err(WadFail::Panic)),
        ensures
            match spec_wad(data@) {
                Ok(l) => r matches Ok(w) && w.wf() && w@ == lumps_of(l),
                Err(f) => r matches Err(e) && wad_reports(e, f),
            },
    {
        if data.len() < 4 {
            return Err(WadError::Kind(WadErrorKind::UnexpectedEof));
        }
        if u32_from(data, 0) != WAD_MAGIC {
            return Err(WadError::Kind(WadErrorKind::InvalidMagicNumber));
        }
        if data.len() < 12 {
            return Err(WadError::Kind(WadErrorKind::UnexpectedEof));
        }
        let count = u32_from(data, 4);
        let ofs = u32_from(data, 8);
        let infos = match read_lumpinfos(data, ofs, count) {
            Ok(v) => v,
            Err(LumpError::Eof) => { return Err(WadError::Kind(WadErrorKind::UnexpectedEof)); },
            Err(LumpError::NonUtf8(e)) => { return Err(WadError::NonUtf8Name(e)); },
            Err(LumpError::Panic) => { return Err(WadError::Kind(WadErrorKind::Io)); },
        };
        let ghost l = spec_wad(data@)->Ok_0;
        proof {
            let l0 = spec_lumpinfos(data@, ofs as int, count as nat)->Ok_0;
            assert forall|j: int| 0 <= j < l.len() implies #[trigger] l[j].0 == infos@[j].2@
                && l[j].1 == file_data(data@, infos@[j].0 as int, infos@[j].1 as int) by {
                assert(l[j] == (l0[j].2, file_data(data@, l0[j].0 as int, l0[j].1 as int)));
                assert(infos@[j].0 == l0[j].0 && infos@[j].1 == l0[j].1 && infos@[j].2@ == l0[j].2);
            }
        }
        let mut files = FileTable::new();
        let mut i: usize = 0;
        while i < infos.len()
            invariant
                i <= infos@.len(),
                l.len() == infos@.len(),
                forall|j: int| 0 <= j < l.len() ==> #[trigger] l[j].0 == infos@[j].2@ && l[j].1
                    == file_data(data@, infos@[j].0 as int, infos@[j].1 as int),
                files.wf(),
                files@ == lumps_of(l.take(i as int)),
            decreases infos@.len() - i,
        {
            let (o, z, name) = &infos[i];
            let bytes = lump_data(data, *o, *z);
            files.insert(name.clone(), bytes);
            proof {
                assert(l.take(i + 1).drop_last() =~= l.take(i as int));
            }
            i = i + 1;
        }
        assert(l.take(i as int) =~= l);
        Ok(Wad { files })
    }

    /// The character set: the first 128 by 128 bytes of the `CONCHARS` lump, as a picture.
    pub fn open_conchars(&self) -> (r: Result<QPic, WadError>)
        requires
            self.wf(),
            self@.contains_key(conchars_name()) ==> self@[conchars_name()].len() >= 16384,
        ensures
            self@.contains_key(conchars_name()) ==> (r matches Ok(q) && q.spec_width() == 128
                && q.spec_height() == 128 && q.spec_indices() == self@[conchars_name()].take(
                16384,
            )),
            !self@.contains_key(conchars_name()) ==> (r matches Err(e) && e == WadError::NoConchars),
    {
        let name = "CONCHARS";
        proof {
            reveal_strlit("CONCHARS");
            assert(name@ =~= conchars_name());
        }
        match self.files.get(name) {
            Some(d) => {
                let indices = vstd::slice::slice_to_vec(&d[0..16384]);
                Ok(QPic { width: 128, height: 128, indices })
            },
            None => Err(WadError::NoConchars),
        }
    }

    /// The picture in the lump named `name`; the character set must be opened with
    /// `open_conchars`.
    pub fn open_qpic(&self, name: &str) -> (r: Result<QPic, WadError>)
        requires
            self.wf(),
            self@.contains_key(name@) && name@ != conchars_name() ==> !qpic_overflows(
                self@[name@],
            ),
        ensures
            name@ == conchars_name() ==> (r matches Err(e) && e == WadError::Kind(
                WadErrorKind::ConcharsUseDedicatedFunction,
            )),
            name@ != conchars_name() && !self@.contains_key(name@) ==> (r matches Err(e) && e
                == WadError::Kind(WadErrorKind::NoSuchFile)),
            name@ != conchars_name() && self@.contains_key(name@) ==> match spec_qpic(
                self@[name@],
            ) {
                Some((w, h, ix)) => r matches Ok(q) && q.spec_width() == w && q.spec_height() == h
                    && q.spec_indices() == ix,
                None => r matches Err(e) && e == WadError::Kind(WadErrorKind::UnexpectedEof),
            },
    {
        let key = name.to_owned();
        let conchars = "CONCHARS".to_owned();
        proof {
            reveal_strlit("CONCHARS");
            assert(conchars@ =~= conchars_name());
        }
        if key == conchars {
            return Err(WadError::Kind(WadErrorKind::ConcharsUseDedicatedFunction));
        }
        match self.files.get(name) {
            Some(d) => QPic::load(d),
            None => Err(WadError::Kind(WadErrorKind::NoSuchFile)),
        }
    }
}

} // verus!
