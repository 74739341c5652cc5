//! PAK archives: a table of named files in one file.
//!
//! The archive starts with the bytes `PACK`, the offset of its table and the table's size in
//! bytes. Each entry of the table takes 64 bytes: a zero-terminated name in 56 bytes, the offset
//! of the file's data and its size.

use vstd::prelude::*;
use vstd::utf8::{decode_utf8, valid_utf8};
use std::string::FromUtf8Error;
use crate::wire::{read_i32_le, seq_u32_le, u32_le};
use crate::util::{find_nul, lemma_find_nul, find_nul_from, read_into, readable, string_from_utf8};
use crate::files::FileTable;

verus! {

/// The size of an entry of the file table.
pub const PAK_ENTRY_SIZE: usize = 64;

/// An error in reading a PAK archive.
#[derive(Debug)]
pub enum PakError {
    /// The data ended before the archive did.
    Io,
    /// The archive does not start with `PACK`.
    InvalidMagicNumber([u8; 4]),
    /// The file table's offset is not positive.
    InvalidTableOffset(i32),
    /// The file table's size is not a positive multiple of the entry size.
    InvalidTableSize(i32),
    /// A file's offset is not positive.
    InvalidFileOffset(i32),
    /// A file's size is not positive.
    InvalidFileSize(i32),
    /// A file name fills its 56 bytes with no zero byte.
    FileNameTooLong(String),
    /// A file name is not UTF-8.
    NonUtf8FileName(FromUtf8Error),
    /// No file of the archive has this name.
    NoSuchFile(String),
}

/// How reading an archive fails.
pub enum PakFail {
    Io,
    Magic,
    TableOffset,
    TableSize,
    FileOffset,
    FileSize,
    NameTooLong,
    NonUtf8,
}

/// The `i32` at `p`.
pub open spec fn i32_at(s: Seq<u8>, p: int) -> i32 {
    seq_u32_le(s.subrange(p, p + 4)) as i32
}

/// The data of a file: from its offset, its size in bytes or up to the end of the archive.
pub open spec fn file_data(s: Seq<u8>, offset: int, size: int) -> Seq<u8> {
    if offset >= s.len() {
        Seq::empty()
    } else if offset + size <= s.len() {
        s.subrange(offset, offset + size)
    } else {
        s.subrange(offset, s.len() as int)
    }
}

/// Reading the entry of the file table at `e`: the file's name and data.
pub open spec fn spec_entry(s: Seq<u8>, e: int) -> Result<(Seq<char>, Seq<u8>), PakFail> {
    if e + 60 > s.len() {
        Err(PakFail::Io)
    } else if i32_at(s, e + 56) <= 0 {
        Err(PakFail::FileOffset)
    } else if e + 64 > s.len() {
        Err(PakFail::Io)
    } else {
        let offset = i32_at(s, e + 56);
        let size = i32_at(s, e + 60);
        if size <= 0 {
            Err(PakFail::FileSize)
        } else {
            match find_nul(s.subrange(e, e + 56), 0) {
                None => Err(PakFail::NameTooLong),
                Some(last) => {
                    let name = s.subrange(e, e + last);
                    if !valid_utf8(name) {
                        Err(PakFail::NonUtf8)
                    } else {
                        Ok((decode_utf8(name), file_data(s, offset as int, size as int)))
                    }
                },
            }
        }
    }
}

/// The header of an archive: the offset of its table and the number of entries.
pub open spec fn spec_header(s: Seq<u8>) -> Result<(int, int), PakFail> {
    if s.len() < 4 {
        Err(PakFail::Io)
    } else if s.subrange(0, 4) != seq![0x50u8, 0x41u8, 0x43u8, 0x4bu8] {
        Err(PakFail::Magic)
    } else if s.len() < 8 {
        Err(PakFail::Io)
    } else if i32_at(s, 4) <= 0 {
        Err(PakFail::TableOffset)
    } else if s.len() < 12 {
        Err(PakFail::Io)
    } else if i32_at(s, 8) <= 0 || i32_at(s, 8) % 64 != 0 {
        Err(PakFail::TableSize)
    } else {
        Ok((i32_at(s, 4) as int, i32_at(s, 8) / 64))
    }
}

/// Reading the first `n` entries of a table at `offset`.
pub open spec fn spec_entries(s: Seq<u8>, offset: int, n: nat) -> Result<
    Seq<(Seq<char>, Seq<u8>)>,
    PakFail,
>
    decreases n,
{
    if n == 0 {
        Ok(Seq::empty())
    } else {
        match spec_entries(s, offset, (n - 1) as nat) {
            Err(f) => Err(f),
            Ok(l) => match spec_entry(s, offset + (n - 1) * 64) {
                Err(f) => Err(f),
                Ok(x) => Ok(l.push(x)),
            },
        }
    }
}

/// Reading an archive: its entries in table order, or how it fails.
pub open spec fn spec_parse(s: Seq<u8>) -> Result<Seq<(Seq<char>, Seq<u8>)>, PakFail> {
    match spec_header(s) {
        Err(f) => Err(f),
        Ok((offset, n)) => spec_entries(s, offset, n as nat),
    }
}

/// The files of a list of entries, by name; a later entry wins over an earlier one.
pub open spec fn files_of(l: Seq<(Seq<char>, Seq<u8>)>) -> Map<Seq<char>, Seq<u8>>
    decreases l.len(),
{
    if l.len() == 0 {
        Map::empty()
    } else {
        files_of(l.drop_last()).insert(l.last().0, l.last().1)
    }
}

/// Whether an error is the one that a failure is reported as.
pub open spec fn reports(e: PakError, f: PakFail) -> bool {
    match f {
        PakFail::Io => e is Io,
        PakFail::Magic => e is InvalidMagicNumber,
        PakFail::TableOffset => e is InvalidTableOffset,
        PakFail::TableSize => e is InvalidTableSize,
        PakFail::FileOffset => e is InvalidFileOffset,
        PakFail::FileSize => e is InvalidFileSize,
        PakFail::NameTooLong => e is FileNameTooLong,
        PakFail::NonUtf8 => e is NonUtf8FileName,
    }
}

/// An open PAK archive: its files by name.
pub struct Pak {
    files: FileTable,
}

/// `String::from_utf8_lossy`: the bytes as text, with what is not UTF-8 replaced. The standard
/// library documents that valid UTF-8 comes back unchanged; the replacement of other bytes is
/// not stated here.
#[verifier::external_body]
fn string_from_utf8_lossy(bytes: &[u8]) -> (r: String)
    ensures
        valid_utf8(bytes@) ==> r@ == decode_utf8(bytes@),
{
    String::from_utf8_lossy(bytes).into_owned()
}

/// Once reading the entries fails, reading more of them fails the same way.
pub proof fn lemma_entries_err(s: Seq<u8>, offset: int, k: nat, m: nat)
    requires
        k <= m,
        spec_entries(s, offset, k) is Err,
    ensures
        spec_entries(s, offset, m) == spec_entries(s, offset, k),
    decreases m - k,
{
    if k < m {
        lemma_entries_err(s, offset, k, (m - 1) as nat);
    }
}

/// The `i32` at `p`.
fn i32_from(data: &[u8], p: usize) -> (r: i32)
    requires
        p + 4 <= data.len(),
    ensures
        r == i32_at(data@, p as int),
{
    read_i32_le(&data[p..p + 4])
}

/// Reads the entry of the file table at `e`.
fn read_entry(data: &[u8], e: u64) -> (r: Result<(String, Vec<u8>), PakError>)
    ensures
        match spec_entry(data@, e as int) {
            Ok((n, d)) => r matches Ok((x, y)) && x@ == n && y@ == d,
            Err(f) => r matches Err(err) && reports(err, f),
        },
{
    let len = data.len() as u64;
    if e > len || len - e < 60 {
        return Err(PakError::Io);
    }
    let p = e as usize;
    let offset = i32_from(data, p + 56);
    if offset <= 0 {
        return Err(PakError::InvalidFileOffset(offset));
    }
    if len - e < 64 {
        return Err(PakError::Io);
    }
    let size = i32_from(data, p + 60);
    if size <= 0 {
        return Err(PakError::InvalidFileSize(size));
    }
    let path = &data[p..p + 56];
    let last = match find_nul_from(path, 0) {
        Some(z) => z,
        None => { return Err(PakError::FileNameTooLong(string_from_utf8_lossy(path))); },
    };
    proof {
        lemma_find_nul(path@, 0);
        assert(path@.subrange(0, last as int) =~= data@.subrange(p as int, p + last));
    }
    let name = match string_from_utf8(vstd::slice::slice_to_vec(&path[0..last])) {
        Ok(n) => n,
        Err(err) => { return Err(PakError::NonUtf8FileName(err)); },
    };
    let o = offset as u64;
    let z = size as u64;
    let bytes = if o >= len {
        Vec::new()
    } else if z <= len - o {
        vstd::slice::slice_to_vec(&data[o as usize..(o + z) as usize])
    } else {
        vstd::slice::slice_to_vec(&data[o as usize..data.len()])
    };
    proof {
        if o >= len {
            assert(bytes@ =~= Seq::<u8>::empty());
        }
    }
    Ok((name, bytes))
}

impl View for Pak {
    type V = Map<Seq<char>, Seq<u8>>;

    closed spec fn view(&self) -> Map<Seq<char>, Seq<u8>> {
        self.files@
    }
}

impl Pak {
    /// No two files share a name.
    pub closed spec fn wf(&self) -> bool {
        self.files.wf()
    }

    /// Reads an archive from its bytes.
    ///
    /// The archive's files are those of its table, in order; where two have the same name, the
    /// later one is kept. Data that runs past the end of the archive is cut at its end.
    pub fn from_bytes(data: &[u8]) -> (r: Result<Pak, PakError>)
        ensures
            match spec_parse(data@) {
                Ok(l) => r matches Ok(p) && p.wf() && p@ == files_of(l),
                Err(f) => r matches Err(e) && reports(e, f),
            },
    {
        let len = data.len();
        if len < 4 {
            return Err(PakError::Io);
        }
        if !(data[0] == 0x50 && data[1] == 0x41 && data[2] == 0x43 && data[3] == 0x4b) {
            proof {
                assert(!(data@.subrange(0, 4) =~= seq![0x50u8, 0x41u8, 0x43u8, 0x4bu8]) ==> data@.subrange(0, 4) != seq![0x50u8, 0x41u8, 0x43u8, 0x4bu8]);
                assert(data@.subrange(0, 4)[0] == data@[0]);
                assert(data@.subrange(0, 4)[1] == data@[1]);
                assert(data@.subrange(0, 4)[2] == data@[2]);
                assert(data@.subrange(0, 4)[3] == data@[3]);
            }
            return Err(PakError::InvalidMagicNumber([data[0], data[1], data[2], data[3]]));
        }
        assert(data@.subrange(0, 4) =~= seq![0x50u8, 0x41u8, 0x43u8, 0x4bu8]);
        if len < 8 {
            return Err(PakError::Io);
        }
        let table_offset = read_i32_le(&data[4..8]);
        if table_offset <= 0 {
            return Err(PakError::InvalidTableOffset(table_offset));
        }
        if len < 12 {
            return Err(PakError::Io);
        }
        let table_size = read_i32_le(&data[8..12]);
        if table_size <= 0 || table_size % 64 != 0 {
            return Err(PakError::InvalidTableSize(table_size));
        }
        let n: u64 = (table_size / 64) as u64;
        let base: u64 = table_offset as u64;
        let mut pak = Pak { files: FileTable::new() };
        let ghost mut acc: Seq<(Seq<char>, Seq<u8>)> = Seq::empty();
        let mut i: u64 = 0;
        while i < n
            invariant
                i <= n,
                n == i32_at(data@, 8) / 64,
                base == i32_at(data@, 4),
                0 < base <= i32::MAX,
                n <= i32::MAX / 64,
                spec_header(data@) == Ok::<(int, int), PakFail>((base as int, n as int)),
                spec_entries(data@, base as int, i as nat) == Ok::<
                    Seq<(Seq<char>, Seq<u8>)>,
                    PakFail,
                >(acc),
                pak.wf(),
                pak@ == files_of(acc),
            decreases n - i,
        {
            let e = base + i * 64;
            match read_entry(data, e) {
                Err(err) => {
                    proof {
                        lemma_entries_err(data@, base as int, (i + 1) as nat, n as nat);
                    }
                    return Err(err);
                },
                Ok((name, bytes)) => {
                    let ghost entry = (name@, bytes@);
                    pak.files.insert(name, bytes);
                    proof {
                        assert(acc.push(entry).drop_last() =~= acc);
                        acc = acc.push(entry);
                    }
                },
            }
            i = i + 1;
        }
        Ok(pak)
    }

    /// The data of the file named `path`.
    pub fn open(&self, path: &str) -> (r: Result<&[u8], PakError>)
        requires
            self.wf(),
        ensures
            self@.contains_key(path@) ==> (r matches Ok(d) && d@ == self@[path@]),
            !self@.contains_key(path@) ==> (r matches Err(PakError::NoSuchFile(n)) && n@ == path@),
    {
        match self.files.get(path) {
            Some(d) => Ok(d),
            None => Err(PakError::NoSuchFile(path.to_owned())),
        }
    }

    /// The names and data of the files.
    pub fn iter(&self) -> (r: Vec<(String, Vec<u8>)>)
        requires
            self.wf(),
        ensures
            forall|k: Seq<char>| #[trigger] self@.contains_key(k) <==> exists|i: int|
                0 <= i < r@.len() && r@[i].0@ == k,
            forall|i: int| 0 <= i < r@.len() ==> #[trigger] self@[r@[i].0@] == r@[i].1@,
    {
        self.files.entries()
    }
}

/// A file of an archive, read from its start.
pub struct File<'f> {
    data: &'f [u8],
    pos: usize,
}

impl<'f> File<'f> {
    /// The bytes of the file.
    pub closed spec fn data(&self) -> Seq<u8> {
        self.data@
    }

    /// How many bytes have been read.
    pub closed spec fn pos(&self) -> nat {
        self.pos as nat
    }

    /// The file with the given bytes, to be read from its start.
    pub fn new(data: &'f [u8]) -> (r: File<'f>)
        ensures
            r.data() == data@,
            r.pos() == 0,
    {
        File { data, pos: 0 }
    }

    /// Reads as many bytes as `out` holds, or as remain if fewer, into the start of `out`, and
    /// gives their number.
    pub fn read(&mut self, out: &mut [u8]) -> (r: usize)
        ensures
            final(self).data() == old(self).data(),
            r == readable(old(self).data(), old(self).pos() as int, old(out)@.len() as int),
            final(out)@ == read_into(old(out)@, old(self).data(), old(self).pos() as int),
            final(self).pos() == old(self).pos() + r,
    {
        let len = self.data.len();
        let rest: usize = if self.pos < len {
            len - self.pos
        } else {
            0
        };
        let n = if out.len() < rest {
            out.len()
        } else {
            rest
        };
        let start = self.pos;
        let mut i: usize = 0;
        while i < n
            invariant
                len == self.data@.len(),
                n <= out@.len(),
                n == 0 || (start == self.pos && start + n <= len),
                i <= n,
                out@.len() == old(out)@.len(),
                forall|k: int| 0 <= k < i ==> #[trigger] out@[k] == self.data@[start + k],
                forall|k: int| i <= k < out@.len() ==> #[trigger] out@[k] == old(out)@[k],
            decreases n - i,
        {
            out[i] = self.data[start + i];
            i = i + 1;
        }
        assert(out@ =~= read_into(old(out)@, self.data@, self.pos as int));
        self.pos = self.pos + n;
        n
    }
}


/// The data of a file of the table is taken from the offset in its entry, as many bytes as the
/// full `i32` size in its entry says, where the archive holds them all, and otherwise up to its
/// end.
pub proof fn lemma_entry_data(s: Seq<u8>, e: int)
    requires
        0 <= e,
    ensures
        spec_entry(s, e) matches Ok((n, d)) ==> {
            let offset = i32_at(s, e + 56) as int;
            let size = i32_at(s, e + 60) as int;
            &&& 0 < offset
            &&& 0 < size
            &&& size == s[e + 60] + 256 * s[e + 61] + 65536 * s[e + 62] + 16777216 * s[e + 63]
            &&& offset + size <= s.len() ==> d == s.subrange(offset, offset + size) && d.len() == size
            &&& offset + size > s.len() && offset < s.len() ==> d == s.subrange(offset, s.len() as int)
            &&& offset >= s.len() ==> d.len() == 0
        },
{
    if spec_entry(s, e) is Ok {
        let w = s.subrange(e + 60, e + 64);
        assert(w[0] == s[e + 60] && w[1] == s[e + 61] && w[2] == s[e + 62] && w[3] == s[e + 63]);
        lemma_positive_le(w[0], w[1], w[2], w[3]);
    }
}

/// A positive little-endian `i32` is the sum of its bytes, each weighed by its place.
proof fn lemma_positive_le(b0: u8, b1: u8, b2: u8, b3: u8)
    by (bit_vector)
    ensures
        (u32_le(b0, b1, b2, b3) as i32) > 0 ==> (u32_le(b0, b1, b2, b3) as i32) == b0 + 256 * b1
            + 65536 * b2 + 16777216 * b3,
{
}

} // verus!
