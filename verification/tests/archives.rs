use richter::pak::{File, Pak, PakError};
use richter::vfs::{Vfs, VfsSource};
use richter::wad::{QPic, Wad, WadError, WadErrorKind};

fn le32(v: i32) -> [u8; 4] {
    v.to_le_bytes()
}

fn pak_bytes(entries: &[(&str, &[u8])]) -> Vec<u8> {
    let mut data = Vec::new();
    let mut table = Vec::new();
    let mut offset = 12;
    for (_, d) in entries {
        offset += d.len();
    }
    data.extend_from_slice(b"PACK");
    data.extend_from_slice(&le32(offset as i32));
    data.extend_from_slice(&le32((entries.len() * 64) as i32));
    let mut pos = 12;
    for (name, d) in entries {
        let mut n = [0u8; 56];
        n[..name.len()].copy_from_slice(name.as_bytes());
        table.extend_from_slice(&n);
        table.extend_from_slice(&le32(pos as i32));
        table.extend_from_slice(&le32(d.len() as i32));
        data.extend_from_slice(d);
        pos += d.len();
    }
    data.extend_from_slice(&table);
    data
}

#[test]
fn pak_reads_files() {
    let data = pak_bytes(&[("progs.dat", b"abc"), ("gfx/pop.lmp", b"xy")]);
    let pak = Pak::from_bytes(&data).unwrap();
    assert_eq!(pak.open("progs.dat").unwrap(), b"abc");
    assert_eq!(pak.open("gfx/pop.lmp").unwrap(), b"xy");
    assert!(matches!(pak.open("nope"), Err(PakError::NoSuchFile(_))));
    let mut names: Vec<String> = pak.iter().into_iter().map(|(n, _)| n).collect();
    names.sort();
    assert_eq!(names, vec![String::from("gfx/pop.lmp"), String::from("progs.dat")]);
}

#[test]
fn pak_later_entry_wins() {
    let data = pak_bytes(&[("a", b"1"), ("a", b"2")]);
    let pak = Pak::from_bytes(&data).unwrap();
    assert_eq!(pak.open("a").unwrap(), b"2");
    assert_eq!(pak.iter().len(), 1);
}

#[test]
fn pak_errors() {
    assert!(matches!(Pak::from_bytes(b"PAC"), Err(PakError::Io)));
    assert!(matches!(Pak::from_bytes(b"JUNK\0\0\0\0"), Err(PakError::InvalidMagicNumber(_))));
    let mut bad_offset = b"PACK".to_vec();
    bad_offset.extend_from_slice(&le32(0));
    bad_offset.extend_from_slice(&le32(64));
    assert!(matches!(Pak::from_bytes(&bad_offset), Err(PakError::InvalidTableOffset(0))));
    let mut bad_size = b"PACK".to_vec();
    bad_size.extend_from_slice(&le32(12));
    bad_size.extend_from_slice(&le32(65));
    assert!(matches!(Pak::from_bytes(&bad_size), Err(PakError::InvalidTableSize(65))));
}

fn wad_bytes(lumps: &[(&str, &[u8])]) -> Vec<u8> {
    let mut data = Vec::new();
    data.extend_from_slice(b"WAD2");
    data.extend_from_slice(&(lumps.len() as u32).to_le_bytes());
    let mut offset = 12;
    for (_, d) in lumps {
        offset += d.len();
    }
    data.extend_from_slice(&(offset as u32).to_le_bytes());
    let mut table = Vec::new();
    let mut pos = 12u32;
    for (name, d) in lumps {
        table.extend_from_slice(&pos.to_le_bytes());
        table.extend_from_slice(&(d.len() as u32).to_le_bytes());
        table.extend_from_slice(&(d.len() as u32).to_le_bytes());
        table.extend_from_slice(&[0x42, 0, 0, 0]);
        let mut n = [0u8; 16];
        n[..name.len()].copy_from_slice(name.as_bytes());
        table.extend_from_slice(&n);
        data.extend_from_slice(d);
        pos += d.len() as u32;
    }
    data.extend_from_slice(&table);
    data
}

#[test]
fn wad_reads_qpics() {
    let pic: Vec<u8> = vec![2, 0, 0, 0, 1, 0, 0, 0, 7, 9];
    let conchars = vec![5u8; 128 * 128];
    let data = wad_bytes(&[("PIC", &pic), ("CONCHARS", &conchars)]);
    let wad = Wad::load(&data).unwrap();
    let q = wad.open_qpic("PIC").unwrap();
    assert_eq!((q.width(), q.height()), (2, 1));
    assert_eq!(q.indices(), &[7, 9]);
    let c = wad.open_conchars().unwrap();
    assert_eq!((c.width(), c.height()), (128, 128));
    assert_eq!(c.indices().len(), 128 * 128);
    assert!(matches!(
        wad.open_qpic("CONCHARS"),
        Err(WadError::Kind(WadErrorKind::ConcharsUseDedicatedFunction))
    ));
    assert!(matches!(wad.open_qpic("NONE"), Err(WadError::Kind(WadErrorKind::NoSuchFile))));
}

#[test]
fn wad_errors() {
    assert!(matches!(Wad::load(b"WAD"), Err(WadError::Kind(WadErrorKind::UnexpectedEof))));
    assert!(matches!(
        Wad::load(b"WAD3\0\0\0\0\0\0\0\0"),
        Err(WadError::Kind(WadErrorKind::InvalidMagicNumber))
    ));
    let pic = QPic::load(&[1, 0, 0, 0, 3, 0, 0, 0, 1]).unwrap();
    assert_eq!(pic.indices(), &[1]);
    assert!(matches!(QPic::load(&[1, 0]), Err(WadError::Kind(WadErrorKind::UnexpectedEof))));
}

#[test]
fn wad_unterminated_name_panics_in_reading() {
    let mut data = wad_bytes(&[("NAME", b"x")]);
    let len = data.len();
    for b in &mut data[len - 16..] {
        *b = b'A';
    }
    assert!(Wad::load_panics(&data));
}

#[test]
fn vfs_searches_newest_first() {
    let mut vfs = Vfs::new();
    vfs.add_pak(Pak::from_bytes(&pak_bytes(&[("a.txt", b"old"), ("b.txt", b"bee")])).unwrap());
    vfs.add_directory("id1").unwrap();
    vfs.add_pak(Pak::from_bytes(&pak_bytes(&[("a.txt", b"new")])).unwrap());

    let a = vfs.sources("a.txt");
    assert_eq!(a.len(), 1);
    assert!(matches!(a[0], VfsSource::PakFile(d) if d == b"new"));

    let b = vfs.sources("b.txt");
    assert_eq!(b.len(), 2);
    assert!(matches!(&b[0], VfsSource::Directory(d) if d == "id1"));
    assert!(matches!(b[1], VfsSource::PakFile(d) if d == b"bee"));

    let c = vfs.sources("c.txt");
    assert_eq!(c.len(), 1);
    assert!(matches!(&c[0], VfsSource::Directory(_)));
}

#[test]
fn pak_file_is_read_in_pieces() {
    let data = pak_bytes(&[("maps/e1m1.bsp", b"abcde")]);
    let pak = Pak::from_bytes(&data).unwrap();
    let mut f = File::new(pak.open("maps/e1m1.bsp").unwrap());
    let mut buf = [0u8; 2];
    assert_eq!(f.read(&mut buf), 2);
    assert_eq!(&buf, b"ab");
    assert_eq!(f.read(&mut buf), 2);
    assert_eq!(&buf, b"cd");
    assert_eq!(f.read(&mut buf), 1);
    assert_eq!(&buf, b"ed");
    assert_eq!(f.read(&mut buf), 0);
}

#[test]
fn test_pak0() {
    // the archive is built in memory in place of a file on disk
    let pak0 = pak_bytes(&[("progs.dat", b"\x06\x00\x00\x00"), ("gfx/palette.lmp", &[0u8; 768])]);
    let pak0 = Pak::from_bytes(&pak0).expect("pak0 load failed!");
    assert_eq!(pak0.open("gfx/palette.lmp").unwrap().len(), 768);
}
