use richter::bsp::texture::{
    load_texture, load_textures, remap_texinfo_textures, sequence_textures, BspFileTexture,
    BspTextureKind,
};
use richter::bsp::load::BspFileError;
use richter::bsp::{BspError, BspTexInfoBits};

fn le32(v: i32) -> [u8; 4] {
    v.to_le_bytes()
}

/// A texture of 4 by 4 pixels named `name`, with the pixels of each level after its header.
fn texture_bytes(name: &[u8]) -> Vec<u8> {
    let mut b = vec![0u8; 16];
    b[..name.len()].copy_from_slice(name);
    b.extend_from_slice(&le32(4));
    b.extend_from_slice(&le32(4));
    for off in [40, 56, 60, 61] {
        b.extend_from_slice(&le32(off));
    }
    b.extend((0..16).map(|x| x as u8));
    b.extend([100, 101, 102, 103]);
    b.push(200);
    b
}

fn file_texture(name: &str, width: u32, fill: u8) -> BspFileTexture {
    BspFileTexture {
        name: name.to_owned(),
        width,
        height: width,
        mipmaps: [vec![fill; 4], vec![fill], Vec::new(), Vec::new()],
    }
}

#[test]
fn texture_is_read_and_named_in_lowercase() {
    let mut data = vec![9u8; 3];
    data.extend(texture_bytes(b"WaTeR"));
    let (t, end) = load_texture(&data, 1, 2).unwrap();
    assert_eq!(t.name, "water");
    assert_eq!((t.width, t.height), (4, 4));
    assert_eq!(t.mipmaps[0], (0..16).collect::<Vec<u8>>());
    assert_eq!(t.mipmaps[1], vec![100, 101, 102, 103]);
    assert_eq!(t.mipmaps[2], vec![200]);
    assert!(t.mipmaps[3].is_empty());
    assert_eq!(end, 3 + 61);

    // a name of sixteen bytes has no zero byte
    let full = texture_bytes(b"ABCDEFGHIJKLMNOP");
    assert_eq!(load_texture(&full, 0, 0).unwrap().0.name, "abcdefghijklmnop");

    // cut short before the name ends, before the header ends, and a name that is not UTF-8
    assert!(matches!(load_texture(&data[..10], 3, 0), Err(BspError::Io)));
    assert!(matches!(load_texture(&data[..30], 3, 0), Err(BspError::Io)));
    let bad = texture_bytes(&[0xff, 0xfe]);
    assert!(matches!(load_texture(&bad, 0, 0), Err(BspError::Other(_))));

    // levels are read as far as the data holds them
    let short = &data[..3 + 45];
    let (t, end) = load_texture(short, 3, 0).unwrap();
    assert_eq!(t.mipmaps[0], vec![0, 1, 2, 3, 4]);
    assert!(t.mipmaps[1].is_empty());
    assert_eq!(end, 3 + 61);
}

#[test]
fn texture_section_is_read() {
    let mut sec = Vec::new();
    sec.extend_from_slice(&le32(2));
    sec.extend_from_slice(&le32(12));
    sec.extend_from_slice(&le32(-1));
    sec.extend(texture_bytes(b"sky"));
    let size = sec.len();
    assert_eq!(size, 73);
    let v = load_textures(&sec, 0, size).unwrap();
    assert_eq!(v.len(), 2);
    assert_eq!(v[0].name, "sky");
    assert_eq!(v[1].name, "");
    assert_eq!((v[1].width, v[1].height), (0, 0));
    assert!(v[1].mipmaps.iter().all(|m| m.is_empty()));

    // the section must end where reading ended
    assert!(matches!(load_textures(&sec, 0, size + 1), Err(BspError::Other(_))));

    let mut neg = sec.clone();
    neg[8..12].copy_from_slice(&le32(-2));
    assert!(matches!(load_textures(&neg, 0, size), Err(BspError::Other(_))));

    let mut count = sec.clone();
    count[0..4].copy_from_slice(&le32(-1));
    assert!(matches!(load_textures(&count, 0, size), Err(BspError::Other(_))));

    assert!(matches!(load_textures(&sec[..6], 0, size), Err(BspError::Io)));
    assert!(matches!(load_textures(&sec, 200, 0), Err(BspError::Io)));

    // a section without textures ends after its count
    assert_eq!(load_textures(&le32(0), 0, 4).unwrap().len(), 0);
}

#[test]
fn animated_textures_are_sequenced() {
    let files = vec![
        file_texture("+1slip", 8, 1),
        file_texture("wall", 16, 2),
        file_texture("+0slip", 32, 3),
        file_texture("+aslip", 64, 4),
        file_texture("sky", 128, 5),
    ];
    let (textures, ids) = sequence_textures(&files).unwrap();
    assert_eq!(ids, vec![2, 0, 2, 2, 1]);
    assert_eq!(textures.len(), 3);
    assert_eq!(textures[0].name(), "wall");
    assert_eq!(textures[1].name(), "sky");
    assert_eq!(textures[1].dimensions(), (128, 128));
    assert!(matches!(textures[0].kind(), BspTextureKind::Static(f) if f.mipmaps[0] == vec![2; 4]));
    assert_eq!(textures[2].name(), "slip");
    assert_eq!(textures[2].dimensions(), (32, 32));
    match textures[2].kind() {
        BspTextureKind::Animated { primary, alternate } => {
            assert_eq!(primary.len(), 2);
            assert_eq!(primary[0].mipmaps[0], vec![3; 4]);
            assert_eq!(primary[1].mipmaps[0], vec![1; 4]);
            let alt = alternate.as_ref().unwrap();
            assert_eq!(alt.len(), 1);
            assert_eq!(alt[0].mipmaps[1], vec![4]);
        }
        _ => panic!("slip should be animated"),
    }
}

#[test]
fn texture_sequencing_errors() {
    let bad = vec![file_texture("+0ok", 8, 0), file_texture("+zfoo", 8, 0), file_texture("+qbar", 8, 0)];
    match sequence_textures(&bad) {
        Err(BspFileError::InvalidTextureFrameSpecifier(n)) => assert_eq!(n, "+zfoo"),
        _ => panic!("expected an invalid frame"),
    }
    let no_primary = vec![file_texture("+0ok", 8, 0), file_texture("+afoo", 8, 0)];
    match sequence_textures(&no_primary) {
        Err(BspFileError::EmptyPrimaryAnimation(n)) => assert_eq!(n, "foo"),
        _ => panic!("expected a missing primary animation"),
    }
    let (t, ids) = sequence_textures(&Vec::new()).unwrap();
    assert!(t.is_empty() && ids.is_empty());
}

#[test]
fn texinfo_points_at_sequenced_textures() {
    let info = |tex_id| BspTexInfoBits {
        s_vector: [1, 2, 3],
        s_offset: 4,
        t_vector: [5, 6, 7],
        t_offset: 8,
        tex_id,
        special: false,
    };
    let mut v = vec![info(0), info(2), info(1)];
    remap_texinfo_textures(&mut v, &vec![5, 6, 7]);
    assert_eq!(v.iter().map(|t| t.tex_id).collect::<Vec<_>>(), vec![5, 7, 6]);
    assert_eq!(v[1].s_vector, [1, 2, 3]);
    assert_eq!(v[1].t_offset, 8);
}
