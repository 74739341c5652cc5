use richter::model::SyncType;
use richter::sprite::{load, parse, SpriteFrame, SpriteKind, MAGIC, VERSION};

fn le32(v: i32) -> [u8; 4] {
    v.to_le_bytes()
}

fn header(frames: i32) -> Vec<u8> {
    let mut b = Vec::new();
    b.extend_from_slice(&MAGIC.to_le_bytes());
    b.extend_from_slice(&VERSION.to_le_bytes());
    b.extend_from_slice(&le32(SpriteKind::Oriented.code() as i32));
    b.extend_from_slice(&1.5f32.to_bits().to_le_bytes());
    b.extend_from_slice(&le32(2));
    b.extend_from_slice(&le32(3));
    b.extend_from_slice(&le32(frames));
    b.extend_from_slice(&le32(0));
    b.extend_from_slice(&le32(SyncType::Rand.code() as i32));
    b
}

fn picture(ox: i32, oz: i32, w: i32, h: i32, fill: u8) -> Vec<u8> {
    let mut b = Vec::new();
    for v in [ox, oz, w, h] {
        b.extend_from_slice(&le32(v));
    }
    b.extend(std::iter::repeat(fill).take((w * h) as usize));
    b
}

fn two_frames() -> Vec<u8> {
    let mut b = header(2);
    b.extend_from_slice(&le32(0));
    b.extend(picture(-1, 1, 2, 1, 7));
    b.extend_from_slice(&le32(1));
    b.extend_from_slice(&le32(2));
    b.extend_from_slice(&0.1f32.to_bits().to_le_bytes());
    b.extend_from_slice(&0.2f32.to_bits().to_le_bytes());
    b.extend(picture(0, 0, 1, 1, 8));
    b.extend(picture(3, 4, 1, 2, 9));
    b
}

#[test]
fn sprite_frames_are_read() {
    let data = two_frames();
    let m = load(&data);
    assert_eq!(m.kind(), SpriteKind::Oriented);
    assert_eq!(f32::from_bits(m.radius_bits()), 1.5);
    assert_eq!((m.max_width, m.max_height), (2, 3));
    assert_eq!(m.frames().len(), 2);
    match &m.frames()[0] {
        SpriteFrame::Static { frame } => {
            assert_eq!((frame.width(), frame.height()), (2, 1));
            assert_eq!((frame.up, frame.down, frame.left, frame.right), (1, 0, -1, 1));
            assert_eq!(frame.indexed(), &[7, 7]);
        }
        _ => panic!("the first frame is one picture"),
    }
    match &m.frames()[1] {
        SpriteFrame::Animated { subframes, durations } => {
            assert_eq!(durations.iter().map(|d| f32::from_bits(*d)).collect::<Vec<_>>(), vec![0.1, 0.2]);
            assert_eq!(subframes.len(), 2);
            assert_eq!(subframes[1].indexed(), &[9, 9]);
            assert_eq!((subframes[1].up, subframes[1].down, subframes[1].right), (4, 2, 4));
        }
        _ => panic!("the second frame is a group"),
    }
}

#[test]
fn invalid_sprites_are_refused() {
    let data = two_frames();
    assert!(parse(&data[..data.len() - 1]).is_none());
    let mut bad_magic = data.clone();
    bad_magic[0] = b'X';
    assert!(parse(&bad_magic).is_none());
    let mut no_frames = data.clone();
    no_frames[24..28].copy_from_slice(&le32(0));
    assert!(parse(&no_frames).is_none());
    let mut negative_width = data.clone();
    negative_width[36 + 4 + 8..36 + 4 + 12].copy_from_slice(&le32(-2));
    assert!(parse(&negative_width).is_none());
    let mut bad_kind = data.clone();
    bad_kind[8..12].copy_from_slice(&le32(9));
    assert!(parse(&bad_kind).is_none());
    assert!(parse(&data).is_some());
}

#[test]
fn sprite_with_bad_version_is_refused() {
    let mut data = two_frames();
    data[4] = 2;
    assert!(parse(&data).is_none());
}
