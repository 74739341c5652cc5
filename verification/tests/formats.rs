use richter::engine::indexed_to_rgba;
use richter::load::{load_i16le, load_i32le, load_u16le, load_u32le, load_u8, LoadBound, LoadError, LoadRange};
use richter::math::{Axis, HyperplaneSide};
use richter::mdl::{read_polygons, read_texcoords, MdlFileError, StaticTexture};
use richter::model::SyncType;
use richter::protocol::{ClCmd, SvCmd, UserInfo};
use richter::sprite::SpriteKind;
use richter::input::InputState;

#[test]
fn rgba_from_palette() {
    let mut palette = [0u8; 768];
    for i in 0..768 {
        palette[i] = (i % 256) as u8;
    }
    let rgba = indexed_to_rgba(&palette, &[1, 0xff, 0]);
    assert_eq!(rgba, vec![3, 4, 5, 0xff, 0, 0, 0, 0, 0, 1, 2, 0xff]);
    assert!(indexed_to_rgba(&palette, &[]).is_empty());
}

#[test]
fn loads_with_ranges() {
    let buf = [5u8, 0x34, 0x12, 0xff, 0xff, 1, 0, 0, 0];
    let mut pos = 0usize;
    let r = LoadRange { start: LoadBound::Included(0), end: LoadBound::Excluded(10) };
    assert_eq!(load_u8(&buf, &mut pos, Some(&r)), Ok(5));
    assert_eq!(load_u16le(&buf, &mut pos, None), Ok(0x1234));
    assert_eq!(load_i16le(&buf, &mut pos, None), Ok(-1));
    assert_eq!(load_u32le(&buf, &mut pos, Some(&r)), Ok(1));
    assert_eq!(pos, 9);
    assert_eq!(load_u8(&buf, &mut pos, None), Err(LoadError::Read));
    assert_eq!(pos, 9);
    let mut pos = 0usize;
    let small = LoadRange { start: LoadBound::Unbounded, end: LoadBound::Included(4) };
    assert_eq!(load_u8(&buf, &mut pos, Some(&small)), Err(LoadError::Range));
    assert_eq!(pos, 1);
    let mut pos = 5usize;
    assert_eq!(load_i32le(&buf, &mut pos, None), Ok(1));
    let mut pos = 7usize;
    assert_eq!(load_i32le(&buf, &mut pos, None), Err(LoadError::Read));
    assert_eq!(pos, 7);
    let excl = LoadRange { start: LoadBound::Excluded(5), end: LoadBound::Unbounded };
    let mut pos = 0usize;
    assert_eq!(load_u8(&buf, &mut pos, Some(&excl)), Err(LoadError::Range));
}

#[test]
fn enum_codes() {
    assert_eq!(HyperplaneSide::Positive.neg(), HyperplaneSide::Negative);
    assert_eq!(HyperplaneSide::Negative.neg().neg(), HyperplaneSide::Negative);
    assert_eq!(HyperplaneSide::from_u8(1), Some(HyperplaneSide::Negative));
    assert_eq!(Axis::Z.code(), 2);
    assert_eq!(Axis::from_u8(3), None);
    assert_eq!(SyncType::from_u32(1), Some(SyncType::Rand));
    assert_eq!(SpriteKind::from_u32(4), Some(SpriteKind::ViewPlaneParallelOriented));
    assert_eq!(SpriteKind::from_u32(5), None);
    assert_eq!(SvCmd::from_u8(4), None);
    assert_eq!(SvCmd::from_u8(53), Some(SvCmd::UpdatePl));
    assert_eq!(SvCmd::BigKick.code(), 35);
    assert_eq!(ClCmd::from_u8(2), None);
    assert_eq!(ClCmd::Upload.code(), 7);
}

#[test]
fn user_info_serialization() {
    assert_eq!(UserInfo::new().serialize(), "");
    assert_eq!(
        UserInfo::default().serialize(),
        "\\name\\unnamed\\topcolor\\0\\bottomcolor\\0\\rate\\2500\\msg\\1"
    );
}

#[test]
fn input_starts_released() {
    let s = InputState::new();
    assert!(!s.forward && !s.attack && !s.showteamscores);
}

fn words(v: &[i32]) -> Vec<u8> {
    v.iter().flat_map(|w| w.to_le_bytes()).collect()
}

#[test]
fn model_texcoords_and_triangles() {
    let buf = words(&[0x20, 3, 4, 0, 5, 6]);
    let mut pos = 0usize;
    let tcs = read_texcoords(&buf, &mut pos, 2).unwrap();
    assert_eq!(pos, 24);
    assert!(tcs[0].is_on_seam());
    assert_eq!((tcs[0].s(), tcs[0].t()), (3, 4));
    assert!(!tcs[1].is_on_seam());
    let bad = words(&[7, 0, 0]);
    let mut pos = 0usize;
    assert!(matches!(read_texcoords(&bad, &mut pos, 1), Err(MdlFileError::InvalidSeamFlag(7))));
    let neg = words(&[0, -1, 2]);
    let mut pos = 0usize;
    assert!(matches!(read_texcoords(&neg, &mut pos, 1), Err(MdlFileError::InvalidTexcoord([-1, 2]))));
    let mut pos = 0usize;
    assert!(matches!(read_texcoords(&buf, &mut pos, 3), Err(MdlFileError::Io)));

    let tri = words(&[1, 0, 1, 2, 0, 3, 4, 5]);
    let mut pos = 0usize;
    let polys = read_polygons(&tri, &mut pos, 2).unwrap();
    assert!(polys[0].faces_front());
    assert_eq!(polys[1].indices(), &[3, 4, 5]);
    let badtri = words(&[2, 0, 0, 0]);
    let mut pos = 0usize;
    assert!(matches!(read_polygons(&badtri, &mut pos, 1), Err(MdlFileError::InvalidFrontFacing(2))));

    let tex = StaticTexture::new(vec![1, 2, 3]);
    assert_eq!(tex.indices(), &[1, 2, 3]);
}
