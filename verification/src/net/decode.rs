//! Reading commands from bytes, proved against the format that `codec` gives.

use vstd::prelude::*;
use vstd::utf8::{decode_utf8, valid_utf8};
use super::{
    Angles, ButtonFlags, ClientCmd, ClientCmdOf, ClientStat, Coords, EntityEffects,
    EntityUpdate, GameType, ItemFlags, NetError, PlayerColor, PlayerData, PointEntityKind,
    BeamEntityKind, ServerCmd, ServerCmdOf, SignOnStage, TempEntity, TempEntityCode,
    UpdateFlags, ClientUpdateFlags, describe, describe_between, describe_bits,
};
use super::codec::{
    Decoded, avail, le16, le32, coords_at, angles_at, opt_u8, opt_i8, opt_i16, text_at,
    names_at, names_view, has16, one_if, spec_decode_sound, spec_decode_player_data,
    spec_decode_temp_entity, spec_beam_kind, spec_point_kind, spec_decode_fast_update, spec_decode_update_fields,
    spec_decode_update_motion, step_u8, step_i8, step_i16, PlayerMotion, PlayerGear,
    spec_decode_player_motion, spec_decode_player_gear, player_data_of, UpdateMotion,
    spec_decode_server_body, spec_decode_server_at, spec_decode_client_at, spec_decode_move,
    interleaved_coords, interleaved_angles,
    spec_decode_text_cmd, spec_decode_server_info, fail_as,
};
use crate::util::{find_nul, lemma_find_nul, find_nul_from, read_cstring};
use crate::wire::{read_u16_le, read_u32_le};

verus! {

/// Why reading a value failed.
pub enum ReadFail {
    /// The input ended before the value did.
    Eof,
    /// The input holds a value that the protocol does not allow.
    Invalid(String),
    /// The input holds text that is not UTF-8 where that is an error.
    Utf8,
    /// The input is one on which reading panics: text without its zero byte, or text that
    /// must be UTF-8 and is not.
    Panic,
}

/// Whether the result of an executable reader is what the format says reading yields.
pub open spec fn agrees<T: View>(r: Result<(T, usize), ReadFail>, d: Decoded<T::V>) -> bool {
    match d {
        Decoded::Value(v, q) => match r {
            Ok((x, n)) => x@ == v && n == q,
            Err(_) => false,
        },
        Decoded::Eof => r matches Err(ReadFail::Eof),
        Decoded::Invalid => r matches Err(ReadFail::Invalid(_)),
        Decoded::Failed => r matches Err(ReadFail::Utf8),
        Decoded::Panics => r matches Err(ReadFail::Panic),
        Decoded::End => false,
    }
}

/// Whether `n` bytes remain at `p`.
fn remains(buf: &[u8], p: usize, n: usize) -> (r: bool)
    requires
        p <= buf.len(),
    ensures
        r == avail(buf@, p as int, n as int),
{
    n <= buf.len() - p
}

/// The little-endian `u16` at `p`.
fn le16_at(buf: &[u8], p: usize) -> (r: u16)
    requires
        p + 2 <= buf.len(),
    ensures
        r == le16(buf@, p as int),
{
    reveal(le16);
    read_u16_le(&buf[p..p + 2])
}

/// The little-endian `u32` at `p`.
fn le32_at(buf: &[u8], p: usize) -> (r: u32)
    requires
        p + 4 <= buf.len(),
    ensures
        r == le32(buf@, p as int),
{
    reveal(le32);
    read_u32_le(&buf[p..p + 4])
}

/// The three coordinates at `p`.
fn coords_from(buf: &[u8], p: usize) -> (r: Coords)
    requires
        p + 6 <= buf.len(),
    ensures
        r == coords_at(buf@, p as int),
{
    let r: Coords = [le16_at(buf, p) as i16, le16_at(buf, p + 2) as i16, le16_at(buf, p + 4) as i16];
    assert(r@ =~= coords_at(buf@, p as int)@);
    r
}

/// The three angles at `p`.
fn angles_from(buf: &[u8], p: usize) -> (r: Angles)
    requires
        p + 3 <= buf.len(),
    ensures
        r == angles_at(buf@, p as int),
{
    let r: Angles = [buf[p] as i8, buf[p + 1] as i8, buf[p + 2] as i8];
    assert(r@ =~= angles_at(buf@, p as int)@);
    r
}

/// An optional byte at `p`.
fn opt_u8_from(buf: &[u8], p: usize, present: bool) -> (r: Option<u8>)
    requires
        present ==> p < buf.len(),
    ensures
        r == opt_u8(buf@, p as int, present),
{
    if present { Some(buf[p]) } else { None }
}

/// An optional signed byte at `p`.
fn opt_i8_from(buf: &[u8], p: usize, present: bool) -> (r: Option<i8>)
    requires
        present ==> p < buf.len(),
    ensures
        r == opt_i8(buf@, p as int, present),
{
    if present { Some(buf[p] as i8) } else { None }
}

/// An optional little-endian `i16` at `p`.
fn opt_i16_from(buf: &[u8], p: usize, present: bool) -> (r: Option<i16>)
    requires
        present ==> p + 2 <= buf.len(),
    ensures
        r == opt_i16(buf@, p as int, present),
{
    if present { Some(le16_at(buf, p) as i16) } else { None }
}

/// Reads zero-terminated text at `p`; with `strict`, text that is not UTF-8 panics.
fn read_text(buf: &[u8], p: usize, strict: bool) -> (r: Result<(String, usize), ReadFail>)
    requires
        p <= buf.len(),
    ensures
        agrees(r, text_at(buf@, p as int, strict)),
        r matches Ok((_, n)) ==> p < n <= buf.len(),
{
    proof {
        lemma_find_nul(buf@, p as int);
    }
    match find_nul_from(buf, p) {
        None => Err(ReadFail::Panic),
        Some(_) => {
            let mut q = p;
            match read_cstring(buf, &mut q) {
                Ok(s) => Ok((s, q)),
                Err(_) => if strict {
                    Err(ReadFail::Panic)
                } else {
                    Err(ReadFail::Utf8)
                },
            }
        },
    }
}

/// Whether the result of a reader of plain values is what the format says reading yields.
pub open spec fn agrees_plain<T>(r: Result<(T, usize), ReadFail>, d: Decoded<T>) -> bool {
    match d {
        Decoded::Value(v, q) => match r {
            Ok((x, n)) => x == v && n == q,
            Err(_) => false,
        },
        Decoded::Eof => r matches Err(ReadFail::Eof),
        Decoded::Invalid => r matches Err(ReadFail::Invalid(_)),
        Decoded::Failed => r matches Err(ReadFail::Utf8),
        Decoded::Panics => r matches Err(ReadFail::Panic),
        Decoded::End => false,
    }
}

/// The names `pre` followed by the names that reading gives.
pub open spec fn prefixed(pre: Seq<Seq<char>>, d: Decoded<Seq<Seq<char>>>) -> Decoded<
    Seq<Seq<char>>,
> {
    match d {
        Decoded::Value(rest, r) => Decoded::Value(pre + rest, r),
        Decoded::End => Decoded::End,
        Decoded::Eof => Decoded::Eof,
        Decoded::Invalid => Decoded::Invalid,
        Decoded::Failed => Decoded::Failed,
        Decoded::Panics => Decoded::Panics,
    }
}

/// Whether the result of reading names is what the format says reading yields.
pub open spec fn names_agree(
    r: Result<(Vec<String>, usize), ReadFail>,
    d: Decoded<Seq<Seq<char>>>,
) -> bool {
    match d {
        Decoded::Value(v, q) => match r {
            Ok((l, n)) => names_view(l@) == v && n == q,
            Err(_) => false,
        },
        Decoded::Eof => r matches Err(ReadFail::Eof),
        Decoded::Invalid => r matches Err(ReadFail::Invalid(_)),
        Decoded::Failed => r matches Err(ReadFail::Utf8),
        Decoded::Panics => r matches Err(ReadFail::Panic),
        Decoded::End => false,
    }
}

/// Reads names at `p`, each zero-terminated, up to an empty one.
fn read_names(buf: &[u8], p: usize) -> (r: Result<(Vec<String>, usize), ReadFail>)
    requires
        p <= buf.len(),
    ensures
        names_agree(r, names_at(buf@, p as int)),
        r matches Ok((_, n)) ==> p < n <= buf.len(),
{
    let mut l: Vec<String> = Vec::new();
    let mut q = p;
    assert(prefixed(names_view(l@), names_at(buf@, q as int)) =~= names_at(buf@, p as int)) by {
        assert(names_view(l@) =~= Seq::<Seq<char>>::empty());
        match names_at(buf@, p as int) {
            Decoded::Value(rest, r) => {
                assert(Seq::<Seq<char>>::empty() + rest =~= rest);
            },
            _ => {},
        }
    }
    loop
        invariant
            p <= q <= buf.len(),
            names_at(buf@, p as int) == prefixed(names_view(l@), names_at(buf@, q as int)),
        decreases buf.len() - q,
    {
        proof {
            lemma_find_nul(buf@, q as int);
        }
        match read_text(buf, q, true) {
            Err(e) => {
                assert(text_at(buf@, q as int, true) is Panics);
                return Err(e);
            },
            Ok((name, q2)) => {
                if name.as_str().is_empty() {
                    assert(names_at(buf@, q as int) == Decoded::Value(Seq::<Seq<char>>::empty(), q2 as int));
                    assert(names_view(l@) + Seq::<Seq<char>>::empty() =~= names_view(l@));
                    return Ok((l, q2));
                }
                let ghost before = names_view(l@);
                l.push(name);
                proof {
                    assert(names_view(l@) =~= before + seq![name@]);
                    match names_at(buf@, q2 as int) {
                        Decoded::Value(rest, r) => {
                            assert(before + (seq![name@] + rest) =~= names_view(l@) + rest);
                        },
                        _ => {},
                    }
                }
                q = q2;
            },
        }
    }
}

/// Reads a byte at `q` that is there only if `present`.
fn step_u8_from(buf: &[u8], q: usize, present: bool) -> (r: Option<(Option<u8>, usize)>)
    requires
        q <= buf.len(),
    ensures
        match step_u8(buf@, q as int, present) {
            Some((v, n)) => r matches Some((x, m)) && x == v && m == n,
            None => r is None,
        },
        r matches Some((_, m)) ==> q <= m <= buf.len(),
{
    if !present {
        Some((None, q))
    } else if remains(buf, q, 1) {
        Some((Some(buf[q]), q + 1))
    } else {
        None
    }
}

/// Reads a signed byte at `q` that is there only if `present`.
fn step_i8_from(buf: &[u8], q: usize, present: bool) -> (r: Option<(Option<i8>, usize)>)
    requires
        q <= buf.len(),
    ensures
        match step_i8(buf@, q as int, present) {
            Some((v, n)) => r matches Some((x, m)) && x == v && m == n,
            None => r is None,
        },
        r matches Some((_, m)) ==> q <= m <= buf.len(),
{
    if !present {
        Some((None, q))
    } else if remains(buf, q, 1) {
        Some((Some(buf[q] as i8), q + 1))
    } else {
        None
    }
}

/// Reads a little-endian `i16` at `q` that is there only if `present`.
fn step_i16_from(buf: &[u8], q: usize, present: bool) -> (r: Option<(Option<i16>, usize)>)
    requires
        q <= buf.len(),
    ensures
        match step_i16(buf@, q as int, present) {
            Some((v, n)) => r matches Some((x, m)) && x == v && m == n,
            None => r is None,
        },
        r matches Some((_, m)) ==> q <= m <= buf.len(),
{
    if !present {
        Some((None, q))
    } else if remains(buf, q, 2) {
        Some((Some(#[verifier::truncate] (le16_at(buf, q) as i16)), q + 2))
    } else {
        None
    }
}

/// Reads the body of a sound command at `p`.
fn read_sound(buf: &[u8], p: usize) -> (r: Result<(ServerCmd, usize), ReadFail>)
    requires
        p <= buf.len(),
    ensures
        agrees(r, spec_decode_sound(buf@, p as int)),
{
    if !remains(buf, p, 1) {
        return Err(ReadFail::Eof);
    }
    let f = buf[p];
    if f & !0x07u8 != 0 {
        return Err(ReadFail::Invalid(describe_bits("SoundFlags", f as u32)));
    }
    let (volume, q2) = match step_u8_from(buf, p + 1, f & 1u8 == 1u8) {
        Some(v) => v,
        None => { return Err(ReadFail::Eof); },
    };
    let (attenuation, q3) = match step_u8_from(buf, q2, f & 2u8 == 2u8) {
        Some(v) => v,
        None => { return Err(ReadFail::Eof); },
    };
    if !remains(buf, q3, 9) {
        return Err(ReadFail::Eof);
    }
    let ec = #[verifier::truncate] (le16_at(buf, q3) as i16);
    let cmd = ServerCmdOf::Sound {
        volume,
        attenuation,
        entity_id: #[verifier::truncate] ((ec >> 3i16) as u16),
        channel: #[verifier::truncate] ((ec & 7i16) as i8),
        sound_id: buf[q3 + 2],
        position: coords_from(buf, q3 + 3),
    };
    Ok((cmd, q3 + 9))
}

/// Reads the optional angles and velocities of a player data command with flags `f`, at `q`.
fn read_player_motion(buf: &[u8], f: u16, q: usize) -> (r: Option<(PlayerMotion, usize)>)
    requires
        q <= buf.len(),
    ensures
        match spec_decode_player_motion(buf@, f, q as int) {
            Some((v, n)) => r matches Some((x, m)) && x == v && m == n,
            None => r is None,
        },
        r matches Some((_, m)) ==> m <= buf.len(),
{
    let (view_height, q1) = step_i8_from(buf, q, f & 0x0001 == 0x0001)?;
    let (ideal_pitch, q2) = step_i8_from(buf, q1, f & 0x0002 == 0x0002)?;
    let (punch_pitch, q3) = step_i8_from(buf, q2, f & 0x0004 == 0x0004)?;
    let (velocity_x, q4) = step_i8_from(buf, q3, f & 0x0020 == 0x0020)?;
    let (punch_yaw, q5) = step_i8_from(buf, q4, f & 0x0008 == 0x0008)?;
    let (velocity_y, q6) = step_i8_from(buf, q5, f & 0x0040 == 0x0040)?;
    let (punch_roll, q7) = step_i8_from(buf, q6, f & 0x0010 == 0x0010)?;
    let (velocity_z, q8) = step_i8_from(buf, q7, f & 0x0080 == 0x0080)?;
    let m = PlayerMotion {
        view_height,
        ideal_pitch,
        punch_pitch,
        velocity_x,
        punch_yaw,
        velocity_y,
        punch_roll,
        velocity_z,
    };
    Some((m, q8))
}

/// Reads the weapon, armor and ammunition of a player data command with flags `f`, at `q`.
fn read_player_gear(buf: &[u8], f: u16, q: usize) -> (r: Option<(PlayerGear, usize)>)
    requires
        q <= buf.len(),
    ensures
        match spec_decode_player_gear(buf@, f, q as int) {
            Some((v, n)) => r matches Some((x, m)) && x == v && m == n,
            None => r is None,
        },
{
    let (weapon_frame, r1) = step_u8_from(buf, q, f & 0x1000 == 0x1000)?;
    let (armor, r2) = step_u8_from(buf, r1, f & 0x2000 == 0x2000)?;
    let (weapon, r3) = step_u8_from(buf, r2, f & 0x4000 == 0x4000)?;
    if !remains(buf, r3, 8) {
        return None;
    }
    let g = PlayerGear {
        weapon_frame,
        armor,
        weapon,
        health: #[verifier::truncate] (le16_at(buf, r3) as i16),
        ammo: buf[r3 + 2],
        ammo_shells: buf[r3 + 3],
        ammo_nails: buf[r3 + 4],
        ammo_rockets: buf[r3 + 5],
        ammo_cells: buf[r3 + 6],
        active_weapon: buf[r3 + 7],
    };
    Some((g, r3 + 8))
}

/// Reads the body of a player data command at `p`.
fn read_player_data(buf: &[u8], p: usize) -> (r: Result<(ServerCmd, usize), ReadFail>)
    requires
        p <= buf.len(),
    ensures
        agrees(r, spec_decode_player_data(buf@, p as int)),
{
    if !remains(buf, p, 2) {
        return Err(ReadFail::Eof);
    }
    let f = le16_at(buf, p);
    if ClientUpdateFlags::from_bits(f).is_none() {
        return Err(ReadFail::Invalid(describe_bits("client update flags", f as u32)));
    }
    let (m, q8) = match read_player_motion(buf, f, p + 2) {
        Some(v) => v,
        None => { return Err(ReadFail::Eof); },
    };
    if !remains(buf, q8, 4) {
        return Err(ReadFail::Eof);
    }
    let items_bits = le32_at(buf, q8);
    let items = match ItemFlags::from_bits(items_bits) {
        Some(i) => i,
        None => { return Err(ReadFail::Invalid(describe_bits("ItemFlags", items_bits))); },
    };
    let (g, q) = match read_player_gear(buf, f, q8 + 4) {
        Some(v) => v,
        None => { return Err(ReadFail::Eof); },
    };
    let d = PlayerData {
        view_height: m.view_height,
        ideal_pitch: m.ideal_pitch,
        punch_pitch: m.punch_pitch,
        velocity_x: m.velocity_x,
        punch_yaw: m.punch_yaw,
        velocity_y: m.velocity_y,
        punch_roll: m.punch_roll,
        velocity_z: m.velocity_z,
        items,
        on_ground: f & 0x0400 == 0x0400,
        in_water: f & 0x0800 == 0x0800,
        weapon_frame: g.weapon_frame,
        armor: g.armor,
        weapon: g.weapon,
        health: g.health,
        ammo: g.ammo,
        ammo_shells: g.ammo_shells,
        ammo_nails: g.ammo_nails,
        ammo_rockets: g.ammo_rockets,
        ammo_cells: g.ammo_cells,
        active_weapon: g.active_weapon,
    };
    assert(d == player_data_of(f, m, items_bits, g));
    Ok((ServerCmdOf::PlayerData(d), q))
}

/// Reads a temporary entity at `p`.
fn read_temp_entity(buf: &[u8], p: usize) -> (r: Result<(TempEntity, usize), ReadFail>)
    requires
        p <= buf.len(),
    ensures
        agrees_plain(r, spec_decode_temp_entity(buf@, p as int)),
{
    if !remains(buf, p, 1) {
        return Err(ReadFail::Eof);
    }
    let code = match TempEntityCode::from_u8(buf[p]) {
        Some(c) => c,
        None => { return Err(ReadFail::Invalid(describe_between("Temp entity code ", buf[p] as u32, ""))); },
    };
    let q = p + 1;
    match code {
        TempEntityCode::ColorExplosion => {
            if !remains(buf, q, 8) {
                return Err(ReadFail::Eof);
            }
            let origin = coords_from(buf, q);
            let kind = PointEntityKind::ColorExplosion {
                color_start: buf[q + 6],
                color_len: buf[q + 7],
            };
            Ok((TempEntity::Point { kind, origin }, q + 8))
        },
        TempEntityCode::Lightning1 | TempEntityCode::Lightning2 | TempEntityCode::Lightning3
        | TempEntityCode::Grapple => {
            if !remains(buf, q, 14) {
                return Err(ReadFail::Eof);
            }
            let kind = match code {
                TempEntityCode::Lightning1 => BeamEntityKind::Lightning { model_id: 1 },
                TempEntityCode::Lightning2 => BeamEntityKind::Lightning { model_id: 2 },
                TempEntityCode::Lightning3 => BeamEntityKind::Lightning { model_id: 3 },
                _ => BeamEntityKind::Grapple,
            };
            let entity_id = #[verifier::truncate] (le16_at(buf, q) as i16);
            let start = coords_from(buf, q + 2);
            let end = coords_from(buf, q + 8);
            Ok((TempEntity::Beam { kind, entity_id, start, end }, q + 14))
        },
        _ => {
            if !remains(buf, q, 6) {
                return Err(ReadFail::Eof);
            }
            let kind = match code {
                TempEntityCode::Spike => PointEntityKind::Spike,
                TempEntityCode::SuperSpike => PointEntityKind::SuperSpike,
                TempEntityCode::Gunshot => PointEntityKind::Gunshot,
                TempEntityCode::Explosion => PointEntityKind::Explosion,
                TempEntityCode::TarExplosion => PointEntityKind::TarExplosion,
                TempEntityCode::WizSpike => PointEntityKind::WizSpike,
                TempEntityCode::KnightSpike => PointEntityKind::KnightSpike,
                TempEntityCode::LavaSplash => PointEntityKind::LavaSplash,
                _ => PointEntityKind::Teleport,
            };
            let origin = coords_from(buf, q);
            Ok((TempEntity::Point { kind, origin }, q + 6))
        },
    }
}

/// Reads the body of a fast entity update whose code byte is `code`, at `p`.
fn read_fast_update(buf: &[u8], code: u8, p: usize) -> (r: Result<(ServerCmd, usize), ReadFail>)
    requires
        p <= buf.len(),
    ensures
        agrees(r, spec_decode_fast_update(buf@, code, p as int)),
{
    let low: u8 = code & 0x7fu8;
    let more = low & 1u8 == 1u8;
    if more && !remains(buf, p, 1) {
        return Err(ReadFail::Eof);
    }
    let f: u16 = if more { ((buf[p] as u16) << 8u16) | (low as u16) } else { low as u16 };
    if UpdateFlags::from_bits(f).is_none() {
        return Err(ReadFail::Invalid(describe_bits("UpdateFlags", f as u32)));
    }
    let q0: usize = if more { p + 1 } else { p };
    match read_update_fields(buf, f, q0) {
        Ok((update, q)) => Ok((ServerCmdOf::FastUpdate(update), q)),
        Err(e) => Err(e),
    }
}

/// Reads the fields of a fast entity update with flags `f`, at `q0`.
fn read_update_fields(buf: &[u8], f: u16, q0: usize) -> (r: Result<(EntityUpdate, usize), ReadFail>)
    requires
        q0 <= buf.len(),
    ensures
        agrees_plain(r, spec_decode_update_fields(buf@, f, q0 as int)),
{
    let long = f & 0x4000 == 0x4000;
    let w: usize = if long { 2 } else { 1 };
    if !remains(buf, q0, w) {
        return Err(ReadFail::Eof);
    }
    let ent_id = if long { le16_at(buf, q0) } else { buf[q0] as u16 };
    let (model_id, q2) = match step_u8_from(buf, q0 + w, f & 0x0400 == 0x0400) {
        Some(v) => v,
        None => { return Err(ReadFail::Eof); },
    };
    let (frame_id, q3) = match step_u8_from(buf, q2, f & 0x0040 == 0x0040) {
        Some(v) => v,
        None => { return Err(ReadFail::Eof); },
    };
    let (colormap, q4) = match step_u8_from(buf, q3, f & 0x0800 == 0x0800) {
        Some(v) => v,
        None => { return Err(ReadFail::Eof); },
    };
    let (skin_id, q5) = match step_u8_from(buf, q4, f & 0x1000 == 0x1000) {
        Some(v) => v,
        None => { return Err(ReadFail::Eof); },
    };
    let (fx, q6) = match step_u8_from(buf, q5, f & 0x2000 == 0x2000) {
        Some(v) => v,
        None => { return Err(ReadFail::Eof); },
    };
    let effects = match fx {
        Some(e) => match EntityEffects::from_bits(e) {
            Some(x) => Some(x),
            None => { return Err(ReadFail::Invalid(describe_bits("EntityEffects", e as u32))); },
        },
        None => None,
    };
    let (m, q) = match read_update_motion(buf, f, q6) {
        Some(v) => v,
        None => { return Err(ReadFail::Eof); },
    };
    let update = EntityUpdate {
        ent_id,
        model_id,
        frame_id,
        colormap,
        skin_id,
        effects,
        origin_x: m.origin_x,
        pitch: m.pitch,
        origin_y: m.origin_y,
        yaw: m.yaw,
        origin_z: m.origin_z,
        roll: m.roll,
        no_lerp: f & 0x0020 == 0x0020,
    };
    Ok((update, q))
}

/// Reads the coordinates and angles of a fast entity update with flags `f`, at `q`.
fn read_update_motion(buf: &[u8], f: u16, q: usize) -> (r: Option<(UpdateMotion, usize)>)
    requires
        q <= buf.len(),
    ensures
        match spec_decode_update_motion(buf@, f, q as int) {
            Some((v, n)) => r matches Some((x, m)) && x == v && m == n,
            None => r is None,
        },
{
    let (origin_x, q1) = step_i16_from(buf, q, f & 0x0002 == 0x0002)?;
    let (pitch, q2) = step_i8_from(buf, q1, f & 0x0100 == 0x0100)?;
    let (origin_y, q3) = step_i16_from(buf, q2, f & 0x0004 == 0x0004)?;
    let (yaw, q4) = step_i8_from(buf, q3, f & 0x0010 == 0x0010)?;
    let (origin_z, q5) = step_i16_from(buf, q4, f & 0x0008 == 0x0008)?;
    let (roll, q6) = step_i8_from(buf, q5, f & 0x0200 == 0x0200)?;
    Some((UpdateMotion { origin_x, pitch, origin_y, yaw, origin_z, roll }, q6))
}

/// Reads a command whose body is text, at `p`.
fn read_text_cmd(buf: &[u8], p: usize, code: u8) -> (r: Result<(ServerCmd, usize), ReadFail>)
    requires
        p <= buf.len(),
        code == 8 || code == 9 || code == 26 || code == 31 || code == 34,
    ensures
        agrees(r, spec_decode_text_cmd(buf@, p as int, code)),
{
    match read_text(buf, p, false) {
        Ok((text, q)) => {
            let cmd = if code == 8 {
                ServerCmdOf::Print { text }
            } else if code == 9 {
                ServerCmdOf::StuffText { text }
            } else if code == 26 {
                ServerCmdOf::CenterPrint { text }
            } else if code == 31 {
                ServerCmdOf::Finale { text }
            } else {
                ServerCmdOf::Cutscene { text }
            };
            Ok((cmd, q))
        },
        Err(e) => Err(e),
    }
}

/// Reads the body of a server info command at `p`.
fn read_server_info(buf: &[u8], p: usize) -> (r: Result<(ServerCmd, usize), ReadFail>)
    requires
        p <= buf.len(),
    ensures
        agrees(r, spec_decode_server_info(buf@, p as int)),
{
    if !remains(buf, p, 6) {
        return Err(ReadFail::Eof);
    }
    let game_type = match GameType::from_u8(buf[p + 5]) {
        Some(g) => g,
        None => { return Err(ReadFail::Invalid(describe_between("Invalid game type (", buf[p + 5] as u32, ")"))); },
    };
    let (message, q) = match read_text(buf, p + 6, true) {
        Ok(v) => v,
        Err(e) => { return Err(e); },
    };
    let (model_precache, r) = match read_names(buf, q) {
        Ok(v) => v,
        Err(e) => { return Err(e); },
    };
    let (sound_precache, t) = match read_names(buf, r) {
        Ok(v) => v,
        Err(e) => { return Err(e); },
    };
    let cmd = ServerCmdOf::ServerInfo {
        protocol_version: #[verifier::truncate] (le32_at(buf, p) as i32),
        max_clients: buf[p + 4],
        game_type,
        message,
        model_precache,
        sound_precache,
    };
    Ok((cmd, t))
}

/// The coordinates of three (coordinate, angle) pairs at `p`.
fn interleaved_coords_from(buf: &[u8], p: usize) -> (r: Coords)
    requires
        p + 9 <= buf.len(),
    ensures
        r == interleaved_coords(buf@, p as int),
{
    let r: Coords = [
        #[verifier::truncate] (le16_at(buf, p) as i16),
        #[verifier::truncate] (le16_at(buf, p + 3) as i16),
        #[verifier::truncate] (le16_at(buf, p + 6) as i16),
    ];
    assert(r@ =~= interleaved_coords(buf@, p as int)@);
    r
}

/// The angles of three (coordinate, angle) pairs at `p`.
fn interleaved_angles_from(buf: &[u8], p: usize) -> (r: Angles)
    requires
        p + 9 <= buf.len(),
    ensures
        r == interleaved_angles(buf@, p as int),
{
    let r: Angles = [buf[p + 2] as i8, buf[p + 5] as i8, buf[p + 8] as i8];
    assert(r@ =~= interleaved_angles(buf@, p as int)@);
    r
}

/// Reads the body of a server command with code `code`, from 0 to 15, at `p`.
fn read_body_low(buf: &[u8], code: u8, p: usize) -> (r: Result<(ServerCmd, usize), ReadFail>)
    requires
        p <= buf.len(),
        code <= 15,
    ensures
        agrees(r, spec_decode_server_body(buf@, code, p as int)),
{
    if code == 0 {
        Ok((ServerCmdOf::Bad, p))
    } else if code == 1 {
        Ok((ServerCmdOf::NoOp, p))
    } else if code == 2 {
        Ok((ServerCmdOf::Disconnect, p))
    } else if code == 3 {
        if !remains(buf, p, 1) {
            return Err(ReadFail::Eof);
        }
        let stat = match ClientStat::from_u8(buf[p]) {
            Some(c) => c,
            None => { return Err(ReadFail::Invalid(describe_between("value for ClientStat: ", buf[p] as u32, ""))); },
        };
        if !remains(buf, p + 1, 4) {
            return Err(ReadFail::Eof);
        }
        let value = #[verifier::truncate] (le32_at(buf, p + 1) as i32);
        Ok((ServerCmdOf::UpdateStat { stat, value }, p + 5))
    } else if code == 4 {
        if !remains(buf, p, 4) {
            return Err(ReadFail::Eof);
        }
        let version = #[verifier::truncate] (le32_at(buf, p) as i32);
        Ok((ServerCmdOf::Version { version }, p + 4))
    } else if code == 5 {
        if !remains(buf, p, 2) {
            return Err(ReadFail::Eof);
        }
        let ent_id = #[verifier::truncate] (le16_at(buf, p) as i16);
        Ok((ServerCmdOf::SetView { ent_id }, p + 2))
    } else if code == 6 {
        read_sound(buf, p)
    } else if code == 7 {
        if !remains(buf, p, 4) {
            return Err(ReadFail::Eof);
        }
        Ok((ServerCmdOf::Time { time: le32_at(buf, p) }, p + 4))
    } else if code == 8 || code == 9 {
        read_text_cmd(buf, p, code)
    } else if code == 10 {
        if !remains(buf, p, 3) {
            return Err(ReadFail::Eof);
        }
        Ok((ServerCmdOf::SetAngle { angles: angles_from(buf, p) }, p + 3))
    } else if code == 11 {
        read_server_info(buf, p)
    } else if code == 12 || code == 13 {
        if !remains(buf, p, 1) {
            return Err(ReadFail::Eof);
        }
        let (text, q) = match read_text(buf, p + 1, true) {
            Ok(v) => v,
            Err(e) => { return Err(e); },
        };
        let cmd = if code == 12 {
            ServerCmdOf::LightStyle { id: buf[p], value: text }
        } else {
            ServerCmdOf::UpdateName { player_id: buf[p], new_name: text }
        };
        Ok((cmd, q))
    } else if code == 14 {
        if !remains(buf, p, 3) {
            return Err(ReadFail::Eof);
        }
        let new_frags = #[verifier::truncate] (le16_at(buf, p + 1) as i16);
        Ok((ServerCmdOf::UpdateFrags { player_id: buf[p], new_frags }, p + 3))
    } else {
        read_player_data(buf, p)
    }
}

/// Reads the body of a server command with code `code`, from 16 on, at `p`.
fn read_body_high(buf: &[u8], code: u8, p: usize) -> (r: Result<(ServerCmd, usize), ReadFail>)
    requires
        p <= buf.len(),
        16 <= code,
    ensures
        agrees(r, spec_decode_server_body(buf@, code, p as int)),
{
    if code == 16 {
        if !remains(buf, p, 2) {
            return Err(ReadFail::Eof);
        }
        let ec = le16_at(buf, p);
        Ok((ServerCmdOf::StopSound { entity_id: ec >> 3u16, channel: (ec & 7u16) as u8 }, p + 2))
    } else if code == 17 {
        if !remains(buf, p, 2) {
            return Err(ReadFail::Eof);
        }
        let cmd = ServerCmdOf::UpdateColors {
            player_id: buf[p],
            new_colors: PlayerColor::new(buf[p + 1] >> 4u8, buf[p + 1] & 0x0fu8),
        };
        Ok((cmd, p + 2))
    } else if code == 18 {
        if !remains(buf, p, 11) {
            return Err(ReadFail::Eof);
        }
        let cmd = ServerCmdOf::Particle {
            origin: coords_from(buf, p),
            direction: angles_from(buf, p + 6),
            count: buf[p + 9],
            color: buf[p + 10],
        };
        Ok((cmd, p + 11))
    } else if code == 19 {
        if !remains(buf, p, 8) {
            return Err(ReadFail::Eof);
        }
        let cmd = ServerCmdOf::Damage {
            armor: buf[p],
            blood: buf[p + 1],
            source: coords_from(buf, p + 2),
        };
        Ok((cmd, p + 8))
    } else if code == 20 {
        if !remains(buf, p, 13) {
            return Err(ReadFail::Eof);
        }
        let cmd = ServerCmdOf::SpawnStatic {
            model_id: buf[p],
            frame_id: buf[p + 1],
            colormap: buf[p + 2],
            skin_id: buf[p + 3],
            origin: interleaved_coords_from(buf, p + 4),
            angles: interleaved_angles_from(buf, p + 4),
        };
        Ok((cmd, p + 13))
    } else if code == 22 {
        if !remains(buf, p, 15) {
            return Err(ReadFail::Eof);
        }
        let cmd = ServerCmdOf::SpawnBaseline {
            ent_id: le16_at(buf, p),
            model_id: buf[p + 2],
            frame_id: buf[p + 3],
            colormap: buf[p + 4],
            skin_id: buf[p + 5],
            origin: interleaved_coords_from(buf, p + 6),
            angles: interleaved_angles_from(buf, p + 6),
        };
        Ok((cmd, p + 15))
    } else if code == 23 {
        match read_temp_entity(buf, p) {
            Ok((temp_entity, q)) => Ok((ServerCmdOf::TempEntity { temp_entity }, q)),
            Err(e) => Err(e),
        }
    } else if code == 24 {
        if !remains(buf, p, 1) {
            return Err(ReadFail::Eof);
        }
        if buf[p] == 0 {
            Ok((ServerCmdOf::SetPause { paused: false }, p + 1))
        } else if buf[p] == 1 {
            Ok((ServerCmdOf::SetPause { paused: true }, p + 1))
        } else {
            Err(ReadFail::Invalid(describe_between("setpause: ", buf[p] as u32, "")))
        }
    } else if code == 25 {
        if !remains(buf, p, 1) {
            return Err(ReadFail::Eof);
        }
        match SignOnStage::from_u8(buf[p]) {
            Some(stage) => Ok((ServerCmdOf::SignOnStage { stage }, p + 1)),
            None => Err(ReadFail::Invalid(describe_between("Invalid value for sign-on stage: ", buf[p] as u32, ""))),
        }
    } else if code == 26 || code == 31 || code == 34 {
        read_text_cmd(buf, p, code)
    } else if code == 27 {
        Ok((ServerCmdOf::KilledMonster, p))
    } else if code == 28 {
        Ok((ServerCmdOf::FoundSecret, p))
    } else if code == 29 {
        if !remains(buf, p, 9) {
            return Err(ReadFail::Eof);
        }
        let cmd = ServerCmdOf::SpawnStaticSound {
            origin: coords_from(buf, p),
            sound_id: buf[p + 6],
            volume: buf[p + 7],
            attenuation: buf[p + 8],
        };
        Ok((cmd, p + 9))
    } else if code == 30 {
        Ok((ServerCmdOf::Intermission, p))
    } else if code == 32 {
        if !remains(buf, p, 2) {
            return Err(ReadFail::Eof);
        }
        Ok((ServerCmdOf::CdTrack { track: buf[p], loop_: buf[p + 1] }, p + 2))
    } else if code == 33 {
        Ok((ServerCmdOf::SellScreen, p))
    } else {
        Err(ReadFail::Invalid(describe("Invalid server command code", code as u32)))
    }
}

/// Reads a server command at `p`: `None` where the input has ended.
fn read_server_cmd(buf: &[u8], p: usize) -> (r: Result<Option<(ServerCmd, usize)>, ReadFail>)
    requires
        p <= buf.len(),
    ensures
        match spec_decode_server_at(buf@, p as int) {
            Decoded::End => r matches Ok(None),
            Decoded::Value(v, q) => r matches Ok(Some((x, n))) && x@ == v && n == q,
            Decoded::Eof => r matches Err(ReadFail::Eof),
            Decoded::Invalid => r matches Err(ReadFail::Invalid(_)),
            Decoded::Failed => r matches Err(ReadFail::Utf8),
            Decoded::Panics => r matches Err(ReadFail::Panic),
        },
{
    if p >= buf.len() {
        return Ok(None);
    }
    let code = buf[p];
    let r = if code & 0x80u8 != 0 {
        read_fast_update(buf, code, p + 1)
    } else if code <= 15 {
        read_body_low(buf, code, p + 1)
    } else {
        read_body_high(buf, code, p + 1)
    };
    match r {
        Ok(v) => Ok(Some(v)),
        Err(e) => Err(e),
    }
}

/// The network error that a reading failure is reported as.
fn net_error(e: ReadFail) -> (r: NetError)
    requires
        !(e is Panic),
    ensures
        e is Eof ==> r is Io,
        e is Invalid ==> r is InvalidData,
        e is Utf8 ==> r is Other,
{
    match e {
        ReadFail::Eof => NetError::Io,
        ReadFail::Invalid(msg) => NetError::InvalidData(msg),
        _ => NetError::with_msg("invalid UTF-8 in string"),
    }
}

impl ServerCmdOf<String, Vec<String>> {
    /// Reads a command from `buf` at `*pos` and moves `*pos` past it.
    ///
    /// Where no byte is left there is no command: the result is `Ok(None)`. Input that ends
    /// before the command does is an `Io` error, a value that the protocol does not allow an
    /// `InvalidData` error, and text that is not UTF-8 in a printed message an `Other` error;
    /// `*pos` is then left at some position. The input must not be one on which reading panics
    /// (see [`Self::deserialize_panics`]).
    pub fn deserialize(buf: &[u8], pos: &mut usize) -> (r: Result<Option<ServerCmd>, NetError>)
        requires
            *old(pos) <= buf.len(),
            !(spec_decode_server_at(buf@, *old(pos) as int) is Panics),
        ensures
            match spec_decode_server_at(buf@, *old(pos) as int) {
                Decoded::End => r matches Ok(None) && *final(pos) == *old(pos),
                Decoded::Value(v, q) => r matches Ok(Some(x)) && x@ == v && *final(pos) == q,
                Decoded::Eof => r matches Err(NetError::Io),
                Decoded::Invalid => r matches Err(NetError::InvalidData(_)),
                Decoded::Failed => r matches Err(NetError::Other(_)),
                Decoded::Panics => false,
            },
    {
        match read_server_cmd(buf, *pos) {
            Ok(None) => Ok(None),
            Ok(Some((cmd, q))) => {
                *pos = q;
                Ok(Some(cmd))
            },
            Err(e) => Err(net_error(e)),
        }
    }

    /// Whether reading a command from `buf` at `pos` panics: where a string lacks its zero byte,
    /// or where a string that must be UTF-8 is not.
    pub fn deserialize_panics(buf: &[u8], pos: usize) -> (r: bool)
        requires
            pos <= buf.len(),
        ensures
            r == (spec_decode_server_at(buf@, pos as int) is Panics),
    {
        matches!(read_server_cmd(buf, pos), Err(ReadFail::Panic))
    }
}

/// Reads the body of a move command at `p`.
fn read_move(buf: &[u8], p: usize) -> (r: Result<(ClientCmd, usize), ReadFail>)
    requires
        p <= buf.len(),
    ensures
        agrees(r, spec_decode_move(buf@, p as int)),
{
    if !remains(buf, p, 14) {
        return Err(ReadFail::Eof);
    }
    let button_flags = match ButtonFlags::from_bits(buf[p + 13]) {
        Some(b) => b,
        None => { return Err(ReadFail::Invalid(describe_between("Invalid value for button flags: ", buf[p + 13] as u32, ""))); },
    };
    if !remains(buf, p, 15) {
        return Err(ReadFail::Eof);
    }
    let cmd = ClientCmdOf::Move {
        send_time: le32_at(buf, p),
        angles: angles_from(buf, p + 4),
        fwd_move: #[verifier::truncate] (le16_at(buf, p + 7) as i16),
        side_move: #[verifier::truncate] (le16_at(buf, p + 9) as i16),
        up_move: #[verifier::truncate] (le16_at(buf, p + 11) as i16),
        button_flags,
        impulse: buf[p + 14],
    };
    Ok((cmd, p + 15))
}

/// Reads a client command at `p`.
fn read_client_cmd(buf: &[u8], p: usize) -> (r: Result<(ClientCmd, usize), ReadFail>)
    requires
        p <= buf.len(),
    ensures
        agrees(r, spec_decode_client_at(buf@, p as int)),
{
    if p >= buf.len() {
        return Err(ReadFail::Eof);
    }
    let code = buf[p];
    if code == 0 {
        Ok((ClientCmdOf::Bad, p + 1))
    } else if code == 1 {
        Ok((ClientCmdOf::NoOp, p + 1))
    } else if code == 2 {
        Ok((ClientCmdOf::Disconnect, p + 1))
    } else if code == 3 {
        read_move(buf, p + 1)
    } else if code == 4 {
        match read_text(buf, p + 1, true) {
            Ok((cmd, q)) => Ok((ClientCmdOf::StringCmd { cmd }, q)),
            Err(e) => Err(e),
        }
    } else {
        Err(ReadFail::Invalid(describe("Invalid client command code", code as u32)))
    }
}

impl ClientCmdOf<String> {
    /// Reads a command from `buf` at `*pos` and moves `*pos` past it.
    ///
    /// Input that ends before the command does, an empty input included, is an `Io` error,
    /// and a value that the protocol does not allow an `InvalidData` error; `*pos` is then left
    /// at some position. The input must not be one on which reading panics (see
    /// [`Self::deserialize_panics`]).
    pub fn deserialize(buf: &[u8], pos: &mut usize) -> (r: Result<ClientCmd, NetError>)
        requires
            *old(pos) <= buf.len(),
            !(spec_decode_client_at(buf@, *old(pos) as int) is Panics),
        ensures
            match spec_decode_client_at(buf@, *old(pos) as int) {
                Decoded::Value(v, q) => r matches Ok(x) && x@ == v && *final(pos) == q,
                Decoded::Eof => r matches Err(NetError::Io),
                Decoded::Invalid => r matches Err(NetError::InvalidData(_)),
                Decoded::Failed => r matches Err(NetError::Other(_)),
                _ => false,
            },
    {
        match read_client_cmd(buf, *pos) {
            Ok((cmd, q)) => {
                *pos = q;
                Ok(cmd)
            },
            Err(e) => Err(net_error(e)),
        }
    }

    /// Whether reading a command from `buf` at `pos` panics: where the text of a string
    /// command lacks its zero byte or is not UTF-8.
    pub fn deserialize_panics(buf: &[u8], pos: usize) -> (r: bool)
        requires
            pos <= buf.len(),
        ensures
            r == (spec_decode_client_at(buf@, pos as int) is Panics),
    {
        matches!(read_client_cmd(buf, pos), Err(ReadFail::Panic))
    }
}

} // verus!
