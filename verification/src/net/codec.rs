//! Reading and writing the commands of the protocol.
//!
//! The format is given twice: by the `spec_decode_*` functions, which say what reading a
//! command from bytes yields, and by the `spec_encode_*` functions, which say which bytes
//! writing a command yields. The executable readers and writers are proved against them, and
//! the laws at the end of the module relate the two.

use vstd::prelude::*;
use vstd::utf8::{decode_utf8, encode_utf8, valid_utf8};
use super::{
    Angles, ButtonFlags, ClientCmd, ClientCmdOf, ClientCmdView, ClientStat, Coords,
    EntityEffects, EntityUpdate, GameType, ItemFlags, NetError, PlayerColor, PlayerData,
    PointEntityKind, BeamEntityKind, ServerCmd, ServerCmdOf, ServerCmdView, SignOnStage,
    SoundFlags, TempEntity, TempEntityCode, UpdateFlags, ClientUpdateFlags,
};
use crate::util::{find_nul, lemma_find_nul};
use crate::wire::{
    u16_le, u32_le, u16_le_bytes, u32_le_bytes, i16_le_bytes, i32_le_bytes, write_u16_le,
    write_u32_le, write_i16_le, write_i32_le, push_all,
};

verus! {

/// What reading a value from bytes yields.
pub enum Decoded<T> {
    /// A value and the position just after it.
    Value(T, int),
    /// The input holds no command at all.
    End,
    /// The input ended before the value did.
    Eof,
    /// The input holds a value that the protocol does not allow.
    Invalid,
    /// The input holds text that is not UTF-8, reported as a plain error.
    Failed,
    /// Reading panics.
    Panics,
}

/// Whether `s` holds `n` bytes from position `p` on.
pub open spec fn avail(s: Seq<u8>, p: int, n: int) -> bool {
    0 <= p && p + n <= s.len()
}

/// The little-endian `u16` at position `p`.
#[verifier::opaque]
pub open spec fn le16(s: Seq<u8>, p: int) -> u16 {
    u16_le(s[p], s[p + 1])
}

/// The little-endian `u32` at position `p`.
#[verifier::opaque]
pub open spec fn le32(s: Seq<u8>, p: int) -> u32 {
    u32_le(s[p], s[p + 1], s[p + 2], s[p + 3])
}

/// The three little-endian coordinates at position `p`.
pub open spec fn coords_at(s: Seq<u8>, p: int) -> Coords {
    [le16(s, p) as i16, le16(s, p + 2) as i16, le16(s, p + 4) as i16]
}

/// The three angle bytes at position `p`.
pub open spec fn angles_at(s: Seq<u8>, p: int) -> Angles {
    [s[p] as i8, s[p + 1] as i8, s[p + 2] as i8]
}

/// Reading a zero-terminated string at `p`: the text and the position after the zero byte.
///
/// Text that is not UTF-8 is an error if `strict` is false and panics if it is true; input that
/// ends before a zero byte panics.
pub open spec fn text_at(s: Seq<u8>, p: int, strict: bool) -> Decoded<Seq<char>> {
    match find_nul(s, p) {
        None => Decoded::Panics,
        Some(z) => {
            let bytes = s.subrange(p, z);
            if valid_utf8(bytes) {
                Decoded::Value(decode_utf8(bytes), z + 1)
            } else if strict {
                Decoded::Panics
            } else {
                Decoded::Failed
            }
        },
    }
}

/// Reading a list of names at `p`, each zero-terminated, the list ended by an empty name.
pub open spec fn names_at(s: Seq<u8>, p: int) -> Decoded<Seq<Seq<char>>>
    decreases s.len() - p,
{
    proof {
        lemma_find_nul(s, p);
    }
    match text_at(s, p, true) {
        Decoded::Value(name, q) => if name.len() == 0 {
            Decoded::Value(Seq::empty(), q)
        } else {
            match names_at(s, q) {
                Decoded::Value(rest, r) => Decoded::Value(seq![name] + rest, r),
                other => other,
            }
        },
        Decoded::End => Decoded::End,
        Decoded::Eof => Decoded::Eof,
        Decoded::Invalid => Decoded::Invalid,
        Decoded::Failed => Decoded::Failed,
        Decoded::Panics => Decoded::Panics,
    }
}

/// Keeps a value, replacing its value with another one.
pub open spec fn map_value<A, B>(d: Decoded<A>, b: B) -> Decoded<B> {
    match d {
        Decoded::Value(_, q) => Decoded::Value(b, q),
        Decoded::End => Decoded::End,
        Decoded::Eof => Decoded::Eof,
        Decoded::Invalid => Decoded::Invalid,
        Decoded::Failed => Decoded::Failed,
        Decoded::Panics => Decoded::Panics,
    }
}

/// The same failure, for a value of another type.
pub open spec fn fail_as<A, B>(d: Decoded<A>) -> Decoded<B> {
    match d {
        Decoded::Value(_, _) => Decoded::Invalid,
        Decoded::End => Decoded::End,
        Decoded::Eof => Decoded::Eof,
        Decoded::Invalid => Decoded::Invalid,
        Decoded::Failed => Decoded::Failed,
        Decoded::Panics => Decoded::Panics,
    }
}

/// An optional byte at `p`, present if `present`.
pub open spec fn opt_u8(s: Seq<u8>, p: int, present: bool) -> Option<u8> {
    if present { Some(s[p]) } else { None }
}

/// An optional signed byte at `p`, present if `present`.
pub open spec fn opt_i8(s: Seq<u8>, p: int, present: bool) -> Option<i8> {
    if present { Some(s[p] as i8) } else { None }
}

/// An optional little-endian `i16` at `p`, present if `present`.
pub open spec fn opt_i16(s: Seq<u8>, p: int, present: bool) -> Option<i16> {
    if present { Some(le16(s, p) as i16) } else { None }
}

/// One if `b`, else zero.
pub open spec fn one_if(b: bool) -> int {
    if b { 1 } else { 0 }
}

/// Whether every bit of `mask` is set in `bits`.
pub open spec fn has16(bits: u16, mask: u16) -> bool {
    bits & mask == mask
}

/// Reading a byte at `q` that is there only if `present`: the value and the position after it,
/// or `None` if it should be there and the input has ended.
pub open spec fn step_u8(s: Seq<u8>, q: int, present: bool) -> Option<(Option<u8>, int)> {
    if !present {
        Some((None, q))
    } else if avail(s, q, 1) {
        Some((Some(s[q]), q + 1))
    } else {
        None
    }
}

/// Reading a signed byte at `q` that is there only if `present`.
pub open spec fn step_i8(s: Seq<u8>, q: int, present: bool) -> Option<(Option<i8>, int)> {
    if !present {
        Some((None, q))
    } else if avail(s, q, 1) {
        Some((Some(s[q] as i8), q + 1))
    } else {
        None
    }
}

/// Reading a little-endian `i16` at `q` that is there only if `present`.
pub open spec fn step_i16(s: Seq<u8>, q: int, present: bool) -> Option<(Option<i16>, int)> {
    if !present {
        Some((None, q))
    } else if avail(s, q, 2) {
        Some((Some(le16(s, q) as i16), q + 2))
    } else {
        None
    }
}

/// Reading the body of a sound command at `p`.
pub open spec fn spec_decode_sound(s: Seq<u8>, p: int) -> Decoded<ServerCmdView> {
    if !avail(s, p, 1) {
        Decoded::Eof
    } else {
        let f = s[p];
        if f & !0x07u8 != 0 {
            Decoded::Invalid
        } else {
            match step_u8(s, p + 1, f & 1u8 == 1u8) {
                None => Decoded::Eof,
                Some((volume, q2)) => match step_u8(s, q2, f & 2u8 == 2u8) {
                    None => Decoded::Eof,
                    Some((attenuation, q3)) => if !avail(s, q3, 9) {
                        Decoded::Eof
                    } else {
                        let ec = le16(s, q3) as i16;
                        Decoded::Value(
                            ServerCmdOf::Sound {
                                volume,
                                attenuation,
                                entity_id: (ec >> 3i16) as u16,
                                channel: (ec & 7i16) as i8,
                                sound_id: s[q3 + 2],
                                position: coords_at(s, q3 + 3),
                            },
                            q3 + 9,
                        )
                    },
                },
            }
        }
    }
}

/// The optional angles and velocities of a player data command.
pub struct PlayerMotion {
    pub view_height: Option<i8>,
    pub ideal_pitch: Option<i8>,
    pub punch_pitch: Option<i8>,
    pub velocity_x: Option<i8>,
    pub punch_yaw: Option<i8>,
    pub velocity_y: Option<i8>,
    pub punch_roll: Option<i8>,
    pub velocity_z: Option<i8>,
}

/// Reading the optional angles and velocities of a player data command with flags `f`, at `q`:
/// the values and the position after them, or `None` if the input ends first.
pub open spec fn spec_decode_player_motion(s: Seq<u8>, f: u16, q: int) -> Option<(PlayerMotion, int)> {
    match step_i8(s, q, has16(f, 0x0001)) {
        None => None,
        Some((view_height, q1)) => match step_i8(s, q1, has16(f, 0x0002)) {
            None => None,
            Some((ideal_pitch, q2)) => match step_i8(s, q2, has16(f, 0x0004)) {
                None => None,
                Some((punch_pitch, q3)) => match step_i8(s, q3, has16(f, 0x0020)) {
                    None => None,
                    Some((velocity_x, q4)) => match step_i8(s, q4, has16(f, 0x0008)) {
                        None => None,
                        Some((punch_yaw, q5)) => match step_i8(s, q5, has16(f, 0x0040)) {
                            None => None,
                            Some((velocity_y, q6)) => match step_i8(s, q6, has16(f, 0x0010)) {
                                None => None,
                                Some((punch_roll, q7)) => match step_i8(s, q7, has16(f, 0x0080)) {
                                    None => None,
                                    Some((velocity_z, q8)) => Some(
                                        (
                                            PlayerMotion {
                                                view_height,
                                                ideal_pitch,
                                                punch_pitch,
                                                velocity_x,
                                                punch_yaw,
                                                velocity_y,
                                                punch_roll,
                                                velocity_z,
                                            },
                                            q8,
                                        ),
                                    ),
                                },
                            },
                        },
                    },
                },
            },
        },
    }
}

/// The weapon, armor and ammunition of a player data command.
pub struct PlayerGear {
    pub weapon_frame: Option<u8>,
    pub armor: Option<u8>,
    pub weapon: Option<u8>,
    pub health: i16,
    pub ammo: u8,
    pub ammo_shells: u8,
    pub ammo_nails: u8,
    pub ammo_rockets: u8,
    pub ammo_cells: u8,
    pub active_weapon: u8,
}

/// Reading the weapon, armor and ammunition of a player data command with flags `f`, at `q`.
pub open spec fn spec_decode_player_gear(s: Seq<u8>, f: u16, q: int) -> Option<(PlayerGear, int)> {
    match step_u8(s, q, has16(f, 0x1000)) {
        None => None,
        Some((weapon_frame, r1)) => match step_u8(s, r1, has16(f, 0x2000)) {
            None => None,
            Some((armor, r2)) => match step_u8(s, r2, has16(f, 0x4000)) {
                None => None,
                Some((weapon, r3)) => if !avail(s, r3, 8) {
                    None
                } else {
                    Some(
                        (
                            PlayerGear {
                                weapon_frame,
                                armor,
                                weapon,
                                health: le16(s, r3) as i16,
                                ammo: s[r3 + 2],
                                ammo_shells: s[r3 + 3],
                                ammo_nails: s[r3 + 4],
                                ammo_rockets: s[r3 + 5],
                                ammo_cells: s[r3 + 6],
                                active_weapon: s[r3 + 7],
                            },
                            r3 + 8,
                        ),
                    )
                },
            },
        },
    }
}

/// The player data made of its flags, its angles and velocities, its items and its gear.
pub open spec fn player_data_of(f: u16, m: PlayerMotion, items: u32, g: PlayerGear) -> PlayerData {
    PlayerData {
        view_height: m.view_height,
        ideal_pitch: m.ideal_pitch,
        punch_pitch: m.punch_pitch,
        velocity_x: m.velocity_x,
        punch_yaw: m.punch_yaw,
        velocity_y: m.velocity_y,
        punch_roll: m.punch_roll,
        velocity_z: m.velocity_z,
        items: ItemFlags::spec_from_bits(items),
        on_ground: has16(f, 0x0400),
        in_water: has16(f, 0x0800),
        weapon_frame: g.weapon_frame,
        armor: g.armor,
        weapon: g.weapon,
        health: g.health,
        ammo: g.ammo,
        ammo_shells: g.ammo_shells,
        ammo_nails: g.ammo_nails,
        ammo_rockets: g.ammo_rockets,
        ammo_cells: g.ammo_cells,
        active_weapon: g.active_weapon,
    }
}

/// Reading the body of a player data command at `p`.
pub open spec fn spec_decode_player_data(s: Seq<u8>, p: int) -> Decoded<ServerCmdView> {
    if !avail(s, p, 2) {
        Decoded::Eof
    } else {
        let f = le16(s, p);
        if f & !ClientUpdateFlags::spec_all() != 0 {
            Decoded::Invalid
        } else {
            match spec_decode_player_motion(s, f, p + 2) {
                None => Decoded::Eof,
                Some((m, q8)) => if !avail(s, q8, 4) {
                    Decoded::Eof
                } else {
                    let items = le32(s, q8);
                    if items & !ItemFlags::spec_all() != 0 {
                        Decoded::Invalid
                    } else {
                        match spec_decode_player_gear(s, f, q8 + 4) {
                            None => Decoded::Eof,
                            Some((g, q)) => Decoded::Value(
                                ServerCmdOf::PlayerData(player_data_of(f, m, items, g)),
                                q,
                            ),
                        }
                    }
                },
            }
        }
    }
}

/// Reading a temporary entity at `p`.
pub open spec fn spec_decode_temp_entity(s: Seq<u8>, p: int) -> Decoded<TempEntity> {
    if !avail(s, p, 1) {
        Decoded::Eof
    } else {
        match TempEntityCode::spec_from_u8(s[p]) {
            None => Decoded::Invalid,
            Some(code) => {
                let q = p + 1;
                match code {
                    TempEntityCode::ColorExplosion => if !avail(s, q, 8) {
                        Decoded::Eof
                    } else {
                        Decoded::Value(
                            TempEntity::Point {
                                kind: PointEntityKind::ColorExplosion {
                                    color_start: s[q + 6],
                                    color_len: s[q + 7],
                                },
                                origin: coords_at(s, q),
                            },
                            q + 8,
                        )
                    },
                    TempEntityCode::Lightning1 | TempEntityCode::Lightning2
                    | TempEntityCode::Lightning3 | TempEntityCode::Grapple => if !avail(s, q, 14) {
                        Decoded::Eof
                    } else {
                        Decoded::Value(
                            TempEntity::Beam {
                                kind: spec_beam_kind(code),
                                entity_id: le16(s, q) as i16,
                                start: coords_at(s, q + 2),
                                end: coords_at(s, q + 8),
                            },
                            q + 14,
                        )
                    },
                    _ => if !avail(s, q, 6) {
                        Decoded::Eof
                    } else {
                        Decoded::Value(
                            TempEntity::Point { kind: spec_point_kind(code), origin: coords_at(s, q) },
                            q + 6,
                        )
                    },
                }
            },
        }
    }
}

/// The beam that a temporary entity code stands for.
pub open spec fn spec_beam_kind(code: TempEntityCode) -> BeamEntityKind {
    match code {
        TempEntityCode::Lightning1 => BeamEntityKind::Lightning { model_id: 1 },
        TempEntityCode::Lightning2 => BeamEntityKind::Lightning { model_id: 2 },
        TempEntityCode::Lightning3 => BeamEntityKind::Lightning { model_id: 3 },
        _ => BeamEntityKind::Grapple,
    }
}

/// The point entity that a temporary entity code without extra data stands for.
pub open spec fn spec_point_kind(code: TempEntityCode) -> PointEntityKind {
    match code {
        TempEntityCode::Spike => PointEntityKind::Spike,
        TempEntityCode::SuperSpike => PointEntityKind::SuperSpike,
        TempEntityCode::Gunshot => PointEntityKind::Gunshot,
        TempEntityCode::Explosion => PointEntityKind::Explosion,
        TempEntityCode::TarExplosion => PointEntityKind::TarExplosion,
        TempEntityCode::WizSpike => PointEntityKind::WizSpike,
        TempEntityCode::KnightSpike => PointEntityKind::KnightSpike,
        TempEntityCode::LavaSplash => PointEntityKind::LavaSplash,
        _ => PointEntityKind::Teleport,
    }
}

/// Reading the body of a fast entity update whose code byte is `code`, at `p`.
pub open spec fn spec_decode_fast_update(s: Seq<u8>, code: u8, p: int) -> Decoded<ServerCmdView> {
    let low = code & 0x7fu8;
    let more = low & 1u8 == 1u8;
    if more && !avail(s, p, 1) {
        Decoded::Eof
    } else {
        let f: u16 = if more { (((s[p] as u16) << 8u16) | (low as u16)) as u16 } else { low as u16 };
        if f & !UpdateFlags::spec_all() != 0 {
            Decoded::Invalid
        } else {
            match spec_decode_update_fields(s, f, p + one_if(more)) {
                Decoded::Value(u, q) => Decoded::Value(ServerCmdOf::FastUpdate(u), q),
                other => fail_as(other),
            }
        }
    }
}

/// Reading the fields of a fast entity update with flags `f`, at `q0`.
pub open spec fn spec_decode_update_fields(s: Seq<u8>, f: u16, q0: int) -> Decoded<EntityUpdate> {
    let long = has16(f, 0x4000);
    let w: int = if long { 2 } else { 1 };
    if !avail(s, q0, w) {
        Decoded::Eof
    } else {
        let ent_id = if long { le16(s, q0) } else { s[q0] as u16 };
        match step_u8(s, q0 + w, has16(f, 0x0400)) {
            None => Decoded::Eof,
            Some((model_id, q2)) => match step_u8(s, q2, has16(f, 0x0040)) {
                None => Decoded::Eof,
                Some((frame_id, q3)) => match step_u8(s, q3, has16(f, 0x0800)) {
                    None => Decoded::Eof,
                    Some((colormap, q4)) => match step_u8(s, q4, has16(f, 0x1000)) {
                        None => Decoded::Eof,
                        Some((skin_id, q5)) => match step_u8(s, q5, has16(f, 0x2000)) {
                            None => Decoded::Eof,
                            Some((fx, q6)) => if fx matches Some(e) && e & !EntityEffects::spec_all()
                                != 0 {
                                Decoded::Invalid
                            } else {
                                match spec_decode_update_motion(s, f, q6) {
                                    None => Decoded::Eof,
                                    Some((m, q)) => Decoded::Value(
                                        EntityUpdate {
                                            ent_id,
                                            model_id,
                                            frame_id,
                                            colormap,
                                            skin_id,
                                            effects: match fx {
                                                Some(e) => Some(EntityEffects::spec_from_bits(e)),
                                                None => None,
                                            },
                                            origin_x: m.origin_x,
                                            pitch: m.pitch,
                                            origin_y: m.origin_y,
                                            yaw: m.yaw,
                                            origin_z: m.origin_z,
                                            roll: m.roll,
                                            no_lerp: has16(f, 0x0020),
                                        },
                                        q,
                                    ),
                                }
                            },
                        },
                    },
                },
            },
        }
    }
}

/// The coordinates and angles of a fast entity update.
pub struct UpdateMotion {
    pub origin_x: Option<i16>,
    pub pitch: Option<i8>,
    pub origin_y: Option<i16>,
    pub yaw: Option<i8>,
    pub origin_z: Option<i16>,
    pub roll: Option<i8>,
}

/// Reading the coordinates and angles of a fast entity update with flags `f`, at `q`: the
/// values and the position after them, or `None` if the input ends first.
pub open spec fn spec_decode_update_motion(s: Seq<u8>, f: u16, q: int) -> Option<(UpdateMotion, int)> {
    match step_i16(s, q, has16(f, 0x0002)) {
        None => None,
        Some((origin_x, q1)) => match step_i8(s, q1, has16(f, 0x0100)) {
            None => None,
            Some((pitch, q2)) => match step_i16(s, q2, has16(f, 0x0004)) {
                None => None,
                Some((origin_y, q3)) => match step_i8(s, q3, has16(f, 0x0010)) {
                    None => None,
                    Some((yaw, q4)) => match step_i16(s, q4, has16(f, 0x0008)) {
                        None => None,
                        Some((origin_z, q5)) => match step_i8(s, q5, has16(f, 0x0200)) {
                            None => None,
                            Some((roll, q6)) => Some(
                                (UpdateMotion { origin_x, pitch, origin_y, yaw, origin_z, roll }, q6),
                            ),
                        },
                    },
                },
            },
        },
    }
}

/// A command whose body is text read at `p`.
pub open spec fn spec_decode_text_cmd(s: Seq<u8>, p: int, code: u8) -> Decoded<ServerCmdView> {
    match text_at(s, p, false) {
        Decoded::Value(text, q) => Decoded::Value(
            if code == 8 {
                ServerCmdOf::Print { text }
            } else if code == 9 {
                ServerCmdOf::StuffText { text }
            } else if code == 26 {
                ServerCmdOf::CenterPrint { text }
            } else if code == 31 {
                ServerCmdOf::Finale { text }
            } else {
                ServerCmdOf::Cutscene { text }
            },
            q,
        ),
        other => fail_as(other),
    }
}

/// Reading the body of a server info command at `p`.
pub open spec fn spec_decode_server_info(s: Seq<u8>, p: int) -> Decoded<ServerCmdView> {
    if !avail(s, p, 6) {
        Decoded::Eof
    } else {
        match GameType::spec_from_u8(s[p + 5]) {
            None => Decoded::Invalid,
            Some(game_type) => match text_at(s, p + 6, true) {
                Decoded::Value(message, q) => match names_at(s, q) {
                    Decoded::Value(models, r) => match names_at(s, r) {
                        Decoded::Value(sounds, t) => Decoded::Value(
                            ServerCmdOf::ServerInfo {
                                protocol_version: le32(s, p) as i32,
                                max_clients: s[p + 4],
                                game_type,
                                message,
                                model_precache: models,
                                sound_precache: sounds,
                            },
                            t,
                        ),
                        other => fail_as(other),
                    },
                    other => fail_as(other),
                },
                other => fail_as(other),
            },
        }
    }
}

/// Reading the body of a server command with code `code` at `p`.
pub open spec fn spec_decode_server_body(s: Seq<u8>, code: u8, p: int) -> Decoded<ServerCmdView> {
    if code == 0 {
        Decoded::Value(ServerCmdOf::Bad, p)
    } else if code == 1 {
        Decoded::Value(ServerCmdOf::NoOp, p)
    } else if code == 2 {
        Decoded::Value(ServerCmdOf::Disconnect, p)
    } else if code == 3 {
        if !avail(s, p, 1) {
            Decoded::Eof
        } else {
            match ClientStat::spec_from_u8(s[p]) {
                None => Decoded::Invalid,
                Some(stat) => if !avail(s, p + 1, 4) {
                    Decoded::Eof
                } else {
                    Decoded::Value(ServerCmdOf::UpdateStat { stat, value: le32(s, p + 1) as i32 }, p + 5)
                },
            }
        }
    } else if code == 4 {
        if !avail(s, p, 4) {
            Decoded::Eof
        } else {
            Decoded::Value(ServerCmdOf::Version { version: le32(s, p) as i32 }, p + 4)
        }
    } else if code == 5 {
        if !avail(s, p, 2) {
            Decoded::Eof
        } else {
            Decoded::Value(ServerCmdOf::SetView { ent_id: le16(s, p) as i16 }, p + 2)
        }
    } else if code == 6 {
        spec_decode_sound(s, p)
    } else if code == 7 {
        if !avail(s, p, 4) {
            Decoded::Eof
        } else {
            Decoded::Value(ServerCmdOf::Time { time: le32(s, p) }, p + 4)
        }
    } else if code == 8 || code == 9 || code == 26 || code == 31 || code == 34 {
        spec_decode_text_cmd(s, p, code)
    } else if code == 10 {
        if !avail(s, p, 3) {
            Decoded::Eof
        } else {
            Decoded::Value(ServerCmdOf::SetAngle { angles: angles_at(s, p) }, p + 3)
        }
    } else if code == 11 {
        spec_decode_server_info(s, p)
    } else if code == 12 || code == 13 {
        if !avail(s, p, 1) {
            Decoded::Eof
        } else {
            match text_at(s, p + 1, true) {
                Decoded::Value(text, q) => Decoded::Value(
                    if code == 12 {
                        ServerCmdOf::LightStyle { id: s[p], value: text }
                    } else {
                        ServerCmdOf::UpdateName { player_id: s[p], new_name: text }
                    },
                    q,
                ),
                other => fail_as(other),
            }
        }
    } else if code == 14 {
        if !avail(s, p, 3) {
            Decoded::Eof
        } else {
            Decoded::Value(
                ServerCmdOf::UpdateFrags { player_id: s[p], new_frags: le16(s, p + 1) as i16 },
                p + 3,
            )
        }
    } else if code == 15 {
        spec_decode_player_data(s, p)
    } else if code == 16 {
        if !avail(s, p, 2) {
            Decoded::Eof
        } else {
            let ec = le16(s, p);
            Decoded::Value(
                ServerCmdOf::StopSound { entity_id: ec >> 3u16, channel: (ec & 7u16) as u8 },
                p + 2,
            )
        }
    } else if code == 17 {
        if !avail(s, p, 2) {
            Decoded::Eof
        } else {
            Decoded::Value(
                ServerCmdOf::UpdateColors {
                    player_id: s[p],
                    new_colors: PlayerColor::spec_new(s[p + 1] >> 4u8, s[p + 1] & 0x0fu8),
                },
                p + 2,
            )
        }
    } else if code == 18 {
        if !avail(s, p, 11) {
            Decoded::Eof
        } else {
            Decoded::Value(
                ServerCmdOf::Particle {
                    origin: coords_at(s, p),
                    direction: angles_at(s, p + 6),
                    count: s[p + 9],
                    color: s[p + 10],
                },
                p + 11,
            )
        }
    } else if code == 19 {
        if !avail(s, p, 8) {
            Decoded::Eof
        } else {
            Decoded::Value(
                ServerCmdOf::Damage { armor: s[p], blood: s[p + 1], source: coords_at(s, p + 2) },
                p + 8,
            )
        }
    } else if code == 20 {
        if !avail(s, p, 13) {
            Decoded::Eof
        } else {
            Decoded::Value(
                ServerCmdOf::SpawnStatic {
                    model_id: s[p],
                    frame_id: s[p + 1],
                    colormap: s[p + 2],
                    skin_id: s[p + 3],
                    origin: interleaved_coords(s, p + 4),
                    angles: interleaved_angles(s, p + 4),
                },
                p + 13,
            )
        }
    } else if code == 22 {
        if !avail(s, p, 15) {
            Decoded::Eof
        } else {
            Decoded::Value(
                ServerCmdOf::SpawnBaseline {
                    ent_id: le16(s, p),
                    model_id: s[p + 2],
                    frame_id: s[p + 3],
                    colormap: s[p + 4],
                    skin_id: s[p + 5],
                    origin: interleaved_coords(s, p + 6),
                    angles: interleaved_angles(s, p + 6),
                },
                p + 15,
            )
        }
    } else if code == 23 {
        match spec_decode_temp_entity(s, p) {
            Decoded::Value(temp_entity, q) => Decoded::Value(ServerCmdOf::TempEntity { temp_entity }, q),
            other => fail_as(other),
        }
    } else if code == 24 {
        if !avail(s, p, 1) {
            Decoded::Eof
        } else if s[p] == 0 {
            Decoded::Value(ServerCmdOf::SetPause { paused: false }, p + 1)
        } else if s[p] == 1 {
            Decoded::Value(ServerCmdOf::SetPause { paused: true }, p + 1)
        } else {
            Decoded::Invalid
        }
    } else if code == 25 {
        if !avail(s, p, 1) {
            Decoded::Eof
        } else {
            match SignOnStage::spec_from_u8(s[p]) {
                None => Decoded::Invalid,
                Some(stage) => Decoded::Value(ServerCmdOf::SignOnStage { stage }, p + 1),
            }
        }
    } else if code == 27 {
        Decoded::Value(ServerCmdOf::KilledMonster, p)
    } else if code == 28 {
        Decoded::Value(ServerCmdOf::FoundSecret, p)
    } else if code == 29 {
        if !avail(s, p, 9) {
            Decoded::Eof
        } else {
            Decoded::Value(
                ServerCmdOf::SpawnStaticSound {
                    origin: coords_at(s, p),
                    sound_id: s[p + 6],
                    volume: s[p + 7],
                    attenuation: s[p + 8],
                },
                p + 9,
            )
        }
    } else if code == 30 {
        Decoded::Value(ServerCmdOf::Intermission, p)
    } else if code == 32 {
        if !avail(s, p, 2) {
            Decoded::Eof
        } else {
            Decoded::Value(ServerCmdOf::CdTrack { track: s[p], loop_: s[p + 1] }, p + 2)
        }
    } else if code == 33 {
        Decoded::Value(ServerCmdOf::SellScreen, p)
    } else {
        Decoded::Invalid
    }
}

/// The coordinates of three (coordinate, angle) pairs at `p`.
pub open spec fn interleaved_coords(s: Seq<u8>, p: int) -> Coords {
    [le16(s, p) as i16, le16(s, p + 3) as i16, le16(s, p + 6) as i16]
}

/// The angles of three (coordinate, angle) pairs at `p`.
pub open spec fn interleaved_angles(s: Seq<u8>, p: int) -> Angles {
    [s[p + 2] as i8, s[p + 5] as i8, s[p + 8] as i8]
}

/// Reading a server command at position `p` of `s`.
pub open spec fn spec_decode_server_at(s: Seq<u8>, p: int) -> Decoded<ServerCmdView> {
    if p < 0 || p >= s.len() {
        Decoded::End
    } else if s[p] & 0x80u8 != 0 {
        spec_decode_fast_update(s, s[p], p + 1)
    } else {
        spec_decode_server_body(s, s[p], p + 1)
    }
}

/// Reading a server command from the start of `s`.
pub open spec fn spec_decode_server(s: Seq<u8>) -> Decoded<ServerCmdView> {
    spec_decode_server_at(s, 0)
}

/// Reading the body of a move command at `p`.
pub open spec fn spec_decode_move(s: Seq<u8>, p: int) -> Decoded<ClientCmdView> {
    if !avail(s, p, 14) {
        Decoded::Eof
    } else if s[p + 13] & !ButtonFlags::spec_all() != 0 {
        Decoded::Invalid
    } else if !avail(s, p, 15) {
        Decoded::Eof
    } else {
        Decoded::Value(
            ClientCmdOf::Move {
                send_time: le32(s, p),
                angles: angles_at(s, p + 4),
                fwd_move: le16(s, p + 7) as i16,
                side_move: le16(s, p + 9) as i16,
                up_move: le16(s, p + 11) as i16,
                button_flags: ButtonFlags::spec_from_bits(s[p + 13]),
                impulse: s[p + 14],
            },
            p + 15,
        )
    }
}

/// Reading a client command at position `p` of `s`.
pub open spec fn spec_decode_client_at(s: Seq<u8>, p: int) -> Decoded<ClientCmdView> {
    if p < 0 || p >= s.len() {
        Decoded::Eof
    } else if s[p] == 0 {
        Decoded::Value(ClientCmdOf::Bad, p + 1)
    } else if s[p] == 1 {
        Decoded::Value(ClientCmdOf::NoOp, p + 1)
    } else if s[p] == 2 {
        Decoded::Value(ClientCmdOf::Disconnect, p + 1)
    } else if s[p] == 3 {
        spec_decode_move(s, p + 1)
    } else if s[p] == 4 {
        match text_at(s, p + 1, true) {
            Decoded::Value(cmd, q) => Decoded::Value(ClientCmdOf::StringCmd { cmd }, q),
            other => fail_as(other),
        }
    } else {
        Decoded::Invalid
    }
}

/// Reading a client command from the start of `s`.
pub open spec fn spec_decode_client(s: Seq<u8>) -> Decoded<ClientCmdView> {
    spec_decode_client_at(s, 0)
}

/// The value of a client command.
impl View for ClientCmdOf<String> {
    type V = ClientCmdView;

    open spec fn view(&self) -> ClientCmdView {
        match self {
            ClientCmdOf::Bad => ClientCmdOf::Bad,
            ClientCmdOf::NoOp => ClientCmdOf::NoOp,
            ClientCmdOf::Disconnect => ClientCmdOf::Disconnect,
            ClientCmdOf::Move {
                send_time,
                angles,
                fwd_move,
                side_move,
                up_move,
                button_flags,
                impulse,
            } => ClientCmdOf::Move {
                send_time: *send_time,
                angles: *angles,
                fwd_move: *fwd_move,
                side_move: *side_move,
                up_move: *up_move,
                button_flags: *button_flags,
                impulse: *impulse,
            },
            ClientCmdOf::StringCmd { cmd } => ClientCmdOf::StringCmd { cmd: cmd@ },
        }
    }
}

/// The text of a list of names.
pub open spec fn names_view(l: Seq<String>) -> Seq<Seq<char>> {
    l.map_values(|s: String| s@)
}

/// The value of a server command.
impl View for ServerCmdOf<String, Vec<String>> {
    type V = ServerCmdView;

    open spec fn view(&self) -> ServerCmdView {
        match self {
            ServerCmdOf::Bad => ServerCmdOf::Bad,
            ServerCmdOf::NoOp => ServerCmdOf::NoOp,
            ServerCmdOf::Disconnect => ServerCmdOf::Disconnect,
            ServerCmdOf::UpdateStat { stat, value } => ServerCmdOf::UpdateStat {
                stat: *stat,
                value: *value,
            },
            ServerCmdOf::Version { version } => ServerCmdOf::Version { version: *version },
            ServerCmdOf::SetView { ent_id } => ServerCmdOf::SetView { ent_id: *ent_id },
            ServerCmdOf::Sound { volume, attenuation, entity_id, channel, sound_id, position } =>
                ServerCmdOf::Sound {
                volume: *volume,
                attenuation: *attenuation,
                entity_id: *entity_id,
                channel: *channel,
                sound_id: *sound_id,
                position: *position,
            },
            ServerCmdOf::Time { time } => ServerCmdOf::Time { time: *time },
            ServerCmdOf::Print { text } => ServerCmdOf::Print { text: text@ },
            ServerCmdOf::StuffText { text } => ServerCmdOf::StuffText { text: text@ },
            ServerCmdOf::SetAngle { angles } => ServerCmdOf::SetAngle { angles: *angles },
            ServerCmdOf::ServerInfo {
                protocol_version,
                max_clients,
                game_type,
                message,
                model_precache,
                sound_precache,
            } => ServerCmdOf::ServerInfo {
                protocol_version: *protocol_version,
                max_clients: *max_clients,
                game_type: *game_type,
                message: message@,
                model_precache: names_view(model_precache@),
                sound_precache: names_view(sound_precache@),
            },
            ServerCmdOf::LightStyle { id, value } => ServerCmdOf::LightStyle {
                id: *id,
                value: value@,
            },
            ServerCmdOf::UpdateName { player_id, new_name } => ServerCmdOf::UpdateName {
                player_id: *player_id,
                new_name: new_name@,
            },
            ServerCmdOf::UpdateFrags { player_id, new_frags } => ServerCmdOf::UpdateFrags {
                player_id: *player_id,
                new_frags: *new_frags,
            },
            ServerCmdOf::PlayerData(d) => ServerCmdOf::PlayerData(*d),
            ServerCmdOf::StopSound { entity_id, channel } => ServerCmdOf::StopSound {
                entity_id: *entity_id,
                channel: *channel,
            },
            ServerCmdOf::UpdateColors { player_id, new_colors } => ServerCmdOf::UpdateColors {
                player_id: *player_id,
                new_colors: *new_colors,
            },
            ServerCmdOf::Particle { origin, direction, count, color } => ServerCmdOf::Particle {
                origin: *origin,
                direction: *direction,
                count: *count,
                color: *color,
            },
            ServerCmdOf::Damage { armor, blood, source } => ServerCmdOf::Damage {
                armor: *armor,
                blood: *blood,
                source: *source,
            },
            ServerCmdOf::SpawnStatic { model_id, frame_id, colormap, skin_id, origin, angles } =>
                ServerCmdOf::SpawnStatic {
                model_id: *model_id,
                frame_id: *frame_id,
                colormap: *colormap,
                skin_id: *skin_id,
                origin: *origin,
                angles: *angles,
            },
            ServerCmdOf::SpawnBaseline {
                ent_id,
                model_id,
                frame_id,
                colormap,
                skin_id,
                origin,
                angles,
            } => ServerCmdOf::SpawnBaseline {
                ent_id: *ent_id,
                model_id: *model_id,
                frame_id: *frame_id,
                colormap: *colormap,
                skin_id: *skin_id,
                origin: *origin,
                angles: *angles,
            },
            ServerCmdOf::TempEntity { temp_entity } => ServerCmdOf::TempEntity {
                temp_entity: *temp_entity,
            },
            ServerCmdOf::SetPause { paused } => ServerCmdOf::SetPause { paused: *paused },
            ServerCmdOf::SignOnStage { stage } => ServerCmdOf::SignOnStage { stage: *stage },
            ServerCmdOf::CenterPrint { text } => ServerCmdOf::CenterPrint { text: text@ },
            ServerCmdOf::KilledMonster => ServerCmdOf::KilledMonster,
            ServerCmdOf::FoundSecret => ServerCmdOf::FoundSecret,
            ServerCmdOf::SpawnStaticSound { origin, sound_id, volume, attenuation } =>
                ServerCmdOf::SpawnStaticSound {
                origin: *origin,
                sound_id: *sound_id,
                volume: *volume,
                attenuation: *attenuation,
            },
            ServerCmdOf::Intermission => ServerCmdOf::Intermission,
            ServerCmdOf::Finale { text } => ServerCmdOf::Finale { text: text@ },
            ServerCmdOf::CdTrack { track, loop_ } => ServerCmdOf::CdTrack {
                track: *track,
                loop_: *loop_,
            },
            ServerCmdOf::SellScreen => ServerCmdOf::SellScreen,
            ServerCmdOf::Cutscene { text } => ServerCmdOf::Cutscene { text: text@ },
            ServerCmdOf::FastUpdate(u) => ServerCmdOf::FastUpdate(*u),
        }
    }
}

/// The bytes of three coordinates.
pub open spec fn coords_bytes(c: Coords) -> Seq<u8> {
    i16_le_bytes(c[0]) + i16_le_bytes(c[1]) + i16_le_bytes(c[2])
}

/// The bytes of three angles.
pub open spec fn angles_bytes(a: Angles) -> Seq<u8> {
    seq![a[0] as u8, a[1] as u8, a[2] as u8]
}

/// The bytes of three (coordinate, angle) pairs.
pub open spec fn interleaved_bytes(c: Coords, a: Angles) -> Seq<u8> {
    i16_le_bytes(c[0]) + seq![a[0] as u8] + i16_le_bytes(c[1]) + seq![a[1] as u8] + i16_le_bytes(
        c[2],
    ) + seq![a[2] as u8]
}

/// The bytes of a zero-terminated string.
pub open spec fn text_bytes(t: Seq<char>) -> Seq<u8> {
    encode_utf8(t) + seq![0u8]
}

/// The bytes of a list of names, ended by an empty name.
pub open spec fn names_bytes(l: Seq<Seq<char>>) -> Seq<u8>
    decreases l.len(),
{
    if l.len() == 0 {
        seq![0u8]
    } else {
        text_bytes(l[0]) + names_bytes(l.drop_first())
    }
}

/// The bytes of an optional byte.
pub open spec fn opt_bytes(b: Option<u8>) -> Seq<u8> {
    match b {
        Some(v) => seq![v],
        None => Seq::empty(),
    }
}

/// The bytes of an optional signed byte.
pub open spec fn opt_i8_bytes(b: Option<i8>) -> Seq<u8> {
    match b {
        Some(v) => seq![v as u8],
        None => Seq::empty(),
    }
}

/// A flag bit if a condition holds.
pub open spec fn bit_if(b: bool, bit: u16) -> u16 {
    if b { bit } else { 0 }
}

/// The flags that a player data command is written with.
#[verifier::opaque]
pub open spec fn player_data_flags(d: PlayerData) -> u16 {
    bit_if(d.view_height is Some, 0x0001) | bit_if(d.ideal_pitch is Some, 0x0002) | bit_if(
        d.punch_pitch is Some,
        0x0004,
    ) | bit_if(d.velocity_x is Some, 0x0020) | bit_if(d.punch_yaw is Some, 0x0008) | bit_if(
        d.velocity_y is Some,
        0x0040,
    ) | bit_if(d.punch_roll is Some, 0x0010) | bit_if(d.velocity_z is Some, 0x0080) | 0x0200u16
        | bit_if(d.on_ground, 0x0400) | bit_if(d.in_water, 0x0800) | bit_if(
        d.weapon_frame is Some,
        0x1000,
    ) | bit_if(d.armor is Some, 0x2000) | bit_if(d.weapon is Some, 0x4000)
}

/// The bytes that a player data command's body is written as.
pub open spec fn player_data_bytes(d: PlayerData) -> Seq<u8> {
    player_data_head(d) + player_data_tail(d)
}

/// The flags and optional angles and velocities of a player data command.
pub open spec fn player_data_head(d: PlayerData) -> Seq<u8> {
    u16_le_bytes(player_data_flags(d)) + opt_i8_bytes(d.view_height) + opt_i8_bytes(d.ideal_pitch)
        + opt_i8_bytes(d.punch_pitch) + opt_i8_bytes(d.velocity_x) + opt_i8_bytes(d.punch_yaw)
        + opt_i8_bytes(d.velocity_y) + opt_i8_bytes(d.punch_roll) + opt_i8_bytes(d.velocity_z)
}

/// The items, weapon, health and ammunition of a player data command.
pub open spec fn player_data_tail(d: PlayerData) -> Seq<u8> {
    u32_le_bytes(d.items.spec_bits()) + opt_bytes(d.weapon_frame) + opt_bytes(d.armor) + opt_bytes(
        d.weapon,
    ) + i16_le_bytes(d.health) + seq![
        d.ammo,
        d.ammo_shells,
        d.ammo_nails,
        d.ammo_rockets,
        d.ammo_cells,
        d.active_weapon,
    ]
}

/// The code of a temporary entity's point kind.
pub open spec fn point_code(kind: PointEntityKind) -> u8 {
    match kind {
        PointEntityKind::Spike => 0,
        PointEntityKind::SuperSpike => 1,
        PointEntityKind::Gunshot => 2,
        PointEntityKind::Explosion => 3,
        PointEntityKind::TarExplosion => 4,
        PointEntityKind::WizSpike => 7,
        PointEntityKind::KnightSpike => 8,
        PointEntityKind::LavaSplash => 10,
        PointEntityKind::Teleport => 11,
        PointEntityKind::ColorExplosion { .. } => 12,
    }
}

/// The code of a beam kind; lightning with a model other than 1, 2 or 3 has none.
pub open spec fn beam_code(kind: BeamEntityKind) -> u8 {
    match kind {
        BeamEntityKind::Lightning { model_id } => if model_id == 1 {
            5
        } else if model_id == 2 {
            6
        } else {
            9
        },
        BeamEntityKind::Grapple => 13,
    }
}

/// Whether a temporary entity can be written: a lightning model must be 1, 2 or 3.
pub open spec fn temp_entity_writable(e: TempEntity) -> bool {
    match e {
        TempEntity::Beam { kind: BeamEntityKind::Lightning { model_id }, .. } => 1 <= model_id <= 3,
        _ => true,
    }
}

/// The bytes that a temporary entity is written as.
///
/// A colored explosion writes its colors before its origin, and a beam writes its entity before
/// its code; reading expects them the other way round.
pub open spec fn temp_entity_bytes(e: TempEntity) -> Seq<u8> {
    match e {
        TempEntity::Point { kind, origin } => match kind {
            PointEntityKind::ColorExplosion { color_start, color_len } => seq![
                12u8,
                color_start,
                color_len,
            ] + coords_bytes(origin),
            _ => seq![point_code(kind)] + coords_bytes(origin),
        },
        TempEntity::Beam { kind, entity_id, start, end } => i16_le_bytes(entity_id) + seq![
            beam_code(kind),
        ] + coords_bytes(start) + coords_bytes(end),
    }
}

/// The code byte of a server command other than a fast update.
pub open spec fn server_code(c: ServerCmdView) -> u8 {
    match c {
        ServerCmdOf::Bad => 0,
        ServerCmdOf::NoOp => 1,
        ServerCmdOf::Disconnect => 2,
        ServerCmdOf::UpdateStat { .. } => 3,
        ServerCmdOf::Version { .. } => 4,
        ServerCmdOf::SetView { .. } => 5,
        ServerCmdOf::Sound { .. } => 6,
        ServerCmdOf::Time { .. } => 7,
        ServerCmdOf::Print { .. } => 8,
        ServerCmdOf::StuffText { .. } => 9,
        ServerCmdOf::SetAngle { .. } => 10,
        ServerCmdOf::ServerInfo { .. } => 11,
        ServerCmdOf::LightStyle { .. } => 12,
        ServerCmdOf::UpdateName { .. } => 13,
        ServerCmdOf::UpdateFrags { .. } => 14,
        ServerCmdOf::PlayerData(..) => 15,
        ServerCmdOf::StopSound { .. } => 16,
        ServerCmdOf::UpdateColors { .. } => 17,
        ServerCmdOf::Particle { .. } => 18,
        ServerCmdOf::Damage { .. } => 19,
        ServerCmdOf::SpawnStatic { .. } => 20,
        ServerCmdOf::SpawnBaseline { .. } => 22,
        ServerCmdOf::TempEntity { .. } => 23,
        ServerCmdOf::SetPause { .. } => 24,
        ServerCmdOf::SignOnStage { .. } => 25,
        ServerCmdOf::CenterPrint { .. } => 26,
        ServerCmdOf::KilledMonster => 27,
        ServerCmdOf::FoundSecret => 28,
        ServerCmdOf::SpawnStaticSound { .. } => 29,
        ServerCmdOf::Intermission => 30,
        ServerCmdOf::Finale { .. } => 31,
        ServerCmdOf::CdTrack { .. } => 32,
        ServerCmdOf::SellScreen => 33,
        ServerCmdOf::Cutscene { .. } => 34,
        ServerCmdOf::FastUpdate(..) => 0,
    }
}

/// Whether a server command can be written: fast updates cannot, and a temporary entity must
/// be writable.
pub open spec fn server_writable(c: ServerCmdView) -> bool {
    match c {
        ServerCmdOf::FastUpdate(..) => false,
        ServerCmdOf::TempEntity { temp_entity } => temp_entity_writable(temp_entity),
        _ => true,
    }
}

/// The field that a sound's entity and channel share: the channel is its low three bits.
pub open spec fn spec_sound_entity_channel(entity_id: u16, channel: i8) -> i16 {
    ((entity_id as i16) << 3u16) | ((channel as i16) & 7i16)
}

/// The bytes of the body of a server command.
pub open spec fn server_body_bytes(c: ServerCmdView) -> Seq<u8> {
    match c {
        ServerCmdOf::UpdateStat { stat, value } => seq![stat.spec_code()] + i32_le_bytes(value),
        ServerCmdOf::Version { version } => i32_le_bytes(version),
        ServerCmdOf::SetView { ent_id } => i16_le_bytes(ent_id),
        ServerCmdOf::Sound { volume, attenuation, entity_id, channel, sound_id, position } => seq![
            ((if volume is Some { 1u8 } else { 0u8 }) | (if attenuation is Some {
                2u8
            } else {
                0u8
            })) as u8,
        ] + opt_bytes(volume) + opt_bytes(attenuation) + i16_le_bytes(
            spec_sound_entity_channel(entity_id, channel),
        ) + seq![sound_id] + coords_bytes(position),
        ServerCmdOf::Time { time } => u32_le_bytes(time),
        ServerCmdOf::Print { text } => text_bytes(text),
        ServerCmdOf::StuffText { text } => text_bytes(text),
        ServerCmdOf::SetAngle { angles } => angles_bytes(angles),
        ServerCmdOf::ServerInfo {
            protocol_version,
            max_clients,
            game_type,
            message,
            model_precache,
            sound_precache,
        } => i32_le_bytes(protocol_version) + seq![max_clients, game_type.spec_code()] + text_bytes(
            message,
        ) + names_bytes(model_precache) + names_bytes(sound_precache),
        ServerCmdOf::LightStyle { id, value } => seq![id] + text_bytes(value),
        ServerCmdOf::UpdateName { player_id, new_name } => seq![player_id] + text_bytes(new_name),
        ServerCmdOf::UpdateFrags { player_id, new_frags } => seq![player_id] + i16_le_bytes(
            new_frags,
        ),
        ServerCmdOf::PlayerData(d) => player_data_bytes(d),
        ServerCmdOf::StopSound { entity_id, channel } => u16_le_bytes(
            ((entity_id << 3u16) | ((channel as u16) & 7u16)) as u16,
        ),
        ServerCmdOf::UpdateColors { player_id, new_colors } => seq![
            player_id,
            new_colors.spec_bits(),
        ],
        ServerCmdOf::Particle { origin, direction, count, color } => coords_bytes(origin)
            + angles_bytes(direction) + seq![count, color],
        ServerCmdOf::Damage { armor, blood, source } => seq![armor, blood] + coords_bytes(source),
        ServerCmdOf::SpawnStatic { model_id, frame_id, colormap, skin_id, origin, angles } => seq![
            model_id,
            frame_id,
            colormap,
            skin_id,
        ] + interleaved_bytes(origin, angles),
        ServerCmdOf::SpawnBaseline {
            ent_id,
            model_id,
            frame_id,
            colormap,
            skin_id,
            origin,
            angles,
        } => u16_le_bytes(ent_id) + seq![model_id, frame_id, colormap, skin_id] + interleaved_bytes(
            origin,
            angles,
        ),
        ServerCmdOf::TempEntity { temp_entity } => temp_entity_bytes(temp_entity),
        ServerCmdOf::SetPause { paused } => seq![if paused { 1u8 } else { 0u8 }],
        ServerCmdOf::SignOnStage { stage } => seq![stage.spec_code()],
        ServerCmdOf::CenterPrint { text } => text_bytes(text),
        ServerCmdOf::SpawnStaticSound { origin, sound_id, volume, attenuation } => coords_bytes(
            origin,
        ) + seq![sound_id, volume, attenuation],
        ServerCmdOf::Finale { text } => text_bytes(text),
        ServerCmdOf::CdTrack { track, loop_ } => seq![track, loop_],
        ServerCmdOf::Cutscene { text } => text_bytes(text),
        _ => Seq::empty(),
    }
}

/// The bytes that a server command is written as.
pub open spec fn spec_encode_server(c: ServerCmdView) -> Seq<u8> {
    seq![server_code(c)] + server_body_bytes(c)
}

/// The code byte of a client command.
pub open spec fn client_code(c: ClientCmdView) -> u8 {
    match c {
        ClientCmdOf::Bad => 0,
        ClientCmdOf::NoOp => 1,
        ClientCmdOf::Disconnect => 2,
        ClientCmdOf::Move { .. } => 3,
        ClientCmdOf::StringCmd { .. } => 4,
    }
}

/// The bytes that a client command is written as.
pub open spec fn spec_encode_client(c: ClientCmdView) -> Seq<u8> {
    seq![client_code(c)] + match c {
        ClientCmdOf::Move {
            send_time,
            angles,
            fwd_move,
            side_move,
            up_move,
            button_flags,
            impulse,
        } => u32_le_bytes(send_time) + angles_bytes(angles) + i16_le_bytes(fwd_move) + i16_le_bytes(
            side_move,
        ) + i16_le_bytes(up_move) + seq![button_flags.spec_bits(), impulse],
        ClientCmdOf::StringCmd { cmd } => text_bytes(cmd),
        _ => Seq::empty(),
    }
}

fn sound_entity_channel(entity_id: u16, channel: i8) -> (r: i16)
    ensures
        r == spec_sound_entity_channel(entity_id, channel),
{
    let e: i16 = entity_id as i16;
    let c: i16 = channel as i16;
    (e << 3u16) | (c & 7i16)
}

fn put_u16(out: &mut Vec<u8>, v: u16)
    ensures
        final(out)@ == old(out)@ + u16_le_bytes(v),
{
    let b = write_u16_le(v);
    push_all(out, &b);
}

fn put_i16(out: &mut Vec<u8>, v: i16)
    ensures
        final(out)@ == old(out)@ + i16_le_bytes(v),
{
    let b = write_i16_le(v);
    push_all(out, &b);
}

fn put_u32(out: &mut Vec<u8>, v: u32)
    ensures
        final(out)@ == old(out)@ + u32_le_bytes(v),
{
    let b = write_u32_le(v);
    push_all(out, &b);
}

fn put_i32(out: &mut Vec<u8>, v: i32)
    ensures
        final(out)@ == old(out)@ + i32_le_bytes(v),
{
    let b = write_i32_le(v);
    push_all(out, &b);
}

fn put_coords(out: &mut Vec<u8>, c: &Coords)
    ensures
        final(out)@ == old(out)@ + coords_bytes(*c),
{
    put_i16(out, c[0]);
    put_i16(out, c[1]);
    put_i16(out, c[2]);
    assert(out@ =~= old(out)@ + coords_bytes(*c));
}

fn put_angles(out: &mut Vec<u8>, a: &Angles)
    ensures
        final(out)@ == old(out)@ + angles_bytes(*a),
{
    out.push(a[0] as u8);
    out.push(a[1] as u8);
    out.push(a[2] as u8);
    assert(out@ =~= old(out)@ + angles_bytes(*a));
}

fn put_interleaved(out: &mut Vec<u8>, c: &Coords, a: &Angles)
    ensures
        final(out)@ == old(out)@ + interleaved_bytes(*c, *a),
{
    let mut i: usize = 0;
    while i < 3
        invariant
            i <= 3,
            out@ == old(out)@ + interleaved_prefix(*c, *a, i as int),
        decreases 3 - i,
    {
        put_i16(out, c[i]);
        out.push(a[i] as u8);
        proof {
            reveal_with_fuel(interleaved_prefix, 4);
            assert(out@ =~= old(out)@ + interleaved_prefix(*c, *a, i + 1));
        }
        i = i + 1;
    }
    proof {
        reveal_with_fuel(interleaved_prefix, 4);
        assert(interleaved_prefix(*c, *a, 3) =~= interleaved_bytes(*c, *a));
    }
}

/// The bytes of the first `n` (coordinate, angle) pairs.
pub open spec fn interleaved_prefix(c: Coords, a: Angles, n: int) -> Seq<u8>
    decreases n,
{
    if n <= 0 {
        Seq::empty()
    } else {
        interleaved_prefix(c, a, n - 1) + i16_le_bytes(c[n - 1]) + seq![a[n - 1] as u8]
    }
}

pub(crate) fn put_text(out: &mut Vec<u8>, t: &String)
    ensures
        final(out)@ == old(out)@ + text_bytes(t@),
{
    let b = t.as_str().as_bytes();
    push_all(out, b);
    out.push(0);
    assert(out@ =~= old(out)@ + text_bytes(t@));
}

pub(crate) fn put_names(out: &mut Vec<u8>, l: &Vec<String>)
    ensures
        final(out)@ == old(out)@ + names_bytes(names_view(l@)),
{
    let mut i: usize = 0;
    assert(names_view(l@).skip(0) =~= names_view(l@));
    while i < l.len()
        invariant
            i <= l.len(),
            out@ + names_bytes(names_view(l@).skip(i as int)) == old(out)@ + names_bytes(
                names_view(l@),
            ),
        decreases l.len() - i,
    {
        let ghost before = out@;
        put_text(out, &l[i]);
        proof {
            let rest = names_view(l@).skip(i as int);
            assert(rest[0] == l@[i as int]@);
            assert(rest.drop_first() =~= names_view(l@).skip(i + 1));
            assert(names_bytes(rest) == text_bytes(rest[0]) + names_bytes(rest.drop_first()));
            assert(out@ + names_bytes(names_view(l@).skip(i + 1)) =~= before + names_bytes(rest));
        }
        i = i + 1;
    }
    out.push(0);
    proof {
        assert(names_view(l@).skip(l.len() as int) =~= Seq::<Seq<char>>::empty());
        assert(out@ =~= old(out)@ + names_bytes(names_view(l@)));
    }
}

fn put_opt(out: &mut Vec<u8>, b: Option<u8>)
    ensures
        final(out)@ == old(out)@ + opt_bytes(b),
{
    if let Some(v) = b {
        out.push(v);
    }
    assert(out@ =~= old(out)@ + opt_bytes(b));
}

fn put_opt_i8(out: &mut Vec<u8>, b: Option<i8>)
    ensures
        final(out)@ == old(out)@ + opt_i8_bytes(b),
{
    if let Some(v) = b {
        out.push(v as u8);
    }
    assert(out@ =~= old(out)@ + opt_i8_bytes(b));
}

fn put_player_data(out: &mut Vec<u8>, d: &PlayerData)
    ensures
        final(out)@ == old(out)@ + player_data_bytes(*d),
{
    put_player_data_head(out, d);
    put_player_data_tail(out, d);
    assert(out@ =~= old(out)@ + player_data_bytes(*d));
}

fn player_data_flags_of(d: &PlayerData) -> (r: u16)
    ensures
        r == player_data_flags(*d),
{
    reveal(player_data_flags);
    let f0: u16 = if d.view_height.is_some() { 0x0001 } else { 0 };
    let f1: u16 = if d.ideal_pitch.is_some() { 0x0002 } else { 0 };
    let f2: u16 = if d.punch_pitch.is_some() { 0x0004 } else { 0 };
    let f3: u16 = if d.velocity_x.is_some() { 0x0020 } else { 0 };
    let f4: u16 = if d.punch_yaw.is_some() { 0x0008 } else { 0 };
    let f5: u16 = if d.velocity_y.is_some() { 0x0040 } else { 0 };
    let f6: u16 = if d.punch_roll.is_some() { 0x0010 } else { 0 };
    let f7: u16 = if d.velocity_z.is_some() { 0x0080 } else { 0 };
    let f8: u16 = if d.on_ground { 0x0400 } else { 0 };
    let f9: u16 = if d.in_water { 0x0800 } else { 0 };
    let f10: u16 = if d.weapon_frame.is_some() { 0x1000 } else { 0 };
    let f11: u16 = if d.armor.is_some() { 0x2000 } else { 0 };
    let f12: u16 = if d.weapon.is_some() { 0x4000 } else { 0 };
    // the items are always sent
    f0 | f1 | f2 | f3 | f4 | f5 | f6 | f7 | 0x0200 | f8 | f9 | f10 | f11 | f12
}

fn put_opt_i8_four(out: &mut Vec<u8>, a: Option<i8>, b: Option<i8>, c: Option<i8>, d: Option<i8>)
    ensures
        final(out)@ == old(out)@ + opt_i8_bytes(a) + opt_i8_bytes(b) + opt_i8_bytes(c) + opt_i8_bytes(
            d,
        ),
{
    put_opt_i8(out, a);
    put_opt_i8(out, b);
    put_opt_i8(out, c);
    put_opt_i8(out, d);
    assert(out@ =~= old(out)@ + opt_i8_bytes(a) + opt_i8_bytes(b) + opt_i8_bytes(c) + opt_i8_bytes(
        d,
    ));
}

fn put_player_data_head(out: &mut Vec<u8>, d: &PlayerData)
    ensures
        final(out)@ == old(out)@ + player_data_head(*d),
{
    let flags = player_data_flags_of(d);
    put_u16(out, flags);
    put_opt_i8_four(out, d.view_height, d.ideal_pitch, d.punch_pitch, d.velocity_x);
    put_opt_i8_four(out, d.punch_yaw, d.velocity_y, d.punch_roll, d.velocity_z);
    assert(out@ =~= old(out)@ + player_data_head(*d));
}

fn put_player_data_tail(out: &mut Vec<u8>, d: &PlayerData)
    ensures
        final(out)@ == old(out)@ + player_data_tail(*d),
{
    put_u32(out, d.items.bits());
    put_opt(out, d.weapon_frame);
    put_opt(out, d.armor);
    put_opt(out, d.weapon);
    put_i16(out, d.health);
    out.push(d.ammo);
    out.push(d.ammo_shells);
    out.push(d.ammo_nails);
    out.push(d.ammo_rockets);
    out.push(d.ammo_cells);
    out.push(d.active_weapon);
    assert(out@ =~= old(out)@ + player_data_tail(*d));
}

fn put_temp_entity(out: &mut Vec<u8>, e: &TempEntity)
    requires
        temp_entity_writable(*e),
    ensures
        final(out)@ == old(out)@ + temp_entity_bytes(*e),
{
    match e {
        TempEntity::Point { kind, origin } => {
            match kind {
                PointEntityKind::ColorExplosion { color_start, color_len } => {
                    out.push(12);
                    out.push(*color_start);
                    out.push(*color_len);
                },
                PointEntityKind::Spike => out.push(0),
                PointEntityKind::SuperSpike => out.push(1),
                PointEntityKind::Gunshot => out.push(2),
                PointEntityKind::Explosion => out.push(3),
                PointEntityKind::TarExplosion => out.push(4),
                PointEntityKind::WizSpike => out.push(7),
                PointEntityKind::KnightSpike => out.push(8),
                PointEntityKind::LavaSplash => out.push(10),
                PointEntityKind::Teleport => out.push(11),
            }
            put_coords(out, origin);
        },
        TempEntity::Beam { kind, entity_id, start, end } => {
            let code: u8 = match kind {
                BeamEntityKind::Lightning { model_id } => if *model_id == 1 {
                    5
                } else if *model_id == 2 {
                    6
                } else {
                    9
                },
                BeamEntityKind::Grapple => 13,
            };
            put_i16(out, *entity_id);
            out.push(code);
            put_coords(out, start);
            put_coords(out, end);
        },
    }
    assert(out@ =~= old(out)@ + temp_entity_bytes(*e));
}

impl ServerCmdOf<String, Vec<String>> {
    /// The numeric code of this command; a fast update has none.
    pub fn code(&self) -> (r: u8)
        requires
            !(self is FastUpdate),
        ensures
            r == server_code(self@),
    {
        match self {
            ServerCmdOf::Bad => 0,
            ServerCmdOf::NoOp => 1,
            ServerCmdOf::Disconnect => 2,
            ServerCmdOf::UpdateStat { .. } => 3,
            ServerCmdOf::Version { .. } => 4,
            ServerCmdOf::SetView { .. } => 5,
            ServerCmdOf::Sound { .. } => 6,
            ServerCmdOf::Time { .. } => 7,
            ServerCmdOf::Print { .. } => 8,
            ServerCmdOf::StuffText { .. } => 9,
            ServerCmdOf::SetAngle { .. } => 10,
            ServerCmdOf::ServerInfo { .. } => 11,
            ServerCmdOf::LightStyle { .. } => 12,
            ServerCmdOf::UpdateName { .. } => 13,
            ServerCmdOf::UpdateFrags { .. } => 14,
            ServerCmdOf::PlayerData(..) => 15,
            ServerCmdOf::StopSound { .. } => 16,
            ServerCmdOf::UpdateColors { .. } => 17,
            ServerCmdOf::Particle { .. } => 18,
            ServerCmdOf::Damage { .. } => 19,
            ServerCmdOf::SpawnStatic { .. } => 20,
            ServerCmdOf::SpawnBaseline { .. } => 22,
            ServerCmdOf::TempEntity { .. } => 23,
            ServerCmdOf::SetPause { .. } => 24,
            ServerCmdOf::SignOnStage { .. } => 25,
            ServerCmdOf::CenterPrint { .. } => 26,
            ServerCmdOf::KilledMonster => 27,
            ServerCmdOf::FoundSecret => 28,
            ServerCmdOf::SpawnStaticSound { .. } => 29,
            ServerCmdOf::Intermission => 30,
            ServerCmdOf::Finale { .. } => 31,
            ServerCmdOf::CdTrack { .. } => 32,
            ServerCmdOf::SellScreen => 33,
            ServerCmdOf::Cutscene { .. } => 34,
            ServerCmdOf::FastUpdate(..) => 0,
        }
    }

    /// Writes this command to `out`.
    #[verifier::rlimit(40)]
    pub fn serialize(&self, out: &mut Vec<u8>) -> (r: Result<(), NetError>)
        requires
            server_writable(self@),
        ensures
            r is Ok,
            final(out)@ == old(out)@ + spec_encode_server(self@),
    {
        out.push(self.code());
        let ghost mid = out@;
        match self {
            ServerCmdOf::UpdateStat { stat, value } => {
                out.push(stat.code());
                put_i32(out, *value);
            },
            ServerCmdOf::Version { version } => put_i32(out, *version),
            ServerCmdOf::SetView { ent_id } => put_i16(out, *ent_id),
            ServerCmdOf::Sound { volume, attenuation, entity_id, channel, sound_id, position } => {
                let flags: u8 = (if volume.is_some() { 1u8 } else { 0u8 }) | (if attenuation.is_some() {
                    2u8
                } else {
                    0u8
                });
                out.push(flags);
                put_opt(out, *volume);
                put_opt(out, *attenuation);
                let ent_channel = sound_entity_channel(*entity_id, *channel);

                put_i16(out, ent_channel);
                out.push(*sound_id);
                put_coords(out, position);
                assert(out@ =~= mid + server_body_bytes(self@));
            },
            ServerCmdOf::Time { time } => put_u32(out, *time),
            ServerCmdOf::Print { text } => put_text(out, text),
            ServerCmdOf::StuffText { text } => put_text(out, text),
            ServerCmdOf::SetAngle { angles } => put_angles(out, angles),
            ServerCmdOf::ServerInfo {
                protocol_version,
                max_clients,
                game_type,
                message,
                model_precache,
                sound_precache,
            } => {
                put_i32(out, *protocol_version);
                out.push(*max_clients);
                out.push(game_type.code());
                put_text(out, message);
                put_names(out, model_precache);
                put_names(out, sound_precache);
                assert(out@ =~= mid + server_body_bytes(self@));
            },
            ServerCmdOf::LightStyle { id, value } => {
                out.push(*id);
                put_text(out, value);
            },
            ServerCmdOf::UpdateName { player_id, new_name } => {
                out.push(*player_id);
                put_text(out, new_name);
            },
            ServerCmdOf::UpdateFrags { player_id, new_frags } => {
                out.push(*player_id);
                put_i16(out, *new_frags);
            },
            ServerCmdOf::PlayerData(d) => put_player_data(out, d),
            ServerCmdOf::StopSound { entity_id, channel } => {
                let entity_channel: u16 = *entity_id << 3 | (*channel as u16) & 0b111;
                put_u16(out, entity_channel);
                assert(out@ =~= mid + server_body_bytes(self@));
            },
            ServerCmdOf::UpdateColors { player_id, new_colors } => {
                out.push(*player_id);
                out.push(new_colors.bits());
                assert(out@ =~= mid + server_body_bytes(self@));
            },
            ServerCmdOf::Particle { origin, direction, count, color } => {
                put_coords(out, origin);
                put_angles(out, direction);
                out.push(*count);
                out.push(*color);
            },
            ServerCmdOf::Damage { armor, blood, source } => {
                out.push(*armor);
                out.push(*blood);
                put_coords(out, source);
            },
            ServerCmdOf::SpawnStatic { model_id, frame_id, colormap, skin_id, origin, angles } => {
                out.push(*model_id);
                out.push(*frame_id);
                out.push(*colormap);
                out.push(*skin_id);
                put_interleaved(out, origin, angles);
            },
            ServerCmdOf::SpawnBaseline {
                ent_id,
                model_id,
                frame_id,
                colormap,
                skin_id,
                origin,
                angles,
            } => {
                put_u16(out, *ent_id);
                out.push(*model_id);
                out.push(*frame_id);
                out.push(*colormap);
                out.push(*skin_id);
                put_interleaved(out, origin, angles);
            },
            ServerCmdOf::TempEntity { temp_entity } => put_temp_entity(out, temp_entity),
            ServerCmdOf::SetPause { paused } => out.push(if *paused { 1 } else { 0 }),
            ServerCmdOf::SignOnStage { stage } => out.push(stage.code()),
            ServerCmdOf::CenterPrint { text } => put_text(out, text),
            ServerCmdOf::SpawnStaticSound { origin, sound_id, volume, attenuation } => {
                put_coords(out, origin);
                out.push(*sound_id);
                out.push(*volume);
                out.push(*attenuation);
            },
            ServerCmdOf::Finale { text } => put_text(out, text),
            ServerCmdOf::CdTrack { track, loop_ } => {
                out.push(*track);
                out.push(*loop_);
            },
            ServerCmdOf::Cutscene { text } => put_text(out, text),
            _ => {},
        }
        assert(out@ =~= mid + server_body_bytes(self@));
        assert(out@ =~= old(out)@ + spec_encode_server(self@));
        Ok(())
    }
}

impl ClientCmdOf<String> {
    /// The numeric code of this command.
    pub fn code(&self) -> (r: u8)
        ensures
            r == client_code(self@),
    {
        match self {
            ClientCmdOf::Bad => 0,
            ClientCmdOf::NoOp => 1,
            ClientCmdOf::Disconnect => 2,
            ClientCmdOf::Move { .. } => 3,
            ClientCmdOf::StringCmd { .. } => 4,
        }
    }

    /// Writes this command to `out`.
    pub fn serialize(&self, out: &mut Vec<u8>) -> (r: Result<(), NetError>)
        ensures
            r is Ok,
            final(out)@ == old(out)@ + spec_encode_client(self@),
    {
        out.push(self.code());
        match self {
            ClientCmdOf::Move {
                send_time,
                angles,
                fwd_move,
                side_move,
                up_move,
                button_flags,
                impulse,
            } => {
                put_u32(out, *send_time);
                put_angles(out, angles);
                put_i16(out, *fwd_move);
                put_i16(out, *side_move);
                put_i16(out, *up_move);
                out.push(button_flags.bits());
                out.push(*impulse);
            },
            ClientCmdOf::StringCmd { cmd } => put_text(out, cmd),
            _ => {},
        }
        assert(out@ =~= old(out)@ + spec_encode_client(self@));
        Ok(())
    }
}

} // verus!
