//! What reading gives back of what writing wrote.

use vstd::prelude::*;
use vstd::utf8::{
    decode_utf8, encode_utf8, valid_utf8, encode_scalar, encode_utf8_valid_utf8,
    encode_utf8_decode_utf8, char_u32_cast, has_width_1_encoding, has_width_2_encoding, has_width_3_encoding,
};
use super::{
    Angles, Coords, ServerCmdOf, ServerCmdView, ClientCmdOf, ClientCmdView, PlayerColor,
    TempEntity, PointEntityKind, TempEntityCode, ClientStat, SignOnStage, GameType,
};
use super::codec::{
    Decoded, le16, le32, coords_at, angles_at, text_at, names_at, text_bytes, names_bytes,
    coords_bytes, angles_bytes, interleaved_bytes, interleaved_coords, interleaved_angles,
    server_body_bytes, server_code, spec_decode_server_body, spec_sound_entity_channel,
    opt_bytes, step_u8, spec_decode_sound, temp_entity_bytes, point_code,
    spec_decode_temp_entity, spec_point_kind, step_i8, opt_i8_bytes, bit_if, player_data_flags,
    player_data_bytes, player_data_head, player_data_tail, spec_decode_player_data,
    spec_decode_player_motion, spec_decode_player_gear, player_data_of, has16, PlayerMotion,
    PlayerGear, spec_encode_server, spec_decode_server_at, spec_encode_client, spec_decode_client_at,
    client_code, spec_decode_move,
};
use super::{PlayerData, ItemFlags};
use crate::util::{find_nul, lemma_find_nul};
use crate::wire::{
    u16_le_bytes, u32_le_bytes, i16_le_bytes, i32_le_bytes, lemma_u16_le_roundtrip,
    lemma_u32_le_roundtrip, lemma_signed_roundtrip,
};

verus! {

/// Whether text can be written and read back: it holds no zero character, which would end it.
pub open spec fn text_ok(t: Seq<char>) -> bool {
    forall|i: int| 0 <= i < t.len() ==> t[i] != '\0'
}

/// Whether a list of names can be written and read back: no name is empty, which would end
/// the list, and none holds a zero character.
pub open spec fn names_ok(l: Seq<Seq<char>>) -> bool {
    forall|i: int| 0 <= i < l.len() ==> l[i].len() > 0 && text_ok(#[trigger] l[i])
}

/// `s` holds `b` at position `p`.
pub open spec fn holds_at(s: Seq<u8>, p: int, b: Seq<u8>) -> bool {
    0 <= p && p + b.len() <= s.len() && s.subrange(p, p + b.len()) == b
}

/// Where `s` holds `a + b` at `p`, it holds `a` at `p` and `b` right after it.
pub proof fn lemma_holds_split(s: Seq<u8>, p: int, a: Seq<u8>, b: Seq<u8>)
    requires
        holds_at(s, p, a + b),
    ensures
        holds_at(s, p, a),
        holds_at(s, p + a.len(), b),
{
    let w = s.subrange(p, p + a.len() + b.len());
    assert(w == a + b);
    assert(s.subrange(p, p + a.len()) =~= w.subrange(0, a.len() as int));
    assert(w.subrange(0, a.len() as int) =~= a);
    assert(s.subrange(p + a.len(), p + a.len() + b.len()) =~= w.subrange(
        a.len() as int,
        w.len() as int,
    ));
    assert(w.subrange(a.len() as int, w.len() as int) =~= b);
}

/// `a + rest` holds `a` at its start.
pub proof fn lemma_holds_prefix(a: Seq<u8>, rest: Seq<u8>)
    ensures
        holds_at(a + rest, 0, a),
{
    assert((a + rest).subrange(0, a.len() as int) =~= a);
}

/// Reading a `u16` where its encoding stands gives it back.
pub proof fn lemma_le16_holds(s: Seq<u8>, p: int, v: u16)
    requires
        holds_at(s, p, u16_le_bytes(v)),
    ensures
        le16(s, p) == v,
{
    reveal(le16);
    assert(s[p] == s.subrange(p, p + 2)[0]);
    assert(s[p + 1] == s.subrange(p, p + 2)[1]);
    lemma_u16_le_roundtrip(v, 0, 0);
}

/// Reading a `u32` where its encoding stands gives it back.
pub proof fn lemma_le32_holds(s: Seq<u8>, p: int, v: u32)
    requires
        holds_at(s, p, u32_le_bytes(v)),
    ensures
        le32(s, p) == v,
{
    reveal(le32);
    assert(s[p] == s.subrange(p, p + 4)[0]);
    assert(s[p + 1] == s.subrange(p, p + 4)[1]);
    assert(s[p + 2] == s.subrange(p, p + 4)[2]);
    assert(s[p + 3] == s.subrange(p, p + 4)[3]);
    lemma_u32_le_roundtrip(v);
}

/// Reading an `i16` where its encoding stands gives it back.
pub proof fn lemma_i16_holds(s: Seq<u8>, p: int, v: i16)
    requires
        holds_at(s, p, i16_le_bytes(v)),
    ensures
        le16(s, p) as i16 == v,
{
    lemma_le16_holds(s, p, v as u16);
    lemma_signed_roundtrip(v, 0);
}

/// Reading an `i32` where its encoding stands gives it back.
pub proof fn lemma_i32_holds(s: Seq<u8>, p: int, v: i32)
    requires
        holds_at(s, p, i32_le_bytes(v)),
    ensures
        le32(s, p) as i32 == v,
{
    lemma_le32_holds(s, p, v as u32);
    lemma_signed_roundtrip(0, v);
}

/// Reading coordinates where their encoding stands gives them back.
pub proof fn lemma_coords_holds(s: Seq<u8>, p: int, c: Coords)
    requires
        holds_at(s, p, coords_bytes(c)),
    ensures
        coords_at(s, p) == c,
{
    lemma_holds_split(s, p, i16_le_bytes(c[0]) + i16_le_bytes(c[1]), i16_le_bytes(c[2]));
    lemma_holds_split(s, p, i16_le_bytes(c[0]), i16_le_bytes(c[1]));
    lemma_i16_holds(s, p, c[0]);
    lemma_i16_holds(s, p + 2, c[1]);
    lemma_i16_holds(s, p + 4, c[2]);
    assert(coords_at(s, p)@ =~= c@);
}

/// Reading angles where their encoding stands gives them back.
pub proof fn lemma_angles_holds(s: Seq<u8>, p: int, a: Angles)
    requires
        holds_at(s, p, angles_bytes(a)),
    ensures
        angles_at(s, p) == a,
{
    let (a0, a1, a2) = (a[0], a[1], a[2]);
    assert(s[p] == s.subrange(p, p + 3)[0]);
    assert(s[p + 1] == s.subrange(p, p + 3)[1]);
    assert(s[p + 2] == s.subrange(p, p + 3)[2]);
    assert((a0 as u8) as i8 == a0) by (bit_vector);
    assert((a1 as u8) as i8 == a1) by (bit_vector);
    assert((a2 as u8) as i8 == a2) by (bit_vector);
    assert(angles_at(s, p)@ =~= a@);
}

/// The UTF-8 encoding of a character other than zero holds no zero byte.
pub proof fn lemma_scalar_nonzero(c: u32)
    requires
        c != 0,
    ensures
        forall|i: int| 0 <= i < encode_scalar(c).len() ==> encode_scalar(c)[i] != 0,
{
    assert(c <= 0x7F ==> (c & 0x7F) as u8 != 0) by (bit_vector)
        requires
            c != 0,
    ;
    assert(0xC0u8 | ((c >> 6) & 0x1F) as u8 != 0) by (bit_vector);
    assert(0xE0u8 | ((c >> 12) & 0x0F) as u8 != 0) by (bit_vector);
    assert(0xF0u8 | ((c >> 18) & 0x7) as u8 != 0) by (bit_vector);
    assert(0x80u8 | (c & 0x3F) as u8 != 0) by (bit_vector);
    assert(0x80u8 | ((c >> 6) & 0x3F) as u8 != 0) by (bit_vector);
    assert(0x80u8 | ((c >> 12) & 0x3F) as u8 != 0) by (bit_vector);
}

/// The UTF-8 encoding of text without zero characters holds no zero byte.
pub proof fn lemma_encode_nonzero(t: Seq<char>)
    requires
        text_ok(t),
    ensures
        forall|i: int| 0 <= i < encode_utf8(t).len() ==> encode_utf8(t)[i] != 0,
    decreases t.len(),
{
    if t.len() > 0 {
        let head = encode_scalar(t[0] as u32);
        assert(t[0] != '\0');
        char_u32_cast(t[0], t[0] as u32);
        assert((0u32 as char) == '\0');
        assert((t[0] as u32) != 0);
        lemma_scalar_nonzero(t[0] as u32);
        assert(text_ok(t.drop_first()));
        lemma_encode_nonzero(t.drop_first());
        let tail = encode_utf8(t.drop_first());
        assert forall|i: int| 0 <= i < encode_utf8(t).len() implies encode_utf8(t)[i] != 0 by {
            if i < head.len() {
                assert(encode_utf8(t)[i] == head[i]);
            } else {
                assert(encode_utf8(t)[i] == tail[i - head.len()]);
            }
        }
    }
}

/// Where the bytes from `p` to `z` are not zero and the byte at `z` is, the zero byte that
/// `find_nul` finds from `p` is at `z`.
pub proof fn lemma_find_nul_at(s: Seq<u8>, p: int, z: int)
    requires
        0 <= p <= z < s.len(),
        s[z] == 0,
        forall|i: int| p <= i < z ==> s[i] != 0,
    ensures
        find_nul(s, p) == Some(z),
    decreases z - p,
{
    if p < z {
        lemma_find_nul_at(s, p + 1, z);
    }
}

/// Reading text where its encoding stands gives it back.
pub proof fn lemma_text_holds(s: Seq<u8>, p: int, t: Seq<char>, strict: bool)
    requires
        text_ok(t),
        holds_at(s, p, text_bytes(t)),
    ensures
        text_at(s, p, strict) == Decoded::Value(t, p + text_bytes(t).len()),
{
    let e = encode_utf8(t);
    let z = p + e.len();
    lemma_holds_split(s, p, e, seq![0u8]);
    lemma_encode_nonzero(t);
    assert forall|i: int| p <= i < z implies s[i] != 0 by {
        assert(s[i] == s.subrange(p, z)[i - p]);
    }
    assert(s[z] == s.subrange(z, z + 1)[0]);
    lemma_find_nul_at(s, p, z);
    encode_utf8_valid_utf8(t);
    encode_utf8_decode_utf8(t);
}

/// Reading names where their encoding stands gives them back.
pub proof fn lemma_names_holds(s: Seq<u8>, p: int, l: Seq<Seq<char>>)
    requires
        names_ok(l),
        holds_at(s, p, names_bytes(l)),
    ensures
        names_at(s, p) == Decoded::Value(l, p + names_bytes(l).len()),
    decreases l.len(),
{
    if l.len() == 0 {
        assert(names_bytes(l) == seq![0u8]);
        assert(s[p] == s.subrange(p, p + 1)[0]);
        lemma_find_nul_at(s, p, p);
        assert(s.subrange(p, p) =~= Seq::<u8>::empty());
        assert(encode_utf8(Seq::<char>::empty()) =~= Seq::<u8>::empty());
        encode_utf8_valid_utf8(Seq::<char>::empty());
        encode_utf8_decode_utf8(Seq::<char>::empty());
        assert(text_at(s, p, true) == Decoded::Value(Seq::<char>::empty(), p + 1));
        assert(l =~= Seq::<Seq<char>>::empty());
    } else {
        let first = l[0];
        let more = l.drop_first();
        assert(names_bytes(l) == text_bytes(first) + names_bytes(more));
        lemma_holds_split(s, p, text_bytes(first), names_bytes(more));
        assert(text_ok(first) && first.len() > 0);
        lemma_text_holds(s, p, first, true);
        assert forall|i: int| 0 <= i < more.len() implies more[i].len() > 0 && text_ok(
            #[trigger] more[i],
        ) by {
            assert(more[i] == l[i + 1]);
        }
        lemma_names_holds(s, p + text_bytes(first).len(), more);
        assert(seq![first] + more =~= l);
    }
}

/// Reading a (coordinate, angle) triple where its encoding stands gives it back.
pub proof fn lemma_interleaved_holds(s: Seq<u8>, p: int, c: Coords, a: Angles)
    requires
        holds_at(s, p, interleaved_bytes(c, a)),
    ensures
        interleaved_coords(s, p) == c,
        interleaved_angles(s, p) == a,
{
    let b = interleaved_bytes(c, a);
    let (a0, a1, a2) = (a[0], a[1], a[2]);
    assert(s.subrange(p, p + 2) =~= b.subrange(0, 2));
    assert(s.subrange(p + 3, p + 5) =~= b.subrange(3, 5));
    assert(s.subrange(p + 6, p + 8) =~= b.subrange(6, 8));
    assert(b.subrange(0, 2) =~= i16_le_bytes(c[0]));
    assert(b.subrange(3, 5) =~= i16_le_bytes(c[1]));
    assert(b.subrange(6, 8) =~= i16_le_bytes(c[2]));
    lemma_i16_holds(s, p, c[0]);
    lemma_i16_holds(s, p + 3, c[1]);
    lemma_i16_holds(s, p + 6, c[2]);
    assert(s[p + 2] == b[2]);
    assert(s[p + 5] == b[5]);
    assert(s[p + 8] == b[8]);
    assert((a0 as u8) as i8 == a0) by (bit_vector);
    assert((a1 as u8) as i8 == a1) by (bit_vector);
    assert((a2 as u8) as i8 == a2) by (bit_vector);
    assert(interleaved_coords(s, p)@ =~= c@);
    assert(interleaved_angles(s, p)@ =~= a@);
}

/// Reading an optional byte where it was written gives it back.
pub proof fn lemma_step_u8_holds(s: Seq<u8>, q: int, v: Option<u8>)
    requires
        holds_at(s, q, opt_bytes(v)),
    ensures
        step_u8(s, q, v is Some) == Some((v, q + opt_bytes(v).len())),
{
    if v is Some {
        assert(s[q] == s.subrange(q, q + 1)[0]);
    }
}

/// Whether a server command can be written and read back.
///
/// Fast updates cannot be written. A colored explosion and a beam are written in another order
/// than they are read. A sound's entity must fit in 13 bits and its channel in 3, a stopped
/// sound's entity in 13 bits and its channel in 3, and each color index in 4 bits. Text must
/// hold no zero character, and names must not be empty.
pub open spec fn server_roundtrips(c: ServerCmdView) -> bool {
    match c {
        ServerCmdOf::FastUpdate(..) => false,
        ServerCmdOf::TempEntity { temp_entity } => match temp_entity {
            TempEntity::Point { kind, .. } => !(kind is ColorExplosion),
            TempEntity::Beam { .. } => false,
        },
        ServerCmdOf::Sound { entity_id, channel, .. } => entity_id < 4096 && 0 <= channel < 8,
        ServerCmdOf::StopSound { entity_id, channel } => entity_id < 8192 && channel < 8,
        ServerCmdOf::UpdateColors { new_colors, .. } => new_colors.spec_top() < 16
            && new_colors.spec_bottom() < 16,
        ServerCmdOf::PlayerData(d) => d.items.wf(),
        ServerCmdOf::Print { text } => text_ok(text),
        ServerCmdOf::StuffText { text } => text_ok(text),
        ServerCmdOf::CenterPrint { text } => text_ok(text),
        ServerCmdOf::Finale { text } => text_ok(text),
        ServerCmdOf::Cutscene { text } => text_ok(text),
        ServerCmdOf::LightStyle { value, .. } => text_ok(value),
        ServerCmdOf::UpdateName { new_name, .. } => text_ok(new_name),
        ServerCmdOf::ServerInfo { message, model_precache, sound_precache, .. } => text_ok(message)
            && names_ok(model_precache) && names_ok(sound_precache),
        _ => true,
    }
}

/// A sound's flags, entity and channel survive writing and reading.
pub proof fn lemma_sound_bits(vol: bool, att: bool, e: u16, ch: i8)
    requires
        e < 4096,
        0 <= ch < 8,
    ensures
        ({
            let f = ((if vol { 1u8 } else { 0u8 }) | (if att { 2u8 } else { 0u8 })) as u8;
            &&& f & !0x07u8 == 0
            &&& (f & 1u8 == 1u8) == vol
            &&& (f & 2u8 == 2u8) == att
        }),
        (spec_sound_entity_channel(e, ch) >> 3i16) as u16 == e,
        (spec_sound_entity_channel(e, ch) & 7i16) as i8 == ch,
{
    assert({
        let f = ((if vol { 1u8 } else { 0u8 }) | (if att { 2u8 } else { 0u8 })) as u8;
        &&& f & !0x07u8 == 0
        &&& (f & 1u8 == 1u8) == vol
        &&& (f & 2u8 == 2u8) == att
    }) by (bit_vector);
    assert((((((e as i16) << 3u16) | ((ch as i16) & 7i16)) >> 3i16) as u16) == e) by (bit_vector)
        requires
            e < 4096,
            0 <= ch < 8,
    ;
    assert(((((e as i16) << 3u16) | ((ch as i16) & 7i16)) & 7i16) as i8 == ch) by (bit_vector)
        requires
            0 <= ch < 8,
    ;
}

/// Reading a sound command's body where it was written gives it back.
pub proof fn lemma_sound_roundtrip(s: Seq<u8>, p: int, c: ServerCmdView)
    requires
        c is Sound,
        server_roundtrips(c),
        holds_at(s, p, server_body_bytes(c)),
    ensures
        spec_decode_sound(s, p) == Decoded::Value(c, p + server_body_bytes(c).len()),
{
    if let ServerCmdOf::Sound { volume, attenuation, entity_id, channel, sound_id, position } = c {
        let f = ((if volume is Some { 1u8 } else { 0u8 }) | (if attenuation is Some {
            2u8
        } else {
            0u8
        })) as u8;
        let ec = spec_sound_entity_channel(entity_id, channel);
        lemma_sound_bits(volume is Some, attenuation is Some, entity_id, channel);
        let b = server_body_bytes(c);
        let tail = i16_le_bytes(ec) + seq![sound_id] + coords_bytes(position);
        assert(b =~= seq![f] + opt_bytes(volume) + opt_bytes(attenuation) + tail);
        lemma_holds_split(s, p, seq![f] + opt_bytes(volume) + opt_bytes(attenuation), tail);
        lemma_holds_split(s, p, seq![f] + opt_bytes(volume), opt_bytes(attenuation));
        lemma_holds_split(s, p, seq![f], opt_bytes(volume));
        assert(s[p] == s.subrange(p, p + 1)[0]);
        lemma_step_u8_holds(s, p + 1, volume);
        let q2 = p + 1 + opt_bytes(volume).len();
        lemma_step_u8_holds(s, q2, attenuation);
        let q3 = q2 + opt_bytes(attenuation).len();
        lemma_holds_split(s, q3, i16_le_bytes(ec) + seq![sound_id], coords_bytes(position));
        lemma_holds_split(s, q3, i16_le_bytes(ec), seq![sound_id]);
        lemma_i16_holds(s, q3, ec);
        assert(s[q3 + 2] == s.subrange(q3 + 2, q3 + 3)[0]);
        lemma_coords_holds(s, q3 + 3, position);
    }
}

/// Reading a temporary entity where it was written gives it back, for a point entity other
/// than a colored explosion.
pub proof fn lemma_temp_entity_roundtrip(s: Seq<u8>, p: int, e: TempEntity)
    requires
        e matches TempEntity::Point { kind, .. } && !(kind is ColorExplosion),
        holds_at(s, p, temp_entity_bytes(e)),
    ensures
        spec_decode_temp_entity(s, p) == Decoded::Value(e, p + temp_entity_bytes(e).len()),
{
    if let TempEntity::Point { kind, origin } = e {
        lemma_holds_split(s, p, seq![point_code(kind)], coords_bytes(origin));
        assert(s[p] == s.subrange(p, p + 1)[0]);
        lemma_coords_holds(s, p + 1, origin);
        let code = TempEntityCode::spec_from_u8(point_code(kind));
        assert(code is Some);
        assert(spec_point_kind(code->0) == kind);
    }
}

/// Reading an optional signed byte where it was written gives it back.
pub proof fn lemma_step_i8_holds(s: Seq<u8>, q: int, v: Option<i8>)
    requires
        holds_at(s, q, opt_i8_bytes(v)),
    ensures
        step_i8(s, q, v is Some) == Some((v, q + opt_i8_bytes(v).len())),
{
    if let Some(x) = v {
        assert(s[q] == s.subrange(q, q + 1)[0]);
        assert((x as u8) as i8 == x) by (bit_vector);
    }
}

/// The flags of a player data command say which fields follow, and carry no undefined bit.
pub proof fn lemma_player_flags(
    b0: bool,
    b1: bool,
    b2: bool,
    b3: bool,
    b4: bool,
    b5: bool,
    b6: bool,
    b7: bool,
    b8: bool,
    b9: bool,
    b10: bool,
    b11: bool,
    b12: bool,
)
    ensures
        ({
            let f = bit_if(b0, 0x0001) | bit_if(b1, 0x0002) | bit_if(b2, 0x0004) | bit_if(b3, 0x0020)
                | bit_if(b4, 0x0008) | bit_if(b5, 0x0040) | bit_if(b6, 0x0010) | bit_if(b7, 0x0080)
                | 0x0200u16 | bit_if(b8, 0x0400) | bit_if(b9, 0x0800) | bit_if(b10, 0x1000) | bit_if(
                b11,
                0x2000,
            ) | bit_if(b12, 0x4000);
            &&& f & !0x7effu16 == 0
            &&& has16(f, 0x0001) == b0
            &&& has16(f, 0x0002) == b1
            &&& has16(f, 0x0004) == b2
            &&& has16(f, 0x0020) == b3
            &&& has16(f, 0x0008) == b4
            &&& has16(f, 0x0040) == b5
            &&& has16(f, 0x0010) == b6
            &&& has16(f, 0x0080) == b7
            &&& has16(f, 0x0400) == b8
            &&& has16(f, 0x0800) == b9
            &&& has16(f, 0x1000) == b10
            &&& has16(f, 0x2000) == b11
            &&& has16(f, 0x4000) == b12
        }),
{
    assert({
        let f = bit_if(b0, 0x0001) | bit_if(b1, 0x0002) | bit_if(b2, 0x0004) | bit_if(b3, 0x0020)
            | bit_if(b4, 0x0008) | bit_if(b5, 0x0040) | bit_if(b6, 0x0010) | bit_if(b7, 0x0080)
            | 0x0200u16 | bit_if(b8, 0x0400) | bit_if(b9, 0x0800) | bit_if(b10, 0x1000) | bit_if(
            b11,
            0x2000,
        ) | bit_if(b12, 0x4000);
        &&& f & !0x7effu16 == 0
        &&& has16(f, 0x0001) == b0
        &&& has16(f, 0x0002) == b1
        &&& has16(f, 0x0004) == b2
        &&& has16(f, 0x0020) == b3
        &&& has16(f, 0x0008) == b4
        &&& has16(f, 0x0040) == b5
        &&& has16(f, 0x0010) == b6
        &&& has16(f, 0x0080) == b7
        &&& has16(f, 0x0400) == b8
        &&& has16(f, 0x0800) == b9
        &&& has16(f, 0x1000) == b10
        &&& has16(f, 0x2000) == b11
        &&& has16(f, 0x4000) == b12
    }) by (bit_vector);
}

/// What the flags of a written player data command say of its fields.
pub open spec fn player_flags_describe(f: u16, d: PlayerData) -> bool {
    &&& f & !0x7effu16 == 0
    &&& has16(f, 0x0001) == d.view_height is Some
    &&& has16(f, 0x0002) == d.ideal_pitch is Some
    &&& has16(f, 0x0004) == d.punch_pitch is Some
    &&& has16(f, 0x0020) == d.velocity_x is Some
    &&& has16(f, 0x0008) == d.punch_yaw is Some
    &&& has16(f, 0x0040) == d.velocity_y is Some
    &&& has16(f, 0x0010) == d.punch_roll is Some
    &&& has16(f, 0x0080) == d.velocity_z is Some
    &&& has16(f, 0x0400) == d.on_ground
    &&& has16(f, 0x0800) == d.in_water
    &&& has16(f, 0x1000) == d.weapon_frame is Some
    &&& has16(f, 0x2000) == d.armor is Some
    &&& has16(f, 0x4000) == d.weapon is Some
}

/// The flags written for player data describe it.
pub proof fn lemma_player_data_flags(d: PlayerData)
    ensures
        player_flags_describe(player_data_flags(d), d),
{
    reveal(player_data_flags);
    lemma_player_flags(
        d.view_height is Some,
        d.ideal_pitch is Some,
        d.punch_pitch is Some,
        d.velocity_x is Some,
        d.punch_yaw is Some,
        d.velocity_y is Some,
        d.punch_roll is Some,
        d.velocity_z is Some,
        d.on_ground,
        d.in_water,
        d.weapon_frame is Some,
        d.armor is Some,
        d.weapon is Some,
    );
}

/// The angles and velocities of player data, as written.
pub open spec fn motion_bytes(d: PlayerData) -> Seq<u8> {
    opt_i8_bytes(d.view_height) + opt_i8_bytes(d.ideal_pitch) + opt_i8_bytes(d.punch_pitch)
        + opt_i8_bytes(d.velocity_x) + opt_i8_bytes(d.punch_yaw) + opt_i8_bytes(d.velocity_y)
        + opt_i8_bytes(d.punch_roll) + opt_i8_bytes(d.velocity_z)
}

/// Reading the angles and velocities of player data where they were written gives them back.
pub proof fn lemma_player_motion_roundtrip(s: Seq<u8>, q: int, f: u16, d: PlayerData)
    requires
        player_flags_describe(f, d),
        holds_at(s, q, motion_bytes(d)),
    ensures
        spec_decode_player_motion(s, f, q) == Some(
            (
                PlayerMotion {
                    view_height: d.view_height,
                    ideal_pitch: d.ideal_pitch,
                    punch_pitch: d.punch_pitch,
                    velocity_x: d.velocity_x,
                    punch_yaw: d.punch_yaw,
                    velocity_y: d.velocity_y,
                    punch_roll: d.punch_roll,
                    velocity_z: d.velocity_z,
                },
                q + motion_bytes(d).len(),
            ),
        ),
{
    let o0 = opt_i8_bytes(d.view_height);
    let o1 = opt_i8_bytes(d.ideal_pitch);
    let o2 = opt_i8_bytes(d.punch_pitch);
    let o3 = opt_i8_bytes(d.velocity_x);
    let o4 = opt_i8_bytes(d.punch_yaw);
    let o5 = opt_i8_bytes(d.velocity_y);
    let o6 = opt_i8_bytes(d.punch_roll);
    let o7 = opt_i8_bytes(d.velocity_z);
    lemma_holds_split(s, q, o0 + o1 + o2 + o3 + o4 + o5 + o6, o7);
    lemma_holds_split(s, q, o0 + o1 + o2 + o3 + o4 + o5, o6);
    lemma_holds_split(s, q, o0 + o1 + o2 + o3 + o4, o5);
    lemma_holds_split(s, q, o0 + o1 + o2 + o3, o4);
    lemma_holds_split(s, q, o0 + o1 + o2, o3);
    lemma_holds_split(s, q, o0 + o1, o2);
    lemma_holds_split(s, q, o0, o1);
    lemma_step_i8_holds(s, q, d.view_height);
    lemma_step_i8_holds(s, q + o0.len(), d.ideal_pitch);
    lemma_step_i8_holds(s, q + o0.len() + o1.len(), d.punch_pitch);
    lemma_step_i8_holds(s, q + o0.len() + o1.len() + o2.len(), d.velocity_x);
    lemma_step_i8_holds(s, q + o0.len() + o1.len() + o2.len() + o3.len(), d.punch_yaw);
    lemma_step_i8_holds(s, q + o0.len() + o1.len() + o2.len() + o3.len() + o4.len(), d.velocity_y);
    lemma_step_i8_holds(
        s,
        q + o0.len() + o1.len() + o2.len() + o3.len() + o4.len() + o5.len(),
        d.punch_roll,
    );
    lemma_step_i8_holds(
        s,
        q + o0.len() + o1.len() + o2.len() + o3.len() + o4.len() + o5.len() + o6.len(),
        d.velocity_z,
    );
}

/// The weapon, armor and ammunition of player data, as written.
pub open spec fn gear_bytes(d: PlayerData) -> Seq<u8> {
    opt_bytes(d.weapon_frame) + opt_bytes(d.armor) + opt_bytes(d.weapon) + i16_le_bytes(d.health)
        + seq![d.ammo, d.ammo_shells, d.ammo_nails, d.ammo_rockets, d.ammo_cells, d.active_weapon]
}

/// Reading the weapon, armor and ammunition of player data where they were written gives them
/// back.
pub proof fn lemma_player_gear_roundtrip(s: Seq<u8>, q: int, f: u16, d: PlayerData)
    requires
        player_flags_describe(f, d),
        holds_at(s, q, gear_bytes(d)),
    ensures
        spec_decode_player_gear(s, f, q) == Some(
            (
                PlayerGear {
                    weapon_frame: d.weapon_frame,
                    armor: d.armor,
                    weapon: d.weapon,
                    health: d.health,
                    ammo: d.ammo,
                    ammo_shells: d.ammo_shells,
                    ammo_nails: d.ammo_nails,
                    ammo_rockets: d.ammo_rockets,
                    ammo_cells: d.ammo_cells,
                    active_weapon: d.active_weapon,
                },
                q + gear_bytes(d).len(),
            ),
        ),
{
    let o0 = opt_bytes(d.weapon_frame);
    let o1 = opt_bytes(d.armor);
    let o2 = opt_bytes(d.weapon);
    let h = i16_le_bytes(d.health);
    let a = seq![d.ammo, d.ammo_shells, d.ammo_nails, d.ammo_rockets, d.ammo_cells, d.active_weapon];
    lemma_holds_split(s, q, o0 + o1 + o2 + h, a);
    lemma_holds_split(s, q, o0 + o1 + o2, h);
    lemma_holds_split(s, q, o0 + o1, o2);
    lemma_holds_split(s, q, o0, o1);
    lemma_step_u8_holds(s, q, d.weapon_frame);
    lemma_step_u8_holds(s, q + o0.len(), d.armor);
    lemma_step_u8_holds(s, q + o0.len() + o1.len(), d.weapon);
    let r3 = q + o0.len() + o1.len() + o2.len();
    lemma_i16_holds(s, r3, d.health);
    let w = s.subrange(r3 + 2, r3 + 8);
    assert(w == a);
    assert(s[r3 + 2] == w[0]);
    assert(s[r3 + 3] == w[1]);
    assert(s[r3 + 4] == w[2]);
    assert(s[r3 + 5] == w[3]);
    assert(s[r3 + 6] == w[4]);
    assert(s[r3 + 7] == w[5]);
}

/// The body of a player data command is its flags, its angles and velocities, its items and
/// its gear.
pub proof fn lemma_player_data_layout(d: PlayerData)
    ensures
        player_data_bytes(d) == u16_le_bytes(player_data_flags(d)) + motion_bytes(d) + u32_le_bytes(
            d.items.spec_bits(),
        ) + gear_bytes(d),
{
    lemma_player_head_layout(d);
    lemma_player_tail_layout(d);
    let h = u16_le_bytes(player_data_flags(d));
    let m = motion_bytes(d);
    let i = u32_le_bytes(d.items.spec_bits());
    let g = gear_bytes(d);
    vstd::seq_lib::lemma_concat_associative(h + m, i, g);
}

proof fn lemma_player_head_layout(d: PlayerData)
    ensures
        player_data_head(d) == u16_le_bytes(player_data_flags(d)) + motion_bytes(d),
{
    assert(player_data_head(d) =~= u16_le_bytes(player_data_flags(d)) + motion_bytes(d));
}

proof fn lemma_player_tail_layout(d: PlayerData)
    ensures
        player_data_tail(d) == u32_le_bytes(d.items.spec_bits()) + gear_bytes(d),
{
    assert(player_data_tail(d) =~= u32_le_bytes(d.items.spec_bits()) + gear_bytes(d));
}

/// Reading a player data command's body where it was written gives it back.
#[verifier::rlimit(40)]
pub proof fn lemma_player_data_roundtrip(s: Seq<u8>, p: int, d: PlayerData)
    requires
        d.items.wf(),
        holds_at(s, p, player_data_bytes(d)),
    ensures
        spec_decode_player_data(s, p) == Decoded::Value(
            ServerCmdView::PlayerData(d),
            p + player_data_bytes(d).len(),
        ),
{
    let f = player_data_flags(d);
    lemma_player_data_flags(d);
    let items = u32_le_bytes(d.items.spec_bits());
    lemma_player_data_layout(d);
    lemma_holds_split(s, p, u16_le_bytes(f) + motion_bytes(d) + items, gear_bytes(d));
    lemma_holds_split(s, p, u16_le_bytes(f) + motion_bytes(d), items);
    lemma_holds_split(s, p, u16_le_bytes(f), motion_bytes(d));
    lemma_le16_holds(s, p, f);
    lemma_player_motion_roundtrip(s, p + 2, f, d);
    let q8 = p + 2 + motion_bytes(d).len();
    lemma_le32_holds(s, q8, d.items.spec_bits());
    d.items.lemma_bits(d.items.spec_bits());
    lemma_player_gear_roundtrip(s, q8 + 4, f, d);
    let m = PlayerMotion {
        view_height: d.view_height,
        ideal_pitch: d.ideal_pitch,
        punch_pitch: d.punch_pitch,
        velocity_x: d.velocity_x,
        punch_yaw: d.punch_yaw,
        velocity_y: d.velocity_y,
        punch_roll: d.punch_roll,
        velocity_z: d.velocity_z,
    };
    let g = PlayerGear {
        weapon_frame: d.weapon_frame,
        armor: d.armor,
        weapon: d.weapon,
        health: d.health,
        ammo: d.ammo,
        ammo_shells: d.ammo_shells,
        ammo_nails: d.ammo_nails,
        ammo_rockets: d.ammo_rockets,
        ammo_cells: d.ammo_cells,
        active_weapon: d.active_weapon,
    };
    assert(player_data_of(f, m, d.items.spec_bits(), g) == d);
}

/// Reading the body of a fixed-size server command where it was written gives it back.
#[verifier::rlimit(40)]
pub proof fn lemma_fixed_body_roundtrip(s: Seq<u8>, p: int, c: ServerCmdView)
    requires
        holds_at(s, p, server_body_bytes(c)),
        c is Bad || c is NoOp || c is Disconnect || c is UpdateStat || c is Version || c is SetView
            || c is Time || c is SetAngle || c is UpdateFrags || c is Particle || c is Damage
            || c is SetPause || c is SignOnStage || c is KilledMonster || c is FoundSecret
            || c is SpawnStaticSound || c is Intermission || c is CdTrack || c is SellScreen,
    ensures
        spec_decode_server_body(s, server_code(c), p) == Decoded::Value(
            c,
            p + server_body_bytes(c).len(),
        ),
{
    let b = server_body_bytes(c);
    match c {
        ServerCmdOf::UpdateStat { stat, value } => {
            lemma_holds_split(s, p, seq![stat.spec_code()], i32_le_bytes(value));
            assert(s[p] == s.subrange(p, p + 1)[0]);
            stat.lemma_code_roundtrip();
            lemma_i32_holds(s, p + 1, value);
        },
        ServerCmdOf::Version { version } => {
            lemma_i32_holds(s, p, version);
        },
        ServerCmdOf::SetView { ent_id } => {
            lemma_i16_holds(s, p, ent_id);
        },
        ServerCmdOf::Time { time } => {
            lemma_le32_holds(s, p, time);
        },
        ServerCmdOf::SetAngle { angles } => {
            lemma_angles_holds(s, p, angles);
        },
        ServerCmdOf::UpdateFrags { player_id, new_frags } => {
            lemma_holds_split(s, p, seq![player_id], i16_le_bytes(new_frags));
            assert(s[p] == s.subrange(p, p + 1)[0]);
            lemma_i16_holds(s, p + 1, new_frags);
        },
        ServerCmdOf::Particle { origin, direction, count, color } => {
            lemma_holds_split(s, p, coords_bytes(origin) + angles_bytes(direction), seq![count, color]);
            lemma_holds_split(s, p, coords_bytes(origin), angles_bytes(direction));
            lemma_coords_holds(s, p, origin);
            lemma_angles_holds(s, p + 6, direction);
            assert(s[p + 9] == s.subrange(p + 9, p + 11)[0]);
            assert(s[p + 10] == s.subrange(p + 9, p + 11)[1]);
        },
        ServerCmdOf::Damage { armor, blood, source } => {
            lemma_holds_split(s, p, seq![armor, blood], coords_bytes(source));
            assert(s[p] == s.subrange(p, p + 2)[0]);
            assert(s[p + 1] == s.subrange(p, p + 2)[1]);
            lemma_coords_holds(s, p + 2, source);
        },
        ServerCmdOf::SetPause { paused } => {
            assert(s[p] == s.subrange(p, p + 1)[0]);
        },
        ServerCmdOf::SignOnStage { stage } => {
            assert(s[p] == s.subrange(p, p + 1)[0]);
            assert(SignOnStage::spec_from_u8(stage.spec_code()) == Some(stage));
        },
        ServerCmdOf::SpawnStaticSound { origin, sound_id, volume, attenuation } => {
            lemma_holds_split(s, p, coords_bytes(origin), seq![sound_id, volume, attenuation]);
            lemma_coords_holds(s, p, origin);
            assert(s[p + 6] == s.subrange(p + 6, p + 9)[0]);
            assert(s[p + 7] == s.subrange(p + 6, p + 9)[1]);
            assert(s[p + 8] == s.subrange(p + 6, p + 9)[2]);
        },
        ServerCmdOf::CdTrack { track, loop_ } => {
            assert(s[p] == s.subrange(p, p + 2)[0]);
            assert(s[p + 1] == s.subrange(p, p + 2)[1]);
        },
        _ => {},
    }
}

/// Reading the body of a server command that carries text where it was written gives it back.
#[verifier::rlimit(40)]
pub proof fn lemma_text_body_roundtrip(s: Seq<u8>, p: int, c: ServerCmdView)
    requires
        server_roundtrips(c),
        holds_at(s, p, server_body_bytes(c)),
        c is Print || c is StuffText || c is CenterPrint || c is Finale || c is Cutscene
            || c is LightStyle || c is UpdateName || c is ServerInfo,
    ensures
        spec_decode_server_body(s, server_code(c), p) == Decoded::Value(
            c,
            p + server_body_bytes(c).len(),
        ),
{
    match c {
        ServerCmdOf::Print { text } => lemma_text_holds(s, p, text, false),
        ServerCmdOf::StuffText { text } => lemma_text_holds(s, p, text, false),
        ServerCmdOf::CenterPrint { text } => lemma_text_holds(s, p, text, false),
        ServerCmdOf::Finale { text } => lemma_text_holds(s, p, text, false),
        ServerCmdOf::Cutscene { text } => lemma_text_holds(s, p, text, false),
        ServerCmdOf::LightStyle { id, value } => {
            lemma_holds_split(s, p, seq![id], text_bytes(value));
            assert(s[p] == s.subrange(p, p + 1)[0]);
            lemma_text_holds(s, p + 1, value, true);
        },
        ServerCmdOf::UpdateName { player_id, new_name } => {
            lemma_holds_split(s, p, seq![player_id], text_bytes(new_name));
            assert(s[p] == s.subrange(p, p + 1)[0]);
            lemma_text_holds(s, p + 1, new_name, true);
        },
        ServerCmdOf::ServerInfo {
            protocol_version,
            max_clients,
            game_type,
            message,
            model_precache,
            sound_precache,
        } => {
            let h = i32_le_bytes(protocol_version) + seq![max_clients, game_type.spec_code()];
            let m = text_bytes(message);
            let a = names_bytes(model_precache);
            let z = names_bytes(sound_precache);
            lemma_holds_split(s, p, h + m + a, z);
            lemma_holds_split(s, p, h + m, a);
            lemma_holds_split(s, p, h, m);
            lemma_holds_split(s, p, i32_le_bytes(protocol_version), seq![max_clients, game_type.spec_code()]);
            lemma_i32_holds(s, p, protocol_version);
            assert(s[p + 4] == s.subrange(p + 4, p + 6)[0]);
            assert(s[p + 5] == s.subrange(p + 4, p + 6)[1]);
            assert(GameType::spec_from_u8(game_type.spec_code()) == Some(game_type));
            lemma_text_holds(s, p + 6, message, true);
            lemma_names_holds(s, p + 6 + m.len(), model_precache);
            lemma_names_holds(s, p + 6 + m.len() + a.len(), sound_precache);
        },
        _ => {},
    }
}

/// A stopped sound's entity and channel, and a player's colors, survive writing and reading.
pub proof fn lemma_small_fields(e: u16, ch: u8, top: u8, bottom: u8)
    ensures
        e < 8192 && ch < 8 ==> ((((e << 3u16) | ((ch as u16) & 7u16)) as u16) >> 3u16 == e
            && ((((e << 3u16) | ((ch as u16) & 7u16)) as u16) & 7u16) as u8 == ch),
        top < 16 && bottom < 16 ==> ((((top << 4u8) | (bottom & 0x0fu8)) as u8) >> 4u8 == top
            && (((top << 4u8) | (bottom & 0x0fu8)) as u8) & 0x0fu8 == bottom),
{
    assert(e < 8192 && ch < 8 ==> ((((e << 3u16) | ((ch as u16) & 7u16)) as u16) >> 3u16 == e
        && ((((e << 3u16) | ((ch as u16) & 7u16)) as u16) & 7u16) as u8 == ch)) by (bit_vector);
    assert(top < 16 && bottom < 16 ==> ((((top << 4u8) | (bottom & 0x0fu8)) as u8) >> 4u8 == top
        && (((top << 4u8) | (bottom & 0x0fu8)) as u8) & 0x0fu8 == bottom)) by (bit_vector);
}

/// Reading the body of the other writable server commands where it was written gives it back.
#[verifier::rlimit(40)]
pub proof fn lemma_other_body_roundtrip(s: Seq<u8>, p: int, c: ServerCmdView)
    requires
        server_roundtrips(c),
        holds_at(s, p, server_body_bytes(c)),
        c is Sound || c is PlayerData || c is StopSound || c is UpdateColors || c is SpawnStatic
            || c is SpawnBaseline || c is TempEntity,
    ensures
        spec_decode_server_body(s, server_code(c), p) == Decoded::Value(
            c,
            p + server_body_bytes(c).len(),
        ),
{
    match c {
        ServerCmdOf::Sound { .. } => lemma_sound_roundtrip(s, p, c),
        ServerCmdOf::PlayerData(d) => lemma_player_data_roundtrip(s, p, d),
        ServerCmdOf::StopSound { entity_id, channel } => {
            lemma_le16_holds(
                s,
                p,
                ((entity_id << 3u16) | ((channel as u16) & 7u16)) as u16,
            );
            lemma_small_fields(entity_id, channel, 0, 0);
        },
        ServerCmdOf::UpdateColors { player_id, new_colors } => {
            assert(s[p] == s.subrange(p, p + 2)[0]);
            assert(s[p + 1] == s.subrange(p, p + 2)[1]);
            lemma_small_fields(0, 0, new_colors.spec_top(), new_colors.spec_bottom());
            new_colors.lemma_new(0, 0);
        },
        ServerCmdOf::SpawnStatic { model_id, frame_id, colormap, skin_id, origin, angles } => {
            lemma_holds_split(
                s,
                p,
                seq![model_id, frame_id, colormap, skin_id],
                interleaved_bytes(origin, angles),
            );
            assert(s[p] == s.subrange(p, p + 4)[0]);
            assert(s[p + 1] == s.subrange(p, p + 4)[1]);
            assert(s[p + 2] == s.subrange(p, p + 4)[2]);
            assert(s[p + 3] == s.subrange(p, p + 4)[3]);
            lemma_interleaved_holds(s, p + 4, origin, angles);
        },
        ServerCmdOf::SpawnBaseline {
            ent_id,
            model_id,
            frame_id,
            colormap,
            skin_id,
            origin,
            angles,
        } => {
            let h = u16_le_bytes(ent_id) + seq![model_id, frame_id, colormap, skin_id];
            lemma_holds_split(s, p, h, interleaved_bytes(origin, angles));
            lemma_holds_split(s, p, u16_le_bytes(ent_id), seq![model_id, frame_id, colormap, skin_id]);
            lemma_le16_holds(s, p, ent_id);
            assert(s[p + 2] == s.subrange(p + 2, p + 6)[0]);
            assert(s[p + 3] == s.subrange(p + 2, p + 6)[1]);
            assert(s[p + 4] == s.subrange(p + 2, p + 6)[2]);
            assert(s[p + 5] == s.subrange(p + 2, p + 6)[3]);
            lemma_interleaved_holds(s, p + 6, origin, angles);
        },
        ServerCmdOf::TempEntity { temp_entity } => {
            lemma_temp_entity_roundtrip(s, p, temp_entity);
        },
        _ => {},
    }
}

/// `pre + b + rest` holds `b` right after `pre`.
pub proof fn lemma_holds_middle(pre: Seq<u8>, b: Seq<u8>, rest: Seq<u8>)
    ensures
        holds_at(pre + b + rest, pre.len() as int, b),
{
    assert((pre + b + rest).subrange(pre.len() as int, (pre.len() + b.len()) as int) =~= b);
}

/// A command written where a stream of commands continues, at any position, reads back as
/// itself, and reading stops right after it.
pub proof fn lemma_server_cmd_roundtrip(pre: Seq<u8>, c: ServerCmdView, rest: Seq<u8>)
    requires
        server_roundtrips(c),
    ensures
        spec_decode_server_at(pre + spec_encode_server(c) + rest, pre.len() as int)
            == Decoded::Value(c, (pre.len() + spec_encode_server(c).len()) as int),
{
    let e = spec_encode_server(c);
    let s = pre + e + rest;
    let p = pre.len() as int;
    lemma_holds_middle(pre, e, rest);
    lemma_holds_split(s, p, seq![server_code(c)], server_body_bytes(c));
    assert(s[p] == s.subrange(p, p + 1)[0]);
    let code = server_code(c);
    assert(code <= 34);
    assert(code <= 34 ==> code & 0x80u8 == 0) by (bit_vector);
    if c is Bad || c is NoOp || c is Disconnect || c is UpdateStat || c is Version || c is SetView
        || c is Time || c is SetAngle || c is UpdateFrags || c is Particle || c is Damage
        || c is SetPause || c is SignOnStage || c is KilledMonster || c is FoundSecret
        || c is SpawnStaticSound || c is Intermission || c is CdTrack || c is SellScreen {
        lemma_fixed_body_roundtrip(s, p + 1, c);
    } else if c is Print || c is StuffText || c is CenterPrint || c is Finale || c is Cutscene
        || c is LightStyle || c is UpdateName || c is ServerInfo {
        lemma_text_body_roundtrip(s, p + 1, c);
    } else {
        lemma_other_body_roundtrip(s, p + 1, c);
    }
}

/// Whether a client command can be written and read back: its buttons must be defined ones,
/// and a string command's text must hold no zero character.
pub open spec fn client_roundtrips(c: ClientCmdView) -> bool {
    match c {
        ClientCmdOf::Move { button_flags, .. } => button_flags.wf(),
        ClientCmdOf::StringCmd { cmd } => text_ok(cmd),
        _ => true,
    }
}

/// Reading a move command's body where it was written gives it back.
pub proof fn lemma_move_roundtrip(s: Seq<u8>, q: int, c: ClientCmdView)
    requires
        c is Move,
        client_roundtrips(c),
        holds_at(s, q, spec_encode_client(c).subrange(1, spec_encode_client(c).len() as int)),
    ensures
        spec_decode_move(s, q) == Decoded::Value(c, q + spec_encode_client(c).len() - 1),
{
    if let ClientCmdOf::Move {
        send_time,
        angles,
        fwd_move,
        side_move,
        up_move,
        button_flags,
        impulse,
    } = c {
        let e = spec_encode_client(c);
        let b = e.subrange(1, e.len() as int);
        let t = seq![button_flags.spec_bits(), impulse];
        let h4 = u32_le_bytes(send_time) + angles_bytes(angles);
        let h5 = h4 + i16_le_bytes(fwd_move);
        let h6 = h5 + i16_le_bytes(side_move);
        let h = h6 + i16_le_bytes(up_move);
        assert(b =~= h + t);
        lemma_holds_split(s, q, h, t);
        lemma_holds_split(s, q, h6, i16_le_bytes(up_move));
        lemma_holds_split(s, q, h5, i16_le_bytes(side_move));
        lemma_holds_split(s, q, h4, i16_le_bytes(fwd_move));
        lemma_holds_split(s, q, u32_le_bytes(send_time), angles_bytes(angles));
        lemma_le32_holds(s, q, send_time);
        lemma_angles_holds(s, q + 4, angles);
        lemma_i16_holds(s, q + 7, fwd_move);
        lemma_i16_holds(s, q + 9, side_move);
        lemma_i16_holds(s, q + 11, up_move);
        assert(s[q + 13] == s.subrange(q + 13, q + 15)[0]);
        assert(s[q + 14] == s.subrange(q + 13, q + 15)[1]);
        button_flags.lemma_bits(button_flags.spec_bits());
    }
}

/// A client command written at any position of a stream reads back as itself, and reading
/// stops right after it.
pub proof fn lemma_client_cmd_roundtrip(pre: Seq<u8>, c: ClientCmdView, rest: Seq<u8>)
    requires
        client_roundtrips(c),
    ensures
        spec_decode_client_at(pre + spec_encode_client(c) + rest, pre.len() as int)
            == Decoded::Value(c, (pre.len() + spec_encode_client(c).len()) as int),
{
    let e = spec_encode_client(c);
    let s = pre + e + rest;
    let p = pre.len() as int;
    let b = e.subrange(1, e.len() as int);
    lemma_holds_middle(pre, e, rest);
    assert(seq![client_code(c)] + b =~= e);
    lemma_holds_split(s, p, seq![client_code(c)], b);
    assert(s[p] == s.subrange(p, p + 1)[0]);
    match c {
        ClientCmdOf::Move { .. } => {
            lemma_move_roundtrip(s, p + 1, c);
        },
        ClientCmdOf::StringCmd { cmd } => {
            assert(b =~= text_bytes(cmd));
            lemma_text_holds(s, p + 1, cmd, true);
        },
        _ => {},
    }
}

} // verus!
