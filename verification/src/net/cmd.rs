//! The first version of the server's commands: one type per command, each read and written on
//! its own, without its code.

use vstd::prelude::*;
use vstd::utf8::{decode_utf8, encode_utf8, valid_utf8, encode_utf8_valid_utf8, encode_utf8_decode_utf8};
use super::{ClientStat, NetError};
use super::codec::{names_bytes, names_view, put_names, put_text, text_bytes};
use super::laws::{lemma_encode_nonzero, lemma_find_nul_at, text_ok};
use crate::util::{find_nul, find_nul_from, lemma_find_nul, string_from_utf8};
use crate::wire::{
    i16_le_bytes, i32_le_bytes, read_i16_le, read_i32_le, seq_u16_le, seq_u32_le, write_i16_le,
    write_i32_le, push_all,
};

verus! {

/// Reads a little-endian `i32` at `pos`; an input too short is an I/O error.
fn cursor_i32(buf: &[u8], pos: &mut usize) -> (r: Result<i32, NetError>)
    requires
        *old(pos) <= buf.len(),
    ensures
        *old(pos) + 4 <= buf.len() ==> (r matches Ok(v) && v == seq_u32_le(buf@.skip(*old(pos) as int)) as i32
            && *final(pos) == *old(pos) + 4),
        *old(pos) + 4 > buf.len() ==> r matches Err(NetError::Io),
        *final(pos) <= buf.len(),
{
    if buf.len() - *pos < 4 {
        return Err(NetError::Io);
    }
    let v = read_i32_le(vstd::slice::slice_subrange(buf, *pos, *pos + 4));
    assert(forall|k: int| 0 <= k < 4 ==> buf@.subrange(*old(pos) as int, *old(pos) + 4)[k] == buf@.skip(*old(pos) as int)[k]);
    *pos = *pos + 4;
    Ok(v)
}

/// The bytes of text at `p` as the first version reads it: up to the next zero byte, which is
/// skipped; where there is none, the rest of the input but its last byte.
pub open spec fn cursor_text(s: Seq<u8>, p: int) -> (Seq<u8>, int) {
    match find_nul(s, p) {
        Some(z) => (s.subrange(p, z), z + 1),
        None => (if p < s.len() { s.subrange(p, s.len() - 1) } else { Seq::empty() }, s.len() as int),
    }
}

/// Reads the bytes of text at `p`.
fn cursor_text_bytes(buf: &[u8], pos: &mut usize) -> (r: Vec<u8>)
    requires
        *old(pos) <= buf.len(),
    ensures
        r@ == cursor_text(buf@, *old(pos) as int).0,
        *final(pos) == cursor_text(buf@, *old(pos) as int).1,
        *final(pos) <= buf.len(),
        r@.len() > 0 ==> *final(pos) > *old(pos),
{
    let p = *pos;
    proof {
        lemma_find_nul(buf@, p as int);
    }
    match find_nul_from(buf, p) {
        Some(z) => {
            *pos = z + 1;
            vstd::slice::slice_to_vec(vstd::slice::slice_subrange(buf, p, z))
        },
        None => {
            *pos = buf.len();
            if p < buf.len() {
                vstd::slice::slice_to_vec(vstd::slice::slice_subrange(buf, p, buf.len() - 1))
            } else {
                Vec::new()
            }
        },
    }
}

/// A list of names as the first version reads it: text after text until an empty one; `None`
/// where a name is not UTF-8, on which reading panics.
pub open spec fn cursor_names(s: Seq<u8>, p: int) -> Option<(Seq<Seq<char>>, int)>
    decreases s.len() - p,
{
    let (b, q) = cursor_text(s, p);
    if !valid_utf8(b) {
        None
    } else if b.len() == 0 || q <= p || q > s.len() {
        Some((Seq::empty(), q))
    } else {
        match cursor_names(s, q) {
            Some((rest, r)) => Some((seq![decode_utf8(b)] + rest, r)),
            None => None,
        }
    }
}

/// Sets one of the client's statistics.
#[derive(Debug, PartialEq, Eq)]
pub struct ServerCmdUpdateStat {
    pub stat: ClientStat,
    pub value: i32,
}

impl ServerCmdUpdateStat {
    /// The code of this command.
    pub fn code(&self) -> (r: u8)
        ensures
            r == 3,
    {
        3
    }

    /// The content: the statistic's code and the value.
    pub open spec fn spec_content(&self) -> Seq<u8> {
        seq![self.stat.spec_code()] + i32_le_bytes(self.value)
    }

    /// Reads the content at `pos`.
    pub fn read_content(buf: &[u8], pos: &mut usize) -> (r: Result<ServerCmdUpdateStat, NetError>)
        requires
            *old(pos) <= buf.len(),
        ensures
            *old(pos) == buf.len() ==> r matches Err(NetError::Io),
            *old(pos) < buf.len() && ClientStat::spec_from_u8(buf@[*old(pos) as int]) is None ==> r matches Err(NetError::Other(_)),
            *old(pos) < buf.len() && ClientStat::spec_from_u8(buf@[*old(pos) as int]) is Some ==> {
                if *old(pos) + 5 <= buf.len() {
                    r matches Ok(c) && Some(c.stat) == ClientStat::spec_from_u8(buf@[*old(pos) as int])
                        && c.value == seq_u32_le(buf@.skip(*old(pos) + 1)) as i32
                        && *final(pos) == *old(pos) + 5
                } else {
                    r matches Err(NetError::Io)
                }
            },
    {
        if *pos >= buf.len() {
            return Err(NetError::Io);
        }
        let stat_id = buf[*pos];
        *pos = *pos + 1;
        let stat = match ClientStat::from_u8(stat_id) {
            Some(c) => c,
            None => {
                return Err(NetError::Other(super::describe("Invalid value for ClientStat", stat_id as u32)));
            },
        };
        let value = cursor_i32(buf, pos)?;
        assert(buf@.skip(*old(pos) + 1) == buf@.skip(*old(pos) as int).skip(1));
        Ok(ServerCmdUpdateStat { stat, value })
    }

    /// Writes the content.
    pub fn write_content(&self, out: &mut Vec<u8>) -> (r: Result<(), NetError>)
        ensures
            r is Ok,
            final(out)@ == old(out)@ + self.spec_content(),
    {
        out.push(self.stat.code());
        push_all(out, &write_i32_le(self.value));
        assert(out@ =~= old(out)@ + self.spec_content());
        Ok(())
    }
}

/// Tells the client the protocol version.
#[derive(Debug, PartialEq, Eq)]
pub struct ServerCmdVersion {
    pub version: i32,
}

impl ServerCmdVersion {
    /// The code of this command.
    pub fn code(&self) -> (r: u8)
        ensures
            r == 4,
    {
        4
    }

    /// Reads the content at `pos`: the version.
    pub fn read_content(buf: &[u8], pos: &mut usize) -> (r: Result<ServerCmdVersion, NetError>)
        requires
            *old(pos) <= buf.len(),
        ensures
            *old(pos) + 4 <= buf.len() ==> (r matches Ok(c) && c.version == seq_u32_le(buf@.skip(*old(pos) as int)) as i32
                && *final(pos) == *old(pos) + 4),
            *old(pos) + 4 > buf.len() ==> r matches Err(NetError::Io),
    {
        let version = cursor_i32(buf, pos)?;
        Ok(ServerCmdVersion { version })
    }

    /// Writes the content.
    pub fn write_content(&self, out: &mut Vec<u8>) -> (r: Result<(), NetError>)
        ensures
            r is Ok,
            final(out)@ == old(out)@ + i32_le_bytes(self.version),
    {
        push_all(out, &write_i32_le(self.version));
        Ok(())
    }
}

/// Sets the entity the view follows.
#[derive(Debug, PartialEq, Eq)]
pub struct ServerCmdSetView {
    pub view_ent: i16,
}

impl ServerCmdSetView {
    /// The code of this command.
    pub fn code(&self) -> (r: u8)
        ensures
            r == 5,
    {
        5
    }

    /// Reads the content at `pos`: the entity.
    pub fn read_content(buf: &[u8], pos: &mut usize) -> (r: Result<ServerCmdSetView, NetError>)
        requires
            *old(pos) <= buf.len(),
        ensures
            *old(pos) + 2 <= buf.len() ==> (r matches Ok(c) && c.view_ent == seq_u16_le(buf@.skip(*old(pos) as int)) as i16
                && *final(pos) == *old(pos) + 2),
            *old(pos) + 2 > buf.len() ==> r matches Err(NetError::Io),
    {
        if buf.len() - *pos < 2 {
            return Err(NetError::Io);
        }
        let view_ent = read_i16_le(vstd::slice::slice_subrange(buf, *pos, *pos + 2));
        assert(buf@.subrange(*old(pos) as int, *old(pos) + 2)[0] == buf@.skip(*old(pos) as int)[0]);
        assert(buf@.subrange(*old(pos) as int, *old(pos) + 2)[1] == buf@.skip(*old(pos) as int)[1]);
        *pos = *pos + 2;
        Ok(ServerCmdSetView { view_ent })
    }

    /// Writes the content.
    pub fn write_content(&self, out: &mut Vec<u8>) -> (r: Result<(), NetError>)
        ensures
            r is Ok,
            final(out)@ == old(out)@ + i16_le_bytes(self.view_ent),
    {
        push_all(out, &write_i16_le(self.view_ent));
        Ok(())
    }
}

/// Reads text at `pos`; text that is not UTF-8 is an error.
fn cursor_read_text(buf: &[u8], pos: &mut usize) -> (r: Result<String, NetError>)
    requires
        *old(pos) <= buf.len(),
    ensures
        *final(pos) == cursor_text(buf@, *old(pos) as int).1,
        r is Ok <==> valid_utf8(cursor_text(buf@, *old(pos) as int).0),
        r matches Ok(t) ==> t@ == decode_utf8(cursor_text(buf@, *old(pos) as int).0),
        r matches Err(e) ==> e is Other,
{
    let bytes = cursor_text_bytes(buf, pos);
    match string_from_utf8(bytes) {
        Ok(t) => Ok(t),
        Err(_) => Err(NetError::with_msg("invalid utf-8 sequence")),
    }
}

/// Prints text on the client's console.
pub struct ServerCmdPrint {
    pub text: String,
}

impl ServerCmdPrint {
    /// The code of this command.
    pub fn code(&self) -> (r: u8)
        ensures
            r == 8,
    {
        8
    }

    /// Reads the content at `pos`: the text.
    pub fn read_content(buf: &[u8], pos: &mut usize) -> (r: Result<ServerCmdPrint, NetError>)
        requires
            *old(pos) <= buf.len(),
        ensures
            *final(pos) == cursor_text(buf@, *old(pos) as int).1,
            r is Ok <==> valid_utf8(cursor_text(buf@, *old(pos) as int).0),
            r matches Ok(c) ==> c.text@ == decode_utf8(cursor_text(buf@, *old(pos) as int).0),
            r matches Err(e) ==> e is Other,
    {
        let text = cursor_read_text(buf, pos)?;
        Ok(ServerCmdPrint { text })
    }

    /// Writes the content: the text and a zero byte.
    pub fn write_content(&self, out: &mut Vec<u8>) -> (r: Result<(), NetError>)
        ensures
            r is Ok,
            final(out)@ == old(out)@ + text_bytes(self.text@),
    {
        put_text(out, &self.text);
        Ok(())
    }
}

/// Text for the client to run as console commands.
pub struct ServerCmdStuffText {
    pub text: String,
}

impl ServerCmdStuffText {
    /// The code of this command.
    pub fn code(&self) -> (r: u8)
        ensures
            r == 9,
    {
        9
    }

    /// Reads the content at `pos`: the text.
    pub fn read_content(buf: &[u8], pos: &mut usize) -> (r: Result<ServerCmdStuffText, NetError>)
        requires
            *old(pos) <= buf.len(),
        ensures
            *final(pos) == cursor_text(buf@, *old(pos) as int).1,
            r is Ok <==> valid_utf8(cursor_text(buf@, *old(pos) as int).0),
            r matches Ok(c) ==> c.text@ == decode_utf8(cursor_text(buf@, *old(pos) as int).0),
            r matches Err(e) ==> e is Other,
    {
        let text = cursor_read_text(buf, pos)?;
        Ok(ServerCmdStuffText { text })
    }

    /// Writes the content: the text and a zero byte.
    pub fn write_content(&self, out: &mut Vec<u8>) -> (r: Result<(), NetError>)
        ensures
            r is Ok,
            final(out)@ == old(out)@ + text_bytes(self.text@),
    {
        put_text(out, &self.text);
        Ok(())
    }
}

/// Reads a list of names at `pos`.
fn cursor_read_names(buf: &[u8], pos: &mut usize) -> (r: Vec<String>)
    requires
        *old(pos) <= buf.len(),
        cursor_names(buf@, *old(pos) as int) is Some,
    ensures
        cursor_names(buf@, *old(pos) as int) == Some((names_view(r@), *final(pos) as int)),
        *final(pos) <= buf.len(),
    decreases buf.len() - *old(pos),
{
    let p = *pos;
    let bytes = cursor_text_bytes(buf, pos);
    proof {
        lemma_find_nul(buf@, p as int);
    }
    if bytes.len() == 0 {
        let r: Vec<String> = Vec::new();
        assert(names_view(r@) =~= Seq::<Seq<char>>::empty());
        return r;
    }
    let name = match string_from_utf8(bytes) {
        Ok(t) => t,
        Err(_) => {
            assert(false);
            String::new()
        },
    };
    let rest = cursor_read_names(buf, pos);
    let mut r: Vec<String> = Vec::new();
    r.push(name);
    let mut i: usize = 0;
    let ghost head = r@;
    while i < rest.len()
        invariant
            i <= rest.len(),
            r@ == head + rest@.take(i as int),
        decreases rest.len() - i,
    {
        r.push(rest[i].clone());
        assert(rest@.take(i + 1) =~= rest@.take(i as int).push(rest@[i as int]));
        i = i + 1;
    }
    assert(rest@.take(rest.len() as int) =~= rest@);
    assert(names_view(r@) =~= seq![name@] + names_view(rest@));
    r
}

/// What the server tells a client that connects: the protocol, the number of clients, the kind
/// of game, and the models and sounds to load.
pub struct ServerCmdServerInfo {
    pub protocol_version: i32,
    pub max_clients: u8,
    pub game_type: u8,
    pub model_precache: Vec<String>,
    pub sound_precache: Vec<String>,
}

/// Whether the lists of a server information at `p` read without panicking: no name in them
/// is other than UTF-8.
pub open spec fn server_info_reads(s: Seq<u8>, p: int) -> bool {
    p + 6 <= s.len() ==> match cursor_names(s, p + 6) {
        Some((_, q)) => cursor_names(s, q) is Some,
        None => false,
    }
}

impl ServerCmdServerInfo {
    /// The code of this command.
    pub fn code(&self) -> (r: u8)
        ensures
            r == 11,
    {
        11
    }

    /// Reads the content at `pos`: the protocol, the number of clients, the kind of game, and
    /// the two lists of names, each ended by an empty name.
    pub fn read_content(buf: &[u8], pos: &mut usize) -> (r: Result<ServerCmdServerInfo, NetError>)
        requires
            *old(pos) <= buf.len(),
            server_info_reads(buf@, *old(pos) as int),
        ensures
            *old(pos) + 6 > buf.len() ==> r matches Err(NetError::Io),
            *old(pos) + 6 <= buf.len() ==> ({
                let p = *old(pos) as int;
                let (models, q) = cursor_names(buf@, p + 6)->0;
                let (sounds, e) = cursor_names(buf@, q)->0;
                &&& r matches Ok(c)
                &&& c.protocol_version == seq_u32_le(buf@.skip(p)) as i32
                &&& c.max_clients == buf@[p + 4]
                &&& c.game_type == buf@[p + 5]
                &&& names_view(c.model_precache@) == models
                &&& names_view(c.sound_precache@) == sounds
                &&& *final(pos) == e
            }),
    {
        if buf.len() - *pos < 6 {
            return Err(NetError::Io);
        }
        let protocol_version = cursor_i32(buf, pos)?;
        let max_clients = buf[*pos];
        let game_type = buf[*pos + 1];
        *pos = *pos + 2;
        let model_precache = cursor_read_names(buf, pos);
        let sound_precache = cursor_read_names(buf, pos);
        Ok(ServerCmdServerInfo { protocol_version, max_clients, game_type, model_precache, sound_precache })
    }

    /// Writes the content.
    pub fn write_content(&self, out: &mut Vec<u8>) -> (r: Result<(), NetError>)
        ensures
            r is Ok,
            final(out)@ == old(out)@ + i32_le_bytes(self.protocol_version) + seq![
                self.max_clients,
                self.game_type,
            ] + names_bytes(names_view(self.model_precache@)) + names_bytes(
                names_view(self.sound_precache@),
            ),
    {
        push_all(out, &write_i32_le(self.protocol_version));
        out.push(self.max_clients);
        out.push(self.game_type);
        put_names(out, &self.model_precache);
        put_names(out, &self.sound_precache);
        assert(out@ =~= old(out)@ + i32_le_bytes(self.protocol_version) + seq![
            self.max_clients,
            self.game_type,
        ] + names_bytes(names_view(self.model_precache@)) + names_bytes(
            names_view(self.sound_precache@),
        ));
        Ok(())
    }
}

/// Sets a light style. Its content has no encoding yet.
pub struct ServerCmdLightStyle {
    pub id: u8,
    pub value: String,
}

impl ServerCmdLightStyle {
    /// The code of this command.
    pub fn code(&self) -> (r: u8)
        ensures
            r == 12,
    {
        12
    }
}

/// Sets a player's name. Its content has no encoding yet.
pub struct ServerCmdUpdateName {
    pub player_id: u8,
    pub new_name: String,
}

impl ServerCmdUpdateName {
    /// The code of this command.
    pub fn code(&self) -> (r: u8)
        ensures
            r == 13,
    {
        13
    }
}

/// Sets a player's frag count. Its content has no encoding yet.
pub struct ServerCmdUpdateFrags {
    pub player_id: u8,
    pub new_frags: i16,
}

impl ServerCmdUpdateFrags {
    /// The code of this command.
    pub fn code(&self) -> (r: u8)
        ensures
            r == 14,
    {
        14
    }
}

/// Stops a sound. Its content has no encoding yet.
pub struct ServerCmdStopSound {
    pub entity_id: u16,
    pub channel: u8,
}

impl ServerCmdStopSound {
    /// The code of this command.
    pub fn code(&self) -> (r: u8)
        ensures
            r == 16,
    {
        16
    }
}

/// Sets a player's colors. Its content has no encoding yet.
pub struct ServerCmdUpdateColors {
    pub player_id: u8,
    pub new_colors: u8,
}

impl ServerCmdUpdateColors {
    /// The code of this command.
    pub fn code(&self) -> (r: u8)
        ensures
            r == 17,
    {
        17
    }
}

/// Spawns a static entity. Its content has no encoding yet.
pub struct ServerCmdSpawnStatic {
}

impl ServerCmdSpawnStatic {
    /// The code of this command.
    pub fn code(&self) -> (r: u8)
        ensures
            r == 20,
    {
        20
    }
}

/// Sets an entity's baseline. Its content has no encoding yet.
pub struct ServerCmdSpawnBaseline {
}

impl ServerCmdSpawnBaseline {
    /// The code of this command.
    pub fn code(&self) -> (r: u8)
        ensures
            r == 22,
    {
        22
    }
}

/// Creates a short-lived visual effect. Its content has no encoding yet.
pub struct ServerCmdTempEntity {
}

impl ServerCmdTempEntity {
    /// The code of this command.
    pub fn code(&self) -> (r: u8)
        ensures
            r == 23,
    {
        23
    }
}

/// Pauses or resumes the game. Its content has no encoding yet.
pub struct ServerCmdSetPause {
}

impl ServerCmdSetPause {
    /// The code of this command.
    pub fn code(&self) -> (r: u8)
        ensures
            r == 24,
    {
        24
    }
}

/// Advances the sign-on stage. Its content has no encoding yet.
pub struct ServerCmdSignOnNum {
}

impl ServerCmdSignOnNum {
    /// The code of this command.
    pub fn code(&self) -> (r: u8)
        ensures
            r == 25,
    {
        25
    }
}

/// Prints text in the middle of the screen. Its content has no encoding yet.
pub struct ServerCmdCenterPrint {
}

impl ServerCmdCenterPrint {
    /// The code of this command.
    pub fn code(&self) -> (r: u8)
        ensures
            r == 26,
    {
        26
    }
}

/// Starts a static sound. Its content has no encoding yet.
pub struct ServerCmdSpawnStaticSound {
}

impl ServerCmdSpawnStaticSound {
    /// The code of this command.
    pub fn code(&self) -> (r: u8)
        ensures
            r == 29,
    {
        29
    }
}

/// Shows the intermission screen. Its content has no encoding yet.
pub struct ServerCmdIntermission {
}

impl ServerCmdIntermission {
    /// The code of this command.
    pub fn code(&self) -> (r: u8)
        ensures
            r == 30,
    {
        30
    }
}

/// Shows the end of an episode. Its content has no encoding yet.
pub struct ServerCmdFinale {
}

impl ServerCmdFinale {
    /// The code of this command.
    pub fn code(&self) -> (r: u8)
        ensures
            r == 31,
    {
        31
    }
}

/// Plays a CD track. Its content has no encoding yet.
pub struct ServerCmdCdTrack {
}

impl ServerCmdCdTrack {
    /// The code of this command.
    pub fn code(&self) -> (r: u8)
        ensures
            r == 32,
    {
        32
    }
}

/// Shows the sell screen. Its content has no encoding yet.
pub struct ServerCmdSellScreen {
}

impl ServerCmdSellScreen {
    /// The code of this command.
    pub fn code(&self) -> (r: u8)
        ensures
            r == 33,
    {
        33
    }
}

/// Plays a cutscene. Its content has no encoding yet.
pub struct ServerCmdCutscene {
}

impl ServerCmdCutscene {
    /// The code of this command.
    pub fn code(&self) -> (r: u8)
        ensures
            r == 34,
    {
        34
    }
}

/// Reading back the content of a statistic update, followed by anything, gives the update:
/// the statistic's code is known, and the value follows it.
pub proof fn lemma_update_stat_roundtrip(c: ServerCmdUpdateStat, rest: Seq<u8>)
    ensures
        ({
            let b = c.spec_content() + rest;
            &&& b.len() >= 5
            &&& ClientStat::spec_from_u8(b[0]) == Some(c.stat)
            &&& seq_u32_le(b.skip(1)) as i32 == c.value
        }),
{
    let b = c.spec_content() + rest;
    c.stat.lemma_code_roundtrip();
    crate::wire::lemma_u32_le_roundtrip(c.value as u32);
    crate::wire::lemma_signed_roundtrip(0, c.value);
    assert(b.skip(1)[0] == b[1] && b.skip(1)[1] == b[2] && b.skip(1)[2] == b[3] && b.skip(1)[3] == b[4]);
}

/// Reading back the content of a version, followed by anything, gives the version.
pub proof fn lemma_version_roundtrip(v: i32, rest: Seq<u8>)
    ensures
        (i32_le_bytes(v) + rest).len() >= 4,
        seq_u32_le(i32_le_bytes(v) + rest) as i32 == v,
{
    crate::wire::lemma_u32_le_roundtrip(v as u32);
    crate::wire::lemma_signed_roundtrip(0, v);
    let b = i32_le_bytes(v) + rest;
    assert(b[0] == i32_le_bytes(v)[0] && b[1] == i32_le_bytes(v)[1] && b[2] == i32_le_bytes(v)[2] && b[3] == i32_le_bytes(v)[3]);
}

/// Reading back the content of a view entity, followed by anything, gives the entity.
pub proof fn lemma_set_view_roundtrip(e: i16, rest: Seq<u8>)
    ensures
        (i16_le_bytes(e) + rest).len() >= 2,
        seq_u16_le(i16_le_bytes(e) + rest) as i16 == e,
{
    crate::wire::lemma_u16_le_roundtrip(e as u16, 0, 0);
    crate::wire::lemma_signed_roundtrip(e, 0);
    let b = i16_le_bytes(e) + rest;
    assert(b[0] == i16_le_bytes(e)[0] && b[1] == i16_le_bytes(e)[1]);
}

/// Reading back text that holds no zero character, followed by anything, gives the text and
/// the position after its zero byte.
pub proof fn lemma_cursor_text_roundtrip(t: Seq<char>, rest: Seq<u8>)
    requires
        text_ok(t),
    ensures
        cursor_text(text_bytes(t) + rest, 0).0 == encode_utf8(t),
        cursor_text(text_bytes(t) + rest, 0).1 == text_bytes(t).len(),
        valid_utf8(encode_utf8(t)),
        decode_utf8(encode_utf8(t)) == t,
{
    let e = encode_utf8(t);
    let s = text_bytes(t) + rest;
    lemma_encode_nonzero(t);
    assert forall|i: int| 0 <= i < e.len() implies s[i] != 0 by {
        assert(s[i] == e[i]);
    }
    assert(s[e.len() as int] == 0u8);
    lemma_find_nul_at(s, 0, e.len() as int);
    assert(s.subrange(0, e.len() as int) =~= e);
    encode_utf8_valid_utf8(t);
    encode_utf8_decode_utf8(t);
}

} // verus!
