//! Command codes of the QuakeWorld protocol and the information a client sends about its
//! player.

use vstd::prelude::*;
use crate::util::{chars_of, string_from_chars};

verus! {

/// The code of a command that a server sends.
#[derive(Copy, Clone, Debug, PartialEq, Eq, Structural)]
pub enum SvCmd {
    Bad,
    Nop,
    Disconnect,
    UpdateStat,
    SetView,
    Sound,
    Print,
    StuffText,
    SetAngle,
    ServerData,
    LightStyle,
    UpdateFrags,
    StopSound,
    Damage,
    SpawnStatic,
    SpawnBaseline,
    TempEntity,
    SetPause,
    CenterPrint,
    KilledMonster,
    FoundSecret,
    SpawnStaticSound,
    Intermission,
    Finale,
    CdTrack,
    SellScreen,
    /// Sets the client's punch angle to 2.
    SmallKick,
    /// Sets the client's punch angle to 4.
    BigKick,
    UpdatePing,
    UpdateEnterTime,
    UpdateStatLong,
    MuzzleFlash,
    UpdateUserInfo,
    Download,
    PlayerInfo,
    Nails,
    ChokeCount,
    ModelList,
    SoundList,
    PacketEntities,
    DeltaPacketEntities,
    MaxSpeed,
    EntGravity,
    SetInfo,
    ServerInfo,
    UpdatePl,
}

impl SvCmd {
    /// The number of this value.
    pub open spec fn spec_code(self) -> u8 {
        match self {
            SvCmd::Bad => 0,
            SvCmd::Nop => 1,
            SvCmd::Disconnect => 2,
            SvCmd::UpdateStat => 3,
            SvCmd::SetView => 5,
            SvCmd::Sound => 6,
            SvCmd::Print => 8,
            SvCmd::StuffText => 9,
            SvCmd::SetAngle => 10,
            SvCmd::ServerData => 11,
            SvCmd::LightStyle => 12,
            SvCmd::UpdateFrags => 14,
            SvCmd::StopSound => 16,
            SvCmd::Damage => 19,
            SvCmd::SpawnStatic => 20,
            SvCmd::SpawnBaseline => 22,
            SvCmd::TempEntity => 23,
            SvCmd::SetPause => 24,
            SvCmd::CenterPrint => 26,
            SvCmd::KilledMonster => 27,
            SvCmd::FoundSecret => 28,
            SvCmd::SpawnStaticSound => 29,
            SvCmd::Intermission => 30,
            SvCmd::Finale => 31,
            SvCmd::CdTrack => 32,
            SvCmd::SellScreen => 33,
            SvCmd::SmallKick => 34,
            SvCmd::BigKick => 35,
            SvCmd::UpdatePing => 36,
            SvCmd::UpdateEnterTime => 37,
            SvCmd::UpdateStatLong => 38,
            SvCmd::MuzzleFlash => 39,
            SvCmd::UpdateUserInfo => 40,
            SvCmd::Download => 41,
            SvCmd::PlayerInfo => 42,
            SvCmd::Nails => 43,
            SvCmd::ChokeCount => 44,
            SvCmd::ModelList => 45,
            SvCmd::SoundList => 46,
            SvCmd::PacketEntities => 47,
            SvCmd::DeltaPacketEntities => 48,
            SvCmd::MaxSpeed => 49,
            SvCmd::EntGravity => 50,
            SvCmd::SetInfo => 51,
            SvCmd::ServerInfo => 52,
            SvCmd::UpdatePl => 53,
        }
    }

    /// The value with the given number, if there is one.
    pub open spec fn spec_from_u8(v: u8) -> Option<SvCmd> {
        match v {
            0 => Some(SvCmd::Bad),
            1 => Some(SvCmd::Nop),
            2 => Some(SvCmd::Disconnect),
            3 => Some(SvCmd::UpdateStat),
            5 => Some(SvCmd::SetView),
            6 => Some(SvCmd::Sound),
            8 => Some(SvCmd::Print),
            9 => Some(SvCmd::StuffText),
            10 => Some(SvCmd::SetAngle),
            11 => Some(SvCmd::ServerData),
            12 => Some(SvCmd::LightStyle),
            14 => Some(SvCmd::UpdateFrags),
            16 => Some(SvCmd::StopSound),
            19 => Some(SvCmd::Damage),
            20 => Some(SvCmd::SpawnStatic),
            22 => Some(SvCmd::SpawnBaseline),
            23 => Some(SvCmd::TempEntity),
            24 => Some(SvCmd::SetPause),
            26 => Some(SvCmd::CenterPrint),
            27 => Some(SvCmd::KilledMonster),
            28 => Some(SvCmd::FoundSecret),
            29 => Some(SvCmd::SpawnStaticSound),
            30 => Some(SvCmd::Intermission),
            31 => Some(SvCmd::Finale),
            32 => Some(SvCmd::CdTrack),
            33 => Some(SvCmd::SellScreen),
            34 => Some(SvCmd::SmallKick),
            35 => Some(SvCmd::BigKick),
            36 => Some(SvCmd::UpdatePing),
            37 => Some(SvCmd::UpdateEnterTime),
            38 => Some(SvCmd::UpdateStatLong),
            39 => Some(SvCmd::MuzzleFlash),
            40 => Some(SvCmd::UpdateUserInfo),
            41 => Some(SvCmd::Download),
            42 => Some(SvCmd::PlayerInfo),
            43 => Some(SvCmd::Nails),
            44 => Some(SvCmd::ChokeCount),
            45 => Some(SvCmd::ModelList),
            46 => Some(SvCmd::SoundList),
            47 => Some(SvCmd::PacketEntities),
            48 => Some(SvCmd::DeltaPacketEntities),
            49 => Some(SvCmd::MaxSpeed),
            50 => Some(SvCmd::EntGravity),
            51 => Some(SvCmd::SetInfo),
            52 => Some(SvCmd::ServerInfo),
            53 => Some(SvCmd::UpdatePl),
            _ => None,
        }
    }

    /// The number of this value.
    pub fn code(self) -> (r: u8)
        ensures
            r == self.spec_code(),
    {
        match self {
            SvCmd::Bad => 0,
            SvCmd::Nop => 1,
            SvCmd::Disconnect => 2,
            SvCmd::UpdateStat => 3,
            SvCmd::SetView => 5,
            SvCmd::Sound => 6,
            SvCmd::Print => 8,
            SvCmd::StuffText => 9,
            SvCmd::SetAngle => 10,
            SvCmd::ServerData => 11,
            SvCmd::LightStyle => 12,
            SvCmd::UpdateFrags => 14,
            SvCmd::StopSound => 16,
            SvCmd::Damage => 19,
            SvCmd::SpawnStatic => 20,
            SvCmd::SpawnBaseline => 22,
            SvCmd::TempEntity => 23,
            SvCmd::SetPause => 24,
            SvCmd::CenterPrint => 26,
            SvCmd::KilledMonster => 27,
            SvCmd::FoundSecret => 28,
            SvCmd::SpawnStaticSound => 29,
            SvCmd::Intermission => 30,
            SvCmd::Finale => 31,
            SvCmd::CdTrack => 32,
            SvCmd::SellScreen => 33,
            SvCmd::SmallKick => 34,
            SvCmd::BigKick => 35,
            SvCmd::UpdatePing => 36,
            SvCmd::UpdateEnterTime => 37,
            SvCmd::UpdateStatLong => 38,
            SvCmd::MuzzleFlash => 39,
            SvCmd::UpdateUserInfo => 40,
            SvCmd::Download => 41,
            SvCmd::PlayerInfo => 42,
            SvCmd::Nails => 43,
            SvCmd::ChokeCount => 44,
            SvCmd::ModelList => 45,
            SvCmd::SoundList => 46,
            SvCmd::PacketEntities => 47,
            SvCmd::DeltaPacketEntities => 48,
            SvCmd::MaxSpeed => 49,
            SvCmd::EntGravity => 50,
            SvCmd::SetInfo => 51,
            SvCmd::ServerInfo => 52,
            SvCmd::UpdatePl => 53,
        }
    }

    /// The value with the given number, if there is one.
    pub fn from_u8(v: u8) -> (r: Option<SvCmd>)
        ensures
            r == SvCmd::spec_from_u8(v),
    {
        match v {
            0 => Some(SvCmd::Bad),
            1 => Some(SvCmd::Nop),
            2 => Some(SvCmd::Disconnect),
            3 => Some(SvCmd::UpdateStat),
            5 => Some(SvCmd::SetView),
            6 => Some(SvCmd::Sound),
            8 => Some(SvCmd::Print),
            9 => Some(SvCmd::StuffText),
            10 => Some(SvCmd::SetAngle),
            11 => Some(SvCmd::ServerData),
            12 => Some(SvCmd::LightStyle),
            14 => Some(SvCmd::UpdateFrags),
            16 => Some(SvCmd::StopSound),
            19 => Some(SvCmd::Damage),
            20 => Some(SvCmd::SpawnStatic),
            22 => Some(SvCmd::SpawnBaseline),
            23 => Some(SvCmd::TempEntity),
            24 => Some(SvCmd::SetPause),
            26 => Some(SvCmd::CenterPrint),
            27 => Some(SvCmd::KilledMonster),
            28 => Some(SvCmd::FoundSecret),
            29 => Some(SvCmd::SpawnStaticSound),
            30 => Some(SvCmd::Intermission),
            31 => Some(SvCmd::Finale),
            32 => Some(SvCmd::CdTrack),
            33 => Some(SvCmd::SellScreen),
            34 => Some(SvCmd::SmallKick),
            35 => Some(SvCmd::BigKick),
            36 => Some(SvCmd::UpdatePing),
            37 => Some(SvCmd::UpdateEnterTime),
            38 => Some(SvCmd::UpdateStatLong),
            39 => Some(SvCmd::MuzzleFlash),
            40 => Some(SvCmd::UpdateUserInfo),
            41 => Some(SvCmd::Download),
            42 => Some(SvCmd::PlayerInfo),
            43 => Some(SvCmd::Nails),
            44 => Some(SvCmd::ChokeCount),
            45 => Some(SvCmd::ModelList),
            46 => Some(SvCmd::SoundList),
            47 => Some(SvCmd::PacketEntities),
            48 => Some(SvCmd::DeltaPacketEntities),
            49 => Some(SvCmd::MaxSpeed),
            50 => Some(SvCmd::EntGravity),
            51 => Some(SvCmd::SetInfo),
            52 => Some(SvCmd::ServerInfo),
            53 => Some(SvCmd::UpdatePl),
            _ => None,
        }
    }

    /// Reading back the number of a value gives the value.
    pub proof fn lemma_code_roundtrip(self)
        ensures
            SvCmd::spec_from_u8(self.spec_code()) == Some(self),
    {
    }
}
/// The code of a command that a client sends.
#[derive(Copy, Clone, Debug, PartialEq, Eq, Structural)]
pub enum ClCmd {
    Bad,
    Nop,
    Move,
    StringCmd,
    Delta,
    TMove,
    Upload,
}

impl ClCmd {
    /// The number of this value.
    pub open spec fn spec_code(self) -> u8 {
        match self {
            ClCmd::Bad => 0,
            ClCmd::Nop => 1,
            ClCmd::Move => 3,
            ClCmd::StringCmd => 4,
            ClCmd::Delta => 5,
            ClCmd::TMove => 6,
            ClCmd::Upload => 7,
        }
    }

    /// The value with the given number, if there is one.
    pub open spec fn spec_from_u8(v: u8) -> Option<ClCmd> {
        match v {
            0 => Some(ClCmd::Bad),
            1 => Some(ClCmd::Nop),
            3 => Some(ClCmd::Move),
            4 => Some(ClCmd::StringCmd),
            5 => Some(ClCmd::Delta),
            6 => Some(ClCmd::TMove),
            7 => Some(ClCmd::Upload),
            _ => None,
        }
    }

    /// The number of this value.
    pub fn code(self) -> (r: u8)
        ensures
            r == self.spec_code(),
    {
        match self {
            ClCmd::Bad => 0,
            ClCmd::Nop => 1,
            ClCmd::Move => 3,
            ClCmd::StringCmd => 4,
            ClCmd::Delta => 5,
            ClCmd::TMove => 6,
            ClCmd::Upload => 7,
        }
    }

    /// The value with the given number, if there is one.
    pub fn from_u8(v: u8) -> (r: Option<ClCmd>)
        ensures
            r == ClCmd::spec_from_u8(v),
    {
        match v {
            0 => Some(ClCmd::Bad),
            1 => Some(ClCmd::Nop),
            3 => Some(ClCmd::Move),
            4 => Some(ClCmd::StringCmd),
            5 => Some(ClCmd::Delta),
            6 => Some(ClCmd::TMove),
            7 => Some(ClCmd::Upload),
            _ => None,
        }
    }

    /// Reading back the number of a value gives the value.
    pub proof fn lemma_code_roundtrip(self)
        ensures
            ClCmd::spec_from_u8(self.spec_code()) == Some(self),
    {
    }
}
/// The text that stands for a list of key-value pairs: each pair as a backslash, the key, a
/// backslash and the value.
pub open spec fn serialized(entries: Seq<(Seq<char>, Seq<char>)>) -> Seq<char>
    decreases entries.len(),
{
    if entries.len() == 0 {
        Seq::empty()
    } else {
        serialized(entries.drop_last()) + seq!['\\'] + entries.last().0 + seq!['\\']
            + entries.last().1
    }
}

/// The information a client sends about its player: key-value pairs, each key once.
pub struct UserInfo {
    entries: Vec<(String, String)>,
}

impl UserInfo {
    /// The pairs, in the order they are sent.
    pub closed spec fn view(&self) -> Seq<(Seq<char>, Seq<char>)> {
        self.entries@.map_values(|e: (String, String)| (e.0@, e.1@))
    }

    /// No pairs.
    pub fn new() -> (r: UserInfo)
        ensures
            r@ == Seq::<(Seq<char>, Seq<char>)>::empty(),
    {
        let r = UserInfo { entries: Vec::new() };
        assert(r@ =~= Seq::<(Seq<char>, Seq<char>)>::empty());
        r
    }

    /// The text that is sent for these pairs.
    pub fn serialize(&self) -> (r: String)
        ensures
            r@ == serialized(self@),
    {
        let mut out: Vec<char> = Vec::new();
        let mut i: usize = 0;
        while i < self.entries.len()
            invariant
                i <= self.entries.len(),
                out@ == serialized(self@.take(i as int)),
            decreases self.entries.len() - i,
        {
            let k = chars_of(self.entries[i].0.as_str());
            let v = chars_of(self.entries[i].1.as_str());
            out.push('\\');
            crate::wire::push_all(&mut out, k.as_slice());
            out.push('\\');
            crate::wire::push_all(&mut out, v.as_slice());
            proof {
                let t = self@.take(i + 1);
                assert(t.drop_last() =~= self@.take(i as int));
                assert(t.last() == self@[i as int]);
            }
            i = i + 1;
        }
        assert(self@.take(self.entries.len() as int) =~= self@);
        string_from_chars(out.as_slice())
    }
}

impl Default for UserInfo {
    /// The pairs of a new player: its name, colors, rate and message level.
    fn default() -> (r: UserInfo)
        ensures
            r@ == seq![
                ("name"@, "unnamed"@),
                ("topcolor"@, "0"@),
                ("bottomcolor"@, "0"@),
                ("rate"@, "2500"@),
                ("msg"@, "1"@),
            ],
    {
        let mut entries: Vec<(String, String)> = Vec::new();
        entries.push(("name".to_owned(), "unnamed".to_owned()));
        entries.push(("topcolor".to_owned(), "0".to_owned()));
        entries.push(("bottomcolor".to_owned(), "0".to_owned()));
        entries.push(("rate".to_owned(), "2500".to_owned()));
        entries.push(("msg".to_owned(), "1".to_owned()));
        let r = UserInfo { entries };
        assert(r@ =~= seq![
            ("name"@, "unnamed"@),
            ("topcolor"@, "0"@),
            ("bottomcolor"@, "0"@),
            ("rate"@, "2500"@),
            ("msg"@, "1"@),
        ]);
        r
    }
}

} // verus!
