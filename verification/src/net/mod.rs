//! The game's network protocol: message codes, flags and the commands that server and client
//! exchange.
//!
//! Quantities that the engine handles as floating-point numbers travel as small integers: a
//! coordinate as an `i16` in eighths of a unit, an angle as an `i8` in 256ths of a turn, a time
//! as the bits of an `f32`. Commands here hold those wire values exactly.

pub mod buffer;
pub mod cmd;
pub mod codec;
pub mod decode;
pub mod laws;
pub mod packet;

use vstd::prelude::*;

verus! {

/// The largest reliable message, in bytes.
pub const MAX_MESSAGE: usize = 8192;

/// The largest unreliable datagram payload, in bytes.
pub const MAX_DATAGRAM: usize = 1024;

/// The size of a packet header, in bytes.
pub const HEADER_SIZE: usize = 8;

/// The largest packet, in bytes.
pub const MAX_PACKET: usize = 1032;

/// The version of the protocol.
pub const PROTOCOL_VERSION: u8 = 15;

/// The largest number of clients on a server.
pub const MAX_CLIENTS: usize = 16;

/// The number of item slots.
pub const MAX_ITEMS: usize = 32;

/// The bit of a command code that marks a fast entity update.
pub const FAST_UPDATE_FLAG: u8 = 0x80;

/// An error in reading or writing network data.
#[derive(Debug)]
pub enum NetError {
    /// The data ended before the message did.
    Io,
    /// The data holds a value that the protocol does not allow.
    InvalidData(String),
    /// Any other failure.
    Other(String),
}

impl NetError {
    /// An error of kind `Other` with the given message.
    pub fn with_msg(msg: &str) -> (r: NetError)
        ensures
            r matches NetError::Other(m) && m@ == msg@,
    {
        NetError::Other(msg.to_owned())
    }
}

/// Formats a message that names a value, for an error.
#[verifier::external_body]
pub(crate) fn describe(what: &str, value: u32) -> String {
    format!("{}: {}", what, value)
}

/// Formats a message that shows a value in binary after its name, for an error.
#[verifier::external_body]
pub(crate) fn describe_bits(what: &str, value: u32) -> String {
    format!("{}: {:b}", what, value)
}

/// Formats a message that shows a value between two texts, for an error.
#[verifier::external_body]
pub(crate) fn describe_between(before: &str, value: u32, after: &str) -> String {
    format!("{}{}{}", before, value, after)
}

/// Formats a message that names two values that should have been equal, for an error.
#[verifier::external_body]
pub(crate) fn describe_mismatch(what: &str, left: u32, right: usize) -> String {
    format!("{} ({} != {})", what, left, right)
}

/// The kind of a packet.
///
/// The Quake engine treats these as bit flags, but all of them are mutually exclusive except
/// for the reliable and end-of-message bits.
#[derive(Clone, Copy, Debug, PartialEq, Eq, Structural)]
pub enum MsgKind {
    Reliable,
    Ack,
    ReliableEom,
    Unreliable,
    Ctl,
}

impl MsgKind {
    /// The code of a packet kind on the wire.
    pub open spec fn spec_code(self) -> u16 {
        match self {
            MsgKind::Reliable => 0x0001,
            MsgKind::Ack => 0x0002,
            MsgKind::ReliableEom => 0x0009,
            MsgKind::Unreliable => 0x0010,
            MsgKind::Ctl => 0x8000,
        }
    }

    /// The code of this packet kind on the wire.
    pub fn code(self) -> (r: u16)
        ensures
            r == self.spec_code(),
    {
        match self {
            MsgKind::Reliable => 0x0001,
            MsgKind::Ack => 0x0002,
            MsgKind::ReliableEom => 0x0009,
            MsgKind::Unreliable => 0x0010,
            MsgKind::Ctl => 0x8000,
        }
    }

    /// The packet kind with the given code, if there is one.
    pub fn from_u16(v: u16) -> (r: Option<MsgKind>)
        ensures
            forall|k: MsgKind| k.spec_code() == v <==> r == Some(k),
    {
        match v {
            0x0001 => Some(MsgKind::Reliable),
            0x0002 => Some(MsgKind::Ack),
            0x0009 => Some(MsgKind::ReliableEom),
            0x0010 => Some(MsgKind::Unreliable),
            0x8000 => Some(MsgKind::Ctl),
            _ => None,
        }
    }
}

/// The flags of a fast entity update.
#[derive(Clone, Copy, Debug, PartialEq, Eq, Structural)]
pub struct UpdateFlags {
    bits: u16,
}

impl UpdateFlags {
    /// The bits that carry a defined flag.
    pub open spec fn spec_all() -> u16 {
        0x7fffu16
    }

    /// The raw bits of these flags.
    pub closed spec fn spec_bits(self) -> u16 {
        self.bits
    }

    /// Whether only defined flags are set.
    pub open spec fn wf(self) -> bool {
        self.spec_bits() & !Self::spec_all() == 0
    }

    /// The flags with exactly the given bits.
    pub closed spec fn spec_from_bits(bits: u16) -> Self {
        UpdateFlags { bits }
    }

    /// Building flags from bits and taking their bits are inverse.
    pub proof fn lemma_bits(self, bits: u16)
        ensures
            Self::spec_from_bits(bits).spec_bits() == bits,
            Self::spec_from_bits(self.spec_bits()) == self,
    {
    }

    /// The empty set of flags.
    pub fn empty() -> (r: Self)
        ensures
            r == Self::spec_from_bits(0),
    {
        UpdateFlags { bits: 0 }
    }

    /// The flags with the given bits, or `None` if a bit is set that carries no flag.
    pub fn from_bits(bits: u16) -> (r: Option<Self>)
        ensures
            r == if bits & !Self::spec_all() == 0 {
                Some(Self::spec_from_bits(bits))
            } else {
                None
            },
    {
        if bits & !0x7fffu16 == 0 {
            Some(UpdateFlags { bits })
        } else {
            None
        }
    }

    /// The raw bits of these flags.
    pub fn bits(&self) -> (r: u16)
        ensures
            r == self.spec_bits(),
    {
        self.bits
    }

    /// Whether every bit of `mask` is set.
    pub fn contains(&self, mask: u16) -> (r: bool)
        ensures
            r == (self.spec_bits() & mask == mask),
    {
        self.bits & mask == mask
    }
}

/// The `more_bits` bit of [`UpdateFlags`].
pub const UPDATE_FLAGS_MORE_BITS: u16 = 1u16;

/// The `origin_x` bit of [`UpdateFlags`].
pub const UPDATE_FLAGS_ORIGIN_X: u16 = 2u16;

/// The `origin_y` bit of [`UpdateFlags`].
pub const UPDATE_FLAGS_ORIGIN_Y: u16 = 4u16;

/// The `origin_z` bit of [`UpdateFlags`].
pub const UPDATE_FLAGS_ORIGIN_Z: u16 = 8u16;

/// The `yaw` bit of [`UpdateFlags`].
pub const UPDATE_FLAGS_YAW: u16 = 16u16;

/// The `no_lerp` bit of [`UpdateFlags`].
pub const UPDATE_FLAGS_NO_LERP: u16 = 32u16;

/// The `frame` bit of [`UpdateFlags`].
pub const UPDATE_FLAGS_FRAME: u16 = 64u16;

/// The `signal` bit of [`UpdateFlags`].
pub const UPDATE_FLAGS_SIGNAL: u16 = 128u16;

/// The `pitch` bit of [`UpdateFlags`].
pub const UPDATE_FLAGS_PITCH: u16 = 256u16;

/// The `roll` bit of [`UpdateFlags`].
pub const UPDATE_FLAGS_ROLL: u16 = 512u16;

/// The `model` bit of [`UpdateFlags`].
pub const UPDATE_FLAGS_MODEL: u16 = 1024u16;

/// The `colormap` bit of [`UpdateFlags`].
pub const UPDATE_FLAGS_COLORMAP: u16 = 2048u16;

/// The `skin` bit of [`UpdateFlags`].
pub const UPDATE_FLAGS_SKIN: u16 = 4096u16;

/// The `effects` bit of [`UpdateFlags`].
pub const UPDATE_FLAGS_EFFECTS: u16 = 8192u16;

/// The `long_entity` bit of [`UpdateFlags`].
pub const UPDATE_FLAGS_LONG_ENTITY: u16 = 16384u16;

/// The flags of a player data update.
#[derive(Clone, Copy, Debug, PartialEq, Eq, Structural)]
pub struct ClientUpdateFlags {
    bits: u16,
}

impl ClientUpdateFlags {
    /// The bits that carry a defined flag.
    pub open spec fn spec_all() -> u16 {
        0x7effu16
    }

    /// The raw bits of these flags.
    pub closed spec fn spec_bits(self) -> u16 {
        self.bits
    }

    /// Whether only defined flags are set.
    pub open spec fn wf(self) -> bool {
        self.spec_bits() & !Self::spec_all() == 0
    }

    /// The flags with exactly the given bits.
    pub closed spec fn spec_from_bits(bits: u16) -> Self {
        ClientUpdateFlags { bits }
    }

    /// Building flags from bits and taking their bits are inverse.
    pub proof fn lemma_bits(self, bits: u16)
        ensures
            Self::spec_from_bits(bits).spec_bits() == bits,
            Self::spec_from_bits(self.spec_bits()) == self,
    {
    }

    /// The empty set of flags.
    pub fn empty() -> (r: Self)
        ensures
            r == Self::spec_from_bits(0),
    {
        ClientUpdateFlags { bits: 0 }
    }

    /// The flags with the given bits, or `None` if a bit is set that carries no flag.
    pub fn from_bits(bits: u16) -> (r: Option<Self>)
        ensures
            r == if bits & !Self::spec_all() == 0 {
                Some(Self::spec_from_bits(bits))
            } else {
                None
            },
    {
        if bits & !0x7effu16 == 0 {
            Some(ClientUpdateFlags { bits })
        } else {
            None
        }
    }

    /// The raw bits of these flags.
    pub fn bits(&self) -> (r: u16)
        ensures
            r == self.spec_bits(),
    {
        self.bits
    }

    /// Whether every bit of `mask` is set.
    pub fn contains(&self, mask: u16) -> (r: bool)
        ensures
            r == (self.spec_bits() & mask == mask),
    {
        self.bits & mask == mask
    }
}

/// The `view_height` bit of [`ClientUpdateFlags`].
pub const CLIENT_UPDATE_FLAGS_VIEW_HEIGHT: u16 = 1u16;

/// The `ideal_pitch` bit of [`ClientUpdateFlags`].
pub const CLIENT_UPDATE_FLAGS_IDEAL_PITCH: u16 = 2u16;

/// The `punch_pitch` bit of [`ClientUpdateFlags`].
pub const CLIENT_UPDATE_FLAGS_PUNCH_PITCH: u16 = 4u16;

/// The `punch_yaw` bit of [`ClientUpdateFlags`].
pub const CLIENT_UPDATE_FLAGS_PUNCH_YAW: u16 = 8u16;

/// The `punch_roll` bit of [`ClientUpdateFlags`].
pub const CLIENT_UPDATE_FLAGS_PUNCH_ROLL: u16 = 16u16;

/// The `velocity_x` bit of [`ClientUpdateFlags`].
pub const CLIENT_UPDATE_FLAGS_VELOCITY_X: u16 = 32u16;

/// The `velocity_y` bit of [`ClientUpdateFlags`].
pub const CLIENT_UPDATE_FLAGS_VELOCITY_Y: u16 = 64u16;

/// The `velocity_z` bit of [`ClientUpdateFlags`].
pub const CLIENT_UPDATE_FLAGS_VELOCITY_Z: u16 = 128u16;

/// The `items` bit of [`ClientUpdateFlags`].
pub const CLIENT_UPDATE_FLAGS_ITEMS: u16 = 512u16;

/// The `on_ground` bit of [`ClientUpdateFlags`].
pub const CLIENT_UPDATE_FLAGS_ON_GROUND: u16 = 1024u16;

/// The `in_water` bit of [`ClientUpdateFlags`].
pub const CLIENT_UPDATE_FLAGS_IN_WATER: u16 = 2048u16;

/// The `weapon_frame` bit of [`ClientUpdateFlags`].
pub const CLIENT_UPDATE_FLAGS_WEAPON_FRAME: u16 = 4096u16;

/// The `armor` bit of [`ClientUpdateFlags`].
pub const CLIENT_UPDATE_FLAGS_ARMOR: u16 = 8192u16;

/// The `weapon` bit of [`ClientUpdateFlags`].
pub const CLIENT_UPDATE_FLAGS_WEAPON: u16 = 16384u16;

/// The flags of a sound command.
#[derive(Clone, Copy, Debug, PartialEq, Eq, Structural)]
pub struct SoundFlags {
    bits: u8,
}

impl SoundFlags {
    /// The bits that carry a defined flag.
    pub open spec fn spec_all() -> u8 {
        0x07u8
    }

    /// The raw bits of these flags.
    pub closed spec fn spec_bits(self) -> u8 {
        self.bits
    }

    /// Whether only defined flags are set.
    pub open spec fn wf(self) -> bool {
        self.spec_bits() & !Self::spec_all() == 0
    }

    /// The flags with exactly the given bits.
    pub closed spec fn spec_from_bits(bits: u8) -> Self {
        SoundFlags { bits }
    }

    /// Building flags from bits and taking their bits are inverse.
    pub proof fn lemma_bits(self, bits: u8)
        ensures
            Self::spec_from_bits(bits).spec_bits() == bits,
            Self::spec_from_bits(self.spec_bits()) == self,
    {
    }

    /// The empty set of flags.
    pub fn empty() -> (r: Self)
        ensures
            r == Self::spec_from_bits(0),
    {
        SoundFlags { bits: 0 }
    }

    /// The flags with the given bits, or `None` if a bit is set that carries no flag.
    pub fn from_bits(bits: u8) -> (r: Option<Self>)
        ensures
            r == if bits & !Self::spec_all() == 0 {
                Some(Self::spec_from_bits(bits))
            } else {
                None
            },
    {
        if bits & !0x07u8 == 0 {
            Some(SoundFlags { bits })
        } else {
            None
        }
    }

    /// The raw bits of these flags.
    pub fn bits(&self) -> (r: u8)
        ensures
            r == self.spec_bits(),
    {
        self.bits
    }

    /// Whether every bit of `mask` is set.
    pub fn contains(&self, mask: u8) -> (r: bool)
        ensures
            r == (self.spec_bits() & mask == mask),
    {
        self.bits & mask == mask
    }
}

/// The `volume` bit of [`SoundFlags`].
pub const SOUND_FLAGS_VOLUME: u8 = 1u8;

/// The `attenuation` bit of [`SoundFlags`].
pub const SOUND_FLAGS_ATTENUATION: u8 = 2u8;

/// The `looping` bit of [`SoundFlags`].
pub const SOUND_FLAGS_LOOPING: u8 = 4u8;

/// The items that a player holds.
#[derive(Clone, Copy, Debug, PartialEq, Eq, Structural)]
pub struct ItemFlags {
    bits: u32,
}

impl ItemFlags {
    /// The bits that carry a defined flag.
    pub open spec fn spec_all() -> u32 {
        0xf07f_ffffu32
    }

    /// The raw bits of these flags.
    pub closed spec fn spec_bits(self) -> u32 {
        self.bits
    }

    /// Whether only defined flags are set.
    pub open spec fn wf(self) -> bool {
        self.spec_bits() & !Self::spec_all() == 0
    }

    /// The flags with exactly the given bits.
    pub closed spec fn spec_from_bits(bits: u32) -> Self {
        ItemFlags { bits }
    }

    /// Building flags from bits and taking their bits are inverse.
    pub proof fn lemma_bits(self, bits: u32)
        ensures
            Self::spec_from_bits(bits).spec_bits() == bits,
            Self::spec_from_bits(self.spec_bits()) == self,
    {
    }

    /// The empty set of flags.
    pub fn empty() -> (r: Self)
        ensures
            r == Self::spec_from_bits(0),
    {
        ItemFlags { bits: 0 }
    }

    /// The flags with the given bits, or `None` if a bit is set that carries no flag.
    pub fn from_bits(bits: u32) -> (r: Option<Self>)
        ensures
            r == if bits & !Self::spec_all() == 0 {
                Some(Self::spec_from_bits(bits))
            } else {
                None
            },
    {
        if bits & !0xf07f_ffffu32 == 0 {
            Some(ItemFlags { bits })
        } else {
            None
        }
    }

    /// The raw bits of these flags.
    pub fn bits(&self) -> (r: u32)
        ensures
            r == self.spec_bits(),
    {
        self.bits
    }

    /// Whether every bit of `mask` is set.
    pub fn contains(&self, mask: u32) -> (r: bool)
        ensures
            r == (self.spec_bits() & mask == mask),
    {
        self.bits & mask == mask
    }
}

/// The buttons that a player holds down.
#[derive(Clone, Copy, Debug, PartialEq, Eq, Structural)]
pub struct ButtonFlags {
    bits: u8,
}

impl ButtonFlags {
    /// The bits that carry a defined flag.
    pub open spec fn spec_all() -> u8 {
        0x03u8
    }

    /// The raw bits of these flags.
    pub closed spec fn spec_bits(self) -> u8 {
        self.bits
    }

    /// Whether only defined flags are set.
    pub open spec fn wf(self) -> bool {
        self.spec_bits() & !Self::spec_all() == 0
    }

    /// The flags with exactly the given bits.
    pub closed spec fn spec_from_bits(bits: u8) -> Self {
        ButtonFlags { bits }
    }

    /// Building flags from bits and taking their bits are inverse.
    pub proof fn lemma_bits(self, bits: u8)
        ensures
            Self::spec_from_bits(bits).spec_bits() == bits,
            Self::spec_from_bits(self.spec_bits()) == self,
    {
    }

    /// The empty set of flags.
    pub fn empty() -> (r: Self)
        ensures
            r == Self::spec_from_bits(0),
    {
        ButtonFlags { bits: 0 }
    }

    /// The flags with the given bits, or `None` if a bit is set that carries no flag.
    pub fn from_bits(bits: u8) -> (r: Option<Self>)
        ensures
            r == if bits & !Self::spec_all() == 0 {
                Some(Self::spec_from_bits(bits))
            } else {
                None
            },
    {
        if bits & !0x03u8 == 0 {
            Some(ButtonFlags { bits })
        } else {
            None
        }
    }

    /// The raw bits of these flags.
    pub fn bits(&self) -> (r: u8)
        ensures
            r == self.spec_bits(),
    {
        self.bits
    }

    /// Whether every bit of `mask` is set.
    pub fn contains(&self, mask: u8) -> (r: bool)
        ensures
            r == (self.spec_bits() & mask == mask),
    {
        self.bits & mask == mask
    }
}

/// The `attack` bit of [`ButtonFlags`].
pub const BUTTON_FLAGS_ATTACK: u8 = 1u8;

/// The `jump` bit of [`ButtonFlags`].
pub const BUTTON_FLAGS_JUMP: u8 = 2u8;

/// The visual effects of an entity.
#[derive(Clone, Copy, Debug, PartialEq, Eq, Structural)]
pub struct EntityEffects {
    bits: u8,
}

impl EntityEffects {
    /// The bits that carry a defined flag.
    pub open spec fn spec_all() -> u8 {
        0x0fu8
    }

    /// The raw bits of these flags.
    pub closed spec fn spec_bits(self) -> u8 {
        self.bits
    }

    /// Whether only defined flags are set.
    pub open spec fn wf(self) -> bool {
        self.spec_bits() & !Self::spec_all() == 0
    }

    /// The flags with exactly the given bits.
    pub closed spec fn spec_from_bits(bits: u8) -> Self {
        EntityEffects { bits }
    }

    /// Building flags from bits and taking their bits are inverse.
    pub proof fn lemma_bits(self, bits: u8)
        ensures
            Self::spec_from_bits(bits).spec_bits() == bits,
            Self::spec_from_bits(self.spec_bits()) == self,
    {
    }

    /// The empty set of flags.
    pub fn empty() -> (r: Self)
        ensures
            r == Self::spec_from_bits(0),
    {
        EntityEffects { bits: 0 }
    }

    /// The flags with the given bits, or `None` if a bit is set that carries no flag.
    pub fn from_bits(bits: u8) -> (r: Option<Self>)
        ensures
            r == if bits & !Self::spec_all() == 0 {
                Some(Self::spec_from_bits(bits))
            } else {
                None
            },
    {
        if bits & !0x0fu8 == 0 {
            Some(EntityEffects { bits })
        } else {
            None
        }
    }

    /// The raw bits of these flags.
    pub fn bits(&self) -> (r: u8)
        ensures
            r == self.spec_bits(),
    {
        self.bits
    }

    /// Whether every bit of `mask` is set.
    pub fn contains(&self, mask: u8) -> (r: bool)
        ensures
            r == (self.spec_bits() & mask == mask),
    {
        self.bits & mask == mask
    }
}

/// The `bright_field` bit of [`EntityEffects`].
pub const ENTITY_EFFECTS_BRIGHT_FIELD: u8 = 1u8;

/// The `muzzle_flash` bit of [`EntityEffects`].
pub const ENTITY_EFFECTS_MUZZLE_FLASH: u8 = 2u8;

/// The `bright_light` bit of [`EntityEffects`].
pub const ENTITY_EFFECTS_BRIGHT_LIGHT: u8 = 4u8;

/// The `dim_light` bit of [`EntityEffects`].
pub const ENTITY_EFFECTS_DIM_LIGHT: u8 = 8u8;

/// The colors of a player's shirt and pants, as indices into the palette's color ranges.
#[derive(Clone, Copy, Debug, PartialEq, Eq, Structural)]
pub struct PlayerColor {
    top: u8,
    bottom: u8,
}

impl PlayerColor {
    /// The top color index.
    pub closed spec fn spec_top(self) -> u8 {
        self.top
    }

    /// The bottom color index.
    pub closed spec fn spec_bottom(self) -> u8 {
        self.bottom
    }

    /// The color byte that encodes a top and a bottom index: the top index in the high nibble
    /// and the bottom index in the low nibble.
    pub open spec fn spec_bits(self) -> u8 {
        ((self.spec_top() << 4u8) | (self.spec_bottom() & 0x0fu8)) as u8
    }

    /// The player color with the given indices.
    pub closed spec fn spec_new(top: u8, bottom: u8) -> PlayerColor {
        PlayerColor { top, bottom }
    }

    /// The indices of a color built from indices are those indices.
    pub proof fn lemma_new(self, top: u8, bottom: u8)
        ensures
            Self::spec_new(top, bottom).spec_top() == top,
            Self::spec_new(top, bottom).spec_bottom() == bottom,
            Self::spec_new(self.spec_top(), self.spec_bottom()) == self,
    {
    }

    /// A player color with the given indices.
    ///
    /// Indices above 15 are kept, but they do not survive encoding: only four bits of each go
    /// on the wire.
    pub fn new(top: u8, bottom: u8) -> (r: PlayerColor)
        ensures
            r == Self::spec_new(top, bottom),
    {
        PlayerColor { top, bottom }
    }

    /// Decodes a color byte: the top index is the high nibble, the bottom index the low one.
    pub fn from_bits(bits: u8) -> (r: PlayerColor)
        ensures
            r == Self::spec_new(bits >> 4u8, bits & 0x0fu8),
    {
        let top = bits >> 4;
        let bottom = bits & 0x0F;
        PlayerColor { top, bottom }
    }

    /// Encodes this color as a byte.
    pub fn bits(&self) -> (r: u8)
        ensures
            r == self.spec_bits(),
    {
        self.top << 4 | (self.bottom & 0x0F)
    }

    /// The top color index.
    pub fn top(&self) -> (r: u8)
        ensures
            r == self.spec_top(),
    {
        self.top
    }

    /// The bottom color index.
    pub fn bottom(&self) -> (r: u8)
        ensures
            r == self.spec_bottom(),
    {
        self.bottom
    }
}

/// A shift of the screen's colors toward a color.
#[derive(Clone, Copy, Debug)]
pub struct ColorShift {
    pub dest_color: [u8; 3],
    pub percent: i32,
}

/// A statistic of the client's player.
#[derive(Clone, Copy, Debug, PartialEq, Eq, Structural)]
pub enum ClientStat {
    Health,
    Frags,
    Weapon,
    Ammo,
    Armor,
    WeaponFrame,
    Shells,
    Nails,
    Rockets,
    Cells,
    ActiveWeapon,
    TotalSecrets,
    TotalMonsters,
    FoundSecrets,
    KilledMonsters,
}

impl ClientStat {
    /// The number of a statistic on the wire.
    pub open spec fn spec_code(self) -> u8 {
        match self {
            ClientStat::Health => 0,
            ClientStat::Frags => 1,
            ClientStat::Weapon => 2,
            ClientStat::Ammo => 3,
            ClientStat::Armor => 4,
            ClientStat::WeaponFrame => 5,
            ClientStat::Shells => 6,
            ClientStat::Nails => 7,
            ClientStat::Rockets => 8,
            ClientStat::Cells => 9,
            ClientStat::ActiveWeapon => 10,
            ClientStat::TotalSecrets => 11,
            ClientStat::TotalMonsters => 12,
            ClientStat::FoundSecrets => 13,
            ClientStat::KilledMonsters => 14,
        }
    }

    /// The statistic with the given number, if there is one.
    pub open spec fn spec_from_u8(v: u8) -> Option<ClientStat> {
        match v {
            0 => Some(ClientStat::Health),
            1 => Some(ClientStat::Frags),
            2 => Some(ClientStat::Weapon),
            3 => Some(ClientStat::Ammo),
            4 => Some(ClientStat::Armor),
            5 => Some(ClientStat::WeaponFrame),
            6 => Some(ClientStat::Shells),
            7 => Some(ClientStat::Nails),
            8 => Some(ClientStat::Rockets),
            9 => Some(ClientStat::Cells),
            10 => Some(ClientStat::ActiveWeapon),
            11 => Some(ClientStat::TotalSecrets),
            12 => Some(ClientStat::TotalMonsters),
            13 => Some(ClientStat::FoundSecrets),
            14 => Some(ClientStat::KilledMonsters),
            _ => None,
        }
    }

    /// The number of this statistic on the wire.
    pub fn code(self) -> (r: u8)
        ensures
            r == self.spec_code(),
    {
        match self {
            ClientStat::Health => 0,
            ClientStat::Frags => 1,
            ClientStat::Weapon => 2,
            ClientStat::Ammo => 3,
            ClientStat::Armor => 4,
            ClientStat::WeaponFrame => 5,
            ClientStat::Shells => 6,
            ClientStat::Nails => 7,
            ClientStat::Rockets => 8,
            ClientStat::Cells => 9,
            ClientStat::ActiveWeapon => 10,
            ClientStat::TotalSecrets => 11,
            ClientStat::TotalMonsters => 12,
            ClientStat::FoundSecrets => 13,
            ClientStat::KilledMonsters => 14,
        }
    }

    /// The statistic with the given number, if there is one.
    pub fn from_u8(v: u8) -> (r: Option<ClientStat>)
        ensures
            r == Self::spec_from_u8(v),
    {
        match v {
            0 => Some(ClientStat::Health),
            1 => Some(ClientStat::Frags),
            2 => Some(ClientStat::Weapon),
            3 => Some(ClientStat::Ammo),
            4 => Some(ClientStat::Armor),
            5 => Some(ClientStat::WeaponFrame),
            6 => Some(ClientStat::Shells),
            7 => Some(ClientStat::Nails),
            8 => Some(ClientStat::Rockets),
            9 => Some(ClientStat::Cells),
            10 => Some(ClientStat::ActiveWeapon),
            11 => Some(ClientStat::TotalSecrets),
            12 => Some(ClientStat::TotalMonsters),
            13 => Some(ClientStat::FoundSecrets),
            14 => Some(ClientStat::KilledMonsters),
            _ => None,
        }
    }

    /// Decoding the number of a statistic gives the statistic back.
    pub proof fn lemma_code_roundtrip(self)
        ensures
            Self::spec_from_u8(self.spec_code()) == Some(self),
    {
    }
}

/// The stage of a client's sign-on to a server.
#[derive(Clone, Copy, Debug, PartialEq, Eq, Structural, PartialOrd, Ord)]
pub enum SignOnStage {
    Not,
    Prespawn,
    ClientInfo,
    Begin,
    Done,
}

impl SignOnStage {
    /// The number of a sign-on stage on the wire.
    pub open spec fn spec_code(self) -> u8 {
        match self {
            SignOnStage::Not => 0,
            SignOnStage::Prespawn => 1,
            SignOnStage::ClientInfo => 2,
            SignOnStage::Begin => 3,
            SignOnStage::Done => 4,
        }
    }

    /// The stage with the given number, if there is one.
    pub open spec fn spec_from_u8(v: u8) -> Option<SignOnStage> {
        match v {
            0 => Some(SignOnStage::Not),
            1 => Some(SignOnStage::Prespawn),
            2 => Some(SignOnStage::ClientInfo),
            3 => Some(SignOnStage::Begin),
            4 => Some(SignOnStage::Done),
            _ => None,
        }
    }

    /// The number of this stage on the wire.
    pub fn code(self) -> (r: u8)
        ensures
            r == self.spec_code(),
    {
        match self {
            SignOnStage::Not => 0,
            SignOnStage::Prespawn => 1,
            SignOnStage::ClientInfo => 2,
            SignOnStage::Begin => 3,
            SignOnStage::Done => 4,
        }
    }

    /// The stage with the given number, if there is one.
    pub fn from_u8(v: u8) -> (r: Option<SignOnStage>)
        ensures
            r == Self::spec_from_u8(v),
    {
        match v {
            0 => Some(SignOnStage::Not),
            1 => Some(SignOnStage::Prespawn),
            2 => Some(SignOnStage::ClientInfo),
            3 => Some(SignOnStage::Begin),
            4 => Some(SignOnStage::Done),
            _ => None,
        }
    }
}

/// The kind of game a server runs.
#[derive(Clone, Copy, Debug, PartialEq, Eq, Structural)]
pub enum GameType {
    CoOp,
    Deathmatch,
}

impl GameType {
    /// The number of a game type on the wire.
    pub open spec fn spec_code(self) -> u8 {
        match self {
            GameType::CoOp => 0,
            GameType::Deathmatch => 1,
        }
    }

    /// The game type with the given number, if there is one.
    pub open spec fn spec_from_u8(v: u8) -> Option<GameType> {
        match v {
            0 => Some(GameType::CoOp),
            1 => Some(GameType::Deathmatch),
            _ => None,
        }
    }

    /// The number of this game type on the wire.
    pub fn code(self) -> (r: u8)
        ensures
            r == self.spec_code(),
    {
        match self {
            GameType::CoOp => 0,
            GameType::Deathmatch => 1,
        }
    }

    /// The game type with the given number, if there is one.
    pub fn from_u8(v: u8) -> (r: Option<GameType>)
        ensures
            r == Self::spec_from_u8(v),
    {
        match v {
            0 => Some(GameType::CoOp),
            1 => Some(GameType::Deathmatch),
            _ => None,
        }
    }
}

/// The code that identifies the kind of a temporary entity.
#[derive(Clone, Copy, Debug, PartialEq, Eq, Structural)]
pub enum TempEntityCode {
    Spike,
    SuperSpike,
    Gunshot,
    Explosion,
    TarExplosion,
    Lightning1,
    Lightning2,
    WizSpike,
    KnightSpike,
    Lightning3,
    LavaSplash,
    Teleport,
    ColorExplosion,
    Grapple,
}

impl TempEntityCode {
    /// The number of a temporary entity code on the wire.
    pub open spec fn spec_code(self) -> u8 {
        match self {
            TempEntityCode::Spike => 0,
            TempEntityCode::SuperSpike => 1,
            TempEntityCode::Gunshot => 2,
            TempEntityCode::Explosion => 3,
            TempEntityCode::TarExplosion => 4,
            TempEntityCode::Lightning1 => 5,
            TempEntityCode::Lightning2 => 6,
            TempEntityCode::WizSpike => 7,
            TempEntityCode::KnightSpike => 8,
            TempEntityCode::Lightning3 => 9,
            TempEntityCode::LavaSplash => 10,
            TempEntityCode::Teleport => 11,
            TempEntityCode::ColorExplosion => 12,
            TempEntityCode::Grapple => 13,
        }
    }

    /// The code with the given number, if there is one.
    pub open spec fn spec_from_u8(v: u8) -> Option<TempEntityCode> {
        match v {
            0 => Some(TempEntityCode::Spike),
            1 => Some(TempEntityCode::SuperSpike),
            2 => Some(TempEntityCode::Gunshot),
            3 => Some(TempEntityCode::Explosion),
            4 => Some(TempEntityCode::TarExplosion),
            5 => Some(TempEntityCode::Lightning1),
            6 => Some(TempEntityCode::Lightning2),
            7 => Some(TempEntityCode::WizSpike),
            8 => Some(TempEntityCode::KnightSpike),
            9 => Some(TempEntityCode::Lightning3),
            10 => Some(TempEntityCode::LavaSplash),
            11 => Some(TempEntityCode::Teleport),
            12 => Some(TempEntityCode::ColorExplosion),
            13 => Some(TempEntityCode::Grapple),
            _ => None,
        }
    }

    /// The number of this code on the wire.
    pub fn code(self) -> (r: u8)
        ensures
            r == self.spec_code(),
    {
        match self {
            TempEntityCode::Spike => 0,
            TempEntityCode::SuperSpike => 1,
            TempEntityCode::Gunshot => 2,
            TempEntityCode::Explosion => 3,
            TempEntityCode::TarExplosion => 4,
            TempEntityCode::Lightning1 => 5,
            TempEntityCode::Lightning2 => 6,
            TempEntityCode::WizSpike => 7,
            TempEntityCode::KnightSpike => 8,
            TempEntityCode::Lightning3 => 9,
            TempEntityCode::LavaSplash => 10,
            TempEntityCode::Teleport => 11,
            TempEntityCode::ColorExplosion => 12,
            TempEntityCode::Grapple => 13,
        }
    }

    /// The code with the given number, if there is one.
    pub fn from_u8(v: u8) -> (r: Option<TempEntityCode>)
        ensures
            r == Self::spec_from_u8(v),
    {
        match v {
            0 => Some(TempEntityCode::Spike),
            1 => Some(TempEntityCode::SuperSpike),
            2 => Some(TempEntityCode::Gunshot),
            3 => Some(TempEntityCode::Explosion),
            4 => Some(TempEntityCode::TarExplosion),
            5 => Some(TempEntityCode::Lightning1),
            6 => Some(TempEntityCode::Lightning2),
            7 => Some(TempEntityCode::WizSpike),
            8 => Some(TempEntityCode::KnightSpike),
            9 => Some(TempEntityCode::Lightning3),
            10 => Some(TempEntityCode::LavaSplash),
            11 => Some(TempEntityCode::Teleport),
            12 => Some(TempEntityCode::ColorExplosion),
            13 => Some(TempEntityCode::Grapple),
            _ => None,
        }
    }
}

/// A temporary entity shown at one point.
#[derive(Clone, Copy, Debug, PartialEq, Eq, Structural)]
pub enum PointEntityKind {
    Spike,
    SuperSpike,
    Gunshot,
    Explosion,
    ColorExplosion { color_start: u8, color_len: u8 },
    TarExplosion,
    WizSpike,
    KnightSpike,
    LavaSplash,
    Teleport,
}

/// A temporary entity drawn between two points.
#[derive(Clone, Copy, Debug, PartialEq, Eq, Structural)]
pub enum BeamEntityKind {
    /// A lightning bolt; the model must be 1, 2 or 3.
    Lightning { model_id: u8 },
    /// A grappling hook's cable.
    Grapple,
}

/// A point in the world, in eighths of a unit along each axis.
pub type Coords = [i16; 3];

/// A rotation, in 256ths of a turn about each axis.
pub type Angles = [i8; 3];

/// A short-lived visual effect.
#[derive(Clone, Copy, Debug, PartialEq, Eq)]
pub enum TempEntity {
    Point { kind: PointEntityKind, origin: Coords },
    Beam { kind: BeamEntityKind, entity_id: i16, start: Coords, end: Coords },
}

/// The numeric codes of server commands.
#[derive(Clone, Copy, Debug, PartialEq, Eq, Structural)]
pub enum ServerCmdCode {
    Bad,
    NoOp,
    Disconnect,
    UpdateStat,
    Version,
    SetView,
    Sound,
    Time,
    Print,
    StuffText,
    SetAngle,
    ServerInfo,
    LightStyle,
    UpdateName,
    UpdateFrags,
    PlayerData,
    StopSound,
    UpdateColors,
    Particle,
    Damage,
    SpawnStatic,
    SpawnBaseline,
    TempEntity,
    SetPause,
    SignOnStage,
    CenterPrint,
    KilledMonster,
    FoundSecret,
    SpawnStaticSound,
    Intermission,
    Finale,
    CdTrack,
    SellScreen,
    Cutscene,
}

/// The numeric codes of client commands.
#[derive(Clone, Copy, Debug, PartialEq, Eq, Structural)]
pub enum ClientCmdCode {
    Bad,
    NoOp,
    Disconnect,
    Move,
    StringCmd,
}

/// The changes to an entity that a fast update carries; absent fields keep their baseline.
#[derive(Clone, Copy, Debug, PartialEq, Eq)]
pub struct EntityUpdate {
    pub ent_id: u16,
    pub model_id: Option<u8>,
    pub frame_id: Option<u8>,
    pub colormap: Option<u8>,
    pub skin_id: Option<u8>,
    pub effects: Option<EntityEffects>,
    pub origin_x: Option<i16>,
    pub pitch: Option<i8>,
    pub origin_y: Option<i16>,
    pub yaw: Option<i8>,
    pub origin_z: Option<i16>,
    pub roll: Option<i8>,
    pub no_lerp: bool,
}

/// The state of the client's own player.
///
/// The view height and the punch angles are whole units and degrees; the velocities are in
/// sixteens of a unit per second.
#[derive(Clone, Copy, Debug, PartialEq, Eq)]
pub struct PlayerData {
    pub view_height: Option<i8>,
    pub ideal_pitch: Option<i8>,
    pub punch_pitch: Option<i8>,
    pub velocity_x: Option<i8>,
    pub punch_yaw: Option<i8>,
    pub velocity_y: Option<i8>,
    pub punch_roll: Option<i8>,
    pub velocity_z: Option<i8>,
    pub items: ItemFlags,
    pub on_ground: bool,
    pub in_water: bool,
    pub weapon_frame: Option<u8>,
    pub armor: Option<u8>,
    pub weapon: Option<u8>,
    pub health: i16,
    pub ammo: u8,
    pub ammo_shells: u8,
    pub ammo_nails: u8,
    pub ammo_rockets: u8,
    pub ammo_cells: u8,
    pub active_weapon: u8,
}

/// A command from the server to a client, with text of type `S` and lists of names of type `L`.
#[derive(Debug, PartialEq)]
#[allow(inconsistent_fields)]
pub enum ServerCmdOf<S, L> {
    Bad,
    NoOp,
    Disconnect,
    UpdateStat { stat: ClientStat, value: i32 },
    Version { version: i32 },
    SetView { ent_id: i16 },
    /// A sound; the attenuation is in 64ths, the channel is the low three bits.
    Sound {
        volume: Option<u8>,
        attenuation: Option<u8>,
        entity_id: u16,
        channel: i8,
        sound_id: u8,
        position: Coords,
    },
    /// The server's time, as the bits of an `f32` number of seconds.
    Time { time: u32 },
    Print { text: S },
    StuffText { text: S },
    SetAngle { angles: Angles },
    ServerInfo {
        protocol_version: i32,
        max_clients: u8,
        game_type: GameType,
        message: S,
        model_precache: L,
        sound_precache: L,
    },
    LightStyle { id: u8, value: S },
    UpdateName { player_id: u8, new_name: S },
    UpdateFrags { player_id: u8, new_frags: i16 },
    PlayerData(PlayerData),
    StopSound { entity_id: u16, channel: u8 },
    UpdateColors { player_id: u8, new_colors: PlayerColor },
    /// A burst of particles; the direction is in sixteenths.
    Particle { origin: Coords, direction: Angles, count: u8, color: u8 },
    Damage { armor: u8, blood: u8, source: Coords },
    SpawnStatic {
        model_id: u8,
        frame_id: u8,
        colormap: u8,
        skin_id: u8,
        origin: Coords,
        angles: Angles,
    },
    SpawnBaseline {
        ent_id: u16,
        model_id: u8,
        frame_id: u8,
        colormap: u8,
        skin_id: u8,
        origin: Coords,
        angles: Angles,
    },
    TempEntity { temp_entity: TempEntity },
    SetPause { paused: bool },
    SignOnStage { stage: SignOnStage },
    CenterPrint { text: S },
    KilledMonster,
    FoundSecret,
    SpawnStaticSound { origin: Coords, sound_id: u8, volume: u8, attenuation: u8 },
    Intermission,
    Finale { text: S },
    CdTrack { track: u8, loop_: u8 },
    SellScreen,
    Cutscene { text: S },
    FastUpdate(EntityUpdate),
}

/// A command from the server to a client.
pub type ServerCmd = ServerCmdOf<String, Vec<String>>;

/// The mathematical value of a server command: its text as character sequences.
pub type ServerCmdView = ServerCmdOf<Seq<char>, Seq<Seq<char>>>;

/// A command from a client to the server, with text of type `S`.
#[derive(Debug, PartialEq)]
pub enum ClientCmdOf<S> {
    Bad,
    NoOp,
    Disconnect,
    /// A move; the send time is the bits of an `f32` number of seconds.
    Move {
        send_time: u32,
        angles: Angles,
        fwd_move: i16,
        side_move: i16,
        up_move: i16,
        button_flags: ButtonFlags,
        impulse: u8,
    },
    StringCmd { cmd: S },
}

/// A command from a client to the server.
pub type ClientCmd = ClientCmdOf<String>;

/// The mathematical value of a client command.
pub type ClientCmdView = ClientCmdOf<Seq<char>>;

} // verus!
