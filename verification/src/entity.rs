//! Entities: the fields that every entity has, by address, how entities move, and the list of
//! entities of a running program.
//!
//! Entity fields hold floating-point values, which are kept outside this library; what is here
//! is the map between addresses and fields, and the memory of the fields as four-byte words.

use vstd::prelude::*;
use crate::progs::{EntityFieldAddr, EntityId, FieldDef, ProgsError};
use crate::wire::{read_u32_le, seq_u32_le, u32_le_bytes, write_u32_le};

verus! {

/// The first address of the fields that a program defines for itself.
pub const ADDR_DYNAMIC_START: usize = 105;

/// The number of fields that every entity has.
pub const STATIC_ADDRESS_COUNT: usize = 105;

/// The address of a float field that every entity has.
#[derive(Copy, Clone, Debug, PartialEq, Eq, Structural)]
pub enum FieldAddrFloat {
    ModelIndex,
    AbsMinX,
    AbsMinY,
    AbsMinZ,
    AbsMaxX,
    AbsMaxY,
    AbsMaxZ,
    LocalTime,
    MoveType,
    Solid,
    OriginX,
    OriginY,
    OriginZ,
    OldOriginX,
    OldOriginY,
    OldOriginZ,
    VelocityX,
    VelocityY,
    VelocityZ,
    AnglesX,
    AnglesY,
    AnglesZ,
    AngularVelocityX,
    AngularVelocityY,
    AngularVelocityZ,
    PunchAngleX,
    PunchAngleY,
    PunchAngleZ,
    FrameId,
    SkinId,
    Effects,
    MinsX,
    MinsY,
    MinsZ,
    MaxsX,
    MaxsY,
    MaxsZ,
    SizeX,
    SizeY,
    SizeZ,
    NextThink,
    Health,
    Frags,
    Weapon,
    WeaponFrame,
    CurrentAmmo,
    AmmoShells,
    AmmoNails,
    AmmoRockets,
    AmmoCells,
    Items,
    TakeDamage,
    DeadFlag,
    ViewOffsetX,
    ViewOffsetY,
    ViewOffsetZ,
    Button0,
    Button1,
    Button2,
    Impulse,
    FixAngle,
    ViewAngleX,
    ViewAngleY,
    ViewAngleZ,
    IdealPitch,
    Flags,
    Colormap,
    Team,
    MaxHealth,
    TeleportTime,
    ArmorStrength,
    ArmorValue,
    WaterLevel,
    Contents,
    IdealYaw,
    YawSpeed,
    SpawnFlags,
    DmgTake,
    DmgSave,
    MoveDirectionX,
    MoveDirectionY,
    MoveDirectionZ,
    Sounds,
}

impl FieldAddrFloat {
    /// The number of this value.
    pub open spec fn spec_addr(self) -> usize {
        match self {
            FieldAddrFloat::ModelIndex => 0,
            FieldAddrFloat::AbsMinX => 1,
            FieldAddrFloat::AbsMinY => 2,
            FieldAddrFloat::AbsMinZ => 3,
            FieldAddrFloat::AbsMaxX => 4,
            FieldAddrFloat::AbsMaxY => 5,
            FieldAddrFloat::AbsMaxZ => 6,
            FieldAddrFloat::LocalTime => 7,
            FieldAddrFloat::MoveType => 8,
            FieldAddrFloat::Solid => 9,
            FieldAddrFloat::OriginX => 10,
            FieldAddrFloat::OriginY => 11,
            FieldAddrFloat::OriginZ => 12,
            FieldAddrFloat::OldOriginX => 13,
            FieldAddrFloat::OldOriginY => 14,
            FieldAddrFloat::OldOriginZ => 15,
            FieldAddrFloat::VelocityX => 16,
            FieldAddrFloat::VelocityY => 17,
            FieldAddrFloat::VelocityZ => 18,
            FieldAddrFloat::AnglesX => 19,
            FieldAddrFloat::AnglesY => 20,
            FieldAddrFloat::AnglesZ => 21,
            FieldAddrFloat::AngularVelocityX => 22,
            FieldAddrFloat::AngularVelocityY => 23,
            FieldAddrFloat::AngularVelocityZ => 24,
            FieldAddrFloat::PunchAngleX => 25,
            FieldAddrFloat::PunchAngleY => 26,
            FieldAddrFloat::PunchAngleZ => 27,
            FieldAddrFloat::FrameId => 30,
            FieldAddrFloat::SkinId => 31,
            FieldAddrFloat::Effects => 32,
            FieldAddrFloat::MinsX => 33,
            FieldAddrFloat::MinsY => 34,
            FieldAddrFloat::MinsZ => 35,
            FieldAddrFloat::MaxsX => 36,
            FieldAddrFloat::MaxsY => 37,
            FieldAddrFloat::MaxsZ => 38,
            FieldAddrFloat::SizeX => 39,
            FieldAddrFloat::SizeY => 40,
            FieldAddrFloat::SizeZ => 41,
            FieldAddrFloat::NextThink => 46,
            FieldAddrFloat::Health => 48,
            FieldAddrFloat::Frags => 49,
            FieldAddrFloat::Weapon => 50,
            FieldAddrFloat::WeaponFrame => 52,
            FieldAddrFloat::CurrentAmmo => 53,
            FieldAddrFloat::AmmoShells => 54,
            FieldAddrFloat::AmmoNails => 55,
            FieldAddrFloat::AmmoRockets => 56,
            FieldAddrFloat::AmmoCells => 57,
            FieldAddrFloat::Items => 58,
            FieldAddrFloat::TakeDamage => 59,
            FieldAddrFloat::DeadFlag => 61,
            FieldAddrFloat::ViewOffsetX => 62,
            FieldAddrFloat::ViewOffsetY => 63,
            FieldAddrFloat::ViewOffsetZ => 64,
            FieldAddrFloat::Button0 => 65,
            FieldAddrFloat::Button1 => 66,
            FieldAddrFloat::Button2 => 67,
            FieldAddrFloat::Impulse => 68,
            FieldAddrFloat::FixAngle => 69,
            FieldAddrFloat::ViewAngleX => 70,
            FieldAddrFloat::ViewAngleY => 71,
            FieldAddrFloat::ViewAngleZ => 72,
            FieldAddrFloat::IdealPitch => 73,
            FieldAddrFloat::Flags => 76,
            FieldAddrFloat::Colormap => 77,
            FieldAddrFloat::Team => 78,
            FieldAddrFloat::MaxHealth => 79,
            FieldAddrFloat::TeleportTime => 80,
            FieldAddrFloat::ArmorStrength => 81,
            FieldAddrFloat::ArmorValue => 82,
            FieldAddrFloat::WaterLevel => 83,
            FieldAddrFloat::Contents => 84,
            FieldAddrFloat::IdealYaw => 85,
            FieldAddrFloat::YawSpeed => 86,
            FieldAddrFloat::SpawnFlags => 89,
            FieldAddrFloat::DmgTake => 92,
            FieldAddrFloat::DmgSave => 93,
            FieldAddrFloat::MoveDirectionX => 96,
            FieldAddrFloat::MoveDirectionY => 97,
            FieldAddrFloat::MoveDirectionZ => 98,
            FieldAddrFloat::Sounds => 100,
        }
    }

    /// The value with the given number, if there is one.
    pub open spec fn spec_from_usize(v: usize) -> Option<FieldAddrFloat> {
        match v {
            0 => Some(FieldAddrFloat::ModelIndex),
            1 => Some(FieldAddrFloat::AbsMinX),
            2 => Some(FieldAddrFloat::AbsMinY),
            3 => Some(FieldAddrFloat::AbsMinZ),
            4 => Some(FieldAddrFloat::AbsMaxX),
            5 => Some(FieldAddrFloat::AbsMaxY),
            6 => Some(FieldAddrFloat::AbsMaxZ),
            7 => Some(FieldAddrFloat::LocalTime),
            8 => Some(FieldAddrFloat::MoveType),
            9 => Some(FieldAddrFloat::Solid),
            10 => Some(FieldAddrFloat::OriginX),
            11 => Some(FieldAddrFloat::OriginY),
            12 => Some(FieldAddrFloat::OriginZ),
            13 => Some(FieldAddrFloat::OldOriginX),
            14 => Some(FieldAddrFloat::OldOriginY),
            15 => Some(FieldAddrFloat::OldOriginZ),
            16 => Some(FieldAddrFloat::VelocityX),
            17 => Some(FieldAddrFloat::VelocityY),
            18 => Some(FieldAddrFloat::VelocityZ),
            19 => Some(FieldAddrFloat::AnglesX),
            20 => Some(FieldAddrFloat::AnglesY),
            21 => Some(FieldAddrFloat::AnglesZ),
            22 => Some(FieldAddrFloat::AngularVelocityX),
            23 => Some(FieldAddrFloat::AngularVelocityY),
            24 => Some(FieldAddrFloat::AngularVelocityZ),
            25 => Some(FieldAddrFloat::PunchAngleX),
            26 => Some(FieldAddrFloat::PunchAngleY),
            27 => Some(FieldAddrFloat::PunchAngleZ),
            30 => Some(FieldAddrFloat::FrameId),
            31 => Some(FieldAddrFloat::SkinId),
            32 => Some(FieldAddrFloat::Effects),
            33 => Some(FieldAddrFloat::MinsX),
            34 => Some(FieldAddrFloat::MinsY),
            35 => Some(FieldAddrFloat::MinsZ),
            36 => Some(FieldAddrFloat::MaxsX),
            37 => Some(FieldAddrFloat::MaxsY),
            38 => Some(FieldAddrFloat::MaxsZ),
            39 => Some(FieldAddrFloat::SizeX),
            40 => Some(FieldAddrFloat::SizeY),
            41 => Some(FieldAddrFloat::SizeZ),
            46 => Some(FieldAddrFloat::NextThink),
            48 => Some(FieldAddrFloat::Health),
            49 => Some(FieldAddrFloat::Frags),
            50 => Some(FieldAddrFloat::Weapon),
            52 => Some(FieldAddrFloat::WeaponFrame),
            53 => Some(FieldAddrFloat::CurrentAmmo),
            54 => Some(FieldAddrFloat::AmmoShells),
            55 => Some(FieldAddrFloat::AmmoNails),
            56 => Some(FieldAddrFloat::AmmoRockets),
            57 => Some(FieldAddrFloat::AmmoCells),
            58 => Some(FieldAddrFloat::Items),
            59 => Some(FieldAddrFloat::TakeDamage),
            61 => Some(FieldAddrFloat::DeadFlag),
            62 => Some(FieldAddrFloat::ViewOffsetX),
            63 => Some(FieldAddrFloat::ViewOffsetY),
            64 => Some(FieldAddrFloat::ViewOffsetZ),
            65 => Some(FieldAddrFloat::Button0),
            66 => Some(FieldAddrFloat::Button1),
            67 => Some(FieldAddrFloat::Button2),
            68 => Some(FieldAddrFloat::Impulse),
            69 => Some(FieldAddrFloat::FixAngle),
            70 => Some(FieldAddrFloat::ViewAngleX),
            71 => Some(FieldAddrFloat::ViewAngleY),
            72 => Some(FieldAddrFloat::ViewAngleZ),
            73 => Some(FieldAddrFloat::IdealPitch),
            76 => Some(FieldAddrFloat::Flags),
            77 => Some(FieldAddrFloat::Colormap),
            78 => Some(FieldAddrFloat::Team),
            79 => Some(FieldAddrFloat::MaxHealth),
            80 => Some(FieldAddrFloat::TeleportTime),
            81 => Some(FieldAddrFloat::ArmorStrength),
            82 => Some(FieldAddrFloat::ArmorValue),
            83 => Some(FieldAddrFloat::WaterLevel),
            84 => Some(FieldAddrFloat::Contents),
            85 => Some(FieldAddrFloat::IdealYaw),
            86 => Some(FieldAddrFloat::YawSpeed),
            89 => Some(FieldAddrFloat::SpawnFlags),
            92 => Some(FieldAddrFloat::DmgTake),
            93 => Some(FieldAddrFloat::DmgSave),
            96 => Some(FieldAddrFloat::MoveDirectionX),
            97 => Some(FieldAddrFloat::MoveDirectionY),
            98 => Some(FieldAddrFloat::MoveDirectionZ),
            100 => Some(FieldAddrFloat::Sounds),
            _ => None,
        }
    }

    /// The number of this value.
    pub fn addr(self) -> (r: usize)
        ensures
            r == self.spec_addr(),
    {
        match self {
            FieldAddrFloat::ModelIndex => 0,
            FieldAddrFloat::AbsMinX => 1,
            FieldAddrFloat::AbsMinY => 2,
            FieldAddrFloat::AbsMinZ => 3,
            FieldAddrFloat::AbsMaxX => 4,
            FieldAddrFloat::AbsMaxY => 5,
            FieldAddrFloat::AbsMaxZ => 6,
            FieldAddrFloat::LocalTime => 7,
            FieldAddrFloat::MoveType => 8,
            FieldAddrFloat::Solid => 9,
            FieldAddrFloat::OriginX => 10,
            FieldAddrFloat::OriginY => 11,
            FieldAddrFloat::OriginZ => 12,
            FieldAddrFloat::OldOriginX => 13,
            FieldAddrFloat::OldOriginY => 14,
            FieldAddrFloat::OldOriginZ => 15,
            FieldAddrFloat::VelocityX => 16,
            FieldAddrFloat::VelocityY => 17,
            FieldAddrFloat::VelocityZ => 18,
            FieldAddrFloat::AnglesX => 19,
            FieldAddrFloat::AnglesY => 20,
            FieldAddrFloat::AnglesZ => 21,
            FieldAddrFloat::AngularVelocityX => 22,
            FieldAddrFloat::AngularVelocityY => 23,
            FieldAddrFloat::AngularVelocityZ => 24,
            FieldAddrFloat::PunchAngleX => 25,
            FieldAddrFloat::PunchAngleY => 26,
            FieldAddrFloat::PunchAngleZ => 27,
            FieldAddrFloat::FrameId => 30,
            FieldAddrFloat::SkinId => 31,
            FieldAddrFloat::Effects => 32,
            FieldAddrFloat::MinsX => 33,
            FieldAddrFloat::MinsY => 34,
            FieldAddrFloat::MinsZ => 35,
            FieldAddrFloat::MaxsX => 36,
            FieldAddrFloat::MaxsY => 37,
            FieldAddrFloat::MaxsZ => 38,
            FieldAddrFloat::SizeX => 39,
            FieldAddrFloat::SizeY => 40,
            FieldAddrFloat::SizeZ => 41,
            FieldAddrFloat::NextThink => 46,
            FieldAddrFloat::Health => 48,
            FieldAddrFloat::Frags => 49,
            FieldAddrFloat::Weapon => 50,
            FieldAddrFloat::WeaponFrame => 52,
            FieldAddrFloat::CurrentAmmo => 53,
            FieldAddrFloat::AmmoShells => 54,
            FieldAddrFloat::AmmoNails => 55,
            FieldAddrFloat::AmmoRockets => 56,
            FieldAddrFloat::AmmoCells => 57,
            FieldAddrFloat::Items => 58,
            FieldAddrFloat::TakeDamage => 59,
            FieldAddrFloat::DeadFlag => 61,
            FieldAddrFloat::ViewOffsetX => 62,
            FieldAddrFloat::ViewOffsetY => 63,
            FieldAddrFloat::ViewOffsetZ => 64,
            FieldAddrFloat::Button0 => 65,
            FieldAddrFloat::Button1 => 66,
            FieldAddrFloat::Button2 => 67,
            FieldAddrFloat::Impulse => 68,
            FieldAddrFloat::FixAngle => 69,
            FieldAddrFloat::ViewAngleX => 70,
            FieldAddrFloat::ViewAngleY => 71,
            FieldAddrFloat::ViewAngleZ => 72,
            FieldAddrFloat::IdealPitch => 73,
            FieldAddrFloat::Flags => 76,
            FieldAddrFloat::Colormap => 77,
            FieldAddrFloat::Team => 78,
            FieldAddrFloat::MaxHealth => 79,
            FieldAddrFloat::TeleportTime => 80,
            FieldAddrFloat::ArmorStrength => 81,
            FieldAddrFloat::ArmorValue => 82,
            FieldAddrFloat::WaterLevel => 83,
            FieldAddrFloat::Contents => 84,
            FieldAddrFloat::IdealYaw => 85,
            FieldAddrFloat::YawSpeed => 86,
            FieldAddrFloat::SpawnFlags => 89,
            FieldAddrFloat::DmgTake => 92,
            FieldAddrFloat::DmgSave => 93,
            FieldAddrFloat::MoveDirectionX => 96,
            FieldAddrFloat::MoveDirectionY => 97,
            FieldAddrFloat::MoveDirectionZ => 98,
            FieldAddrFloat::Sounds => 100,
        }
    }

    /// The value with the given number, if there is one.
    pub fn from_usize(v: usize) -> (r: Option<FieldAddrFloat>)
        ensures
            r == Self::spec_from_usize(v),
    {
        match v {
            0 => Some(FieldAddrFloat::ModelIndex),
            1 => Some(FieldAddrFloat::AbsMinX),
            2 => Some(FieldAddrFloat::AbsMinY),
            3 => Some(FieldAddrFloat::AbsMinZ),
            4 => Some(FieldAddrFloat::AbsMaxX),
            5 => Some(FieldAddrFloat::AbsMaxY),
            6 => Some(FieldAddrFloat::AbsMaxZ),
            7 => Some(FieldAddrFloat::LocalTime),
            8 => Some(FieldAddrFloat::MoveType),
            9 => Some(FieldAddrFloat::Solid),
            10 => Some(FieldAddrFloat::OriginX),
            11 => Some(FieldAddrFloat::OriginY),
            12 => Some(FieldAddrFloat::OriginZ),
            13 => Some(FieldAddrFloat::OldOriginX),
            14 => Some(FieldAddrFloat::OldOriginY),
            15 => Some(FieldAddrFloat::OldOriginZ),
            16 => Some(FieldAddrFloat::VelocityX),
            17 => Some(FieldAddrFloat::VelocityY),
            18 => Some(FieldAddrFloat::VelocityZ),
            19 => Some(FieldAddrFloat::AnglesX),
            20 => Some(FieldAddrFloat::AnglesY),
            21 => Some(FieldAddrFloat::AnglesZ),
            22 => Some(FieldAddrFloat::AngularVelocityX),
            23 => Some(FieldAddrFloat::AngularVelocityY),
            24 => Some(FieldAddrFloat::AngularVelocityZ),
            25 => Some(FieldAddrFloat::PunchAngleX),
            26 => Some(FieldAddrFloat::PunchAngleY),
            27 => Some(FieldAddrFloat::PunchAngleZ),
            30 => Some(FieldAddrFloat::FrameId),
            31 => Some(FieldAddrFloat::SkinId),
            32 => Some(FieldAddrFloat::Effects),
            33 => Some(FieldAddrFloat::MinsX),
            34 => Some(FieldAddrFloat::MinsY),
            35 => Some(FieldAddrFloat::MinsZ),
            36 => Some(FieldAddrFloat::MaxsX),
            37 => Some(FieldAddrFloat::MaxsY),
            38 => Some(FieldAddrFloat::MaxsZ),
            39 => Some(FieldAddrFloat::SizeX),
            40 => Some(FieldAddrFloat::SizeY),
            41 => Some(FieldAddrFloat::SizeZ),
            46 => Some(FieldAddrFloat::NextThink),
            48 => Some(FieldAddrFloat::Health),
            49 => Some(FieldAddrFloat::Frags),
            50 => Some(FieldAddrFloat::Weapon),
            52 => Some(FieldAddrFloat::WeaponFrame),
            53 => Some(FieldAddrFloat::CurrentAmmo),
            54 => Some(FieldAddrFloat::AmmoShells),
            55 => Some(FieldAddrFloat::AmmoNails),
            56 => Some(FieldAddrFloat::AmmoRockets),
            57 => Some(FieldAddrFloat::AmmoCells),
            58 => Some(FieldAddrFloat::Items),
            59 => Some(FieldAddrFloat::TakeDamage),
            61 => Some(FieldAddrFloat::DeadFlag),
            62 => Some(FieldAddrFloat::ViewOffsetX),
            63 => Some(FieldAddrFloat::ViewOffsetY),
            64 => Some(FieldAddrFloat::ViewOffsetZ),
            65 => Some(FieldAddrFloat::Button0),
            66 => Some(FieldAddrFloat::Button1),
            67 => Some(FieldAddrFloat::Button2),
            68 => Some(FieldAddrFloat::Impulse),
            69 => Some(FieldAddrFloat::FixAngle),
            70 => Some(FieldAddrFloat::ViewAngleX),
            71 => Some(FieldAddrFloat::ViewAngleY),
            72 => Some(FieldAddrFloat::ViewAngleZ),
            73 => Some(FieldAddrFloat::IdealPitch),
            76 => Some(FieldAddrFloat::Flags),
            77 => Some(FieldAddrFloat::Colormap),
            78 => Some(FieldAddrFloat::Team),
            79 => Some(FieldAddrFloat::MaxHealth),
            80 => Some(FieldAddrFloat::TeleportTime),
            81 => Some(FieldAddrFloat::ArmorStrength),
            82 => Some(FieldAddrFloat::ArmorValue),
            83 => Some(FieldAddrFloat::WaterLevel),
            84 => Some(FieldAddrFloat::Contents),
            85 => Some(FieldAddrFloat::IdealYaw),
            86 => Some(FieldAddrFloat::YawSpeed),
            89 => Some(FieldAddrFloat::SpawnFlags),
            92 => Some(FieldAddrFloat::DmgTake),
            93 => Some(FieldAddrFloat::DmgSave),
            96 => Some(FieldAddrFloat::MoveDirectionX),
            97 => Some(FieldAddrFloat::MoveDirectionY),
            98 => Some(FieldAddrFloat::MoveDirectionZ),
            100 => Some(FieldAddrFloat::Sounds),
            _ => None,
        }
    }

    /// Reading the number of a value gives the value back.
    pub proof fn lemma_addr_roundtrip(self)
        ensures
            Self::spec_from_usize(self.spec_addr()) == Some(self),
    {
    }
}

/// The address of the first component of a vector field that every entity has.
#[derive(Copy, Clone, Debug, PartialEq, Eq, Structural)]
pub enum FieldAddrVector {
    AbsMin,
    AbsMax,
    Origin,
    OldOrigin,
    Velocity,
    Angles,
    AngularVelocity,
    PunchAngle,
    Mins,
    Maxs,
    Size,
    ViewOffset,
    ViewAngle,
    MoveDirection,
}

impl FieldAddrVector {
    /// The number of this value.
    pub open spec fn spec_addr(self) -> usize {
        match self {
            FieldAddrVector::AbsMin => 1,
            FieldAddrVector::AbsMax => 4,
            FieldAddrVector::Origin => 10,
            FieldAddrVector::OldOrigin => 13,
            FieldAddrVector::Velocity => 16,
            FieldAddrVector::Angles => 19,
            FieldAddrVector::AngularVelocity => 22,
            FieldAddrVector::PunchAngle => 25,
            FieldAddrVector::Mins => 33,
            FieldAddrVector::Maxs => 36,
            FieldAddrVector::Size => 39,
            FieldAddrVector::ViewOffset => 62,
            FieldAddrVector::ViewAngle => 70,
            FieldAddrVector::MoveDirection => 96,
        }
    }

    /// The value with the given number, if there is one.
    pub open spec fn spec_from_usize(v: usize) -> Option<FieldAddrVector> {
        match v {
            1 => Some(FieldAddrVector::AbsMin),
            4 => Some(FieldAddrVector::AbsMax),
            10 => Some(FieldAddrVector::Origin),
            13 => Some(FieldAddrVector::OldOrigin),
            16 => Some(FieldAddrVector::Velocity),
            19 => Some(FieldAddrVector::Angles),
            22 => Some(FieldAddrVector::AngularVelocity),
            25 => Some(FieldAddrVector::PunchAngle),
            33 => Some(FieldAddrVector::Mins),
            36 => Some(FieldAddrVector::Maxs),
            39 => Some(FieldAddrVector::Size),
            62 => Some(FieldAddrVector::ViewOffset),
            70 => Some(FieldAddrVector::ViewAngle),
            96 => Some(FieldAddrVector::MoveDirection),
            _ => None,
        }
    }

    /// The number of this value.
    pub fn addr(self) -> (r: usize)
        ensures
            r == self.spec_addr(),
    {
        match self {
            FieldAddrVector::AbsMin => 1,
            FieldAddrVector::AbsMax => 4,
            FieldAddrVector::Origin => 10,
            FieldAddrVector::OldOrigin => 13,
            FieldAddrVector::Velocity => 16,
            FieldAddrVector::Angles => 19,
            FieldAddrVector::AngularVelocity => 22,
            FieldAddrVector::PunchAngle => 25,
            FieldAddrVector::Mins => 33,
            FieldAddrVector::Maxs => 36,
            FieldAddrVector::Size => 39,
            FieldAddrVector::ViewOffset => 62,
            FieldAddrVector::ViewAngle => 70,
            FieldAddrVector::MoveDirection => 96,
        }
    }

    /// The value with the given number, if there is one.
    pub fn from_usize(v: usize) -> (r: Option<FieldAddrVector>)
        ensures
            r == Self::spec_from_usize(v),
    {
        match v {
            1 => Some(FieldAddrVector::AbsMin),
            4 => Some(FieldAddrVector::AbsMax),
            10 => Some(FieldAddrVector::Origin),
            13 => Some(FieldAddrVector::OldOrigin),
            16 => Some(FieldAddrVector::Velocity),
            19 => Some(FieldAddrVector::Angles),
            22 => Some(FieldAddrVector::AngularVelocity),
            25 => Some(FieldAddrVector::PunchAngle),
            33 => Some(FieldAddrVector::Mins),
            36 => Some(FieldAddrVector::Maxs),
            39 => Some(FieldAddrVector::Size),
            62 => Some(FieldAddrVector::ViewOffset),
            70 => Some(FieldAddrVector::ViewAngle),
            96 => Some(FieldAddrVector::MoveDirection),
            _ => None,
        }
    }

    /// Reading the number of a value gives the value back.
    pub proof fn lemma_addr_roundtrip(self)
        ensures
            Self::spec_from_usize(self.spec_addr()) == Some(self),
    {
    }
}

/// The address of a string field that every entity has.
#[derive(Copy, Clone, Debug, PartialEq, Eq, Structural)]
pub enum FieldAddrStringId {
    ClassName,
    ModelName,
    WeaponModelName,
    NetName,
    Target,
    TargetName,
    Message,
    Noise0Name,
    Noise1Name,
    Noise2Name,
    Noise3Name,
}

impl FieldAddrStringId {
    /// The number of this value.
    pub open spec fn spec_addr(self) -> usize {
        match self {
            FieldAddrStringId::ClassName => 28,
            FieldAddrStringId::ModelName => 29,
            FieldAddrStringId::WeaponModelName => 51,
            FieldAddrStringId::NetName => 74,
            FieldAddrStringId::Target => 90,
            FieldAddrStringId::TargetName => 91,
            FieldAddrStringId::Message => 99,
            FieldAddrStringId::Noise0Name => 101,
            FieldAddrStringId::Noise1Name => 102,
            FieldAddrStringId::Noise2Name => 103,
            FieldAddrStringId::Noise3Name => 104,
        }
    }

    /// The value with the given number, if there is one.
    pub open spec fn spec_from_usize(v: usize) -> Option<FieldAddrStringId> {
        match v {
            28 => Some(FieldAddrStringId::ClassName),
            29 => Some(FieldAddrStringId::ModelName),
            51 => Some(FieldAddrStringId::WeaponModelName),
            74 => Some(FieldAddrStringId::NetName),
            90 => Some(FieldAddrStringId::Target),
            91 => Some(FieldAddrStringId::TargetName),
            99 => Some(FieldAddrStringId::Message),
            101 => Some(FieldAddrStringId::Noise0Name),
            102 => Some(FieldAddrStringId::Noise1Name),
            103 => Some(FieldAddrStringId::Noise2Name),
            104 => Some(FieldAddrStringId::Noise3Name),
            _ => None,
        }
    }

    /// The number of this value.
    pub fn addr(self) -> (r: usize)
        ensures
            r == self.spec_addr(),
    {
        match self {
            FieldAddrStringId::ClassName => 28,
            FieldAddrStringId::ModelName => 29,
            FieldAddrStringId::WeaponModelName => 51,
            FieldAddrStringId::NetName => 74,
            FieldAddrStringId::Target => 90,
            FieldAddrStringId::TargetName => 91,
            FieldAddrStringId::Message => 99,
            FieldAddrStringId::Noise0Name => 101,
            FieldAddrStringId::Noise1Name => 102,
            FieldAddrStringId::Noise2Name => 103,
            FieldAddrStringId::Noise3Name => 104,
        }
    }

    /// The value with the given number, if there is one.
    pub fn from_usize(v: usize) -> (r: Option<FieldAddrStringId>)
        ensures
            r == Self::spec_from_usize(v),
    {
        match v {
            28 => Some(FieldAddrStringId::ClassName),
            29 => Some(FieldAddrStringId::ModelName),
            51 => Some(FieldAddrStringId::WeaponModelName),
            74 => Some(FieldAddrStringId::NetName),
            90 => Some(FieldAddrStringId::Target),
            91 => Some(FieldAddrStringId::TargetName),
            99 => Some(FieldAddrStringId::Message),
            101 => Some(FieldAddrStringId::Noise0Name),
            102 => Some(FieldAddrStringId::Noise1Name),
            103 => Some(FieldAddrStringId::Noise2Name),
            104 => Some(FieldAddrStringId::Noise3Name),
            _ => None,
        }
    }

    /// Reading the number of a value gives the value back.
    pub proof fn lemma_addr_roundtrip(self)
        ensures
            Self::spec_from_usize(self.spec_addr()) == Some(self),
    {
    }
}

/// The address of an entity field that every entity has.
#[derive(Copy, Clone, Debug, PartialEq, Eq, Structural)]
pub enum FieldAddrEntityId {
    Ground,
    Chain,
    Enemy,
    Aim,
    Goal,
    DmgInflictor,
    Owner,
}

impl FieldAddrEntityId {
    /// The number of this value.
    pub open spec fn spec_addr(self) -> usize {
        match self {
            FieldAddrEntityId::Ground => 47,
            FieldAddrEntityId::Chain => 60,
            FieldAddrEntityId::Enemy => 75,
            FieldAddrEntityId::Aim => 87,
            FieldAddrEntityId::Goal => 88,
            FieldAddrEntityId::DmgInflictor => 94,
            FieldAddrEntityId::Owner => 95,
        }
    }

    /// The value with the given number, if there is one.
    pub open spec fn spec_from_usize(v: usize) -> Option<FieldAddrEntityId> {
        match v {
            47 => Some(FieldAddrEntityId::Ground),
            60 => Some(FieldAddrEntityId::Chain),
            75 => Some(FieldAddrEntityId::Enemy),
            87 => Some(FieldAddrEntityId::Aim),
            88 => Some(FieldAddrEntityId::Goal),
            94 => Some(FieldAddrEntityId::DmgInflictor),
            95 => Some(FieldAddrEntityId::Owner),
            _ => None,
        }
    }

    /// The number of this value.
    pub fn addr(self) -> (r: usize)
        ensures
            r == self.spec_addr(),
    {
        match self {
            FieldAddrEntityId::Ground => 47,
            FieldAddrEntityId::Chain => 60,
            FieldAddrEntityId::Enemy => 75,
            FieldAddrEntityId::Aim => 87,
            FieldAddrEntityId::Goal => 88,
            FieldAddrEntityId::DmgInflictor => 94,
            FieldAddrEntityId::Owner => 95,
        }
    }

    /// The value with the given number, if there is one.
    pub fn from_usize(v: usize) -> (r: Option<FieldAddrEntityId>)
        ensures
            r == Self::spec_from_usize(v),
    {
        match v {
            47 => Some(FieldAddrEntityId::Ground),
            60 => Some(FieldAddrEntityId::Chain),
            75 => Some(FieldAddrEntityId::Enemy),
            87 => Some(FieldAddrEntityId::Aim),
            88 => Some(FieldAddrEntityId::Goal),
            94 => Some(FieldAddrEntityId::DmgInflictor),
            95 => Some(FieldAddrEntityId::Owner),
            _ => None,
        }
    }

    /// Reading the number of a value gives the value back.
    pub proof fn lemma_addr_roundtrip(self)
        ensures
            Self::spec_from_usize(self.spec_addr()) == Some(self),
    {
    }
}

/// The address of a function field that every entity has.
#[derive(Copy, Clone, Debug, PartialEq, Eq, Structural)]
pub enum FieldAddrFunctionId {
    Touch,
    Use,
    Think,
    Blocked,
}

impl FieldAddrFunctionId {
    /// The number of this value.
    pub open spec fn spec_addr(self) -> usize {
        match self {
            FieldAddrFunctionId::Touch => 42,
            FieldAddrFunctionId::Use => 43,
            FieldAddrFunctionId::Think => 44,
            FieldAddrFunctionId::Blocked => 45,
        }
    }

    /// The value with the given number, if there is one.
    pub open spec fn spec_from_usize(v: usize) -> Option<FieldAddrFunctionId> {
        match v {
            42 => Some(FieldAddrFunctionId::Touch),
            43 => Some(FieldAddrFunctionId::Use),
            44 => Some(FieldAddrFunctionId::Think),
            45 => Some(FieldAddrFunctionId::Blocked),
            _ => None,
        }
    }

    /// The number of this value.
    pub fn addr(self) -> (r: usize)
        ensures
            r == self.spec_addr(),
    {
        match self {
            FieldAddrFunctionId::Touch => 42,
            FieldAddrFunctionId::Use => 43,
            FieldAddrFunctionId::Think => 44,
            FieldAddrFunctionId::Blocked => 45,
        }
    }

    /// The value with the given number, if there is one.
    pub fn from_usize(v: usize) -> (r: Option<FieldAddrFunctionId>)
        ensures
            r == Self::spec_from_usize(v),
    {
        match v {
            42 => Some(FieldAddrFunctionId::Touch),
            43 => Some(FieldAddrFunctionId::Use),
            44 => Some(FieldAddrFunctionId::Think),
            45 => Some(FieldAddrFunctionId::Blocked),
            _ => None,
        }
    }

    /// Reading the number of a value gives the value back.
    pub proof fn lemma_addr_roundtrip(self)
        ensures
            Self::spec_from_usize(self.spec_addr()) == Some(self),
    {
    }
}

/// How an entity moves.
#[derive(Copy, Clone, Debug, PartialEq, Eq, Structural)]
pub enum MoveType {
    None_,
    AngleNoClip,
    AngleClip,
    Walk,
    Step,
    Fly,
    Toss,
    Push,
    NoClip,
    FlyMissile,
    Bounce,
}

impl MoveType {
    /// The number of this value.
    pub open spec fn spec_code(self) -> u32 {
        match self {
            MoveType::None_ => 0,
            MoveType::AngleNoClip => 1,
            MoveType::AngleClip => 2,
            MoveType::Walk => 3,
            MoveType::Step => 4,
            MoveType::Fly => 5,
            MoveType::Toss => 6,
            MoveType::Push => 7,
            MoveType::NoClip => 8,
            MoveType::FlyMissile => 9,
            MoveType::Bounce => 10,
        }
    }

    /// The value with the given number, if there is one.
    pub open spec fn spec_from_u32(v: u32) -> Option<MoveType> {
        match v {
            0 => Some(MoveType::None_),
            1 => Some(MoveType::AngleNoClip),
            2 => Some(MoveType::AngleClip),
            3 => Some(MoveType::Walk),
            4 => Some(MoveType::Step),
            5 => Some(MoveType::Fly),
            6 => Some(MoveType::Toss),
            7 => Some(MoveType::Push),
            8 => Some(MoveType::NoClip),
            9 => Some(MoveType::FlyMissile),
            10 => Some(MoveType::Bounce),
            _ => None,
        }
    }

    /// The number of this value.
    pub fn code(self) -> (r: u32)
        ensures
            r == self.spec_code(),
    {
        match self {
            MoveType::None_ => 0,
            MoveType::AngleNoClip => 1,
            MoveType::AngleClip => 2,
            MoveType::Walk => 3,
            MoveType::Step => 4,
            MoveType::Fly => 5,
            MoveType::Toss => 6,
            MoveType::Push => 7,
            MoveType::NoClip => 8,
            MoveType::FlyMissile => 9,
            MoveType::Bounce => 10,
        }
    }

    /// The value with the given number, if there is one.
    pub fn from_u32(v: u32) -> (r: Option<MoveType>)
        ensures
            r == Self::spec_from_u32(v),
    {
        match v {
            0 => Some(MoveType::None_),
            1 => Some(MoveType::AngleNoClip),
            2 => Some(MoveType::AngleClip),
            3 => Some(MoveType::Walk),
            4 => Some(MoveType::Step),
            5 => Some(MoveType::Fly),
            6 => Some(MoveType::Toss),
            7 => Some(MoveType::Push),
            8 => Some(MoveType::NoClip),
            9 => Some(MoveType::FlyMissile),
            10 => Some(MoveType::Bounce),
            _ => None,
        }
    }

    /// Reading the number of a value gives the value back.
    pub proof fn lemma_code_roundtrip(self)
        ensures
            Self::spec_from_u32(self.spec_code()) == Some(self),
    {
    }
}

/// An error for an address that holds no float field.
pub fn float_addr(addr: usize) -> (r: Result<FieldAddrFloat, crate::progs::ProgsError>)
    ensures
        match FieldAddrFloat::spec_from_usize(addr) {
            Some(f) => r == Ok::<FieldAddrFloat, crate::progs::ProgsError>(f),
            None => r matches Err(crate::progs::ProgsError::Other(_)),
        },
{
    match FieldAddrFloat::from_usize(addr) {
        Some(f) => Ok(f),
        None => Err(crate::progs::ProgsError::Other(
            crate::net::describe("float_addr: invalid address", addr as u32),
        )),
    }
}

/// An error for an address that holds no vector field.
pub fn vector_addr(addr: usize) -> (r: Result<FieldAddrVector, crate::progs::ProgsError>)
    ensures
        match FieldAddrVector::spec_from_usize(addr) {
            Some(f) => r == Ok::<FieldAddrVector, crate::progs::ProgsError>(f),
            None => r matches Err(crate::progs::ProgsError::Other(_)),
        },
{
    match FieldAddrVector::from_usize(addr) {
        Some(f) => Ok(f),
        None => Err(crate::progs::ProgsError::Other(
            crate::net::describe("vector_addr: invalid address", addr as u32),
        )),
    }
}

} // verus!

verus! {

/// The largest number of entities.
pub const MAX_ENTITIES: usize = 600;

/// The largest number of leaves of the world that an entity can touch.
pub const MAX_ENT_LEAVES: usize = 16;

/// An entity: the leaves of the world that it touches, and the memory of its fields, a
/// four-byte word each: those that every entity has, and those that the program defines.
pub struct Entity {
    pub leaf_count: usize,
    pub leaf_ids: [u16; MAX_ENT_LEAVES],
    pub statics: Vec<[u8; 4]>,
    pub dynamics: Vec<[u8; 4]>,
}

impl Entity {
    /// What reading the float field at `addr` gives: an error past the last field and for a
    /// static address that holds no float field, and otherwise the bits of the word there.
    pub open spec fn float_read(&self, addr: int) -> Option<u32> {
        if addr >= ADDR_DYNAMIC_START + self.dynamics@.len() {
            None
        } else if addr < ADDR_DYNAMIC_START {
            if FieldAddrFloat::spec_from_usize(addr as usize) is Some {
                Some(seq_u32_le(self.statics@[addr]@))
            } else {
                None
            }
        } else {
            Some(seq_u32_le(self.dynamics@[addr - ADDR_DYNAMIC_START]@))
        }
    }

    /// The bits of the float field at `addr`, which must not be negative; an error past the
    /// last field and for a static address that holds no float field.
    ///
    /// Every float field is kept as the bits of its word; the fields that hold a time, a move
    /// type, effects or flags are converted from and to those bits by the caller.
    pub fn get_float_bits(&self, addr: i16) -> (r: Result<u32, ProgsError>)
        requires
            addr >= 0,
            self.statics@.len() == STATIC_ADDRESS_COUNT,
        ensures
            match self.float_read(addr as int) {
                Some(b) => r == Ok::<u32, ProgsError>(b),
                None => r matches Err(ProgsError::Other(_)),
            },
    {
        let a = addr as usize;
        if a < ADDR_DYNAMIC_START {
            match float_addr(a) {
                Ok(_) => Ok(read_u32_le(self.statics[a].as_slice())),
                Err(e) => Err(e),
            }
        } else if a - ADDR_DYNAMIC_START >= self.dynamics.len() {
            Err(ProgsError::Other(crate::net::describe("out-of-bounds offset", a as u32)))
        } else {
            Ok(read_u32_le(self.dynamics[a - ADDR_DYNAMIC_START].as_slice()))
        }
    }

    /// Stores `bits` in the float field at `addr`, which must not be negative; an error, and
    /// nothing changed, past the last field and for a static address that holds no float field.
    pub fn put_float_bits(&mut self, bits: u32, addr: i16) -> (r: Result<(), ProgsError>)
        requires
            addr >= 0,
            old(self).statics@.len() == STATIC_ADDRESS_COUNT,
        ensures
            final(self).leaf_count == old(self).leaf_count,
            final(self).leaf_ids == old(self).leaf_ids,
            old(self).float_read(addr as int) is None ==> (r matches Err(ProgsError::Other(_))
                && final(self).statics@ == old(self).statics@ && final(self).dynamics@ == old(self).dynamics@),
            old(self).float_read(addr as int) is Some ==> r is Ok && if addr < ADDR_DYNAMIC_START {
                &&& final(self).dynamics@ == old(self).dynamics@
                &&& final(self).statics@.len() == old(self).statics@.len()
                &&& final(self).statics@[addr as int]@ == u32_le_bytes(bits)
                &&& forall|i: int| 0 <= i < old(self).statics@.len() && i != addr ==> #[trigger] final(self).statics@[i] == old(self).statics@[i]
            } else {
                &&& final(self).statics@ == old(self).statics@
                &&& final(self).dynamics@.len() == old(self).dynamics@.len()
                &&& final(self).dynamics@[addr - ADDR_DYNAMIC_START]@ == u32_le_bytes(bits)
                &&& forall|i: int| 0 <= i < old(self).dynamics@.len() && i != addr - ADDR_DYNAMIC_START ==> #[trigger] final(self).dynamics@[i] == old(self).dynamics@[i]
            },
            final(self).float_read(addr as int) == if old(self).float_read(addr as int) is Some { Some(bits) } else { None::<u32> },
    {
        let a = addr as usize;
        let w = write_u32_le(bits);
        proof {
            crate::wire::lemma_u32_le_roundtrip(bits);
        }
        if a < ADDR_DYNAMIC_START {
            match float_addr(a) {
                Ok(_) => {
                    self.statics.set(a, w);
                    Ok(())
                },
                Err(e) => Err(e),
            }
        } else if a - ADDR_DYNAMIC_START >= self.dynamics.len() {
            Err(ProgsError::Other(crate::net::describe("out-of-bounds offset", a as u32)))
        } else {
            self.dynamics.set(a - ADDR_DYNAMIC_START, w);
            Ok(())
        }
    }
}

impl Entity {
    /// The bits of the three words from `i` of `words`.
    pub open spec fn words_at(words: Seq<[u8; 4]>, i: int) -> [u32; 3] {
        [seq_u32_le(words[i]@), seq_u32_le(words[i + 1]@), seq_u32_le(words[i + 2]@)]
    }

    /// What reading the vector field at `addr` gives: an error where its last component would
    /// lie past the last field and for a static address that holds no vector field, and
    /// otherwise the bits of its three words.
    pub open spec fn vector_read(&self, addr: int) -> Option<[u32; 3]> {
        if addr >= ADDR_DYNAMIC_START + self.dynamics@.len() - 2 {
            None
        } else if addr < ADDR_DYNAMIC_START {
            if FieldAddrVector::spec_from_usize(addr as usize) is Some {
                Some(Entity::words_at(self.statics@, addr))
            } else {
                None
            }
        } else {
            Some(Entity::words_at(self.dynamics@, addr - ADDR_DYNAMIC_START))
        }
    }

    /// The bits of the three components of the vector field at `addr`, which must not be
    /// negative; an error where its last component would lie past the last field and for a
    /// static address that holds no vector field.
    pub fn get_vector_bits(&self, addr: i16) -> (r: Result<[u32; 3], ProgsError>)
        requires
            addr >= 0,
            self.statics@.len() == STATIC_ADDRESS_COUNT,
        ensures
            match self.vector_read(addr as int) {
                Some(v) => r == Ok::<[u32; 3], ProgsError>(v),
                None => r matches Err(ProgsError::Other(_)),
            },
    {
        let a = addr as usize;
        if a + 2 >= ADDR_DYNAMIC_START && a + 2 - ADDR_DYNAMIC_START >= self.dynamics.len() {
            return Err(ProgsError::Other(crate::net::describe("out-of-bounds offset", a as u32)));
        }
        let (words, i) = if a < ADDR_DYNAMIC_START {
            match vector_addr(a) {
                Ok(_) => (&self.statics, a),
                Err(e) => {
                    return Err(e);
                },
            }
        } else {
            (&self.dynamics, a - ADDR_DYNAMIC_START)
        };
        let v = [
            read_u32_le(words[i].as_slice()),
            read_u32_le(words[i + 1].as_slice()),
            read_u32_le(words[i + 2].as_slice()),
        ];
        assert(v == Entity::words_at(words@, i as int));
        Ok(v)
    }

    /// Stores the bits `v` in the three components of the vector field at `addr`, which must
    /// not be negative; an error, and nothing changed, where its last component would lie past
    /// the last field and for a static address that holds no vector field.
    pub fn put_vector_bits(&mut self, v: [u32; 3], addr: i16) -> (r: Result<(), ProgsError>)
        requires
            addr >= 0,
            old(self).statics@.len() == STATIC_ADDRESS_COUNT,
        ensures
            final(self).leaf_count == old(self).leaf_count,
            final(self).leaf_ids == old(self).leaf_ids,
            final(self).statics@.len() == old(self).statics@.len(),
            final(self).dynamics@.len() == old(self).dynamics@.len(),
            old(self).vector_read(addr as int) is None ==> (r matches Err(ProgsError::Other(_))
                && final(self).statics@ == old(self).statics@ && final(self).dynamics@ == old(self).dynamics@),
            old(self).vector_read(addr as int) is Some ==> r is Ok
                && final(self).vector_read(addr as int) == Some(v)
                && if addr < ADDR_DYNAMIC_START {
                    &&& final(self).dynamics@ == old(self).dynamics@
                    &&& forall|i: int| 0 <= i < old(self).statics@.len() && !(addr <= i < addr + 3) ==> #[trigger] final(self).statics@[i] == old(self).statics@[i]
                } else {
                    &&& final(self).statics@ == old(self).statics@
                    &&& forall|i: int| 0 <= i < old(self).dynamics@.len() && !(addr - ADDR_DYNAMIC_START <= i < addr - ADDR_DYNAMIC_START + 3) ==> #[trigger] final(self).dynamics@[i] == old(self).dynamics@[i]
                },
    {
        let a = addr as usize;
        if a + 2 >= ADDR_DYNAMIC_START && a + 2 - ADDR_DYNAMIC_START >= self.dynamics.len() {
            return Err(ProgsError::Other(crate::net::describe("out-of-bounds offset", a as u32)));
        }
        let w0 = write_u32_le(v[0]);
        let w1 = write_u32_le(v[1]);
        let w2 = write_u32_le(v[2]);
        proof {
            crate::wire::lemma_u32_le_roundtrip(v[0]);
            crate::wire::lemma_u32_le_roundtrip(v[1]);
            crate::wire::lemma_u32_le_roundtrip(v[2]);
        }
        if a < ADDR_DYNAMIC_START {
            match vector_addr(a) {
                Ok(_) => {
                    self.statics.set(a, w0);
                    self.statics.set(a + 1, w1);
                    self.statics.set(a + 2, w2);
                },
                Err(e) => {
                    return Err(e);
                },
            }
        } else {
            let i = a - ADDR_DYNAMIC_START;
            self.dynamics.set(i, w0);
            self.dynamics.set(i + 1, w1);
            self.dynamics.set(i + 2, w2);
        }
        assert(self.vector_read(addr as int) =~= Some(v));
        Ok(())
    }
}

/// Whether every word of `words` is zero.
pub open spec fn all_zero(words: Seq<[u8; 4]>) -> bool {
    forall|k: int| 0 <= k < words.len() ==> #[trigger] words[k]@ == seq![0u8, 0u8, 0u8, 0u8]
}

/// Whether `e` is a new entity of a program whose entities have `addr_count` fields: it
/// touches no leaf and all its fields are zero.
pub open spec fn is_fresh(e: Entity, addr_count: nat) -> bool {
    &&& e.leaf_count == 0
    &&& forall|k: int| 0 <= k < MAX_ENT_LEAVES ==> #[trigger] e.leaf_ids@[k] == 0
    &&& e.statics@.len() == STATIC_ADDRESS_COUNT
    &&& all_zero(e.statics@)
    &&& e.dynamics@.len() == addr_count
    &&& all_zero(e.dynamics@)
}

/// `n` words of zero.
fn zero_words(n: usize) -> (r: Vec<[u8; 4]>)
    ensures
        r@.len() == n,
        all_zero(r@),
{
    let mut v: Vec<[u8; 4]> = Vec::new();
    let mut i: usize = 0;
    while i < n
        invariant
            i <= n,
            v@.len() == i,
            all_zero(v@),
        decreases n - i,
    {
        let w = [0u8; 4];
        assert(w@ == seq![0u8, 0u8, 0u8, 0u8]);
        v.push(w);
        i = i + 1;
    }
    v
}

/// The word address, in bytes, of field `a.field_addr` of entity `a.entity_id`, where each
/// entity has `addr_count` fields.
pub open spec fn field_word_addr(addr_count: nat, a: EntityFieldAddr) -> int {
    (a.entity_id * addr_count + a.field_addr) * 4
}

/// The field of an entity that the word address `val`, in bytes, stands for, where each entity
/// has `addr_count` fields.
pub open spec fn field_at_word_addr(addr_count: nat, val: int) -> EntityFieldAddr {
    EntityFieldAddr {
        entity_id: ((val / 4) / addr_count as int) as usize,
        field_addr: ((val / 4) % addr_count as int) as usize,
    }
}

/// A field's word address gives the field back, for a field within its entity.
pub proof fn lemma_field_addr_roundtrip(addr_count: nat, a: EntityFieldAddr)
    requires
        0 <= a.field_addr < addr_count,
    ensures
        field_at_word_addr(addr_count, field_word_addr(addr_count, a)) == a,
{
    let e = a.entity_id as int;
    let f = a.field_addr as int;
    let n = addr_count as int;
    assert((e * n + f) * 4 / 4 == e * n + f) by (nonlinear_arith);
    assert((e * n + f) / n == e && (e * n + f) % n == f) by (nonlinear_arith)
        requires
            0 <= f < n,
            0 <= e,
    {
        vstd::arithmetic::div_mod::lemma_fundamental_div_mod_converse(e * n + f, n, e, f);
    }
}

/// A word address gives itself back through the field it stands for.
pub proof fn lemma_word_addr_roundtrip(addr_count: nat, val: int)
    requires
        addr_count > 0,
        val >= 0,
        val % 4 == 0,
        val <= i32::MAX,
    ensures
        field_word_addr(addr_count, field_at_word_addr(addr_count, val)) == val,
{
    let n = addr_count as int;
    let w = val / 4;
    assert(w == (w / n) * n + w % n && 0 <= w / n <= w && 0 <= w % n <= w) by (nonlinear_arith)
        requires
            n > 0,
            w >= 0,
    {
        vstd::arithmetic::div_mod::lemma_fundamental_div_mod(w, n);
        vstd::arithmetic::div_mod::lemma_div_pos_is_pos(w, n);
        vstd::arithmetic::div_mod::lemma_div_is_ordered_by_denominator(w, 1, n);
        vstd::arithmetic::div_mod::lemma_mod_bound(w, n);
    }
    assert(((w / n) as usize) as int == w / n);
    assert(((w % n) as usize) as int == w % n);
    assert(val == w * 4);
}

/// An entry of the entity list: free since a time, in milliseconds, or holding an entity.
pub enum EntityListEntry {
    Free(i64),
    NotFree(Entity),
}

/// A message that names an entity, for an error.
#[verifier::external_body]
fn entity_message(before: &str, id: usize, after: &str) -> String {
    format!("{}{}{}", before, id, after)
}

/// The entities of a running program, in a fixed number of entries.
pub struct EntityList {
    addr_count: usize,
    field_defs: Vec<FieldDef>,
    entries: Vec<EntityListEntry>,
}

impl EntityList {
    /// The list has `MAX_ENTITIES` entries.
    pub closed spec fn wf(&self) -> bool {
        self.entries@.len() == MAX_ENTITIES
    }

    /// The number of fields of each entity.
    pub closed spec fn addr_count(&self) -> nat {
        self.addr_count as nat
    }

    /// The definitions of the fields that the program gives its entities.
    pub closed spec fn field_defs(&self) -> Seq<FieldDef> {
        self.field_defs@
    }

    /// The entries.
    pub closed spec fn entries(&self) -> Seq<EntityListEntry> {
        self.entries@
    }

    /// Whether entry `i` holds an entity.
    pub open spec fn is_used(&self, i: int) -> bool {
        0 <= i < self.entries().len() && self.entries()[i] is NotFree
    }

    /// The first free entry, if there is one.
    pub open spec fn first_free(&self) -> Option<int> {
        if exists|i: int| 0 <= i < self.entries().len() && #[trigger] self.entries()[i] is Free {
            Some(choose|i: int| 0 <= i < self.entries().len() && #[trigger] self.entries()[i] is Free
                && forall|k: int| 0 <= k < i ==> !(#[trigger] self.entries()[k] is Free))
        } else {
            None
        }
    }

    /// Whether entry `i` is the first free one.
    pub open spec fn is_first_free(&self, i: int) -> bool {
        &&& 0 <= i < self.entries().len()
        &&& self.entries()[i] is Free
        &&& forall|k: int| 0 <= k < i ==> !(#[trigger] self.entries()[k] is Free)
    }

    /// Whether no entry is free.
    pub open spec fn is_full(&self) -> bool {
        forall|i: int| 0 <= i < self.entries().len() ==> !(#[trigger] self.entries()[i] is Free)
    }

    /// An empty list for a program whose entities have `addr_count` fields, defined by
    /// `field_defs`; there must be at least as many as every entity has.
    pub fn new(addr_count: usize, field_defs: Vec<FieldDef>) -> (r: EntityList)
        requires
            addr_count >= STATIC_ADDRESS_COUNT,
        ensures
            r.wf(),
            r.addr_count() == addr_count,
            r.field_defs() == field_defs@,
            r.entries().len() == MAX_ENTITIES,
            forall|i: int| 0 <= i < MAX_ENTITIES ==> #[trigger] r.entries()[i] == EntityListEntry::Free(0),
    {
        let mut entries: Vec<EntityListEntry> = Vec::new();
        let mut i: usize = 0;
        while i < MAX_ENTITIES
            invariant
                i <= MAX_ENTITIES,
                entries@.len() == i,
                forall|k: int| 0 <= k < i ==> #[trigger] entries@[k] == EntityListEntry::Free(0),
            decreases MAX_ENTITIES - i,
        {
            entries.push(EntityListEntry::Free(0));
            i = i + 1;
        }
        EntityList { addr_count, field_defs, entries }
    }

    /// An empty list whose entities have `field_count` fields, with no definitions.
    pub fn with_field_count(field_count: usize) -> (r: EntityList)
        ensures
            r.wf(),
            r.addr_count() == field_count,
            r.field_defs() == Seq::<FieldDef>::empty(),
            r.entries().len() == MAX_ENTITIES,
            forall|i: int| 0 <= i < MAX_ENTITIES ==> #[trigger] r.entries()[i] == EntityListEntry::Free(0),
    {
        let mut entries: Vec<EntityListEntry> = Vec::new();
        let mut i: usize = 0;
        while i < MAX_ENTITIES
            invariant
                i <= MAX_ENTITIES,
                entries@.len() == i,
                forall|k: int| 0 <= k < i ==> #[trigger] entries@[k] == EntityListEntry::Free(0),
            decreases MAX_ENTITIES - i,
        {
            entries.push(EntityListEntry::Free(0));
            i = i + 1;
        }
        EntityList { addr_count: field_count, field_defs: Vec::new(), entries }
    }

    /// The word address, in bytes, of a field of an entity, as the virtual machine stores it.
    pub fn ent_fld_addr_to_i32(&self, ent_fld_addr: EntityFieldAddr) -> (r: i32)
        requires
            field_word_addr(self.addr_count(), ent_fld_addr) <= i32::MAX,
        ensures
            r == field_word_addr(self.addr_count(), ent_fld_addr),
    {
        let e = ent_fld_addr.entity_id;
        let n = self.addr_count;
        proof {
            assert(0 <= e * n) by (nonlinear_arith);
        }
        let total = (e * n + ent_fld_addr.field_addr) * 4;
        total as i32
    }

    /// The field of an entity that a word address, in bytes, stands for. The address must be a
    /// whole number of words and not negative.
    pub fn ent_fld_addr_from_i32(&self, val: i32) -> (r: EntityFieldAddr)
        requires
            val >= 0,
            val % 4 == 0,
            self.addr_count() > 0,
        ensures
            r == field_at_word_addr(self.addr_count(), val as int),
    {
        let total = (val as usize) / 4;
        EntityFieldAddr { entity_id: total / self.addr_count, field_addr: total % self.addr_count }
    }

    /// The first free entry, or an error when all are used.
    fn find_free_entry(&self) -> (r: Result<usize, ProgsError>)
        requires
            self.wf(),
        ensures
            match r {
                Ok(i) => self.is_first_free(i as int),
                Err(e) => self.is_full() && e is Other,
            },
    {
        let mut i: usize = 0;
        while i < self.entries.len()
            invariant
                i <= self.entries@.len(),
                forall|k: int| 0 <= k < i ==> !(#[trigger] self.entries@[k] is Free),
            decreases self.entries@.len() - i,
        {
            if let EntityListEntry::Free(_) = &self.entries[i] {
                return Ok(i);
            }
            i = i + 1;
        }
        Err(ProgsError::with_msg("no free entries"))
    }

    /// Puts a new entity, touching no leaf and with all fields zero, in the first free entry,
    /// and gives its number; an error when all entries are used.
    pub fn alloc_uninitialized(&mut self) -> (r: Result<EntityId, ProgsError>)
        requires
            old(self).wf(),
        ensures
            final(self).wf(),
            final(self).addr_count() == old(self).addr_count(),
            final(self).field_defs() == old(self).field_defs(),
            final(self).entries().len() == old(self).entries().len(),
            match r {
                Ok(id) => {
                    &&& old(self).is_first_free(id.0 as int)
                    &&& final(self).entries()[id.0 as int] matches EntityListEntry::NotFree(e) && is_fresh(e, old(self).addr_count())
                    &&& forall|k: int| 0 <= k < old(self).entries().len() && k != id.0 ==> #[trigger] final(self).entries()[k] == old(self).entries()[k]
                },
                Err(e) => old(self).is_full() && final(self).entries() == old(self).entries() && e is Other,
            },
    {
        let entry_id = match self.find_free_entry() {
            Ok(i) => i,
            Err(e) => {
                return Err(e);
            },
        };
        let statics = zero_words(STATIC_ADDRESS_COUNT);
        let dynamics = zero_words(self.addr_count);
        let e = Entity { leaf_count: 0, leaf_ids: [0u16; MAX_ENT_LEAVES], statics, dynamics };
        self.entries.set(entry_id, EntityListEntry::NotFree(e));
        Ok(EntityId(entry_id as i32))
    }

    /// The number of the first free entry, which stays free; an error when all are used.
    pub fn alloc_id(&mut self) -> (r: Result<EntityId, ProgsError>)
        requires
            old(self).wf(),
        ensures
            final(self).wf(),
            final(self).addr_count() == old(self).addr_count(),
            final(self).field_defs() == old(self).field_defs(),
            final(self).entries() == old(self).entries(),
            match r {
                Ok(id) => old(self).is_first_free(id.0 as int),
                Err(e) => old(self).is_full() && e is Other,
            },
    {
        let mut i: usize = 0;
        while i < self.entries.len()
            invariant
                i <= self.entries@.len(),
                self.entries@.len() == MAX_ENTITIES,
                forall|k: int| 0 <= k < i ==> !(#[trigger] self.entries@[k] is Free),
            decreases self.entries@.len() - i,
        {
            if let EntityListEntry::Free(_) = &self.entries[i] {
                return Ok(EntityId(i as i32));
            }
            i = i + 1;
        }
        Err(ProgsError::with_msg("No entity slots available"))
    }

    /// Frees the entry `entity_id`; an entry that is free stays as it is. A number past the last
    /// entry is an error; the number just past it is left out.
    pub fn free(&mut self, entity_id: usize) -> (r: Result<(), ProgsError>)
        requires
            old(self).wf(),
            entity_id != MAX_ENTITIES,
        ensures
            final(self).wf(),
            final(self).addr_count() == old(self).addr_count(),
            final(self).field_defs() == old(self).field_defs(),
            entity_id > old(self).entries().len() ==> (r matches Err(ProgsError::Other(_)) && final(self).entries() == old(self).entries()),
            entity_id < old(self).entries().len() ==> r is Ok && final(self).entries() == if old(self).entries()[entity_id as int] is Free {
                old(self).entries()
            } else {
                old(self).entries().update(entity_id as int, EntityListEntry::Free(0))
            },
    {
        if entity_id > self.entries.len() {
            return Err(ProgsError::Other(entity_message("Invalid entity ID (", entity_id, ")")));
        }
        if let EntityListEntry::Free(_) = &self.entries[entity_id] {
            return Ok(());
        }
        self.entries.set(entity_id, EntityListEntry::Free(0));
        Ok(())
    }

    /// The entity in entry `entity_id`; an error for a number past the last entry, the number
    /// just past it left out, and for a free entry.
    pub fn try_get_entity(&self, entity_id: usize) -> (r: Result<&Entity, ProgsError>)
        requires
            self.wf(),
            entity_id != MAX_ENTITIES,
        ensures
            match r {
                Ok(e) => entity_id < self.entries().len() && self.entries()[entity_id as int] == EntityListEntry::NotFree(*e),
                Err(e) => (entity_id > self.entries().len() || self.entries()[entity_id as int] is Free) && e is Other,
            },
    {
        if entity_id > self.entries.len() {
            return Err(ProgsError::Other(entity_message("Invalid entity ID (", entity_id, ")")));
        }
        match &self.entries[entity_id] {
            EntityListEntry::Free(_) => Err(ProgsError::Other(entity_message("No entity at list entry ", entity_id, ""))),
            EntityListEntry::NotFree(e) => Ok(e),
        }
    }

    /// The entity in entry `entity_id`, to be changed in place; an error for a number past the
    /// last entry, the number just past it left out, and for a free entry.
    pub fn try_get_entity_mut(&mut self, entity_id: usize) -> (r: Result<&mut Entity, ProgsError>)
        requires
            old(self).wf(),
            entity_id != MAX_ENTITIES,
        ensures
            final(self).wf(),
            final(self).addr_count() == old(self).addr_count(),
            final(self).field_defs() == old(self).field_defs(),
            match r {
                Ok(e) => {
                    &&& entity_id < old(self).entries().len()
                    &&& old(self).entries()[entity_id as int] == EntityListEntry::NotFree(*e)
                    &&& final(self).entries() == old(self).entries().update(entity_id as int, EntityListEntry::NotFree(*final(e)))
                },
                Err(e) => {
                    &&& entity_id > old(self).entries().len() || old(self).entries()[entity_id as int] is Free
                    &&& final(self).entries() == old(self).entries()
                    &&& e is Other
                },
            },
    {
        if entity_id > self.entries.len() {
            return Err(ProgsError::Other(entity_message("Invalid entity ID (", entity_id, ")")));
        }
        if let EntityListEntry::Free(_) = &self.entries[entity_id] {
            return Err(ProgsError::Other(entity_message("No entity at list entry ", entity_id, "")));
        }
        match &mut self.entries[entity_id] {
            EntityListEntry::NotFree(e) => Ok(e),
            EntityListEntry::Free(_) => Err(ProgsError::with_msg("No entity at list entry")),
        }
    }
}


/// What to do with a key and its value from a map's entity, to fill in a new entity.
#[derive(Copy, Clone, Debug, PartialEq, Eq, Structural)]
pub enum KeyAction {
    /// Nothing: the key starts with an underscore, or its field has no value or is a function.
    Skip,
    /// The value is a float for the field at this address.
    Float(u16),
    /// The value is a yaw: the vector field at this address (the angles) gets `[0, yaw, 0]`.
    Yaw(u16),
    /// The value is three floats for the vector field at this address.
    Vector(u16),
    /// The value is a string for the field at this address.
    String(u16),
    /// The value is the number of an entity, which must be in use, for the field at this
    /// address.
    Entity(u16),
    /// The field holds a field address, which an entity's value cannot give: that is a fatal
    /// error of the program.
    FieldInEntity(u16),
}

/// The first of `names` that is `n`.
pub open spec fn first_named(names: Seq<Seq<char>>, n: Seq<char>) -> Option<int>
    decreases names.len(),
{
    if names.len() == 0 {
        None
    } else {
        match first_named(names.drop_last(), n) {
            Some(i) => Some(i),
            None => if names.last() == n { Some(names.len() - 1) } else { None },
        }
    }
}

/// What to do for a key whose field is `d`.
pub open spec fn action_for_def(d: FieldDef) -> KeyAction {
    match d.type_ {
        crate::progs::Type::QString => KeyAction::String(d.offset),
        crate::progs::Type::QFloat => KeyAction::Float(d.offset),
        crate::progs::Type::QVector => KeyAction::Vector(d.offset),
        crate::progs::Type::QEntity => KeyAction::Entity(d.offset),
        crate::progs::Type::QField => KeyAction::FieldInEntity(d.offset),
        _ => KeyAction::Skip,
    }
}

/// What to do for the key `key` of a map's entity, where the fields are `defs`, named `names`:
/// a key that starts with an underscore is skipped; `angle` gives the yaw of the field
/// `angles`; `light` is the float field `light_lev`; any other key names its field. A name
/// that no field has is an error.
pub open spec fn key_action(defs: Seq<FieldDef>, names: Seq<Seq<char>>, key: Seq<char>) -> Option<KeyAction> {
    if key.len() > 0 && key[0] == '_' {
        Some(KeyAction::Skip)
    } else if key == seq!['a', 'n', 'g', 'l', 'e'] {
        match first_named(names, seq!['a', 'n', 'g', 'l', 'e', 's']) {
            Some(i) => Some(KeyAction::Yaw(defs[i].offset)),
            None => None,
        }
    } else if key == seq!['l', 'i', 'g', 'h', 't'] {
        match first_named(names, seq!['l', 'i', 'g', 'h', 't', '_', 'l', 'e', 'v']) {
            Some(i) => Some(KeyAction::Float(defs[i].offset)),
            None => None,
        }
    } else {
        match first_named(names, key) {
            Some(i) => Some(action_for_def(defs[i])),
            None => None,
        }
    }
}

/// The index of the first of `names` that is `n`.
fn find_named(names: &Vec<String>, n: &[char]) -> (r: Option<usize>)
    ensures
        r matches Some(i) ==> i < names@.len()
            && first_named(crate::console::parse::strings_view(names@), n@) == Some(i as int),
        r is None ==> first_named(crate::console::parse::strings_view(names@), n@) is None,
{
    let ghost v = crate::console::parse::strings_view(names@);
    let mut i: usize = 0;
    while i < names.len()
        invariant
            i <= names@.len(),
            v == crate::console::parse::strings_view(names@),
            first_named(v.take(i as int), n@) is None,
        decreases names@.len() - i,
    {
        let c = crate::util::chars_of(names[i].as_str());
        proof {
            assert(v.take(i + 1).drop_last() =~= v.take(i as int));
        }
        if chars_match(c.as_slice(), n) {
            proof {
                lemma_first_named_prefix(v, n@, i + 1);
            }
            return Some(i);
        }
        i = i + 1;
    }
    proof {
        assert(v.take(i as int) =~= v);
    }
    None
}

/// Whether two lists of characters are equal.
fn chars_match(a: &[char], b: &[char]) -> (r: bool)
    ensures
        r == (a@ == b@),
{
    if a.len() != b.len() {
        return false;
    }
    let mut i: usize = 0;
    while i < a.len()
        invariant
            a@.len() == b@.len(),
            i <= a.len(),
            forall|k: int| 0 <= k < i ==> a@[k] == b@[k],
        decreases a.len() - i,
    {
        if a[i] != b[i] {
            return false;
        }
        i = i + 1;
    }
    assert(a@ =~= b@);
    true
}

/// The first of the names that is `n` is one of them.
proof fn lemma_first_named_bound(names: Seq<Seq<char>>, n: Seq<char>)
    ensures
        first_named(names, n) matches Some(i) ==> 0 <= i < names.len() && names[i] == n,
    decreases names.len(),
{
    if names.len() > 0 {
        lemma_first_named_bound(names.drop_last(), n);
    }
}

/// Where a prefix already holds a name, the whole list finds it there.
proof fn lemma_first_named_prefix(names: Seq<Seq<char>>, n: Seq<char>, k: int)
    requires
        0 <= k <= names.len(),
        first_named(names.take(k), n) is Some,
    ensures
        first_named(names, n) == first_named(names.take(k), n),
    decreases names.len() - k,
{
    if k < names.len() {
        assert(names.take(k + 1).drop_last() =~= names.take(k));
        lemma_first_named_prefix(names, n, k + 1);
    } else {
        assert(names.take(k) =~= names);
    }
}

impl EntityList {
    /// What to do for the key `key` of a map's entity, where `names` are the names of the
    /// fields, in the order of their definitions; an error for a name that no field has.
    pub fn map_key_action(&self, names: &Vec<String>, key: &str) -> (r: Result<KeyAction, ProgsError>)
        requires
            names@.len() == self.field_defs().len(),
        ensures
            match key_action(self.field_defs(), crate::console::parse::strings_view(names@), key@) {
                Some(a) => r == Ok::<KeyAction, ProgsError>(a),
                None => r matches Err(ProgsError::Other(_)),
            },
    {
        let k = crate::util::chars_of(key);
        proof {
            lemma_first_named_bound(crate::console::parse::strings_view(names@), key@);
            lemma_first_named_bound(crate::console::parse::strings_view(names@), seq!['a', 'n', 'g', 'l', 'e', 's']);
            lemma_first_named_bound(crate::console::parse::strings_view(names@), seq!['l', 'i', 'g', 'h', 't', '_', 'l', 'e', 'v']);
        }
        if k.len() > 0 && k[0] == '_' {
            return Ok(KeyAction::Skip);
        }
        let angle: Vec<char> = vec!['a', 'n', 'g', 'l', 'e'];
        let light: Vec<char> = vec!['l', 'i', 'g', 'h', 't'];
        assert(angle@ =~= seq!['a', 'n', 'g', 'l', 'e']);
        assert(light@ =~= seq!['l', 'i', 'g', 'h', 't']);
        if chars_match(k.as_slice(), angle.as_slice()) {
            let angles: Vec<char> = vec!['a', 'n', 'g', 'l', 'e', 's'];
            assert(angles@ =~= seq!['a', 'n', 'g', 'l', 'e', 's']);
            return match find_named(names, angles.as_slice()) {
                Some(i) => Ok(KeyAction::Yaw(self.field_defs[i].offset)),
                None => Err(ProgsError::with_msg("no field with name angles")),
            };
        }
        if chars_match(k.as_slice(), light.as_slice()) {
            let light_lev: Vec<char> = vec!['l', 'i', 'g', 'h', 't', '_', 'l', 'e', 'v'];
            assert(light_lev@ =~= seq!['l', 'i', 'g', 'h', 't', '_', 'l', 'e', 'v']);
            return match find_named(names, light_lev.as_slice()) {
                Some(i) => Ok(KeyAction::Float(self.field_defs[i].offset)),
                None => Err(ProgsError::with_msg("no field with name light_lev")),
            };
        }
        match find_named(names, k.as_slice()) {
            Some(i) => {
                let d = self.field_defs[i];
                Ok(
                    match d.type_ {
                        crate::progs::Type::QString => KeyAction::String(d.offset),
                        crate::progs::Type::QFloat => KeyAction::Float(d.offset),
                        crate::progs::Type::QVector => KeyAction::Vector(d.offset),
                        crate::progs::Type::QEntity => KeyAction::Entity(d.offset),
                        crate::progs::Type::QField => KeyAction::FieldInEntity(d.offset),
                        _ => KeyAction::Skip,
                    },
                )
            },
            None => Err(ProgsError::with_msg("no field with name")),
        }
    }
}

} // verus!
