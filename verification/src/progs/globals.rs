//! The globals of a QuakeC program: an array of four-byte words, with the definitions that give
//! some of them a type.

use vstd::prelude::*;
use super::{EntityId, FieldAddr, FunctionId, GlobalDef, StringId, Type};
use crate::wire::{read_i32_le, read_u32_le, seq_u32_le, u32_le_bytes, write_i32_le};

verus! {

/// The first address of the reserved globals.
pub const GLOBAL_RESERVED_START: usize = 0;

/// The first address of the globals that every program defines.
pub const GLOBAL_STATIC_START: usize = 28;

/// The first address of the globals that a program defines for itself.
pub const GLOBAL_DYNAMIC_START: usize = 64;

/// The number of reserved globals.
pub const GLOBAL_RESERVED_COUNT: usize = 28;

/// The number of globals that every program defines.
pub const GLOBAL_STATIC_COUNT: usize = 36;

/// The address that stands for no global.
pub const GLOBAL_ADDR_NULL: usize = 0;

/// The address of a function's return value.
pub const GLOBAL_ADDR_RETURN: usize = 1;

/// The addresses of a function's arguments.
pub const GLOBAL_ADDR_ARG_0: usize = 4;
pub const GLOBAL_ADDR_ARG_1: usize = 7;
pub const GLOBAL_ADDR_ARG_2: usize = 10;
pub const GLOBAL_ADDR_ARG_3: usize = 13;
pub const GLOBAL_ADDR_ARG_4: usize = 16;
pub const GLOBAL_ADDR_ARG_5: usize = 19;
pub const GLOBAL_ADDR_ARG_6: usize = 22;
pub const GLOBAL_ADDR_ARG_7: usize = 25;

/// An error in accessing globals.
#[derive(Debug)]
pub enum GlobalsError {
    /// Reading the globals failed.
    Io,
    /// There is no global at this address.
    Address(isize),
    /// Any other failure, with its message.
    Other(String),
}

impl GlobalsError {
    /// An error of kind `Other` with the given message.
    pub fn with_msg(msg: &str) -> (r: GlobalsError)
        ensures
            r matches GlobalsError::Other(m) && m@ == msg@,
    {
        GlobalsError::Other(msg.to_owned())
    }
}

/// The address of a float global.
#[derive(Copy, Clone, Debug, PartialEq, Eq, Structural)]
pub enum GlobalAddrFloat {
    Time,
    FrameTime,
    ForceRetouch,
    Deathmatch,
    Coop,
    TeamPlay,
    ServerFlags,
    TotalSecrets,
    TotalMonsters,
    FoundSecrets,
    KilledMonsters,
    Arg0,
    Arg1,
    Arg2,
    Arg3,
    Arg4,
    Arg5,
    Arg6,
    Arg7,
    Arg8,
    Arg9,
    Arg10,
    Arg11,
    Arg12,
    Arg13,
    Arg14,
    Arg15,
    VForwardX,
    VForwardY,
    VForwardZ,
    VUpX,
    VUpY,
    VUpZ,
    VRightX,
    VRightY,
    VRightZ,
    TraceAllSolid,
    TraceStartSolid,
    TraceFraction,
    TraceEndPosX,
    TraceEndPosY,
    TraceEndPosZ,
    TracePlaneNormalX,
    TracePlaneNormalY,
    TracePlaneNormalZ,
    TracePlaneDist,
    TraceInOpen,
    TraceInWater,
}

impl GlobalAddrFloat {
    /// The address of this global.
    pub fn addr(self) -> (r: i16)
        ensures
            31 <= r <= 80,
    {
        match self {
            GlobalAddrFloat::Time => 31,
            GlobalAddrFloat::FrameTime => 32,
            GlobalAddrFloat::ForceRetouch => 33,
            GlobalAddrFloat::Deathmatch => 35,
            GlobalAddrFloat::Coop => 36,
            GlobalAddrFloat::TeamPlay => 37,
            GlobalAddrFloat::ServerFlags => 38,
            GlobalAddrFloat::TotalSecrets => 39,
            GlobalAddrFloat::TotalMonsters => 40,
            GlobalAddrFloat::FoundSecrets => 41,
            GlobalAddrFloat::KilledMonsters => 42,
            GlobalAddrFloat::Arg0 => 43,
            GlobalAddrFloat::Arg1 => 44,
            GlobalAddrFloat::Arg2 => 45,
            GlobalAddrFloat::Arg3 => 46,
            GlobalAddrFloat::Arg4 => 47,
            GlobalAddrFloat::Arg5 => 48,
            GlobalAddrFloat::Arg6 => 49,
            GlobalAddrFloat::Arg7 => 50,
            GlobalAddrFloat::Arg8 => 51,
            GlobalAddrFloat::Arg9 => 52,
            GlobalAddrFloat::Arg10 => 53,
            GlobalAddrFloat::Arg11 => 54,
            GlobalAddrFloat::Arg12 => 55,
            GlobalAddrFloat::Arg13 => 56,
            GlobalAddrFloat::Arg14 => 57,
            GlobalAddrFloat::Arg15 => 58,
            GlobalAddrFloat::VForwardX => 59,
            GlobalAddrFloat::VForwardY => 60,
            GlobalAddrFloat::VForwardZ => 61,
            GlobalAddrFloat::VUpX => 62,
            GlobalAddrFloat::VUpY => 63,
            GlobalAddrFloat::VUpZ => 64,
            GlobalAddrFloat::VRightX => 65,
            GlobalAddrFloat::VRightY => 66,
            GlobalAddrFloat::VRightZ => 67,
            GlobalAddrFloat::TraceAllSolid => 68,
            GlobalAddrFloat::TraceStartSolid => 69,
            GlobalAddrFloat::TraceFraction => 70,
            GlobalAddrFloat::TraceEndPosX => 71,
            GlobalAddrFloat::TraceEndPosY => 72,
            GlobalAddrFloat::TraceEndPosZ => 73,
            GlobalAddrFloat::TracePlaneNormalX => 74,
            GlobalAddrFloat::TracePlaneNormalY => 75,
            GlobalAddrFloat::TracePlaneNormalZ => 76,
            GlobalAddrFloat::TracePlaneDist => 77,
            GlobalAddrFloat::TraceInOpen => 79,
            GlobalAddrFloat::TraceInWater => 80,
        }
    }
}

/// The address of a vector global.
#[derive(Copy, Clone, Debug, PartialEq, Eq, Structural)]
pub enum GlobalAddrVector {
    VForward,
    VUp,
    VRight,
    TraceEndPos,
    TracePlaneNormal,
}

impl GlobalAddrVector {
    /// The address of this global's first component.
    pub fn addr(self) -> (r: i16)
        ensures
            59 <= r <= 74,
    {
        match self {
            GlobalAddrVector::VForward => 59,
            GlobalAddrVector::VUp => 62,
            GlobalAddrVector::VRight => 65,
            GlobalAddrVector::TraceEndPos => 71,
            GlobalAddrVector::TracePlaneNormal => 74,
        }
    }
}

/// The address of a string global.
#[derive(Copy, Clone, Debug, PartialEq, Eq, Structural)]
pub enum GlobalAddrString {
    MapName,
}

impl GlobalAddrString {
    /// The address of this global.
    pub fn addr(self) -> (r: i16)
        ensures
            r == 34,
    {
        34
    }
}

/// The address of an entity global.
#[derive(Copy, Clone, Debug, PartialEq, Eq, Structural)]
pub enum GlobalAddrEntity {
    Self_,
    Other,
    World,
    TraceEntity,
    MsgEntity,
}

impl GlobalAddrEntity {
    /// The address of this global.
    pub fn addr(self) -> (r: i16)
        ensures
            28 <= r <= 81,
    {
        match self {
            GlobalAddrEntity::Self_ => 28,
            GlobalAddrEntity::Other => 29,
            GlobalAddrEntity::World => 30,
            GlobalAddrEntity::TraceEntity => 78,
            GlobalAddrEntity::MsgEntity => 81,
        }
    }
}

/// The address of a function global.
#[derive(Copy, Clone, Debug, PartialEq, Eq, Structural)]
pub enum GlobalAddrFunction {
    Main,
    StartFrame,
    PlayerPreThink,
    PlayerPostThink,
    ClientKill,
    ClientConnect,
    PutClientInServer,
    ClientDisconnect,
    SetNewArgs,
    SetChangeArgs,
}

impl GlobalAddrFunction {
    /// The address of this global.
    pub fn addr(self) -> (r: i16)
        ensures
            82 <= r <= 91,
    {
        match self {
            GlobalAddrFunction::Main => 82,
            GlobalAddrFunction::StartFrame => 83,
            GlobalAddrFunction::PlayerPreThink => 84,
            GlobalAddrFunction::PlayerPostThink => 85,
            GlobalAddrFunction::ClientKill => 86,
            GlobalAddrFunction::ClientConnect => 87,
            GlobalAddrFunction::PutClientInServer => 88,
            GlobalAddrFunction::ClientDisconnect => 89,
            GlobalAddrFunction::SetNewArgs => 90,
            GlobalAddrFunction::SetChangeArgs => 91,
        }
    }
}

/// The first definition of a global at address `addr`, if there is one.
pub open spec fn find_def(defs: Seq<GlobalDef>, addr: int) -> Option<GlobalDef>
    decreases defs.len(),
{
    if defs.len() == 0 {
        None
    } else if defs[0].offset == addr {
        Some(defs[0])
    } else {
        find_def(defs.drop_first(), addr)
    }
}

/// Whether a global at `addr` may be used as a value of type `t`: where a definition says what
/// is there, the types agree, a float and a vector agreeing with each other since a vector
/// starts with its x component.
pub open spec fn type_ok(defs: Seq<GlobalDef>, addr: int, t: Type) -> bool {
    match find_def(defs, addr) {
        None => true,
        Some(d) => t == d.type_ || (t == Type::QFloat && d.type_ == Type::QVector) || (t
            == Type::QVector && d.type_ == Type::QFloat),
    }
}

/// The `i32` stored in a word, little-endian.
pub open spec fn word_i32(w: [u8; 4]) -> i32 {
    seq_u32_le(w@) as i32
}

/// The word that stores an `i32`, little-endian.
pub open spec fn i32_word(v: i32) -> Seq<u8> {
    u32_le_bytes(v as u32)
}

/// The word that stores `bits`, little-endian.
pub open spec fn u32_word(bits: u32) -> Seq<u8> {
    u32_le_bytes(bits)
}

/// The memory of a program's globals.
pub struct Globals {
    defs: Vec<GlobalDef>,
    addrs: Vec<[u8; 4]>,
}

impl Globals {
    /// The definitions of the globals.
    pub closed spec fn defs(&self) -> Seq<GlobalDef> {
        self.defs@
    }

    /// The words of memory.
    pub closed spec fn words(&self) -> Seq<[u8; 4]> {
        self.addrs@
    }

    /// Whether `addr` is an address that the accessors reject: negative, or past the end. The
    /// address just past the last word is not rejected, and using it panics; it is left out by
    /// the accessors' preconditions.
    pub open spec fn bad_addr(&self, addr: i16) -> bool {
        addr < 0 || addr > self.words().len()
    }

    /// Whether an accessor may be given `addr`: every address but the one just past the end.
    pub open spec fn usable(&self, addr: i16) -> bool {
        addr != self.words().len()
    }

    /// Globals with the given definitions and memory.
    pub fn new(defs: Vec<GlobalDef>, addrs: Vec<[u8; 4]>) -> (r: Globals)
        ensures
            r.defs() == defs@,
            r.words() == addrs@,
    {
        Globals { defs, addrs }
    }

    /// Checks that the global at `addr` may be used as a value of type `type_`.
    pub fn type_check(&self, addr: usize, type_: Type) -> (r: Result<(), GlobalsError>)
        ensures
            r is Ok <==> type_ok(self.defs(), addr as int, type_),
            r matches Err(e) ==> type_failed(e),
    {
        let mut i: usize = 0;
        assert(self.defs@.skip(0) =~= self.defs@);
        while i < self.defs.len()
            invariant
                i <= self.defs@.len(),
                find_def(self.defs@, addr as int) == find_def(self.defs@.skip(i as int), addr as int),
            decreases self.defs@.len() - i,
        {
            proof {
                assert(self.defs@.skip(i as int).drop_first() =~= self.defs@.skip(i + 1));
            }
            let d = self.defs[i];
            if d.offset as usize == addr {
                if type_ == d.type_ || (type_ == Type::QFloat && d.type_ == Type::QVector) || (
                type_ == Type::QVector && d.type_ == Type::QFloat) {
                    return Ok(());
                } else {
                    return Err(GlobalsError::with_msg("type check failed"));
                }
            }
            i = i + 1;
        }
        Ok(())
    }

    /// The word at `addr`.
    pub fn get_addr(&self, addr: i16) -> (r: Result<&[u8; 4], GlobalsError>)
        requires
            self.usable(addr),
        ensures
            self.bad_addr(addr) ==> (r matches Err(GlobalsError::Address(a)) && a == addr),
            !self.bad_addr(addr) ==> (r matches Ok(w) && *w == self.words()[addr as int]),
    {
        if addr < 0 {
            return Err(GlobalsError::Address(addr as isize));
        }
        let a = addr as usize;
        if a > self.addrs.len() {
            return Err(GlobalsError::Address(addr as isize));
        }
        Ok(&self.addrs[a])
    }

    /// The word at `addr`, to be changed in place.
    pub fn get_addr_mut(&mut self, addr: i16) -> (r: Result<&mut [u8; 4], GlobalsError>)
        requires
            old(self).usable(addr),
        ensures
            old(self).bad_addr(addr) ==> (r matches Err(GlobalsError::Address(a)) && a == addr
                && final(self).words() == old(self).words() && final(self).defs() == old(self).defs()),
            !old(self).bad_addr(addr) ==> (r matches Ok(w) && *w == old(self).words()[addr as int]
                && final(self).words() == old(self).words().update(addr as int, *final(w))
                && final(self).defs() == old(self).defs()),
    {
        if addr < 0 {
            return Err(GlobalsError::Address(addr as isize));
        }
        let a = addr as usize;
        if a > self.addrs.len() {
            return Err(GlobalsError::Address(addr as isize));
        }
        Ok(&mut self.addrs[a])
    }

    /// A copy of the word at `addr`.
    pub fn get_bytes(&self, addr: i16) -> (r: Result<[u8; 4], GlobalsError>)
        requires
            self.usable(addr),
        ensures
            self.bad_addr(addr) ==> (r matches Err(GlobalsError::Address(a)) && a == addr),
            !self.bad_addr(addr) ==> (r matches Ok(w) && w == self.words()[addr as int]),
    {
        match self.get_addr(addr) {
            Ok(w) => Ok(*w),
            Err(e) => Err(e),
        }
    }

    /// Writes `val` to the word at `addr`, whatever its type.
    pub fn put_bytes(&mut self, val: [u8; 4], addr: i16) -> (r: Result<(), GlobalsError>)
        requires
            old(self).usable(addr),
        ensures
            final(self).defs() == old(self).defs(),
            old(self).bad_addr(addr) ==> (r matches Err(GlobalsError::Address(a)) && a == addr
                && final(self).words() == old(self).words()),
            !old(self).bad_addr(addr) ==> r is Ok && final(self).words() == old(self).words().update(
                addr as int,
                val,
            ),
    {
        if addr < 0 {
            return Err(GlobalsError::Address(addr as isize));
        }
        let a = addr as usize;
        if a > self.addrs.len() {
            return Err(GlobalsError::Address(addr as isize));
        }
        self.addrs.set(a, val);
        Ok(())
    }

    /// The `i32` at `addr`.
    pub fn get_int(&self, addr: i16) -> (r: Result<i32, GlobalsError>)
        requires
            self.usable(addr),
        ensures
            self.bad_addr(addr) ==> (r matches Err(GlobalsError::Address(a)) && a == addr),
            !self.bad_addr(addr) ==> r == Ok::<i32, GlobalsError>(word_i32(self.words()[addr as int])),
    {
        match self.get_addr(addr) {
            Ok(w) => Ok(read_i32_le(w.as_slice())),
            Err(e) => Err(e),
        }
    }

    /// Stores an `i32` at `addr`.
    pub fn put_int(&mut self, val: i32, addr: i16) -> (r: Result<(), GlobalsError>)
        requires
            old(self).usable(addr),
        ensures
            final(self).defs() == old(self).defs(),
            old(self).bad_addr(addr) ==> (r matches Err(GlobalsError::Address(a)) && a == addr
                && final(self).words() == old(self).words()),
            !old(self).bad_addr(addr) ==> r is Ok && stored(
                old(self).words(),
                final(self).words(),
                addr as int,
                i32_word(val),
            ),
    {
        let w = write_i32_le(val);
        let r = self.put_bytes(w, addr);
        proof {
            if !old(self).bad_addr(addr) {
                assert(self.words()[addr as int]@ == i32_word(val));
            }
        }
        r
    }

    /// The `i32` at `addr` after checking that its type is `t`.
    fn get_typed(&self, addr: i16, t: Type) -> (r: Result<i32, GlobalsError>)
        requires
            self.usable(addr),
        ensures
            typed_read(*self, addr, t, r),
    {
        match self.type_check(addr as usize, t) {
            Err(e) => Err(e),
            Ok(()) => self.get_int(addr),
        }
    }

    /// Stores an `i32` at `addr` after checking that its type is `t`.
    fn put_typed(&mut self, val: i32, addr: i16, t: Type) -> (r: Result<(), GlobalsError>)
        requires
            old(self).usable(addr),
        ensures
            typed_write(*old(self), *final(self), addr, t, i32_word(val), r),
    {
        match self.type_check(addr as usize, t) {
            Err(e) => Err(e),
            Ok(()) => self.put_int(val, addr),
        }
    }

    /// The raw bits of the float at `addr`.
    pub fn get_float_bits(&self, addr: i16) -> (r: Result<u32, GlobalsError>)
        requires
            self.usable(addr),
        ensures
            typed_read_bits(*self, addr, Type::QFloat, r),
    {
        match self.type_check(addr as usize, Type::QFloat) {
            Err(e) => Err(e),
            Ok(()) => match self.get_addr(addr) {
                Ok(w) => Ok(read_u32_le(w.as_slice())),
                Err(e) => Err(e),
            },
        }
    }

    /// Stores the raw bits of a float at `addr`.
    pub fn put_float_bits(&mut self, bits: u32, addr: i16) -> (r: Result<(), GlobalsError>)
        requires
            old(self).usable(addr),
        ensures
            typed_write(*old(self), *final(self), addr, Type::QFloat, u32_word(bits), r),
    {
        proof {
            crate::wire::lemma_signed_roundtrip(0, bits as i32);
            assert((bits as i32) as u32 == bits) by (bit_vector);
        }
        self.put_typed(bits as i32, addr, Type::QFloat)
    }

    /// The string identifier at `addr`.
    pub fn get_string_id(&self, addr: i16) -> (r: Result<StringId, GlobalsError>)
        requires
            self.usable(addr),
        ensures
            typed_read(*self, addr, Type::QString, match r {
                Ok(v) => Ok(v.0),
                Err(e) => Err(e),
            }),
    {
        match self.get_typed(addr, Type::QString) {
            Ok(v) => Ok(StringId(v)),
            Err(e) => Err(e),
        }
    }

    /// Stores a string identifier at `addr`.
    pub fn put_string_id(&mut self, val: StringId, addr: i16) -> (r: Result<(), GlobalsError>)
        requires
            old(self).usable(addr),
        ensures
            typed_write(*old(self), *final(self), addr, Type::QString, i32_word(val.0), r),
    {
        self.put_typed(val.0, addr, Type::QString)
    }

    /// The entity identifier at `addr`; a negative one is an error.
    pub fn get_entity_id(&self, addr: i16) -> (r: Result<EntityId, GlobalsError>)
        requires
            self.usable(addr),
        ensures
            nonneg_read(*self, addr, Type::QEntity, match r {
                Ok(v) => Ok(v.0),
                Err(e) => Err(e),
            }),
    {
        match self.get_typed(addr, Type::QEntity) {
            Ok(v) => if v < 0 {
                Err(GlobalsError::Other(crate::net::describe("Negative entity ID", v as u32)))
            } else {
                Ok(EntityId(v))
            },
            Err(e) => Err(e),
        }
    }

    /// Stores an entity identifier at `addr`.
    pub fn put_entity_id(&mut self, val: EntityId, addr: i16) -> (r: Result<(), GlobalsError>)
        requires
            old(self).usable(addr),
        ensures
            typed_write(*old(self), *final(self), addr, Type::QEntity, i32_word(val.0), r),
    {
        self.put_typed(val.0, addr, Type::QEntity)
    }

    /// The field address at `addr`; a negative one is an error.
    pub fn get_field_addr(&self, addr: i16) -> (r: Result<FieldAddr, GlobalsError>)
        requires
            self.usable(addr),
        ensures
            nonneg_read(*self, addr, Type::QField, match r {
                Ok(v) => Ok(v.0),
                Err(e) => Err(e),
            }),
    {
        match self.get_typed(addr, Type::QField) {
            Ok(v) => if v < 0 {
                Err(GlobalsError::Other(crate::net::describe("Negative entity ID", v as u32)))
            } else {
                Ok(FieldAddr(v))
            },
            Err(e) => Err(e),
        }
    }

    /// Stores a field address at `addr`.
    pub fn put_field_addr(&mut self, val: FieldAddr, addr: i16) -> (r: Result<(), GlobalsError>)
        requires
            old(self).usable(addr),
        ensures
            typed_write(*old(self), *final(self), addr, Type::QField, i32_word(val.0), r),
    {
        self.put_typed(val.0, addr, Type::QField)
    }

    /// The function identifier at `addr`.
    pub fn get_function_id(&self, addr: i16) -> (r: Result<FunctionId, GlobalsError>)
        requires
            self.usable(addr),
        ensures
            typed_read(*self, addr, Type::QFunction, match r {
                Ok(v) => Ok(v.0),
                Err(e) => Err(e),
            }),
    {
        match self.get_typed(addr, Type::QFunction) {
            Ok(v) => Ok(FunctionId(v)),
            Err(e) => Err(e),
        }
    }

    /// Stores a function identifier at `addr`.
    pub fn put_function_id(&mut self, val: FunctionId, addr: i16) -> (r: Result<(), GlobalsError>)
        requires
            old(self).usable(addr),
        ensures
            typed_write(*old(self), *final(self), addr, Type::QFunction, i32_word(val.0), r),
    {
        self.put_typed(val.0, addr, Type::QFunction)
    }

    /// The entity field at `addr`, without a type check.
    pub fn get_entity_field(&self, addr: i16) -> (r: Result<i32, GlobalsError>)
        requires
            self.usable(addr),
        ensures
            self.bad_addr(addr) ==> (r matches Err(GlobalsError::Address(a)) && a == addr),
            !self.bad_addr(addr) ==> r == Ok::<i32, GlobalsError>(word_i32(self.words()[addr as int])),
    {
        self.get_int(addr)
    }

    /// Stores an entity field at `addr`, without a type check.
    pub fn put_entity_field(&mut self, val: i32, addr: i16) -> (r: Result<(), GlobalsError>)
        requires
            old(self).usable(addr),
        ensures
            final(self).defs() == old(self).defs(),
            old(self).bad_addr(addr) ==> (r matches Err(GlobalsError::Address(a)) && a == addr
                && final(self).words() == old(self).words()),
            !old(self).bad_addr(addr) ==> r is Ok && stored(
                old(self).words(),
                final(self).words(),
                addr as int,
                i32_word(val),
            ),
    {
        self.put_int(val, addr)
    }

    /// Copies the word at `src_addr` to `dst_addr`, whatever their types.
    pub fn untyped_copy(&mut self, src_addr: i16, dst_addr: i16) -> (r: Result<(), GlobalsError>)
        requires
            old(self).usable(src_addr),
            old(self).usable(dst_addr),
        ensures
            final(self).defs() == old(self).defs(),
            old(self).bad_addr(src_addr) ==> (r matches Err(GlobalsError::Address(a)) && a
                == src_addr && final(self).words() == old(self).words()),
            !old(self).bad_addr(src_addr) && old(self).bad_addr(dst_addr) ==> (r matches Err(
                GlobalsError::Address(a),
            ) && a == dst_addr && final(self).words() == old(self).words()),
            !old(self).bad_addr(src_addr) && !old(self).bad_addr(dst_addr) ==> r is Ok && final(self).words() == old(self).words().update(
                dst_addr as int,
                old(self).words()[src_addr as int],
            ),
    {
        let src = match self.get_bytes(src_addr) {
            Ok(w) => w,
            Err(e) => { return Err(e); },
        };
        self.put_bytes(src, dst_addr)
    }
}

impl Globals {
    /// Stores at the return address the absolute value of the float argument: the float with
    /// its sign bit cleared.
    pub fn f_abs(&mut self) -> (r: Result<(), GlobalsError>)
        requires
            old(self).usable(GLOBAL_ADDR_ARG_0 as i16),
            old(self).usable(GLOBAL_ADDR_RETURN as i16),
        ensures
            final(self).defs() == old(self).defs(),
            r is Ok <==> float_ok(*old(self), GLOBAL_ADDR_ARG_0 as i16) && float_ok(
                *old(self),
                GLOBAL_ADDR_RETURN as i16,
            ),
            r is Ok ==> stored(
                old(self).words(),
                final(self).words(),
                GLOBAL_ADDR_RETURN as int,
                u32_word(seq_u32_le(old(self).words()[GLOBAL_ADDR_ARG_0 as int]@) & 0x7fff_ffff),
            ),
            r is Err ==> final(self).words() == old(self).words(),
            r matches Err(e) ==> if !type_ok(old(self).defs(), GLOBAL_ADDR_ARG_0 as int, Type::QFloat) {
                type_failed(e)
            } else if old(self).bad_addr(GLOBAL_ADDR_ARG_0 as i16) {
                e == GlobalsError::Address(GLOBAL_ADDR_ARG_0 as isize)
            } else if !type_ok(old(self).defs(), GLOBAL_ADDR_RETURN as int, Type::QFloat) {
                type_failed(e)
            } else {
                e == GlobalsError::Address(GLOBAL_ADDR_RETURN as isize)
            },
    {
        let bits = match self.get_float_bits(GLOBAL_ADDR_ARG_0 as i16) {
            Ok(b) => b,
            Err(e) => { return Err(e); },
        };
        self.put_float_bits(bits & 0x7fff_ffff, GLOBAL_ADDR_RETURN as i16)
    }
}

/// Whether `e` is the error of a failed type check.
pub open spec fn type_failed(e: GlobalsError) -> bool {
    e matches GlobalsError::Other(m) && m@ == "type check failed"@
}

/// Whether a float can be read from or written to `addr`.
pub open spec fn float_ok(g: Globals, addr: i16) -> bool {
    type_ok(g.defs(), addr as usize as int, Type::QFloat) && !g.bad_addr(addr)
}

/// `new` is `old` with the word at `addr` replaced by `bytes`.
pub open spec fn stored(old: Seq<[u8; 4]>, new: Seq<[u8; 4]>, addr: int, bytes: Seq<u8>) -> bool {
    &&& new.len() == old.len()
    &&& new[addr]@ == bytes
    &&& forall|i: int| 0 <= i < old.len() && i != addr ==> new[i] == old[i]
}

/// What a typed read of the word at `addr` gives: a type error, an address error, or the
/// `i32` stored there.
pub open spec fn typed_read(g: Globals, addr: i16, t: Type, r: Result<i32, GlobalsError>) -> bool {
    if !type_ok(g.defs(), addr as usize as int, t) {
        r matches Err(e) && type_failed(e)
    } else if g.bad_addr(addr) {
        r matches Err(GlobalsError::Address(a)) && a == addr
    } else {
        r == Ok::<i32, GlobalsError>(word_i32(g.words()[addr as int]))
    }
}

/// What a typed read of the raw bits at `addr` gives.
pub open spec fn typed_read_bits(g: Globals, addr: i16, t: Type, r: Result<u32, GlobalsError>) -> bool {
    if !type_ok(g.defs(), addr as usize as int, t) {
        r matches Err(e) && type_failed(e)
    } else if g.bad_addr(addr) {
        r matches Err(GlobalsError::Address(a)) && a == addr
    } else {
        r == Ok::<u32, GlobalsError>(seq_u32_le(g.words()[addr as int]@))
    }
}

/// What a typed read of an identifier that must not be negative gives.
pub open spec fn nonneg_read(g: Globals, addr: i16, t: Type, r: Result<i32, GlobalsError>) -> bool {
    if !type_ok(g.defs(), addr as usize as int, t) {
        r matches Err(e) && type_failed(e)
    } else if g.bad_addr(addr) {
        r matches Err(GlobalsError::Address(a)) && a == addr
    } else if word_i32(g.words()[addr as int]) < 0 {
        r matches Err(GlobalsError::Other(_))
    } else {
        r == Ok::<i32, GlobalsError>(word_i32(g.words()[addr as int]))
    }
}

/// What a typed write of `bytes` at `addr` does: a type error or an address error leaves the
/// memory unchanged; otherwise the word is replaced.
pub open spec fn typed_write(
    old: Globals,
    new: Globals,
    addr: i16,
    t: Type,
    bytes: Seq<u8>,
    r: Result<(), GlobalsError>,
) -> bool {
    &&& new.defs() == old.defs()
    &&& if !type_ok(old.defs(), addr as usize as int, t) {
        (r matches Err(e) && type_failed(e)) && new.words() == old.words()
    } else if old.bad_addr(addr) {
        r matches Err(GlobalsError::Address(a)) && a == addr && new.words() == old.words()
    } else {
        r is Ok && stored(old.words(), new.words(), addr as int, bytes)
    }
}


/// A typed read after a successful typed write of an `i32` at the same address gives the value
/// written.
pub proof fn lemma_read_after_write(
    before: Globals,
    after: Globals,
    addr: i16,
    t: Type,
    val: i32,
    w: Result<(), GlobalsError>,
    r: Result<i32, GlobalsError>,
)
    requires
        typed_write(before, after, addr, t, i32_word(val), w),
        w is Ok,
        typed_read(after, addr, t, r),
    ensures
        r == Ok::<i32, GlobalsError>(val),
{
    crate::wire::lemma_u32_le_roundtrip(val as u32);
    crate::wire::lemma_signed_roundtrip(0, val);
    let word = after.words()[addr as int];
    assert(word@ == i32_word(val));
    assert(word_i32(word) == val);
}

/// A read of the raw bits after a successful write of bits at the same address gives the bits
/// written.
pub proof fn lemma_read_bits_after_write(
    before: Globals,
    after: Globals,
    addr: i16,
    bits: u32,
    w: Result<(), GlobalsError>,
    r: Result<u32, GlobalsError>,
)
    requires
        typed_write(before, after, addr, Type::QFloat, u32_word(bits), w),
        w is Ok,
        typed_read_bits(after, addr, Type::QFloat, r),
    ensures
        r == Ok::<u32, GlobalsError>(bits),
{
    crate::wire::lemma_u32_le_roundtrip(bits);
}

/// A write at one address leaves every other address as it was.
pub proof fn lemma_write_keeps_others(
    before: Globals,
    after: Globals,
    addr: i16,
    t: Type,
    bytes: Seq<u8>,
    w: Result<(), GlobalsError>,
    other: int,
)
    requires
        typed_write(before, after, addr, t, bytes, w),
        0 <= other < before.words().len(),
        other != addr,
    ensures
        after.words()[other] == before.words()[other],
{
}

} // verus!
