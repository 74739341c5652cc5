//! Instructions of the virtual machine that compare and copy identifiers.

use vstd::prelude::*;
use super::ProgsError;
use super::globals::{
    Globals, GlobalsError, type_ok, word_i32, stored, u32_word, i32_word, float_ok,
};
use super::Type;

verus! {

/// The bits of the float 1.0.
pub const FLOAT_ONE_BITS: u32 = 0x3f80_0000;

/// The bits of the float that stands for a truth value: 1.0 for true, 0.0 for false.
pub open spec fn bool_bits(b: bool) -> u32 {
    if b { FLOAT_ONE_BITS } else { 0 }
}

/// The error of the virtual machine that an error in accessing globals is reported as.
pub fn progs_error(e: GlobalsError) -> (r: ProgsError)
    ensures
        e is Io ==> r is Io,
        !(e is Io) ==> r is Other,
{
    match e {
        GlobalsError::Io => ProgsError::Io,
        GlobalsError::Address(a) => ProgsError::Other(crate::net::describe(
            "Invalid address",
            a as u32,
        )),
        GlobalsError::Other(m) => ProgsError::Other(m),
    }
}

/// Whether an identifier of type `t` that must not be negative can be read at `addr`.
pub open spec fn id_ok(g: Globals, addr: i16, t: Type) -> bool {
    &&& type_ok(g.defs(), addr as usize as int, t)
    &&& !g.bad_addr(addr)
    &&& word_i32(g.words()[addr as int]) >= 0
}

/// Whether an identifier of type `t` can be read at `addr`.
pub open spec fn value_ok(g: Globals, addr: i16, t: Type) -> bool {
    type_ok(g.defs(), addr as usize as int, t) && !g.bad_addr(addr)
}

/// The identifier stored at `addr`.
pub open spec fn value_at(g: Globals, addr: i16) -> i32 {
    word_i32(g.words()[addr as int])
}

/// Writes at `out` whether the entities at `a` and `b` are equal (`eq`) or differ.
fn compare_entities(g: &mut Globals, a: i16, b: i16, out: i16, eq: bool) -> (r: Result<
    (),
    ProgsError,
>)
    requires
        old(g).usable(a),
        old(g).usable(b),
        old(g).usable(out),
    ensures
        final(g).defs() == old(g).defs(),
        r is Ok <==> id_ok(*old(g), a, Type::QEntity) && id_ok(*old(g), b, Type::QEntity)
            && float_ok(*old(g), out),
        r is Ok ==> stored(
            old(g).words(),
            final(g).words(),
            out as int,
            u32_word(bool_bits((value_at(*old(g), a) == value_at(*old(g), b)) == eq)),
        ),
        r is Err ==> final(g).words() == old(g).words(),
{
    let e1 = match g.get_entity_id(a) {
        Ok(v) => v,
        Err(e) => { return Err(progs_error(e)); },
    };
    let e2 = match g.get_entity_id(b) {
        Ok(v) => v,
        Err(e) => { return Err(progs_error(e)); },
    };
    let bits: u32 = if (e1.0 == e2.0) == eq { FLOAT_ONE_BITS } else { 0 };
    match g.put_float_bits(bits, out) {
        Ok(()) => Ok(()),
        Err(e) => Err(progs_error(e)),
    }
}

/// Writes at `out` whether the functions at `a` and `b` are equal (`eq`) or differ.
fn compare_functions(g: &mut Globals, a: i16, b: i16, out: i16, eq: bool) -> (r: Result<
    (),
    ProgsError,
>)
    requires
        old(g).usable(a),
        old(g).usable(b),
        old(g).usable(out),
    ensures
        final(g).defs() == old(g).defs(),
        r is Ok <==> value_ok(*old(g), a, Type::QFunction) && value_ok(
            *old(g),
            b,
            Type::QFunction,
        ) && float_ok(*old(g), out),
        r is Ok ==> stored(
            old(g).words(),
            final(g).words(),
            out as int,
            u32_word(bool_bits((value_at(*old(g), a) == value_at(*old(g), b)) == eq)),
        ),
        r is Err ==> final(g).words() == old(g).words(),
{
    let f1 = match g.get_function_id(a) {
        Ok(v) => v,
        Err(e) => { return Err(progs_error(e)); },
    };
    let f2 = match g.get_function_id(b) {
        Ok(v) => v,
        Err(e) => { return Err(progs_error(e)); },
    };
    let bits: u32 = if (f1.0 == f2.0) == eq { FLOAT_ONE_BITS } else { 0 };
    match g.put_float_bits(bits, out) {
        Ok(()) => Ok(()),
        Err(e) => Err(progs_error(e)),
    }
}

/// `EQ_ENT`: writes 1.0 at `eq_ofs` if the entities at `e1_ofs` and `e2_ofs` are the same,
/// else 0.0.
pub fn eq_ent(g: &mut Globals, e1_ofs: i16, e2_ofs: i16, eq_ofs: i16) -> (r: Result<(), ProgsError>)
    requires
        old(g).usable(e1_ofs),
        old(g).usable(e2_ofs),
        old(g).usable(eq_ofs),
    ensures
        final(g).defs() == old(g).defs(),
        r is Ok <==> id_ok(*old(g), e1_ofs, Type::QEntity) && id_ok(*old(g), e2_ofs, Type::QEntity)
            && float_ok(*old(g), eq_ofs),
        r is Ok ==> stored(
            old(g).words(),
            final(g).words(),
            eq_ofs as int,
            u32_word(bool_bits(value_at(*old(g), e1_ofs) == value_at(*old(g), e2_ofs))),
        ),
        r is Err ==> final(g).words() == old(g).words(),
{
    compare_entities(g, e1_ofs, e2_ofs, eq_ofs, true)
}

/// `NE_ENT`: writes 1.0 at `ne_ofs` if the entities at `e1_ofs` and `e2_ofs` differ, else 0.0.
pub fn ne_ent(g: &mut Globals, e1_ofs: i16, e2_ofs: i16, ne_ofs: i16) -> (r: Result<(), ProgsError>)
    requires
        old(g).usable(e1_ofs),
        old(g).usable(e2_ofs),
        old(g).usable(ne_ofs),
    ensures
        final(g).defs() == old(g).defs(),
        r is Ok <==> id_ok(*old(g), e1_ofs, Type::QEntity) && id_ok(*old(g), e2_ofs, Type::QEntity)
            && float_ok(*old(g), ne_ofs),
        r is Ok ==> stored(
            old(g).words(),
            final(g).words(),
            ne_ofs as int,
            u32_word(bool_bits(value_at(*old(g), e1_ofs) != value_at(*old(g), e2_ofs))),
        ),
        r is Err ==> final(g).words() == old(g).words(),
{
    compare_entities(g, e1_ofs, e2_ofs, ne_ofs, false)
}

/// `EQ_FNC`: writes 1.0 at `eq_ofs` if the functions at `f1_ofs` and `f2_ofs` are the same,
/// else 0.0.
pub fn eq_fnc(g: &mut Globals, f1_ofs: i16, f2_ofs: i16, eq_ofs: i16) -> (r: Result<(), ProgsError>)
    requires
        old(g).usable(f1_ofs),
        old(g).usable(f2_ofs),
        old(g).usable(eq_ofs),
    ensures
        final(g).defs() == old(g).defs(),
        r is Ok <==> value_ok(*old(g), f1_ofs, Type::QFunction) && value_ok(
            *old(g),
            f2_ofs,
            Type::QFunction,
        ) && float_ok(*old(g), eq_ofs),
        r is Ok ==> stored(
            old(g).words(),
            final(g).words(),
            eq_ofs as int,
            u32_word(bool_bits(value_at(*old(g), f1_ofs) == value_at(*old(g), f2_ofs))),
        ),
        r is Err ==> final(g).words() == old(g).words(),
{
    compare_functions(g, f1_ofs, f2_ofs, eq_ofs, true)
}

/// `NE_FNC`: writes 1.0 at `ne_ofs` if the functions at `f1_ofs` and `f2_ofs` differ, else
/// 0.0.
pub fn ne_fnc(g: &mut Globals, f1_ofs: i16, f2_ofs: i16, ne_ofs: i16) -> (r: Result<(), ProgsError>)
    requires
        old(g).usable(f1_ofs),
        old(g).usable(f2_ofs),
        old(g).usable(ne_ofs),
    ensures
        final(g).defs() == old(g).defs(),
        r is Ok <==> value_ok(*old(g), f1_ofs, Type::QFunction) && value_ok(
            *old(g),
            f2_ofs,
            Type::QFunction,
        ) && float_ok(*old(g), ne_ofs),
        r is Ok ==> stored(
            old(g).words(),
            final(g).words(),
            ne_ofs as int,
            u32_word(bool_bits(value_at(*old(g), f1_ofs) != value_at(*old(g), f2_ofs))),
        ),
        r is Err ==> final(g).words() == old(g).words(),
{
    compare_functions(g, f1_ofs, f2_ofs, ne_ofs, false)
}

/// `NOT_ENT`: writes 1.0 at `not_ofs` if the entity at `ent_ofs` is the world (entity 0), else
/// 0.0. The unused operand must be zero.
pub fn not_ent(g: &mut Globals, ent_ofs: i16, unused: i16, not_ofs: i16) -> (r: Result<
    (),
    ProgsError,
>)
    requires
        old(g).usable(ent_ofs),
        old(g).usable(not_ofs),
    ensures
        final(g).defs() == old(g).defs(),
        r is Ok <==> unused == 0 && id_ok(*old(g), ent_ofs, Type::QEntity) && float_ok(
            *old(g),
            not_ofs,
        ),
        r is Ok ==> stored(
            old(g).words(),
            final(g).words(),
            not_ofs as int,
            u32_word(bool_bits(value_at(*old(g), ent_ofs) == 0)),
        ),
        r is Err ==> final(g).words() == old(g).words(),
{
    if unused != 0 {
        return Err(ProgsError::with_msg("Nonzero arg2 to NOT_ENT"));
    }
    let ent = match g.get_entity_id(ent_ofs) {
        Ok(v) => v,
        Err(e) => { return Err(progs_error(e)); },
    };
    let bits: u32 = if ent.0 == 0 { FLOAT_ONE_BITS } else { 0 };
    match g.put_float_bits(bits, not_ofs) {
        Ok(()) => Ok(()),
        Err(e) => Err(progs_error(e)),
    }
}

/// `NOT_FNC`: writes 1.0 at `not_ofs` if the function at `fnc_id_ofs` is function 0, else 0.0.
/// The unused operand must be zero.
pub fn not_fnc(g: &mut Globals, fnc_id_ofs: i16, unused: i16, not_ofs: i16) -> (r: Result<
    (),
    ProgsError,
>)
    requires
        old(g).usable(fnc_id_ofs),
        old(g).usable(not_ofs),
    ensures
        final(g).defs() == old(g).defs(),
        r is Ok <==> unused == 0 && value_ok(*old(g), fnc_id_ofs, Type::QFunction) && float_ok(
            *old(g),
            not_ofs,
        ),
        r is Ok ==> stored(
            old(g).words(),
            final(g).words(),
            not_ofs as int,
            u32_word(bool_bits(value_at(*old(g), fnc_id_ofs) == 0)),
        ),
        r is Err ==> final(g).words() == old(g).words(),
{
    if unused != 0 {
        return Err(ProgsError::with_msg("Nonzero arg2 to NOT_FNC"));
    }
    let f = match g.get_function_id(fnc_id_ofs) {
        Ok(v) => v,
        Err(e) => { return Err(progs_error(e)); },
    };
    let bits: u32 = if f.0 == 0 { FLOAT_ONE_BITS } else { 0 };
    match g.put_float_bits(bits, not_ofs) {
        Ok(()) => Ok(()),
        Err(e) => Err(progs_error(e)),
    }
}

/// `STORE_ENT`: copies the entity at `src_ofs` to `dest_ofs`. The unused operand must be zero.
pub fn store_ent(g: &mut Globals, src_ofs: i16, dest_ofs: i16, unused: i16) -> (r: Result<
    (),
    ProgsError,
>)
    requires
        old(g).usable(src_ofs),
        old(g).usable(dest_ofs),
    ensures
        final(g).defs() == old(g).defs(),
        r is Ok <==> unused == 0 && id_ok(*old(g), src_ofs, Type::QEntity) && value_ok(
            *old(g),
            dest_ofs,
            Type::QEntity,
        ),
        r is Ok ==> stored(
            old(g).words(),
            final(g).words(),
            dest_ofs as int,
            i32_word(value_at(*old(g), src_ofs)),
        ),
        r is Err ==> final(g).words() == old(g).words(),
{
    if unused != 0 {
        return Err(ProgsError::with_msg("Nonzero arg3 to STORE_ENT"));
    }
    let ent = match g.get_entity_id(src_ofs) {
        Ok(v) => v,
        Err(e) => { return Err(progs_error(e)); },
    };
    match g.put_entity_id(ent, dest_ofs) {
        Ok(()) => Ok(()),
        Err(e) => Err(progs_error(e)),
    }
}

/// `STORE_FNC`: copies the function at `src_ofs` to `dest_ofs`. The unused operand must be
/// zero.
pub fn store_fnc(g: &mut Globals, src_ofs: i16, dest_ofs: i16, unused: i16) -> (r: Result<
    (),
    ProgsError,
>)
    requires
        old(g).usable(src_ofs),
        old(g).usable(dest_ofs),
    ensures
        final(g).defs() == old(g).defs(),
        r is Ok <==> unused == 0 && value_ok(*old(g), src_ofs, Type::QFunction) && value_ok(
            *old(g),
            dest_ofs,
            Type::QFunction,
        ),
        r is Ok ==> stored(
            old(g).words(),
            final(g).words(),
            dest_ofs as int,
            i32_word(value_at(*old(g), src_ofs)),
        ),
        r is Err ==> final(g).words() == old(g).words(),
{
    if unused != 0 {
        return Err(ProgsError::with_msg("Nonzero arg3 to STORE_FNC"));
    }
    let f = match g.get_function_id(src_ofs) {
        Ok(v) => v,
        Err(e) => { return Err(progs_error(e)); },
    };
    match g.put_function_id(f, dest_ofs) {
        Ok(()) => Ok(()),
        Err(e) => Err(progs_error(e)),
    }
}

/// `STORE_S`: copies the string at `src_ofs` to `dest_ofs`. The unused operand must be zero.
pub fn store_s(g: &mut Globals, src_ofs: i16, dest_ofs: i16, unused: i16) -> (r: Result<
    (),
    ProgsError,
>)
    requires
        old(g).usable(src_ofs),
        old(g).usable(dest_ofs),
    ensures
        final(g).defs() == old(g).defs(),
        r is Ok <==> unused == 0 && value_ok(*old(g), src_ofs, Type::QString) && value_ok(
            *old(g),
            dest_ofs,
            Type::QString,
        ),
        r is Ok ==> stored(
            old(g).words(),
            final(g).words(),
            dest_ofs as int,
            i32_word(value_at(*old(g), src_ofs)),
        ),
        r is Err ==> final(g).words() == old(g).words(),
{
    if unused != 0 {
        return Err(ProgsError::with_msg("Nonzero arg3 to STORE_S"));
    }
    let s = match g.get_string_id(src_ofs) {
        Ok(v) => v,
        Err(e) => { return Err(progs_error(e)); },
    };
    match g.put_string_id(s, dest_ofs) {
        Ok(()) => Ok(()),
        Err(e) => Err(progs_error(e)),
    }
}

/// `STORE_F`: copies the float at `src_ofs` to `dest_ofs`, bit for bit. The unused operand must
/// be zero.
pub fn store_f(g: &mut Globals, src_ofs: i16, dest_ofs: i16, unused: i16) -> (r: Result<
    (),
    ProgsError,
>)
    requires
        old(g).usable(src_ofs),
        old(g).usable(dest_ofs),
    ensures
        final(g).defs() == old(g).defs(),
        r is Ok <==> unused == 0 && value_ok(*old(g), src_ofs, Type::QFloat) && value_ok(
            *old(g),
            dest_ofs,
            Type::QFloat,
        ),
        r is Ok ==> stored(
            old(g).words(),
            final(g).words(),
            dest_ofs as int,
            old(g).words()[src_ofs as int]@,
        ),
        r is Err ==> final(g).words() == old(g).words(),
{
    if unused != 0 {
        return Err(ProgsError::with_msg("Nonzero arg3 to STORE_F"));
    }
    let bits = match g.get_float_bits(src_ofs) {
        Ok(v) => v,
        Err(e) => { return Err(progs_error(e)); },
    };
    proof {
        let w = g.words()[src_ofs as int]@;
        crate::wire::lemma_u32_le_bytes_of(w[0], w[1], w[2], w[3]);
        assert(w =~= seq![w[0], w[1], w[2], w[3]]);
    }
    match g.put_float_bits(bits, dest_ofs) {
        Ok(()) => Ok(()),
        Err(e) => Err(progs_error(e)),
    }
}

/// `STORE_FLD`: copies the field address at `src_ofs` to `dest_ofs`. The unused operand must
/// be zero.
pub fn store_fld(g: &mut Globals, src_ofs: i16, dest_ofs: i16, unused: i16) -> (r: Result<
    (),
    ProgsError,
>)
    requires
        old(g).usable(src_ofs),
        old(g).usable(dest_ofs),
    ensures
        final(g).defs() == old(g).defs(),
        r is Ok <==> unused == 0 && id_ok(*old(g), src_ofs, Type::QField) && value_ok(
            *old(g),
            dest_ofs,
            Type::QField,
        ),
        r is Ok ==> stored(
            old(g).words(),
            final(g).words(),
            dest_ofs as int,
            i32_word(value_at(*old(g), src_ofs)),
        ),
        r is Err ==> final(g).words() == old(g).words(),
{
    if unused != 0 {
        return Err(ProgsError::with_msg("Nonzero arg3 to STORE_FLD"));
    }
    let f = match g.get_field_addr(src_ofs) {
        Ok(v) => v,
        Err(e) => { return Err(progs_error(e)); },
    };
    match g.put_field_addr(f, dest_ofs) {
        Ok(()) => Ok(()),
        Err(e) => Err(progs_error(e)),
    }
}

} // verus!
