use richter::progs::globals::{Globals, GlobalsError, GLOBAL_ADDR_ARG_0, GLOBAL_ADDR_RETURN};
use richter::progs::ops::{eq_ent, ne_fnc, not_ent, store_ent, store_f, store_fld};
use richter::progs::{
    EntityId, Function, FunctionId, FunctionKind, GlobalDef, Progs, ProgsError, Statement, StringId,
    Type,
};

fn globals(n: usize, defs: Vec<GlobalDef>) -> Globals {
    Globals::new(defs, vec![[0u8; 4]; n])
}

fn def(type_: Type, offset: u16) -> GlobalDef {
    GlobalDef { save: false, type_, offset, name_ofs: 0 }
}

#[test]
fn globals_int_roundtrip() {
    let mut g = globals(8, vec![]);
    g.put_int(-5, 3).unwrap();
    assert_eq!(g.get_int(3).unwrap(), -5);
    assert_eq!(g.get_bytes(3).unwrap(), (-5i32).to_le_bytes());
    assert!(matches!(g.get_int(-1), Err(GlobalsError::Address(-1))));
    assert!(matches!(g.get_int(9), Err(GlobalsError::Address(9))));
}

#[test]
fn globals_type_check() {
    let g = globals(8, vec![def(Type::QVector, 2), def(Type::QEntity, 5)]);
    assert!(g.type_check(2, Type::QFloat).is_ok());
    assert!(g.type_check(2, Type::QVector).is_ok());
    assert!(g.type_check(5, Type::QString).is_err());
    assert!(g.type_check(6, Type::QString).is_ok());
}

#[test]
fn globals_ids() {
    let mut g = globals(8, vec![def(Type::QEntity, 1), def(Type::QString, 2)]);
    g.put_entity_id(EntityId(7), 1).unwrap();
    assert_eq!(g.get_entity_id(1).unwrap(), EntityId(7));
    g.put_int(-3, 1).unwrap();
    assert!(matches!(g.get_entity_id(1), Err(GlobalsError::Other(_))));
    g.put_string_id(StringId(12), 2).unwrap();
    assert_eq!(g.get_string_id(2).unwrap(), StringId(12));
    assert!(g.get_string_id(1).is_err());
    g.put_function_id(FunctionId(3), 4).unwrap();
    assert_eq!(g.get_function_id(4).unwrap(), FunctionId(3));
    g.untyped_copy(4, 6).unwrap();
    assert_eq!(g.get_int(6).unwrap(), 3);
}

#[test]
fn globals_f_abs() {
    let mut g = globals(8, vec![]);
    g.put_float_bits((-2.5f32).to_bits(), GLOBAL_ADDR_ARG_0 as i16).unwrap();
    g.f_abs().unwrap();
    let r = f32::from_bits(g.get_float_bits(GLOBAL_ADDR_RETURN as i16).unwrap());
    assert_eq!(r, 2.5);
}

#[test]
fn ops_compare_entities() {
    let mut g = globals(8, vec![]);
    g.put_int(4, 2).unwrap();
    g.put_int(4, 3).unwrap();
    eq_ent(&mut g, 2, 3, 5).unwrap();
    assert_eq!(f32::from_bits(g.get_float_bits(5).unwrap()), 1.0);
    ne_fnc(&mut g, 2, 3, 6).unwrap();
    assert_eq!(f32::from_bits(g.get_float_bits(6).unwrap()), 0.0);
    not_ent(&mut g, 7, 0, 6).unwrap();
    assert_eq!(f32::from_bits(g.get_float_bits(6).unwrap()), 1.0);
    assert!(matches!(not_ent(&mut g, 7, 1, 6), Err(ProgsError::Other(_))));
    store_ent(&mut g, 2, 7, 0).unwrap();
    assert_eq!(g.get_int(7).unwrap(), 4);
}

#[test]
fn globals_word_changed_in_place() {
    let mut g = globals(8, vec![]);
    match g.get_addr_mut(2) {
        Ok(w) => *w = [9, 8, 7, 6],
        Err(e) => panic!("{:?}", e),
    }
    assert_eq!(g.get_bytes(2).unwrap(), [9, 8, 7, 6]);
    assert_eq!(g.get_bytes(1).unwrap(), [0, 0, 0, 0]);
    assert!(matches!(g.get_addr_mut(-3), Err(GlobalsError::Address(-3))));
}

#[test]
fn ops_store_float_and_field() {
    let mut g = globals(8, vec![def(Type::QField, 3), def(Type::QEntity, 6)]);
    g.put_float_bits((-0.75f32).to_bits(), 1).unwrap();
    store_f(&mut g, 1, 2, 0).unwrap();
    assert_eq!(f32::from_bits(g.get_float_bits(2).unwrap()), -0.75);
    assert!(matches!(store_f(&mut g, 1, 2, 5), Err(ProgsError::Other(_))));
    assert!(store_f(&mut g, 1, 3, 0).is_err());
    assert!(store_f(&mut g, 6, 2, 0).is_err());

    g.put_int(40, 3).unwrap();
    store_fld(&mut g, 3, 4, 0).unwrap();
    assert_eq!(g.get_int(4).unwrap(), 40);
    g.put_int(-4, 3).unwrap();
    assert!(store_fld(&mut g, 3, 4, 0).is_err());
    assert_eq!(g.get_int(4).unwrap(), 40);
}

#[test]
fn progs_strings_by_offset() {
    let f = Function {
        kind: FunctionKind::QuakeC(0),
        arg_start: 4,
        locals: 2,
        name_ofs: 1,
        srcfile_ofs: 0,
        argc: 1,
        argsz: [1, 0, 0, 0, 0, 0, 0, 0],
    };
    let s = Statement { opcode: 0, arg1: 0, arg2: 0, arg3: 0 };
    let mut p = Progs::new(vec![f], vec![s], b"\0main\0world\0".to_vec());
    assert_eq!(p.get_string_as_str(1).unwrap(), "main");
    assert_eq!(p.get_string_as_str(6).unwrap(), "world");
    assert_eq!(p.get_string_as_str(0).unwrap(), "");
    assert_eq!(p.get_string_as_str(3).unwrap(), "in");
    assert!(matches!(p.get_string_as_str(-1), Err(ProgsError::Other(_))));
    assert!(matches!(p.get_string_as_str(13), Err(ProgsError::Other(_))));
    assert_eq!(p.enter_function(FunctionId(0)), 0);
}
