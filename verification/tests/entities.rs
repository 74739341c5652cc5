use richter::entity::{EntityList, EntityListEntry, KeyAction, MAX_ENTITIES, STATIC_ADDRESS_COUNT};
use richter::progs::{EntityFieldAddr, EntityId, FieldDef, ProgsError, Type};

#[test]
fn field_addresses_round_trip() {
    let list = EntityList::with_field_count(120);
    let a = EntityFieldAddr { entity_id: 3, field_addr: 7 };
    let v = list.ent_fld_addr_to_i32(a);
    assert_eq!(v, (3 * 120 + 7) * 4);
    assert_eq!(list.ent_fld_addr_from_i32(v), a);
    assert_eq!(list.ent_fld_addr_from_i32(480), EntityFieldAddr { entity_id: 1, field_addr: 0 });
}

#[test]
fn entities_are_allocated_in_the_first_free_entry() {
    let mut list = EntityList::new(STATIC_ADDRESS_COUNT + 2, Vec::new());
    assert_eq!(list.alloc_id().unwrap(), EntityId(0));
    assert_eq!(list.alloc_uninitialized().unwrap(), EntityId(0));
    assert_eq!(list.alloc_uninitialized().unwrap(), EntityId(1));
    assert_eq!(list.alloc_id().unwrap(), EntityId(2));

    let e = list.try_get_entity(1).unwrap();
    assert_eq!(e.leaf_count, 0);
    assert_eq!(e.statics.len(), STATIC_ADDRESS_COUNT);
    assert_eq!(e.dynamics, vec![[0u8; 4]; STATIC_ADDRESS_COUNT + 2]);

    list.try_get_entity_mut(1).unwrap().dynamics[0] = [1, 2, 3, 4];
    assert_eq!(list.try_get_entity(1).unwrap().dynamics[0], [1, 2, 3, 4]);

    assert!(list.free(0).is_ok());
    assert!(matches!(list.try_get_entity(0), Err(ProgsError::Other(_))));
    assert!(list.try_get_entity_mut(0).is_err());
    assert!(list.free(0).is_ok());
    assert_eq!(list.alloc_uninitialized().unwrap(), EntityId(0));

    assert!(matches!(list.free(MAX_ENTITIES + 1), Err(ProgsError::Other(_))));
    assert!(list.try_get_entity(MAX_ENTITIES + 5).is_err());
}

#[test]
fn a_full_list_has_no_free_entry() {
    let mut list = EntityList::with_field_count(STATIC_ADDRESS_COUNT);
    for i in 0..MAX_ENTITIES {
        assert_eq!(list.alloc_uninitialized().unwrap(), EntityId(i as i32));
    }
    assert!(list.alloc_uninitialized().is_err());
    assert!(list.alloc_id().is_err());
    list.free(17).unwrap();
    assert_eq!(list.alloc_id().unwrap(), EntityId(17));
    assert!(matches!(list.try_get_entity(17), Err(_)));
    let _ = EntityListEntry::Free(0);
}

#[test]
fn entity_fields_as_bits() {
    let mut list = EntityList::new(STATIC_ADDRESS_COUNT + 4, Vec::new());
    list.alloc_uninitialized().unwrap();
    let e = list.try_get_entity_mut(0).unwrap();
    e.put_float_bits(100.0f32.to_bits(), 48).unwrap();
    assert_eq!(f32::from_bits(e.get_float_bits(48).unwrap()), 100.0);
    // address 28 holds a field that is not a float
    assert!(matches!(e.put_float_bits(1, 28), Err(ProgsError::Other(_))));
    assert!(e.get_float_bits(28).is_err());
    e.put_float_bits(7, STATIC_ADDRESS_COUNT as i16 + 3).unwrap();
    assert_eq!(e.get_float_bits(STATIC_ADDRESS_COUNT as i16 + 3).unwrap(), 7);
    // each entity has `STATIC_ADDRESS_COUNT + 4` dynamic words after its static ones
    let end = (2 * STATIC_ADDRESS_COUNT + 4) as i16;
    assert!(e.get_float_bits(end - 1).is_ok());
    assert!(e.get_float_bits(end).is_err());

    e.put_vector_bits([1, 2, 3], 10).unwrap();
    assert_eq!(e.get_vector_bits(10).unwrap(), [1, 2, 3]);
    assert!(e.get_vector_bits(11).is_err());
    e.put_vector_bits([4, 5, 6], STATIC_ADDRESS_COUNT as i16 + 1).unwrap();
    assert_eq!(e.get_vector_bits(STATIC_ADDRESS_COUNT as i16 + 1).unwrap(), [4, 5, 6]);
    assert_eq!(e.get_float_bits(STATIC_ADDRESS_COUNT as i16 + 3).unwrap(), 6);
    assert!(e.put_vector_bits([0, 0, 0], end - 3).is_ok());
    assert!(e.put_vector_bits([0, 0, 0], end - 2).is_err());
}

#[test]
fn map_keys_pick_their_fields() {
    let def = |type_, offset| FieldDef { type_, offset, name_ofs: 0 };
    let defs = vec![
        def(Type::QVector, 19),
        def(Type::QFloat, 110),
        def(Type::QString, 111),
        def(Type::QEntity, 112),
        def(Type::QField, 113),
        def(Type::QFunction, 114),
    ];
    let names: Vec<String> =
        ["angles", "light_lev", "message", "target_ent", "fld", "think"].iter().map(|s| s.to_string()).collect();
    let list = EntityList::new(STATIC_ADDRESS_COUNT + 10, defs);
    assert_eq!(list.map_key_action(&names, "_comment").unwrap(), KeyAction::Skip);
    assert_eq!(list.map_key_action(&names, "angle").unwrap(), KeyAction::Yaw(19));
    assert_eq!(list.map_key_action(&names, "angles").unwrap(), KeyAction::Vector(19));
    assert_eq!(list.map_key_action(&names, "light").unwrap(), KeyAction::Float(110));
    assert_eq!(list.map_key_action(&names, "message").unwrap(), KeyAction::String(111));
    assert_eq!(list.map_key_action(&names, "target_ent").unwrap(), KeyAction::Entity(112));
    assert_eq!(list.map_key_action(&names, "fld").unwrap(), KeyAction::FieldInEntity(113));
    assert_eq!(list.map_key_action(&names, "think").unwrap(), KeyAction::Skip);
    assert!(matches!(list.map_key_action(&names, "origin"), Err(ProgsError::Other(_))));
}
