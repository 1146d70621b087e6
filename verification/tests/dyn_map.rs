use child_by_source::attrs::AttrId;
use child_by_source::dyn_map::{DynMap, NodeMap};
use child_by_source::ids::{
    EnumVariantId, FieldId, FunctionId, ItemId, MacroCallId, StructId, UseId, VariantId,
};
use child_by_source::item_scope::DeriveMacroInvocation;
use child_by_source::syntax::{AstPtr, AttrPtr, NodeKey, TextRange};

fn ptr(kind: u16, start: u32, end: u32) -> AstPtr {
    AstPtr { kind, range: TextRange { start, end } }
}

#[test]
fn new_map_is_empty() {
    let map: NodeMap<AstPtr, FunctionId> = NodeMap::new();

    assert!(map.is_empty());
    assert_eq!(map.len(), 0);
    assert_eq!(map.get(&ptr(1, 0, 1)), None);
}

#[test]
fn insert_then_get() {
    let mut map = NodeMap::new();
    map.insert(ptr(1, 0, 5), FunctionId(3));
    map.insert(ptr(1, 6, 9), FunctionId(4));

    assert!(!map.is_empty());
    assert_eq!(map.len(), 2);
    assert_eq!(map.get(&ptr(1, 0, 5)), Some(&FunctionId(3)));
    assert_eq!(map.get(&ptr(1, 6, 9)), Some(&FunctionId(4)));
    assert_eq!(map.get(&ptr(2, 0, 5)), None);
    assert_eq!(map.get(&ptr(1, 0, 6)), None);
}

#[test]
fn insert_replaces_the_value_of_a_node() {
    let mut map = NodeMap::new();
    map.insert(ptr(1, 0, 5), FunctionId(3));
    map.insert(ptr(1, 6, 9), FunctionId(4));
    map.insert(ptr(1, 0, 5), FunctionId(5));

    assert_eq!(map.len(), 2);
    assert_eq!(map.get(&ptr(1, 0, 5)), Some(&FunctionId(5)));
    assert_eq!(map.get(&ptr(1, 6, 9)), Some(&FunctionId(4)));
}

#[test]
fn pointers_are_the_same_node_when_all_parts_agree() {
    let a = ptr(1, 0, 5);
    assert!(a.same_node(&ptr(1, 0, 5)));
    assert!(!a.same_node(&ptr(2, 0, 5)));
    assert!(!a.same_node(&ptr(1, 1, 5)));
    assert!(!a.same_node(&ptr(1, 0, 4)));

    let range = TextRange { start: 0, end: 3 };
    let attr = AttrPtr { owner: a, range };
    assert!(attr.same_node(&AttrPtr { owner: a, range }));
    assert!(!attr.same_node(&AttrPtr { owner: ptr(1, 0, 6), range }));
    assert!(!attr.same_node(&AttrPtr { owner: a, range: TextRange { start: 0, end: 4 } }));
}

#[test]
fn item_goes_to_the_category_of_its_kind() {
    let mut map = DynMap::new();
    assert!(map.is_empty());

    map.insert_item(ptr(1, 0, 5), ItemId::FunctionId(FunctionId(1)));
    map.insert_item(ptr(1, 0, 5), ItemId::UseId(UseId(2)));
    map.insert_item(ptr(1, 0, 5), ItemId::StructId(StructId(3)));

    assert!(!map.is_empty());
    assert_eq!(map.functions.get(&ptr(1, 0, 5)), Some(&FunctionId(1)));
    assert_eq!(map.uses.get(&ptr(1, 0, 5)), Some(&UseId(2)));
    assert_eq!(map.structs.get(&ptr(1, 0, 5)), Some(&StructId(3)));
    assert_eq!(map.functions.len() + map.uses.len() + map.structs.len(), 3);
    assert!(map.consts.is_empty());
}

#[test]
fn categories_with_the_same_kind_of_value_stay_apart() {
    let mut map = DynMap::default();
    let parent = VariantId::StructId(StructId(0));
    let by_position = FieldId { parent, local_id: 0 };
    let by_name = FieldId { parent, local_id: 1 };

    map.insert_tuple_field(ptr(7, 0, 2), by_position);
    map.insert_record_field(ptr(7, 0, 2), by_name);
    map.insert_enum_variant(ptr(7, 0, 2), EnumVariantId(4));
    map.insert_attr_macro_call(ptr(7, 0, 2), MacroCallId(5));

    assert_eq!(map.tuple_fields.get(&ptr(7, 0, 2)), Some(&by_position));
    assert_eq!(map.record_fields.get(&ptr(7, 0, 2)), Some(&by_name));
    assert_eq!(map.enum_variants.get(&ptr(7, 0, 2)), Some(&EnumVariantId(4)));
    assert_eq!(map.attr_macro_calls.get(&ptr(7, 0, 2)), Some(&MacroCallId(5)));
}

#[test]
fn derive_call_is_stored_under_its_attribute() {
    let mut map = DynMap::new();
    let attr = AttrPtr { owner: ptr(4, 0, 30), range: TextRange { start: 0, end: 16 } };
    let call = DeriveMacroInvocation {
        attr_id: AttrId { id: 0 },
        attr_call_id: MacroCallId(1),
        derive_call_ids: vec![Some(MacroCallId(2)), None],
    };

    map.insert_derive_macro_call(attr, call.duplicate());

    assert!(!map.is_empty());
    assert_eq!(map.derive_macro_calls.get(&attr), Some(&call));
}

#[test]
fn duplicate_copies_every_call() {
    let call = DeriveMacroInvocation {
        attr_id: AttrId { id: 9 },
        attr_call_id: MacroCallId(1),
        derive_call_ids: vec![Some(MacroCallId(2)), None, Some(MacroCallId(3))],
    };

    assert_eq!(call.duplicate(), call);
}
