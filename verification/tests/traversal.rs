use child_by_source::attrs::AttrId;
use child_by_source::child_by_source::ChildBySource;
use child_by_source::db::{
    Body, BodyOwnerData, DefDatabase, DefMap, EnumData, EnumVariantData, FileData, ImplData,
    ItemLoc, StructData, TraitData,
};
use child_by_source::dyn_map::DynMap;
use child_by_source::ids::{
    AdtId, AssocItemId, BlockId, BuiltinType, ConstId, CrateId, DefWithBodyId, EnumId,
    EnumVariantId, ExternCrateId, FieldId, FunctionId, ImplId, Macro2Id, MacroCallId, MacroId,
    MacroRulesId, ModuleDefId, ModuleId, ProcMacroId, StaticId, StructId, TraitAliasId, TraitId,
    TypeAliasId, UnionId, UseId, VariantId,
};
use child_by_source::item_scope::{DeriveMacroInvocation, ItemScope};
use child_by_source::syntax::{AstId, AstPtr, AttrPtr, HirFileId, SyntaxNode, TextRange};
use either::Either;

const BASE: HirFileId = HirFileId::FileId(0);
const EXPANSION: HirFileId = HirFileId::MacroFile(0);
const OTHER: HirFileId = HirFileId::FileId(1);

fn ptr(kind: u16, start: u32, end: u32) -> AstPtr {
    AstPtr { kind, range: TextRange { start, end } }
}

fn node(kind: u16, start: u32, text: &str) -> SyntaxNode {
    SyntaxNode { ptr: ptr(kind, start, start + text.len() as u32), text: text.to_string() }
}

fn empty_file() -> FileData {
    FileData { item_tree: Vec::new(), ast_id_map: Vec::new() }
}

fn empty_scope() -> ItemScope {
    ItemScope {
        declarations: Vec::new(),
        impls: Vec::new(),
        extern_crate_decls: Vec::new(),
        use_decls: Vec::new(),
        unnamed_consts: Vec::new(),
        attr_macros: Vec::new(),
        legacy_macros: Vec::new(),
        derive_macros: Vec::new(),
    }
}

/// A snapshot with two source files and one macro file, all empty.
fn empty_db() -> DefDatabase {
    DefDatabase {
        source_files: vec![empty_file(), empty_file()],
        macro_files: vec![empty_file()],
        functions: Vec::new(),
        consts: Vec::new(),
        statics: Vec::new(),
        in_type_consts: Vec::new(),
        type_aliases: Vec::new(),
        impls: Vec::new(),
        traits: Vec::new(),
        trait_aliases: Vec::new(),
        structs: Vec::new(),
        unions: Vec::new(),
        enums: Vec::new(),
        enum_variants: Vec::new(),
        extern_crates: Vec::new(),
        uses: Vec::new(),
        macro_rules: Vec::new(),
        macro2s: Vec::new(),
        proc_macros: Vec::new(),
        crate_def_maps: Vec::new(),
        block_def_maps: Vec::new(),
    }
}

fn file_mut(db: &mut DefDatabase, file_id: HirFileId) -> &mut FileData {
    match file_id {
        HirFileId::FileId(n) => &mut db.source_files[n as usize],
        HirFileId::MacroFile(n) => &mut db.macro_files[n as usize],
    }
}

/// Puts a node into a file's node index and gives its reference.
fn add_node(db: &mut DefDatabase, file_id: HirFileId, node: SyntaxNode) -> AstId {
    let file = file_mut(db, file_id);
    file.ast_id_map.push(node);
    AstId { file_id, value: (file.ast_id_map.len() - 1) as u32 }
}

/// Puts a node into a file as an item and gives the item's location.
fn add_item_node(db: &mut DefDatabase, file_id: HirFileId, node: SyntaxNode) -> ItemLoc {
    let ast_id = add_node(db, file_id, node);
    let file = file_mut(db, file_id);
    file.item_tree.push(ast_id.value);
    ItemLoc { file_id, value: (file.item_tree.len() - 1) as u32 }
}

fn no_body() -> Body {
    Body { blocks: Vec::new() }
}

fn add_function(db: &mut DefDatabase, file_id: HirFileId, node: SyntaxNode) -> FunctionId {
    let loc = add_item_node(db, file_id, node);
    db.functions.push(BodyOwnerData { loc, body: no_body() });
    FunctionId((db.functions.len() - 1) as u32)
}

fn add_const(db: &mut DefDatabase, file_id: HirFileId, node: SyntaxNode) -> ConstId {
    let loc = add_item_node(db, file_id, node);
    db.consts.push(BodyOwnerData { loc, body: no_body() });
    ConstId((db.consts.len() - 1) as u32)
}

fn add_type_alias(db: &mut DefDatabase, file_id: HirFileId, node: SyntaxNode) -> TypeAliasId {
    let loc = add_item_node(db, file_id, node);
    db.type_aliases.push(loc);
    TypeAliasId((db.type_aliases.len() - 1) as u32)
}

fn total(map: &DynMap) -> usize {
    map.functions.len() + map.consts.len() + map.statics.len() + map.type_aliases.len()
        + map.impls.len() + map.traits.len() + map.trait_aliases.len() + map.structs.len()
        + map.unions.len() + map.enums.len() + map.extern_crates.len() + map.uses.len()
        + map.macro_rules.len() + map.macro2s.len() + map.proc_macros.len()
        + map.enum_variants.len() + map.tuple_fields.len() + map.record_fields.len()
        + map.attr_macro_calls.len() + map.derive_macro_calls.len()
}

const FN: u16 = 1;
const CONST: u16 = 2;
const TYPE_ALIAS: u16 = 3;
const STRUCT: u16 = 4;
const ENUM: u16 = 5;
const VARIANT: u16 = 6;
const FIELD: u16 = 7;
const IMPL: u16 = 8;
const OTHER_ITEM: u16 = 9;

#[test]
fn impl_with_three_items_gives_three_categories() {
    let mut db = empty_db();
    let f = add_function(&mut db, BASE, node(FN, 10, "fn f() {}"));
    let c = add_const(&mut db, BASE, node(CONST, 20, "const C: u8 = 0;"));
    let t = add_type_alias(&mut db, BASE, node(TYPE_ALIAS, 40, "type T = u8;"));
    let loc = add_item_node(&mut db, BASE, node(IMPL, 0, "impl S {}"));
    db.impls.push(ImplData {
        loc,
        attribute_calls: Vec::new(),
        items: vec![
            AssocItemId::FunctionId(f),
            AssocItemId::ConstId(c),
            AssocItemId::TypeAliasId(t),
        ],
    });

    let res = ImplId(0).child_by_source(&db, BASE);

    assert_eq!(total(&res), 3);
    assert_eq!(res.functions.get(&ptr(FN, 10, 19)), Some(&f));
    assert_eq!(res.consts.get(&ptr(CONST, 20, 36)), Some(&c));
    assert_eq!(res.type_aliases.get(&ptr(TYPE_ALIAS, 40, 52)), Some(&t));
}

#[test]
fn impl_items_of_another_file_are_left_out() {
    let mut db = empty_db();
    let f = add_function(&mut db, BASE, node(FN, 10, "fn f() {}"));
    let g = add_function(&mut db, EXPANSION, node(FN, 0, "fn g() {}"));
    let loc = add_item_node(&mut db, BASE, node(IMPL, 0, "impl S {}"));
    db.impls.push(ImplData {
        loc,
        attribute_calls: Vec::new(),
        items: vec![AssocItemId::FunctionId(f), AssocItemId::FunctionId(g)],
    });

    let base = ImplId(0).child_by_source(&db, BASE);
    assert_eq!(total(&base), 1);
    assert_eq!(base.functions.get(&ptr(FN, 10, 19)), Some(&f));

    let expansion = ImplId(0).child_by_source(&db, EXPANSION);
    assert_eq!(total(&expansion), 1);
    assert_eq!(expansion.functions.get(&ptr(FN, 0, 9)), Some(&g));
}

#[test]
fn trait_reports_attribute_calls_of_the_file_then_items() {
    let mut db = empty_db();
    let f = add_function(&mut db, BASE, node(FN, 10, "fn f();"));
    let here = add_node(&mut db, BASE, node(FN, 30, "#[a] fn g();"));
    let there = add_node(&mut db, EXPANSION, node(FN, 0, "#[a] fn h();"));
    let loc = add_item_node(&mut db, BASE, node(OTHER_ITEM, 0, "trait T {}"));
    db.traits.push(TraitData {
        loc,
        attribute_calls: vec![(here, MacroCallId(1)), (there, MacroCallId(2))],
        items: vec![AssocItemId::FunctionId(f)],
    });

    let res = TraitId(0).child_by_source(&db, BASE);

    assert_eq!(total(&res), 2);
    assert_eq!(res.attr_macro_calls.get(&ptr(FN, 30, 42)), Some(&MacroCallId(1)));
    assert_eq!(res.functions.get(&ptr(FN, 10, 17)), Some(&f));

    let res = TraitId(0).child_by_source(&db, EXPANSION);
    assert_eq!(total(&res), 1);
    assert_eq!(res.attr_macro_calls.get(&ptr(FN, 0, 12)), Some(&MacroCallId(2)));
}

#[test]
fn struct_with_two_tuple_fields_whatever_the_file() {
    let mut db = empty_db();
    let loc = add_item_node(&mut db, BASE, node(STRUCT, 0, "struct S(u8, u16);"));
    db.structs.push(StructData {
        loc,
        fields: vec![Either::Left(ptr(FIELD, 9, 11)), Either::Left(ptr(FIELD, 13, 16))],
    });
    let parent = VariantId::StructId(StructId(0));

    for file_id in [BASE, EXPANSION, OTHER] {
        let res = parent.child_by_source(&db, file_id);
        assert_eq!(total(&res), 2);
        assert_eq!(res.tuple_fields.len(), 2);
        assert_eq!(
            res.tuple_fields.get(&ptr(FIELD, 9, 11)),
            Some(&FieldId { parent, local_id: 0 })
        );
        assert_eq!(
            res.tuple_fields.get(&ptr(FIELD, 13, 16)),
            Some(&FieldId { parent, local_id: 1 })
        );
    }
}

#[test]
fn union_fields_are_record_fields() {
    let mut db = empty_db();
    let loc = add_item_node(&mut db, BASE, node(OTHER_ITEM, 0, "union U { a: u8 }"));
    db.unions.push(StructData { loc, fields: vec![Either::Right(ptr(FIELD, 10, 15))] });
    let parent = VariantId::UnionId(UnionId(0));

    let res = parent.child_by_source(&db, OTHER);

    assert_eq!(total(&res), 1);
    assert_eq!(res.record_fields.get(&ptr(FIELD, 10, 15)), Some(&FieldId { parent, local_id: 0 }));
}

/// `enum E { V { x: u8 } }` in the base file.
fn enum_with_record_variant() -> DefDatabase {
    let mut db = empty_db();
    let loc = add_item_node(&mut db, BASE, node(ENUM, 0, "enum E { V { x: u8 } }"));
    let variant = add_item_node(&mut db, BASE, node(VARIANT, 9, "V { x: u8 }"));
    db.enums.push(EnumData { loc, variants: vec![EnumVariantId(0)] });
    db.enum_variants.push(EnumVariantData {
        parent: EnumId(0),
        value: variant.value,
        fields: vec![Either::Right(ptr(FIELD, 13, 18))],
        body: no_body(),
    });
    db
}

#[test]
fn enum_gives_its_variant_and_the_variant_its_field() {
    let db = enum_with_record_variant();

    let res = EnumId(0).child_by_source(&db, BASE);
    assert_eq!(total(&res), 1);
    assert_eq!(res.enum_variants.get(&ptr(VARIANT, 9, 20)), Some(&EnumVariantId(0)));

    let parent = VariantId::EnumVariantId(EnumVariantId(0));
    let res = parent.child_by_source(&db, BASE);
    assert_eq!(total(&res), 1);
    assert_eq!(res.record_fields.get(&ptr(FIELD, 13, 18)), Some(&FieldId { parent, local_id: 0 }));
}

#[test]
fn enum_of_another_file_gives_nothing() {
    let db = enum_with_record_variant();

    let res = EnumId(0).child_by_source(&db, EXPANSION);

    assert!(res.is_empty());
    assert_eq!(total(&res), 0);
}

#[test]
fn enum_variant_is_found_through_the_tree_of_the_enum_file() {
    let mut db = empty_db();
    // Two nodes in front, so that item slots and node slots differ.
    add_node(&mut db, EXPANSION, node(OTHER_ITEM, 0, "mod a;"));
    add_node(&mut db, EXPANSION, node(OTHER_ITEM, 7, "mod b;"));
    let loc = add_item_node(&mut db, EXPANSION, node(ENUM, 14, "enum E { A, B }"));
    let a = add_item_node(&mut db, EXPANSION, node(VARIANT, 23, "A"));
    let b = add_item_node(&mut db, EXPANSION, node(VARIANT, 26, "B"));
    db.enums.push(EnumData { loc, variants: vec![EnumVariantId(1), EnumVariantId(0)] });
    for value in [a.value, b.value] {
        db.enum_variants.push(EnumVariantData {
            parent: EnumId(0),
            value,
            fields: Vec::new(),
            body: no_body(),
        });
    }

    let res = EnumId(0).child_by_source(&db, EXPANSION);

    assert_eq!(total(&res), 2);
    assert_eq!(res.enum_variants.get(&ptr(VARIANT, 23, 24)), Some(&EnumVariantId(0)));
    assert_eq!(res.enum_variants.get(&ptr(VARIANT, 26, 27)), Some(&EnumVariantId(1)));
}

fn derive(index: u32, call: u32) -> DeriveMacroInvocation {
    DeriveMacroInvocation {
        attr_id: AttrId { id: index },
        attr_call_id: MacroCallId(call),
        derive_call_ids: vec![Some(MacroCallId(call + 100)), None],
    }
}

#[test]
fn two_derives_map_to_their_own_attributes() {
    let mut db = empty_db();
    let adt = node(STRUCT, 50, "#[derive(Clone)]\n#[derive(Debug)]\nstruct S;");
    let owner = adt.ptr;
    let ast_id = add_node(&mut db, BASE, adt);
    let mut scope = empty_scope();
    scope.derive_macros.push((ast_id, vec![derive(0, 1), derive(1, 2)]));

    let res = scope.child_by_source(&db, BASE);

    assert_eq!(total(&res), 2);
    let first = AttrPtr { owner, range: TextRange { start: 0, end: 16 } };
    let second = AttrPtr { owner, range: TextRange { start: 17, end: 33 } };
    assert_eq!(res.derive_macro_calls.get(&first), Some(&derive(0, 1)));
    assert_eq!(res.derive_macro_calls.get(&second), Some(&derive(1, 2)));
}

#[test]
fn doc_comment_between_derives_keeps_them_aligned() {
    let mut db = empty_db();
    let adt = node(STRUCT, 50, "#[derive(Clone)]\n/// doc\n#[derive(Debug)]\nstruct S;");
    let owner = adt.ptr;
    let ast_id = add_node(&mut db, BASE, adt);
    let mut scope = empty_scope();
    // Recorded anew after the comment was put in: the comment has position 1.
    scope.derive_macros.push((ast_id, vec![derive(0, 1), derive(2, 2)]));

    let res = scope.child_by_source(&db, BASE);

    assert_eq!(total(&res), 2);
    let first = AttrPtr { owner, range: TextRange { start: 0, end: 16 } };
    let second = AttrPtr { owner, range: TextRange { start: 25, end: 41 } };
    assert_eq!(res.derive_macro_calls.get(&first), Some(&derive(0, 1)));
    assert_eq!(res.derive_macro_calls.get(&second), Some(&derive(2, 2)));
    let comment = AttrPtr { owner, range: TextRange { start: 17, end: 24 } };
    assert_eq!(res.derive_macro_calls.get(&comment), None);
}

#[test]
fn stale_derive_positions_are_skipped() {
    let mut db = empty_db();
    let adt = node(STRUCT, 50, "#[derive(Clone)]\n/// doc\n#[derive(Debug)]\nstruct S;");
    let owner = adt.ptr;
    let ast_id = add_node(&mut db, BASE, adt);
    let mut scope = empty_scope();
    // Position 1 is the doc comment, position 3 does not exist.
    scope.derive_macros.push((ast_id, vec![derive(1, 1), derive(3, 2), derive(0, 3)]));

    let res = scope.child_by_source(&db, BASE);

    assert_eq!(total(&res), 1);
    let first = AttrPtr { owner, range: TextRange { start: 0, end: 16 } };
    assert_eq!(res.derive_macro_calls.get(&first), Some(&derive(0, 3)));
}

#[test]
fn derive_position_ignores_the_cfg_attr_bits() {
    let mut db = empty_db();
    let adt = node(STRUCT, 0, "#[cfg_attr(all(), derive(Clone))]\n#[derive(Debug)]\nstruct S;");
    let owner = adt.ptr;
    let ast_id = add_node(&mut db, BASE, adt);
    let mut scope = empty_scope();
    let nested = (1u32 << 31) | (5 << 24) | 1;
    scope.derive_macros.push((ast_id, vec![derive(nested, 1)]));

    let res = scope.child_by_source(&db, BASE);

    assert_eq!(total(&res), 1);
    let second = AttrPtr { owner, range: TextRange { start: 34, end: 50 } };
    assert_eq!(res.derive_macro_calls.get(&second), Some(&derive(nested, 1)));
}

#[test]
fn derives_on_items_of_another_file_are_left_out() {
    let mut db = empty_db();
    let here = add_node(&mut db, BASE, node(STRUCT, 0, "#[derive(Clone)]\nstruct S;"));
    let there = add_node(&mut db, EXPANSION, node(STRUCT, 0, "#[derive(Clone)]\nstruct T;"));
    let mut scope = empty_scope();
    scope.derive_macros.push((here, vec![derive(0, 1)]));
    scope.derive_macros.push((there, vec![derive(0, 2)]));

    let res = scope.child_by_source(&db, EXPANSION);

    assert_eq!(total(&res), 1);
    let attr = AttrPtr { owner: ptr(STRUCT, 0, 26), range: TextRange { start: 0, end: 16 } };
    assert_eq!(res.derive_macro_calls.get(&attr), Some(&derive(0, 2)));
}

#[test]
fn two_items_with_derives_do_not_collide() {
    let mut db = empty_db();
    let s = add_node(&mut db, BASE, node(STRUCT, 0, "#[derive(Clone)]\nstruct S;"));
    let t = add_node(&mut db, BASE, node(STRUCT, 30, "#[derive(Clone)]\nstruct T;"));
    let mut scope = empty_scope();
    scope.derive_macros.push((s, vec![derive(0, 1)]));
    scope.derive_macros.push((t, vec![derive(0, 2)]));

    let res = scope.child_by_source(&db, BASE);

    assert_eq!(total(&res), 2);
    let range = TextRange { start: 0, end: 16 };
    let on_s = AttrPtr { owner: ptr(STRUCT, 0, 26), range };
    let on_t = AttrPtr { owner: ptr(STRUCT, 30, 56), range };
    assert_eq!(res.derive_macro_calls.get(&on_s), Some(&derive(0, 1)));
    assert_eq!(res.derive_macro_calls.get(&on_t), Some(&derive(0, 2)));
}

/// A module with one item of every kind, the odd ones in the base file and
/// the even ones in a macro expansion.
fn split_module() -> (DefDatabase, ItemScope, Vec<(HirFileId, AstPtr)>) {
    let mut db = empty_db();
    let mut scope = empty_scope();
    let mut places = Vec::new();
    for n in 0..15u32 {
        let file_id = if n % 2 == 1 { BASE } else { EXPANSION };
        let item = node(100 + n as u16, 10 * n, "item");
        places.push((file_id, item.ptr));
        let loc = add_item_node(&mut db, file_id, item);
        let owner = BodyOwnerData { loc, body: no_body() };
        match n {
            0 => {
                db.functions.push(owner);
                scope.declarations.push(ModuleDefId::FunctionId(FunctionId(0)));
            }
            1 => {
                db.consts.push(owner);
                scope.declarations.push(ModuleDefId::ConstId(ConstId(0)));
            }
            2 => {
                db.statics.push(owner);
                scope.declarations.push(ModuleDefId::StaticId(StaticId(0)));
            }
            3 => {
                db.type_aliases.push(loc);
                scope.declarations.push(ModuleDefId::TypeAliasId(TypeAliasId(0)));
            }
            4 => {
                db.traits.push(TraitData { loc, attribute_calls: Vec::new(), items: Vec::new() });
                scope.declarations.push(ModuleDefId::TraitId(TraitId(0)));
            }
            5 => {
                db.trait_aliases.push(loc);
                scope.declarations.push(ModuleDefId::TraitAliasId(TraitAliasId(0)));
            }
            6 => {
                db.structs.push(StructData { loc, fields: Vec::new() });
                scope.declarations.push(ModuleDefId::AdtId(AdtId::StructId(StructId(0))));
            }
            7 => {
                db.unions.push(StructData { loc, fields: Vec::new() });
                scope.declarations.push(ModuleDefId::AdtId(AdtId::UnionId(UnionId(0))));
            }
            8 => {
                db.enums.push(EnumData { loc, variants: Vec::new() });
                scope.declarations.push(ModuleDefId::AdtId(AdtId::EnumId(EnumId(0))));
            }
            9 => {
                db.macro2s.push(loc);
                scope.declarations.push(ModuleDefId::MacroId(MacroId::Macro2Id(Macro2Id(0))));
            }
            10 => {
                db.macro_rules.push(loc);
                scope.declarations.push(ModuleDefId::MacroId(MacroId::MacroRulesId(
                    MacroRulesId(0),
                )));
            }
            11 => {
                db.proc_macros.push(loc);
                scope.declarations.push(ModuleDefId::MacroId(MacroId::ProcMacroId(ProcMacroId(
                    0,
                ))));
            }
            12 => {
                db.impls.push(ImplData { loc, attribute_calls: Vec::new(), items: Vec::new() });
                scope.impls.push(ImplId(0));
            }
            13 => {
                db.extern_crates.push(loc);
                scope.extern_crate_decls.push(ExternCrateId(0));
            }
            _ => {
                db.uses.push(loc);
                scope.use_decls.push(UseId(0));
            }
        }
    }
    (db, scope, places)
}

fn assert_items_of(res: &DynMap, places: &[(HirFileId, AstPtr)], file_id: HirFileId) {
    let here = |n: usize| places[n].0 == file_id;
    let at = |n: usize| &places[n].1;
    assert_eq!(res.functions.get(at(0)).copied(), here(0).then_some(FunctionId(0)));
    assert_eq!(res.consts.get(at(1)).copied(), here(1).then_some(ConstId(0)));
    assert_eq!(res.statics.get(at(2)).copied(), here(2).then_some(StaticId(0)));
    assert_eq!(res.type_aliases.get(at(3)).copied(), here(3).then_some(TypeAliasId(0)));
    assert_eq!(res.traits.get(at(4)).copied(), here(4).then_some(TraitId(0)));
    assert_eq!(res.trait_aliases.get(at(5)).copied(), here(5).then_some(TraitAliasId(0)));
    assert_eq!(res.structs.get(at(6)).copied(), here(6).then_some(StructId(0)));
    assert_eq!(res.unions.get(at(7)).copied(), here(7).then_some(UnionId(0)));
    assert_eq!(res.enums.get(at(8)).copied(), here(8).then_some(EnumId(0)));
    assert_eq!(res.macro2s.get(at(9)).copied(), here(9).then_some(Macro2Id(0)));
    assert_eq!(res.macro_rules.get(at(10)).copied(), here(10).then_some(MacroRulesId(0)));
    assert_eq!(res.proc_macros.get(at(11)).copied(), here(11).then_some(ProcMacroId(0)));
    assert_eq!(res.impls.get(at(12)).copied(), here(12).then_some(ImplId(0)));
    assert_eq!(res.extern_crates.get(at(13)).copied(), here(13).then_some(ExternCrateId(0)));
    assert_eq!(res.uses.get(at(14)).copied(), here(14).then_some(UseId(0)));
}

#[test]
fn every_item_of_a_module_is_found_in_its_file() {
    let (db, scope, places) = split_module();

    let base = scope.child_by_source(&db, BASE);
    assert_eq!(total(&base), 7);
    assert_items_of(&base, &places, BASE);

    let expansion = scope.child_by_source(&db, EXPANSION);
    assert_eq!(total(&expansion), 8);
    assert_items_of(&expansion, &places, EXPANSION);
}

#[test]
fn two_files_split_a_module() {
    let (db, scope, places) = split_module();

    let base = scope.child_by_source(&db, BASE);
    let expansion = scope.child_by_source(&db, EXPANSION);

    // Together the two indexes hold every child, and none of them twice:
    // `assert_items_of` finds each item in the index of its own file and
    // misses it in the other one.
    assert_eq!(total(&base) + total(&expansion), places.len());
    assert_items_of(&base, &places, BASE);
    assert_items_of(&expansion, &places, EXPANSION);
    assert!(places.iter().all(|(file_id, _)| *file_id == BASE || *file_id == EXPANSION));
}

#[test]
fn file_without_children_gives_the_empty_index() {
    let (db, scope, _) = split_module();

    let res = scope.child_by_source(&db, OTHER);

    assert!(res.is_empty());
    assert_eq!(total(&res), 0);
}

#[test]
fn file_unknown_to_the_snapshot_gives_the_empty_index() {
    let (db, scope, _) = split_module();

    let res = scope.child_by_source(&db, HirFileId::MacroFile(77));

    assert!(res.is_empty());
}

#[test]
fn modules_variants_and_builtin_types_have_no_entry() {
    let db = empty_db();
    let mut scope = empty_scope();
    scope.declarations.push(ModuleDefId::ModuleId(ModuleId {
        krate: CrateId(0),
        block: None,
        local_id: 3,
    }));
    scope.declarations.push(ModuleDefId::EnumVariantId(EnumVariantId(9)));
    scope.declarations.push(ModuleDefId::BuiltinType(BuiltinType(2)));

    let res = scope.child_by_source(&db, BASE);

    assert!(res.is_empty());
}

#[test]
fn anonymous_constants_are_constants() {
    let mut db = empty_db();
    let named = add_const(&mut db, BASE, node(CONST, 0, "const A: u8 = 0;"));
    let anonymous = add_const(&mut db, BASE, node(CONST, 20, "const _: u8 = 0;"));
    let mut scope = empty_scope();
    scope.declarations.push(ModuleDefId::ConstId(named));
    scope.unnamed_consts.push(anonymous);

    let res = scope.child_by_source(&db, BASE);

    assert_eq!(total(&res), 2);
    assert_eq!(res.consts.get(&ptr(CONST, 0, 16)), Some(&named));
    assert_eq!(res.consts.get(&ptr(CONST, 20, 36)), Some(&anonymous));
}

#[test]
fn module_attribute_calls_are_filtered_by_the_site() {
    let mut db = empty_db();
    let here = add_node(&mut db, BASE, node(FN, 0, "#[a] fn f() {}"));
    let there = add_node(&mut db, EXPANSION, node(FN, 0, "#[a] fn g() {}"));
    let mut scope = empty_scope();
    scope.attr_macros.push((here, MacroCallId(1)));
    scope.attr_macros.push((there, MacroCallId(2)));

    let res = scope.child_by_source(&db, BASE);

    assert_eq!(total(&res), 1);
    assert_eq!(res.attr_macro_calls.get(&ptr(FN, 0, 14)), Some(&MacroCallId(1)));
}

#[test]
fn only_macro_rules_come_from_textual_scope() {
    let mut db = empty_db();
    let first = add_item_node(&mut db, BASE, node(OTHER_ITEM, 0, "macro_rules! a { () => {} }"));
    let second = add_item_node(&mut db, BASE, node(OTHER_ITEM, 30, "macro_rules! a { () => {} }"));
    let foreign =
        add_item_node(&mut db, EXPANSION, node(OTHER_ITEM, 0, "macro_rules! b { () => {} }"));
    db.macro_rules.extend([first, second, foreign]);
    let mut scope = empty_scope();
    scope.legacy_macros.push(vec![
        MacroId::MacroRulesId(MacroRulesId(0)),
        MacroId::Macro2Id(Macro2Id(5)),
        MacroId::MacroRulesId(MacroRulesId(1)),
    ]);
    scope.legacy_macros.push(vec![
        MacroId::ProcMacroId(ProcMacroId(5)),
        MacroId::MacroRulesId(MacroRulesId(2)),
    ]);

    let res = scope.child_by_source(&db, BASE);

    assert_eq!(total(&res), 2);
    assert_eq!(res.macro_rules.get(&ptr(OTHER_ITEM, 0, 27)), Some(&MacroRulesId(0)));
    assert_eq!(res.macro_rules.get(&ptr(OTHER_ITEM, 30, 57)), Some(&MacroRulesId(1)));
}

#[test]
fn module_is_looked_up_in_its_own_tree() {
    let mut db = empty_db();
    let f = add_function(&mut db, BASE, node(FN, 0, "fn f() {}"));
    let g = add_function(&mut db, BASE, node(FN, 10, "fn g() {}"));
    let mut outer = empty_scope();
    outer.declarations.push(ModuleDefId::FunctionId(f));
    let mut inner = empty_scope();
    inner.declarations.push(ModuleDefId::FunctionId(g));
    db.crate_def_maps.push(DefMap { modules: vec![empty_scope(), outer] });
    db.block_def_maps.push(DefMap { modules: vec![inner] });

    let module = ModuleId { krate: CrateId(0), block: None, local_id: 1 };
    let res = module.child_by_source(&db, BASE);
    assert_eq!(total(&res), 1);
    assert_eq!(res.functions.get(&ptr(FN, 0, 9)), Some(&f));

    let module = ModuleId { krate: CrateId(0), block: Some(BlockId(0)), local_id: 0 };
    let res = module.child_by_source(&db, BASE);
    assert_eq!(total(&res), 1);
    assert_eq!(res.functions.get(&ptr(FN, 10, 19)), Some(&g));
}

#[test]
fn local_function_of_a_block_is_merged_into_the_body() {
    let mut db = empty_db();
    let outer = add_function(&mut db, BASE, node(FN, 0, "fn outer() { { fn inner() {} } }"));
    let inner = add_function(&mut db, BASE, node(FN, 15, "fn inner() {}"));
    let helper = add_function(&mut db, BASE, node(FN, 40, "fn helper() {}"));
    let mut first = empty_scope();
    first.declarations.push(ModuleDefId::FunctionId(inner));
    let mut second = empty_scope();
    second.declarations.push(ModuleDefId::FunctionId(helper));
    db.block_def_maps.push(DefMap { modules: vec![first] });
    db.block_def_maps.push(DefMap { modules: vec![second] });
    db.functions[outer.0 as usize].body = Body { blocks: vec![BlockId(0), BlockId(1)] };

    let res = DefWithBodyId::FunctionId(outer).child_by_source(&db, BASE);

    assert_eq!(total(&res), 2);
    assert_eq!(res.functions.get(&ptr(FN, 15, 28)), Some(&inner));
    assert_eq!(res.functions.get(&ptr(FN, 40, 54)), Some(&helper));

    let res = DefWithBodyId::FunctionId(outer).child_by_source(&db, EXPANSION);
    assert!(res.is_empty());
}

#[test]
fn variant_body_gives_fields_and_block_items() {
    let mut db = enum_with_record_variant();
    let inner = add_function(&mut db, BASE, node(FN, 30, "fn inner() {}"));
    let mut block = empty_scope();
    block.declarations.push(ModuleDefId::FunctionId(inner));
    db.block_def_maps.push(DefMap { modules: vec![block] });
    db.enum_variants[0].body = Body { blocks: vec![BlockId(0)] };
    let parent = VariantId::EnumVariantId(EnumVariantId(0));

    let res = DefWithBodyId::VariantId(EnumVariantId(0)).child_by_source(&db, BASE);
    assert_eq!(total(&res), 2);
    assert_eq!(res.record_fields.get(&ptr(FIELD, 13, 18)), Some(&FieldId { parent, local_id: 0 }));
    assert_eq!(res.functions.get(&ptr(FN, 30, 43)), Some(&inner));

    // The fields do not depend on the file, the block's items do.
    let res = DefWithBodyId::VariantId(EnumVariantId(0)).child_by_source(&db, OTHER);
    assert_eq!(total(&res), 1);
    assert_eq!(res.record_fields.len(), 1);
}

#[test]
fn bodies_of_statics_constants_and_type_constants() {
    let mut db = empty_db();
    let inner = add_function(&mut db, BASE, node(FN, 30, "fn inner() {}"));
    let mut block = empty_scope();
    block.declarations.push(ModuleDefId::FunctionId(inner));
    db.block_def_maps.push(DefMap { modules: vec![block] });
    let body = Body { blocks: vec![BlockId(0)] };
    let loc = add_item_node(&mut db, BASE, node(OTHER_ITEM, 0, "static S: u8 = 0;"));
    db.statics.push(BodyOwnerData { loc, body: body.clone() });
    db.consts.push(BodyOwnerData { loc, body: body.clone() });
    db.in_type_consts.push(body);

    for def in [
        DefWithBodyId::StaticId(StaticId(0)),
        DefWithBodyId::ConstId(ConstId(0)),
        DefWithBodyId::InTypeConstId(child_by_source::ids::InTypeConstId(0)),
    ] {
        let res = def.child_by_source(&db, BASE);
        assert_eq!(total(&res), 1);
        assert_eq!(res.functions.get(&ptr(FN, 30, 43)), Some(&inner));
    }
}

#[test]
fn child_by_source_to_adds_to_what_is_there() {
    let mut db = empty_db();
    let f = add_function(&mut db, BASE, node(FN, 0, "fn f() {}"));
    let g = add_function(&mut db, BASE, node(FN, 10, "fn g() {}"));
    let mut scope = empty_scope();
    scope.declarations.push(ModuleDefId::FunctionId(g));
    let mut res = DynMap::new();
    res.functions.insert(ptr(FN, 0, 9), f);
    res.functions.insert(ptr(FN, 10, 19), f);

    scope.child_by_source_to(&db, &mut res, BASE);

    assert_eq!(total(&res), 2);
    assert_eq!(res.functions.get(&ptr(FN, 0, 9)), Some(&f));
    // The node of `g` stood for `f` before and now stands for `g`.
    assert_eq!(res.functions.get(&ptr(FN, 10, 19)), Some(&g));
}

#[test]
fn later_child_wins_a_shared_node() {
    let mut db = empty_db();
    let loc = add_item_node(&mut db, BASE, node(FN, 0, "fn f() {}"));
    db.functions.push(BodyOwnerData { loc, body: no_body() });
    db.functions.push(BodyOwnerData { loc, body: no_body() });
    let mut scope = empty_scope();
    scope.declarations.push(ModuleDefId::FunctionId(FunctionId(0)));
    scope.declarations.push(ModuleDefId::FunctionId(FunctionId(1)));

    let res = scope.child_by_source(&db, BASE);

    assert_eq!(total(&res), 1);
    assert_eq!(res.functions.get(&ptr(FN, 0, 9)), Some(&FunctionId(1)));
}

#[test]
fn well_formed_containers_are_resolvable() {
    let (db, scope, _) = split_module();
    for file_id in [BASE, EXPANSION, OTHER, HirFileId::MacroFile(77)] {
        assert!(scope.is_resolvable(&db, file_id));
    }

    let db = enum_with_record_variant();
    assert!(EnumId(0).is_resolvable(&db, BASE));
    assert!(EnumId(0).is_resolvable(&db, OTHER));
    assert!(VariantId::EnumVariantId(EnumVariantId(0)).is_resolvable(&db, OTHER));
    assert!(DefWithBodyId::VariantId(EnumVariantId(0)).is_resolvable(&db, BASE));
}

#[test]
fn identifier_outside_its_table_is_not_resolvable() {
    let db = empty_db();
    let mut scope = empty_scope();
    scope.declarations.push(ModuleDefId::FunctionId(FunctionId(0)));
    assert!(!scope.is_resolvable(&db, BASE));

    let mut scope = empty_scope();
    scope.impls.push(ImplId(0));
    assert!(!scope.is_resolvable(&db, BASE));

    let mut scope = empty_scope();
    scope.legacy_macros.push(vec![
        MacroId::Macro2Id(Macro2Id(0)),
        MacroId::MacroRulesId(MacroRulesId(0)),
    ]);
    assert!(!scope.is_resolvable(&db, BASE));

    assert!(!TraitId(0).is_resolvable(&db, BASE));
    assert!(!ImplId(0).is_resolvable(&db, BASE));
    assert!(!EnumId(0).is_resolvable(&db, BASE));
    assert!(!VariantId::StructId(StructId(0)).is_resolvable(&db, BASE));
    assert!(!VariantId::UnionId(UnionId(0)).is_resolvable(&db, BASE));
    assert!(!DefWithBodyId::FunctionId(FunctionId(0)).is_resolvable(&db, BASE));
    assert!(!DefWithBodyId::VariantId(EnumVariantId(0)).is_resolvable(&db, BASE));
    let module = ModuleId { krate: CrateId(0), block: None, local_id: 0 };
    assert!(!module.is_resolvable(&db, BASE));
}

#[test]
fn macros_other_than_macro_rules_are_not_looked_up() {
    let db = empty_db();
    let mut scope = empty_scope();
    scope.legacy_macros.push(vec![
        MacroId::Macro2Id(Macro2Id(9)),
        MacroId::ProcMacroId(ProcMacroId(9)),
    ]);

    assert!(scope.is_resolvable(&db, BASE));
    assert!(scope.child_by_source(&db, BASE).is_empty());
}

#[test]
fn dangling_location_matters_only_in_its_own_file() {
    let mut db = empty_db();
    // The item tree of the expansion has no slot 5.
    db.functions.push(BodyOwnerData {
        loc: ItemLoc { file_id: EXPANSION, value: 5 },
        body: no_body(),
    });
    let mut scope = empty_scope();
    scope.declarations.push(ModuleDefId::FunctionId(FunctionId(0)));

    assert!(!scope.is_resolvable(&db, EXPANSION));
    assert!(scope.is_resolvable(&db, BASE));
    assert!(scope.child_by_source(&db, BASE).is_empty());
}

#[test]
fn item_slot_without_a_node_is_not_resolvable() {
    let mut db = empty_db();
    db.source_files[0].item_tree.push(3);
    db.functions.push(BodyOwnerData { loc: ItemLoc { file_id: BASE, value: 0 }, body: no_body() });
    let mut scope = empty_scope();
    scope.declarations.push(ModuleDefId::FunctionId(FunctionId(0)));

    assert!(!scope.is_resolvable(&db, BASE));
}

#[test]
fn dangling_macro_site_matters_only_in_its_own_file() {
    let db = empty_db();
    let site = AstId { file_id: EXPANSION, value: 0 };
    let mut scope = empty_scope();
    scope.attr_macros.push((site, MacroCallId(1)));
    assert!(!scope.is_resolvable(&db, EXPANSION));
    assert!(scope.is_resolvable(&db, BASE));

    let mut scope = empty_scope();
    scope.derive_macros.push((site, vec![derive(0, 1)]));
    assert!(!scope.is_resolvable(&db, EXPANSION));
    assert!(scope.is_resolvable(&db, BASE));

    let unknown = AstId { file_id: HirFileId::FileId(9), value: 0 };
    let mut scope = empty_scope();
    scope.attr_macros.push((unknown, MacroCallId(1)));
    assert!(!scope.is_resolvable(&db, HirFileId::FileId(9)));
}

#[test]
fn enum_variants_are_checked_in_the_file_of_the_enum() {
    let mut db = enum_with_record_variant();
    db.enums[0].variants.push(EnumVariantId(7));

    assert!(!EnumId(0).is_resolvable(&db, BASE));
    assert!(EnumId(0).is_resolvable(&db, EXPANSION));

    let mut db = enum_with_record_variant();
    db.enum_variants[0].value = 9;
    assert!(!EnumId(0).is_resolvable(&db, BASE));
}

#[test]
fn body_needs_the_module_tree_of_each_block() {
    let mut db = empty_db();
    let f = add_function(&mut db, BASE, node(FN, 0, "fn f() { { } }"));
    db.functions[0].body = Body { blocks: vec![BlockId(0)] };
    let def = DefWithBodyId::FunctionId(f);
    assert!(!def.is_resolvable(&db, BASE));

    db.block_def_maps.push(DefMap { modules: Vec::new() });
    assert!(!def.is_resolvable(&db, BASE));

    db.block_def_maps[0].modules.push(empty_scope());
    assert!(def.is_resolvable(&db, BASE));

    db.block_def_maps[0].modules[0].use_decls.push(UseId(0));
    assert!(!def.is_resolvable(&db, BASE));
}

#[test]
fn module_needs_its_slot_in_the_tree() {
    let mut db = empty_db();
    db.crate_def_maps.push(DefMap { modules: vec![empty_scope()] });

    assert!(ModuleId { krate: CrateId(0), block: None, local_id: 0 }.is_resolvable(&db, BASE));
    assert!(!ModuleId { krate: CrateId(0), block: None, local_id: 1 }.is_resolvable(&db, BASE));
    assert!(!ModuleId { krate: CrateId(1), block: None, local_id: 0 }.is_resolvable(&db, BASE));
    let in_block = ModuleId { krate: CrateId(0), block: Some(BlockId(0)), local_id: 0 };
    assert!(!in_block.is_resolvable(&db, BASE));
}

#[test]
fn trait_items_are_checked() {
    let mut db = empty_db();
    let loc = add_item_node(&mut db, BASE, node(OTHER_ITEM, 0, "trait T {}"));
    db.traits.push(TraitData {
        loc,
        attribute_calls: Vec::new(),
        items: vec![AssocItemId::TypeAliasId(TypeAliasId(0))],
    });
    assert!(!TraitId(0).is_resolvable(&db, BASE));

    db.type_aliases.push(loc);
    assert!(TraitId(0).is_resolvable(&db, BASE));

    db.traits[0].attribute_calls.push((AstId { file_id: BASE, value: 40 }, MacroCallId(0)));
    assert!(!TraitId(0).is_resolvable(&db, BASE));
    assert!(TraitId(0).is_resolvable(&db, EXPANSION));
}

#[test]
fn item_without_text_has_no_attributes() {
    let mut db = empty_db();
    let ast_id = add_node(&mut db, BASE, node(STRUCT, 0, ""));
    let mut scope = empty_scope();
    scope.derive_macros.push((ast_id, vec![derive(0, 1)]));

    assert!(scope.is_resolvable(&db, BASE));
    assert!(scope.child_by_source(&db, BASE).is_empty());
}

#[test]
fn attribute_spans_are_counted_in_bytes() {
    let mut db = empty_db();
    let adt = node(STRUCT, 0, "/// \u{e9}\n#[derive(Clone)]\nstruct S;");
    let owner = adt.ptr;
    let ast_id = add_node(&mut db, BASE, adt);
    let mut scope = empty_scope();
    scope.derive_macros.push((ast_id, vec![derive(1, 1)]));

    let res = scope.child_by_source(&db, BASE);

    assert_eq!(total(&res), 1);
    let attr = AttrPtr { owner, range: TextRange { start: 7, end: 23 } };
    assert_eq!(res.derive_macro_calls.get(&attr), Some(&derive(1, 1)));
}

#[test]
fn only_the_first_item_of_a_text_is_looked_at() {
    let mut db = empty_db();
    let text = "#[derive(Clone)]\nstruct S;\n#[derive(Debug)]\nstruct T;";
    let ast_id = add_node(&mut db, BASE, node(STRUCT, 0, text));
    let mut scope = empty_scope();
    scope.derive_macros.push((ast_id, vec![derive(0, 1), derive(1, 2)]));

    let res = scope.child_by_source(&db, BASE);

    assert_eq!(total(&res), 1);
    let attr = AttrPtr { owner: ptr(STRUCT, 0, 53), range: TextRange { start: 0, end: 16 } };
    assert_eq!(res.derive_macro_calls.get(&attr), Some(&derive(0, 1)));
}
