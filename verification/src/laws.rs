//! What holds of every traversal, whatever the snapshot.

use crate::attrs::{attr_at, collected_attrs};
use crate::child_by_source::{
    attr_macro_records, const_records, derive_call_records, derive_records,
    extern_crate_records, field_records, impl_records, item_records, legacy_macro_id_records,
    legacy_macro_records, module_def_records, use_records, ChildBySource,
};
use crate::db::{DefDatabase, FieldSource};
use crate::dyn_map::{lemma_extend_keeps, lemma_extend_only, unambiguous, Child, DynMapView};
use crate::ids::{ItemId, VariantId};
use crate::item_scope::ItemScope;
use crate::records::{
    gather, lemma_add_contains, lemma_gather_contains, lemma_gather_only, lemma_select_contains,
    lemma_select_foreign, lemma_select_only, one_file_per_child, select, Record,
};
use crate::syntax::{AstPtr, AttrPtr, HirFileId};
use vstd::prelude::*;

verus! {

/// Round trip. Every child that a container records for a file is found again
/// in the index for that file: the child's node leads back to its identifier.
///
/// The children of the file must be unambiguous. Where two of them claim one
/// node in one category, the later one is stored and the earlier one is lost.
pub proof fn lemma_round_trip<C: ChildBySource>(
    container: &C,
    db: &DefDatabase,
    file_id: HirFileId,
    record: Record,
)
    requires
        container.records(db).contains(record),
        record.visible_in(file_id),
        unambiguous(select(container.records(db), file_id)),
    ensures
        DynMapView::empty().extend(select(container.records(db), file_id)).contains(
            record.child,
        ),
{
    lemma_select_contains(container.records(db), file_id, record);
    lemma_extend_keeps(
        DynMapView::empty(),
        select(container.records(db), file_id),
        record.child,
    );
}

/// File exactness. An index built for a file holds nothing but children that
/// the container records as visible in that file.
pub proof fn lemma_only_children_of_file<C: ChildBySource>(
    container: &C,
    db: &DefDatabase,
    file_id: HirFileId,
    child: Child,
)
    requires
        DynMapView::empty().extend(select(container.records(db), file_id)).contains(child),
    ensures
        exists|i: int|
            0 <= i < container.records(db).len() && (#[trigger] container.records(
                db,
            )[i]).visible_in(file_id) && container.records(db)[i].child == child,
{
    lemma_extend_only(DynMapView::empty(), select(container.records(db), file_id), child);
    lemma_select_only(container.records(db), file_id, child);
}

/// Two files split a container. If every child of the container lies in one
/// of two different files, the indexes for the two files have no association
/// in common, and together they hold exactly the container's children.
///
/// The children of each file must be unambiguous, and no association may be
/// recorded for both files.
pub proof fn lemma_two_files_split<C: ChildBySource>(
    container: &C,
    db: &DefDatabase,
    base: HirFileId,
    expansion: HirFileId,
)
    requires
        base != expansion,
        forall|i: int|
            0 <= i < container.records(db).len() ==> (#[trigger] container.records(db)[i]).file_id
                == Some(base) || container.records(db)[i].file_id == Some(expansion),
        one_file_per_child(container.records(db)),
        unambiguous(select(container.records(db), base)),
        unambiguous(select(container.records(db), expansion)),
    ensures
        ({
            let records = container.records(db);
            let in_base = DynMapView::empty().extend(select(records, base));
            let in_expansion = DynMapView::empty().extend(select(records, expansion));
            &&& forall|child: Child|
                !(#[trigger] in_base.contains(child) && in_expansion.contains(child))
            &&& forall|child: Child|
                (#[trigger] in_base.contains(child) || in_expansion.contains(child)) <==> exists|
                    i: int,
                |
                    0 <= i < records.len() && (#[trigger] records[i]).child == child
        }),
{
    let records = container.records(db);
    let in_base = DynMapView::empty().extend(select(records, base));
    let in_expansion = DynMapView::empty().extend(select(records, expansion));
    assert forall|child: Child| !(#[trigger] in_base.contains(child) && in_expansion.contains(
        child,
    )) by {
        if in_base.contains(child) && in_expansion.contains(child) {
            lemma_only_children_of_file(container, db, base, child);
            lemma_only_children_of_file(container, db, expansion, child);
            let i = choose|i: int|
                0 <= i < records.len() && (#[trigger] records[i]).visible_in(base)
                    && records[i].child == child;
            let j = choose|j: int|
                0 <= j < records.len() && (#[trigger] records[j]).visible_in(expansion)
                    && records[j].child == child;
            assert(records[i].file_id == records[j].file_id);
        }
    }
    assert forall|child: Child|
        (#[trigger] in_base.contains(child) || in_expansion.contains(child)) <==> exists|i: int|
            0 <= i < records.len() && (#[trigger] records[i]).child == child by {
        if in_base.contains(child) {
            lemma_only_children_of_file(container, db, base, child);
        }
        if in_expansion.contains(child) {
            lemma_only_children_of_file(container, db, expansion, child);
        }
        if exists|i: int| 0 <= i < records.len() && (#[trigger] records[i]).child == child {
            let i = choose|i: int| 0 <= i < records.len() && (#[trigger] records[i]).child == child;
            if records[i].file_id == Some(base) {
                lemma_round_trip(container, db, base, records[i]);
            } else {
                lemma_round_trip(container, db, expansion, records[i]);
            }
        }
    }
}

/// A file that owns none of a container's children gets the empty index.
pub proof fn lemma_foreign_file_is_empty<C: ChildBySource>(
    container: &C,
    db: &DefDatabase,
    file_id: HirFileId,
)
    requires
        forall|i: int|
            0 <= i < container.records(db).len() ==> !(#[trigger] container.records(
                db,
            )[i]).visible_in(file_id),
    ensures
        DynMapView::empty().extend(select(container.records(db), file_id))
            == DynMapView::empty(),
{
    lemma_select_foreign(container.records(db), file_id);
}


impl ItemScope {
    /// Whether `item` is one of the located items of the module: a
    /// declaration, an impl, an `extern crate` or `use` declaration, an
    /// anonymous constant, or a `macro_rules!` macro in textual scope.
    pub open spec fn declares(&self, item: ItemId) -> bool {
        ||| exists|i: int|
            0 <= i < self.declarations@.len() && (#[trigger] self.declarations@[i]).item() == Some(
                item,
            )
        ||| exists|i: int|
            0 <= i < self.impls@.len() && ItemId::ImplId(#[trigger] self.impls@[i]) == item
        ||| exists|i: int|
            0 <= i < self.extern_crate_decls@.len() && ItemId::ExternCrateId(
                #[trigger] self.extern_crate_decls@[i],
            ) == item
        ||| exists|i: int|
            0 <= i < self.use_decls@.len() && ItemId::UseId(#[trigger] self.use_decls@[i]) == item
        ||| exists|i: int|
            0 <= i < self.unnamed_consts@.len() && ItemId::ConstId(
                #[trigger] self.unnamed_consts@[i],
            ) == item
        ||| exists|i: int, j: int|
            0 <= i < self.legacy_macros@.len() && 0 <= j < self.legacy_macros@[i]@.len() && (
            #[trigger] self.legacy_macros@[i]@[j]).textual_item() == Some(item)
    }
}

/// Every located item of a module has its record among the module's children.
pub proof fn lemma_declared_item_recorded(scope: &ItemScope, db: &DefDatabase, item: ItemId)
    requires
        scope.declares(item),
    ensures
        scope.records(db).contains(item_records(db, item)[0]),
{
    let record = item_records(db, item)[0];
    let a = gather(scope.declarations@, module_def_records(db));
    let b = gather(scope.impls@, impl_records(db));
    let c = gather(scope.extern_crate_decls@, extern_crate_records(db));
    let d = gather(scope.use_decls@, use_records(db));
    let e = gather(scope.unnamed_consts@, const_records(db));
    let f = gather(scope.attr_macros@, attr_macro_records(db));
    let g = gather(scope.legacy_macros@, legacy_macro_records(db));
    let h = gather(scope.derive_macros@, derive_records(db));
    lemma_add_contains(a, b, record);
    lemma_add_contains(a + b, c, record);
    lemma_add_contains(a + b + c, d, record);
    lemma_add_contains(a + b + c + d, e, record);
    lemma_add_contains(a + b + c + d + e, f, record);
    lemma_add_contains(a + b + c + d + e + f, g, record);
    lemma_add_contains(a + b + c + d + e + f + g, h, record);
    assert(item_records(db, item).contains(record));
    if exists|i: int|
        0 <= i < scope.declarations@.len() && (#[trigger] scope.declarations@[i]).item() == Some(
            item,
        ) {
        let i = choose|i: int|
            0 <= i < scope.declarations@.len() && (#[trigger] scope.declarations@[i]).item()
                == Some(item);
        lemma_gather_contains(scope.declarations@, module_def_records(db), i, record);
    } else if exists|i: int|
        0 <= i < scope.impls@.len() && ItemId::ImplId(#[trigger] scope.impls@[i]) == item {
        let i = choose|i: int|
            0 <= i < scope.impls@.len() && ItemId::ImplId(#[trigger] scope.impls@[i]) == item;
        lemma_gather_contains(scope.impls@, impl_records(db), i, record);
    } else if exists|i: int|
        0 <= i < scope.extern_crate_decls@.len() && ItemId::ExternCrateId(
            #[trigger] scope.extern_crate_decls@[i],
        ) == item {
        let i = choose|i: int|
            0 <= i < scope.extern_crate_decls@.len() && ItemId::ExternCrateId(
                #[trigger] scope.extern_crate_decls@[i],
            ) == item;
        lemma_gather_contains(scope.extern_crate_decls@, extern_crate_records(db), i, record);
    } else if exists|i: int|
        0 <= i < scope.use_decls@.len() && ItemId::UseId(#[trigger] scope.use_decls@[i]) == item {
        let i = choose|i: int|
            0 <= i < scope.use_decls@.len() && ItemId::UseId(#[trigger] scope.use_decls@[i])
                == item;
        lemma_gather_contains(scope.use_decls@, use_records(db), i, record);
    } else if exists|i: int|
        0 <= i < scope.unnamed_consts@.len() && ItemId::ConstId(
            #[trigger] scope.unnamed_consts@[i],
        ) == item {
        let i = choose|i: int|
            0 <= i < scope.unnamed_consts@.len() && ItemId::ConstId(
                #[trigger] scope.unnamed_consts@[i],
            ) == item;
        lemma_gather_contains(scope.unnamed_consts@, const_records(db), i, record);
    } else {
        let (i, j) = choose|i: int, j: int|
            0 <= i < scope.legacy_macros@.len() && 0 <= j < scope.legacy_macros@[i]@.len() && (
            #[trigger] scope.legacy_macros@[i]@[j]).textual_item() == Some(item);
        lemma_gather_contains(scope.legacy_macros@[i]@, legacy_macro_id_records(db), j, record);
        lemma_gather_contains(scope.legacy_macros@, legacy_macro_records(db), i, record);
    }
}

/// Round trip for the items of a module. An item that the module declares and
/// that was lowered from `file_id` is found in the module's index for
/// `file_id` under its own node.
///
/// The children of the file must be unambiguous.
pub proof fn lemma_module_round_trip(
    scope: &ItemScope,
    db: &DefDatabase,
    file_id: HirFileId,
    item: ItemId,
)
    requires
        scope.declares(item),
        db.lookup(item).file_id == file_id,
        unambiguous(select(scope.records(db), file_id)),
    ensures
        DynMapView::empty().extend(select(scope.records(db), file_id)).contains(
            Child::Item(db.source(db.lookup(item)).ptr, item),
        ),
{
    lemma_declared_item_recorded(scope, db, item);
    lemma_round_trip(scope, db, file_id, item_records(db, item)[0]);
}

/// File exactness for the items of a module. An item found in a module's
/// index for `file_id` is declared by the module, was lowered from `file_id`,
/// and stands under its own node.
pub proof fn lemma_module_items_of_file(
    scope: &ItemScope,
    db: &DefDatabase,
    file_id: HirFileId,
    ptr: AstPtr,
    item: ItemId,
)
    requires
        DynMapView::empty().extend(select(scope.records(db), file_id)).contains(
            Child::Item(ptr, item),
        ),
    ensures
        scope.declares(item),
        db.lookup(item).file_id == file_id,
        db.source(db.lookup(item)).ptr == ptr,
{
    lemma_only_children_of_file(scope, db, file_id, Child::Item(ptr, item));
    let records = scope.records(db);
    let k = choose|k: int|
        0 <= k < records.len() && (#[trigger] records[k]).visible_in(file_id) && records[k].child
            == Child::Item(ptr, item);
    let record = records[k];
    let a = gather(scope.declarations@, module_def_records(db));
    let b = gather(scope.impls@, impl_records(db));
    let c = gather(scope.extern_crate_decls@, extern_crate_records(db));
    let d = gather(scope.use_decls@, use_records(db));
    let e = gather(scope.unnamed_consts@, const_records(db));
    let f = gather(scope.attr_macros@, attr_macro_records(db));
    let g = gather(scope.legacy_macros@, legacy_macro_records(db));
    let h = gather(scope.derive_macros@, derive_records(db));
    lemma_add_contains(a, b, record);
    lemma_add_contains(a + b, c, record);
    lemma_add_contains(a + b + c, d, record);
    lemma_add_contains(a + b + c + d, e, record);
    lemma_add_contains(a + b + c + d + e, f, record);
    lemma_add_contains(a + b + c + d + e + f, g, record);
    lemma_add_contains(a + b + c + d + e + f + g, h, record);
    if a.contains(record) {
        lemma_gather_only(scope.declarations@, module_def_records(db), record);
        let i = choose|i: int|
            0 <= i < scope.declarations@.len() && module_def_records(db)(
                #[trigger] scope.declarations@[i],
            ).contains(record);
        assert(scope.declarations@[i].item() == Some(item));
    } else if b.contains(record) {
        lemma_gather_only(scope.impls@, impl_records(db), record);
        let i = choose|i: int|
            0 <= i < scope.impls@.len() && impl_records(db)(#[trigger] scope.impls@[i]).contains(
                record,
            );
        assert(ItemId::ImplId(scope.impls@[i]) == item);
    } else if c.contains(record) {
        lemma_gather_only(scope.extern_crate_decls@, extern_crate_records(db), record);
        let i = choose|i: int|
            0 <= i < scope.extern_crate_decls@.len() && extern_crate_records(db)(
                #[trigger] scope.extern_crate_decls@[i],
            ).contains(record);
        assert(ItemId::ExternCrateId(scope.extern_crate_decls@[i]) == item);
    } else if d.contains(record) {
        lemma_gather_only(scope.use_decls@, use_records(db), record);
        let i = choose|i: int|
            0 <= i < scope.use_decls@.len() && use_records(db)(
                #[trigger] scope.use_decls@[i],
            ).contains(record);
        assert(ItemId::UseId(scope.use_decls@[i]) == item);
    } else if e.contains(record) {
        lemma_gather_only(scope.unnamed_consts@, const_records(db), record);
        let i = choose|i: int|
            0 <= i < scope.unnamed_consts@.len() && const_records(db)(
                #[trigger] scope.unnamed_consts@[i],
            ).contains(record);
        assert(ItemId::ConstId(scope.unnamed_consts@[i]) == item);
    } else if f.contains(record) {
        lemma_gather_only(scope.attr_macros@, attr_macro_records(db), record);
    } else if g.contains(record) {
        lemma_gather_only(scope.legacy_macros@, legacy_macro_records(db), record);
        let i = choose|i: int|
            0 <= i < scope.legacy_macros@.len() && legacy_macro_records(db)(
                #[trigger] scope.legacy_macros@[i],
            ).contains(record);
        lemma_gather_only(scope.legacy_macros@[i]@, legacy_macro_id_records(db), record);
        let j = choose|j: int|
            0 <= j < scope.legacy_macros@[i]@.len() && legacy_macro_id_records(db)(
                #[trigger] scope.legacy_macros@[i]@[j],
            ).contains(record);
        assert(scope.legacy_macros@[i]@[j].textual_item() == Some(item));
    } else {
        lemma_gather_only(scope.derive_macros@, derive_records(db), record);
        let i = choose|i: int|
            0 <= i < scope.derive_macros@.len() && derive_records(db)(
                #[trigger] scope.derive_macros@[i],
            ).contains(record);
        lemma_gather_only(
            scope.derive_macros@[i].1@,
            derive_call_records(db, scope.derive_macros@[i].0),
            record,
        );
    }
}

/// No item of a module is found in the indexes of two different files.
pub proof fn lemma_module_item_in_one_file(
    scope: &ItemScope,
    db: &DefDatabase,
    base: HirFileId,
    expansion: HirFileId,
    ptr: AstPtr,
    item: ItemId,
)
    requires
        base != expansion,
    ensures
        !(DynMapView::empty().extend(select(scope.records(db), base)).contains(
            Child::Item(ptr, item),
        ) && DynMapView::empty().extend(select(scope.records(db), expansion)).contains(
            Child::Item(ptr, item),
        )),
{
    if DynMapView::empty().extend(select(scope.records(db), base)).contains(
        Child::Item(ptr, item),
    ) && DynMapView::empty().extend(select(scope.records(db), expansion)).contains(
        Child::Item(ptr, item),
    ) {
        lemma_module_items_of_file(scope, db, base, ptr, item);
        lemma_module_items_of_file(scope, db, expansion, ptr, item);
    }
}

/// Positional correlation of derives. An invocation recorded on an item of
/// `file_id` whose position holds an attribute is found in the module's index
/// for `file_id` under exactly that attribute.
///
/// The children of the file must be unambiguous.
pub proof fn lemma_derive_round_trip(
    scope: &ItemScope,
    db: &DefDatabase,
    file_id: HirFileId,
    i: int,
    j: int,
)
    requires
        0 <= i < scope.derive_macros@.len(),
        0 <= j < scope.derive_macros@[i].1@.len(),
        scope.derive_macros@[i].0.file_id == file_id,
        attr_at(
            collected_attrs(db.to_node(scope.derive_macros@[i].0).text@),
            scope.derive_macros@[i].1@[j].attr_id.ast_index() as int,
        ) is Some,
        unambiguous(select(scope.records(db), file_id)),
    ensures
        ({
            let adt = db.to_node(scope.derive_macros@[i].0);
            let call = scope.derive_macros@[i].1@[j];
            let range = attr_at(collected_attrs(adt.text@), call.attr_id.ast_index() as int)->0;
            DynMapView::empty().extend(select(scope.records(db), file_id)).contains(
                Child::DeriveMacroCall(AttrPtr { owner: adt.ptr, range }, call@),
            )
        }),
{
    let site = scope.derive_macros@[i];
    let call = site.1@[j];
    let record = derive_call_records(db, site.0)(call)[0];
    assert(derive_call_records(db, site.0)(call).contains(record));
    lemma_gather_contains(site.1@, derive_call_records(db, site.0), j, record);
    lemma_gather_contains(scope.derive_macros@, derive_records(db), i, record);
    lemma_add_contains(
        gather(scope.declarations@, module_def_records(db)) + gather(
            scope.impls@,
            impl_records(db),
        ) + gather(scope.extern_crate_decls@, extern_crate_records(db)) + gather(
            scope.use_decls@,
            use_records(db),
        ) + gather(scope.unnamed_consts@, const_records(db)) + gather(
            scope.attr_macros@,
            attr_macro_records(db),
        ) + gather(scope.legacy_macros@, legacy_macro_records(db)),
        gather(scope.derive_macros@, derive_records(db)),
        record,
    );
    lemma_round_trip(scope, db, file_id, record);
}


/// Round trip for attribute macro calls. A call recorded on an item of
/// `file_id` is found in the module's index for `file_id` under the node of
/// that item.
///
/// The children of the file must be unambiguous.
pub proof fn lemma_attr_macro_round_trip(
    scope: &ItemScope,
    db: &DefDatabase,
    file_id: HirFileId,
    i: int,
)
    requires
        0 <= i < scope.attr_macros@.len(),
        scope.attr_macros@[i].0.file_id == file_id,
        unambiguous(select(scope.records(db), file_id)),
    ensures
        DynMapView::empty().extend(select(scope.records(db), file_id)).contains(
            Child::AttrMacroCall(
                db.to_node(scope.attr_macros@[i].0).ptr,
                scope.attr_macros@[i].1,
            ),
        ),
{
    let record = attr_macro_records(db)(scope.attr_macros@[i])[0];
    assert(attr_macro_records(db)(scope.attr_macros@[i]).contains(record));
    lemma_gather_contains(scope.attr_macros@, attr_macro_records(db), i, record);
    let a = gather(scope.declarations@, module_def_records(db));
    let b = gather(scope.impls@, impl_records(db));
    let c = gather(scope.extern_crate_decls@, extern_crate_records(db));
    let d = gather(scope.use_decls@, use_records(db));
    let e = gather(scope.unnamed_consts@, const_records(db));
    let f = gather(scope.attr_macros@, attr_macro_records(db));
    let g = gather(scope.legacy_macros@, legacy_macro_records(db));
    let h = gather(scope.derive_macros@, derive_records(db));
    lemma_add_contains(a + b + c + d + e, f, record);
    lemma_add_contains(a + b + c + d + e + f, g, record);
    lemma_add_contains(a + b + c + d + e + f + g, h, record);
    lemma_round_trip(scope, db, file_id, record);
}

/// Fields are reported whatever file is asked for: the index of a field
/// container is the same for every file.
pub proof fn lemma_fields_in_every_file(
    variant: VariantId,
    db: &DefDatabase,
    file_id: HirFileId,
    other: HirFileId,
)
    ensures
        select(variant.records(db), file_id) == select(variant.records(db), other),
{
    lemma_field_records_in_every_file(variant, db.child_source(variant)@, file_id, other);
}

proof fn lemma_field_records_in_every_file(
    parent: VariantId,
    fields: Seq<FieldSource>,
    file_id: HirFileId,
    other: HirFileId,
)
    ensures
        select(field_records(parent, fields), file_id) == select(
            field_records(parent, fields),
            other,
        ),
    decreases fields.len(),
{
    if fields.len() > 0 {
        lemma_field_records_in_every_file(parent, fields.drop_last(), file_id, other);
        assert(field_records(parent, fields).drop_last() == field_records(
            parent,
            fields.drop_last(),
        ));
    }
}

} // verus!
