//! From a container and a file to the index of the container's children that
//! are written in that file.
//!
//! Lowering starts at a parent syntax node and hands out identifiers for the
//! children it finds. The traversals here go back: they walk the children that
//! the snapshot records for a container and note, for each one that belongs to
//! the requested file, which node it came from.
//!
//! A child in another file is left out. A derive invocation whose attribute
//! cannot be found again is left out too. Neither is an error.

use crate::attrs::{attr_at, collect_attrs, collected_attrs, nth_attr};
use crate::db::{DefDatabase, FieldSource};
use crate::dyn_map::{lemma_extend_one, Child, DynMap, DynMapView};
use crate::ids::{
    AssocItemId, BlockId, ConstId, DefWithBodyId, EnumId, EnumVariantId, ExternCrateId, FieldId,
    ImplId, ItemId, MacroCallId, MacroId, ModuleDefId, ModuleId, TraitId, UseId, VariantId,
};
use crate::item_scope::{DeriveMacroInvocation, ItemScope};
use crate::records::{
    gather, lemma_gather_foreign, lemma_loop_entry, lemma_loop_step, lemma_select_foreign,
    lemma_select_one, select, Record,
};
use crate::syntax::{AstId, AttrPtr, HirFileId};
use either::Either;
use vstd::prelude::*;

verus! {

/// A container whose children can be found again from their syntax.
pub trait ChildBySource {
    /// The children of the container, with the file each belongs to.
    spec fn records(&self, db: &DefDatabase) -> Seq<Record>;

    /// Whether the snapshot holds what a traversal for `file_id` reads: every
    /// identifier it looks up is a slot of its table, and every child of
    /// `file_id` leads to a node.
    spec fn resolvable(&self, db: &DefDatabase, file_id: HirFileId) -> bool;

    /// Tests whether the snapshot holds what a traversal for `file_id` reads.
    fn is_resolvable(&self, db: &DefDatabase, file_id: HirFileId) -> (ok: bool)
        ensures
            ok == self.resolvable(db, file_id),
    ;

    /// The index of the container's children in `file_id`.
    fn child_by_source(&self, db: &DefDatabase, file_id: HirFileId) -> (res: DynMap)
        requires
            self.resolvable(db, file_id),
        ensures
            res.wf(),
            res@ == DynMapView::empty().extend(select(self.records(db), file_id)),
    {
        let mut res = DynMap::default();
        self.child_by_source_to(db, &mut res, file_id);
        res
    }

    /// Adds the container's children in `file_id` to `res`, one after the
    /// other in the order of [`records`](Self::records). A node that already
    /// stands for something in the category of a child stands for the child
    /// afterwards.
    fn child_by_source_to(&self, db: &DefDatabase, res: &mut DynMap, file_id: HirFileId)
        requires
            old(res).wf(),
            self.resolvable(db, file_id),
        ensures
            final(res).wf(),
            final(res)@ == old(res)@.extend(select(self.records(db), file_id)),
    ;
}

/// The record of a located item: it belongs to the file it was lowered from
/// and maps its own node to itself.
pub open spec fn item_records(db: &DefDatabase, item: ItemId) -> Seq<Record> {
    seq![
        Record {
            file_id: Some(db.lookup(item).file_id),
            child: Child::Item(db.source(db.lookup(item)).ptr, item),
        },
    ]
}

/// The record of an attribute macro call: it belongs to the file of the item
/// the attribute sits on and maps that item's node to the call.
pub open spec fn attr_macro_records(db: &DefDatabase) -> spec_fn((AstId, MacroCallId)) -> Seq<
    Record,
> {
    |site: (AstId, MacroCallId)|
        seq![
            Record {
                file_id: Some(site.0.file_id),
                child: Child::AttrMacroCall(db.to_node(site.0).ptr, site.1),
            },
        ]
}

/// The record of an associated item.
pub open spec fn assoc_item_records(db: &DefDatabase) -> spec_fn(AssocItemId) -> Seq<Record> {
    |item: AssocItemId| item_records(db, item.item())
}

/// The children of a trait or an impl: the attribute macro calls on its
/// items, then its associated items.
pub open spec fn assoc_records(
    db: &DefDatabase,
    attribute_calls: Seq<(AstId, MacroCallId)>,
    items: Seq<AssocItemId>,
) -> Seq<Record> {
    gather(attribute_calls, attr_macro_records(db)) + gather(items, assoc_item_records(db))
}

/// Whether a traversal for `file_id` can handle the children of a trait or an
/// impl.
pub open spec fn assoc_resolvable(
    db: &DefDatabase,
    file_id: HirFileId,
    attribute_calls: Seq<(AstId, MacroCallId)>,
    items: Seq<AssocItemId>,
) -> bool {
    &&& forall|i: int|
        0 <= i < attribute_calls.len() ==> db.knows_site((#[trigger] attribute_calls[i]).0, file_id)
    &&& forall|i: int| 0 <= i < items.len() ==> db.knows((#[trigger] items[i]).item(), file_id)
}

/// The record of a module-level definition, if it is one that has an entry.
pub open spec fn module_def_records(db: &DefDatabase) -> spec_fn(ModuleDefId) -> Seq<Record> {
    |def: ModuleDefId|
        match def.item() {
            Some(item) => item_records(db, item),
            None => Seq::empty(),
        }
}

/// The record of an impl of a module.
pub open spec fn impl_records(db: &DefDatabase) -> spec_fn(ImplId) -> Seq<Record> {
    |id: ImplId| item_records(db, ItemId::ImplId(id))
}

/// The record of an `extern crate` declaration of a module.
pub open spec fn extern_crate_records(db: &DefDatabase) -> spec_fn(ExternCrateId) -> Seq<Record> {
    |id: ExternCrateId| item_records(db, ItemId::ExternCrateId(id))
}

/// The record of a `use` declaration of a module.
pub open spec fn use_records(db: &DefDatabase) -> spec_fn(UseId) -> Seq<Record> {
    |id: UseId| item_records(db, ItemId::UseId(id))
}

/// The record of an anonymous constant of a module.
pub open spec fn const_records(db: &DefDatabase) -> spec_fn(ConstId) -> Seq<Record> {
    |id: ConstId| item_records(db, ItemId::ConstId(id))
}

/// The record of one macro behind a textually scoped name: only
/// `macro_rules!` macros have one.
pub open spec fn legacy_macro_id_records(db: &DefDatabase) -> spec_fn(MacroId) -> Seq<Record> {
    |id: MacroId|
        match id.textual_item() {
            Some(item) => item_records(db, item),
            None => Seq::empty(),
        }
}

/// The records of one textually scoped name.
pub open spec fn legacy_macro_records(db: &DefDatabase) -> spec_fn(Vec<MacroId>) -> Seq<Record> {
    |ids: Vec<MacroId>| gather(ids@, legacy_macro_id_records(db))
}

/// The record of one derive invocation on the item at `ast_id`. The item's
/// attributes are collected from its text and the invocation's position is
/// looked up among them. If an attribute stands there, the invocation belongs
/// to the item's file and maps that attribute to itself. If the position does
/// not exist or holds a doc comment, the invocation has no record.
pub open spec fn derive_call_records(db: &DefDatabase, ast_id: AstId) -> spec_fn(
    DeriveMacroInvocation,
) -> Seq<Record> {
    |call: DeriveMacroInvocation|
        {
            let adt = db.to_node(ast_id);
            match attr_at(collected_attrs(adt.text@), call.attr_id.ast_index() as int) {
                Some(range) => seq![
                    Record {
                        file_id: Some(ast_id.file_id),
                        child: Child::DeriveMacroCall(AttrPtr { owner: adt.ptr, range }, call@),
                    },
                ],
                None => Seq::empty(),
            }
        }
}

/// The records of all derive invocations on one item.
pub open spec fn derive_records(db: &DefDatabase) -> spec_fn(
    (AstId, Vec<DeriveMacroInvocation>),
) -> Seq<Record> {
    |site: (AstId, Vec<DeriveMacroInvocation>)| gather(site.1@, derive_call_records(db, site.0))
}

/// The record of the field in slot `local_id` of the arena of `parent`. A
/// field belongs to no file in particular: an arena lies in one file already,
/// and its fields are reported whatever file is asked for.
pub open spec fn field_record(parent: VariantId, local_id: int, source: FieldSource) -> Record {
    let id = FieldId { parent, local_id: local_id as u32 };
    Record {
        file_id: None,
        child: match source {
            Either::Left(ptr) => Child::TupleField(ptr, id),
            Either::Right(ptr) => Child::RecordField(ptr, id),
        },
    }
}

/// The records of a field arena, slot by slot.
pub open spec fn field_records(parent: VariantId, fields: Seq<FieldSource>) -> Seq<Record>
    decreases fields.len(),
{
    if fields.len() == 0 {
        Seq::empty()
    } else {
        field_records(parent, fields.drop_last()).push(
            field_record(parent, fields.len() - 1, fields.last()),
        )
    }
}

/// The record of a variant of an enum written in `file_id`: the variant's
/// slot in the item tree of that file leads to its node.
pub open spec fn enum_variant_records(db: &DefDatabase, file_id: HirFileId) -> spec_fn(
    EnumVariantId,
) -> Seq<Record> {
    |variant: EnumVariantId|
        seq![
            Record {
                file_id: Some(file_id),
                child: Child::EnumVariant(
                    db.slot_node(file_id, db.enum_variants@[variant.0 as int].value).ptr,
                    variant,
                ),
            },
        ]
}

/// The records of the items that a block expression declares: those of the
/// root scope of the block's module tree.
pub open spec fn block_records(db: &DefDatabase) -> spec_fn(BlockId) -> Seq<Record> {
    |block: BlockId| db.block_def_maps@[block.0 as int].root().records(db)
}

/// Adds one located item if it lies in `file_id`.
fn add_item(db: &DefDatabase, res: &mut DynMap, file_id: HirFileId, item: ItemId)
    requires
        old(res).wf(),
        db.knows(item, file_id),
    ensures
        final(res).wf(),
        final(res)@ == old(res)@.extend(select(item_records(db, item), file_id)),
{
    let loc = db.lookup(item);
    proof {
        lemma_select_one(item_records(db, item)[0], file_id);
        lemma_extend_one(res@, item_records(db, item)[0].child);
        assert(item_records(db, item) == seq![item_records(db, item)[0]]);
    }
    if loc.file_id == file_id {
        res.insert_item(db.source(loc).ptr, item)
    }
}

/// Adds one attribute macro call if the item it sits on lies in `file_id`.
fn add_attr_macro_call(
    db: &DefDatabase,
    res: &mut DynMap,
    file_id: HirFileId,
    ast_id: AstId,
    call_id: MacroCallId,
)
    requires
        old(res).wf(),
        db.knows_site(ast_id, file_id),
    ensures
        final(res).wf(),
        final(res)@ == old(res)@.extend(
            select(attr_macro_records(db)((ast_id, call_id)), file_id),
        ),
{
    proof {
        let records = attr_macro_records(db)((ast_id, call_id));
        lemma_select_one(records[0], file_id);
        lemma_extend_one(res@, records[0].child);
        assert(records == seq![records[0]]);
    }
    if ast_id.file_id == file_id {
        res.insert_attr_macro_call(db.to_node(ast_id).ptr, call_id);
    }
}

/// Adds one associated item, under the category of its kind, if it lies in
/// `file_id`.
pub(crate) fn add_assoc_item(
    db: &DefDatabase,
    res: &mut DynMap,
    file_id: HirFileId,
    item: AssocItemId,
)
    requires
        old(res).wf(),
        db.knows(item.item(), file_id),
    ensures
        final(res).wf(),
        final(res)@ == old(res)@.extend(select(assoc_item_records(db)(item), file_id)),
{
    match item {
        AssocItemId::FunctionId(func) => add_item(db, res, file_id, ItemId::FunctionId(func)),
        AssocItemId::ConstId(konst) => add_item(db, res, file_id, ItemId::ConstId(konst)),
        AssocItemId::TypeAliasId(ty) => add_item(db, res, file_id, ItemId::TypeAliasId(ty)),
    }
}

/// Adds the children of a trait or an impl that lie in `file_id`.
fn add_assoc_children(
    db: &DefDatabase,
    res: &mut DynMap,
    file_id: HirFileId,
    attribute_calls: &Vec<(AstId, MacroCallId)>,
    items: &Vec<AssocItemId>,
)
    requires
        old(res).wf(),
        assoc_resolvable(db, file_id, attribute_calls@, items@),
    ensures
        final(res).wf(),
        final(res)@ == old(res)@.extend(
            select(assoc_records(db, attribute_calls@, items@), file_id),
        ),
{
    let ghost before = res@;
    let ghost mut done = Seq::<Record>::empty();
    proof {
        lemma_loop_entry(done, attribute_calls@, attr_macro_records(db));
    }
    let mut i: usize = 0;
    while i < attribute_calls.len()
        invariant
            i <= attribute_calls@.len(),
            res.wf(),
            assoc_resolvable(db, file_id, attribute_calls@, items@),
            res@ == before.extend(
                select(
                    done + gather(attribute_calls@.take(i as int), attr_macro_records(db)),
                    file_id,
                ),
            ),
        decreases attribute_calls@.len() - i,
    {
        proof {
            lemma_loop_step(
                before,
                done,
                attribute_calls@,
                attr_macro_records(db),
                i as int,
                file_id,
            );
        }
        add_attr_macro_call(db, res, file_id, attribute_calls[i].0, attribute_calls[i].1);
        i += 1;
    }
    proof {
        assert(attribute_calls@.take(i as int) == attribute_calls@);
        done = done + gather(attribute_calls@, attr_macro_records(db));
        assert(done == gather(attribute_calls@, attr_macro_records(db)));
        lemma_loop_entry(done, items@, assoc_item_records(db));
    }
    let mut i: usize = 0;
    while i < items.len()
        invariant
            i <= items@.len(),
            res.wf(),
            assoc_resolvable(db, file_id, attribute_calls@, items@),
            res@ == before.extend(
                select(done + gather(items@.take(i as int), assoc_item_records(db)), file_id),
            ),
        decreases items@.len() - i,
    {
        proof {
            lemma_loop_step(before, done, items@, assoc_item_records(db), i as int, file_id);
        }
        add_assoc_item(db, res, file_id, items[i]);
        i += 1;
    }
    proof {
        assert(items@.take(i as int) == items@);
    }
}

/// Tests whether a traversal for `file_id` can handle the children of a trait
/// or an impl.
fn assoc_is_resolvable(
    db: &DefDatabase,
    file_id: HirFileId,
    attribute_calls: &Vec<(AstId, MacroCallId)>,
    items: &Vec<AssocItemId>,
) -> (ok: bool)
    ensures
        ok == assoc_resolvable(db, file_id, attribute_calls@, items@),
{
    let mut i: usize = 0;
    while i < attribute_calls.len()
        invariant
            i <= attribute_calls@.len(),
            forall|j: int| 0 <= j < i ==> db.knows_site(
                (#[trigger] attribute_calls@[j]).0,
                file_id,
            ),
        decreases attribute_calls@.len() - i,
    {
        if !db.knows_site(attribute_calls[i].0, file_id) {
            return false;
        }
        i += 1;
    }
    let mut i: usize = 0;
    while i < items.len()
        invariant
            i <= items@.len(),
            forall|j: int| 0 <= j < i ==> db.knows((#[trigger] items@[j]).item(), file_id),
        decreases items@.len() - i,
    {
        if !db.knows(items[i].item(), file_id) {
            return false;
        }
        i += 1;
    }
    true
}

/// Adds one module-level definition if it has an entry and lies in `file_id`.
fn add_module_def(db: &DefDatabase, res: &mut DynMap, file_id: HirFileId, item: ModuleDefId)
    requires
        old(res).wf(),
        db.knows_module_def(item, file_id),
    ensures
        final(res).wf(),
        final(res)@ == old(res)@.extend(select(module_def_records(db)(item), file_id)),
{
    match item.item() {
        Some(item) => add_item(db, res, file_id, item),
        None => (),
    }
}

/// Adds one impl of a module if it lies in `file_id`.
fn add_impl(db: &DefDatabase, res: &mut DynMap, file_id: HirFileId, imp: ImplId)
    requires
        old(res).wf(),
        db.knows(ItemId::ImplId(imp), file_id),
    ensures
        final(res).wf(),
        final(res)@ == old(res)@.extend(select(impl_records(db)(imp), file_id)),
{
    add_item(db, res, file_id, ItemId::ImplId(imp))
}

/// Adds one `extern crate` declaration if it lies in `file_id`.
fn add_extern_crate(db: &DefDatabase, res: &mut DynMap, file_id: HirFileId, ext: ExternCrateId)
    requires
        old(res).wf(),
        db.knows(ItemId::ExternCrateId(ext), file_id),
    ensures
        final(res).wf(),
        final(res)@ == old(res)@.extend(select(extern_crate_records(db)(ext), file_id)),
{
    add_item(db, res, file_id, ItemId::ExternCrateId(ext))
}

/// Adds one `use` declaration if it lies in `file_id`.
fn add_use(db: &DefDatabase, res: &mut DynMap, file_id: HirFileId, ext: UseId)
    requires
        old(res).wf(),
        db.knows(ItemId::UseId(ext), file_id),
    ensures
        final(res).wf(),
        final(res)@ == old(res)@.extend(select(use_records(db)(ext), file_id)),
{
    add_item(db, res, file_id, ItemId::UseId(ext))
}

/// Adds the `macro_rules!` macros among `ids` that lie in `file_id`.
fn add_legacy_macros(db: &DefDatabase, res: &mut DynMap, file_id: HirFileId, ids: &Vec<MacroId>)
    requires
        old(res).wf(),
        db.knows_legacy_macros(ids@, file_id),
    ensures
        final(res).wf(),
        final(res)@ == old(res)@.extend(select(legacy_macro_records(db)(*ids), file_id)),
{
    let ghost before = res@;
    let ghost done = Seq::<Record>::empty();
    proof {
        lemma_loop_entry(done, ids@, legacy_macro_id_records(db));
    }
    let mut i: usize = 0;
    while i < ids.len()
        invariant
            i <= ids@.len(),
            res.wf(),
            db.knows_legacy_macros(ids@, file_id),
            res@ == before.extend(
                select(done + gather(ids@.take(i as int), legacy_macro_id_records(db)), file_id),
            ),
        decreases ids@.len() - i,
    {
        proof {
            assert(db.knows_legacy_macro(ids@[i as int], file_id));
            lemma_loop_step(before, done, ids@, legacy_macro_id_records(db), i as int, file_id);
        }
        if let MacroId::MacroRulesId(id) = ids[i] {
            add_item(db, res, file_id, ItemId::MacroRulesId(id));
        }
        i += 1;
    }
    proof {
        assert(ids@.take(i as int) == ids@);
    }
    proof {
        assert(done + gather(ids@, legacy_macro_id_records(db)) == gather(
            ids@,
            legacy_macro_id_records(db),
        ));
    }
}

/// Adds the derive invocations recorded on the item at `ast_id`, if the item
/// lies in `file_id`: each one under the attribute found at its position.
fn add_derive_calls(
    db: &DefDatabase,
    res: &mut DynMap,
    file_id: HirFileId,
    ast_id: AstId,
    calls: &Vec<DeriveMacroInvocation>,
)
    requires
        old(res).wf(),
        db.knows_derive_site(ast_id, file_id),
    ensures
        final(res).wf(),
        final(res)@ == old(res)@.extend(
            select(derive_records(db)((ast_id, *calls)), file_id),
        ),
{
    let ghost f = derive_call_records(db, ast_id);
    if ast_id.file_id != file_id {
        proof {
            assert forall|i: int| 0 <= i < calls@.len() implies select(
                f(#[trigger] calls@[i]),
                file_id,
            ) == Seq::<Child>::empty() by {
                lemma_select_foreign(f(calls@[i]), file_id);
            }
            lemma_gather_foreign(calls@, f, file_id);
        }
        return ;
    }
    let adt = db.to_node(ast_id);
    let slots = collect_attrs(adt.text.as_str());
    let ghost before = res@;
    let ghost done = Seq::<Record>::empty();
    proof {
        lemma_loop_entry(done, calls@, f);
    }
    let mut i: usize = 0;
    while i < calls.len()
        invariant
            i <= calls@.len(),
            res.wf(),
            ast_id.file_id == file_id,
            adt == db.to_node(ast_id),
            slots@ == collected_attrs(adt.text@),
            f == derive_call_records(db, ast_id),
            res@ == before.extend(select(done + gather(calls@.take(i as int), f), file_id)),
        decreases calls@.len() - i,
    {
        let call = &calls[i];
        proof {
            lemma_loop_step(before, done, calls@, f, i as int, file_id);
            if f(*call).len() > 0 {
                lemma_select_one(f(*call)[0], file_id);
                lemma_extend_one(res@, f(*call)[0].child);
                assert(f(*call) == seq![f(*call)[0]]);
            }
        }
        if let Some(range) = nth_attr(&slots, call.attr_id.ast_index()) {
            res.insert_derive_macro_call(AttrPtr { owner: adt.ptr, range }, call.duplicate());
        }
        i += 1;
    }
    proof {
        assert(calls@.take(i as int) == calls@);
        assert(done + gather(calls@, f) == gather(calls@, f));
    }
}

impl ChildBySource for TraitId {
    /// The attribute macro calls on the trait's items, then its associated
    /// items.
    open spec fn records(&self, db: &DefDatabase) -> Seq<Record> {
        let data = db.traits@[self.0 as int];
        assoc_records(db, data.attribute_calls@, data.items@)
    }

    open spec fn resolvable(&self, db: &DefDatabase, file_id: HirFileId) -> bool {
        &&& self.0 < db.traits@.len()
        &&& assoc_resolvable(
            db,
            file_id,
            db.traits@[self.0 as int].attribute_calls@,
            db.traits@[self.0 as int].items@,
        )
    }

    fn is_resolvable(&self, db: &DefDatabase, file_id: HirFileId) -> (ok: bool) {
        if self.0 as usize >= db.traits.len() {
            return false;
        }
        let data = &db.traits[self.0 as usize];
        assoc_is_resolvable(db, file_id, &data.attribute_calls, &data.items)
    }

    fn child_by_source_to(&self, db: &DefDatabase, res: &mut DynMap, file_id: HirFileId) {
        let data = &db.traits[self.0 as usize];
        add_assoc_children(db, res, file_id, &data.attribute_calls, &data.items);
    }
}

impl ChildBySource for ImplId {
    /// The attribute macro calls on the impl's items, then its associated
    /// items.
    open spec fn records(&self, db: &DefDatabase) -> Seq<Record> {
        let data = db.impls@[self.0 as int];
        assoc_records(db, data.attribute_calls@, data.items@)
    }

    open spec fn resolvable(&self, db: &DefDatabase, file_id: HirFileId) -> bool {
        &&& self.0 < db.impls@.len()
        &&& assoc_resolvable(
            db,
            file_id,
            db.impls@[self.0 as int].attribute_calls@,
            db.impls@[self.0 as int].items@,
        )
    }

    fn is_resolvable(&self, db: &DefDatabase, file_id: HirFileId) -> (ok: bool) {
        if self.0 as usize >= db.impls.len() {
            return false;
        }
        let data = &db.impls[self.0 as usize];
        assoc_is_resolvable(db, file_id, &data.attribute_calls, &data.items)
    }

    fn child_by_source_to(&self, db: &DefDatabase, res: &mut DynMap, file_id: HirFileId) {
        let data = &db.impls[self.0 as usize];
        add_assoc_children(db, res, file_id, &data.attribute_calls, &data.items);
    }
}

impl ChildBySource for ModuleId {
    /// The children of the module's scope.
    open spec fn records(&self, db: &DefDatabase) -> Seq<Record> {
        db.def_map(*self).modules@[self.local_id as int].records(db)
    }

    open spec fn resolvable(&self, db: &DefDatabase, file_id: HirFileId) -> bool {
        &&& db.has_def_map(*self)
        &&& self.local_id < db.def_map(*self).modules@.len()
        &&& db.def_map(*self).modules@[self.local_id as int].resolvable(db, file_id)
    }

    fn is_resolvable(&self, db: &DefDatabase, file_id: HirFileId) -> (ok: bool) {
        if !db.has_def_map(*self) {
            return false;
        }
        let def_map = db.def_map(*self);
        if self.local_id as usize >= def_map.modules.len() {
            return false;
        }
        def_map.modules[self.local_id as usize].is_resolvable(db, file_id)
    }

    fn child_by_source_to(&self, db: &DefDatabase, res: &mut DynMap, file_id: HirFileId) {
        let def_map = db.def_map(*self);
        let scope = &def_map.modules[self.local_id as usize];
        scope.child_by_source_to(db, res, file_id);
    }
}

impl ChildBySource for ItemScope {
    /// The children of a module, list by list: its declarations, impls,
    /// `extern crate` and `use` declarations, anonymous constants, attribute
    /// macro calls, `macro_rules!` macros in textual scope and derive
    /// invocations.
    open spec fn records(&self, db: &DefDatabase) -> Seq<Record> {
        gather(self.declarations@, module_def_records(db)) + gather(
            self.impls@,
            impl_records(db),
        ) + gather(self.extern_crate_decls@, extern_crate_records(db)) + gather(
            self.use_decls@,
            use_records(db),
        ) + gather(self.unnamed_consts@, const_records(db)) + gather(
            self.attr_macros@,
            attr_macro_records(db),
        ) + gather(self.legacy_macros@, legacy_macro_records(db)) + gather(
            self.derive_macros@,
            derive_records(db),
        )
    }

    open spec fn resolvable(&self, db: &DefDatabase, file_id: HirFileId) -> bool {
        &&& forall|i: int|
            0 <= i < self.declarations@.len() ==> db.knows_module_def(
                #[trigger] self.declarations@[i],
                file_id,
            )
        &&& forall|i: int|
            0 <= i < self.impls@.len() ==> db.knows(
                ItemId::ImplId(#[trigger] self.impls@[i]),
                file_id,
            )
        &&& forall|i: int|
            0 <= i < self.extern_crate_decls@.len() ==> db.knows(
                ItemId::ExternCrateId(#[trigger] self.extern_crate_decls@[i]),
                file_id,
            )
        &&& forall|i: int|
            0 <= i < self.use_decls@.len() ==> db.knows(
                ItemId::UseId(#[trigger] self.use_decls@[i]),
                file_id,
            )
        &&& forall|i: int|
            0 <= i < self.unnamed_consts@.len() ==> db.knows(
                ItemId::ConstId(#[trigger] self.unnamed_consts@[i]),
                file_id,
            )
        &&& forall|i: int|
            0 <= i < self.attr_macros@.len() ==> db.knows_site(
                (#[trigger] self.attr_macros@[i]).0,
                file_id,
            )
        &&& forall|i: int|
            0 <= i < self.legacy_macros@.len() ==> db.knows_legacy_macros(
                (#[trigger] self.legacy_macros@[i])@,
                file_id,
            )
        &&& forall|i: int|
            0 <= i < self.derive_macros@.len() ==> db.knows_derive_site(
                (#[trigger] self.derive_macros@[i]).0,
                file_id,
            )
    }

    fn is_resolvable(&self, db: &DefDatabase, file_id: HirFileId) -> (ok: bool) {
        let mut i: usize = 0;
        while i < self.declarations.len()
            invariant
                i <= self.declarations@.len(),
                forall|j: int| 0 <= j < i ==> db.knows_module_def(
                    #[trigger] self.declarations@[j],
                    file_id,
                ),
            decreases self.declarations@.len() - i,
        {
            if !db.knows_module_def(self.declarations[i], file_id) {
                return false;
            }
            i += 1;
        }
        let mut i: usize = 0;
        while i < self.impls.len()
            invariant
                i <= self.impls@.len(),
                forall|j: int| 0 <= j < i ==> db.knows(
                    ItemId::ImplId(#[trigger] self.impls@[j]),
                    file_id,
                ),
            decreases self.impls@.len() - i,
        {
            if !db.knows(ItemId::ImplId(self.impls[i]), file_id) {
                return false;
            }
            i += 1;
        }
        let mut i: usize = 0;
        while i < self.extern_crate_decls.len()
            invariant
                i <= self.extern_crate_decls@.len(),
                forall|j: int| 0 <= j < i ==> db.knows(
                    ItemId::ExternCrateId(#[trigger] self.extern_crate_decls@[j]),
                    file_id,
                ),
            decreases self.extern_crate_decls@.len() - i,
        {
            if !db.knows(ItemId::ExternCrateId(self.extern_crate_decls[i]), file_id) {
                return false;
            }
            i += 1;
        }
        let mut i: usize = 0;
        while i < self.use_decls.len()
            invariant
                i <= self.use_decls@.len(),
                forall|j: int| 0 <= j < i ==> db.knows(
                    ItemId::UseId(#[trigger] self.use_decls@[j]),
                    file_id,
                ),
            decreases self.use_decls@.len() - i,
        {
            if !db.knows(ItemId::UseId(self.use_decls[i]), file_id) {
                return false;
            }
            i += 1;
        }
        let mut i: usize = 0;
        while i < self.unnamed_consts.len()
            invariant
                i <= self.unnamed_consts@.len(),
                forall|j: int| 0 <= j < i ==> db.knows(
                    ItemId::ConstId(#[trigger] self.unnamed_consts@[j]),
                    file_id,
                ),
            decreases self.unnamed_consts@.len() - i,
        {
            if !db.knows(ItemId::ConstId(self.unnamed_consts[i]), file_id) {
                return false;
            }
            i += 1;
        }
        let mut i: usize = 0;
        while i < self.attr_macros.len()
            invariant
                i <= self.attr_macros@.len(),
                forall|j: int| 0 <= j < i ==> db.knows_site(
                    (#[trigger] self.attr_macros@[j]).0,
                    file_id,
                ),
            decreases self.attr_macros@.len() - i,
        {
            if !db.knows_site(self.attr_macros[i].0, file_id) {
                return false;
            }
            i += 1;
        }
        let mut i: usize = 0;
        while i < self.legacy_macros.len()
            invariant
                i <= self.legacy_macros@.len(),
                forall|j: int| 0 <= j < i ==> db.knows_legacy_macros(
                    (#[trigger] self.legacy_macros@[j])@,
                    file_id,
                ),
            decreases self.legacy_macros@.len() - i,
        {
            if !db.knows_all_legacy_macros(&self.legacy_macros[i], file_id) {
                return false;
            }
            i += 1;
        }
        let mut i: usize = 0;
        while i < self.derive_macros.len()
            invariant
                i <= self.derive_macros@.len(),
                forall|j: int| 0 <= j < i ==> db.knows_derive_site(
                    (#[trigger] self.derive_macros@[j]).0,
                    file_id,
                ),
            decreases self.derive_macros@.len() - i,
        {
            if !db.knows_derive_site(self.derive_macros[i].0, file_id) {
                return false;
            }
            i += 1;
        }
        true
    }

    fn child_by_source_to(&self, db: &DefDatabase, res: &mut DynMap, file_id: HirFileId) {
        let ghost before = res@;
        let ghost mut done = Seq::<Record>::empty();
        proof {
            lemma_loop_entry(done, self.declarations@, module_def_records(db));
        }
        let mut i: usize = 0;
        while i < self.declarations.len()
            invariant
                i <= self.declarations@.len(),
                res.wf(),
                self.resolvable(db, file_id),
                res@ == before.extend(
                    select(
                        done + gather(self.declarations@.take(i as int), module_def_records(db)),
                        file_id,
                    ),
                ),
            decreases self.declarations@.len() - i,
        {
            proof {
                lemma_loop_step(
                    before,
                    done,
                    self.declarations@,
                    module_def_records(db),
                    i as int,
                    file_id,
                );
            }
            add_module_def(db, res, file_id, self.declarations[i]);
            i += 1;
        }
        proof {
            assert(self.declarations@.take(i as int) == self.declarations@);
            done = done + gather(self.declarations@, module_def_records(db));
            lemma_loop_entry(done, self.impls@, impl_records(db));
        }
        let mut i: usize = 0;
        while i < self.impls.len()
            invariant
                i <= self.impls@.len(),
                res.wf(),
                self.resolvable(db, file_id),
                res@ == before.extend(
                    select(done + gather(self.impls@.take(i as int), impl_records(db)), file_id),
                ),
            decreases self.impls@.len() - i,
        {
            proof {
                lemma_loop_step(before, done, self.impls@, impl_records(db), i as int, file_id);
            }
            add_impl(db, res, file_id, self.impls[i]);
            i += 1;
        }
        proof {
            assert(self.impls@.take(i as int) == self.impls@);
            done = done + gather(self.impls@, impl_records(db));
            lemma_loop_entry(done, self.extern_crate_decls@, extern_crate_records(db));
        }
        let mut i: usize = 0;
        while i < self.extern_crate_decls.len()
            invariant
                i <= self.extern_crate_decls@.len(),
                res.wf(),
                self.resolvable(db, file_id),
                res@ == before.extend(
                    select(
                        done + gather(
                            self.extern_crate_decls@.take(i as int),
                            extern_crate_records(db),
                        ),
                        file_id,
                    ),
                ),
            decreases self.extern_crate_decls@.len() - i,
        {
            proof {
                lemma_loop_step(
                    before,
                    done,
                    self.extern_crate_decls@,
                    extern_crate_records(db),
                    i as int,
                    file_id,
                );
            }
            add_extern_crate(db, res, file_id, self.extern_crate_decls[i]);
            i += 1;
        }
        proof {
            assert(self.extern_crate_decls@.take(i as int) == self.extern_crate_decls@);
            done = done + gather(self.extern_crate_decls@, extern_crate_records(db));
            lemma_loop_entry(done, self.use_decls@, use_records(db));
        }
        let mut i: usize = 0;
        while i < self.use_decls.len()
            invariant
                i <= self.use_decls@.len(),
                res.wf(),
                self.resolvable(db, file_id),
                res@ == before.extend(
                    select(done + gather(self.use_decls@.take(i as int), use_records(db)), file_id),
                ),
            decreases self.use_decls@.len() - i,
        {
            proof {
                lemma_loop_step(before, done, self.use_decls@, use_records(db), i as int, file_id);
            }
            add_use(db, res, file_id, self.use_decls[i]);
            i += 1;
        }
        proof {
            assert(self.use_decls@.take(i as int) == self.use_decls@);
            done = done + gather(self.use_decls@, use_records(db));
            lemma_loop_entry(done, self.unnamed_consts@, const_records(db));
        }
        let mut i: usize = 0;
        while i < self.unnamed_consts.len()
            invariant
                i <= self.unnamed_consts@.len(),
                res.wf(),
                self.resolvable(db, file_id),
                res@ == before.extend(
                    select(
                        done + gather(self.unnamed_consts@.take(i as int), const_records(db)),
                        file_id,
                    ),
                ),
            decreases self.unnamed_consts@.len() - i,
        {
            proof {
                lemma_loop_step(
                    before,
                    done,
                    self.unnamed_consts@,
                    const_records(db),
                    i as int,
                    file_id,
                );
            }
            add_item(db, res, file_id, ItemId::ConstId(self.unnamed_consts[i]));
            i += 1;
        }
        proof {
            assert(self.unnamed_consts@.take(i as int) == self.unnamed_consts@);
            done = done + gather(self.unnamed_consts@, const_records(db));
            lemma_loop_entry(done, self.attr_macros@, attr_macro_records(db));
        }
        let mut i: usize = 0;
        while i < self.attr_macros.len()
            invariant
                i <= self.attr_macros@.len(),
                res.wf(),
                self.resolvable(db, file_id),
                res@ == before.extend(
                    select(
                        done + gather(self.attr_macros@.take(i as int), attr_macro_records(db)),
                        file_id,
                    ),
                ),
            decreases self.attr_macros@.len() - i,
        {
            proof {
                lemma_loop_step(
                    before,
                    done,
                    self.attr_macros@,
                    attr_macro_records(db),
                    i as int,
                    file_id,
                );
            }
            add_attr_macro_call(db, res, file_id, self.attr_macros[i].0, self.attr_macros[i].1);
            i += 1;
        }
        proof {
            assert(self.attr_macros@.take(i as int) == self.attr_macros@);
            done = done + gather(self.attr_macros@, attr_macro_records(db));
            lemma_loop_entry(done, self.legacy_macros@, legacy_macro_records(db));
        }
        let mut i: usize = 0;
        while i < self.legacy_macros.len()
            invariant
                i <= self.legacy_macros@.len(),
                res.wf(),
                self.resolvable(db, file_id),
                res@ == before.extend(
                    select(
                        done + gather(self.legacy_macros@.take(i as int), legacy_macro_records(db)),
                        file_id,
                    ),
                ),
            decreases self.legacy_macros@.len() - i,
        {
            proof {
                lemma_loop_step(
                    before,
                    done,
                    self.legacy_macros@,
                    legacy_macro_records(db),
                    i as int,
                    file_id,
                );
            }
            add_legacy_macros(db, res, file_id, &self.legacy_macros[i]);
            i += 1;
        }
        proof {
            assert(self.legacy_macros@.take(i as int) == self.legacy_macros@);
            done = done + gather(self.legacy_macros@, legacy_macro_records(db));
            lemma_loop_entry(done, self.derive_macros@, derive_records(db));
        }
        let mut i: usize = 0;
        while i < self.derive_macros.len()
            invariant
                i <= self.derive_macros@.len(),
                res.wf(),
                self.resolvable(db, file_id),
                res@ == before.extend(
                    select(
                        done + gather(self.derive_macros@.take(i as int), derive_records(db)),
                        file_id,
                    ),
                ),
            decreases self.derive_macros@.len() - i,
        {
            proof {
                lemma_loop_step(
                    before,
                    done,
                    self.derive_macros@,
                    derive_records(db),
                    i as int,
                    file_id,
                );
            }
            add_derive_calls(db, res, file_id, self.derive_macros[i].0, &self.derive_macros[i].1);
            i += 1;
        }
        proof {
            assert(self.derive_macros@.take(i as int) == self.derive_macros@);
        }
    }
}

impl ChildBySource for VariantId {
    /// The fields of the container.
    open spec fn records(&self, db: &DefDatabase) -> Seq<Record> {
        field_records(*self, db.child_source(*self)@)
    }

    /// The container has a field arena, and its slots can be numbered in 32
    /// bits.
    open spec fn resolvable(&self, db: &DefDatabase, file_id: HirFileId) -> bool {
        &&& db.has_variant(*self)
        &&& db.child_source(*self)@.len() <= u32::MAX
    }

    fn is_resolvable(&self, db: &DefDatabase, _file_id: HirFileId) -> (ok: bool) {
        db.has_variant(*self) && db.child_source(*self).len() <= 0xFFFF_FFFF
    }

    fn child_by_source_to(&self, db: &DefDatabase, res: &mut DynMap, _file_id: HirFileId) {
        let arena_map = db.child_source(*self);
        let parent = *self;
        let ghost before = res@;
        let mut i: usize = 0;
        while i < arena_map.len()
            invariant
                i <= arena_map@.len(),
                arena_map@.len() <= u32::MAX,
                res.wf(),
                res@ == before.extend(
                    select(field_records(parent, arena_map@.take(i as int)), _file_id),
                ),
            decreases arena_map@.len() - i,
        {
            let id = FieldId { parent, local_id: i as u32 };
            proof {
                assert(arena_map@.take(i + 1).drop_last() == arena_map@.take(i as int));
                let records = field_records(parent, arena_map@.take(i + 1));
                assert(records.drop_last() == field_records(parent, arena_map@.take(i as int)));
                assert(select(records, _file_id).drop_last() == select(
                    records.drop_last(),
                    _file_id,
                ));
            }
            match arena_map[i] {
                Either::Left(source) => res.insert_tuple_field(source, id),
                Either::Right(source) => res.insert_record_field(source, id),
            }
            i += 1;
        }
        proof {
            assert(arena_map@.take(i as int) == arena_map@);
        }
    }
}

impl ChildBySource for EnumId {
    /// The variants of the enum; all of them belong to the file of the enum.
    open spec fn records(&self, db: &DefDatabase) -> Seq<Record> {
        let data = db.enums@[self.0 as int];
        gather(data.variants@, enum_variant_records(db, data.loc.file_id))
    }

    open spec fn resolvable(&self, db: &DefDatabase, file_id: HirFileId) -> bool {
        &&& self.0 < db.enums@.len()
        &&& db.enums@[self.0 as int].loc.file_id == file_id ==> forall|i: int|
            0 <= i < db.enums@[self.0 as int].variants@.len() ==> {
                let variant = #[trigger] db.enums@[self.0 as int].variants@[i];
                &&& variant.0 < db.enum_variants@.len()
                &&& db.resolves_slot(file_id, db.enum_variants@[variant.0 as int].value)
            }
    }

    fn is_resolvable(&self, db: &DefDatabase, file_id: HirFileId) -> (ok: bool) {
        if self.0 as usize >= db.enums.len() {
            return false;
        }
        let data = &db.enums[self.0 as usize];
        if data.loc.file_id != file_id {
            return true;
        }
        let mut i: usize = 0;
        while i < data.variants.len()
            invariant
                i <= data.variants@.len(),
                self.0 < db.enums@.len(),
                *data == db.enums@[self.0 as int],
                data.loc.file_id == file_id,
                forall|j: int|
                    0 <= j < i ==> {
                        let variant = #[trigger] data.variants@[j];
                        &&& variant.0 < db.enum_variants@.len()
                        &&& db.resolves_slot(file_id, db.enum_variants@[variant.0 as int].value)
                    },
            decreases data.variants@.len() - i,
        {
            let variant = data.variants[i];
            if variant.0 as usize >= db.enum_variants.len() {
                return false;
            }
            if !db.resolves_slot(file_id, db.enum_variants[variant.0 as usize].value) {
                return false;
            }
            i += 1;
        }
        true
    }

    fn child_by_source_to(&self, db: &DefDatabase, res: &mut DynMap, file_id: HirFileId) {
        let data = &db.enums[self.0 as usize];
        let loc = data.loc;
        let ghost f = enum_variant_records(db, loc.file_id);
        if file_id != loc.file_id {
            proof {
                assert forall|i: int| 0 <= i < data.variants@.len() implies select(
                    f(#[trigger] data.variants@[i]),
                    file_id,
                ) == Seq::<Child>::empty() by {
                    lemma_select_foreign(f(data.variants@[i]), file_id);
                }
                lemma_gather_foreign(data.variants@, f, file_id);
            }
            return ;
        }
        let ghost before = res@;
        let ghost done = Seq::<Record>::empty();
        proof {
            lemma_loop_entry(done, data.variants@, f);
        }
        let mut i: usize = 0;
        while i < data.variants.len()
            invariant
                i <= data.variants@.len(),
                res.wf(),
                self.resolvable(db, file_id),
                *data == db.enums@[self.0 as int],
                loc == data.loc,
                loc.file_id == file_id,
                f == enum_variant_records(db, loc.file_id),
                res@ == before.extend(
                    select(done + gather(data.variants@.take(i as int), f), file_id),
                ),
            decreases data.variants@.len() - i,
        {
            let variant = data.variants[i];
            proof {
                lemma_loop_step(before, done, data.variants@, f, i as int, file_id);
                lemma_select_one(f(variant)[0], file_id);
                lemma_extend_one(res@, f(variant)[0].child);
                assert(f(variant) == seq![f(variant)[0]]);
            }
            let value = db.enum_variants[variant.0 as usize].value;
            res.insert_enum_variant(db.slot_node(loc.file_id, value).ptr, variant);
            i += 1;
        }
        proof {
            assert(data.variants@.take(i as int) == data.variants@);
            assert(done + gather(data.variants@, f) == gather(data.variants@, f));
        }
    }
}

impl ChildBySource for DefWithBodyId {
    /// For the body of an enum variant, the variant's fields. Then, for every
    /// body, the items declared in its blocks: they are children of the body,
    /// not of a module of their own.
    open spec fn records(&self, db: &DefDatabase) -> Seq<Record> {
        let fields = match *self {
            DefWithBodyId::VariantId(v) => VariantId::EnumVariantId(v).records(db),
            _ => Seq::empty(),
        };
        fields + gather(db.body(*self).blocks@, block_records(db))
    }

    open spec fn resolvable(&self, db: &DefDatabase, file_id: HirFileId) -> bool {
        &&& db.has_body(*self)
        &&& match *self {
            DefWithBodyId::VariantId(v) => VariantId::EnumVariantId(v).resolvable(db, file_id),
            _ => true,
        }
        &&& forall|i: int|
            0 <= i < db.body(*self).blocks@.len() ==> {
                let block = #[trigger] db.body(*self).blocks@[i];
                &&& block.0 < db.block_def_maps@.len()
                &&& db.block_def_maps@[block.0 as int].has_root()
                &&& db.block_def_maps@[block.0 as int].root().resolvable(db, file_id)
            }
    }

    fn is_resolvable(&self, db: &DefDatabase, file_id: HirFileId) -> (ok: bool) {
        if !db.has_body(*self) {
            return false;
        }
        if let DefWithBodyId::VariantId(v) = *self {
            if !VariantId::EnumVariantId(v).is_resolvable(db, file_id) {
                return false;
            }
        }
        let body = db.body(*self);
        let mut i: usize = 0;
        while i < body.blocks.len()
            invariant
                i <= body.blocks@.len(),
                db.has_body(*self),
                body == db.body(*self),
                forall|j: int|
                    0 <= j < i ==> {
                        let block = #[trigger] body.blocks@[j];
                        &&& block.0 < db.block_def_maps@.len()
                        &&& db.block_def_maps@[block.0 as int].has_root()
                        &&& db.block_def_maps@[block.0 as int].root().resolvable(db, file_id)
                    },
            decreases body.blocks@.len() - i,
        {
            let block = body.blocks[i];
            if block.0 as usize >= db.block_def_maps.len() {
                return false;
            }
            let def_map = &db.block_def_maps[block.0 as usize];
            if !def_map.has_root() {
                return false;
            }
            if !def_map.root().is_resolvable(db, file_id) {
                return false;
            }
            i += 1;
        }
        true
    }

    fn child_by_source_to(&self, db: &DefDatabase, res: &mut DynMap, file_id: HirFileId) {
        let body = db.body(*self);
        let ghost before = res@;
        let ghost mut done = Seq::<Record>::empty();
        if let DefWithBodyId::VariantId(v) = *self {
            VariantId::EnumVariantId(v).child_by_source_to(db, res, file_id);
            proof {
                done = VariantId::EnumVariantId(v).records(db);
            }
        }
        proof {
            lemma_loop_entry(done, body.blocks@, block_records(db));
        }
        let mut i: usize = 0;
        while i < body.blocks.len()
            invariant
                i <= body.blocks@.len(),
                res.wf(),
                self.resolvable(db, file_id),
                body == db.body(*self),
                res@ == before.extend(
                    select(done + gather(body.blocks@.take(i as int), block_records(db)), file_id),
                ),
            decreases body.blocks@.len() - i,
        {
            proof {
                lemma_loop_step(before, done, body.blocks@, block_records(db), i as int, file_id);
            }
            // The items of every block go into the one index of the body.
            let def_map = &db.block_def_maps[body.blocks[i].0 as usize];
            def_map.root().child_by_source_to(db, res, file_id);
            i += 1;
        }
        proof {
            assert(body.blocks@.take(i as int) == body.blocks@);
        }
    }
}

} // verus!
