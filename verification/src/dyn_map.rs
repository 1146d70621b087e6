//! The result index: one map from syntax node to identifier per category.
//!
//! A category fixes both what kind of node is the key and what kind of
//! identifier is the value, so an identifier can only be stored under the
//! category it belongs to. The index is built by insertion and never shrinks.

use crate::ids::{
    ConstId, EnumId, EnumVariantId, ExternCrateId, FieldId, FunctionId, ImplId, ItemId,
    Macro2Id, MacroCallId, MacroRulesId, ProcMacroId, StaticId, StructId, TraitAliasId, TraitId,
    TypeAliasId, UnionId, UseId,
};
use crate::item_scope::{DeriveCall, DeriveMacroInvocation};
use crate::syntax::{AstPtr, AttrPtr, NodeKey};
use vstd::prelude::*;

verus! {

/// The map that a list of pairs stands for when later pairs replace earlier
/// ones with the same key.
spec fn pairs_to_map<K, V>(pairs: Seq<(K, V)>) -> Map<K, V>
    decreases pairs.len(),
{
    if pairs.len() == 0 {
        Map::empty()
    } else {
        pairs_to_map(pairs.drop_last()).insert(pairs.last().0, pairs.last().1)
    }
}

/// No key occurs twice.
spec fn distinct_keys<K, V>(pairs: Seq<(K, V)>) -> bool {
    forall|i: int, j: int|
        0 <= i < j < pairs.len() ==> (#[trigger] pairs[i]).0 != (#[trigger] pairs[j]).0
}

proof fn lemma_pairs_dom<K, V>(pairs: Seq<(K, V)>, key: K)
    ensures
        pairs_to_map(pairs).contains_key(key) <==> exists|i: int|
            0 <= i < pairs.len() && (#[trigger] pairs[i]).0 == key,
    decreases pairs.len(),
{
    if pairs.len() > 0 {
        let init = pairs.drop_last();
        lemma_pairs_dom(init, key);
        if pairs_to_map(pairs).contains_key(key) {
            if pairs.last().0 == key {
                assert(pairs[pairs.len() - 1].0 == key);
            } else {
                let i = choose|i: int| 0 <= i < init.len() && (#[trigger] init[i]).0 == key;
                assert(pairs[i].0 == key);
            }
        }
        if exists|i: int| 0 <= i < pairs.len() && (#[trigger] pairs[i]).0 == key {
            let i = choose|i: int| 0 <= i < pairs.len() && (#[trigger] pairs[i]).0 == key;
            if i < init.len() {
                assert(init[i].0 == key);
            }
        }
    }
}

proof fn lemma_pairs_value<K, V>(pairs: Seq<(K, V)>, i: int)
    requires
        distinct_keys(pairs),
        0 <= i < pairs.len(),
    ensures
        pairs_to_map(pairs).contains_pair(pairs[i].0, pairs[i].1),
    decreases pairs.len(),
{
    let init = pairs.drop_last();
    if i < init.len() {
        assert(distinct_keys(init)) by {
            assert forall|a: int, b: int| 0 <= a < b < init.len() implies (#[trigger] init[a]).0
                != (#[trigger] init[b]).0 by {
                assert(pairs[a].0 != pairs[b].0);
            }
        }
        lemma_pairs_value(init, i);
        assert(pairs[i].0 != pairs[pairs.len() - 1].0);
    }
}

proof fn lemma_pairs_len<K, V>(pairs: Seq<(K, V)>)
    requires
        distinct_keys(pairs),
    ensures
        pairs_to_map(pairs).dom().finite(),
        pairs_to_map(pairs).dom().len() == pairs.len(),
    decreases pairs.len(),
{
    if pairs.len() > 0 {
        let init = pairs.drop_last();
        assert(distinct_keys(init)) by {
            assert forall|a: int, b: int| 0 <= a < b < init.len() implies (#[trigger] init[a]).0
                != (#[trigger] init[b]).0 by {
                assert(pairs[a].0 != pairs[b].0);
            }
        }
        lemma_pairs_len(init);
        lemma_pairs_dom(init, pairs.last().0);
        if pairs_to_map(init).contains_key(pairs.last().0) {
            let i = choose|i: int| 0 <= i < init.len() && (#[trigger] init[i]).0 == pairs.last().0;
            assert(pairs[i].0 != pairs[pairs.len() - 1].0);
        }
        assert(pairs_to_map(pairs).dom() == pairs_to_map(init).dom().insert(pairs.last().0));
    } else {
        assert(pairs_to_map(pairs).dom() == Set::<K>::empty());
    }
}

proof fn lemma_pairs_replace<K, V>(pairs: Seq<(K, V)>, i: int, value: V)
    requires
        distinct_keys(pairs),
        0 <= i < pairs.len(),
    ensures
        distinct_keys(pairs.update(i, (pairs[i].0, value))),
        pairs_to_map(pairs.update(i, (pairs[i].0, value))) == pairs_to_map(pairs).insert(
            pairs[i].0,
            value,
        ),
{
    let key = pairs[i].0;
    let after = pairs.update(i, (key, value));
    assert(distinct_keys(after)) by {
        assert forall|a: int, b: int| 0 <= a < b < after.len() implies (#[trigger] after[a]).0
            != (#[trigger] after[b]).0 by {
            assert(pairs[a].0 != pairs[b].0);
        }
    }
    let lhs = pairs_to_map(after);
    let rhs = pairs_to_map(pairs).insert(key, value);
    assert forall|k: K| lhs.contains_key(k) <==> rhs.contains_key(k) by {
        lemma_pairs_dom(after, k);
        lemma_pairs_dom(pairs, k);
        if lhs.contains_key(k) {
            let j = choose|j: int| 0 <= j < after.len() && (#[trigger] after[j]).0 == k;
            assert(pairs[j].0 == k);
        }
        if rhs.contains_key(k) {
            if k == key {
                assert(after[i].0 == k);
            } else {
                let j = choose|j: int| 0 <= j < pairs.len() && (#[trigger] pairs[j]).0 == k;
                assert(after[j].0 == k);
            }
        }
    }
    assert forall|k: K| lhs.contains_key(k) implies lhs[k] == rhs[k] by {
        lemma_pairs_dom(after, k);
        let j = choose|j: int| 0 <= j < after.len() && (#[trigger] after[j]).0 == k;
        lemma_pairs_value(after, j);
        if j != i {
            lemma_pairs_value(pairs, j);
            if j < i {
                assert(pairs[j].0 != pairs[i].0);
            } else {
                assert(pairs[i].0 != pairs[j].0);
            }
        }
    }
    assert(lhs =~= rhs);
}

/// A map from syntax nodes to values of one kind.
#[derive(Clone, Debug)]
pub struct NodeMap<K, V> {
    entries: Vec<(K, V)>,
}

impl<K, V> View for NodeMap<K, V> {
    type V = Map<K, V>;

    closed spec fn view(&self) -> Map<K, V> {
        pairs_to_map(self.entries@)
    }
}

impl<K: NodeKey, V> NodeMap<K, V> {
    /// Every node is stored once.
    pub closed spec fn wf(&self) -> bool {
        distinct_keys(self.entries@)
    }

    /// A map without entries.
    pub fn new() -> (map: Self)
        ensures
            map.wf(),
            map@ == Map::<K, V>::empty(),
    {
        NodeMap { entries: Vec::new() }
    }

    /// Associates `value` with `key`, in place of what `key` had before.
    pub fn insert(&mut self, key: K, value: V)
        requires
            old(self).wf(),
        ensures
            final(self).wf(),
            final(self)@ == old(self)@.insert(key, value),
    {
        let mut i: usize = 0;
        while i < self.entries.len()
            invariant
                i <= self.entries@.len(),
                self.entries@ == old(self).entries@,
                distinct_keys(self.entries@),
                forall|j: int| 0 <= j < i ==> (#[trigger] self.entries@[j]).0 != key,
            decreases self.entries@.len() - i,
        {
            if self.entries[i].0.same_node(&key) {
                proof {
                    lemma_pairs_replace(self.entries@, i as int, value);
                }
                self.entries.set(i, (key, value));
                return ;
            }
            i += 1;
        }
        self.entries.push((key, value));
        proof {
            assert(self.entries@.drop_last() == old(self).entries@);
        }
    }

    /// The value stored for `key`.
    pub fn get(&self, key: &K) -> (value: Option<&V>)
        requires
            self.wf(),
        ensures
            match value {
                Some(v) => self@.contains_pair(*key, *v),
                None => !self@.contains_key(*key),
            },
    {
        let mut i: usize = 0;
        while i < self.entries.len()
            invariant
                i <= self.entries@.len(),
                distinct_keys(self.entries@),
                forall|j: int| 0 <= j < i ==> (#[trigger] self.entries@[j]).0 != *key,
            decreases self.entries@.len() - i,
        {
            if self.entries[i].0.same_node(key) {
                proof {
                    lemma_pairs_value(self.entries@, i as int);
                }
                return Some(&self.entries[i].1);
            }
            i += 1;
        }
        proof {
            lemma_pairs_dom(self.entries@, *key);
        }
        None
    }

    /// How many nodes have a value.
    pub fn len(&self) -> (n: usize)
        requires
            self.wf(),
        ensures
            self@.dom().finite(),
            n == self@.dom().len(),
    {
        proof {
            lemma_pairs_len(self.entries@);
        }
        self.entries.len()
    }

    /// Whether no node has a value.
    pub fn is_empty(&self) -> (empty: bool)
        requires
            self.wf(),
        ensures
            empty == (self@ == Map::<K, V>::empty()),
    {
        proof {
            lemma_pairs_len(self.entries@);
            if self.entries@.len() == 0 {
                assert(self@ =~= Map::<K, V>::empty());
            }
        }
        self.entries.len() == 0
    }
}

/// One association of the index: a node, the identifier it stands for, and by
/// its variant the category it is stored under.
pub enum Child {
    /// An item, under the category of its kind.
    Item(AstPtr, ItemId),
    EnumVariant(AstPtr, EnumVariantId),
    TupleField(AstPtr, FieldId),
    RecordField(AstPtr, FieldId),
    AttrMacroCall(AstPtr, MacroCallId),
    /// A derive attribute and the invocation recorded for it.
    DeriveMacroCall(AttrPtr, DeriveCall),
}

/// The index as a mathematical value: one map per category.
pub struct DynMapView {
    pub functions: Map<AstPtr, FunctionId>,
    pub consts: Map<AstPtr, ConstId>,
    pub statics: Map<AstPtr, StaticId>,
    pub type_aliases: Map<AstPtr, TypeAliasId>,
    pub impls: Map<AstPtr, ImplId>,
    pub traits: Map<AstPtr, TraitId>,
    pub trait_aliases: Map<AstPtr, TraitAliasId>,
    pub structs: Map<AstPtr, StructId>,
    pub unions: Map<AstPtr, UnionId>,
    pub enums: Map<AstPtr, EnumId>,
    pub extern_crates: Map<AstPtr, ExternCrateId>,
    pub uses: Map<AstPtr, UseId>,
    pub macro_rules: Map<AstPtr, MacroRulesId>,
    pub macro2s: Map<AstPtr, Macro2Id>,
    pub proc_macros: Map<AstPtr, ProcMacroId>,
    pub enum_variants: Map<AstPtr, EnumVariantId>,
    pub tuple_fields: Map<AstPtr, FieldId>,
    pub record_fields: Map<AstPtr, FieldId>,
    pub attr_macro_calls: Map<AstPtr, MacroCallId>,
    pub derive_macro_calls: Map<AttrPtr, DeriveCall>,
}

impl DynMapView {
    /// The index without any entry.
    pub open spec fn empty() -> DynMapView {
        DynMapView {
            functions: Map::empty(),
            consts: Map::empty(),
            statics: Map::empty(),
            type_aliases: Map::empty(),
            impls: Map::empty(),
            traits: Map::empty(),
            trait_aliases: Map::empty(),
            structs: Map::empty(),
            unions: Map::empty(),
            enums: Map::empty(),
            extern_crates: Map::empty(),
            uses: Map::empty(),
            macro_rules: Map::empty(),
            macro2s: Map::empty(),
            proc_macros: Map::empty(),
            enum_variants: Map::empty(),
            tuple_fields: Map::empty(),
            record_fields: Map::empty(),
            attr_macro_calls: Map::empty(),
            derive_macro_calls: Map::empty(),
        }
    }

    /// The index after `child` was stored; what its node stood for in its
    /// category before is replaced.
    pub open spec fn insert(self, child: Child) -> DynMapView {
        match child {
            Child::Item(ptr, ItemId::FunctionId(id)) => DynMapView {
                functions: self.functions.insert(ptr, id),
                ..self
            },
            Child::Item(ptr, ItemId::ConstId(id)) => DynMapView {
                consts: self.consts.insert(ptr, id),
                ..self
            },
            Child::Item(ptr, ItemId::StaticId(id)) => DynMapView {
                statics: self.statics.insert(ptr, id),
                ..self
            },
            Child::Item(ptr, ItemId::TypeAliasId(id)) => DynMapView {
                type_aliases: self.type_aliases.insert(ptr, id),
                ..self
            },
            Child::Item(ptr, ItemId::ImplId(id)) => DynMapView {
                impls: self.impls.insert(ptr, id),
                ..self
            },
            Child::Item(ptr, ItemId::TraitId(id)) => DynMapView {
                traits: self.traits.insert(ptr, id),
                ..self
            },
            Child::Item(ptr, ItemId::TraitAliasId(id)) => DynMapView {
                trait_aliases: self.trait_aliases.insert(ptr, id),
                ..self
            },
            Child::Item(ptr, ItemId::StructId(id)) => DynMapView {
                structs: self.structs.insert(ptr, id),
                ..self
            },
            Child::Item(ptr, ItemId::UnionId(id)) => DynMapView {
                unions: self.unions.insert(ptr, id),
                ..self
            },
            Child::Item(ptr, ItemId::EnumId(id)) => DynMapView {
                enums: self.enums.insert(ptr, id),
                ..self
            },
            Child::Item(ptr, ItemId::ExternCrateId(id)) => DynMapView {
                extern_crates: self.extern_crates.insert(ptr, id),
                ..self
            },
            Child::Item(ptr, ItemId::UseId(id)) => DynMapView {
                uses: self.uses.insert(ptr, id),
                ..self
            },
            Child::Item(ptr, ItemId::MacroRulesId(id)) => DynMapView {
                macro_rules: self.macro_rules.insert(ptr, id),
                ..self
            },
            Child::Item(ptr, ItemId::Macro2Id(id)) => DynMapView {
                macro2s: self.macro2s.insert(ptr, id),
                ..self
            },
            Child::Item(ptr, ItemId::ProcMacroId(id)) => DynMapView {
                proc_macros: self.proc_macros.insert(ptr, id),
                ..self
            },
            Child::EnumVariant(ptr, id) => DynMapView {
                enum_variants: self.enum_variants.insert(ptr, id),
                ..self
            },
            Child::TupleField(ptr, id) => DynMapView {
                tuple_fields: self.tuple_fields.insert(ptr, id),
                ..self
            },
            Child::RecordField(ptr, id) => DynMapView {
                record_fields: self.record_fields.insert(ptr, id),
                ..self
            },
            Child::AttrMacroCall(ptr, id) => DynMapView {
                attr_macro_calls: self.attr_macro_calls.insert(ptr, id),
                ..self
            },
            Child::DeriveMacroCall(ptr, call) => DynMapView {
                derive_macro_calls: self.derive_macro_calls.insert(ptr, call),
                ..self
            },
        }
    }

    /// Whether `child` is stored: its node has its identifier, in its category.
    pub open spec fn contains(self, child: Child) -> bool {
        match child {
            Child::Item(ptr, ItemId::FunctionId(id)) => self.functions.contains_pair(ptr, id),
            Child::Item(ptr, ItemId::ConstId(id)) => self.consts.contains_pair(ptr, id),
            Child::Item(ptr, ItemId::StaticId(id)) => self.statics.contains_pair(ptr, id),
            Child::Item(ptr, ItemId::TypeAliasId(id)) => self.type_aliases.contains_pair(ptr, id),
            Child::Item(ptr, ItemId::ImplId(id)) => self.impls.contains_pair(ptr, id),
            Child::Item(ptr, ItemId::TraitId(id)) => self.traits.contains_pair(ptr, id),
            Child::Item(ptr, ItemId::TraitAliasId(id)) => self.trait_aliases.contains_pair(ptr, id),
            Child::Item(ptr, ItemId::StructId(id)) => self.structs.contains_pair(ptr, id),
            Child::Item(ptr, ItemId::UnionId(id)) => self.unions.contains_pair(ptr, id),
            Child::Item(ptr, ItemId::EnumId(id)) => self.enums.contains_pair(ptr, id),
            Child::Item(ptr, ItemId::ExternCrateId(id)) => self.extern_crates.contains_pair(
                ptr,
                id,
            ),
            Child::Item(ptr, ItemId::UseId(id)) => self.uses.contains_pair(ptr, id),
            Child::Item(ptr, ItemId::MacroRulesId(id)) => self.macro_rules.contains_pair(ptr, id),
            Child::Item(ptr, ItemId::Macro2Id(id)) => self.macro2s.contains_pair(ptr, id),
            Child::Item(ptr, ItemId::ProcMacroId(id)) => self.proc_macros.contains_pair(ptr, id),
            Child::EnumVariant(ptr, id) => self.enum_variants.contains_pair(ptr, id),
            Child::TupleField(ptr, id) => self.tuple_fields.contains_pair(ptr, id),
            Child::RecordField(ptr, id) => self.record_fields.contains_pair(ptr, id),
            Child::AttrMacroCall(ptr, id) => self.attr_macro_calls.contains_pair(ptr, id),
            Child::DeriveMacroCall(ptr, call) => self.derive_macro_calls.contains_pair(ptr, call),
        }
    }

    /// The index after each of `children` was stored, first to last.
    pub open spec fn extend(self, children: Seq<Child>) -> DynMapView
        decreases children.len(),
    {
        if children.len() == 0 {
            self
        } else {
            self.extend(children.drop_last()).insert(children.last())
        }
    }
}

impl Child {
    /// Whether two associations compete for one place: the same node in the
    /// same category.
    pub open spec fn same_slot(self, other: Child) -> bool {
        match (self, other) {
            (
                Child::Item(p, ItemId::FunctionId(_)),
                Child::Item(q, ItemId::FunctionId(_)),
            ) => p == q,
            (Child::Item(p, ItemId::ConstId(_)), Child::Item(q, ItemId::ConstId(_))) => p == q,
            (Child::Item(p, ItemId::StaticId(_)), Child::Item(q, ItemId::StaticId(_))) => p == q,
            (
                Child::Item(p, ItemId::TypeAliasId(_)),
                Child::Item(q, ItemId::TypeAliasId(_)),
            ) => p == q,
            (Child::Item(p, ItemId::ImplId(_)), Child::Item(q, ItemId::ImplId(_))) => p == q,
            (Child::Item(p, ItemId::TraitId(_)), Child::Item(q, ItemId::TraitId(_))) => p == q,
            (
                Child::Item(p, ItemId::TraitAliasId(_)),
                Child::Item(q, ItemId::TraitAliasId(_)),
            ) => p == q,
            (Child::Item(p, ItemId::StructId(_)), Child::Item(q, ItemId::StructId(_))) => p == q,
            (Child::Item(p, ItemId::UnionId(_)), Child::Item(q, ItemId::UnionId(_))) => p == q,
            (Child::Item(p, ItemId::EnumId(_)), Child::Item(q, ItemId::EnumId(_))) => p == q,
            (
                Child::Item(p, ItemId::ExternCrateId(_)),
                Child::Item(q, ItemId::ExternCrateId(_)),
            ) => p == q,
            (Child::Item(p, ItemId::UseId(_)), Child::Item(q, ItemId::UseId(_))) => p == q,
            (
                Child::Item(p, ItemId::MacroRulesId(_)),
                Child::Item(q, ItemId::MacroRulesId(_)),
            ) => p == q,
            (Child::Item(p, ItemId::Macro2Id(_)), Child::Item(q, ItemId::Macro2Id(_))) => p == q,
            (
                Child::Item(p, ItemId::ProcMacroId(_)),
                Child::Item(q, ItemId::ProcMacroId(_)),
            ) => p == q,
            (Child::EnumVariant(p, _), Child::EnumVariant(q, _)) => p == q,
            (Child::TupleField(p, _), Child::TupleField(q, _)) => p == q,
            (Child::RecordField(p, _), Child::RecordField(q, _)) => p == q,
            (Child::AttrMacroCall(p, _), Child::AttrMacroCall(q, _)) => p == q,
            (Child::DeriveMacroCall(p, _), Child::DeriveMacroCall(q, _)) => p == q,
            _ => false,
        }
    }
}

/// Storing two lists in a row is storing the first, then the second.
pub proof fn lemma_extend_add(map: DynMapView, a: Seq<Child>, b: Seq<Child>)
    ensures
        map.extend(a + b) == map.extend(a).extend(b),
    decreases b.len(),
{
    if b.len() == 0 {
        assert(a + b == a);
    } else {
        lemma_extend_add(map, a, b.drop_last());
        assert((a + b).drop_last() == a + b.drop_last());
        assert((a + b).last() == b.last());
    }
}

/// Storing a single association.
pub proof fn lemma_extend_one(map: DynMapView, child: Child)
    ensures
        map.extend(seq![child]) == map.insert(child),
{
    reveal_with_fuel(DynMapView::extend, 2);
    assert(seq![child].drop_last() == Seq::<Child>::empty());
}

/// No two associations of the list compete for one place, unless they are the
/// same association.
pub open spec fn unambiguous(children: Seq<Child>) -> bool {
    forall|i: int, j: int|
        0 <= i < children.len() && 0 <= j < children.len() && (#[trigger] children[i]).same_slot(
            #[trigger] children[j],
        ) ==> children[i] == children[j]
}

/// After one insertion the index holds the inserted association, and of the
/// others those that it held before and that did not have to make way.
pub proof fn lemma_insert_contains(map: DynMapView, inserted: Child, child: Child)
    ensures
        map.insert(inserted).contains(child) <==> (child == inserted || (map.contains(child)
            && !child.same_slot(inserted))),
{
}

/// Whatever an index holds after a list was stored, it held before or the
/// list gave.
pub proof fn lemma_extend_only(map: DynMapView, children: Seq<Child>, child: Child)
    requires
        map.extend(children).contains(child),
    ensures
        map.contains(child) || children.contains(child),
    decreases children.len(),
{
    if children.len() > 0 {
        lemma_insert_contains(map.extend(children.drop_last()), children.last(), child);
        if child == children.last() {
            assert(children[children.len() - 1] == child);
        } else {
            lemma_extend_only(map, children.drop_last(), child);
            if children.drop_last().contains(child) {
                let i = choose|i: int|
                    0 <= i < children.drop_last().len() && children.drop_last()[i] == child;
                assert(children[i] == child);
            }
        }
    }
}

/// Every association of an unambiguous list is held after the list was
/// stored.
pub proof fn lemma_extend_keeps(map: DynMapView, children: Seq<Child>, child: Child)
    requires
        unambiguous(children),
        children.contains(child),
    ensures
        map.extend(children).contains(child),
    decreases children.len(),
{
    let init = children.drop_last();
    let last = children.last();
    lemma_insert_contains(map.extend(init), last, child);
    if child != last {
        let i = choose|i: int| 0 <= i < children.len() && children[i] == child;
        assert(init[i] == child);
        assert(unambiguous(init)) by {
            assert forall|a: int, b: int|
                0 <= a < init.len() && 0 <= b < init.len() && (#[trigger] init[a]).same_slot(
                    #[trigger] init[b],
                ) implies init[a] == init[b] by {
                assert(children[a].same_slot(children[b]));
            }
        }
        lemma_extend_keeps(map, init, child);
        if child.same_slot(last) {
            assert(children[i].same_slot(children[children.len() - 1]));
        }
    }
}

/// The result index of one traversal.
#[derive(Clone, Debug)]
pub struct DynMap {
    pub functions: NodeMap<AstPtr, FunctionId>,
    pub consts: NodeMap<AstPtr, ConstId>,
    pub statics: NodeMap<AstPtr, StaticId>,
    pub type_aliases: NodeMap<AstPtr, TypeAliasId>,
    pub impls: NodeMap<AstPtr, ImplId>,
    pub traits: NodeMap<AstPtr, TraitId>,
    pub trait_aliases: NodeMap<AstPtr, TraitAliasId>,
    pub structs: NodeMap<AstPtr, StructId>,
    pub unions: NodeMap<AstPtr, UnionId>,
    pub enums: NodeMap<AstPtr, EnumId>,
    pub extern_crates: NodeMap<AstPtr, ExternCrateId>,
    pub uses: NodeMap<AstPtr, UseId>,
    pub macro_rules: NodeMap<AstPtr, MacroRulesId>,
    pub macro2s: NodeMap<AstPtr, Macro2Id>,
    pub proc_macros: NodeMap<AstPtr, ProcMacroId>,
    pub enum_variants: NodeMap<AstPtr, EnumVariantId>,
    pub tuple_fields: NodeMap<AstPtr, FieldId>,
    pub record_fields: NodeMap<AstPtr, FieldId>,
    pub attr_macro_calls: NodeMap<AstPtr, MacroCallId>,
    pub derive_macro_calls: NodeMap<AttrPtr, DeriveMacroInvocation>,
}

impl View for DynMap {
    type V = DynMapView;

    open spec fn view(&self) -> DynMapView {
        DynMapView {
            functions: self.functions@,
            consts: self.consts@,
            statics: self.statics@,
            type_aliases: self.type_aliases@,
            impls: self.impls@,
            traits: self.traits@,
            trait_aliases: self.trait_aliases@,
            structs: self.structs@,
            unions: self.unions@,
            enums: self.enums@,
            extern_crates: self.extern_crates@,
            uses: self.uses@,
            macro_rules: self.macro_rules@,
            macro2s: self.macro2s@,
            proc_macros: self.proc_macros@,
            enum_variants: self.enum_variants@,
            tuple_fields: self.tuple_fields@,
            record_fields: self.record_fields@,
            attr_macro_calls: self.attr_macro_calls@,
            derive_macro_calls: self.derive_macro_calls@.map_values(
                |call: DeriveMacroInvocation| call@,
            ),
        }
    }
}

impl DynMap {
    /// Each of the maps is well formed.
    pub open spec fn wf(&self) -> bool {
        &&& self.functions.wf()
        &&& self.consts.wf()
        &&& self.statics.wf()
        &&& self.type_aliases.wf()
        &&& self.impls.wf()
        &&& self.traits.wf()
        &&& self.trait_aliases.wf()
        &&& self.structs.wf()
        &&& self.unions.wf()
        &&& self.enums.wf()
        &&& self.extern_crates.wf()
        &&& self.uses.wf()
        &&& self.macro_rules.wf()
        &&& self.macro2s.wf()
        &&& self.proc_macros.wf()
        &&& self.enum_variants.wf()
        &&& self.tuple_fields.wf()
        &&& self.record_fields.wf()
        &&& self.attr_macro_calls.wf()
        &&& self.derive_macro_calls.wf()
    }

    /// An index without entries.
    pub fn new() -> (map: DynMap)
        ensures
            map.wf(),
            map@ == DynMapView::empty(),
    {
        let map = DynMap {
            functions: NodeMap::new(),
            consts: NodeMap::new(),
            statics: NodeMap::new(),
            type_aliases: NodeMap::new(),
            impls: NodeMap::new(),
            traits: NodeMap::new(),
            trait_aliases: NodeMap::new(),
            structs: NodeMap::new(),
            unions: NodeMap::new(),
            enums: NodeMap::new(),
            extern_crates: NodeMap::new(),
            uses: NodeMap::new(),
            macro_rules: NodeMap::new(),
            macro2s: NodeMap::new(),
            proc_macros: NodeMap::new(),
            enum_variants: NodeMap::new(),
            tuple_fields: NodeMap::new(),
            record_fields: NodeMap::new(),
            attr_macro_calls: NodeMap::new(),
            derive_macro_calls: NodeMap::new(),
        };
        assert(map@.derive_macro_calls =~= Map::empty());
        map
    }

    /// Whether no category has an entry.
    pub fn is_empty(&self) -> (empty: bool)
        requires
            self.wf(),
        ensures
            empty == (self@ == DynMapView::empty()),
    {
        let empty = self.functions.is_empty()
            && self.consts.is_empty()
            && self.statics.is_empty()
            && self.type_aliases.is_empty()
            && self.impls.is_empty()
            && self.traits.is_empty()
            && self.trait_aliases.is_empty()
            && self.structs.is_empty()
            && self.unions.is_empty()
            && self.enums.is_empty()
            && self.extern_crates.is_empty()
            && self.uses.is_empty()
            && self.macro_rules.is_empty()
            && self.macro2s.is_empty()
            && self.proc_macros.is_empty()
            && self.enum_variants.is_empty()
            && self.tuple_fields.is_empty()
            && self.record_fields.is_empty()
            && self.attr_macro_calls.is_empty()
            && self.derive_macro_calls.is_empty();
        proof {
            let calls = self.derive_macro_calls@;
            let views = self@.derive_macro_calls;
            if calls == Map::<AttrPtr, DeriveMacroInvocation>::empty() {
                assert(views =~= Map::empty());
            }
            if views == Map::<AttrPtr, DeriveCall>::empty() {
                assert(calls.dom() =~= views.dom());
                assert(calls =~= Map::empty());
            }
        }
        empty
    }

    /// Stores an item under the category of its kind.
    pub fn insert_item(&mut self, ptr: AstPtr, item: ItemId)
        requires
            old(self).wf(),
        ensures
            final(self).wf(),
            final(self)@ == old(self)@.insert(Child::Item(ptr, item)),
    {
        match item {
            ItemId::FunctionId(id) => self.functions.insert(ptr, id),
            ItemId::ConstId(id) => self.consts.insert(ptr, id),
            ItemId::StaticId(id) => self.statics.insert(ptr, id),
            ItemId::TypeAliasId(id) => self.type_aliases.insert(ptr, id),
            ItemId::ImplId(id) => self.impls.insert(ptr, id),
            ItemId::TraitId(id) => self.traits.insert(ptr, id),
            ItemId::TraitAliasId(id) => self.trait_aliases.insert(ptr, id),
            ItemId::StructId(id) => self.structs.insert(ptr, id),
            ItemId::UnionId(id) => self.unions.insert(ptr, id),
            ItemId::EnumId(id) => self.enums.insert(ptr, id),
            ItemId::ExternCrateId(id) => self.extern_crates.insert(ptr, id),
            ItemId::UseId(id) => self.uses.insert(ptr, id),
            ItemId::MacroRulesId(id) => self.macro_rules.insert(ptr, id),
            ItemId::Macro2Id(id) => self.macro2s.insert(ptr, id),
            ItemId::ProcMacroId(id) => self.proc_macros.insert(ptr, id),
        }
    }

    /// Stores an enum variant.
    pub fn insert_enum_variant(&mut self, ptr: AstPtr, id: EnumVariantId)
        requires
            old(self).wf(),
        ensures
            final(self).wf(),
            final(self)@ == old(self)@.insert(Child::EnumVariant(ptr, id)),
    {
        self.enum_variants.insert(ptr, id);
    }

    /// Stores a field written by position.
    pub fn insert_tuple_field(&mut self, ptr: AstPtr, id: FieldId)
        requires
            old(self).wf(),
        ensures
            final(self).wf(),
            final(self)@ == old(self)@.insert(Child::TupleField(ptr, id)),
    {
        self.tuple_fields.insert(ptr, id);
    }

    /// Stores a field written by name.
    pub fn insert_record_field(&mut self, ptr: AstPtr, id: FieldId)
        requires
            old(self).wf(),
        ensures
            final(self).wf(),
            final(self)@ == old(self)@.insert(Child::RecordField(ptr, id)),
    {
        self.record_fields.insert(ptr, id);
    }

    /// Stores the call that an attribute macro on an item became.
    pub fn insert_attr_macro_call(&mut self, ptr: AstPtr, id: MacroCallId)
        requires
            old(self).wf(),
        ensures
            final(self).wf(),
            final(self)@ == old(self)@.insert(Child::AttrMacroCall(ptr, id)),
    {
        self.attr_macro_calls.insert(ptr, id);
    }

    /// Stores the invocation recorded for a derive attribute.
    pub fn insert_derive_macro_call(&mut self, ptr: AttrPtr, call: DeriveMacroInvocation)
        requires
            old(self).wf(),
        ensures
            final(self).wf(),
            final(self)@ == old(self)@.insert(Child::DeriveMacroCall(ptr, call@)),
    {
        self.derive_macro_calls.insert(ptr, call);
        assert(self@.derive_macro_calls =~= old(self)@.derive_macro_calls.insert(ptr, call@));
    }
}

impl Default for DynMap {
    /// An index without entries.
    fn default() -> (map: DynMap)
        ensures
            map.wf(),
            map@ == DynMapView::empty(),
    {
        DynMap::new()
    }
}

} // verus!
