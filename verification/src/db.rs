//! The snapshot a traversal reads: every table that lowering and name
//! resolution filled, as plain data.
//!
//! Identifiers are slots of these tables. Nothing here is computed on demand;
//! a snapshot is built once per revision and only read afterwards.

use crate::ids::{
    AssocItemId, BlockId, DefWithBodyId, EnumId, EnumVariantId, ItemId, MacroCallId, MacroId,
    ModuleDefId, ModuleId, VariantId,
};
use crate::item_scope::ItemScope;
use crate::syntax::{AstId, AstPtr, HirFileId, SyntaxNode};
use either::Either;
use vstd::prelude::*;

verus! {

/// Where an item was lowered from: the file, and the item's slot in that
/// file's item tree.
#[derive(Clone, Copy, PartialEq, Eq, Structural, Debug, Hash)]
pub struct ItemLoc {
    pub file_id: HirFileId,
    pub value: u32,
}

/// What the snapshot keeps per file.
#[derive(Clone, PartialEq, Eq, Debug)]
pub struct FileData {
    /// The item tree: for each item slot, the slot of its node in `ast_id_map`.
    pub item_tree: Vec<u32>,
    /// The node index of the parsed or expanded file.
    pub ast_id_map: Vec<SyntaxNode>,
}

/// The source of one field: a tuple field's node on the left, a record
/// field's node on the right.
pub type FieldSource = Either<AstPtr, AstPtr>;

/// A lowered body: the block expressions in it that declare items.
#[derive(Clone, PartialEq, Eq, Debug)]
pub struct Body {
    pub blocks: Vec<BlockId>,
}

/// A function, constant or static: where it is written, and its body.
#[derive(Clone, PartialEq, Eq, Debug)]
pub struct BodyOwnerData {
    pub loc: ItemLoc,
    pub body: Body,
}

/// A trait: where it is written, and what is declared inside it.
#[derive(Clone, PartialEq, Eq, Debug)]
pub struct TraitData {
    pub loc: ItemLoc,
    /// Attribute macros on the trait's items, by the item they sit on.
    pub attribute_calls: Vec<(AstId, MacroCallId)>,
    pub items: Vec<AssocItemId>,
}

/// An impl block: where it is written, and what is declared inside it.
#[derive(Clone, PartialEq, Eq, Debug)]
pub struct ImplData {
    pub loc: ItemLoc,
    /// Attribute macros on the impl's items, by the item they sit on.
    pub attribute_calls: Vec<(AstId, MacroCallId)>,
    pub items: Vec<AssocItemId>,
}

/// A struct or a union: where it is written, and its field arena.
#[derive(Clone, PartialEq, Eq, Debug)]
pub struct StructData {
    pub loc: ItemLoc,
    pub fields: Vec<FieldSource>,
}

/// An enum: where it is written, and its variants in declaration order.
#[derive(Clone, PartialEq, Eq, Debug)]
pub struct EnumData {
    pub loc: ItemLoc,
    pub variants: Vec<EnumVariantId>,
}

/// A variant of an enum: where it is written, its field arena and its body.
#[derive(Clone, PartialEq, Eq, Debug)]
pub struct EnumVariantData {
    pub parent: EnumId,
    /// The variant's slot in the item tree of the enum's file.
    pub value: u32,
    pub fields: Vec<FieldSource>,
    /// The body of the variant's discriminant expression.
    pub body: Body,
}

/// A module tree. Slot 0 is its root.
#[derive(Clone, PartialEq, Eq, Debug)]
pub struct DefMap {
    pub modules: Vec<ItemScope>,
}

/// One revision of everything known about the definitions of a workspace.
#[derive(Clone, PartialEq, Eq, Debug)]
pub struct DefDatabase {
    /// Indexed by the number in `HirFileId::FileId`.
    pub source_files: Vec<FileData>,
    /// Indexed by the number in `HirFileId::MacroFile`.
    pub macro_files: Vec<FileData>,
    pub functions: Vec<BodyOwnerData>,
    pub consts: Vec<BodyOwnerData>,
    pub statics: Vec<BodyOwnerData>,
    pub in_type_consts: Vec<Body>,
    pub type_aliases: Vec<ItemLoc>,
    pub impls: Vec<ImplData>,
    pub traits: Vec<TraitData>,
    pub trait_aliases: Vec<ItemLoc>,
    pub structs: Vec<StructData>,
    pub unions: Vec<StructData>,
    pub enums: Vec<EnumData>,
    pub enum_variants: Vec<EnumVariantData>,
    pub extern_crates: Vec<ItemLoc>,
    pub uses: Vec<ItemLoc>,
    pub macro_rules: Vec<ItemLoc>,
    pub macro2s: Vec<ItemLoc>,
    pub proc_macros: Vec<ItemLoc>,
    /// Indexed by crate.
    pub crate_def_maps: Vec<DefMap>,
    /// Indexed by block.
    pub block_def_maps: Vec<DefMap>,
}

impl DefMap {
    /// Whether the tree has its root module.
    pub open spec fn spec_has_root(&self) -> bool {
        self.modules@.len() > 0
    }

    /// Whether the tree has its root module.
    #[verifier::when_used_as_spec(spec_has_root)]
    pub fn has_root(&self) -> (ok: bool)
        ensures
            ok == self.spec_has_root(),
    {
        self.modules.len() > 0
    }

    /// The scope of the root module.
    pub open spec fn spec_root(&self) -> &ItemScope {
        &self.modules@[0]
    }

    /// The scope of the root module.
    #[verifier::when_used_as_spec(spec_root)]
    pub fn root(&self) -> (scope: &ItemScope)
        requires
            self.has_root(),
        ensures
            scope == self.spec_root(),
    {
        &self.modules[0]
    }
}

impl DefDatabase {
    /// Whether the snapshot has data for `file_id`.
    pub open spec fn spec_has_file(&self, file_id: HirFileId) -> bool {
        match file_id {
            HirFileId::FileId(n) => n < self.source_files@.len(),
            HirFileId::MacroFile(n) => n < self.macro_files@.len(),
        }
    }

    /// Whether the snapshot has data for `file_id`.
    #[verifier::when_used_as_spec(spec_has_file)]
    pub fn has_file(&self, file_id: HirFileId) -> (ok: bool)
        ensures
            ok == self.spec_has_file(file_id),
    {
        match file_id {
            HirFileId::FileId(n) => (n as usize) < self.source_files.len(),
            HirFileId::MacroFile(n) => (n as usize) < self.macro_files.len(),
        }
    }

    /// The data of `file_id`.
    pub open spec fn spec_file(&self, file_id: HirFileId) -> &FileData {
        match file_id {
            HirFileId::FileId(n) => &self.source_files@[n as int],
            HirFileId::MacroFile(n) => &self.macro_files@[n as int],
        }
    }

    /// The data of `file_id`.
    #[verifier::when_used_as_spec(spec_file)]
    pub fn file(&self, file_id: HirFileId) -> (data: &FileData)
        requires
            self.has_file(file_id),
        ensures
            data == self.spec_file(file_id),
    {
        match file_id {
            HirFileId::FileId(n) => &self.source_files[n as usize],
            HirFileId::MacroFile(n) => &self.macro_files[n as usize],
        }
    }

    /// Whether slot `value` of the item tree of `file_id` leads to a node.
    pub open spec fn spec_resolves_slot(&self, file_id: HirFileId, value: u32) -> bool {
        &&& self.has_file(file_id)
        &&& value < self.file(file_id).item_tree@.len()
        &&& self.file(file_id).item_tree@[value as int] < self.file(file_id).ast_id_map@.len()
    }

    /// Whether slot `value` of the item tree of `file_id` leads to a node.
    #[verifier::when_used_as_spec(spec_resolves_slot)]
    pub fn resolves_slot(&self, file_id: HirFileId, value: u32) -> (ok: bool)
        ensures
            ok == self.spec_resolves_slot(file_id, value),
    {
        if !self.has_file(file_id) {
            return false;
        }
        let file = self.file(file_id);
        (value as usize) < file.item_tree.len() && (file.item_tree[value as usize] as usize)
            < file.ast_id_map.len()
    }

    /// The node behind slot `value` of the item tree of `file_id`.
    pub open spec fn spec_slot_node(&self, file_id: HirFileId, value: u32) -> &SyntaxNode {
        let file = self.file(file_id);
        &file.ast_id_map@[file.item_tree@[value as int] as int]
    }

    /// Finds the node of an item: the item tree gives the slot of the node
    /// index, the node index gives the node.
    #[verifier::when_used_as_spec(spec_slot_node)]
    pub fn slot_node(&self, file_id: HirFileId, value: u32) -> (node: &SyntaxNode)
        requires
            self.resolves_slot(file_id, value),
        ensures
            node == self.spec_slot_node(file_id, value),
    {
        let file = self.file(file_id);
        &file.ast_id_map[file.item_tree[value as usize] as usize]
    }

    /// Whether `loc` leads to a node.
    pub open spec fn spec_resolves(&self, loc: ItemLoc) -> bool {
        self.resolves_slot(loc.file_id, loc.value)
    }

    /// Whether `loc` leads to a node.
    #[verifier::when_used_as_spec(spec_resolves)]
    pub fn resolves(&self, loc: ItemLoc) -> (ok: bool)
        ensures
            ok == self.spec_resolves(loc),
    {
        self.resolves_slot(loc.file_id, loc.value)
    }

    /// The node that `loc` was lowered from.
    pub open spec fn spec_source(&self, loc: ItemLoc) -> &SyntaxNode {
        self.slot_node(loc.file_id, loc.value)
    }

    /// The node that `loc` was lowered from.
    #[verifier::when_used_as_spec(spec_source)]
    pub fn source(&self, loc: ItemLoc) -> (node: &SyntaxNode)
        requires
            self.resolves(loc),
        ensures
            node == self.spec_source(loc),
    {
        self.slot_node(loc.file_id, loc.value)
    }

    /// Whether `ast_id` leads to a node.
    pub open spec fn spec_resolves_ast_id(&self, ast_id: AstId) -> bool {
        &&& self.has_file(ast_id.file_id)
        &&& ast_id.value < self.file(ast_id.file_id).ast_id_map@.len()
    }

    /// Whether `ast_id` leads to a node.
    #[verifier::when_used_as_spec(spec_resolves_ast_id)]
    pub fn resolves_ast_id(&self, ast_id: AstId) -> (ok: bool)
        ensures
            ok == self.spec_resolves_ast_id(ast_id),
    {
        self.has_file(ast_id.file_id) && (ast_id.value as usize) < self.file(
            ast_id.file_id,
        ).ast_id_map.len()
    }

    /// The node that `ast_id` refers to.
    pub open spec fn spec_to_node(&self, ast_id: AstId) -> &SyntaxNode {
        &self.file(ast_id.file_id).ast_id_map@[ast_id.value as int]
    }

    /// The node that `ast_id` refers to.
    #[verifier::when_used_as_spec(spec_to_node)]
    pub fn to_node(&self, ast_id: AstId) -> (node: &SyntaxNode)
        requires
            self.resolves_ast_id(ast_id),
        ensures
            node == self.spec_to_node(ast_id),
    {
        &self.file(ast_id.file_id).ast_id_map[ast_id.value as usize]
    }

    /// Whether `item` is a slot of the table of its kind.
    pub open spec fn spec_has_item(&self, item: ItemId) -> bool {
        match item {
            ItemId::FunctionId(id) => id.0 < self.functions@.len(),
            ItemId::ConstId(id) => id.0 < self.consts@.len(),
            ItemId::StaticId(id) => id.0 < self.statics@.len(),
            ItemId::TypeAliasId(id) => id.0 < self.type_aliases@.len(),
            ItemId::ImplId(id) => id.0 < self.impls@.len(),
            ItemId::TraitId(id) => id.0 < self.traits@.len(),
            ItemId::TraitAliasId(id) => id.0 < self.trait_aliases@.len(),
            ItemId::StructId(id) => id.0 < self.structs@.len(),
            ItemId::UnionId(id) => id.0 < self.unions@.len(),
            ItemId::EnumId(id) => id.0 < self.enums@.len(),
            ItemId::ExternCrateId(id) => id.0 < self.extern_crates@.len(),
            ItemId::UseId(id) => id.0 < self.uses@.len(),
            ItemId::MacroRulesId(id) => id.0 < self.macro_rules@.len(),
            ItemId::Macro2Id(id) => id.0 < self.macro2s@.len(),
            ItemId::ProcMacroId(id) => id.0 < self.proc_macros@.len(),
        }
    }

    /// Whether `item` is a slot of the table of its kind.
    #[verifier::when_used_as_spec(spec_has_item)]
    pub fn has_item(&self, item: ItemId) -> (ok: bool)
        ensures
            ok == self.spec_has_item(item),
    {
        match item {
            ItemId::FunctionId(id) => (id.0 as usize) < self.functions.len(),
            ItemId::ConstId(id) => (id.0 as usize) < self.consts.len(),
            ItemId::StaticId(id) => (id.0 as usize) < self.statics.len(),
            ItemId::TypeAliasId(id) => (id.0 as usize) < self.type_aliases.len(),
            ItemId::ImplId(id) => (id.0 as usize) < self.impls.len(),
            ItemId::TraitId(id) => (id.0 as usize) < self.traits.len(),
            ItemId::TraitAliasId(id) => (id.0 as usize) < self.trait_aliases.len(),
            ItemId::StructId(id) => (id.0 as usize) < self.structs.len(),
            ItemId::UnionId(id) => (id.0 as usize) < self.unions.len(),
            ItemId::EnumId(id) => (id.0 as usize) < self.enums.len(),
            ItemId::ExternCrateId(id) => (id.0 as usize) < self.extern_crates.len(),
            ItemId::UseId(id) => (id.0 as usize) < self.uses.len(),
            ItemId::MacroRulesId(id) => (id.0 as usize) < self.macro_rules.len(),
            ItemId::Macro2Id(id) => (id.0 as usize) < self.macro2s.len(),
            ItemId::ProcMacroId(id) => (id.0 as usize) < self.proc_macros.len(),
        }
    }

    /// Where `item` was lowered from.
    pub open spec fn spec_lookup(&self, item: ItemId) -> ItemLoc {
        match item {
            ItemId::FunctionId(id) => self.functions@[id.0 as int].loc,
            ItemId::ConstId(id) => self.consts@[id.0 as int].loc,
            ItemId::StaticId(id) => self.statics@[id.0 as int].loc,
            ItemId::TypeAliasId(id) => self.type_aliases@[id.0 as int],
            ItemId::ImplId(id) => self.impls@[id.0 as int].loc,
            ItemId::TraitId(id) => self.traits@[id.0 as int].loc,
            ItemId::TraitAliasId(id) => self.trait_aliases@[id.0 as int],
            ItemId::StructId(id) => self.structs@[id.0 as int].loc,
            ItemId::UnionId(id) => self.unions@[id.0 as int].loc,
            ItemId::EnumId(id) => self.enums@[id.0 as int].loc,
            ItemId::ExternCrateId(id) => self.extern_crates@[id.0 as int],
            ItemId::UseId(id) => self.uses@[id.0 as int],
            ItemId::MacroRulesId(id) => self.macro_rules@[id.0 as int],
            ItemId::Macro2Id(id) => self.macro2s@[id.0 as int],
            ItemId::ProcMacroId(id) => self.proc_macros@[id.0 as int],
        }
    }

    /// Where `item` was lowered from.
    #[verifier::when_used_as_spec(spec_lookup)]
    pub fn lookup(&self, item: ItemId) -> (loc: ItemLoc)
        requires
            self.has_item(item),
        ensures
            loc == self.spec_lookup(item),
    {
        match item {
            ItemId::FunctionId(id) => self.functions[id.0 as usize].loc,
            ItemId::ConstId(id) => self.consts[id.0 as usize].loc,
            ItemId::StaticId(id) => self.statics[id.0 as usize].loc,
            ItemId::TypeAliasId(id) => self.type_aliases[id.0 as usize],
            ItemId::ImplId(id) => self.impls[id.0 as usize].loc,
            ItemId::TraitId(id) => self.traits[id.0 as usize].loc,
            ItemId::TraitAliasId(id) => self.trait_aliases[id.0 as usize],
            ItemId::StructId(id) => self.structs[id.0 as usize].loc,
            ItemId::UnionId(id) => self.unions[id.0 as usize].loc,
            ItemId::EnumId(id) => self.enums[id.0 as usize].loc,
            ItemId::ExternCrateId(id) => self.extern_crates[id.0 as usize],
            ItemId::UseId(id) => self.uses[id.0 as usize],
            ItemId::MacroRulesId(id) => self.macro_rules[id.0 as usize],
            ItemId::Macro2Id(id) => self.macro2s[id.0 as usize],
            ItemId::ProcMacroId(id) => self.proc_macros[id.0 as usize],
        }
    }

    /// Whether `variant` has a field arena in the snapshot.
    pub open spec fn spec_has_variant(&self, variant: VariantId) -> bool {
        match variant {
            VariantId::EnumVariantId(id) => id.0 < self.enum_variants@.len(),
            VariantId::StructId(id) => id.0 < self.structs@.len(),
            VariantId::UnionId(id) => id.0 < self.unions@.len(),
        }
    }

    /// Whether `variant` has a field arena in the snapshot.
    #[verifier::when_used_as_spec(spec_has_variant)]
    pub fn has_variant(&self, variant: VariantId) -> (ok: bool)
        ensures
            ok == self.spec_has_variant(variant),
    {
        match variant {
            VariantId::EnumVariantId(id) => (id.0 as usize) < self.enum_variants.len(),
            VariantId::StructId(id) => (id.0 as usize) < self.structs.len(),
            VariantId::UnionId(id) => (id.0 as usize) < self.unions.len(),
        }
    }

    /// The field arena of `variant`, one entry per field in declaration order.
    pub open spec fn spec_child_source(&self, variant: VariantId) -> &Vec<FieldSource> {
        match variant {
            VariantId::EnumVariantId(id) => &self.enum_variants@[id.0 as int].fields,
            VariantId::StructId(id) => &self.structs@[id.0 as int].fields,
            VariantId::UnionId(id) => &self.unions@[id.0 as int].fields,
        }
    }

    /// The field arena of `variant`, one entry per field in declaration order.
    #[verifier::when_used_as_spec(spec_child_source)]
    pub fn child_source(&self, variant: VariantId) -> (fields: &Vec<FieldSource>)
        requires
            self.has_variant(variant),
        ensures
            fields == self.spec_child_source(variant),
    {
        match variant {
            VariantId::EnumVariantId(id) => &self.enum_variants[id.0 as usize].fields,
            VariantId::StructId(id) => &self.structs[id.0 as usize].fields,
            VariantId::UnionId(id) => &self.unions[id.0 as usize].fields,
        }
    }

    /// Whether `def` has a body in the snapshot.
    pub open spec fn spec_has_body(&self, def: DefWithBodyId) -> bool {
        match def {
            DefWithBodyId::FunctionId(id) => id.0 < self.functions@.len(),
            DefWithBodyId::StaticId(id) => id.0 < self.statics@.len(),
            DefWithBodyId::ConstId(id) => id.0 < self.consts@.len(),
            DefWithBodyId::InTypeConstId(id) => id.0 < self.in_type_consts@.len(),
            DefWithBodyId::VariantId(id) => id.0 < self.enum_variants@.len(),
        }
    }

    /// Whether `def` has a body in the snapshot.
    #[verifier::when_used_as_spec(spec_has_body)]
    pub fn has_body(&self, def: DefWithBodyId) -> (ok: bool)
        ensures
            ok == self.spec_has_body(def),
    {
        match def {
            DefWithBodyId::FunctionId(id) => (id.0 as usize) < self.functions.len(),
            DefWithBodyId::StaticId(id) => (id.0 as usize) < self.statics.len(),
            DefWithBodyId::ConstId(id) => (id.0 as usize) < self.consts.len(),
            DefWithBodyId::InTypeConstId(id) => (id.0 as usize) < self.in_type_consts.len(),
            DefWithBodyId::VariantId(id) => (id.0 as usize) < self.enum_variants.len(),
        }
    }

    /// The lowered body of `def`.
    pub open spec fn spec_body(&self, def: DefWithBodyId) -> &Body {
        match def {
            DefWithBodyId::FunctionId(id) => &self.functions@[id.0 as int].body,
            DefWithBodyId::StaticId(id) => &self.statics@[id.0 as int].body,
            DefWithBodyId::ConstId(id) => &self.consts@[id.0 as int].body,
            DefWithBodyId::InTypeConstId(id) => &self.in_type_consts@[id.0 as int],
            DefWithBodyId::VariantId(id) => &self.enum_variants@[id.0 as int].body,
        }
    }

    /// The lowered body of `def`.
    #[verifier::when_used_as_spec(spec_body)]
    pub fn body(&self, def: DefWithBodyId) -> (body: &Body)
        requires
            self.has_body(def),
        ensures
            body == self.spec_body(def),
    {
        match def {
            DefWithBodyId::FunctionId(id) => &self.functions[id.0 as usize].body,
            DefWithBodyId::StaticId(id) => &self.statics[id.0 as usize].body,
            DefWithBodyId::ConstId(id) => &self.consts[id.0 as usize].body,
            DefWithBodyId::InTypeConstId(id) => &self.in_type_consts[id.0 as usize],
            DefWithBodyId::VariantId(id) => &self.enum_variants[id.0 as usize].body,
        }
    }

    /// Whether the snapshot has the module tree that `module` belongs to.
    pub open spec fn spec_has_def_map(&self, module: ModuleId) -> bool {
        match module.block {
            Some(block) => block.0 < self.block_def_maps@.len(),
            None => module.krate.0 < self.crate_def_maps@.len(),
        }
    }

    /// Whether the snapshot has the module tree that `module` belongs to.
    #[verifier::when_used_as_spec(spec_has_def_map)]
    pub fn has_def_map(&self, module: ModuleId) -> (ok: bool)
        ensures
            ok == self.spec_has_def_map(module),
    {
        match module.block {
            Some(block) => (block.0 as usize) < self.block_def_maps.len(),
            None => (module.krate.0 as usize) < self.crate_def_maps.len(),
        }
    }

    /// The module tree that `module` belongs to: the tree of its block if it
    /// has one, of its crate if not.
    pub open spec fn spec_def_map(&self, module: ModuleId) -> &DefMap {
        match module.block {
            Some(block) => &self.block_def_maps@[block.0 as int],
            None => &self.crate_def_maps@[module.krate.0 as int],
        }
    }

    /// The module tree that `module` belongs to: the tree of its block if it
    /// has one, of its crate if not.
    #[verifier::when_used_as_spec(spec_def_map)]
    pub fn def_map(&self, module: ModuleId) -> (map: &DefMap)
        requires
            self.has_def_map(module),
        ensures
            map == self.spec_def_map(module),
    {
        match module.block {
            Some(block) => &self.block_def_maps[block.0 as usize],
            None => &self.crate_def_maps[module.krate.0 as usize],
        }
    }
}

/// What a traversal for one file needs of the snapshot.
impl DefDatabase {
    /// Whether a traversal for `file_id` can handle `item`: it has a location,
    /// and if that lies in `file_id`, a node.
    pub open spec fn spec_knows(&self, item: ItemId, file_id: HirFileId) -> bool {
        &&& self.has_item(item)
        &&& self.lookup(item).file_id == file_id ==> self.resolves(self.lookup(item))
    }

    /// Whether a traversal for `file_id` can handle `item`: it has a location,
    /// and if that lies in `file_id`, a node.
    #[verifier::when_used_as_spec(spec_knows)]
    pub fn knows(&self, item: ItemId, file_id: HirFileId) -> (ok: bool)
        ensures
            ok == self.spec_knows(item, file_id),
    {
        if !self.has_item(item) {
            return false;
        }
        let loc = self.lookup(item);
        loc.file_id != file_id || self.resolves(loc)
    }

    /// Whether a traversal for `file_id` can handle the macro call site
    /// `ast_id`: if it lies in `file_id`, it leads to a node.
    pub open spec fn spec_knows_site(&self, ast_id: AstId, file_id: HirFileId) -> bool {
        ast_id.file_id == file_id ==> self.resolves_ast_id(ast_id)
    }

    /// Whether a traversal for `file_id` can handle the macro call site
    /// `ast_id`: if it lies in `file_id`, it leads to a node.
    #[verifier::when_used_as_spec(spec_knows_site)]
    pub fn knows_site(&self, ast_id: AstId, file_id: HirFileId) -> (ok: bool)
        ensures
            ok == self.spec_knows_site(ast_id, file_id),
    {
        ast_id.file_id != file_id || self.resolves_ast_id(ast_id)
    }

    /// Whether a traversal for `file_id` can handle the item with derives at
    /// `ast_id`: if it lies in `file_id`, it leads to a node whose attributes
    /// can be collected.
    pub open spec fn spec_knows_derive_site(&self, ast_id: AstId, file_id: HirFileId) -> bool {
        ast_id.file_id == file_id ==> self.resolves_ast_id(ast_id) && self.to_node(ast_id).wf()
    }

    /// Whether a traversal for `file_id` can handle the item with derives at
    /// `ast_id`: if it lies in `file_id`, it leads to a node whose attributes
    /// can be collected.
    #[verifier::when_used_as_spec(spec_knows_derive_site)]
    pub fn knows_derive_site(&self, ast_id: AstId, file_id: HirFileId) -> (ok: bool)
        ensures
            ok == self.spec_knows_derive_site(ast_id, file_id),
    {
        ast_id.file_id != file_id || (self.resolves_ast_id(ast_id) && self.to_node(ast_id).wf())
    }

    /// Whether a traversal for `file_id` can handle a module-level definition.
    pub open spec fn spec_knows_module_def(&self, def: ModuleDefId, file_id: HirFileId) -> bool {
        match def.item() {
            Some(item) => self.knows(item, file_id),
            None => true,
        }
    }

    /// Whether a traversal for `file_id` can handle a module-level definition.
    #[verifier::when_used_as_spec(spec_knows_module_def)]
    pub fn knows_module_def(&self, def: ModuleDefId, file_id: HirFileId) -> (ok: bool)
        ensures
            ok == self.spec_knows_module_def(def, file_id),
    {
        match def.item() {
            Some(item) => self.knows(item, file_id),
            None => true,
        }
    }

    /// Whether a traversal for `file_id` can handle a macro behind a textually
    /// scoped name.
    pub open spec fn spec_knows_legacy_macro(&self, id: MacroId, file_id: HirFileId) -> bool {
        match id.textual_item() {
            Some(item) => self.knows(item, file_id),
            None => true,
        }
    }

    /// Whether a traversal for `file_id` can handle a macro behind a textually
    /// scoped name.
    #[verifier::when_used_as_spec(spec_knows_legacy_macro)]
    pub fn knows_legacy_macro(&self, id: MacroId, file_id: HirFileId) -> (ok: bool)
        ensures
            ok == self.spec_knows_legacy_macro(id, file_id),
    {
        match id.textual_item() {
            Some(item) => self.knows(item, file_id),
            None => true,
        }
    }

    /// Whether a traversal for `file_id` can handle every macro that one
    /// textually scoped name was bound to.
    pub open spec fn knows_legacy_macros(&self, ids: Seq<MacroId>, file_id: HirFileId) -> bool {
        forall|i: int| 0 <= i < ids.len() ==> self.knows_legacy_macro(#[trigger] ids[i], file_id)
    }

    /// Tests [`knows_legacy_macros`](Self::knows_legacy_macros).
    pub fn knows_all_legacy_macros(&self, ids: &Vec<MacroId>, file_id: HirFileId) -> (ok: bool)
        ensures
            ok == self.knows_legacy_macros(ids@, file_id),
    {
        let mut i: usize = 0;
        while i < ids.len()
            invariant
                i <= ids@.len(),
                forall|j: int| 0 <= j < i ==> self.knows_legacy_macro(#[trigger] ids@[j], file_id),
            decreases ids@.len() - i,
        {
            if !self.knows_legacy_macro(ids[i], file_id) {
                return false;
            }
            i += 1;
        }
        true
    }
}

} // verus!
