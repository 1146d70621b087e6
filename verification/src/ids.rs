//! Semantic identifiers: small handles into the arenas of a snapshot.
//!
//! An identifier says nothing about where its definition is written; the
//! snapshot's tables do. Each kind of definition has a handle type of its own,
//! so a function can never be looked up as a constant.

use vstd::prelude::*;

verus! {

/// A function.
#[derive(Clone, Copy, PartialEq, Eq, Structural, Debug, Hash)]
pub struct FunctionId(pub u32);

/// A constant, named or anonymous.
#[derive(Clone, Copy, PartialEq, Eq, Structural, Debug, Hash)]
pub struct ConstId(pub u32);

/// A static.
#[derive(Clone, Copy, PartialEq, Eq, Structural, Debug, Hash)]
pub struct StaticId(pub u32);

/// A type alias.
#[derive(Clone, Copy, PartialEq, Eq, Structural, Debug, Hash)]
pub struct TypeAliasId(pub u32);

/// An impl block.
#[derive(Clone, Copy, PartialEq, Eq, Structural, Debug, Hash)]
pub struct ImplId(pub u32);

/// A trait.
#[derive(Clone, Copy, PartialEq, Eq, Structural, Debug, Hash)]
pub struct TraitId(pub u32);

/// A trait alias.
#[derive(Clone, Copy, PartialEq, Eq, Structural, Debug, Hash)]
pub struct TraitAliasId(pub u32);

/// A struct.
#[derive(Clone, Copy, PartialEq, Eq, Structural, Debug, Hash)]
pub struct StructId(pub u32);

/// A union.
#[derive(Clone, Copy, PartialEq, Eq, Structural, Debug, Hash)]
pub struct UnionId(pub u32);

/// An enum.
#[derive(Clone, Copy, PartialEq, Eq, Structural, Debug, Hash)]
pub struct EnumId(pub u32);

/// A variant of an enum.
#[derive(Clone, Copy, PartialEq, Eq, Structural, Debug, Hash)]
pub struct EnumVariantId(pub u32);

/// An `extern crate` declaration.
#[derive(Clone, Copy, PartialEq, Eq, Structural, Debug, Hash)]
pub struct ExternCrateId(pub u32);

/// A `use` declaration.
#[derive(Clone, Copy, PartialEq, Eq, Structural, Debug, Hash)]
pub struct UseId(pub u32);

/// A `macro_rules!` macro.
#[derive(Clone, Copy, PartialEq, Eq, Structural, Debug, Hash)]
pub struct MacroRulesId(pub u32);

/// A `macro` (declarative macros 2.0) item.
#[derive(Clone, Copy, PartialEq, Eq, Structural, Debug, Hash)]
pub struct Macro2Id(pub u32);

/// A procedural macro.
#[derive(Clone, Copy, PartialEq, Eq, Structural, Debug, Hash)]
pub struct ProcMacroId(pub u32);

/// One invocation of a macro.
#[derive(Clone, Copy, PartialEq, Eq, Structural, Debug, Hash)]
pub struct MacroCallId(pub u32);

/// A block expression that declares items of its own.
#[derive(Clone, Copy, PartialEq, Eq, Structural, Debug, Hash)]
pub struct BlockId(pub u32);

/// An anonymous constant inside a type.
#[derive(Clone, Copy, PartialEq, Eq, Structural, Debug, Hash)]
pub struct InTypeConstId(pub u32);

/// A crate of the snapshot.
#[derive(Clone, Copy, PartialEq, Eq, Structural, Debug, Hash)]
pub struct CrateId(pub u32);

/// A primitive type; it has no definition in any file.
#[derive(Clone, Copy, PartialEq, Eq, Structural, Debug, Hash)]
pub struct BuiltinType(pub u8);

/// A module: the crate-level or block-level module tree it lives in, and its
/// slot there.
#[derive(Clone, Copy, PartialEq, Eq, Debug, Hash)]
pub struct ModuleId {
    pub krate: CrateId,
    /// `Some` when the module belongs to the module tree of a block expression.
    pub block: Option<BlockId>,
    pub local_id: u32,
}

/// A struct, union or enum.
#[derive(Clone, Copy, PartialEq, Eq, Structural, Debug, Hash)]
pub enum AdtId {
    StructId(StructId),
    UnionId(UnionId),
    EnumId(EnumId),
}

/// A macro of any of the three flavours.
#[derive(Clone, Copy, PartialEq, Eq, Structural, Debug, Hash)]
pub enum MacroId {
    Macro2Id(Macro2Id),
    MacroRulesId(MacroRulesId),
    ProcMacroId(ProcMacroId),
}

/// Anything a name in a module can resolve to.
#[derive(Clone, Copy, PartialEq, Eq, Debug, Hash)]
pub enum ModuleDefId {
    ModuleId(ModuleId),
    FunctionId(FunctionId),
    AdtId(AdtId),
    EnumVariantId(EnumVariantId),
    ConstId(ConstId),
    StaticId(StaticId),
    TraitId(TraitId),
    TraitAliasId(TraitAliasId),
    TypeAliasId(TypeAliasId),
    BuiltinType(BuiltinType),
    MacroId(MacroId),
}

/// An item declared directly inside a trait or an impl.
#[derive(Clone, Copy, PartialEq, Eq, Structural, Debug, Hash)]
pub enum AssocItemId {
    FunctionId(FunctionId),
    ConstId(ConstId),
    TypeAliasId(TypeAliasId),
}

/// A container of fields.
#[derive(Clone, Copy, PartialEq, Eq, Structural, Debug, Hash)]
pub enum VariantId {
    EnumVariantId(EnumVariantId),
    StructId(StructId),
    UnionId(UnionId),
}

/// A field: its container and its slot in the container's field arena.
#[derive(Clone, Copy, PartialEq, Eq, Structural, Debug, Hash)]
pub struct FieldId {
    pub parent: VariantId,
    pub local_id: u32,
}

/// A definition that has an executable body.
#[derive(Clone, Copy, PartialEq, Eq, Structural, Debug, Hash)]
pub enum DefWithBodyId {
    FunctionId(FunctionId),
    StaticId(StaticId),
    ConstId(ConstId),
    InTypeConstId(InTypeConstId),
    VariantId(EnumVariantId),
}

/// A definition that was lowered from an item of some file, and so has a
/// location of its own.
#[derive(Clone, Copy, PartialEq, Eq, Structural, Debug, Hash)]
pub enum ItemId {
    FunctionId(FunctionId),
    ConstId(ConstId),
    StaticId(StaticId),
    TypeAliasId(TypeAliasId),
    ImplId(ImplId),
    TraitId(TraitId),
    TraitAliasId(TraitAliasId),
    StructId(StructId),
    UnionId(UnionId),
    EnumId(EnumId),
    ExternCrateId(ExternCrateId),
    UseId(UseId),
    MacroRulesId(MacroRulesId),
    Macro2Id(Macro2Id),
    ProcMacroId(ProcMacroId),
}

impl AssocItemId {
    /// The same definition, as a located item.
    pub open spec fn spec_item(self) -> ItemId {
        match self {
            AssocItemId::FunctionId(id) => ItemId::FunctionId(id),
            AssocItemId::ConstId(id) => ItemId::ConstId(id),
            AssocItemId::TypeAliasId(id) => ItemId::TypeAliasId(id),
        }
    }

    /// The located item behind a module-level definition. Modules, enum
    /// variants and builtin types have no entry of their own in a module's
    /// index and give `None`.
    #[verifier::when_used_as_spec(spec_item)]
    pub fn item(self) -> (item: ItemId)
        ensures
            item == self.spec_item(),
    {
        match self {
            AssocItemId::FunctionId(id) => ItemId::FunctionId(id),
            AssocItemId::ConstId(id) => ItemId::ConstId(id),
            AssocItemId::TypeAliasId(id) => ItemId::TypeAliasId(id),
        }
    }
}

impl MacroId {
    /// The located item behind a textually scoped macro: only `macro_rules!`
    /// macros are found through textual scope.
    pub open spec fn spec_textual_item(self) -> Option<ItemId> {
        match self {
            MacroId::MacroRulesId(id) => Some(ItemId::MacroRulesId(id)),
            _ => None,
        }
    }

    /// The located item behind a textually scoped macro: only `macro_rules!`
    /// macros are found through textual scope.
    #[verifier::when_used_as_spec(spec_textual_item)]
    pub fn textual_item(self) -> (item: Option<ItemId>)
        ensures
            item == self.spec_textual_item(),
    {
        match self {
            MacroId::MacroRulesId(id) => Some(ItemId::MacroRulesId(id)),
            _ => None,
        }
    }
}

impl ModuleDefId {
    /// The located item behind a module-level definition. Modules, enum
    /// variants and builtin types have no entry of their own in a module's
    /// index and give `None`.
    pub open spec fn spec_item(self) -> Option<ItemId> {
        match self {
            ModuleDefId::FunctionId(id) => Some(ItemId::FunctionId(id)),
            ModuleDefId::ConstId(id) => Some(ItemId::ConstId(id)),
            ModuleDefId::StaticId(id) => Some(ItemId::StaticId(id)),
            ModuleDefId::TypeAliasId(id) => Some(ItemId::TypeAliasId(id)),
            ModuleDefId::TraitId(id) => Some(ItemId::TraitId(id)),
            ModuleDefId::TraitAliasId(id) => Some(ItemId::TraitAliasId(id)),
            ModuleDefId::AdtId(AdtId::StructId(id)) => Some(ItemId::StructId(id)),
            ModuleDefId::AdtId(AdtId::UnionId(id)) => Some(ItemId::UnionId(id)),
            ModuleDefId::AdtId(AdtId::EnumId(id)) => Some(ItemId::EnumId(id)),
            ModuleDefId::MacroId(MacroId::Macro2Id(id)) => Some(ItemId::Macro2Id(id)),
            ModuleDefId::MacroId(MacroId::MacroRulesId(id)) => Some(ItemId::MacroRulesId(id)),
            ModuleDefId::MacroId(MacroId::ProcMacroId(id)) => Some(ItemId::ProcMacroId(id)),
            ModuleDefId::ModuleId(_)
            | ModuleDefId::EnumVariantId(_)
            | ModuleDefId::BuiltinType(_) => None,
        }
    }

    /// The located item behind a module-level definition. Modules, enum
    /// variants and builtin types have no entry of their own in a module's
    /// index and give `None`.
    #[verifier::when_used_as_spec(spec_item)]
    pub fn item(self) -> (item: Option<ItemId>)
        ensures
            item == self.spec_item(),
    {
        match self {
            ModuleDefId::FunctionId(id) => Some(ItemId::FunctionId(id)),
            ModuleDefId::ConstId(id) => Some(ItemId::ConstId(id)),
            ModuleDefId::StaticId(id) => Some(ItemId::StaticId(id)),
            ModuleDefId::TypeAliasId(id) => Some(ItemId::TypeAliasId(id)),
            ModuleDefId::TraitId(id) => Some(ItemId::TraitId(id)),
            ModuleDefId::TraitAliasId(id) => Some(ItemId::TraitAliasId(id)),
            ModuleDefId::AdtId(adt) => match adt {
                AdtId::StructId(id) => Some(ItemId::StructId(id)),
                AdtId::UnionId(id) => Some(ItemId::UnionId(id)),
                AdtId::EnumId(id) => Some(ItemId::EnumId(id)),
            },
            ModuleDefId::MacroId(id) => match id {
                MacroId::Macro2Id(id) => Some(ItemId::Macro2Id(id)),
                MacroId::MacroRulesId(id) => Some(ItemId::MacroRulesId(id)),
                MacroId::ProcMacroId(id) => Some(ItemId::ProcMacroId(id)),
            },
            ModuleDefId::ModuleId(_)
            | ModuleDefId::EnumVariantId(_)
            | ModuleDefId::BuiltinType(_) => None,
        }
    }
}

} // verus!
