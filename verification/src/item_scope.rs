//! What a module declares, as name resolution left it.

use crate::attrs::AttrId;
use crate::ids::{ConstId, ExternCrateId, ImplId, MacroCallId, MacroId, ModuleDefId, UseId};
use crate::syntax::AstId;
use vstd::prelude::*;

verus! {

/// One `#[derive(..)]` attribute that was expanded: where the attribute sits
/// among the attributes of its item, the call that stands for the attribute
/// itself, and one call per derive it names (`None` where a name did not
/// resolve).
#[derive(Clone, PartialEq, Eq, Debug)]
pub struct DeriveMacroInvocation {
    pub attr_id: AttrId,
    pub attr_call_id: MacroCallId,
    pub derive_call_ids: Vec<Option<MacroCallId>>,
}

/// A [`DeriveMacroInvocation`] as a mathematical value.
pub struct DeriveCall {
    pub attr_id: AttrId,
    pub attr_call_id: MacroCallId,
    pub derive_call_ids: Seq<Option<MacroCallId>>,
}

impl View for DeriveMacroInvocation {
    type V = DeriveCall;

    open spec fn view(&self) -> DeriveCall {
        DeriveCall {
            attr_id: self.attr_id,
            attr_call_id: self.attr_call_id,
            derive_call_ids: self.derive_call_ids@,
        }
    }
}

impl DeriveMacroInvocation {
    /// A copy with the same contents.
    pub fn duplicate(&self) -> (copy: DeriveMacroInvocation)
        ensures
            copy@ == self@,
    {
        let mut ids: Vec<Option<MacroCallId>> = Vec::new();
        let mut i: usize = 0;
        while i < self.derive_call_ids.len()
            invariant
                i <= self.derive_call_ids@.len(),
                ids@ == self.derive_call_ids@.take(i as int),
            decreases self.derive_call_ids@.len() - i,
        {
            ids.push(self.derive_call_ids[i]);
            assert(self.derive_call_ids@.take(i + 1) == self.derive_call_ids@.take(i as int).push(
                self.derive_call_ids@[i as int],
            ));
            i += 1;
        }
        assert(self.derive_call_ids@.take(i as int) == self.derive_call_ids@);
        DeriveMacroInvocation {
            attr_id: self.attr_id,
            attr_call_id: self.attr_call_id,
            derive_call_ids: ids,
        }
    }
}

/// The declarations of one module. Nested block expressions have scopes of
/// their own and are not part of it.
#[derive(Clone, PartialEq, Eq, Debug)]
pub struct ItemScope {
    /// Everything a name of the module resolves to.
    pub declarations: Vec<ModuleDefId>,
    pub impls: Vec<ImplId>,
    pub extern_crate_decls: Vec<ExternCrateId>,
    pub use_decls: Vec<UseId>,
    /// Constants written as `const _: .. = ..;`.
    pub unnamed_consts: Vec<ConstId>,
    /// Items with an attribute macro on them, and the call each one became.
    pub attr_macros: Vec<(AstId, MacroCallId)>,
    /// Textually scoped macros; one entry per name, holding every macro that
    /// name was bound to.
    pub legacy_macros: Vec<Vec<MacroId>>,
    /// Items with derives on them, and the invocations recorded for each.
    pub derive_macros: Vec<(AstId, Vec<DeriveMacroInvocation>)>,
}

} // verus!
