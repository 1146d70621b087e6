//! The attribute sequence of an item, and positions in it.
//!
//! A derive invocation remembers the position of the attribute it came from.
//! To find that attribute again the item's attributes are collected anew, in
//! the same order, and the remembered position is looked up.

use crate::syntax::TextRange;
use either::Either;
use ra_ap_syntax::ast::HasModuleItem;
use ra_ap_syntax::{AstNode, AstToken, Edition, SourceFile};
use vstd::prelude::*;

verus! {

/// One entry of an item's attribute sequence: the span of an attribute on the
/// left, the span of a doc comment on the right.
pub type AttrSlot = Either<TextRange, TextRange>;

/// Position of an attribute among the attributes of its item.
#[derive(Clone, Copy, PartialEq, Eq, Structural, Debug, Hash)]
pub struct AttrId {
    pub id: u32,
}

impl AttrId {
    /// The position in the collected attribute sequence: the low 24 bits. The
    /// bits above say which entry of a `cfg_attr` expansion is meant.
    pub open spec fn spec_ast_index(&self) -> usize {
        (self.id & 0x00FF_FFFF) as usize
    }

    /// The position in the collected attribute sequence.
    #[verifier::when_used_as_spec(spec_ast_index)]
    pub fn ast_index(&self) -> (index: usize)
        ensures
            index == self.spec_ast_index(),
            index < 0x0100_0000,
    {
        let id = self.id;
        assert(id & 0x00FF_FFFF < 0x0100_0000) by (bit_vector);
        (id & 0x00FF_FFFF) as usize
    }
}

/// The attribute sequence of the first item in `text`: its outer attributes
/// and doc comments in source order, then its inner ones.
pub uninterp spec fn collected_attrs(text: Seq<char>) -> Seq<AttrSlot>;

/// The attribute found at `index` of a collected sequence, if that position
/// exists and holds an attribute rather than a doc comment.
pub open spec fn attr_at(slots: Seq<AttrSlot>, index: int) -> Option<TextRange> {
    if 0 <= index < slots.len() {
        match slots[index] {
            Either::Left(attr) => Some(attr),
            Either::Right(_) => None,
        }
    } else {
        None
    }
}

/// Parses `text` with `ra_ap_syntax::SourceFile::parse` and runs
/// `ra_ap_hir_expand::attrs::collect_attrs` on the first item of the result,
/// keeping the span of each attribute and doc comment it yields. A text
/// without an item gives the empty sequence.
///
/// Trusted: the sequence depends on `text` alone, which is all the contract
/// says of it. The parser recovers from malformed text and builds a tree for
/// whatever it is given; its offsets are 32 bits wide, hence the bound.
#[verifier::external_body]
pub(crate) fn collect_attrs(text: &str) -> (slots: Vec<AttrSlot>)
    requires
        text.len() <= u32::MAX,
    ensures
        slots@ == collected_attrs(text@),
{
    let file = SourceFile::parse(text, Edition::CURRENT).tree();
    let item = file.items().next();
    item.iter()
        .flat_map(|item| ra_ap_hir_expand::attrs::collect_attrs(item))
        .map(|(_, slot)| slot.map_either(|a| a.syntax().text_range(), |c| c.syntax().text_range()))
        .map(|slot| slot.map(|range| TextRange::new(range.start().into(), range.end().into())))
        .collect()
}

/// Looks up position `index` in a collected attribute sequence.
pub fn nth_attr(slots: &Vec<AttrSlot>, index: usize) -> (attr: Option<TextRange>)
    ensures
        attr == attr_at(slots@, index as int),
{
    if index < slots.len() {
        match slots[index] {
            Either::Left(attr) => Some(attr),
            Either::Right(_) => None,
        }
    } else {
        None
    }
}

} // verus!
