//! Plain-value stand-ins for the syntax side of a snapshot: file identities,
//! node pointers and resolved nodes.

use either::Either;
use vstd::prelude::*;

verus! {

/// Makes `either::Either` known to the verifier, with the two variants `Left`
/// and `Right` that the crate defines, so that verified code can match on it.
#[verifier::external_type_specification]
#[verifier::reject_recursive_types(L)]
#[verifier::reject_recursive_types(R)]
pub struct ExEither<L, R>(Either<L, R>);

/// Identity of a file. A real source file and the virtual file produced by one
/// macro expansion are told apart by the variant, and two expansions by their
/// call number, so equal text never makes two files equal.
#[derive(Clone, Copy, PartialEq, Eq, Structural, Debug, Hash)]
pub enum HirFileId {
    /// A file written by the user.
    FileId(u32),
    /// The output of the macro call with this number.
    MacroFile(u32),
}

/// A half-open span of text, in bytes.
#[derive(Clone, Copy, PartialEq, Eq, Structural, Debug, Hash)]
pub struct TextRange {
    pub start: u32,
    pub end: u32,
}

impl TextRange {
    /// The span from `start` to `end`.
    pub fn new(start: u32, end: u32) -> (range: TextRange)
        ensures
            range == (TextRange { start, end }),
    {
        TextRange { start, end }
    }
}

/// Pointer to a syntax node inside one file: the node's kind and where it sits.
#[derive(Clone, Copy, PartialEq, Eq, Structural, Debug, Hash)]
pub struct AstPtr {
    pub kind: u16,
    pub range: TextRange,
}

/// Pointer to an attribute of an item: the item's node and the attribute's
/// span inside the item's own text.
#[derive(Clone, Copy, PartialEq, Eq, Structural, Debug, Hash)]
pub struct AttrPtr {
    pub owner: AstPtr,
    pub range: TextRange,
}

/// Keys of the node maps: pointers that can be compared in executable code.
pub trait NodeKey: Sized + Copy {
    /// Whether two pointers name the same node.
    fn same_node(&self, other: &Self) -> (same: bool)
        ensures
            same == (*self == *other),
    ;
}

impl NodeKey for AstPtr {
    fn same_node(&self, other: &Self) -> (same: bool) {
        *self == *other
    }
}

impl NodeKey for AttrPtr {
    fn same_node(&self, other: &Self) -> (same: bool) {
        *self == *other
    }
}

/// A resolved syntax node: its pointer and the source text it covers.
#[derive(Clone, PartialEq, Eq, Debug)]
pub struct SyntaxNode {
    pub ptr: AstPtr,
    pub text: String,
}

impl SyntaxNode {
    /// Text offsets are 32 bits wide, so a node's text has at most that many
    /// bytes.
    pub open spec fn spec_wf(&self) -> bool {
        vstd::utf8::encode_utf8(self.text@).len() as usize <= u32::MAX
    }

    /// Tests that the node's text is short enough for 32-bit offsets.
    #[verifier::when_used_as_spec(spec_wf)]
    pub fn wf(&self) -> (ok: bool)
        ensures
            ok == self.spec_wf(),
    {
        self.text.as_str().len() <= 0xFFFF_FFFF
    }
}

/// A node reference that survives reparsing: a file and a slot of that file's
/// node index.
#[derive(Clone, Copy, PartialEq, Eq, Structural, Debug, Hash)]
pub struct AstId {
    pub file_id: HirFileId,
    pub value: u32,
}

} // verus!
