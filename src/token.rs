use vstd::prelude::*;

verus! {

/// One token handed to an indexer.
#[derive(Clone, Debug, PartialEq, Eq)]
pub struct Token {
    /// Byte offset of the token's first byte in the source text.
    pub offset_from: usize,
    /// Byte offset just past the token's last byte in the source text.
    pub offset_to: usize,
    /// Position used for phrase and proximity matching.
    pub position: usize,
    /// The token's text, copied out of the source.
    pub text: String,
    /// Number of positions the token spans (here its length in bytes).
    pub position_length: usize,
}

/// Whether `t` is the unset token: every number zero and no text.
pub open spec fn is_unset(t: Token) -> bool {
    &&& t.offset_from == 0
    &&& t.offset_to == 0
    &&& t.position == 0
    &&& t.position_length == 0
    &&& t.text@.len() == 0
}

impl Default for Token {
    fn default() -> (r: Token)
        ensures
            is_unset(r),
    {
        Token { offset_from: 0, offset_to: 0, position: 0, text: String::new(), position_length: 0 }
    }
}

} // verus!
