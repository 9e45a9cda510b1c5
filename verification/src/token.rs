//! Token and source-coordinate model shared by every pass.

use vstd::prelude::*;

verus! {

/// One lexeme of the source. `id` is a sequence number unique per token in a
/// compilation; `text` is the interned identifier of the token's spelling.
#[derive(Clone, Copy, Debug, PartialEq, Eq, Structural)]
pub struct Token {
    pub id: u64,
    pub line: u32,
    pub column: u32,
    pub length: u32,
    pub text: usize,
}

impl Token {
    pub fn new(id: u64, line: u32, column: u32, length: u32, text: usize) -> (t: Token)
        ensures
            t == (Token { id, line, column, length, text }),
    {
        Token { id, line, column, length, text }
    }
}

} // verus!
