//! The messages that a client and a server exchange, one per line, and where
//! a line ends in the bytes received.

use vstd::prelude::*;
use crate::game::GameState;

verus! {

/// What a client sends.
#[derive(Debug)]
pub enum ClientMessage {
    Foo(String),
}

/// What a server sends.
#[derive(Debug)]
pub enum ServerMessage {
    GameState(GameState),
}

/// Whether a carriage return stands at place `at` of `buffer` with a line
/// feed right behind it.
pub open spec fn line_ends_at(buffer: Seq<u8>, at: int) -> bool {
    0 <= at && at + 1 < buffer.len() && buffer[at] == 13 && buffer[at + 1] == 10
}

/// Where the first line of `buffer` ends: the place of the first carriage
/// return that a line feed follows, if there is one. The line is what stands
/// before that place; the next line starts two bytes on.
pub fn find_line_end(buffer: &[u8]) -> (end: Option<usize>)
    ensures
        match end {
            Some(at) => line_ends_at(buffer@, at as int) && forall|earlier: int|
                0 <= earlier < at ==> !line_ends_at(buffer@, earlier),
            None => forall|at: int| !line_ends_at(buffer@, at),
        },
{
    let mut at: usize = 0;
    while at < buffer.len() && at + 1 < buffer.len()
        invariant
            forall|earlier: int| 0 <= earlier < at ==> !line_ends_at(buffer@, earlier),
        decreases buffer.len() - at,
    {
        if buffer[at] == 13 && buffer[at + 1] == 10 {
            return Some(at);
        }
        at = at + 1;
    }
    None
}

} // verus!
