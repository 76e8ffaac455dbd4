//! A chess rules engine with an adversarial move-search opponent.
//!
//! The crate enumerates the actions a piece may take on a board, filters them
//! down to those that keep the mover's king safe, and picks a move for an
//! automated player by depth-limited negamax search with alpha-beta pruning.

use vstd::prelude::*;

pub mod action;
pub mod ai;
pub mod board;
pub mod engine;
pub mod error;
pub mod game;
pub mod piece;
pub mod protocol;
pub mod session;
pub mod ui;

use crate::session::{starting_session, Session};

verus! {

/// One of the two players.
#[derive(Clone, Copy, Debug, PartialEq, Eq, Structural)]
pub enum Side {
    White,
    Black,
}

impl Side {
    /// The other player.
    pub open spec fn opponent(self) -> Side {
        match self {
            Side::White => Side::Black,
            Side::Black => Side::White,
        }
    }
}

/// `!side` is the other player.
impl core::ops::Not for Side {
    type Output = Side;

    fn not(self) -> (other: Side) {
        match self {
            Side::White => Side::Black,
            Side::Black => Side::White,
        }
    }
}

impl vstd::std_specs::ops::NotSpecImpl for Side {
    open spec fn obeys_not_spec() -> bool {
        true
    }

    open spec fn not_req(self) -> bool {
        true
    }

    open spec fn not_spec(self) -> Side {
        self.opponent()
    }
}

/// A new session of play, at the start of a game.
pub fn new_session() -> (session: Session)
    ensures
        session@ == starting_session(),
{
    Session::new()
}

} // verus!
