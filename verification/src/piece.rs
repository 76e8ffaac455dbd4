//! Pieces and their one-byte encoding.

use vstd::prelude::*;
use crate::Side;

verus! {

/// The kind of a piece.
#[derive(Clone, Copy, Debug, PartialEq, Eq, Structural)]
pub enum Rank {
    Pawn,
    Knight,
    Bishop,
    Rook,
    Queen,
    King,
}

/// A piece: a side and a rank, packed into one byte.
///
/// The top bit is set for White; the low bits number the rank from 0 (pawn)
/// to 5 (king).
#[derive(Clone, Copy, Debug, PartialEq, Eq, Structural)]
pub struct Piece {
    repr: u8,
}

/// The byte that encodes `rank` with the side bit clear.
pub open spec fn rank_bits(rank: Rank) -> u8 {
    match rank {
        Rank::Pawn => 0,
        Rank::Knight => 1,
        Rank::Bishop => 2,
        Rank::Rook => 3,
        Rank::Queen => 4,
        Rank::King => 5,
    }
}

/// The byte that encodes a piece of `side` and `rank`.
pub open spec fn encode(side: Side, rank: Rank) -> u8 {
    match side {
        Side::White => (rank_bits(rank) + 128) as u8,
        Side::Black => rank_bits(rank),
    }
}

/// Whether `bits` encodes a piece.
pub open spec fn is_encoding(bits: u8) -> bool {
    bits <= 5 || 128 <= bits <= 133
}

impl Piece {
    /// Whether the byte of this piece encodes a piece. Every piece that a
    /// program holds is well formed.
    #[verifier::type_invariant]
    pub closed spec fn well_formed(self) -> bool {
        is_encoding(self.repr)
    }

    /// The byte that holds this piece.
    pub closed spec fn bits(self) -> u8 {
        self.repr
    }

    /// The piece that the byte `bits` holds.
    pub closed spec fn holding(bits: u8) -> Piece {
        Piece { repr: bits }
    }

    /// The piece of the given side and rank.
    pub open spec fn of(side: Side, rank: Rank) -> Piece {
        Piece::holding(encode(side, rank))
    }

    /// A piece is held in the byte from which it was made.
    pub proof fn lemma_bits(bits: u8)
        ensures
            Piece::holding(bits).bits() == bits,
    {
    }

    /// `of` builds a piece of the side and rank it was given.
    pub proof fn lemma_of_parts(side: Side, rank: Rank)
        ensures
            Piece::of(side, rank).side_of() == side,
            Piece::of(side, rank).rank_of() == rank,
            Piece::of(side, rank).bits() == encode(side, rank),
    {
    }

    /// Two pieces are equal if and only if their sides and their ranks are.
    pub proof fn lemma_equal_parts(p: Piece, q: Piece)
        requires
            p.well_formed(),
            q.well_formed(),
        ensures
            p == q <==> p.side_of() == q.side_of() && p.rank_of() == q.rank_of(),
    {
    }

    /// The side this piece belongs to.
    pub open spec fn side_of(self) -> Side {
        if self.bits() >= 128 {
            Side::White
        } else {
            Side::Black
        }
    }

    /// The rank of this piece.
    pub open spec fn rank_of(self) -> Rank {
        let low = if self.bits() >= 128 { self.bits() - 128 } else { self.bits() as int };
        if low == 0 {
            Rank::Pawn
        } else if low == 1 {
            Rank::Knight
        } else if low == 2 {
            Rank::Bishop
        } else if low == 3 {
            Rank::Rook
        } else if low == 4 {
            Rank::Queen
        } else {
            Rank::King
        }
    }

    /// The piece of the given side and rank.
    pub fn pack(side: Side, rank: Rank) -> (piece: Piece)
        ensures
            piece == Piece::of(side, rank),
            piece.side_of() == side,
            piece.rank_of() == rank,
    {
        let mut i: u8 = match rank {
            Rank::Pawn => 0,
            Rank::Knight => 1,
            Rank::Bishop => 2,
            Rank::Rook => 3,
            Rank::Queen => 4,
            Rank::King => 5,
        };
        if side == Side::White {
            let low: u8 = i;
            i = i | 0b1000_0000;
            assert(low <= 5 ==> (low | 0b1000_0000) == low + 128) by (bit_vector);
        }
        Piece { repr: i }
    }

    /// The piece held in `bits`, if `bits` encodes one.
    pub fn from_bits(bits: u8) -> (piece: Option<Piece>)
        ensures
            piece == (if is_encoding(bits) {
                Some(Piece::holding(bits))
            } else {
                None
            }),
    {
        if bits <= 5 || (128 <= bits && bits <= 133) {
            Some(Piece { repr: bits })
        } else {
            None
        }
    }

    /// The side this piece belongs to.
    pub fn side(&self) -> (side: Side)
        ensures
            side == self.side_of(),
    {
        let r: u8 = self.repr;
        let top: u8 = r >> 7;
        assert((r >> 7) == 0 <==> r < 128) by (bit_vector);
        if top == 0 {
            Side::Black
        } else {
            Side::White
        }
    }

    /// The rank of this piece.
    pub fn rank(&self) -> (rank: Rank)
        ensures
            rank == self.rank_of(),
    {
        proof {
            use_type_invariant(self);
        }
        let r: u8 = self.repr;
        let low: u8 = r & 0b0111_1111;
        assert(r >= 128 ==> (r & 0b0111_1111) == r - 128) by (bit_vector);
        assert(r < 128 ==> (r & 0b0111_1111) == r) by (bit_vector);
        if low == 0 {
            Rank::Pawn
        } else if low == 1 {
            Rank::Knight
        } else if low == 2 {
            Rank::Bishop
        } else if low == 3 {
            Rank::Rook
        } else if low == 4 {
            Rank::Queen
        } else {
            Rank::King
        }
    }
}

} // verus!
