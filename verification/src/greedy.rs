use vstd::prelude::*;
use rand::rngs::StdRng;
use crate::board::{Board, Move};
use crate::color::Color;
use crate::engine::Engine;
use crate::piece_value::Material;
use crate::select::{scored_moves, select_move, top_moves};

verus! {

/// Greedily takes material, with no lookahead and no regard to the position.
#[derive(Clone, Copy, Debug, PartialEq, Eq)]
pub struct Greedy();

impl<B: Board> Engine<B> for Greedy {
    /// The legal moves after which the mover has the most material.
    open spec fn choices(&self, board: B, player: Color) -> Seq<Move> {
        top_moves(scored_moves(board, player, Material))
    }

    fn do_move(&self, rng: &mut StdRng, board: &B, player: Color) -> (r: Option<Move>) {
        select_move(rng, board, player, &Material)
    }
}

} // verus!
