use vstd::prelude::*;
use crate::codec::encode_spec;
use crate::game::Ginseng;
use crate::movegen::{lemma_legal_moves_ok, legal_moves_spec, move_ok};

verus! {

/// The evaluator the search consults: it reads its per-action output at the
/// action indices of the legal moves.
pub struct GinsengNet;

impl GinsengNet {
    pub fn new() -> (net: GinsengNet) {
        GinsengNet
    }

    /// The action index of each legal move of `game`, in the order of the moves.
    pub fn legal_action_indices(&self, game: &Ginseng) -> (r: Vec<usize>)
        ensures
            r@.len() == legal_moves_spec(*game).len(),
            forall|i: int|
                0 <= i < r@.len() ==> r@[i] as int == encode_spec(
                    #[trigger] legal_moves_spec(*game)[i],
                ),
    {
        let moves = game.legal_moves();
        proof {
            lemma_legal_moves_ok(*game);
        }
        let mut out: Vec<usize> = Vec::new();
        let mut i: usize = 0;
        while i < moves.len()
            invariant
                i <= moves@.len(),
                moves@ == legal_moves_spec(*game),
                out@.len() == i,
                forall|j: int| 0 <= j < i ==> out@[j] as int == encode_spec(#[trigger] moves@[j]),
                forall|j: int| 0 <= j < moves@.len() ==> move_ok(*game, #[trigger] moves@[j]),
            decreases moves@.len() - i,
        {
            let m = moves[i];
            assert(move_ok(*game, moves@[i as int]));
            out.push(m.to_index());
            i = i + 1;
        }
        out
    }
}

} // verus!
