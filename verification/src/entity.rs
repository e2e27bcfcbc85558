//! The marks of the two players.

use std::ops::Not;
use vstd::prelude::*;
use vstd::std_specs::ops::NotSpecImpl;

verus! {

/// What one cell of the grid holds: nothing yet, or the mark of one of the two
/// players. `Computer` is the automated player, `Human` its opponent.
#[derive(Clone, Copy, Debug, PartialEq, Eq, Structural)]
pub enum Entity {
    Empty,
    Computer,
    Human,
}

impl Default for Entity {
    fn default() -> (e: Entity)
        ensures
            e == Entity::Empty,
    {
        Entity::Empty
    }
}

impl Entity {
    /// The other player. `Empty` stands for no player and is its own complement.
    pub open spec fn complement(self) -> Entity {
        match self {
            Entity::Empty => Entity::Empty,
            Entity::Computer => Entity::Human,
            Entity::Human => Entity::Computer,
        }
    }

    /// Whether this is the mark of a player rather than the absence of one.
    pub open spec fn is_player(self) -> bool {
        self != Entity::Empty
    }

    /// The characters by which a cell is shown.
    pub open spec fn label(self) -> Seq<char> {
        match self {
            Entity::Empty => seq!['-'],
            Entity::Human => seq!['O'],
            Entity::Computer => seq!['X'],
        }
    }

    /// The text by which a cell is shown: `-`, `O` or `X`.
    pub fn as_str(&self) -> (s: &str)
        ensures
            s@ == self.label(),
    {
        proof {
            reveal_strlit("-");
            reveal_strlit("O");
            reveal_strlit("X");
        }
        match self {
            Entity::Empty => {
                assert("-"@ =~= seq!['-']);
                "-"
            },
            Entity::Human => {
                assert("O"@ =~= seq!['O']);
                "O"
            },
            Entity::Computer => {
                assert("X"@ =~= seq!['X']);
                "X"
            },
        }
    }
}

impl Not for Entity {
    type Output = Entity;

    /// Hands the turn to the other player.
    fn not(self) -> (other: Entity) {
        match self {
            Entity::Empty => Entity::Empty,
            Entity::Computer => Entity::Human,
            Entity::Human => Entity::Computer,
        }
    }
}

impl NotSpecImpl for Entity {
    open spec fn obeys_not_spec() -> bool {
        true
    }

    open spec fn not_req(self) -> bool {
        true
    }

    open spec fn not_spec(self) -> Entity {
        self.complement()
    }
}

/// Complementing twice gives the player back, and a player's complement is the
/// other player.
pub proof fn lemma_complement(e: Entity)
    ensures
        e.complement().complement() == e,
        e.is_player() ==> e.complement().is_player() && e.complement() != e,
        e.complement() == Entity::Empty <==> e == Entity::Empty,
{
}

} // verus!
