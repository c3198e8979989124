//! The players of a game.

use vstd::prelude::*;

verus! {

/// The seat of a player: 0 for the first of the roster, and so on.
pub type PlayerID = usize;

/// A player of a game. Only `connected` changes while the game lasts.
#[derive(Debug, PartialEq, Eq)]
pub struct Player {
    /// The token by which the player's own client is recognised.
    pub uuid: String,
    pub id: PlayerID,
    pub name: String,
    pub connected: bool,
}

/// A player as contracts speak of one.
pub struct SpecPlayer {
    pub uuid: Seq<char>,
    pub id: PlayerID,
    pub name: Seq<char>,
    pub connected: bool,
}

impl View for Player {
    type V = SpecPlayer;

    open spec fn view(&self) -> SpecPlayer {
        SpecPlayer { uuid: self.uuid@, id: self.id, name: self.name@, connected: self.connected }
    }
}

impl Clone for Player {
    fn clone(&self) -> (copy: Player)
        ensures
            copy@ == self@,
    {
        Player {
            uuid: self.uuid.clone(),
            id: self.id,
            name: self.name.clone(),
            connected: self.connected,
        }
    }
}

/// The players of a roster as contracts speak of them.
pub open spec fn roster_view(players: Seq<Player>) -> Seq<SpecPlayer> {
    Seq::new(players.len(), |i: int| players[i]@)
}

/// Copies a roster.
pub fn copy_roster(players: &Vec<Player>) -> (copy: Vec<Player>)
    ensures
        roster_view(copy@) == roster_view(players@),
{
    let mut copy: Vec<Player> = Vec::new();
    let mut i: usize = 0;
    while i < players.len()
        invariant
            i <= players.len(),
            copy.len() == i,
            forall|j: int| 0 <= j < i ==> copy@[j]@ == players@[j]@,
        decreases players.len() - i,
    {
        copy.push(players[i].clone());
        i = i + 1;
    }
    assert(roster_view(copy@) =~= roster_view(players@));
    copy
}

} // verus!
