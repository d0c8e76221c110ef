//! Turn and score keeping.
//!
//! Players take turns in a fixed rotation. When a player's ball comes to
//! rest in the hole, the number of strokes it took is recorded as that
//! player's score for the level, and the level is complete once every
//! player has exactly one recorded score.

use vstd::prelude::*;

verus! {

/// Per-player record: one entry per completed level.
pub struct PlayerData {
    pub scores: Vec<u32>,
}

impl Default for PlayerData {
    /// A player that has not finished any level yet.
    fn default() -> (r: PlayerData)
        ensures
            r.scores@ == Seq::<u32>::empty(),
    {
        PlayerData { scores: Vec::new() }
    }
}

/// The shared game state: how many players there are, whose turn it is,
/// and what each player has scored so far.
pub struct GameState {
    pub num_players: u32,
    pub current_player: u32,
    pub players: Vec<PlayerData>,
}

impl GameState {
    /// There is one record per player, and the turn marker points at a
    /// player (or at nobody, in the degenerate game with no players).
    pub open spec fn wf(self) -> bool {
        &&& self.players@.len() == self.num_players
        &&& (self.num_players > 0 ==> self.current_player < self.num_players)
        &&& (self.num_players == 0 ==> self.current_player == 0)
    }

    /// A fresh game: the first player is up and nobody has scored.
    pub fn new(num_players: u32) -> (r: GameState)
        ensures
            r.wf(),
            r.num_players == num_players,
            r.current_player == 0,
            forall|i: int|
                0 <= i < num_players ==> (#[trigger] r.players@[i]).scores@ == Seq::<u32>::empty(),
    {
        let mut players: Vec<PlayerData> = Vec::new();
        for i in 0..num_players
            invariant
                players@.len() == i,
                forall|j: int|
                    0 <= j < i ==> (#[trigger] players@[j]).scores@ == Seq::<u32>::empty(),
        {
            players.push(PlayerData::default());
        }
        GameState { num_players, current_player: 0, players }
    }

    /// A ball has come to rest in the hole: record its stroke count as the
    /// owner's score, pass the turn to the next player in rotation, and
    /// report whether the level is now complete, that is, whether every
    /// player holds exactly one score.
    pub fn record_hole(&mut self, player_id: u32, hits: u32) -> (complete: bool)
        requires
            old(self).wf(),
            player_id < old(self).num_players,
        ensures
            final(self).wf(),
            final(self).num_players == old(self).num_players,
            final(self).players@.len() == old(self).players@.len(),
            final(self).players@[player_id as int].scores@
                == old(self).players@[player_id as int].scores@.push(hits),
            forall|i: int|
                0 <= i < old(self).players@.len() && i != player_id ==> final(self).players@[i]
                    == old(self).players@[i],
            final(self).current_player
                == (old(self).current_player + 1) % (old(self).num_players as int),
            complete <==> (forall|i: int|
                0 <= i < final(self).players@.len()
                    ==> (#[trigger] final(self).players@[i]).scores@.len() == 1),
    {
        let slot = &mut self.players[player_id as usize];
        slot.scores.push(hits);
        self.current_player = (self.current_player + 1) % self.num_players;

        let mut complete = true;
        let n = self.players.len();
        for i in 0..n
            invariant
                n == self.players@.len(),
                complete <==> (forall|j: int|
                    0 <= j < i ==> (#[trigger] self.players@[j]).scores@.len() == 1),
        {
            if self.players[i].scores.len() != 1 {
                complete = false;
            }
        }
        complete
    }
}

} // verus!
