use vstd::prelude::*;
use crate::action::ActionType;
use crate::game::{GameStatus, PhaseOfDay};
use crate::player::{Player, PlayerId};
use crate::turn::PlayerTurn;

verus! {

/// What every view of a game answers: the whole game, or one player's turn.
pub trait Game {
    /// The game behind the view.
    spec fn status(&self) -> GameStatus;

    fn debug_mode(&self) -> (r: bool)
        ensures
            r == self.status().debug;

    fn day(&self) -> (r: u32)
        ensures
            r == self.status().date;

    fn phase_of_day(&self) -> (r: PhaseOfDay)
        ensures
            r == self.status().phase;

    fn logged_in(&self) -> (r: Option<PlayerId>)
        ensures
            r == self.status().current_player_id;
}

/// What only a player's turn answers: that player and their selections.
pub trait PlayerGame: Game {
    /// The logged-in player.
    spec fn current_id(&self) -> PlayerId;

    fn current_player_name(&self) -> (r: String)
        requires
            self.status().valid_id(self.current_id()),
        ensures
            r@ == self.status().players@[self.current_id().id as int].name@;

    fn has_target(&self, action: ActionType) -> (r: bool)
        requires
            self.status().valid_id(self.current_id()),
        ensures
            r == self.status().players@[self.current_id().id as int].actions@.contains_key(action);
}

impl Game for GameStatus {
    open spec fn status(&self) -> GameStatus {
        *self
    }

    fn debug_mode(&self) -> (r: bool) {
        self.debug
    }

    fn day(&self) -> (r: u32) {
        self.date
    }

    fn phase_of_day(&self) -> (r: PhaseOfDay) {
        self.phase
    }

    fn logged_in(&self) -> (r: Option<PlayerId>) {
        self.current_player_id
    }
}

impl<'a> Game for PlayerTurn<'a> {
    open spec fn status(&self) -> GameStatus {
        *self.game
    }

    fn debug_mode(&self) -> (r: bool) {
        self.game.debug
    }

    fn day(&self) -> (r: u32) {
        self.game.date
    }

    fn phase_of_day(&self) -> (r: PhaseOfDay) {
        self.game.phase
    }

    fn logged_in(&self) -> (r: Option<PlayerId>) {
        self.game.current_player_id
    }
}

impl<'a> PlayerGame for PlayerTurn<'a> {
    open spec fn current_id(&self) -> PlayerId {
        self.current_player_id
    }

    fn current_player_name(&self) -> (r: String) {
        self.game.players[self.current_player_id.id].name.clone()
    }

    fn has_target(&self, action: ActionType) -> (r: bool) {
        self.game.players[self.current_player_id.id].actions.get(&action).is_some()
    }
}

} // verus!
