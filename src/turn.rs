use vstd::prelude::*;
use crate::action::ActionType;
use crate::game::GameStatus;
use crate::player::{Player, PlayerId};

verus! {

/// The game as seen by the logged-in player `current_player_id`: whole-game
/// queries go to `game`, while changes through the view touch that player only.
pub struct PlayerTurn<'a> {
    pub game: &'a mut GameStatus,
    pub current_player_id: PlayerId,
}

impl GameStatus {
    /// The view of the game for the logged-in player `current_player_id`.
    pub fn get_player_game<'a>(&'a mut self, current_player_id: PlayerId) -> (r: PlayerTurn<'a>)
        ensures
            r.current_player_id == current_player_id,
            *r.game == *old(self),
    {
        PlayerTurn { game: self, current_player_id }
    }
}

impl<'a> PlayerTurn<'a> {
    /// The view is usable: the game is well formed and the player exists.
    pub open spec fn wf(&self) -> bool {
        self.game.wf() && self.game.valid_id(self.current_player_id)
    }

    /// The logged-in player.
    pub fn get_current_player(&self) -> (r: &Player)
        requires
            self.wf(),
        ensures
            *r == old(self.game).players@[self.current_player_id.id as int],
    {
        self.game.get_player(self.current_player_id)
    }

    /// The player that the logged-in player selected for `action`, if any.
    pub fn get_current_target(&self, action: &ActionType) -> (r: Option<&Player>)
        requires
            self.wf(),
        ensures
            r.is_some() == old(self.game).players@[self.current_player_id.id as int].actions@.contains_key(*action),
            r.is_some() ==> *r.unwrap() == old(self.game).players@[
                old(self.game).players@[self.current_player_id.id as int].actions@[*action].id as int],
    {
        let me = self.game.get_player(self.current_player_id);
        match me.get_target(action) {
            Some(t) => Some(self.game.get_player(*t)),
            None => None,
        }
    }

    /// Records `target` for `action` on the logged-in player, or clears it;
    /// nothing else changes.
    pub fn set_current_target(&mut self, action: &ActionType, target: Option<PlayerId>)
        requires
            old(self).wf(),
            target is Some ==> old(self).game.valid_id(target.unwrap()),
        ensures
            final(self).current_player_id == old(self).current_player_id,
            final(self).wf(),
            sets_target(*old(self).game, *final(self).game, old(self).current_player_id, *action, target),
            *final(self).game == old(self).game.with_players(final(self).game.players),
            final(self).game.players@.len() == old(self).game.players@.len(),
            forall|j: int| 0 <= j < old(self).game.players@.len() && j != old(self).current_player_id.id
                ==> #[trigger] final(self).game.players@[j] == old(self).game.players@[j],
            ({
                let before = old(self).game.players@[old(self).current_player_id.id as int];
                let after = final(self).game.players@[old(self).current_player_id.id as int];
                &&& after == (Player { actions: after.actions, ..before })
                &&& target is Some ==> after.actions@ == before.actions@.insert(*action, target.unwrap())
                &&& target is None ==> after.actions@ == before.actions@.remove(*action)
            }),
    {
        let id = self.current_player_id;
        self.game.players[id.id].set_target(action, target);
    }
}

/// `after` is `before` once the player `me` has recorded `target` for
/// `action`, or cleared it when `target` is `None`, as `set_current_target` does.
pub open spec fn sets_target(before: GameStatus, after: GameStatus, me: PlayerId, action: ActionType, target: Option<PlayerId>) -> bool {
    &&& after == before.with_players(after.players)
    &&& after.players@.len() == before.players@.len()
    &&& forall|j: int| 0 <= j < before.players@.len() && j != me.id ==> #[trigger] after.players@[j] == before.players@[j]
    &&& ({
        let b = before.players@[me.id as int];
        let a = after.players@[me.id as int];
        &&& a == (Player { actions: a.actions, ..b })
        &&& target is Some ==> a.actions@ == b.actions@.insert(action, target.unwrap())
        &&& target is None ==> a.actions@ == b.actions@.remove(action)
    })
}

/// Recording the same selection a second time changes nothing.
pub proof fn lemma_set_target_twice(
    g0: GameStatus, g1: GameStatus, g2: GameStatus, me: PlayerId, action: ActionType, target: Option<PlayerId>,
)
    requires
        me.id < g0.players@.len(),
        sets_target(g0, g1, me, action, target),
        sets_target(g1, g2, me, action, target),
    ensures
        g2 == g1.with_players(g2.players),
        g2.players@ == g1.players@,
{
    let i = me.id as int;
    let a1 = g1.players@[i].actions;
    let a2 = g2.players@[i].actions;
    let a0 = g0.players@[i].actions;
    if target is Some {
        lemma_set_target_idempotent(a0@, action, target.unwrap());
        assert(a1@ == a0@.insert(action, target.unwrap()));
        assert(a2@ == a1@.insert(action, target.unwrap()));
    } else {
        lemma_set_target_idempotent(a0@, action, PlayerId { id: 0 });
        assert(a1@ == a0@.remove(action));
        assert(a2@ == a1@.remove(action));
    }
    assert(a2@ == a1@);
    crate::player::lemma_action_targets_view(a2, a1);
    assert(g2.players@[i] == g1.players@[i]);
    assert(g2.players@ =~= g1.players@);
}

/// Clearing a selection that is not there changes nothing, and recording the
/// same selection twice is the same as recording it once: what
/// `set_current_target` and `Player::set_target` do to the selections is
/// idempotent.
pub proof fn lemma_set_target_idempotent(selections: Map<ActionType, PlayerId>, action: ActionType, target: PlayerId)
    ensures
        !selections.contains_key(action) ==> selections.remove(action) == selections,
        selections.insert(action, target).insert(action, target) == selections.insert(action, target),
        selections.remove(action).remove(action) == selections.remove(action),
{
    assert(!selections.contains_key(action) ==> selections.remove(action) =~= selections);
    assert(selections.insert(action, target).insert(action, target) =~= selections.insert(action, target));
    assert(selections.remove(action).remove(action) =~= selections.remove(action));
}

} // verus!
