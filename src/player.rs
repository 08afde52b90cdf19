use vstd::prelude::*;
use crate::action::ActionType;
use crate::message::Message;
use crate::role::Role;

verus! {

/// Stable handle of a player: its position in the game's player list.
#[derive(Clone, Copy, Debug, PartialEq, Eq, Structural, Hash)]
pub struct PlayerId {
    pub id: usize,
}

impl PlayerId {
    /// The player this handle designates.
    pub fn get_player<'a>(&self, players: &'a Vec<Player>) -> (r: &'a Player)
        requires
            self.id < players.len(),
        ensures
            *r == players@[self.id as int],
    {
        &players[self.id]
    }

    /// Mutable access to the player this handle designates.
    pub fn get_mut_player<'a>(&self, players: &'a mut Vec<Player>) -> (r: &'a mut Player)
        requires
            self.id < old(players).len(),
        ensures
            *r == old(players)@[self.id as int],
            final(players)@ == old(players)@.update(self.id as int, *final(r)),
    {
        &mut players[self.id]
    }
}

/// Events of the last night that a spy watching this player would notice.
#[derive(Clone, Copy, Debug, PartialEq, Eq, Structural)]
pub struct SpyData {
    pub woke_up: bool,
    pub was_cured: bool,
    pub was_infected: bool,
    pub was_paralyzed: bool,
    pub was_psychoanalyzed: bool,
}

impl SpyData {
    /// No event observed.
    pub open spec fn is_clear(self) -> bool {
        !self.woke_up && !self.was_cured && !self.was_infected && !self.was_paralyzed
            && !self.was_psychoanalyzed
    }

    /// Nothing observed yet.
    pub fn new() -> (r: SpyData)
        ensures
            r.is_clear(),
    {
        SpyData {
            woke_up: false,
            was_cured: false,
            was_infected: false,
            was_paralyzed: false,
            was_psychoanalyzed: false,
        }
    }
}

impl Default for SpyData {
    fn default() -> (r: SpyData)
        ensures
            r.is_clear(),
    {
        SpyData::new()
    }
}

/// A player's current target for each kind of action, if any.
#[derive(Clone, Copy, Debug)]
pub struct ActionTargets {
    pub eliminate: Option<PlayerId>,
    pub infect: Option<PlayerId>,
    pub paralyze: Option<PlayerId>,
    pub spy: Option<PlayerId>,
    pub cure: Option<PlayerId>,
    pub psychoanalyze: Option<PlayerId>,
    pub genomyze: Option<PlayerId>,
}

impl ActionTargets {
    pub open spec fn slot(self, a: ActionType) -> Option<PlayerId> {
        match a {
            ActionType::Eliminate => self.eliminate,
            ActionType::Infect => self.infect,
            ActionType::Paralyze => self.paralyze,
            ActionType::Spy => self.spy,
            ActionType::Cure => self.cure,
            ActionType::Psychoanalyze => self.psychoanalyze,
            ActionType::Genomyze => self.genomyze,
        }
    }

    /// Every selection absent.
    pub open spec fn cleared() -> ActionTargets {
        ActionTargets {
            eliminate: None,
            infect: None,
            paralyze: None,
            spy: None,
            cure: None,
            psychoanalyze: None,
            genomyze: None,
        }
    }

    /// No selection at all.
    pub fn new() -> (r: ActionTargets)
        ensures
            r == ActionTargets::cleared(),
            r@ == Map::<ActionType, PlayerId>::empty(),
    {
        let r = ActionTargets {
            eliminate: None,
            infect: None,
            paralyze: None,
            spy: None,
            cure: None,
            psychoanalyze: None,
            genomyze: None,
        };
        assert(r@ =~= Map::<ActionType, PlayerId>::empty());
        r
    }

    /// The selection for `action`, if one is registered.
    pub fn get(&self, action: &ActionType) -> (r: Option<&PlayerId>)
        ensures
            r.is_some() == self@.contains_key(*action),
            r.is_some() ==> *r.unwrap() == self@[*action],
    {
        match action {
            ActionType::Eliminate => self.eliminate.as_ref(),
            ActionType::Infect => self.infect.as_ref(),
            ActionType::Paralyze => self.paralyze.as_ref(),
            ActionType::Spy => self.spy.as_ref(),
            ActionType::Cure => self.cure.as_ref(),
            ActionType::Psychoanalyze => self.psychoanalyze.as_ref(),
            ActionType::Genomyze => self.genomyze.as_ref(),
        }
    }

    /// Every selection designates a position below `n`.
    pub fn all_below(&self, n: usize) -> (r: bool)
        ensures
            r == forall|a: ActionType| #[trigger] self@.contains_key(a) ==> self@[a].id < n,
    {
        let below = |t: Option<PlayerId>| -> (b: bool)
            ensures
                b == (t is None || t.unwrap().id < n),
        {
            match t {
                Some(p) => p.id < n,
                None => true,
            }
        };
        let r = below(self.eliminate) && below(self.infect) && below(self.paralyze) && below(self.spy)
            && below(self.cure) && below(self.psychoanalyze) && below(self.genomyze);
        proof {
            if !r {
                if !(self.eliminate is None || self.eliminate.unwrap().id < n) {
                    assert(self@.contains_key(ActionType::Eliminate));
                } else if !(self.infect is None || self.infect.unwrap().id < n) {
                    assert(self@.contains_key(ActionType::Infect));
                } else if !(self.paralyze is None || self.paralyze.unwrap().id < n) {
                    assert(self@.contains_key(ActionType::Paralyze));
                } else if !(self.spy is None || self.spy.unwrap().id < n) {
                    assert(self@.contains_key(ActionType::Spy));
                } else if !(self.cure is None || self.cure.unwrap().id < n) {
                    assert(self@.contains_key(ActionType::Cure));
                } else if !(self.psychoanalyze is None || self.psychoanalyze.unwrap().id < n) {
                    assert(self@.contains_key(ActionType::Psychoanalyze));
                } else {
                    assert(self@.contains_key(ActionType::Genomyze));
                }
            }
        }
        r
    }

    /// Records `target` for `action`, or clears the selection when it is `None`.
    pub fn set(&mut self, action: &ActionType, target: Option<PlayerId>)
        ensures
            target is Some ==> final(self)@ == old(self)@.insert(*action, target.unwrap()),
            target is None ==> final(self)@ == old(self)@.remove(*action),
    {
        match action {
            ActionType::Eliminate => self.eliminate = target,
            ActionType::Infect => self.infect = target,
            ActionType::Paralyze => self.paralyze = target,
            ActionType::Spy => self.spy = target,
            ActionType::Cure => self.cure = target,
            ActionType::Psychoanalyze => self.psychoanalyze = target,
            ActionType::Genomyze => self.genomyze = target,
        }
        assert(target is Some ==> self@ =~= old(self)@.insert(*action, target.unwrap()));
        assert(target is None ==> self@ =~= old(self)@.remove(*action));
    }
}

proof fn lemma_slot_from_view(a: ActionTargets, b: ActionTargets, x: ActionType)
    requires
        a@ == b@,
    ensures
        a.slot(x) == b.slot(x),
{
    let ma = Map::new(|k: ActionType| a.slot(k) is Some, |k: ActionType| a.slot(k).unwrap());
    let mb = Map::new(|k: ActionType| b.slot(k) is Some, |k: ActionType| b.slot(k).unwrap());
    assert(a@ == ma);
    assert(b@ == mb);
    assert(ma.contains_key(x) == (a.slot(x) is Some));
    assert(mb.contains_key(x) == (b.slot(x) is Some));
    if a.slot(x) is Some {
        assert(ma[x] == a.slot(x).unwrap());
        assert(mb[x] == b.slot(x).unwrap());
    }
}

/// Selections are known from their view.
pub proof fn lemma_action_targets_view(a: ActionTargets, b: ActionTargets)
    requires
        a@ == b@,
    ensures
        a == b,
{
    lemma_slot_from_view(a, b, ActionType::Eliminate);
    lemma_slot_from_view(a, b, ActionType::Infect);
    lemma_slot_from_view(a, b, ActionType::Paralyze);
    lemma_slot_from_view(a, b, ActionType::Spy);
    lemma_slot_from_view(a, b, ActionType::Cure);
    lemma_slot_from_view(a, b, ActionType::Psychoanalyze);
    lemma_slot_from_view(a, b, ActionType::Genomyze);
}

impl View for ActionTargets {
    type V = Map<ActionType, PlayerId>;

    open spec fn view(&self) -> Map<ActionType, PlayerId> {
        Map::new(|a: ActionType| self.slot(a) is Some, |a: ActionType| self.slot(a).unwrap())
    }
}

/// One participant of the game.
#[derive(Debug)]
pub struct Player {
    pub id: PlayerId,
    pub key: String,
    pub name: String,
    pub role: Role,
    pub messages: Vec<Message>,
    pub host: bool,
    pub resilient: bool,
    // status
    pub alive: bool,
    pub infected: bool,
    pub paralyzed: bool,
    pub death_date: Option<u32>,
    pub death_cause: Option<String>,
    pub auto_cure_physician: bool,
    pub auto_kill_physician: bool,
    pub physician_kill: bool,
    pub mutant_kill: bool,
    // daily data
    pub has_connected_today: bool,
    pub actions: ActionTargets,
    pub spy_info: SpyData,
    pub hacker_target: Option<Role>,
}

impl Player {
    /// The fields that a new turn clears, cleared; all others as in `self`.
    pub open spec fn turn_reset(self) -> Player {
        Player {
            actions: ActionTargets::cleared(),
            has_connected_today: false,
            spy_info: SpyData {
                woke_up: false,
                was_cured: false,
                was_infected: false,
                was_paralyzed: false,
                was_psychoanalyzed: false,
            },
            hacker_target: None,
            physician_kill: false,
            mutant_kill: false,
            paralyzed: false,
            ..self
        }
    }

    /// A living player at game setup; only the index case starts infected.
    pub fn new(id: usize, key: String, name: String, role: Role) -> (r: Player)
        ensures
            r.id == (PlayerId { id }),
            r.key == key,
            r.name == name,
            r.role == role,
            r.messages@.len() == 0,
            !r.host,
            !r.resilient,
            r.alive,
            r.infected == (role == Role::Patient0),
            !r.paralyzed,
            r.death_date is None,
            r.death_cause is None,
            r.auto_cure_physician,
            !r.auto_kill_physician,
            !r.physician_kill,
            !r.mutant_kill,
            !r.has_connected_today,
            r.actions@ == Map::<ActionType, PlayerId>::empty(),
            r.spy_info.is_clear(),
            r.hacker_target is None,
    {
        let infected = role == Role::Patient0;
        Player {
            id: PlayerId { id },
            key,
            name,
            role,
            host: false,
            resilient: false,
            alive: true,
            infected,
            paralyzed: false,
            death_date: None,
            death_cause: None,
            auto_cure_physician: true,
            auto_kill_physician: false,
            physician_kill: false,
            mutant_kill: false,
            messages: Vec::new(),
            has_connected_today: false,
            actions: ActionTargets::new(),
            spy_info: SpyData::new(),
            hacker_target: None,
        }
    }

    /// Clears what lasts one turn: selections, login, paralysis, spy
    /// observations, hacking target and the kill choices.
    pub fn prepare_new_turn(&mut self)
        ensures
            *final(self) == old(self).turn_reset(),
            final(self).actions@ == Map::<ActionType, PlayerId>::empty(),
    {
        self.actions = ActionTargets::new();
        self.has_connected_today = false;
        self.spy_info = SpyData::new();
        self.hacker_target = None;
        self.physician_kill = false;
        self.mutant_kill = false;
        self.paralyzed = false;
    }

    /// Marks the player dead on `date`, of `death_cause`.
    pub fn die(&mut self, date: u32, death_cause: String)
        ensures
            *final(self) == (Player {
                alive: false,
                death_date: Some(date),
                death_cause: Some(death_cause),
                ..*old(self)
            }),
    {
        self.alive = false;
        self.death_date = Some(date);
        self.death_cause = Some(death_cause);
    }

    /// The player's current target for `action`.
    pub fn get_target(&self, action: &ActionType) -> (r: Option<&PlayerId>)
        ensures
            r.is_some() == self.actions@.contains_key(*action),
            r.is_some() ==> *r.unwrap() == self.actions@[*action],
    {
        self.actions.get(action)
    }

    /// Records `target` for `action`, or clears it when `target` is `None`.
    pub fn set_target(&mut self, action: &ActionType, target: Option<PlayerId>)
        ensures
            target is Some ==> final(self).actions@ == old(self).actions@.insert(*action, target.unwrap()),
            target is None ==> final(self).actions@ == old(self).actions@.remove(*action),
            *final(self) == (Player { actions: final(self).actions, ..*old(self) }),
    {
        self.actions.set(action, target);
    }

    /// The cause of death of a dead player.
    pub fn get_death_cause(&self) -> (r: &String)
        requires
            self.death_cause is Some,
        ensures
            *r == self.death_cause.unwrap(),
    {
        self.death_cause.as_ref().unwrap()
    }

    /// Switches the mutant's choice between killing and infecting its target.
    pub fn toggle_mutant_kill(&mut self)
        ensures
            *final(self) == (Player { mutant_kill: !old(self).mutant_kill, ..*old(self) }),
    {
        self.mutant_kill = !self.mutant_kill;
    }

    /// Switches the physician's choice between killing and curing its target.
    pub fn toggle_physician_kill(&mut self)
        ensures
            *final(self) == (Player { physician_kill: !old(self).physician_kill, ..*old(self) }),
    {
        self.physician_kill = !self.physician_kill;
    }

    /// What a physician does with disabled colleagues, in turn: cure them,
    /// kill them, leave them.
    pub fn cycle_inactive_physician_policy(&mut self)
        ensures
            old(self).auto_cure_physician ==> !final(self).auto_cure_physician && final(self).auto_kill_physician,
            !old(self).auto_cure_physician && old(self).auto_kill_physician
                ==> !final(self).auto_cure_physician && !final(self).auto_kill_physician,
            !old(self).auto_cure_physician && !old(self).auto_kill_physician
                ==> final(self).auto_cure_physician && !final(self).auto_kill_physician,
            *final(self) == (Player {
                auto_cure_physician: final(self).auto_cure_physician,
                auto_kill_physician: final(self).auto_kill_physician,
                ..*old(self)
            }),
    {
        if self.auto_cure_physician {
            self.auto_cure_physician = false;
            self.auto_kill_physician = true;
        } else if self.auto_kill_physician {
            self.auto_kill_physician = false;
        } else {
            self.auto_cure_physician = true;
        }
    }

    /// Appends `message` to the mailbox.
    pub fn send_message(&mut self, message: Message)
        ensures
            final(self).messages@ == old(self).messages@.push(message),
            *final(self) == (Player { messages: final(self).messages, ..*old(self) }),
    {
        self.messages.push(message);
    }
}

/// After a new turn a player has no selection, has not logged in, is not
/// paralyzed and has no spy observation, whatever the previous turn left; identity and role stay.
pub proof fn lemma_turn_reset_clears(p: Player)
    ensures
        p.turn_reset().actions@ == Map::<ActionType, PlayerId>::empty(),
        !p.turn_reset().has_connected_today,
        !p.turn_reset().paralyzed,
        p.turn_reset().spy_info.is_clear(),
        p.turn_reset().role == p.role,
        p.turn_reset().id == p.id,
{
    assert(p.turn_reset().actions@ =~= Map::<ActionType, PlayerId>::empty());
}

} // verus!
