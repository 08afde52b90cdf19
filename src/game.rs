use vstd::prelude::*;
use vstd::string::StringExecFns;
use crate::message::{Message, diagnostic_system, genetics_tool, surveillance_tool};
use crate::action::ActionType;
use crate::player::{Player, PlayerId};
use crate::role::Role;
use crate::text::{decimal, decimal_string};

verus! {

/// Day: votes are open. Twilight: the elimination vote is resolved, the night is next.
#[derive(Clone, Copy, Debug, PartialEq, Eq, Structural)]
pub enum PhaseOfDay {
    Day,
    Twilight,
}

/// A mailbox as date, source and content of each message, oldest first.
pub open spec fn mailbox(p: Player) -> Seq<(u32, Seq<char>, Seq<char>)> {
    p.messages@.map_values(|m: Message| m@)
}

/// `after` is `before` with `extra` appended to its mailbox, and nothing else changed.
#[verifier::opaque]
pub open spec fn receives(before: Player, after: Player, extra: Seq<(u32, Seq<char>, Seq<char>)>) -> bool {
    &&& after == (Player { messages: after.messages, ..before })
    &&& mailbox(after) == mailbox(before) + extra
}

/// Each player's id is its position in the list.
pub open spec fn ids_match(players: Seq<Player>) -> bool {
    forall|i: int| 0 <= i < players.len() ==> #[trigger] players[i].id.id == i
}

/// Within a well-formed game no two players share an id.
pub proof fn lemma_ids_unique(game: GameStatus, i: int, j: int)
    requires
        game.wf(),
        0 <= i < game.players@.len(),
        0 <= j < game.players@.len(),
        game.players@[i].id == game.players@[j].id,
    ensures
        i == j,
{
    assert(game.players@[i].id.id == i);
    assert(game.players@[j].id.id == j);
}

/// A new turn, as `prepare_new_turn` makes it, keeps each player's id, key,
/// name and role, and leaves every player without selection, login,
/// paralysis or spy observation, whatever the previous turn left.
pub proof fn lemma_new_turn(before: Seq<Player>, after: Seq<Player>)
    requires
        after.len() == before.len(),
        forall|i: int| 0 <= i < before.len() ==> #[trigger] after[i] == before[i].turn_reset(),
    ensures
        forall|i: int| 0 <= i < after.len() ==> {
            let p = #[trigger] after[i];
            &&& p.id == before[i].id
            &&& p.key == before[i].key
            &&& p.name == before[i].name
            &&& p.role == before[i].role
            &&& p.actions@ == Map::<ActionType, PlayerId>::empty()
            &&& !p.has_connected_today
            &&& !p.paralyzed
            &&& p.spy_info.is_clear()
        },
{
    assert forall|i: int| 0 <= i < after.len() implies {
        let p = #[trigger] after[i];
        &&& p.id == before[i].id
        &&& p.key == before[i].key
        &&& p.name == before[i].name
        &&& p.role == before[i].role
        &&& p.actions@ == Map::<ActionType, PlayerId>::empty()
        &&& !p.has_connected_today
        &&& !p.paralyzed
        &&& p.spy_info.is_clear()
    } by {
        crate::player::lemma_turn_reset_clears(before[i]);
    }
}

/// Every registered selection designates a player of the list.
pub open spec fn targets_valid(players: Seq<Player>) -> bool {
    forall|i: int, a: ActionType| 0 <= i < players.len() && #[trigger] players[i].actions@.contains_key(a)
        ==> players[i].actions@[a].id < players.len()
}

/// The living players, in order.
pub open spec fn living_players(players: Seq<Player>) -> Seq<Player> {
    players.filter(|p: Player| p.alive)
}

/// The living infected players, in order.
pub open spec fn living_mutants(players: Seq<Player>) -> Seq<Player> {
    players.filter(|p: Player| p.alive && p.infected)
}

/// The role whose messages a hacker can intercept, by the source they carry.
pub open spec fn hacked_role(source: Seq<char>) -> Option<Role> {
    if source == diagnostic_system() {
        Some(Role::ITEngineer)
    } else if source == genetics_tool() {
        Some(Role::Geneticist)
    } else if source == surveillance_tool() {
        Some(Role::Spy)
    } else {
        None
    }
}

/// The sources that no hacker can intercept.
pub proof fn lemma_plain_sources()
    ensures
        hacked_role(crate::message::overmind()) is None,
        hacked_role(crate::message::self_diagnosis()) is None,
        hacked_role(crate::message::medical_team()) is None,
        hacked_role(crate::message::central_computer()) is None,
        hacked_role(crate::message::psychology_tool()) is None,
{
    reveal_strlit("Overmind");
    reveal_strlit("Outil d'auto diagnostique");
    reveal_strlit("Équipe médicale");
    reveal_strlit("Ordinateur Central");
    reveal_strlit("Freud GPT");
    reveal_strlit("Système de diagnostique");
    reveal_strlit("GenoTech v0.17");
    reveal_strlit("Stalker IV");
    assert(crate::message::overmind().len() != diagnostic_system().len());
    assert(crate::message::overmind().len() != genetics_tool().len());
    assert(crate::message::overmind().len() != surveillance_tool().len());
    assert(crate::message::self_diagnosis().len() != diagnostic_system().len());
    assert(crate::message::self_diagnosis().len() != genetics_tool().len());
    assert(crate::message::self_diagnosis().len() != surveillance_tool().len());
    assert(crate::message::medical_team().len() != diagnostic_system().len());
    assert(crate::message::medical_team().len() != genetics_tool().len());
    assert(crate::message::medical_team().len() != surveillance_tool().len());
    assert(crate::message::central_computer().len() != diagnostic_system().len());
    assert(crate::message::central_computer().len() != genetics_tool().len());
    assert(crate::message::central_computer().len() != surveillance_tool().len());
    assert(crate::message::psychology_tool().len() != diagnostic_system().len());
    assert(crate::message::psychology_tool().len() != genetics_tool().len());
    assert(crate::message::psychology_tool()[0] != surveillance_tool()[0]);
}

/// `p` is a living hacker who gets a copy of the messages sent by `source`.
pub open spec fn intercepts(p: Player, source: Seq<char>) -> bool {
    &&& p.alive
    &&& p.role == Role::Hacker
    &&& hacked_role(source) is Some
    &&& p.hacker_target == hacked_role(source)
}

/// What sending `m` to player number `target` adds to the mailbox of `p`, at position `i`.
pub open spec fn sent_extra(p: Player, i: int, target: int, m: (u32, Seq<char>, Seq<char>)) -> Seq<(u32, Seq<char>, Seq<char>)> {
    (if intercepts(p, m.1) { seq![(m.0, "Hacked "@ + m.1, m.2)] } else { Seq::empty() })
        + (if i == target { seq![m] } else { Seq::empty() })
}

pub proof fn lemma_receives_trans(a: Player, b: Player, c: Player, x: Seq<(u32, Seq<char>, Seq<char>)>, y: Seq<(u32, Seq<char>, Seq<char>)>)
    requires
        receives(a, b, x),
        receives(b, c, y),
    ensures
        receives(a, c, x + y),
{
    reveal(receives);
    assert(mailbox(a) + x + y =~= mailbox(a) + (x + y));
}

pub proof fn lemma_receives_unfold(a: Player, b: Player, x: Seq<(u32, Seq<char>, Seq<char>)>)
    requires
        receives(a, b, x),
    ensures
        b == (Player { messages: b.messages, ..a }),
        mailbox(b) == mailbox(a) + x,
{
    reveal(receives);
}

pub proof fn lemma_receives_intro(a: Player, b: Player, x: Seq<(u32, Seq<char>, Seq<char>)>)
    requires
        b == (Player { messages: b.messages, ..a }),
        mailbox(b) == mailbox(a) + x,
    ensures
        receives(a, b, x),
{
    reveal(receives);
}

pub proof fn lemma_receives_nothing(a: Player)
    ensures
        receives(a, a, Seq::empty()),
{
    reveal(receives);
    assert(mailbox(a) + Seq::empty() =~= mailbox(a));
}

/// `after` is `before` with `m` appended to its mailbox when it is living and
/// `predicate` selects it, and unchanged otherwise; `predicate` is only asked
/// about living players.
pub open spec fn delivered_if<F: Fn(&Player) -> bool>(before: Player, after: Player, m: (u32, Seq<char>, Seq<char>), predicate: F) -> bool {
    if before.alive {
        exists|b: bool| predicate.ensures((&before,), b)
            && receives(before, after, if b { seq![m] } else { Seq::empty() })
    } else {
        receives(before, after, Seq::empty())
    }
}

/// Relies on the system clock: seconds since the Unix epoch, a token that tells
/// games apart.
#[verifier::external_body]
fn creation_token() -> u64 {
    std::time::SystemTime::now().duration_since(std::time::UNIX_EPOCH).map_or(0, |d| d.as_secs())
}

/// The authoritative state of one game.
#[derive(Debug)]
pub struct GameStatus {
    pub creation: u64,
    pub name: String,
    pub date: u32,
    pub players: Vec<Player>,
    pub current_player_id: Option<PlayerId>,
    pub debug: bool,
    pub phase: PhaseOfDay,
}

/// Appends `m` to the mailbox of each player, or only of the living infected ones.
fn deliver_to_all(players: &mut Vec<Player>, m: &Message, mutants_only: bool)
    ensures
        final(players)@.len() == old(players)@.len(),
        forall|i: int| 0 <= i < old(players)@.len() ==> receives(
            #[trigger] old(players)@[i],
            final(players)@[i],
            if !mutants_only || (old(players)@[i].alive && old(players)@[i].infected) {
                seq![m@]
            } else {
                Seq::empty()
            },
        ),
{
    reveal(receives);
    let mut i: usize = 0;
    while i < players.len()
        invariant
            i <= players.len(),
            players@.len() == old(players)@.len(),
            forall|j: int| 0 <= j < i ==> receives(
                #[trigger] old(players)@[j],
                players@[j],
                if !mutants_only || (old(players)@[j].alive && old(players)@[j].infected) {
                    seq![m@]
                } else {
                    Seq::empty()
                },
            ),
            forall|j: int| i <= j < players@.len() ==> players@[j] == old(players)@[j],
        decreases players.len() - i,
    {
        reveal(receives);
        let ghost before = players@[i as int];
        if !mutants_only || (players[i].alive && players[i].infected) {
            players[i].send_message(m.clone());
            assert(mailbox(players@[i as int]) =~= mailbox(before) + seq![m@]);
        } else {
            proof { lemma_receives_nothing(before); }
        }
        i = i + 1;
    }
}

/// The role whose messages carry `source`, for interception.
fn hacked_role_of(source: &String) -> (r: Option<Role>)
    ensures
        r == hacked_role(source@),
{
    let it = String::from_str("Système de diagnostique");
    let genetics = String::from_str("GenoTech v0.17");
    let surveillance = String::from_str("Stalker IV");
    if *source == it {
        Some(Role::ITEngineer)
    } else if *source == genetics {
        Some(Role::Geneticist)
    } else if *source == surveillance {
        Some(Role::Spy)
    } else {
        None
    }
}

/// Appends `copy` to the mailbox of each living hacker whose target is `hacked`.
fn deliver_to_hackers(players: &mut Vec<Player>, hacked: Option<Role>, copy: &Message)
    ensures
        final(players)@.len() == old(players)@.len(),
        forall|i: int| 0 <= i < old(players)@.len() ==> receives(
            #[trigger] old(players)@[i],
            final(players)@[i],
            if hacked is Some && old(players)@[i].alive && old(players)@[i].role == Role::Hacker
                && old(players)@[i].hacker_target == hacked {
                seq![copy@]
            } else {
                Seq::empty()
            },
        ),
{
    reveal(receives);
    let mut i: usize = 0;
    while i < players.len()
        invariant
            i <= players.len(),
            players@.len() == old(players)@.len(),
            forall|j: int| 0 <= j < i ==> receives(
                #[trigger] old(players)@[j],
                players@[j],
                if hacked is Some && old(players)@[j].alive && old(players)@[j].role == Role::Hacker
                    && old(players)@[j].hacker_target == hacked {
                    seq![copy@]
                } else {
                    Seq::empty()
                },
            ),
            forall|j: int| i <= j < players@.len() ==> players@[j] == old(players)@[j],
        decreases players.len() - i,
    {
        reveal(receives);
        let ghost before = players@[i as int];
        let hit = match hacked {
            Some(role) => players[i].alive && players[i].role == Role::Hacker && players[i].hacker_target == Some(role),
            None => false,
        };
        if hit {
            players[i].send_message(copy.clone());
            assert(mailbox(players@[i as int]) =~= mailbox(before) + seq![copy@]);
        } else {
            proof { lemma_receives_nothing(before); }
        }
        i = i + 1;
    }
}

/// Delivers a message to `target`; every living hacker aiming at the role
/// that `source` belongs to gets a copy marked as intercepted.
pub fn send_to(players: &mut Vec<Player>, date: u32, target: PlayerId, source: String, content: String)
    requires
        target.id < old(players)@.len(),
    ensures
        final(players)@.len() == old(players)@.len(),
        forall|i: int| 0 <= i < old(players)@.len() ==> receives(
            #[trigger] old(players)@[i],
            final(players)@[i],
            sent_extra(old(players)@[i], i, target.id as int, (date, source@, content@)),
        ),
{
    let current_date = date;
    let ghost m = (current_date, source@, content@);
    let hacked = hacked_role_of(&source);
    let mut hacked_source = String::from_str("Hacked ");
    hacked_source.append(source.as_str());
    let copy = Message { date: current_date, source: hacked_source, content: content.clone() };
    deliver_to_hackers(players, hacked, &copy);
    let ghost mid = players@;
    players[target.id].send_message(Message { date: current_date, source, content });
    proof {
        assert(copy@ == (m.0, "Hacked "@ + m.1, m.2));
        assert forall|i: int| 0 <= i < old(players)@.len() implies receives(
            #[trigger] old(players)@[i],
            players@[i],
            sent_extra(old(players)@[i], i, target.id as int, m),
        ) by {
            let hx = if intercepts(old(players)@[i], m.1) { seq![copy@] } else { Seq::empty() };
            if i == target.id {
                assert(mailbox(players@[i]) =~= mailbox(mid[i]) + seq![m]);
                lemma_receives_intro(mid[i], players@[i], seq![m]);
                lemma_receives_trans(old(players)@[i], mid[i], players@[i], hx, seq![m]);
            } else {
                assert(hx + Seq::empty() =~= hx);
            }
        }
    }
}

impl GameStatus {
    /// Every id is valid and designates the player at that position.
    pub open spec fn wf(self) -> bool {
        ids_match(self.players@) && targets_valid(self.players@)
    }

    /// The day can end once every living player has logged in today, or at
    /// once when debugging.
    pub fn day_can_end(&self) -> (r: bool)
        ensures
            r == (self.debug || forall|i: int| 0 <= i < self.players@.len() && #[trigger] self.players@[i].alive
                ==> self.players@[i].has_connected_today),
    {
        if self.debug {
            return true;
        }
        let mut i: usize = 0;
        while i < self.players.len()
            invariant
                i <= self.players@.len(),
                !self.debug,
                forall|j: int| 0 <= j < i && #[trigger] self.players@[j].alive ==> self.players@[j].has_connected_today,
            decreases self.players.len() - i,
        {
            if self.players[i].alive && !self.players[i].has_connected_today {
                return false;
            }
            i = i + 1;
        }
        true
    }

    /// Tells whether the game is well formed.
    pub fn is_well_formed(&self) -> (r: bool)
        ensures
            r == self.wf(),
    {
        let n = self.players.len();
        let mut i: usize = 0;
        while i < n
            invariant
                i <= n,
                n == self.players@.len(),
                forall|j: int| 0 <= j < i ==> #[trigger] self.players@[j].id.id == j,
                forall|j: int, a: ActionType| 0 <= j < i && #[trigger] self.players@[j].actions@.contains_key(a)
                    ==> self.players@[j].actions@[a].id < n,
            decreases n - i,
        {
            if self.players[i].id.id != i || !self.players[i].actions.all_below(n) {
                return false;
            }
            i = i + 1;
        }
        true
    }

    /// `id` designates a player of this game.
    pub open spec fn valid_id(self, id: PlayerId) -> bool {
        id.id < self.players@.len()
    }

    /// Same game with other players (and nothing else changed).
    pub open spec fn with_players(self, players: Vec<Player>) -> GameStatus {
        GameStatus { players, ..self }
    }

    /// A new game on day 1, by day, with nobody logged in.
    pub fn new(name: String, players: Vec<Player>, debug: bool) -> (r: GameStatus)
        requires
            ids_match(players@),
            targets_valid(players@),
        ensures
            r.wf(),
            r.name == name,
            r.players == players,
            r.debug == debug,
            r.date == 1,
            r.phase == PhaseOfDay::Day,
            r.current_player_id is None,
    {
        GameStatus {
            creation: creation_token(),
            name,
            players,
            current_player_id: None,
            debug,
            date: 1,
            phase: PhaseOfDay::Day,
        }
    }

    /// A game read back from a backup, with a fresh creation token.
    pub fn restore_from_backup(restored: GameStatus) -> (r: GameStatus)
        ensures
            r == (GameStatus { creation: r.creation, ..restored }),
    {
        let mut game = restored;
        game.creation = creation_token();
        game
    }

    /// Name of the backup file of the current day, under the directory prefix `path`.
    pub fn backup_file_name(&self, path: &str) -> (r: String)
        ensures
            r@ == path@ + "sporz-"@ + self.name@ + "-"@ + decimal(self.creation as nat) + "-day-"@
                + decimal(self.date as nat),
    {
        let mut r = path.to_string();
        r.append("sporz-");
        r.append(self.name.as_str());
        r.append("-");
        r.append(decimal_string(self.creation).as_str());
        r.append("-day-");
        r.append(decimal_string(self.date as u64).as_str());
        r
    }

    pub fn debug(&self) -> (r: bool)
        ensures
            r == self.debug,
    {
        self.debug
    }

    pub fn get_name(&self) -> (r: &str)
        ensures
            r@ == self.name@,
    {
        self.name.as_str()
    }

    pub fn get_date(&self) -> (r: u32)
        ensures
            r == self.date,
    {
        self.date
    }

    pub fn get_phase_of_day(&self) -> (r: &PhaseOfDay)
        ensures
            *r == self.phase,
    {
        &self.phase
    }

    pub fn set_phase_of_day(&mut self, phase: PhaseOfDay)
        ensures
            *final(self) == (GameStatus { phase, ..*old(self) }),
    {
        self.phase = phase;
    }

    pub fn get_current_player_id(&self) -> (r: Option<PlayerId>)
        ensures
            r == self.current_player_id,
    {
        self.current_player_id
    }

    pub fn set_current_player_id(&mut self, player: Option<PlayerId>)
        ensures
            *final(self) == (GameStatus { current_player_id: player, ..*old(self) }),
    {
        self.current_player_id = player;
    }

    /// The id of the first player whose secret key is `key`, if any.
    pub fn get_player_id_from_key(&self, key: String) -> (r: Option<PlayerId>)
        requires
            self.wf(),
        ensures
            r is None <==> forall|i: int| 0 <= i < self.players@.len() ==> #[trigger] self.players@[i].key@ != key@,
            r is Some ==> {
                &&& self.valid_id(r.unwrap())
                &&& self.players@[r.unwrap().id as int].key@ == key@
                &&& forall|j: int| 0 <= j < r.unwrap().id ==> #[trigger] self.players@[j].key@ != key@
            },
    {
        let mut i: usize = 0;
        while i < self.players.len()
            invariant
                i <= self.players@.len(),
                self.wf(),
                forall|j: int| 0 <= j < i ==> #[trigger] self.players@[j].key@ != key@,
            decreases self.players.len() - i,
        {
            if self.players[i].key == key {
                assert(self.players@[i as int].id.id == i);
                return Some(self.players[i].id);
            }
            i = i + 1;
        }
        None
    }

    pub fn get_player(&self, id: PlayerId) -> (r: &Player)
        requires
            self.valid_id(id),
        ensures
            *r == self.players@[id.id as int],
    {
        id.get_player(&self.players)
    }

    pub fn get_mut_player(&mut self, id: PlayerId) -> (r: &mut Player)
        requires
            old(self).valid_id(id),
        ensures
            *r == old(self).players@[id.id as int],
            final(self).players@ == old(self).players@.update(id.id as int, *final(r)),
            *final(self) == old(self).with_players(final(self).players),
    {
        id.get_mut_player(&mut self.players)
    }

    /// All players, dead ones included.
    pub fn get_all_players(&self) -> (r: &Vec<Player>)
        ensures
            *r == self.players,
    {
        &self.players
    }

    /// The living players, in order.
    pub fn get_players(&self) -> (r: Vec<&Player>)
        ensures
            r@.map_values(|p: &Player| *p) == living_players(self.players@),
    {
        let mut r: Vec<&Player> = Vec::new();
        let mut i: usize = 0;
        while i < self.players.len()
            invariant
                i <= self.players@.len(),
                r@.map_values(|p: &Player| *p) == living_players(self.players@.take(i as int)),
            decreases self.players.len() - i,
        {
            proof {
                assert(self.players@.take(i + 1) =~= self.players@.take(i as int).push(self.players@[i as int]));
                self.players@.take(i as int).lemma_filter_push(self.players@[i as int], |p: Player| p.alive);
            }
            if self.players[i].alive {
                r.push(&self.players[i]);
            }
            assert(r@.map_values(|p: &Player| *p) =~= living_players(self.players@.take(i + 1)));
            i = i + 1;
        }
        assert(self.players@.take(self.players@.len() as int) =~= self.players@);
        r
    }

    /// The living infected players, in order.
    pub fn get_living_mutants(&self) -> (r: Vec<&Player>)
        ensures
            r@.map_values(|p: &Player| *p) == living_mutants(self.players@),
    {
        let mut r: Vec<&Player> = Vec::new();
        let mut i: usize = 0;
        while i < self.players.len()
            invariant
                i <= self.players@.len(),
                r@.map_values(|p: &Player| *p) == living_mutants(self.players@.take(i as int)),
            decreases self.players.len() - i,
        {
            proof {
                assert(self.players@.take(i + 1) =~= self.players@.take(i as int).push(self.players@[i as int]));
                self.players@.take(i as int).lemma_filter_push(self.players@[i as int], |p: Player| p.alive && p.infected);
            }
            if self.players[i].alive && self.players[i].infected {
                r.push(&self.players[i]);
            }
            assert(r@.map_values(|p: &Player| *p) =~= living_mutants(self.players@.take(i + 1)));
            i = i + 1;
        }
        assert(self.players@.take(self.players@.len() as int) =~= self.players@);
        r
    }

    /// Ids of the living players that hold `role`, in order.
    pub fn get_player_ids_with_role(&self, role: Role) -> (r: Vec<PlayerId>)
        requires
            self.wf(),
        ensures
            forall|k: int| 0 <= k < r@.len() ==> {
                &&& self.valid_id(#[trigger] r@[k])
                &&& self.players@[r@[k].id as int].alive
                &&& self.players@[r@[k].id as int].role == role
            },
            forall|i: int| 0 <= i < self.players@.len() && self.players@[i].alive && self.players@[i].role == role
                ==> r@.contains(PlayerId { id: i as usize }),
            forall|k: int, l: int| 0 <= k < l < r@.len() ==> r@[k].id < r@[l].id,
    {
        let mut r: Vec<PlayerId> = Vec::new();
        let mut i: usize = 0;
        while i < self.players.len()
            invariant
                i <= self.players@.len(),
                self.wf(),
                forall|k: int| 0 <= k < r@.len() ==> {
                    &&& self.valid_id(#[trigger] r@[k])
                    &&& r@[k].id < i
                    &&& self.players@[r@[k].id as int].alive
                    &&& self.players@[r@[k].id as int].role == role
                },
                forall|j: int| 0 <= j < i && self.players@[j].alive && self.players@[j].role == role
                    ==> r@.contains(PlayerId { id: j as usize }),
                forall|k: int, l: int| 0 <= k < l < r@.len() ==> r@[k].id < r@[l].id,
            decreases self.players.len() - i,
        {
            if self.players[i].alive && self.players[i].role == role {
                let ghost old_r = r@;
                r.push(PlayerId { id: i });
                proof {
                    assert forall|j: int| 0 <= j < i + 1 && self.players@[j].alive && self.players@[j].role == role
                        implies r@.contains(PlayerId { id: j as usize }) by {
                        if j < i {
                            let k = choose|k: int| 0 <= k < old_r.len() && old_r[k] == PlayerId { id: j as usize };
                            assert(r@[k] == PlayerId { id: j as usize });
                        } else {
                            assert(r@[r@.len() - 1] == PlayerId { id: j as usize });
                        }
                    }
                }
            }
            i = i + 1;
        }
        r
    }

    /// Ids of the living players who have not logged in today, in order: the
    /// day cannot end before they have.
    pub fn missing_players(&self) -> (r: Vec<PlayerId>)
        requires
            self.wf(),
        ensures
            forall|k: int| 0 <= k < r@.len() ==> {
                &&& self.valid_id(#[trigger] r@[k])
                &&& self.players@[r@[k].id as int].alive
                &&& !self.players@[r@[k].id as int].has_connected_today
            },
            forall|i: int| 0 <= i < self.players@.len() && self.players@[i].alive && !self.players@[i].has_connected_today
                ==> r@.contains(PlayerId { id: i as usize }),
            forall|k: int, l: int| 0 <= k < l < r@.len() ==> r@[k].id < r@[l].id,
    {
        let mut r: Vec<PlayerId> = Vec::new();
        let mut i: usize = 0;
        while i < self.players.len()
            invariant
                i <= self.players@.len(),
                self.wf(),
                forall|k: int| 0 <= k < r@.len() ==> {
                    &&& self.valid_id(#[trigger] r@[k])
                    &&& r@[k].id < i
                    &&& self.players@[r@[k].id as int].alive
                    &&& !self.players@[r@[k].id as int].has_connected_today
                },
                forall|j: int| 0 <= j < i && self.players@[j].alive && !self.players@[j].has_connected_today
                    ==> r@.contains(PlayerId { id: j as usize }),
                forall|k: int, l: int| 0 <= k < l < r@.len() ==> r@[k].id < r@[l].id,
            decreases self.players.len() - i,
        {
            if self.players[i].alive && !self.players[i].has_connected_today {
                let ghost old_r = r@;
                r.push(PlayerId { id: i });
                proof {
                    assert forall|j: int| 0 <= j < i + 1 && self.players@[j].alive && !self.players@[j].has_connected_today
                        implies r@.contains(PlayerId { id: j as usize }) by {
                        if j < i {
                            let k = choose|k: int| 0 <= k < old_r.len() && old_r[k] == PlayerId { id: j as usize };
                            assert(r@[k] == PlayerId { id: j as usize });
                        } else {
                            assert(r@[r@.len() - 1] == PlayerId { id: j as usize });
                        }
                    }
                }
            }
            i = i + 1;
        }
        r
    }

    /// Delivers a message to `target`; every living hacker aiming at the role
    /// that `source` belongs to gets a copy marked as intercepted.
    pub fn send_message(&mut self, target: PlayerId, source: String, content: String)
        requires
            old(self).valid_id(target),
        ensures
            *final(self) == old(self).with_players(final(self).players),
            final(self).players@.len() == old(self).players@.len(),
            forall|i: int| 0 <= i < old(self).players@.len() ==> receives(
                #[trigger] old(self).players@[i],
                final(self).players@[i],
                sent_extra(old(self).players@[i], i, target.id as int, (old(self).date, source@, content@)),
            ),
    {
        send_to(&mut self.players, self.date, target, source, content);
    }

    /// Appends `message` to every mailbox, the dead players' included.
    pub fn broadcast(&mut self, message: Message)
        ensures
            *final(self) == old(self).with_players(final(self).players),
            final(self).players@.len() == old(self).players@.len(),
            forall|i: int| 0 <= i < old(self).players@.len() ==> receives(
                #[trigger] old(self).players@[i],
                final(self).players@[i],
                seq![message@],
            ),
    {
        deliver_to_all(&mut self.players, &message, false);
    }

    /// Appends `message` to the mailbox of each living player for whom
    /// `predicate` holds.
    pub fn limited_broadcast<F: Fn(&Player) -> bool>(&mut self, message: Message, predicate: F)
        requires
            forall|p: &Player| #[trigger] predicate.requires((p,)),
        ensures
            *final(self) == old(self).with_players(final(self).players),
            final(self).players@.len() == old(self).players@.len(),
            forall|i: int| 0 <= i < old(self).players@.len() ==> #[trigger] delivered_if(
                old(self).players@[i],
                final(self).players@[i],
                message@,
                predicate,
            ),
    {
        let mut i: usize = 0;
        while i < self.players.len()
            invariant
                i <= self.players@.len(),
                self.players@.len() == old(self).players@.len(),
                *self == old(self).with_players(self.players),
                forall|p: &Player| #[trigger] predicate.requires((p,)),
                forall|j: int| 0 <= j < i ==> #[trigger] delivered_if(old(self).players@[j], self.players@[j], message@, predicate),
                forall|j: int| i <= j < self.players@.len() ==> self.players@[j] == old(self).players@[j],
            decreases self.players.len() - i,
        {
            let ghost before = self.players@[i as int];
            if self.players[i].alive {
                let chosen = predicate(&self.players[i]);
                if chosen {
                    self.players[i].send_message(message.clone());
                    proof {
                        assert(mailbox(self.players@[i as int]) =~= mailbox(before) + seq![message@]);
                        lemma_receives_intro(before, self.players@[i as int], seq![message@]);
                    }
                } else {
                    proof { lemma_receives_nothing(before); }
                }
                assert(predicate.ensures((&before,), chosen));
            } else {
                proof { lemma_receives_nothing(before); }
            }
            assert(delivered_if(before, self.players@[i as int], message@, predicate));
            i = i + 1;
        }
    }

    /// Appends `message` to the mailbox of each living infected player.
    pub fn broadcast_to_mutants(&mut self, message: Message)
        ensures
            *final(self) == old(self).with_players(final(self).players),
            final(self).players@.len() == old(self).players@.len(),
            forall|i: int| 0 <= i < old(self).players@.len() ==> receives(
                #[trigger] old(self).players@[i],
                final(self).players@[i],
                if old(self).players@[i].alive && old(self).players@[i].infected { seq![message@] } else { Seq::empty() },
            ),
    {
        deliver_to_all(&mut self.players, &message, true);
    }

    /// Starts the next day: each player's turn data is cleared, the date
    /// advances and the phase is day again.
    pub fn prepare_new_turn(&mut self)
        requires
            old(self).date < u32::MAX,
        ensures
            *final(self) == (GameStatus {
                players: final(self).players,
                date: (old(self).date + 1) as u32,
                phase: PhaseOfDay::Day,
                ..*old(self)
            }),
            final(self).players@.len() == old(self).players@.len(),
            forall|i: int| 0 <= i < old(self).players@.len() ==>
                #[trigger] final(self).players@[i] == old(self).players@[i].turn_reset(),
    {
        let mut i: usize = 0;
        while i < self.players.len()
            invariant
                i <= self.players@.len(),
                self.players@.len() == old(self).players@.len(),
                *self == old(self).with_players(self.players),
                forall|j: int| 0 <= j < i ==> #[trigger] self.players@[j] == old(self).players@[j].turn_reset(),
                forall|j: int| i <= j < self.players@.len() ==> self.players@[j] == old(self).players@[j],
            decreases self.players.len() - i,
        {
            self.players[i].prepare_new_turn();
            i = i + 1;
        }
        self.date = self.date + 1;
        self.phase = PhaseOfDay::Day;
    }

    /// Number of living infected players.
    pub fn count_living_mutants(&self) -> (r: usize)
        ensures
            r == living_mutants(self.players@).len(),
    {
        let mut mutants: usize = 0;
        let mut i: usize = 0;
        while i < self.players.len()
            invariant
                i <= self.players@.len(),
                mutants == living_mutants(self.players@.take(i as int)).len(),
                mutants <= i,
            decreases self.players.len() - i,
        {
            proof {
                let t = self.players@.take(i as int);
                assert(self.players@.take(i + 1) =~= t.push(self.players@[i as int]));
                t.lemma_filter_push(self.players@[i as int], |p: Player| p.alive && p.infected);
            }
            if self.players[i].alive && self.players[i].infected {
                mutants = mutants + 1;
            }
            i = i + 1;
        }
        assert(self.players@.take(self.players@.len() as int) =~= self.players@);
        mutants
    }

    /// The game is over when no living player is infected, or all of them are.
    pub fn ended(&self) -> (r: bool)
        ensures
            r == (living_mutants(self.players@).len() == 0
                || living_mutants(self.players@).len() == living_players(self.players@).len()),
    {
        let mut living: usize = 0;
        let mut mutants: usize = 0;
        let mut i: usize = 0;
        while i < self.players.len()
            invariant
                i <= self.players@.len(),
                living == living_players(self.players@.take(i as int)).len(),
                mutants == living_mutants(self.players@.take(i as int)).len(),
                living <= i,
                mutants <= i,
            decreases self.players.len() - i,
        {
            proof {
                let t = self.players@.take(i as int);
                assert(self.players@.take(i + 1) =~= t.push(self.players@[i as int]));
                t.lemma_filter_push(self.players@[i as int], |p: Player| p.alive);
                t.lemma_filter_push(self.players@[i as int], |p: Player| p.alive && p.infected);
            }
            if self.players[i].alive {
                living = living + 1;
                if self.players[i].infected {
                    mutants = mutants + 1;
                }
            }
            i = i + 1;
        }
        assert(self.players@.take(self.players@.len() as int) =~= self.players@);
        mutants == 0 || mutants == living
    }
}

} // verus!
