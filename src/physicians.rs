use vstd::prelude::*;
use vstd::string::StringExecFns;
use crate::action::ActionType;
use crate::game::{GameStatus, ids_match, targets_valid, mailbox};
use crate::mail::Note;
use crate::message::{medical_team, overmind, self_diagnosis};
use crate::message::Message;
use crate::player::{Player, PlayerId, SpyData};
use crate::role::Role;
use crate::text::{join_strings, joined};

verus! {

/// A living physician.
pub open spec fn physician(p: Player) -> bool {
    p.alive && p.role == Role::Physician
}

/// A living physician, neither infected nor paralyzed, who takes part in the care.
pub open spec fn active_physician(p: Player) -> bool {
    physician(p) && !p.infected && !p.paralyzed
}

/// A living physician kept out of the care by infection or paralysis.
pub open spec fn disabled_physician(p: Player) -> bool {
    physician(p) && (p.infected || p.paralyzed)
}

/// Ids of the disabled physicians among the first `n` players, in order.
pub open spec fn disabled_ids(s: Seq<Player>, n: int) -> Seq<PlayerId>
    decreases n,
{
    if n <= 0 {
        Seq::empty()
    } else {
        disabled_ids(s, n - 1) + if disabled_physician(s[n - 1]) { seq![PlayerId { id: (n - 1) as usize }] } else { Seq::empty() }
    }
}

/// The players cured by the active physicians from position `k` on, while
/// `stack` holds the disabled colleagues not yet claimed: one who delegates
/// to auto-cure takes the last of them, else their own chosen target.
pub open spec fn cures_from(s: Seq<Player>, k: int, stack: Seq<PlayerId>) -> Seq<PlayerId>
    decreases s.len() - k,
{
    if k < 0 || k >= s.len() {
        Seq::empty()
    } else if active_physician(s[k]) && s[k].auto_cure_physician && stack.len() > 0 {
        seq![stack.last()] + cures_from(s, k + 1, stack.drop_last())
    } else if active_physician(s[k]) && s[k].actions@.contains_key(ActionType::Cure) {
        seq![s[k].actions@[ActionType::Cure]] + cures_from(s, k + 1, stack)
    } else {
        cures_from(s, k + 1, stack)
    }
}

/// Everyone the physicians treat this night, in order, repeats included.
pub open spec fn cure_list(s: Seq<Player>) -> Seq<PlayerId> {
    cures_from(s, 0, disabled_ids(s, s.len() as int))
}

/// A treatment of `p` works: infected, neither the index case nor a host.
pub open spec fn curable(p: Player) -> bool {
    p.infected && p.role != Role::Patient0 && !p.host
}

/// `p` after the care, woken when `woke`, cured when `cured`; mail aside.
pub open spec fn cared(p: Player, woke: bool, cured: bool) -> Player {
    Player {
        infected: p.infected && !cured,
        spy_info: SpyData {
            woke_up: p.spy_info.woke_up || woke,
            was_cured: p.spy_info.was_cured || cured,
            ..p.spy_info
        },
        ..p
    }
}

/// Positions of the active physicians among the first `n` players, in order.
pub open spec fn active_ids(s: Seq<Player>, n: int) -> Seq<PlayerId>
    decreases n,
{
    if n <= 0 {
        Seq::empty()
    } else {
        active_ids(s, n - 1) + if active_physician(s[n - 1]) { seq![PlayerId { id: (n - 1) as usize }] } else { Seq::empty() }
    }
}

/// `m` once for each time player number `j` appears in `ids`.
pub open spec fn notes_to(ids: Seq<PlayerId>, j: int, m: Note) -> Seq<Note>
    decreases ids.len(),
{
    if ids.len() == 0 {
        Seq::empty()
    } else {
        notes_to(ids.drop_last(), j, m) + if ids.last().id == j { seq![m] } else { Seq::empty() }
    }
}

/// Why a disabled physician `p` did not take part in the care.
pub open spec fn disabled_text(p: Player) -> Seq<char> {
    if p.infected {
        "Vous êtes infecté·e, vous n'avez donc pas participé aux soins"@
    } else {
        "Vous avez été·e paralysé·e pendant la nuit, vous n'avez donc pu participer aux soins"@
    }
}

/// The outcome notice of a treatment of `p`; `again` when an earlier
/// treatment this night already cured it.
pub open spec fn treatment_note(p: Player, again: bool, date: u32) -> Note {
    if p.role == Role::Patient0 {
        (date, medical_team(), "Vous avez soigné par un traitement par irradiation intense cette nuit, mais la mutation est trop avancée chez vous, cela a échoué"@)
    } else if !p.infected || again {
        (date, medical_team(), "Vous avez été soigné par un traitement anti-mutation cette nuit, bien qu'il n'y ait eu aucune trace de mutations dans votre corps"@)
    } else if p.host {
        (date, overmind(), "L'équipe médicale vous a administré un traitement anti-mutation cette nuit, mais votre génome semble résistant au traitement. Félicitations ;-)"@)
    } else {
        (date, medical_team(), "Vous avez été soigné par un traitement par irradiation intense cette nuit, qui vous à débarrassé de toute trace de mutation"@)
    }
}

/// The outcome notices that player number `j` of `s` receives for the
/// treatments `cures`, in order.
pub open spec fn treatment_notes(s: Seq<Player>, cures: Seq<PlayerId>, j: int, date: u32) -> Seq<Note>
    decreases cures.len(),
{
    if cures.len() == 0 {
        Seq::empty()
    } else {
        treatment_notes(s, cures.drop_last(), j, date) + if cures.last().id == j {
            seq![treatment_note(s[j], cures.drop_last().contains(PlayerId { id: j as usize }) && curable(s[j]), date)]
        } else {
            Seq::empty()
        }
    }
}

/// The names of the players at `ids` in `s`, in order.
pub open spec fn names_of(s: Seq<Player>, ids: Seq<PlayerId>) -> Seq<Seq<char>> {
    ids.map_values(|id: PlayerId| s[id.id as int].name@)
}

/// The care summary: the active team, then everyone treated, repeats kept.
pub open spec fn summary_text(s: Seq<Player>) -> Seq<char> {
    "L'équipe médicale opérationelle de la nuit précédente ("@ + joined(names_of(s, active_ids(s, s.len() as int)), " "@)
        + ") est parvenue à soigner: ["@ + joined(names_of(s, cure_list(s)), " "@) + "]"@
}

/// The names of the players at `ids`, in order.
fn names_at(players: &Vec<Player>, ids: &Vec<PlayerId>) -> (r: Vec<String>)
    requires
        forall|k: int| 0 <= k < ids@.len() ==> (#[trigger] ids@[k]).id < players@.len(),
    ensures
        r@.map_values(|x: String| x@) == names_of(players@, ids@),
{
    let mut r: Vec<String> = Vec::new();
    let mut k: usize = 0;
    while k < ids.len()
        invariant
            k <= ids@.len(),
            forall|l: int| 0 <= l < ids@.len() ==> (#[trigger] ids@[l]).id < players@.len(),
            r@.map_values(|x: String| x@) == names_of(players@, ids@.take(k as int)),
        decreases ids.len() - k,
    {
        let name = players[ids[k].id].name.clone();
        proof {
            lemma_names_push(r@, players@, ids@.take(k as int), ids@[k as int], name);
            assert(ids@.take(k as int).push(ids@[k as int]) =~= ids@.take(k + 1));
        }
        r.push(name);
        k = k + 1;
    }
    assert(ids@.take(ids@.len() as int) =~= ids@);
    r
}

proof fn lemma_names_push(names: Seq<String>, s: Seq<Player>, ids: Seq<PlayerId>, id: PlayerId, n: String)
    requires
        names.map_values(|x: String| x@) == names_of(s, ids),
        n@ == s[id.id as int].name@,
    ensures
        names.push(n).map_values(|x: String| x@) == names_of(s, ids.push(id)),
{
    assert(names.map_values(|x: String| x@).len() == names.len());
    assert(names_of(s, ids).len() == ids.len());
    assert forall|k: int| 0 <= k < names.len() + 1 implies (#[trigger] names.push(n)[k])@
        == names_of(s, ids.push(id))[k] by {
        if k < names.len() {
            assert(names.map_values(|x: String| x@)[k] == names_of(s, ids)[k]);
            assert(names.push(n)[k] == names[k]);
        }
    }
    assert(names.push(n).map_values(|x: String| x@) =~= names_of(s, ids.push(id)));
}

/// The summary that the active physicians receive, reading `c`.
pub open spec fn summary_note(date: u32, c: Seq<char>) -> Note {
    (date, medical_team(), c)
}

/// `b` is `a` but for its mailbox.
pub open spec fn same_but_mail(a: Player, b: Player) -> bool {
    b == (Player { messages: b.messages, ..a })
}

proof fn lemma_push_contains(s: Seq<PlayerId>, x: PlayerId, y: PlayerId)
    ensures
        s.push(x).contains(y) == (s.contains(y) || x == y),
{
    if s.contains(y) {
        let i = choose|i: int| 0 <= i < s.len() && s[i] == y;
        assert(s.push(x)[i] == y);
    }
    if x == y {
        assert(s.push(x)[s.len() as int] == y);
    }
    if s.push(x).contains(y) {
        let i = choose|i: int| 0 <= i < s.len() + 1 && s.push(x)[i] == y;
        if i < s.len() {
            assert(s[i] == y);
        }
    }
}

/// The disabled physicians and the list of treatments, as the care gathers them.
fn gather_cures(players: &Vec<Player>) -> (r: (Vec<PlayerId>, Vec<PlayerId>))
    requires
        ids_match(players@),
        targets_valid(players@),
    ensures
        r.0@ == disabled_ids(players@, players@.len() as int),
        forall|k: int| 0 <= k < r.0@.len() ==> (#[trigger] r.0@[k]).id < players@.len(),
        r.1@ == cure_list(players@),
        forall|k: int| 0 <= k < r.1@.len() ==> (#[trigger] r.1@[k]).id < players@.len(),
{
    let ghost s = players@;
    let mut disabled: Vec<PlayerId> = Vec::new();
    let mut i: usize = 0;
    while i < players.len()
        invariant
            i <= players@.len(),
            s == players@,
            disabled@ == disabled_ids(s, i as int),
            forall|k: int| 0 <= k < disabled@.len() ==> (#[trigger] disabled@[k]).id < s.len(),
        decreases players.len() - i,
    {
        if players[i].alive && players[i].role == Role::Physician && (players[i].infected || players[i].paralyzed) {
            disabled.push(PlayerId { id: i });
        }
        i = i + 1;
    }
    let ghost all_disabled = disabled@;
    let mut stack = disabled.clone();
    let mut cures: Vec<PlayerId> = Vec::new();
    let mut k: usize = 0;
    while k < players.len()
        invariant
            k <= players@.len(),
            s == players@,
            ids_match(s),
            targets_valid(s),
            cures@ + cures_from(s, k as int, stack@) == cures_from(s, 0, all_disabled),
            forall|l: int| 0 <= l < stack@.len() ==> (#[trigger] stack@[l]).id < s.len(),
            forall|l: int| 0 <= l < cures@.len() ==> (#[trigger] cures@[l]).id < s.len(),
        decreases players.len() - k,
    {
        let ghost before = cures@;
        let ghost st = stack@;
        if players[k].alive && players[k].role == Role::Physician && !players[k].infected && !players[k].paralyzed {
            if players[k].auto_cure_physician && stack.len() > 0 {
                let c = stack.pop().unwrap();
                cures.push(c);
                assert(before + cures_from(s, k as int, st) =~= cures@ + cures_from(s, k + 1, stack@));
            } else {
                match players[k].actions.get(&ActionType::Cure) {
                    Some(t) => {
                        cures.push(*t);
                        assert(before + cures_from(s, k as int, st) =~= cures@ + cures_from(s, k + 1, stack@));
                    },
                    None => {},
                }
            }
        }
        k = k + 1;
    }
    assert(cures@ + Seq::<PlayerId>::empty() =~= cures@);
    (disabled, cures)
}

/// The care phase. Each disabled physician is told why they could not take
/// part. Each active physician wakes up and treats either the last unclaimed
/// disabled colleague, when delegating to auto-cure, or their own target.
/// A treatment cures an infected player unless it is the index case or a
/// host; every treated player is told the outcome, and the active team gets
/// a summary naming its members and everyone treated.
#[verifier::rlimit(100)]
pub fn run_physicians_phase(game: &mut GameStatus) -> (r: Option<PlayerId>)
    requires
        old(game).wf(),
    ensures
        r is None,
        *final(game) == old(game).with_players(final(game).players),
        final(game).players@.len() == old(game).players@.len(),
        forall|j: int| 0 <= j < old(game).players@.len() ==> same_but_mail(
            cared(
                #[trigger] old(game).players@[j],
                active_physician(old(game).players@[j]),
                cure_list(old(game).players@).contains(PlayerId { id: j as usize }) && curable(old(game).players@[j]),
            ),
            final(game).players@[j],
        ),
        forall|j: int| 0 <= j < old(game).players@.len() ==> #[trigger] mailbox(final(game).players@[j])
            == mailbox(old(game).players@[j])
                + notes_to(disabled_ids(old(game).players@, old(game).players@.len() as int), j,
                    (old(game).date, self_diagnosis(), disabled_text(old(game).players@[j])))
                + treatment_notes(old(game).players@, cure_list(old(game).players@), j, old(game).date)
                + notes_to(active_ids(old(game).players@, old(game).players@.len() as int), j,
                    summary_note(old(game).date, summary_text(old(game).players@))),
{
    let ghost s = game.players@;
    let date = game.date;
    let (disabled, cures) = gather_cures(&game.players);
    let treated = names_at(&game.players, &cures);
    // notices to the disabled physicians
    let mut d: usize = 0;
    while d < disabled.len()
        invariant
            d <= disabled@.len(),
            game.players@.len() == s.len(),
            *game == old(game).with_players(game.players),
            s == old(game).players@,
            disabled@ == disabled_ids(s, s.len() as int),
            forall|k: int| 0 <= k < disabled@.len() ==> (#[trigger] disabled@[k]).id < s.len(),
            forall|j: int| 0 <= j < s.len() ==> same_but_mail(#[trigger] s[j], game.players@[j]),
            date == old(game).date,
            forall|j: int| 0 <= j < s.len() ==> #[trigger] mailbox(game.players@[j]) == mailbox(s[j])
                + notes_to(disabled@.take(d as int), j, (date, self_diagnosis(), disabled_text(s[j]))),
        decreases disabled.len() - d,
    {
        let ghost before = game.players@;
        let id = disabled[d].id;
        let content = if game.players[id].infected {
            String::from_str("Vous êtes infecté·e, vous n'avez donc pas participé aux soins")
        } else {
            String::from_str("Vous avez été·e paralysé·e pendant la nuit, vous n'avez donc pu participer aux soins")
        };
        game.players[id].send_message(Message { date, source: String::from_str("Outil d'auto diagnostique"), content });
        proof {
            assert(disabled@.take(d + 1).drop_last() =~= disabled@.take(d as int));
            assert forall|j: int| 0 <= j < s.len() implies #[trigger] mailbox(game.players@[j]) == mailbox(s[j])
                + notes_to(disabled@.take(d + 1), j, (date, self_diagnosis(), disabled_text(s[j]))) by {
                let n = (date, self_diagnosis(), disabled_text(s[j]));
                if j == id {
                    assert(mailbox(game.players@[j]) =~= mailbox(before[j]) + seq![n]);
                    assert(mailbox(s[j]) + notes_to(disabled@.take(d as int), j, n) + seq![n]
                        =~= mailbox(s[j]) + notes_to(disabled@.take(d + 1), j, n));
                } else {
                    assert(notes_to(disabled@.take(d + 1), j, n) =~= notes_to(disabled@.take(d as int), j, n));
                }
            }
        }
        d = d + 1;
    }
    assert(disabled@.take(disabled@.len() as int) =~= disabled@);
    let ghost after_notices = game.players@;
    // the active physicians wake up
    let mut team_ids: Vec<PlayerId> = Vec::new();
    let mut i: usize = 0;
    while i < game.players.len()
        invariant
            i <= game.players@.len(),
            game.players@.len() == s.len(),
            *game == old(game).with_players(game.players),
            s == old(game).players@,
            forall|l: int| 0 <= l < team_ids@.len() ==> (#[trigger] team_ids@[l]).id < s.len(),
            team_ids@ == active_ids(s, i as int),
            forall|j: int| 0 <= j < s.len() ==> mailbox(#[trigger] game.players@[j]) == mailbox(after_notices[j]),
            forall|j: int| 0 <= j < s.len() ==> same_but_mail(
                cared(#[trigger] s[j], j < i && active_physician(s[j]), false),
                game.players@[j],
            ),
        decreases game.players.len() - i,
    {
        assert(same_but_mail(cared(s[i as int], false, false), game.players@[i as int]));
        if game.players[i].alive && game.players[i].role == Role::Physician && !game.players[i].infected && !game.players[i].paralyzed {
            game.players[i].spy_info.woke_up = true;
            team_ids.push(PlayerId { id: i });
        }
        i = i + 1;
    }
    let team = names_at(&game.players, &team_ids);
    proof {
        assert forall|k: int| 0 <= k < team_ids@.len() implies #[trigger] names_of(game.players@, team_ids@)[k]
            == names_of(s, team_ids@)[k] by {
            let id = team_ids@[k].id as int;
            assert(same_but_mail(cared(s[id], id < s.len() && active_physician(s[id]), false), game.players@[id]));
        }
        assert(names_of(game.players@, team_ids@) =~= names_of(s, team_ids@));
    }
    // the treatments
    let count = game.players.len();
    proof {
        assert(cures@.take(0) =~= Seq::<PlayerId>::empty());
    }
    let mut m: usize = 0;
    while m < cures.len()
        invariant
            m <= cures@.len(),
            game.players@.len() == s.len(),
            *game == old(game).with_players(game.players),
            s == old(game).players@,
            cures@ == cure_list(s),
            s.len() == count,
            date == old(game).date,

            forall|l: int| 0 <= l < team_ids@.len() ==> (#[trigger] team_ids@[l]).id < s.len(),
            forall|j: int| 0 <= j < s.len() ==> #[trigger] mailbox(game.players@[j]) == mailbox(after_notices[j])
                + treatment_notes(s, cures@.take(m as int), j, date),
            forall|k: int| 0 <= k < cures@.len() ==> (#[trigger] cures@[k]).id < s.len(),
            forall|j: int| 0 <= j < s.len() ==> same_but_mail(
                cared(#[trigger] s[j], active_physician(s[j]), cures@.take(m as int).contains(PlayerId { id: j as usize }) && curable(s[j])),
                game.players@[j],
            ),
        decreases cures.len() - m,
    {
        let c = cures[m].id;
        let ghost cur = game.players@;
        proof {
            assert(cures@.take(m + 1) =~= cures@.take(m as int).push(cures@[m as int]));
            assert(cures@[m as int] == PlayerId { id: c });
            assert forall|j: int| 0 <= j < s.len() implies #[trigger] cures@.take(m + 1).contains(PlayerId { id: j as usize })
                == (cures@.take(m as int).contains(PlayerId { id: j as usize }) || j == c) by {
                assert((j as usize) as int == j);
                lemma_push_contains(cures@.take(m as int), PlayerId { id: c }, PlayerId { id: j as usize });
            }
        }

        if game.players[c].role == Role::Patient0 {
            game.players[c].send_message(Message {
                date,
                source: String::from_str("Équipe médicale"),
                content: String::from_str("Vous avez soigné par un traitement par irradiation intense cette nuit, mais la mutation est trop avancée chez vous, cela a échoué"),
            });
        } else if !game.players[c].infected {
            game.players[c].send_message(Message {
                date,
                source: String::from_str("Équipe médicale"),
                content: String::from_str("Vous avez été soigné par un traitement anti-mutation cette nuit, bien qu'il n'y ait eu aucune trace de mutations dans votre corps"),
            });
        } else if game.players[c].host {
            game.players[c].send_message(Message {
                date,
                source: String::from_str("Overmind"),
                content: String::from_str("L'équipe médicale vous a administré un traitement anti-mutation cette nuit, mais votre génome semble résistant au traitement. Félicitations ;-)"),
            });
        } else {
            game.players[c].infected = false;
            game.players[c].spy_info.was_cured = true;
            game.players[c].send_message(Message {
                date,
                source: String::from_str("Équipe médicale"),
                content: String::from_str("Vous avez été soigné par un traitement par irradiation intense cette nuit, qui vous à débarrassé de toute trace de mutation"),
            });
        }
        proof {
            let note = treatment_note(s[c as int], cures@.take(m as int).contains(PlayerId { id: c }) && curable(s[c as int]), date);
            assert(cures@.take(m + 1).drop_last() =~= cures@.take(m as int));
            assert(mailbox(game.players@[c as int]) =~= mailbox(cur[c as int]) + seq![note]);
            assert forall|j: int| 0 <= j < s.len() implies #[trigger] mailbox(game.players@[j]) == mailbox(after_notices[j])
                + treatment_notes(s, cures@.take(m + 1), j, date) by {
                if j == c {
                    assert(mailbox(after_notices[j]) + treatment_notes(s, cures@.take(m as int), j, date) + seq![note]
                        =~= mailbox(after_notices[j]) + treatment_notes(s, cures@.take(m + 1), j, date));
                } else {
                    assert(treatment_notes(s, cures@.take(m + 1), j, date) =~= treatment_notes(s, cures@.take(m as int), j, date));
                }
            }
        }
        m = m + 1;
    }
    assert(cures@.take(cures@.len() as int) =~= cures@);
    // the summary to the active team
    let mut content = String::from_str("L'équipe médicale opérationelle de la nuit précédente (");
    content.append(join_strings(&team, " ").as_str());
    content.append(") est parvenue à soigner: [");
    content.append(join_strings(&treated, " ").as_str());
    content.append("]");
    let ghost cared_state = game.players@;
    proof {
        assert(content@ == summary_text(s));
    }
    let ghost summary = summary_note(date, content@);
    proof {
        assert forall|j: int| 0 <= j < s.len() implies #[trigger] mailbox(cared_state[j])
            == mailbox(cared_state[j]) + notes_to(team_ids@.take(0), j, summary) by {
            assert(notes_to(team_ids@.take(0), j, summary) =~= Seq::empty());
        }
    }
    let mut k: usize = 0;
    while k < team_ids.len()
        invariant
            k <= team_ids@.len(),
            game.players@.len() == s.len(),
            *game == old(game).with_players(game.players),
            summary == summary_note(date, content@),
            forall|l: int| 0 <= l < team_ids@.len() ==> (#[trigger] team_ids@[l]).id < s.len(),
            forall|j: int| 0 <= j < s.len() ==> same_but_mail(#[trigger] cared_state[j], game.players@[j]),
            forall|j: int| 0 <= j < s.len() ==> #[trigger] mailbox(game.players@[j])
                == mailbox(cared_state[j]) + notes_to(team_ids@.take(k as int), j, summary),
        decreases team_ids.len() - k,
    {
        let id = team_ids[k].id;
        let ghost before = game.players@;
        game.players[id].send_message(Message { date, source: String::from_str("Équipe médicale"), content: content.clone() });
        proof {
            assert(team_ids@.take(k + 1).drop_last() =~= team_ids@.take(k as int));
            assert forall|j: int| 0 <= j < s.len() implies #[trigger] mailbox(game.players@[j])
                == mailbox(cared_state[j]) + notes_to(team_ids@.take(k + 1), j, summary) by {
                if j == id {
                    assert(mailbox(game.players@[j]) =~= mailbox(before[j]) + seq![summary]);
                    assert(mailbox(cared_state[j]) + notes_to(team_ids@.take(k as int), j, summary) + seq![summary]
                        =~= mailbox(cared_state[j]) + notes_to(team_ids@.take(k + 1), j, summary));
                } else {
                    assert(notes_to(team_ids@.take(k + 1), j, summary) =~= notes_to(team_ids@.take(k as int), j, summary));
                }
            }
        }
        k = k + 1;
    }
    proof {
        assert(team_ids@.take(team_ids@.len() as int) =~= team_ids@);
        assert forall|j: int| 0 <= j < s.len() implies #[trigger] mailbox(game.players@[j])
            == mailbox(s[j])
                + notes_to(disabled_ids(s, s.len() as int), j, (date, self_diagnosis(), disabled_text(s[j])))
                + treatment_notes(s, cure_list(s), j, date)
                + notes_to(active_ids(s, s.len() as int), j, summary_note(date, content@)) by {
        }
        assert(summary_note(date, content@) == summary);
    }
    None
}

} // verus!
