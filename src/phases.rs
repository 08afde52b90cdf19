use vstd::prelude::*;
use vstd::string::StringExecFns;
use crate::game::{send_to, GameStatus, lemma_receives_trans, receives, intercepts, hacked_role, living_mutants, mailbox, lemma_receives_nothing, lemma_receives_unfold, lemma_receives_intro};
use crate::action::ActionType;
use crate::mail::Note;
use crate::message::{Message, diagnostic_system, psychology_tool, self_diagnosis};
use crate::game::{lemma_plain_sources, sent_extra, ids_match, targets_valid};
use crate::player::{Player, PlayerId, SpyData};
use crate::role::Role;
use crate::text::{decimal, decimal_string};

verus! {

/// The copy of `m` that an intercepting hacker receives.
pub open spec fn hacked(m: Note) -> Note {
    (m.0, "Hacked "@ + m.1, m.2)
}

/// `n` times `m`.
pub open spec fn repeat(m: Note, n: nat) -> Seq<Note> {
    Seq::new(n, |_i: int| m)
}

/// `m` alone when `b` holds, else nothing.
pub open spec fn only_if(b: bool, m: Note) -> Seq<Note> {
    if b { seq![m] } else { Seq::empty() }
}

/// `p`, seen waking up during the night when `w` holds.
pub open spec fn woken(p: Player, w: bool) -> Player {
    Player { spy_info: SpyData { woke_up: p.spy_info.woke_up || w, ..p.spy_info }, ..p }
}

/// A living IT engineer who was not paralyzed.
pub open spec fn it_active(p: Player) -> bool {
    p.alive && p.role == Role::ITEngineer && !p.paralyzed
}

/// The IT engineer's report on `n` infected crew members.
pub open spec fn it_report(n: nat) -> Seq<char> {
    "L'analyse quantique de cette nuit a révélé la présence de "@ + decimal(n)
        + " membres d'équipage infectés à bord."@
}

proof fn lemma_repeat_push(m: Note, n: nat)
    ensures
        repeat(m, n) + seq![m] == repeat(m, n + 1),
{
    assert(repeat(m, n) + seq![m] =~= repeat(m, n + 1));
}

/// How many of `s` are active IT engineers.
pub open spec fn it_active_count(s: Seq<Player>) -> nat {
    s.filter(|p: Player| it_active(p)).len()
}

proof fn lemma_it_active_count_push(s: Seq<Player>, p: Player)
    ensures
        it_active_count(s.push(p)) == it_active_count(s) + if it_active(p) { 1nat } else { 0nat },
{
    s.lemma_filter_push(p, |p: Player| it_active(p));
}

/// What the IT phase, run over the first players up to `done`, adds to the
/// mailbox of `s`, the player at position `j`; `n` engineers have reported.
pub open spec fn it_mail(s: Player, j: int, done: int, report: Note, n: nat) -> Seq<Note> {
    only_if(j < done && it_active(s), report)
        + (if intercepts(s, diagnostic_system()) { repeat(hacked(report), n) } else { Seq::empty() })
}

proof fn lemma_it_step(s: Player, c: Player, m: Player, f: Player, j: int, i: int, report: Note, n: nat)
    requires
        report.1 == diagnostic_system(),
        it_active(s) || j != i,
        receives(woken(s, j < i && it_active(s)), c, it_mail(s, j, i, report, n)),
        m == (if j == i { woken(c, true) } else { c }),
        receives(m, f, crate::game::sent_extra(m, j, i, report)),
    ensures
        receives(woken(s, j < i + 1 && it_active(s)), f, it_mail(s, j, i + 1, report, n + 1)),
{
    reveal(receives);
    assert(intercepts(m, report.1) == intercepts(s, report.1));
    let x = crate::game::sent_extra(m, j, i, report);
    if j == i {
        assert(!intercepts(s, report.1));
        assert(x =~= seq![report]);
        assert(it_mail(s, j, i, report, n) =~= Seq::empty());
        assert(it_mail(s, j, i + 1, report, n + 1) =~= seq![report]);
        assert(mailbox(f) =~= mailbox(s) + seq![report]);
    } else {
        let e0 = only_if(j < i && it_active(s), report);
        if intercepts(s, report.1) {
            assert(x =~= seq![hacked(report)]);
            lemma_repeat_push(hacked(report), n);
            assert(mailbox(f) =~= mailbox(s) + (e0 + repeat(hacked(report), n + 1)));
        } else {
            assert(x =~= Seq::empty());
            assert(mailbox(f) =~= mailbox(s) + e0);
            assert(it_mail(s, j, i + 1, report, n + 1) =~= e0);
        }
    }
}

/// The IT phase step of the active engineer at position `i`: wakes up and reports.
#[verifier::rlimit(60)]
fn it_report_turn(players: &mut Vec<Player>, date: u32, infected: usize, i: usize, Ghost(start): Ghost<Seq<Player>>, Ghost(n): Ghost<nat>)
    requires
        i < old(players)@.len(),
        old(players)@.len() == start.len(),
        it_active(start[i as int]),
        forall|j: int| 0 <= j < start.len() ==> receives(
            woken(#[trigger] start[j], j < i && it_active(start[j])),
            old(players)@[j],
            it_mail(start[j], j, i as int, (date, diagnostic_system(), it_report(infected as nat)), n),
        ),
    ensures
        final(players)@.len() == start.len(),
        forall|j: int| 0 <= j < start.len() ==> receives(
            woken(#[trigger] start[j], j < i + 1 && it_active(start[j])),
            final(players)@[j],
            it_mail(start[j], j, i + 1, (date, diagnostic_system(), it_report(infected as nat)), n + 1),
        ),
{
    let ghost report = (date, diagnostic_system(), it_report(infected as nat));
    let ghost cur = players@;
    players[i].spy_info.woke_up = true;
    let ghost mid = players@;
    let mut content = String::from_str("L'analyse quantique de cette nuit a révélé la présence de ");
    content.append(decimal_string(infected as u64).as_str());
    content.append(" membres d'équipage infectés à bord.");
    send_to(players, date, PlayerId { id: i }, String::from_str("Système de diagnostique"), content);
    proof {
        assert forall|j: int| 0 <= j < start.len() implies receives(
            woken(#[trigger] start[j], j < i + 1 && it_active(start[j])),
            players@[j],
            it_mail(start[j], j, i + 1, report, n + 1),
        ) by {
            lemma_it_step(start[j], cur[j], mid[j], players@[j], j, i as int, report, n);
        }
    }
}

/// One step of the IT phase: player number `i` acts if an active engineer.
#[verifier::rlimit(60)]
fn it_turn(players: &mut Vec<Player>, date: u32, infected: usize, i: usize, Ghost(start): Ghost<Seq<Player>>)
    requires
        i < old(players)@.len(),
        old(players)@.len() == start.len(),
        forall|j: int| 0 <= j < start.len() ==> receives(
            woken(#[trigger] start[j], j < i && it_active(start[j])),
            old(players)@[j],
            it_mail(start[j], j, i as int, (date, diagnostic_system(), it_report(infected as nat)), it_active_count(start.take(i as int))),
        ),
    ensures
        final(players)@.len() == start.len(),
        forall|j: int| 0 <= j < start.len() ==> receives(
            woken(#[trigger] start[j], j < i + 1 && it_active(start[j])),
            final(players)@[j],
            it_mail(start[j], j, i + 1, (date, diagnostic_system(), it_report(infected as nat)), it_active_count(start.take(i + 1))),
        ),
{
    let ghost report = (date, diagnostic_system(), it_report(infected as nat));
    let ghost cur = players@;
    let ghost n = it_active_count(start.take(i as int));
    proof {
        assert(start.take(i + 1) =~= start.take(i as int).push(start[i as int]));
        lemma_it_active_count_push(start.take(i as int), start[i as int]);
        lemma_receives_unfold(woken(start[i as int], false), cur[i as int], it_mail(start[i as int], i as int, i as int, report, n));
    }
    if players[i].alive && players[i].role == Role::ITEngineer && !players[i].paralyzed {
        it_report_turn(players, date, infected, i, Ghost(start), Ghost(n));
    } else {
        proof {
            assert forall|j: int| 0 <= j < start.len() implies receives(
                woken(#[trigger] start[j], j < i + 1 && it_active(start[j])),
                players@[j],
                it_mail(start[j], j, i + 1, report, n),
            ) by {
                assert(it_mail(start[j], j, i + 1, report, n) == it_mail(start[j], j, i as int, report, n));
            }
        }
    }
}

/// Each living IT engineer who is not paralyzed wakes up and is told how many
/// living players are infected. A paralyzed IT engineer is deliberately told
/// nothing, not even that it was paralyzed.
pub fn run_it_phase(game: &mut GameStatus)
    ensures
        *final(game) == old(game).with_players(final(game).players),
        final(game).players@.len() == old(game).players@.len(),
        forall|i: int| 0 <= i < old(game).players@.len() ==> receives(
            woken(#[trigger] old(game).players@[i], it_active(old(game).players@[i])),
            final(game).players@[i],
            it_mail(
                old(game).players@[i],
                i,
                old(game).players@.len() as int,
                (old(game).date, diagnostic_system(), it_report(living_mutants(old(game).players@).len())),
                it_active_count(old(game).players@),
            ),
        ),
{
    let ghost start = old(game).players@;
    let infected = game.count_living_mutants();
    let date = game.date;
    let ghost report = (date, diagnostic_system(), it_report(infected as nat));
    proof {
        assert(start.take(0) =~= Seq::<Player>::empty());
        assert forall|j: int| 0 <= j < start.len() implies receives(
            woken(#[trigger] start[j], j < 0 && it_active(start[j])),
            game.players@[j],
            it_mail(start[j], j, 0, report, it_active_count(start.take(0))),
        ) by {
            lemma_receives_nothing(start[j]);
            assert(it_mail(start[j], j, 0, report, 0) =~= Seq::empty());
            assert(woken(start[j], false) == start[j]);
        }
    }
    let mut i: usize = 0;
    while i < game.players.len()
        invariant
            i <= game.players@.len(),
            game.players@.len() == start.len(),
            start == old(game).players@,
            *game == old(game).with_players(game.players),
            date == old(game).date,
            forall|j: int| 0 <= j < start.len() ==> receives(
                woken(#[trigger] start[j], j < i && it_active(start[j])),
                game.players@[j],
                it_mail(start[j], j, i as int, (date, diagnostic_system(), it_report(infected as nat)), it_active_count(start.take(i as int))),
            ),
        decreases game.players.len() - i,
    {
        it_turn(&mut game.players, date, infected, i, Ghost(start));
        i = i + 1;
    }
    assert(start.take(start.len() as int) =~= start);
}

} // verus!
