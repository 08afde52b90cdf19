use vstd::prelude::*;
use vstd::string::StringExecFns;
use crate::action::ActionType;
use crate::game::{GameStatus, receives, ids_match, targets_valid, lemma_receives_nothing, lemma_receives_unfold, lemma_receives_intro};
use crate::mail::{Note, night_mail, fan, same_interception, send_all};
use crate::message::{genetics_tool, self_diagnosis, surveillance_tool};
use crate::phases::woken;
use crate::player::{Player, SpyData};
use crate::role::Role;

verus! {

/// A living geneticist who was paralyzed.
pub open spec fn gen_paralyzed(p: Player) -> bool {
    p.alive && p.role == Role::Geneticist && p.paralyzed
}

/// A living geneticist, not paralyzed, who chose a genome to inspect.
pub open spec fn gen_inspects(p: Player) -> bool {
    p.alive && p.role == Role::Geneticist && !p.paralyzed && p.actions@.contains_key(ActionType::Genomyze)
}

/// Notice to a geneticist who was paralyzed.
pub open spec fn gen_paralyzed_text() -> Seq<char> {
    "Vous avez été paralysé·e pendant la nuit, vous n'avez donc pu étudier le genome de vos camarades"@
}

/// The geneticist's finding on player `t`.
pub open spec fn gen_report(t: Player) -> Seq<char> {
    if t.host {
        "Votre analyse du génome de "@ + t.name@
            + " révèle qu'il est particulièrement sensible à l'infection. S'il venait à muter, il ne pourrait être soigné"@
    } else if t.resilient {
        "Votre analyse du génome de "@ + t.name@ + " révèle qu'il est résistant à l'infection. Il ne deviendra jamais un mutant"@
    } else {
        "Votre analyse du génome de "@ + t.name@ + " révèle qu'il est d'une banalité affligeante. Réponse standard à la mutation"@
    }
}

/// What player number `k` of `s` is told in the geneticist phase.
pub open spec fn gen_notes(s: Seq<Player>, k: int, date: u32) -> Seq<Note> {
    if gen_paralyzed(s[k]) {
        seq![(date, self_diagnosis(), gen_paralyzed_text())]
    } else if gen_inspects(s[k]) {
        seq![(date, genetics_tool(), gen_report(s[s[k].actions@[ActionType::Genomyze].id as int]))]
    } else {
        Seq::empty()
    }
}

pub open spec fn gen_notes_fn(s: Seq<Player>, date: u32) -> spec_fn(int) -> Seq<Note> {
    |k: int| gen_notes(s, k, date)
}

/// One step of the geneticist phase: player number `i` acts if a geneticist.
#[verifier::rlimit(100)]
fn gen_turn(players: &mut Vec<Player>, date: u32, i: usize, Ghost(start): Ghost<Seq<Player>>)
    requires
        i < old(players)@.len(),
        old(players)@.len() == start.len(),
        ids_match(start),
        targets_valid(start),
        forall|j: int| 0 <= j < start.len() ==> same_interception(#[trigger] start[j], old(players)@[j]),
        forall|j: int| 0 <= j < start.len() ==> receives(
            woken(#[trigger] start[j], j < i && gen_inspects(start[j])),
            old(players)@[j],
            night_mail(start[j], j, i as int, gen_notes_fn(start, date)),
        ),
    ensures
        final(players)@.len() == start.len(),
        forall|j: int| 0 <= j < start.len() ==> same_interception(#[trigger] start[j], final(players)@[j]),
        forall|j: int| 0 <= j < start.len() ==> receives(
            woken(#[trigger] start[j], j < i + 1 && gen_inspects(start[j])),
            final(players)@[j],
            night_mail(start[j], j, i + 1, gen_notes_fn(start, date)),
        ),
{
    let ghost notes = gen_notes_fn(start, date);
    let ghost cur = players@;
    proof {
        lemma_receives_unfold(woken(start[i as int], false), cur[i as int], night_mail(start[i as int], i as int, i as int, notes));
        assert forall|j: int| 0 <= j < start.len() implies night_mail(start[j], j, i + 1, notes)
            == #[trigger] night_mail(start[j], j, i as int, notes) + fan(start[j], j, i as int, notes(i as int)) by {
        }
    }
    if players[i].alive && players[i].role == Role::Geneticist {
        if players[i].paralyzed {
            let mut contents: Vec<String> = Vec::new();
            contents.push(String::from_str("Vous avez été paralysé·e pendant la nuit, vous n'avez donc pu étudier le genome de vos camarades"));
            proof {
                assert(contents@.map_values(|c: String| (date, self_diagnosis(), c@)) =~= notes(i as int));
            }
            let ghost base = Seq::new(start.len(), |j: int| woken(start[j], j < i && gen_inspects(start[j])));
            let ghost before = |j: int| night_mail(start[j], j, i as int, notes);
            send_all(players, date, i, "Outil d'auto diagnostique", &contents, Ghost(start), Ghost(base), Ghost(before));
            proof {
                assert forall|j: int| 0 <= j < start.len() implies receives(
                    woken(#[trigger] start[j], j < i + 1 && gen_inspects(start[j])),
                    players@[j],
                    night_mail(start[j], j, i + 1, notes),
                ) by {
                    assert(night_mail(start[j], j, i + 1, notes) == night_mail(start[j], j, i as int, notes) + fan(start[j], j, i as int, notes(i as int)));
                    assert(base[j] == woken(start[j], j < i && gen_inspects(start[j])));
                    assert(before(j) == night_mail(start[j], j, i as int, notes));
                    assert(!gen_inspects(start[i as int]));
                }
            }
        } else {
            match players[i].actions.get(&ActionType::Genomyze) {
                None => {
                    proof {
                        assert forall|j: int| 0 <= j < start.len() implies receives(
                            woken(#[trigger] start[j], j < i + 1 && gen_inspects(start[j])),
                            players@[j],
                            night_mail(start[j], j, i + 1, notes),
                        ) by {
                            assert(fan(start[j], j, i as int, notes(i as int)) =~= Seq::empty());
                            assert(night_mail(start[j], j, i + 1, notes) =~= night_mail(start[j], j, i as int, notes));
                        }
                    }
                },
                Some(t) => {
                    let t = *t;
                    players[i].spy_info.woke_up = true;
                    let ghost woke = players@;
                    proof {
                        assert forall|j: int| 0 <= j < start.len() implies receives(
                            woken(#[trigger] start[j], j < i + 1 && gen_inspects(start[j])),
                            woke[j],
                            night_mail(start[j], j, i as int, notes),
                        ) && same_interception(start[j], woke[j]) by {
                            lemma_receives_unfold(woken(start[j], j < i && gen_inspects(start[j])), cur[j], night_mail(start[j], j, i as int, notes));
                            lemma_receives_intro(woken(start[j], j < i + 1 && gen_inspects(start[j])), woke[j], night_mail(start[j], j, i as int, notes));
                        }
                    }
                    let name = players[t.id].name.clone();
                    let mut content = String::from_str("Votre analyse du génome de ");
                    content.append(name.as_str());
                    if players[t.id].host {
                        content.append(" révèle qu'il est particulièrement sensible à l'infection. S'il venait à muter, il ne pourrait être soigné");
                    } else if players[t.id].resilient {
                        content.append(" révèle qu'il est résistant à l'infection. Il ne deviendra jamais un mutant");
                    } else {
                        content.append(" révèle qu'il est d'une banalité affligeante. Réponse standard à la mutation");
                    }
                    let mut contents: Vec<String> = Vec::new();
                    contents.push(content);
                    proof {
                        lemma_receives_unfold(
                            woken(start[t.id as int], t.id < i + 1 && gen_inspects(start[t.id as int])),
                            woke[t.id as int],
                            night_mail(start[t.id as int], t.id as int, i as int, notes),
                        );
                        assert(contents@.map_values(|c: String| (date, genetics_tool(), c@)) =~= notes(i as int));
                    }
                    let ghost base = Seq::new(start.len(), |j: int| woken(start[j], j < i + 1 && gen_inspects(start[j])));
                    let ghost before = |j: int| night_mail(start[j], j, i as int, notes);
                    send_all(players, date, i, "GenoTech v0.17", &contents, Ghost(start), Ghost(base), Ghost(before));
                    proof {
                        assert forall|j: int| 0 <= j < start.len() implies receives(
                            woken(#[trigger] start[j], j < i + 1 && gen_inspects(start[j])),
                            players@[j],
                            night_mail(start[j], j, i + 1, notes),
                        ) by {
                            assert(night_mail(start[j], j, i + 1, notes) == night_mail(start[j], j, i as int, notes) + fan(start[j], j, i as int, notes(i as int)));
                            assert(base[j] == woken(start[j], j < i + 1 && gen_inspects(start[j])));
                            assert(before(j) == night_mail(start[j], j, i as int, notes));
                        }
                    }
                },
            }
        }
    } else {
        proof {
            assert forall|j: int| 0 <= j < start.len() implies receives(
                woken(#[trigger] start[j], j < i + 1 && gen_inspects(start[j])),
                players@[j],
                night_mail(start[j], j, i + 1, notes),
            ) by {
                assert(fan(start[j], j, i as int, notes(i as int)) =~= Seq::empty());
                assert(night_mail(start[j], j, i + 1, notes) =~= night_mail(start[j], j, i as int, notes));
            }
        }
    }
}

/// Each living geneticist reports: a paralyzed one is told so; one who chose
/// a genome wakes up and learns whether that player is host, resilient or
/// neither. Hackers aiming at geneticists get a copy of each finding.
pub fn run_geneticist_phase(game: &mut GameStatus)
    requires
        old(game).wf(),
    ensures
        *final(game) == old(game).with_players(final(game).players),
        final(game).players@.len() == old(game).players@.len(),
        forall|j: int| 0 <= j < old(game).players@.len() ==> receives(
            woken(#[trigger] old(game).players@[j], gen_inspects(old(game).players@[j])),
            final(game).players@[j],
            night_mail(old(game).players@[j], j, old(game).players@.len() as int, gen_notes_fn(old(game).players@, old(game).date)),
        ),
{
    let ghost start = old(game).players@;
    let date = game.date;
    proof {
        assert forall|j: int| 0 <= j < start.len() implies receives(
            woken(#[trigger] start[j], j < 0 && gen_inspects(start[j])),
            game.players@[j],
            night_mail(start[j], j, 0, gen_notes_fn(start, date)),
        ) by {
            lemma_receives_nothing(start[j]);
            assert(woken(start[j], false) == start[j]);
        }
    }
    let mut i: usize = 0;
    while i < game.players.len()
        invariant
            i <= game.players@.len(),
            game.players@.len() == start.len(),
            start == old(game).players@,
            ids_match(start),
            targets_valid(start),
            *game == old(game).with_players(game.players),
            date == old(game).date,
            forall|j: int| 0 <= j < start.len() ==> same_interception(#[trigger] start[j], game.players@[j]),
            forall|j: int| 0 <= j < start.len() ==> receives(
                woken(#[trigger] start[j], j < i && gen_inspects(start[j])),
                game.players@[j],
                night_mail(start[j], j, i as int, gen_notes_fn(start, date)),
            ),
        decreases game.players.len() - i,
    {
        gen_turn(&mut game.players, date, i, Ghost(start));
        i = i + 1;
    }
}

/// A living spy who was paralyzed.
pub open spec fn spy_paralyzed(p: Player) -> bool {
    p.alive && p.role == Role::Spy && p.paralyzed
}

/// A living spy, not paralyzed, who chose someone to watch.
pub open spec fn spy_watches(p: Player) -> bool {
    p.alive && p.role == Role::Spy && !p.paralyzed && p.actions@.contains_key(ActionType::Spy)
}

/// Notice to a spy who was paralyzed.
pub open spec fn spy_paralyzed_text() -> Seq<char> {
    "Vous avez été paralysé·e pendant la nuit, vous n'avez donc pu espioner vos camarades"@
}

/// `line` when `b` holds, else nothing.
pub open spec fn line_if(b: bool, line: Seq<char>) -> Seq<Seq<char>> {
    if b { seq![line] } else { Seq::empty() }
}

/// One report for each event of the night that the watched player `name` went through.
pub open spec fn spy_lines(name: Seq<char>, info: SpyData) -> Seq<Seq<char>> {
    line_if(info.woke_up, "Durant votre surveillance, vous avez vu "@ + name + " se reveiller et sortir de son dortoir"@)
        + line_if(info.was_infected, "Durant votre surveillance, vous avez vu "@ + name + " se transformer en mutant·e"@)
        + line_if(info.was_paralyzed, "Durant votre surveillance, vous avez vu "@ + name + " être paralysé·e"@)
        + line_if(info.was_cured, "Durant votre surveillance, vous avez vu "@ + name + " guérir de sa mutation"@)
        + line_if(info.was_psychoanalyzed, "Durant votre surveillance, vous avez vu "@ + name + " être analysé·e par le psychologue"@)
}

/// What player number `k` of `s` is told in the spy phase.
pub open spec fn spy_notes(s: Seq<Player>, k: int, date: u32) -> Seq<Note> {
    if spy_paralyzed(s[k]) {
        seq![(date, self_diagnosis(), spy_paralyzed_text())]
    } else if spy_watches(s[k]) {
        let t = s[s[k].actions@[ActionType::Spy].id as int];
        spy_lines(t.name@, t.spy_info).map_values(|l: Seq<char>| (date, surveillance_tool(), l))
    } else {
        Seq::empty()
    }
}

pub open spec fn spy_notes_fn(s: Seq<Player>, date: u32) -> spec_fn(int) -> Seq<Note> {
    |k: int| spy_notes(s, k, date)
}

/// The surveillance reports on a player named `name` whose night is `info`.
pub fn spy_report_lines(name: &String, info: SpyData) -> (r: Vec<String>)
    ensures
        r@.map_values(|c: String| c@) == spy_lines(name@, info),
{
    let mut r: Vec<String> = Vec::new();
    let ghost mut lines: Seq<Seq<char>> = Seq::empty();
    if info.woke_up {
        let mut c = String::from_str("Durant votre surveillance, vous avez vu ");
        c.append(name.as_str());
        c.append(" se reveiller et sortir de son dortoir");
        r.push(c);
    }
    assert(r@.map_values(|c: String| c@) =~= line_if(info.woke_up, "Durant votre surveillance, vous avez vu "@ + name@ + " se reveiller et sortir de son dortoir"@));
    let ghost l1 = r@.map_values(|c: String| c@);
    if info.was_infected {
        let mut c = String::from_str("Durant votre surveillance, vous avez vu ");
        c.append(name.as_str());
        c.append(" se transformer en mutant·e");
        r.push(c);
    }
    assert(r@.map_values(|c: String| c@) =~= l1 + line_if(info.was_infected, "Durant votre surveillance, vous avez vu "@ + name@ + " se transformer en mutant·e"@));
    let ghost l2 = r@.map_values(|c: String| c@);
    if info.was_paralyzed {
        let mut c = String::from_str("Durant votre surveillance, vous avez vu ");
        c.append(name.as_str());
        c.append(" être paralysé·e");
        r.push(c);
    }
    assert(r@.map_values(|c: String| c@) =~= l2 + line_if(info.was_paralyzed, "Durant votre surveillance, vous avez vu "@ + name@ + " être paralysé·e"@));
    let ghost l3 = r@.map_values(|c: String| c@);
    if info.was_cured {
        let mut c = String::from_str("Durant votre surveillance, vous avez vu ");
        c.append(name.as_str());
        c.append(" guérir de sa mutation");
        r.push(c);
    }
    assert(r@.map_values(|c: String| c@) =~= l3 + line_if(info.was_cured, "Durant votre surveillance, vous avez vu "@ + name@ + " guérir de sa mutation"@));
    let ghost l4 = r@.map_values(|c: String| c@);
    if info.was_psychoanalyzed {
        let mut c = String::from_str("Durant votre surveillance, vous avez vu ");
        c.append(name.as_str());
        c.append(" être analysé·e par le psychologue");
        r.push(c);
    }
    assert(r@.map_values(|c: String| c@) =~= l4 + line_if(info.was_psychoanalyzed, "Durant votre surveillance, vous avez vu "@ + name@ + " être analysé·e par le psychologue"@));
    r
}

/// One step of the spy phase: player number `i` acts if a spy.
#[verifier::rlimit(100)]
fn spy_turn(players: &mut Vec<Player>, date: u32, i: usize, Ghost(start): Ghost<Seq<Player>>)
    requires
        i < old(players)@.len(),
        old(players)@.len() == start.len(),
        ids_match(start),
        targets_valid(start),
        forall|j: int| 0 <= j < start.len() ==> same_interception(#[trigger] start[j], old(players)@[j]),
        forall|j: int| 0 <= j < start.len() ==> receives(
            #[trigger] start[j],
            old(players)@[j],
            night_mail(start[j], j, i as int, spy_notes_fn(start, date)),
        ),
    ensures
        final(players)@.len() == start.len(),
        forall|j: int| 0 <= j < start.len() ==> same_interception(#[trigger] start[j], final(players)@[j]),
        forall|j: int| 0 <= j < start.len() ==> receives(
            #[trigger] start[j],
            final(players)@[j],
            night_mail(start[j], j, i + 1, spy_notes_fn(start, date)),
        ),
{
    let ghost notes = spy_notes_fn(start, date);
    let ghost cur = players@;
    let ghost before = |j: int| night_mail(start[j], j, i as int, notes);
    proof {
        lemma_receives_unfold(start[i as int], cur[i as int], night_mail(start[i as int], i as int, i as int, notes));
        assert forall|j: int| 0 <= j < start.len() implies night_mail(start[j], j, i + 1, notes)
            == #[trigger] night_mail(start[j], j, i as int, notes) + fan(start[j], j, i as int, notes(i as int)) by {
        }
    }
    let mut contents: Vec<String> = Vec::new();
    let mut source = "Stalker IV";
    if players[i].alive && players[i].role == Role::Spy {
        if players[i].paralyzed {
            source = "Outil d'auto diagnostique";
            contents.push(String::from_str("Vous avez été paralysé·e pendant la nuit, vous n'avez donc pu espioner vos camarades"));
            assert(contents@.map_values(|c: String| (date, source@, c@)) =~= notes(i as int));
        } else {
            match players[i].actions.get(&ActionType::Spy) {
                None => {
                    assert(contents@.map_values(|c: String| (date, source@, c@)) =~= notes(i as int));
                },
                Some(t) => {
                    let t = *t;
                    let tid = t.id;
                    proof {
                        lemma_receives_unfold(start[tid as int], cur[tid as int], night_mail(start[tid as int], tid as int, i as int, notes));
                    }
                    contents = spy_report_lines(&players[tid].name, players[tid].spy_info);
                    let ghost lines = spy_lines(start[tid as int].name@, start[tid as int].spy_info);
                    proof {
                        assert(contents@.len() == lines.len());
                        assert forall|k: int| 0 <= k < lines.len() implies contents@[k]@ == lines[k] by {
                            assert(contents@.map_values(|c: String| c@)[k] == lines[k]);
                        }
                        assert(contents@.map_values(|c: String| (date, source@, c@)) =~= notes(i as int));
                    }
                },
            }
        }
    } else {
        assert(contents@.map_values(|c: String| (date, source@, c@)) =~= notes(i as int));
    }
    send_all(players, date, i, source, &contents, Ghost(start), Ghost(start), Ghost(before));
    proof {
        assert forall|j: int| 0 <= j < start.len() implies receives(
            #[trigger] start[j],
            players@[j],
            night_mail(start[j], j, i + 1, notes),
        ) by {
            assert(night_mail(start[j], j, i + 1, notes) == night_mail(start[j], j, i as int, notes) + fan(start[j], j, i as int, notes(i as int)));
            assert(before(j) == night_mail(start[j], j, i as int, notes));
        }
    }
}

/// Each living spy reports: a paralyzed one is told so; one who watched a
/// player gets one report for each event that player went through this
/// night. Runs last, so that it sees every event of the night. Hackers aiming
/// at spies get a copy of each report.
pub fn run_spy_phase(game: &mut GameStatus)
    requires
        old(game).wf(),
    ensures
        *final(game) == old(game).with_players(final(game).players),
        final(game).players@.len() == old(game).players@.len(),
        forall|j: int| 0 <= j < old(game).players@.len() ==> receives(
            #[trigger] old(game).players@[j],
            final(game).players@[j],
            night_mail(old(game).players@[j], j, old(game).players@.len() as int, spy_notes_fn(old(game).players@, old(game).date)),
        ),
{
    let ghost start = old(game).players@;
    let date = game.date;
    proof {
        assert forall|j: int| 0 <= j < start.len() implies receives(
            #[trigger] start[j],
            game.players@[j],
            night_mail(start[j], j, 0, spy_notes_fn(start, date)),
        ) by {
            lemma_receives_nothing(start[j]);
        }
    }
    let mut i: usize = 0;
    while i < game.players.len()
        invariant
            i <= game.players@.len(),
            game.players@.len() == start.len(),
            start == old(game).players@,
            ids_match(start),
            targets_valid(start),
            *game == old(game).with_players(game.players),
            date == old(game).date,
            forall|j: int| 0 <= j < start.len() ==> same_interception(#[trigger] start[j], game.players@[j]),
            forall|j: int| 0 <= j < start.len() ==> receives(
                #[trigger] start[j],
                game.players@[j],
                night_mail(start[j], j, i as int, spy_notes_fn(start, date)),
            ),
        decreases game.players.len() - i,
    {
        spy_turn(&mut game.players, date, i, Ghost(start));
        i = i + 1;
    }
}

} // verus!
