use vstd::prelude::*;
use vstd::string::StringExecFns;
use crate::action::ActionType;
use crate::game::{send_to, GameStatus, lemma_receives_trans, receives, lemma_receives_nothing, lemma_receives_unfold,
    lemma_receives_intro, lemma_plain_sources, sent_extra, ids_match, targets_valid};
use crate::mail::Note;
use crate::message::{psychology_tool, self_diagnosis};
use crate::player::{Player, PlayerId, SpyData};
use crate::role::Role;

verus! {

/// A living psychologist who was not paralyzed.
pub open spec fn psy_active(p: Player) -> bool {
    p.alive && p.role == Role::Psychologist && !p.paralyzed
}

/// A living psychologist who was paralyzed.
pub open spec fn psy_paralyzed(p: Player) -> bool {
    p.alive && p.role == Role::Psychologist && p.paralyzed
}

/// Notice to a psychologist who was paralyzed.
pub open spec fn psy_paralyzed_text() -> Seq<char> {
    "Vous avez été paralysé·e pendant la nuit, vous n'avez donc pu analyser personne"@
}

/// An active psychologist who chose someone to analyse.
pub open spec fn psy_analyses(p: Player) -> bool {
    psy_active(p) && p.actions@.contains_key(ActionType::Psychoanalyze)
}

/// One of the first `n` players of `s` analyses player number `j`.
pub open spec fn analysed_among(s: Seq<Player>, j: int, n: int) -> bool {
    exists|k: int| 0 <= k < n && #[trigger] psy_analyses(s[k]) && s[k].actions@[ActionType::Psychoanalyze].id == j
}

/// The psychologist's verdict on `name`.
pub open spec fn psy_report(name: Seq<char>, infected: bool) -> Seq<char> {
    if infected {
        "D'après l'analyse, il semblerait que le comportement déviant de "@ + name
            + " ne découle pas d'un trauma d'enfance, mais d'un changement récent. C'est un·e mutant·e!"@
    } else {
        "D'après l'analyse, il semblerait que le comportement déviant de "@ + name
            + " découle simplement d'un rapport difficile à la mère, et pas d'une mutation génétique"@
    }
}

/// `p` after the psychologist phase flags: woken when `w`, analysed when `a`.
pub open spec fn psy_flags(p: Player, w: bool, a: bool) -> Player {
    Player {
        spy_info: SpyData {
            woke_up: p.spy_info.woke_up || w,
            was_psychoanalyzed: p.spy_info.was_psychoanalyzed || a,
            ..p.spy_info
        },
        ..p
    }
}

/// What the psychologist phase adds to the mailbox of player number `j`,
/// once the first `n` players have acted.
pub open spec fn psy_mail(s: Seq<Player>, j: int, n: int, date: u32) -> Seq<Note> {
    if j < n && psy_paralyzed(s[j]) {
        seq![(date, self_diagnosis(), psy_paralyzed_text())]
    } else if j < n && psy_analyses(s[j]) {
        let t = s[s[j].actions@[ActionType::Psychoanalyze].id as int];
        seq![(date, psychology_tool(), psy_report(t.name@, t.infected))]
    } else {
        Seq::empty()
    }
}

/// The state of player number `j` once the first `n` players of `s` have acted
/// in the psychologist phase, mail aside.
pub open spec fn psy_state(s: Seq<Player>, j: int, n: int) -> Player {
    psy_flags(s[j], j < n && psy_active(s[j]), analysed_among(s, j, n))
}

/// One step of the psychologist phase: player number `i` acts if an active
/// psychologist.
#[verifier::rlimit(100)]
fn psy_turn(players: &mut Vec<Player>, date: u32, i: usize, Ghost(start): Ghost<Seq<Player>>)
    requires
        i < old(players)@.len(),
        old(players)@.len() == start.len(),
        ids_match(start),
        targets_valid(start),
        forall|j: int| 0 <= j < start.len() ==> #[trigger] receives(
            psy_state(start, j, i as int),
            old(players)@[j],
            psy_mail(start, j, i as int, date),
        ),
    ensures
        final(players)@.len() == start.len(),
        forall|j: int| 0 <= j < start.len() ==> #[trigger] receives(
            psy_state(start, j, i + 1),
            final(players)@[j],
            psy_mail(start, j, i + 1, date),
        ),
{
    proof {
        lemma_plain_sources();
    }
    let ghost cur = players@;
        proof {
        lemma_receives_unfold(psy_state(start, i as int, i as int), cur[i as int], psy_mail(start, i as int, i as int, date));
    }
    if players[i].alive && players[i].role == Role::Psychologist && !players[i].paralyzed {
        players[i].spy_info.woke_up = true;
        let ghost woke = players@;
        proof {
            assert forall|j: int| 0 <= j < start.len() implies receives(
                psy_flags(start[j], j < i + 1 && psy_active(start[j]), analysed_among(start, j, i as int)),
                #[trigger] woke[j],
                psy_mail(start, j, i as int, date),
            ) by {
                lemma_receives_unfold(psy_state(start, j, i as int), cur[j], psy_mail(start, j, i as int, date));
                lemma_receives_intro(
                    psy_flags(start[j], j < i + 1 && psy_active(start[j]), analysed_among(start, j, i as int)),
                    woke[j],
                    psy_mail(start, j, i as int, date),
                );
            }
        }
        match players[i].actions.get(&ActionType::Psychoanalyze) {
            None => {
                proof {
                    assert forall|j: int| 0 <= j < start.len() implies #[trigger] receives(
                        psy_state(start, j, i + 1),
                        players@[j],
                        psy_mail(start, j, i + 1, date),
                    ) by {
                        assert(analysed_among(start, j, i + 1) == analysed_among(start, j, i as int));
                        assert(psy_mail(start, j, i + 1, date) == psy_mail(start, j, i as int, date));
                    }
                }
            },
            Some(t) => {
                let t = *t;
                let ghost tid = t.id as int;
                proof {
                    assert(start[i as int].actions == cur[i as int].actions);
                    assert(psy_analyses(start[i as int]));
                    assert(start[i as int].actions@[ActionType::Psychoanalyze].id == tid);
                }
                assert(t.id < start.len());
                players[t.id].spy_info.was_psychoanalyzed = true;
                let ghost marked = players@;
                proof {
                    assert forall|j: int| 0 <= j < start.len() implies #[trigger] receives(
                        psy_state(start, j, i + 1),
                        marked[j],
                        psy_mail(start, j, i as int, date),
                    ) by {
                        lemma_receives_unfold(
                            psy_flags(start[j], j < i + 1 && psy_active(start[j]), analysed_among(start, j, i as int)),
                            woke[j],
                            psy_mail(start, j, i as int, date),
                        );
                        if j == tid {
                            assert(psy_analyses(start[i as int]) && start[i as int].actions@[ActionType::Psychoanalyze].id == j);
                            assert(analysed_among(start, j, i + 1));
                        } else {
                            assert(analysed_among(start, j, i + 1) == analysed_among(start, j, i as int));
                        }
                        lemma_receives_intro(psy_state(start, j, i + 1), marked[j], psy_mail(start, j, i as int, date));
                    }
                }
                let name = players[t.id].name.clone();
                let mut content = String::from_str("D'après l'analyse, il semblerait que le comportement déviant de ");
                content.append(name.as_str());
                if players[t.id].infected {
                    content.append(" ne découle pas d'un trauma d'enfance, mais d'un changement récent. C'est un·e mutant·e!");
                } else {
                    content.append(" découle simplement d'un rapport difficile à la mère, et pas d'une mutation génétique");
                }
                let ghost report = (date, psychology_tool(), psy_report(start[tid].name@, start[tid].infected));
                proof {
                    lemma_receives_unfold(psy_state(start, tid, i + 1), marked[tid], psy_mail(start, tid, i as int, date));
                    assert(content@ == report.2);
                }
                send_to(players, date, PlayerId { id: i }, String::from_str("Freud GPT"), content);
                proof {
                    assert forall|j: int| 0 <= j < start.len() implies #[trigger] receives(
                        psy_state(start, j, i + 1),
                        players@[j],
                        psy_mail(start, j, i + 1, date),
                    ) by {
                        let x = sent_extra(marked[j], j, i as int, report);
                        if j == i {
                            assert(x =~= seq![report]);
                            assert(psy_mail(start, j, i + 1, date) =~= psy_mail(start, j, i as int, date) + x);
                        } else {
                            assert(x =~= Seq::empty());
                            assert(psy_mail(start, j, i + 1, date) =~= psy_mail(start, j, i as int, date) + x);
                        }
                        lemma_receives_trans(psy_state(start, j, i + 1), marked[j], players@[j], psy_mail(start, j, i as int, date), x);
                    }
                }
            },
        }
    } else {
        psy_idle_turn(players, date, i, Ghost(start));
    }
}

/// The psychologist phase step for player number `i` when it is not an
/// active psychologist: a paralyzed psychologist is told so, others do nothing.
#[verifier::rlimit(60)]
fn psy_idle_turn(players: &mut Vec<Player>, date: u32, i: usize, Ghost(start): Ghost<Seq<Player>>)
    requires
        i < old(players)@.len(),
        old(players)@.len() == start.len(),
        !psy_active(start[i as int]),
        forall|j: int| 0 <= j < start.len() ==> #[trigger] receives(
            psy_state(start, j, i as int),
            old(players)@[j],
            psy_mail(start, j, i as int, date),
        ),
    ensures
        final(players)@.len() == start.len(),
        forall|j: int| 0 <= j < start.len() ==> #[trigger] receives(
            psy_state(start, j, i + 1),
            final(players)@[j],
            psy_mail(start, j, i + 1, date),
        ),
{
    let ghost cur = players@;
    proof {
        lemma_plain_sources();
        lemma_receives_unfold(psy_state(start, i as int, i as int), cur[i as int], psy_mail(start, i as int, i as int, date));
        assert forall|j: int| 0 <= j < start.len() implies analysed_among(start, j, i + 1) == analysed_among(start, j, i as int)
            && #[trigger] psy_state(start, j, i + 1) == psy_state(start, j, i as int) by {
        }
    }
    if players[i].alive && players[i].role == Role::Psychologist && players[i].paralyzed {
        let ghost note = (date, self_diagnosis(), psy_paralyzed_text());
        send_to(players, date, PlayerId { id: i }, String::from_str("Outil d'auto diagnostique"),
            String::from_str("Vous avez été paralysé·e pendant la nuit, vous n'avez donc pu analyser personne"));
        proof {
            assert forall|j: int| 0 <= j < start.len() implies #[trigger] receives(
                psy_state(start, j, i + 1),
                players@[j],
                psy_mail(start, j, i + 1, date),
            ) by {
                let x = sent_extra(cur[j], j, i as int, note);
                if j == i {
                    assert(x =~= seq![note]);
                } else {
                    assert(x =~= Seq::empty());
                }
                assert(psy_mail(start, j, i + 1, date) =~= psy_mail(start, j, i as int, date) + x);
                assert(psy_state(start, j, i + 1) == psy_state(start, j, i as int));
                lemma_receives_trans(psy_state(start, j, i + 1), cur[j], players@[j], psy_mail(start, j, i as int, date), x);
            }
        }
    } else {
        proof {
            assert forall|j: int| 0 <= j < start.len() implies #[trigger] receives(
                psy_state(start, j, i + 1),
                players@[j],
                psy_mail(start, j, i + 1, date),
            ) by {
                assert(psy_mail(start, j, i + 1, date) == psy_mail(start, j, i as int, date));
                assert(psy_state(start, j, i + 1) == psy_state(start, j, i as int));
            }
        }
    }
}

/// Each living psychologist who is not paralyzed wakes up; if they chose
/// someone, that player is marked as analysed and the psychologist learns
/// whether they are a mutant. A paralyzed psychologist is told so instead.
pub fn run_psychologist_phase(game: &mut GameStatus)
    requires
        old(game).wf(),
    ensures
        *final(game) == old(game).with_players(final(game).players),
        final(game).players@.len() == old(game).players@.len(),
        forall|j: int| 0 <= j < old(game).players@.len() ==> #[trigger] receives(
            psy_state(old(game).players@, j, old(game).players@.len() as int),
            final(game).players@[j],
            psy_mail(old(game).players@, j, old(game).players@.len() as int, old(game).date),
        ),
{
    let ghost start = old(game).players@;
    let date = game.date;
    proof {
        assert forall|j: int| 0 <= j < start.len() implies #[trigger] receives(
            psy_state(start, j, 0),
            game.players@[j],
            psy_mail(start, j, 0, date),
        ) by {
            lemma_receives_nothing(start[j]);
            assert(psy_state(start, j, 0) == start[j]);
        }
    }
    let mut i: usize = 0;
    while i < game.players.len()
        invariant
            i <= game.players@.len(),
            game.players@.len() == start.len(),
            start == old(game).players@,
            ids_match(start),
            targets_valid(start),
            *game == old(game).with_players(game.players),
            date == old(game).date,
            forall|j: int| 0 <= j < start.len() ==> #[trigger] receives(
                psy_state(start, j, i as int),
                game.players@[j],
                psy_mail(start, j, i as int, date),
            ),
        decreases game.players.len() - i,
    {
        psy_turn(&mut game.players, date, i, Ghost(start));
        i = i + 1;
    }
}

} // verus!
