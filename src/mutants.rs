use vstd::prelude::*;
use vstd::string::StringExecFns;
use crate::action::ActionType;
use crate::game::{GameStatus, receives, living_mutants, ids_match, targets_valid, lemma_plain_sources, lemma_receives_trans,
    lemma_receives_unfold, lemma_receives_intro, sent_extra, hacked_role, mailbox};
use crate::mail::Note;
use crate::message::{Message, overmind, self_diagnosis};
use crate::phases::only_if;
use crate::player::{Player, PlayerId, SpyData};
use crate::text::{joined, join_strings};
use crate::votes::{compute_votes_winner, votes_for, ballots, deref_all};
use crate::game::lemma_receives_nothing;

verus! {

/// Names of the living infected players, in order.
pub open spec fn mutant_names(s: Seq<Player>) -> Seq<Seq<char>> {
    living_mutants(s).map_values(|p: Player| p.name@)
}

/// The roster that the mutants receive at nightfall.
pub open spec fn roster_text(s: Seq<Player>) -> Seq<char> {
    "Lors du dernier crépuscule, les mutant·e·s étaient: ["@ + joined(mutant_names(s), " "@) + "]"@
}

/// `p`, woken when it is a living mutant.
pub open spec fn mutant_woken(p: Player) -> Player {
    Player { spy_info: SpyData { woke_up: p.spy_info.woke_up || (p.alive && p.infected), ..p.spy_info }, ..p }
}

/// Tells the living mutants who they are, and wakes them up.
pub fn alert_mutants(game: &mut GameStatus)
    ensures
        *final(game) == old(game).with_players(final(game).players),
        final(game).players@.len() == old(game).players@.len(),
        forall|j: int| 0 <= j < old(game).players@.len() ==> receives(
            mutant_woken(#[trigger] old(game).players@[j]),
            final(game).players@[j],
            only_if(
                old(game).players@[j].alive && old(game).players@[j].infected,
                (old(game).date, overmind(), roster_text(old(game).players@)),
            ),
        ),
        forall|j: int| 0 <= j < old(game).players@.len() ==> keeps_infection(#[trigger] old(game).players@[j], final(game).players@[j]),
        forall|j: int| 0 <= j < old(game).players@.len() ==> {
            let o = #[trigger] old(game).players@[j];
            night_flags(o, final(game).players@[j], o.infected, o.spy_info.was_infected, o.paralyzed,
                o.spy_info.was_paralyzed, o.spy_info.woke_up || (o.alive && o.infected))
        },
{
    let ghost start = game.players@;
    let mut names: Vec<String> = Vec::new();
    let mut i: usize = 0;
    while i < game.players.len()
        invariant
            i <= game.players@.len(),
            start == game.players@,
            names@.map_values(|n: String| n@) == living_mutants(start.take(i as int)).map_values(|p: Player| p.name@),
        decreases game.players.len() - i,
    {
        proof {
            assert(start.take(i + 1) =~= start.take(i as int).push(start[i as int]));
            start.take(i as int).lemma_filter_push(start[i as int], |p: Player| p.alive && p.infected);
        }
        let ghost lm = living_mutants(start.take(i as int));
        let ghost before = names@;
        assert(before.map_values(|n: String| n@) == lm.map_values(|p: Player| p.name@));
        if game.players[i].alive && game.players[i].infected {
            names.push(game.players[i].name.clone());
            assert(living_mutants(start.take(i + 1)) == lm.push(start[i as int]));
            assert(names@.len() == before.len() + 1);
            assert(before.map_values(|n: String| n@).len() == before.len());
            assert(lm.map_values(|p: Player| p.name@).len() == lm.len());
            assert(before.len() == lm.len());
            assert forall|k: int| 0 <= k < names@.len() implies (#[trigger] names@[k])@
                == lm.push(start[i as int])[k].name@ by {
                if k < before.len() {
                    assert(before.map_values(|n: String| n@)[k] == lm.map_values(|p: Player| p.name@)[k]);
                    assert(names@[k] == before[k]);
                }
            }
            assert(names@.map_values(|n: String| n@) =~= lm.push(start[i as int]).map_values(|p: Player| p.name@));
        } else {
            assert(living_mutants(start.take(i + 1)) == lm);
        }
        i = i + 1;
    }
    assert(start.take(start.len() as int) =~= start);
    let mut content = String::from_str("Lors du dernier crépuscule, les mutant·e·s étaient: [");
    content.append(join_strings(&names, " ").as_str());
    content.append("]");
    let m = Message { date: game.date, source: String::from_str("Overmind"), content };
    game.broadcast_to_mutants(m);
    let ghost mid = game.players@;
    let mut k: usize = 0;
    while k < game.players.len()
        invariant
            k <= game.players@.len(),
            game.players@.len() == start.len(),
            *game == old(game).with_players(game.players),
            forall|j: int| 0 <= j < start.len() ==> receives(
                if j < k { mutant_woken(#[trigger] start[j]) } else { start[j] },
                game.players@[j],
                only_if(start[j].alive && start[j].infected, (old(game).date, overmind(), roster_text(start))),
            ),
        decreases game.players.len() - k,
    {
        let ghost cur = game.players@;
        let ghost note = (old(game).date, overmind(), roster_text(start));
        proof {
            lemma_receives_unfold(start[k as int], cur[k as int], only_if(start[k as int].alive && start[k as int].infected, note));
        }
        if game.players[k].alive && game.players[k].infected {
            game.players[k].spy_info.woke_up = true;
            proof {
                lemma_receives_intro(mutant_woken(start[k as int]), game.players@[k as int], only_if(start[k as int].alive && start[k as int].infected, note));
            }
        } else {
            assert(mutant_woken(start[k as int]) == start[k as int]);
        }
        k = k + 1;
    }
    proof {
        assert forall|j: int| 0 <= j < start.len() implies keeps_infection(#[trigger] start[j], game.players@[j])
            && night_flags(start[j], game.players@[j], start[j].infected, start[j].spy_info.was_infected, start[j].paralyzed,
                start[j].spy_info.was_paralyzed, start[j].spy_info.woke_up || (start[j].alive && start[j].infected)) by {
            lemma_receives_unfold(mutant_woken(start[j]), game.players@[j], only_if(start[j].alive && start[j].infected, (old(game).date, overmind(), roster_text(start))));
        }
    }
}

/// `b` is the same person as `a`: same id, key, name, role, life, traits and selections.
pub open spec fn same_identity(a: Player, b: Player) -> bool {
    &&& b.id == a.id
    &&& b.key == a.key
    &&& b.name == a.name
    &&& b.role == a.role
    &&& b.alive == a.alive
    &&& b.host == a.host
    &&& b.resilient == a.resilient
    &&& b.actions == a.actions
}

/// `b` is `a` with the night flags given.
pub open spec fn night_flags(a: Player, b: Player, infected: bool, was_infected: bool, paralyzed: bool, was_paralyzed: bool, woke_up: bool) -> bool {
    &&& same_identity(a, b)
    &&& b.infected == infected
    &&& b.spy_info.was_infected == was_infected
    &&& b.paralyzed == paralyzed
    &&& b.spy_info.was_paralyzed == was_paralyzed
    &&& b.spy_info.woke_up == woke_up
}

proof fn lemma_infection_flags(o: Player, f: Player, h: bool, m: Seq<Note>)
    requires
        receives(infected_state(o, h), f, m),
    ensures
        infection_only_grows(o, f),
        night_flags(o, f, o.infected || (h && !o.infected && !o.resilient), o.spy_info.was_infected || (h && !o.infected && !o.resilient),
            o.paralyzed, o.spy_info.was_paralyzed, o.spy_info.woke_up),
{
    lemma_receives_unfold(infected_state(o, h), f, m);
}

proof fn lemma_paralysis_flags(o: Player, f: Player, h: bool, m: Seq<Note>)
    requires
        receives(paralyzed_state(o, h), f, m),
    ensures
        keeps_infection(o, f),
        night_flags(o, f, o.infected, o.spy_info.was_infected, o.paralyzed || h, o.spy_info.was_paralyzed || h, o.spy_info.woke_up),
{
    lemma_receives_unfold(paralyzed_state(o, h), f, m);
}

/// `b` has the infection status and genetic traits of `a`.
pub open spec fn keeps_infection(a: Player, b: Player) -> bool {
    b.infected == a.infected && b.resilient == a.resilient
}

/// `b` is infected if `a` was, and a resilient `a` is not newly infected in `b`.
pub open spec fn infection_only_grows(a: Player, b: Player) -> bool {
    &&& a.infected ==> b.infected
    &&& a.resilient ==> b.infected == a.infected
    &&& b.resilient == a.resilient
}

/// Notice to the mutants that spores were sent to `name`.
pub open spec fn spores_text(name: Seq<char>) -> Seq<char> {
    "Nos spores ont été envoyées dans la cabine de "@ + name + ", iel devrait bientôt nous rejoindre..."@
}

/// Welcome notice to a newly infected player.
pub open spec fn welcome_text(name: Seq<char>) -> Seq<char> {
    "Bienvenue "@ + name + ", nous sommes heureuxe de vous compter parmis nous."@
}

/// Notice to a resilient player whom the mutants tried to infect.
pub open spec fn immune_text(name: Seq<char>) -> Seq<char> {
    "Bonne nouvelle "@ + name + ", les mutants ont essayé de vous infecter, mais votre genome vous a protégé!"@
}

/// `p` after the mutants' infection attempt, `hit` saying whether it was the target.
pub open spec fn infected_state(p: Player, hit: bool) -> Player {
    if hit && !p.infected && !p.resilient {
        Player { infected: true, spy_info: SpyData { was_infected: true, ..p.spy_info }, ..p }
    } else {
        p
    }
}

/// What the infection attempt on `w` adds to the mailbox of player number `j` of `s`.
pub open spec fn infection_mail(s: Seq<Player>, j: int, w: PlayerId, date: u32) -> Seq<Note> {
    only_if(s[j].alive && s[j].infected, (date, overmind(), spores_text(s[w.id as int].name@)))
        + (if j == w.id && !s[j].infected {
            if !s[j].resilient {
                seq![(date, overmind(), welcome_text(s[j].name@))]
            } else {
                seq![(date, self_diagnosis(), immune_text(s[j].name@))]
            }
        } else {
            Seq::empty()
        })
}

/// The infection attempt itself, with its mail.
fn infect_target(game: &mut GameStatus, winner: Option<PlayerId>)
    requires
        winner is Some ==> old(game).valid_id(winner.unwrap()),
    ensures
        *final(game) == old(game).with_players(final(game).players),
        final(game).players@.len() == old(game).players@.len(),
        winner is None ==> final(game).players@ == old(game).players@,
        winner is Some ==> forall|j: int| 0 <= j < old(game).players@.len() ==> receives(
            infected_state(#[trigger] old(game).players@[j], j == winner.unwrap().id),
            final(game).players@[j],
            infection_mail(old(game).players@, j, winner.unwrap(), old(game).date),
        ),
{
    let ghost s_in = game.players@;
    match winner {
        None => {},
        Some(w) => {
            let ghost start = game.players@;
            let date = game.date;
            proof { lemma_plain_sources(); }
            let name = game.players[w.id].name.clone();
            let mut content = String::from_str("Nos spores ont été envoyées dans la cabine de ");
            content.append(name.as_str());
            content.append(", iel devrait bientôt nous rejoindre...");
            game.broadcast_to_mutants(Message { date, source: String::from_str("Overmind"), content });
            let ghost mid = game.players@;
            let ghost first = |j: int| only_if(start[j].alive && start[j].infected, (date, overmind(), spores_text(start[w.id as int].name@)));
            proof {
                lemma_receives_unfold(start[w.id as int], mid[w.id as int], first(w.id as int));
            }
            if !game.players[w.id].infected {
                if !game.players[w.id].resilient {
                    game.players[w.id].infected = true;
                    game.players[w.id].spy_info.was_infected = true;
                    let ghost changed = game.players@;
                    let mut welcome = String::from_str("Bienvenue ");
                    welcome.append(name.as_str());
                    welcome.append(", nous sommes heureuxe de vous compter parmis nous.");
                    game.send_message(w, String::from_str("Overmind"), welcome);
                    proof {
                        assert forall|j: int| 0 <= j < start.len() implies receives(
                            infected_state(#[trigger] start[j], j == w.id),
                            game.players@[j],
                            infection_mail(start, j, w, date),
                        ) by {
                            let x = sent_extra(changed[j], j, w.id as int, (date, overmind(), welcome_text(start[w.id as int].name@)));
                            lemma_receives_unfold(start[j], mid[j], first(j));
                            if j == w.id {
                                lemma_receives_intro(infected_state(start[j], true), changed[j], first(j));
                                assert(x =~= seq![(date, overmind(), welcome_text(start[j].name@))]);
                            } else {
                                assert(x =~= Seq::empty());
                            }
                            lemma_receives_trans(infected_state(start[j], j == w.id), changed[j], game.players@[j], first(j), x);
                            assert(first(j) + x =~= infection_mail(start, j, w, date));
                        }
                    }
                } else {
                    let mut notice = String::from_str("Bonne nouvelle ");
                    notice.append(name.as_str());
                    notice.append(", les mutants ont essayé de vous infecter, mais votre genome vous a protégé!");
                    game.send_message(w, String::from_str("Outil d'auto diagnostique"), notice);
                    proof {
                        assert forall|j: int| 0 <= j < start.len() implies receives(
                            infected_state(#[trigger] start[j], j == w.id),
                            game.players@[j],
                            infection_mail(start, j, w, date),
                        ) by {
                            let x = sent_extra(mid[j], j, w.id as int, (date, self_diagnosis(), immune_text(start[w.id as int].name@)));
                            if j == w.id {
                                assert(x =~= seq![(date, self_diagnosis(), immune_text(start[j].name@))]);
                            } else {
                                assert(x =~= Seq::empty());
                            }
                            lemma_receives_trans(infected_state(start[j], j == w.id), mid[j], game.players@[j], first(j), x);
                            assert(first(j) + x =~= infection_mail(start, j, w, date));
                        }
                    }
                }
            } else {
                proof {
                    assert forall|j: int| 0 <= j < start.len() implies receives(
                        infected_state(#[trigger] start[j], j == w.id),
                        game.players@[j],
                        infection_mail(start, j, w, date),
                    ) by {
                        assert(first(j) + Seq::empty() =~= infection_mail(start, j, w, date));
                    }
                }
            }
        },
    }
}

/// The mutants' spores reach `winner`: the mutants are told, and the target
/// turns mutant unless already one or resilient, which it is told either way.
pub fn apply_infection(game: &mut GameStatus, winner: Option<PlayerId>)
    requires
        winner is Some ==> old(game).valid_id(winner.unwrap()),
    ensures
        *final(game) == old(game).with_players(final(game).players),
        final(game).players@.len() == old(game).players@.len(),
        winner is None ==> final(game).players@ == old(game).players@,
        winner is Some ==> forall|j: int| 0 <= j < old(game).players@.len() ==> receives(
            infected_state(#[trigger] old(game).players@[j], j == winner.unwrap().id),
            final(game).players@[j],
            infection_mail(old(game).players@, j, winner.unwrap(), old(game).date),
        ),
        forall|j: int| 0 <= j < old(game).players@.len() ==> infection_only_grows(#[trigger] old(game).players@[j], final(game).players@[j]),
        forall|j: int| 0 <= j < old(game).players@.len() ==> {
            let o = #[trigger] old(game).players@[j];
            let hit = winner is Some && winner.unwrap().id == j && !o.infected && !o.resilient;
            night_flags(o, final(game).players@[j], o.infected || hit, o.spy_info.was_infected || hit, o.paralyzed,
                o.spy_info.was_paralyzed, o.spy_info.woke_up)
        },
{
    let ghost s_in = game.players@;
    infect_target(game, winner);
    proof {
        if winner is Some {
            assert forall|j: int| 0 <= j < s_in.len() implies infection_only_grows(#[trigger] s_in[j], game.players@[j])
                && ({
                    let o = s_in[j];
                    let hit = winner is Some && winner.unwrap().id == j && !o.infected && !o.resilient;
                    night_flags(o, game.players@[j], o.infected || hit, o.spy_info.was_infected || hit, o.paralyzed,
                        o.spy_info.was_paralyzed, o.spy_info.woke_up)
                }) by {
                lemma_infection_flags(s_in[j], game.players@[j], j == winner.unwrap().id, infection_mail(s_in, j, winner.unwrap(), old(game).date));
            }
        }
    }
}

/// Notice to the mutants naming the player they paralyzed.
pub open spec fn paralysis_text(name: Seq<char>) -> Seq<char> {
    "Félicitations, cette nuit vous êtes parvenus à paralyser: "@ + name
}

/// Notice to the paralyzed player.
pub open spec fn paralyzed_notice() -> Seq<char> {
    "Vous avez été paralysé pendant la nuit, vous n'avez donc pas pu faire d'action spéciale"@
}

/// `p` after the mutants' paralysis, `hit` saying whether it was the target.
pub open spec fn paralyzed_state(p: Player, hit: bool) -> Player {
    if hit {
        Player { paralyzed: true, spy_info: SpyData { was_paralyzed: true, ..p.spy_info }, ..p }
    } else {
        p
    }
}

/// The paralysis itself, with its mail.
fn paralyze_target(game: &mut GameStatus, winner: Option<PlayerId>)
    requires
        winner is Some ==> old(game).valid_id(winner.unwrap()),
    ensures
        *final(game) == old(game).with_players(final(game).players),
        final(game).players@.len() == old(game).players@.len(),
        winner is None ==> final(game).players@ == old(game).players@,
        winner is Some ==> forall|j: int| 0 <= j < old(game).players@.len() ==> receives(
            paralyzed_state(#[trigger] old(game).players@[j], j == winner.unwrap().id),
            final(game).players@[j],
            only_if(
                old(game).players@[j].alive && old(game).players@[j].infected,
                (old(game).date, overmind(), paralysis_text(old(game).players@[winner.unwrap().id as int].name@)),
            ) + only_if(j == winner.unwrap().id, (old(game).date, self_diagnosis(), paralyzed_notice())),
        ),
{
    let ghost s_in = game.players@;
    match winner {
        None => {},
        Some(w) => {
            let ghost start = game.players@;
            let date = game.date;
            let mut content = String::from_str("Félicitations, cette nuit vous êtes parvenus à paralyser: ");
            content.append(game.players[w.id].name.as_str());
            game.broadcast_to_mutants(Message { date, source: String::from_str("Overmind"), content });
            let ghost mid = game.players@;
            let ghost first = |j: int| only_if(start[j].alive && start[j].infected, (date, overmind(), paralysis_text(start[w.id as int].name@)));
            proof {
                lemma_receives_unfold(start[w.id as int], mid[w.id as int], first(w.id as int));
            }
            game.players[w.id].paralyzed = true;
            game.players[w.id].spy_info.was_paralyzed = true;
            game.players[w.id].send_message(Message {
                date,
                source: String::from_str("Outil d'auto diagnostique"),
                content: String::from_str("Vous avez été paralysé pendant la nuit, vous n'avez donc pas pu faire d'action spéciale"),
            });
            proof {
                assert forall|j: int| 0 <= j < start.len() implies receives(
                    paralyzed_state(#[trigger] start[j], j == w.id),
                    game.players@[j],
                    first(j) + only_if(j == w.id, (date, self_diagnosis(), paralyzed_notice())),
                ) by {
                    if j == w.id {
                        assert(mailbox(game.players@[j]) =~= mailbox(mid[j]) + seq![(date, self_diagnosis(), paralyzed_notice())]);
                        assert(mailbox(game.players@[j]) =~= mailbox(start[j]) + (first(j) + seq![(date, self_diagnosis(), paralyzed_notice())]));
                        lemma_receives_intro(paralyzed_state(start[j], true), game.players@[j], first(j) + seq![(date, self_diagnosis(), paralyzed_notice())]);
                    } else {
                        assert(first(j) + Seq::empty() =~= first(j));
                    }
                }
            }
        },
    }
}

/// The mutants paralyze `winner`: they are told whom, and the target is told
/// that it could not act.
pub fn apply_paralysis(game: &mut GameStatus, winner: Option<PlayerId>)
    requires
        winner is Some ==> old(game).valid_id(winner.unwrap()),
    ensures
        *final(game) == old(game).with_players(final(game).players),
        final(game).players@.len() == old(game).players@.len(),
        winner is None ==> final(game).players@ == old(game).players@,
        winner is Some ==> forall|j: int| 0 <= j < old(game).players@.len() ==> receives(
            paralyzed_state(#[trigger] old(game).players@[j], j == winner.unwrap().id),
            final(game).players@[j],
            only_if(
                old(game).players@[j].alive && old(game).players@[j].infected,
                (old(game).date, overmind(), paralysis_text(old(game).players@[winner.unwrap().id as int].name@)),
            ) + only_if(j == winner.unwrap().id, (old(game).date, self_diagnosis(), paralyzed_notice())),
        ),
        forall|j: int| 0 <= j < old(game).players@.len() ==> keeps_infection(#[trigger] old(game).players@[j], final(game).players@[j]),
        forall|j: int| 0 <= j < old(game).players@.len() ==> {
            let o = #[trigger] old(game).players@[j];
            let hit = winner is Some && winner.unwrap().id == j;
            night_flags(o, final(game).players@[j], o.infected, o.spy_info.was_infected, o.paralyzed || hit,
                o.spy_info.was_paralyzed || hit, o.spy_info.woke_up)
        },
{
    let ghost s_in = game.players@;
    paralyze_target(game, winner);
    proof {
        if winner is Some {
            let w = winner.unwrap();
            assert forall|j: int| 0 <= j < s_in.len() implies keeps_infection(#[trigger] s_in[j], game.players@[j])
                && ({
                    let o = s_in[j];
                    let hit = w.id == j;
                    night_flags(o, game.players@[j], o.infected, o.spy_info.was_infected, o.paralyzed || hit,
                        o.spy_info.was_paralyzed || hit, o.spy_info.woke_up)
                }) by {
                lemma_paralysis_flags(s_in[j], game.players@[j], j == w.id,
                    only_if(s_in[j].alive && s_in[j].infected, (old(game).date, overmind(), paralysis_text(s_in[w.id as int].name@)))
                        + only_if(j == w.id, (old(game).date, self_diagnosis(), paralyzed_notice())));
            }
        }
    }
}

} // verus!
