use vstd::prelude::*;
use crate::action::ActionType;
use crate::game::{GameStatus, living_mutants, ids_match, targets_valid, receives, mailbox, lemma_receives_unfold};
use crate::mail::Note;
use crate::message::{overmind, self_diagnosis};
use crate::phases::only_if;
use crate::mutant_votes::{lemma_same_votes, same_vote};
use crate::mutants::{alert_mutants, apply_infection, apply_paralysis, infected_state, infection_only_grows, night_flags,
    same_identity, mutant_woken, paralyzed_state, infection_mail, paralysis_text, paralyzed_notice, roster_text};
use crate::player::{Player, PlayerId};
use crate::votes::{compute_votes_winner, votes_for, ballots};

verus! {

/// `w` is what the vote of `voters` for `action` can give: `None` exactly
/// when nobody voted, else a target with the most votes.
pub open spec fn is_vote_winner(voters: Seq<Player>, action: ActionType, w: Option<PlayerId>) -> bool {
    &&& (w is None) == (ballots(voters, action) == 0)
    &&& w is Some ==> votes_for(voters, action, w.unwrap()) > 0
    &&& w is Some ==> forall|t: PlayerId| #[trigger] votes_for(voters, action, t) <= votes_for(voters, action, w.unwrap())
}

/// `w` designates the player at position `j`.
pub open spec fn picks(w: Option<PlayerId>, j: int) -> bool {
    w is Some && w.unwrap().id == j
}

/// The players once the infection attempt on `w1` is resolved, mail aside.
pub open spec fn after_infection(s: Seq<Player>, w1: Option<PlayerId>) -> Seq<Player> {
    Seq::new(s.len(), |j: int| infected_state(s[j], picks(w1, j)))
}

/// The infection attempt on `w1` turns player `p`, at position `j`.
pub open spec fn turned(p: Player, j: int, w1: Option<PlayerId>) -> bool {
    picks(w1, j) && !p.infected && !p.resilient
}

/// The mutants' night turns `s` into `f`, with infection target `w1` and
/// paralysis target `w2`, the latter counted once the infection is resolved:
/// the living mutants wake up, the target of the infection turns mutant
/// unless already one or resilient, the target of the paralysis is
/// paralyzed, and nothing else of any player changes but its mailbox.
pub open spec fn mutant_night(s: Seq<Player>, f: Seq<Player>, w1: Option<PlayerId>, w2: Option<PlayerId>) -> bool {
    &&& is_vote_winner(living_mutants(s), ActionType::Infect, w1)
    &&& w1 is Some ==> w1.unwrap().id < s.len()
    &&& is_vote_winner(living_mutants(after_infection(s, w1)), ActionType::Paralyze, w2)
    &&& w2 is Some ==> w2.unwrap().id < s.len()
    &&& f.len() == s.len()
    &&& forall|j: int| 0 <= j < s.len() ==> night_flags(
        #[trigger] s[j],
        f[j],
        s[j].infected || turned(s[j], j, w1),
        s[j].spy_info.was_infected || turned(s[j], j, w1),
        s[j].paralyzed || picks(w2, j),
        s[j].spy_info.was_paralyzed || picks(w2, j),
        s[j].spy_info.woke_up || (s[j].alive && s[j].infected),
    )
}

/// What the mutants' night adds to the mailbox of player number `j` of `s`,
/// with infection target `w1` and paralysis target `w2`: the roster for the
/// living mutants, then the infection notices, then the paralysis notices,
/// which go to the mutants as they are once the infection is resolved.
pub open spec fn mutant_mail(s: Seq<Player>, j: int, w1: Option<PlayerId>, w2: Option<PlayerId>, date: u32) -> Seq<Note> {
    only_if(s[j].alive && s[j].infected, (date, overmind(), roster_text(s)))
        + (if w1 is Some { infection_mail(s, j, w1.unwrap(), date) } else { Seq::empty() })
        + (if w2 is Some {
            only_if(
                s[j].alive && (s[j].infected || turned(s[j], j, w1)),
                (date, overmind(), paralysis_text(s[w2.unwrap().id as int].name@)),
            ) + only_if(j == w2.unwrap().id, (date, self_diagnosis(), paralyzed_notice()))
        } else {
            Seq::empty()
        })
}

/// The mailboxes after the mutants' night: each gets exactly `mutant_mail`.
pub open spec fn mutant_mailboxes(s: Seq<Player>, f: Seq<Player>, w1: Option<PlayerId>, w2: Option<PlayerId>, date: u32) -> bool {
    &&& f.len() == s.len()
    &&& forall|j: int| 0 <= j < s.len() ==> #[trigger] mailbox(f[j]) == mailbox(s[j]) + mutant_mail(s, j, w1, w2, date)
}

proof fn lemma_mail_woken(o: Player, f: Player, m: Seq<Note>)
    requires
        receives(mutant_woken(o), f, m),
    ensures
        mailbox(f) == mailbox(o) + m,
{
    lemma_receives_unfold(mutant_woken(o), f, m);
}

proof fn lemma_mail_infected(o: Player, f: Player, h: bool, m: Seq<Note>)
    requires
        receives(infected_state(o, h), f, m),
    ensures
        mailbox(f) == mailbox(o) + m,
{
    lemma_receives_unfold(infected_state(o, h), f, m);
}

proof fn lemma_mail_paralyzed(o: Player, f: Player, h: bool, m: Seq<Note>)
    requires
        receives(paralyzed_state(o, h), f, m),
    ensures
        mailbox(f) == mailbox(o) + m,
{
    lemma_receives_unfold(paralyzed_state(o, h), f, m);
}

/// The mail of one player through the three steps of the night.
proof fn lemma_night_mail_one(
    s0: Seq<Player>, s1: Seq<Player>, s2: Seq<Player>, s3: Seq<Player>,
    j: int, w1: Option<PlayerId>, w2: Option<PlayerId>, date: u32,
)
    requires
        0 <= j < s0.len(),
        s1.len() == s0.len(),
        s2.len() == s0.len(),
        s3.len() == s0.len(),
        w1 is Some ==> w1.unwrap().id < s0.len(),
        w2 is Some ==> w2.unwrap().id < s0.len(),
        mailbox(s1[j]) == mailbox(s0[j]) + only_if(s0[j].alive && s0[j].infected, (date, overmind(), roster_text(s0))),
        s1[j].alive == s0[j].alive && s1[j].infected == s0[j].infected && s1[j].resilient == s0[j].resilient && s1[j].name == s0[j].name,
        w1 is Some ==> s1[w1.unwrap().id as int].name == s0[w1.unwrap().id as int].name,
        w1 is None ==> s2[j] == s1[j],
        w1 is Some ==> mailbox(s2[j]) == mailbox(s1[j]) + infection_mail(s1, j, w1.unwrap(), date),
        s2[j].alive == s0[j].alive,
        s2[j].infected == (s0[j].infected || turned(s0[j], j, w1)),
        w2 is Some ==> s2[w2.unwrap().id as int].name == s0[w2.unwrap().id as int].name,
        w2 is None ==> s3[j] == s2[j],
        w2 is Some ==> mailbox(s3[j]) == mailbox(s2[j])
            + (only_if(s2[j].alive && s2[j].infected, (date, overmind(), paralysis_text(s2[w2.unwrap().id as int].name@)))
                + only_if(j == w2.unwrap().id, (date, self_diagnosis(), paralyzed_notice()))),
    ensures
        mailbox(s3[j]) == mailbox(s0[j]) + mutant_mail(s0, j, w1, w2, date),
{
    let m1 = only_if(s0[j].alive && s0[j].infected, (date, overmind(), roster_text(s0)));
    let m2 = if w1 is Some { infection_mail(s0, j, w1.unwrap(), date) } else { Seq::<Note>::empty() };
    let m3 = if w2 is Some {
        only_if(
            s0[j].alive && (s0[j].infected || turned(s0[j], j, w1)),
            (date, overmind(), paralysis_text(s0[w2.unwrap().id as int].name@)),
        ) + only_if(j == w2.unwrap().id, (date, self_diagnosis(), paralyzed_notice()))
    } else {
        Seq::<Note>::empty()
    };
    if w1 is Some {
        assert(infection_mail(s1, j, w1.unwrap(), date) == m2);
    }
    assert(mailbox(s2[j]) =~= mailbox(s0[j]) + m1 + m2);
    assert(mailbox(s3[j]) =~= mailbox(s0[j]) + m1 + m2 + m3);
    assert(mutant_mail(s0, j, w1, w2, date) == m1 + m2 + m3);
    assert(mailbox(s0[j]) + m1 + m2 + m3 =~= mailbox(s0[j]) + (m1 + m2 + m3));
}

proof fn lemma_voted_target_valid(players: Seq<Player>, action: ActionType, t: PlayerId)
    requires
        targets_valid(players),
        votes_for(living_mutants(players), action, t) > 0,
    ensures
        t.id < players.len(),
{
    let lm = living_mutants(players);
    let f = lm.filter(|p: Player| crate::votes::votes_for_target(p, action, t));
    lm.lemma_filter_pred(|p: Player| crate::votes::votes_for_target(p, action, t), 0);
    let v = f[0];
    assert(f.contains(v));
    lm.lemma_filter_contains_rev(|p: Player| crate::votes::votes_for_target(p, action, t), v);
    players.lemma_filter_contains_rev(|p: Player| p.alive && p.infected, v);
    let k = choose|k: int| 0 <= k < players.len() && players[k] == v;
    assert(players[k].actions@.contains_key(action));
}

/// The winner of the living mutants' vote for `action`, tie broken at random.
fn mutants_choice(game: &GameStatus, action: ActionType) -> (r: Option<PlayerId>)
    requires
        targets_valid(game.players@),
    ensures
        is_vote_winner(living_mutants(game.players@), action, r),
        r is Some ==> game.valid_id(r.unwrap()),
{
    let voters = game.get_living_mutants();
    match compute_votes_winner(&voters, action) {
        Some((p, _)) => {
            proof { lemma_voted_target_valid(game.players@, action, p); }
            Some(p)
        },
        None => None,
    }
}

/// The mutants' night: they learn who they are and wake up, then the living
/// mutants' majority for infection, ties broken at random, is infected unless
/// resilient or already infected, and the majority for paralysis, counted
/// again with the newly infected, is paralyzed. The mail of each step is
/// stated by `alert_mutants`, `apply_infection` and `apply_paralysis`.
pub fn run_mutants_phase(game: &mut GameStatus) -> (r: Option<PlayerId>)
    requires
        old(game).wf(),
    ensures
        r is None,
        *final(game) == old(game).with_players(final(game).players),
        final(game).wf(),
        exists|w1: Option<PlayerId>, w2: Option<PlayerId>|
            #[trigger] mutant_night(old(game).players@, final(game).players@, w1, w2)
            && mutant_mailboxes(old(game).players@, final(game).players@, w1, w2, old(game).date),
        forall|j: int| 0 <= j < old(game).players@.len() ==> infection_only_grows(#[trigger] old(game).players@[j], final(game).players@[j]),
{
    let ghost s0 = game.players@;
    let ghost date = game.date;
    let w1 = mutants_choice(game, ActionType::Infect);
    alert_mutants(game);
    let ghost s1 = game.players@;
    apply_infection(game, w1);
    let ghost s2 = game.players@;
    proof {
        assert forall|j: int| 0 <= j < s0.len() implies same_vote(after_infection(s0, w1)[j], #[trigger] s2[j])
            && same_identity(s0[j], s2[j]) by {
            assert(same_identity(s0[j], s1[j]));
            assert(same_identity(s1[j], s2[j]));
        }
        assert forall|i: int| 0 <= i < s2.len() implies #[trigger] s2[i].id.id == i by {
            assert(same_identity(s0[i], s2[i]));
        }
        assert forall|i: int, act: ActionType| 0 <= i < s2.len() && #[trigger] s2[i].actions@.contains_key(act)
            implies s2[i].actions@[act].id < s2.len() by {
            assert(same_identity(s0[i], s2[i]));
        }
    }
    let w2 = mutants_choice(game, ActionType::Paralyze);
    apply_paralysis(game, w2);
    let ghost s3 = game.players@;
    proof {
        let after = after_infection(s0, w1);
        assert forall|t: PlayerId| #[trigger] votes_for(living_mutants(after), ActionType::Paralyze, t)
            == votes_for(living_mutants(s2), ActionType::Paralyze, t) by {
            lemma_same_votes(after, s2, ActionType::Paralyze, t);
        }
        lemma_same_votes(after, s2, ActionType::Paralyze, PlayerId { id: 0 });
        assert(is_vote_winner(living_mutants(after), ActionType::Paralyze, w2));
        assert forall|j: int| 0 <= j < s0.len() implies night_flags(
            #[trigger] s0[j],
            s3[j],
            s0[j].infected || turned(s0[j], j, w1),
            s0[j].spy_info.was_infected || turned(s0[j], j, w1),
            s0[j].paralyzed || picks(w2, j),
            s0[j].spy_info.was_paralyzed || picks(w2, j),
            s0[j].spy_info.woke_up || (s0[j].alive && s0[j].infected),
        ) && infection_only_grows(s0[j], s3[j]) by {
            assert(same_identity(s0[j], s1[j]));
        }
        assert(mutant_night(s0, s3, w1, w2));
        assert forall|j: int| 0 <= j < s0.len() implies #[trigger] mailbox(s3[j]) == mailbox(s0[j]) + mutant_mail(s0, j, w1, w2, date) by {
            lemma_mail_woken(s0[j], s1[j], only_if(s0[j].alive && s0[j].infected, (date, overmind(), roster_text(s0))));
            assert(same_identity(s0[j], s1[j]));
            if w1 is Some {
                let w = w1.unwrap().id as int;
                lemma_mail_infected(s1[j], s2[j], j == w, infection_mail(s1, j, w1.unwrap(), date));
                assert(same_identity(s0[w], s1[w]));
            }
            if w2 is Some {
                let w = w2.unwrap().id as int;
                lemma_mail_paralyzed(s2[j], s3[j], j == w,
                    only_if(s2[j].alive && s2[j].infected, (date, overmind(), paralysis_text(s2[w].name@)))
                        + only_if(j == w, (date, self_diagnosis(), paralyzed_notice())));
                assert(same_identity(s0[w], s2[w]));
            }
            assert(same_vote(after_infection(s0, w1)[j], s2[j]));
            assert(after_infection(s0, w1)[j] == infected_state(s0[j], picks(w1, j)));
            assert(s2[j].infected == (s0[j].infected || turned(s0[j], j, w1)));
            assert(same_identity(s0[j], s2[j]));
            lemma_night_mail_one(s0, s1, s2, s3, j, w1, w2, date);
        }
        assert(mutant_mailboxes(s0, s3, w1, w2, date));
        assert forall|i: int| 0 <= i < s3.len() implies #[trigger] s3[i].id.id == i by {
            assert(same_identity(s0[i], s3[i]));
        }
        assert forall|i: int, act: ActionType| 0 <= i < s3.len() && #[trigger] s3[i].actions@.contains_key(act)
            implies s3[i].actions@[act].id < s3.len() by {
            assert(same_identity(s0[i], s3[i]));
        }
    }
    None
}

} // verus!
