use vstd::prelude::*;
use crate::action::ActionType;
use crate::game::{GameStatus, PhaseOfDay, receives, living_mutants, lemma_receives_unfold, ids_match, targets_valid, mailbox};
use crate::message::self_diagnosis;
use crate::mutant_night::{mutant_night, mutant_mailboxes};
use crate::message::diagnostic_system;
use crate::mutant_night::run_mutants_phase;
use crate::night::{run_geneticist_phase, run_spy_phase, gen_inspects, gen_notes_fn, spy_notes_fn};
use crate::mail::night_mail;
use crate::phases::{run_it_phase, woken, it_active, it_mail, it_report, it_active_count};
use crate::physicians::{run_physicians_phase, same_but_mail, cared, active_physician, cure_list, curable, notes_to, disabled_ids,
    disabled_text, treatment_notes, active_ids, summary_note, summary_text};
use crate::player::{Player, PlayerId};
use crate::psychologist::{run_psychologist_phase, psy_state, psy_mail};

verus! {

/// `b` is the same player as `a`: same id, key, name, role, life and selections.
pub open spec fn same_player(a: Player, b: Player) -> bool {
    &&& b.id == a.id
    &&& b.key == a.key
    &&& b.name == a.name
    &&& b.role == a.role
    &&& b.alive == a.alive
    &&& b.actions == a.actions
}

proof fn lemma_same_player_wf(a: Seq<Player>, b: Seq<Player>)
    requires
        ids_match(a),
        targets_valid(a),
        a.len() == b.len(),
        forall|j: int| 0 <= j < a.len() ==> same_player(#[trigger] a[j], b[j]),
    ensures
        ids_match(b),
        targets_valid(b),
{
    assert forall|i: int| 0 <= i < b.len() implies #[trigger] b[i].id.id == i by {
        assert(same_player(a[i], b[i]));
    }
    assert forall|i: int, act: ActionType| 0 <= i < b.len() && #[trigger] b[i].actions@.contains_key(act)
        implies b[i].actions@[act].id < b.len() by {
        assert(same_player(a[i], b[i]));
    }
}

/// What the physicians' phase makes of `s`, on `date`.
pub open spec fn physicians_night(s: Seq<Player>, f: Seq<Player>, date: u32) -> bool {
    &&& f.len() == s.len()
    &&& forall|j: int| 0 <= j < s.len() ==> same_but_mail(
        cared(#[trigger] s[j], active_physician(s[j]), cure_list(s).contains(PlayerId { id: j as usize }) && curable(s[j])),
        f[j],
    )
    &&& forall|j: int| 0 <= j < s.len() ==> #[trigger] mailbox(f[j]) == mailbox(s[j])
        + notes_to(disabled_ids(s, s.len() as int), j, (date, self_diagnosis(), disabled_text(s[j])))
        + treatment_notes(s, cure_list(s), j, date)
        + notes_to(active_ids(s, s.len() as int), j, summary_note(date, summary_text(s)))
}

/// What the IT engineers' phase makes of `s`, on `date`.
pub open spec fn it_night(s: Seq<Player>, f: Seq<Player>, date: u32) -> bool {
    &&& f.len() == s.len()
    &&& forall|j: int| 0 <= j < s.len() ==> receives(
        woken(#[trigger] s[j], it_active(s[j])),
        f[j],
        it_mail(s[j], j, s.len() as int, (date, diagnostic_system(), it_report(living_mutants(s).len())), it_active_count(s)),
    )
}

/// What the psychologists' phase makes of `s`, on `date`.
pub open spec fn psy_night(s: Seq<Player>, f: Seq<Player>, date: u32) -> bool {
    &&& f.len() == s.len()
    &&& forall|j: int| 0 <= j < s.len() ==> #[trigger] receives(psy_state(s, j, s.len() as int), f[j], psy_mail(s, j, s.len() as int, date))
}

/// What the geneticists' phase makes of `s`, on `date`.
pub open spec fn gen_night(s: Seq<Player>, f: Seq<Player>, date: u32) -> bool {
    &&& f.len() == s.len()
    &&& forall|j: int| 0 <= j < s.len() ==> receives(
        woken(#[trigger] s[j], gen_inspects(s[j])),
        f[j],
        night_mail(s[j], j, s.len() as int, gen_notes_fn(s, date)),
    )
}

/// What the spies' phase makes of `s`, on `date`.
pub open spec fn spy_night(s: Seq<Player>, f: Seq<Player>, date: u32) -> bool {
    &&& f.len() == s.len()
    &&& forall|j: int| 0 <= j < s.len() ==> receives(#[trigger] s[j], f[j], night_mail(s[j], j, s.len() as int, spy_notes_fn(s, date)))
}

/// The six phases of a night, in order, through the states `s1` to `s6`,
/// with the mutants' targets `w1` and `w2`.
pub open spec fn night_chain(
    s0: Seq<Player>, s1: Seq<Player>, s2: Seq<Player>, s3: Seq<Player>, s4: Seq<Player>, s5: Seq<Player>, s6: Seq<Player>,
    w1: Option<PlayerId>, w2: Option<PlayerId>, date: u32,
) -> bool {
    &&& mutant_night(s0, s1, w1, w2)
    &&& mutant_mailboxes(s0, s1, w1, w2, date)
    &&& physicians_night(s1, s2, date)
    &&& it_night(s2, s3, date)
    &&& psy_night(s3, s4, date)
    &&& gen_night(s4, s5, date)
    &&& spy_night(s5, s6, date)
}

/// The night, in the order the phases depend on one another: mutants,
/// physicians, IT engineers, psychologists, geneticists and last the spies,
/// who see every event of the night; then the next day starts. Returns who
/// died at the hands of the mutants and of the physicians (no one, as these
/// killings are not part of the game yet).
#[verifier::rlimit(60)]
pub fn resolve_night(game: &mut GameStatus) -> (r: (Option<PlayerId>, Option<PlayerId>))
    requires
        old(game).wf(),
        old(game).date < u32::MAX,
    ensures
        r.0 is None,
        r.1 is None,
        final(game).wf(),
        final(game).date == old(game).date + 1,
        final(game).phase == PhaseOfDay::Day,
        final(game).name == old(game).name,
        final(game).creation == old(game).creation,
        final(game).debug == old(game).debug,
        final(game).current_player_id == old(game).current_player_id,
        final(game).players@.len() == old(game).players@.len(),
        forall|j: int| 0 <= j < old(game).players@.len() ==> {
            let p = #[trigger] final(game).players@[j];
            &&& p.id == old(game).players@[j].id
            &&& p.key == old(game).players@[j].key
            &&& p.name == old(game).players@[j].name
            &&& p.role == old(game).players@[j].role
            &&& p.alive == old(game).players@[j].alive
            &&& p.actions@ == Map::<ActionType, PlayerId>::empty()
            &&& !p.has_connected_today
            &&& !p.paralyzed
            &&& p.spy_info.is_clear()
        },
        exists|s1: Seq<Player>, s2: Seq<Player>, s3: Seq<Player>, s4: Seq<Player>, s5: Seq<Player>, s6: Seq<Player>,
            w1: Option<PlayerId>, w2: Option<PlayerId>|
            #[trigger] night_chain(old(game).players@, s1, s2, s3, s4, s5, s6, w1, w2, old(game).date)
            && final(game).players@.len() == s6.len()
            && forall|j: int| 0 <= j < s6.len() ==> #[trigger] final(game).players@[j] == s6[j].turn_reset(),
{
    let ghost s0 = game.players@;
    let killed_by_mutants = run_mutants_phase(game);
    let ghost s1 = game.players@;
    proof {
        assert forall|j: int| 0 <= j < s0.len() implies same_player(#[trigger] s0[j], s1[j]) by {
            let (w1, w2) = choose|w1: Option<PlayerId>, w2: Option<PlayerId>| crate::mutant_night::mutant_night(s0, s1, w1, w2);
            assert(crate::mutant_night::mutant_night(s0, s1, w1, w2));
            assert(crate::mutants::same_identity(s0[j], s1[j]));
        }
    }
    let killed_by_physicians = run_physicians_phase(game);
    let ghost s2 = game.players@;
    proof {
        assert forall|j: int| 0 <= j < s0.len() implies same_player(#[trigger] s0[j], s2[j]) by {
            assert(same_but_mail(cared(s1[j], active_physician(s1[j]), cure_list(s1).contains(PlayerId { id: j as usize }) && curable(s1[j])), s2[j]));
            assert(same_player(s0[j], s1[j]));
        }
        lemma_same_player_wf(s0, s2);
    }
    let date = game.date;
    run_it_phase(game);
    let ghost s3 = game.players@;
    proof {
        assert forall|j: int| 0 <= j < s0.len() implies same_player(#[trigger] s0[j], s3[j]) by {
            lemma_receives_unfold(
                woken(s2[j], it_active(s2[j])),
                s3[j],
                it_mail(s2[j], j, s2.len() as int, (date, diagnostic_system(), it_report(living_mutants(s2).len())), it_active_count(s2)),
            );
            assert(same_player(s0[j], s2[j]));
        }
        lemma_same_player_wf(s0, s3);
    }
    run_psychologist_phase(game);
    let ghost s4 = game.players@;
    proof {
        assert forall|j: int| 0 <= j < s0.len() implies same_player(#[trigger] s0[j], s4[j]) by {
            lemma_receives_unfold(psy_state(s3, j, s3.len() as int), s4[j], psy_mail(s3, j, s3.len() as int, date));
            assert(same_player(s0[j], s3[j]));
        }
        lemma_same_player_wf(s0, s4);
    }
    run_geneticist_phase(game);
    let ghost s5 = game.players@;
    proof {
        assert forall|j: int| 0 <= j < s0.len() implies same_player(#[trigger] s0[j], s5[j]) by {
            lemma_receives_unfold(
                woken(s4[j], gen_inspects(s4[j])),
                s5[j],
                night_mail(s4[j], j, s4.len() as int, gen_notes_fn(s4, date)),
            );
            assert(same_player(s0[j], s4[j]));
        }
        lemma_same_player_wf(s0, s5);
    }
    run_spy_phase(game);
    let ghost s6 = game.players@;
    proof {
        assert forall|j: int| 0 <= j < s0.len() implies same_player(#[trigger] s0[j], s6[j]) by {
            lemma_receives_unfold(s5[j], s6[j], night_mail(s5[j], j, s5.len() as int, spy_notes_fn(s5, date)));
            assert(same_player(s0[j], s5[j]));
        }
    }
    proof {
        let (w1, w2) = choose|w1: Option<PlayerId>, w2: Option<PlayerId>|
            mutant_night(s0, s1, w1, w2) && mutant_mailboxes(s0, s1, w1, w2, old(game).date);
        assert(physicians_night(s1, s2, date));
        assert(it_night(s2, s3, date));
        assert(psy_night(s3, s4, date));
        assert(gen_night(s4, s5, date));
        assert(spy_night(s5, s6, date));
        assert(night_chain(s0, s1, s2, s3, s4, s5, s6, w1, w2, old(game).date));
    }
    game.prepare_new_turn();
    proof {
        assert forall|j: int| 0 <= j < s0.len() implies {
            let p = #[trigger] game.players@[j];
            &&& p.id == s0[j].id
            &&& p.key == s0[j].key
            &&& p.name == s0[j].name
            &&& p.role == s0[j].role
            &&& p.alive == s0[j].alive
            &&& p.actions@ == Map::<ActionType, PlayerId>::empty()
            &&& !p.has_connected_today
            &&& !p.paralyzed
            &&& p.spy_info.is_clear()
        } by {
            assert(game.players@[j] == s6[j].turn_reset());
            crate::player::lemma_turn_reset_clears(s6[j]);
            assert(same_player(s0[j], s6[j]));
        }
        assert forall|i: int| 0 <= i < game.players@.len() implies #[trigger] game.players@[i].id.id == i by {
            assert(game.players@[i].id == s0[i].id);
            assert(s0[i].id.id == i);
        }
        assert forall|i: int, act: ActionType| 0 <= i < game.players@.len() && #[trigger] game.players@[i].actions@.contains_key(act)
            implies game.players@[i].actions@[act].id < game.players@.len() by {
            assert(game.players@[i].actions@ == Map::<ActionType, PlayerId>::empty());
        }
    }
    (killed_by_mutants, killed_by_physicians)
}

} // verus!
