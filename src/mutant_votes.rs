use vstd::prelude::*;
use crate::action::ActionType;
use crate::game::living_mutants;
use crate::player::Player;
use crate::votes::{votes_for, ballots};
use crate::player::PlayerId;

verus! {

/// `a` and `b` vote alike among the mutants: same life, infection and selections.
pub open spec fn same_vote(a: Player, b: Player) -> bool {
    a.alive == b.alive && a.infected == b.infected && a.actions == b.actions
}

/// Two lists of players that agree on life, infection and selections count
/// the same mutant votes.
pub proof fn lemma_same_votes(a: Seq<Player>, b: Seq<Player>, action: ActionType, t: PlayerId)
    requires
        a.len() == b.len(),
        forall|i: int| 0 <= i < a.len() ==> same_vote(#[trigger] a[i], b[i]),
    ensures
        votes_for(living_mutants(a), action, t) == votes_for(living_mutants(b), action, t),
        ballots(living_mutants(a), action) == ballots(living_mutants(b), action),
    decreases a.len(),
{
    if a.len() > 0 {
        let da = a.drop_last();
        let db = b.drop_last();
        assert forall|i: int| 0 <= i < da.len() implies same_vote(#[trigger] da[i], db[i]) by {
            assert(da[i] == a[i] && db[i] == b[i]);
        }
        assert(same_vote(a[a.len() - 1], b[b.len() - 1]));
        lemma_same_votes(da, db, action, t);
        assert(a =~= da.push(a.last()));
        assert(b =~= db.push(b.last()));
        assert(a.last() == a[a.len() - 1] && b.last() == b[b.len() - 1]);
        da.lemma_filter_push(a.last(), |p: Player| p.alive && p.infected);
        db.lemma_filter_push(b.last(), |p: Player| p.alive && p.infected);
        let fa = da.filter(|p: Player| p.alive && p.infected);
        let fb = db.filter(|p: Player| p.alive && p.infected);
        if a.last().alive && a.last().infected {
            fa.lemma_filter_push(a.last(), |p: Player| crate::votes::votes_for_target(p, action, t));
            fb.lemma_filter_push(b.last(), |p: Player| crate::votes::votes_for_target(p, action, t));
            fa.lemma_filter_push(a.last(), |p: Player| p.actions@.contains_key(action));
            fb.lemma_filter_push(b.last(), |p: Player| p.actions@.contains_key(action));
        }
    }
}

} // verus!
