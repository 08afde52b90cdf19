use vstd::prelude::*;
use crate::action::ActionType;
use crate::player::{Player, PlayerId};

verus! {

/// The players behind a list of references.
pub open spec fn deref_all(s: Seq<&Player>) -> Seq<Player> {
    s.map_values(|p: &Player| *p)
}

/// `p` has selected `target` for `action`.
pub open spec fn votes_for_target(p: Player, action: ActionType, target: PlayerId) -> bool {
    p.actions@.contains_key(action) && p.actions@[action] == target
}

/// How many of `voters` selected `target` for `action`.
pub open spec fn votes_for(voters: Seq<Player>, action: ActionType, target: PlayerId) -> nat {
    voters.filter(|p: Player| votes_for_target(p, action, target)).len()
}

/// How many of `voters` selected someone for `action`.
pub open spec fn ballots(voters: Seq<Player>, action: ActionType) -> nat {
    voters.filter(|p: Player| p.actions@.contains_key(action)).len()
}

/// How many of `voters` selected no one for `action`.
pub open spec fn abstentions(voters: Seq<Player>, action: ActionType) -> nat {
    voters.filter(|p: Player| !p.actions@.contains_key(action)).len()
}

/// Sum of the counts of a tally.
pub open spec fn tally_total(t: Seq<(PlayerId, usize)>) -> nat
    decreases t.len(),
{
    if t.len() == 0 {
        0
    } else {
        tally_total(t.drop_last()) + t.last().1 as nat
    }
}

/// `t` lists each target that received at least one vote exactly once, with
/// its number of votes.
pub open spec fn is_tally(t: Seq<(PlayerId, usize)>, voters: Seq<Player>, action: ActionType) -> bool {
    &&& forall|k: int, l: int| 0 <= k < l < t.len() ==> t[k].0 != t[l].0
    &&& forall|k: int| 0 <= k < t.len() ==> #[trigger] t[k].1 == votes_for(voters, action, t[k].0) && t[k].1 > 0
    &&& forall|target: PlayerId| votes_for(voters, action, target) > 0
        ==> exists|k: int| 0 <= k < t.len() && #[trigger] t[k].0 == target
}

/// The winner that the running selection over `t` ends with: a strictly
/// larger count replaces the current winner, and an equal one replaces it
/// when the coin of its position says so. Only coins at such ties are read.
pub open spec fn running_winner(t: Seq<(PlayerId, usize)>, coins: Seq<bool>) -> Option<(PlayerId, usize)>
    decreases t.len(),
{
    if t.len() == 0 {
        None
    } else {
        let prev = running_winner(t.drop_last(), coins);
        let e = t.last();
        match prev {
            None => Some(e),
            Some(w) => if e.1 > w.1 || (e.1 == w.1 && coins[t.len() - 1]) {
                Some(e)
            } else {
                prev
            },
        }
    }
}

proof fn lemma_running_winner_coins(t: Seq<(PlayerId, usize)>, c1: Seq<bool>, c2: Seq<bool>)
    requires
        forall|i: int| 0 <= i < t.len() ==> c1[i] == c2[i],
    ensures
        running_winner(t, c1) == running_winner(t, c2),
    decreases t.len(),
{
    if t.len() > 0 {
        lemma_running_winner_coins(t.drop_last(), c1, c2);
        assert(c1[t.len() - 1] == c2[t.len() - 1]);
    }
}

proof fn lemma_tally_update(t: Seq<(PlayerId, usize)>, k: int, e: (PlayerId, usize))
    requires
        0 <= k < t.len(),
    ensures
        tally_total(t.update(k, e)) + t[k].1 == tally_total(t) + e.1,
    decreases t.len(),
{
    if k == t.len() - 1 {
        assert(t.update(k, e).drop_last() =~= t.drop_last());
    } else {
        assert(t.update(k, e).drop_last() =~= t.drop_last().update(k, e));
        lemma_tally_update(t.drop_last(), k, e);
    }
}

proof fn lemma_tally_positive(t: Seq<(PlayerId, usize)>)
    requires
        forall|k: int| 0 <= k < t.len() ==> #[trigger] t[k].1 > 0,
    ensures
        (tally_total(t) == 0) == (t.len() == 0),
    decreases t.len(),
{
    if t.len() > 0 {
        lemma_tally_positive(t.drop_last());
    }
}

/// Every voter either votes or abstains.
pub proof fn lemma_ballots_and_abstentions(voters: Seq<Player>, action: ActionType)
    ensures
        ballots(voters, action) + abstentions(voters, action) == voters.len(),
    decreases voters.len(),
{
    if voters.len() > 0 {
        let d = voters.drop_last();
        lemma_ballots_and_abstentions(d, action);
        assert(voters =~= d.push(voters.last()));
        d.lemma_filter_push(voters.last(), |p: Player| p.actions@.contains_key(action));
        d.lemma_filter_push(voters.last(), |p: Player| !p.actions@.contains_key(action));
    }
}

proof fn lemma_filter_drop_rejected(s: Seq<Player>, k: int, pred: spec_fn(Player) -> bool)
    requires
        0 <= k < s.len(),
        !pred(s[k]),
    ensures
        s.remove(k).filter(pred) == s.filter(pred),
{
    let x = s[k];
    assert(s =~= s.take(k) + (seq![x] + s.skip(k + 1)));
    assert(s.remove(k) =~= s.take(k) + s.skip(k + 1));
    Seq::filter_distributes_over_add(s.take(k), seq![x] + s.skip(k + 1), pred);
    Seq::filter_distributes_over_add(seq![x], s.skip(k + 1), pred);
    Seq::filter_distributes_over_add(s.take(k), s.skip(k + 1), pred);
    assert(seq![x] =~= Seq::<Player>::empty().push(x));
    Seq::<Player>::empty().lemma_filter_push(x, pred);
    assert(Seq::<Player>::empty().filter(pred) =~= Seq::<Player>::empty());
    assert(seq![x].filter(pred) =~= Seq::<Player>::empty());
    assert(seq![x].filter(pred) + s.skip(k + 1).filter(pred) =~= s.skip(k + 1).filter(pred));
}

/// A voter without a selection counts for no one: leaving it out changes
/// no count and no number of ballots, so the tally stays the same.
pub proof fn lemma_abstainer_counts_for_no_one(voters: Seq<Player>, k: int, action: ActionType)
    requires
        0 <= k < voters.len(),
        !voters[k].actions@.contains_key(action),
    ensures
        forall|t: PlayerId| #[trigger] votes_for(voters.remove(k), action, t) == votes_for(voters, action, t),
        ballots(voters.remove(k), action) == ballots(voters, action),
        forall|r: Seq<(PlayerId, usize)>| is_tally(r, voters, action) ==> #[trigger] is_tally(r, voters.remove(k), action),
{
    assert forall|t: PlayerId| #[trigger] votes_for(voters.remove(k), action, t) == votes_for(voters, action, t) by {
        lemma_filter_drop_rejected(voters, k, |p: Player| votes_for_target(p, action, t));
    }
    lemma_filter_drop_rejected(voters, k, |p: Player| p.actions@.contains_key(action));
}

/// Relies on rand::random::<bool>: a fair coin; nothing is promised of the outcome.
#[verifier::external_body]
fn coin_flip() -> bool {
    rand::random()
}

/// Counts, for each target that `voters` selected for `action`, how many of
/// them did; a voter without a selection counts for no one.
pub fn compute_votes_results(voters: &Vec<&Player>, action: ActionType) -> (r: Vec<(PlayerId, usize)>)
    ensures
        is_tally(r@, deref_all(voters@), action),
        tally_total(r@) == ballots(deref_all(voters@), action),
        tally_total(r@) + abstentions(deref_all(voters@), action) == voters@.len(),
{
    let ghost all = deref_all(voters@);
    let mut r: Vec<(PlayerId, usize)> = Vec::new();
    let mut i: usize = 0;
    while i < voters.len()
        invariant
            i <= voters@.len(),
            all == deref_all(voters@),
            is_tally(r@, all.take(i as int), action),
            tally_total(r@) == ballots(all.take(i as int), action),
            tally_total(r@) <= i,
        decreases voters.len() - i,
    {
        let ghost before = all.take(i as int);
        let ghost after = all.take(i + 1);
        let ghost voter = all[i as int];
        proof {
            assert(after =~= before.push(voter));
            before.lemma_filter_push(voter, |p: Player| p.actions@.contains_key(action));
            assert forall|t: PlayerId| #[trigger] votes_for(after, action, t)
                == votes_for(before, action, t) + (if votes_for_target(voter, action, t) { 1nat } else { 0nat }) by {
                before.lemma_filter_push(voter, |p: Player| votes_for_target(p, action, t));
            }
        }
        match voters[i].actions.get(&action) {
            None => {
                assert(is_tally(r@, after, action));
            },
            Some(target) => {
                let target = *target;
                let ghost old_r = r@;
                let mut k: usize = 0;
                while k < r.len()
                    invariant
                        k <= r@.len(),
                        r@ == old_r,
                        forall|j: int| 0 <= j < k ==> r@[j].0 != target,
                    ensures
                        k <= r@.len(),
                        r@ == old_r,
                        forall|j: int| 0 <= j < k ==> r@[j].0 != target,
                        k < r@.len() ==> r@[k as int].0 == target,
                    decreases r.len() - k,
                {
                    if r[k].0 == target {
                        break;
                    }
                    k = k + 1;
                }
                let found = k < r.len();
                if found {
                    let n = r[k].1;
                    proof {
                        lemma_tally_update(r@, k as int, (target, (n + 1) as usize));
                        lemma_tally_positive(r@);
                    }
                    r.set(k, (target, n + 1));
                    proof {
                        assert forall|t: PlayerId| votes_for(after, action, t) > 0 implies exists|j: int|
                            0 <= j < r@.len() && #[trigger] r@[j].0 == t by {
                            if votes_for(before, action, t) > 0 {
                                let j = choose|j: int| 0 <= j < old_r.len() && #[trigger] old_r[j].0 == t;
                                assert(r@[j].0 == t);
                            } else {
                                assert(r@[k as int].0 == t);
                            }
                        }
                    }
                } else {
                    r.push((target, 1));
                    proof {
                        assert(r@.drop_last() =~= old_r);
                        assert forall|t: PlayerId| votes_for(before, action, t) > 0 implies t != target by {
                            let j = choose|j: int| 0 <= j < old_r.len() && #[trigger] old_r[j].0 == t;
                        }
                        assert forall|t: PlayerId| votes_for(after, action, t) > 0 implies exists|j: int|
                            0 <= j < r@.len() && #[trigger] r@[j].0 == t by {
                            if votes_for(before, action, t) > 0 {
                                let j = choose|j: int| 0 <= j < old_r.len() && #[trigger] old_r[j].0 == t;
                                assert(r@[j].0 == t);
                            } else {
                                assert(r@[r@.len() - 1].0 == t);
                            }
                        }
                    }
                }
            },
        }
        i = i + 1;
    }
    proof {
        assert(all.take(voters@.len() as int) =~= all);
        lemma_ballots_and_abstentions(all, action);
    }
    r
}

/// The running selection over `results`, with `coins[k]` settling a tie at
/// position `k`.
pub fn pick_winner(results: &Vec<(PlayerId, usize)>, coins: &Vec<bool>) -> (r: Option<(PlayerId, usize)>)
    requires
        coins@.len() >= results@.len(),
    ensures
        r == running_winner(results@, coins@),
{
    let mut winner: Option<(PlayerId, usize)> = None;
    let mut k: usize = 0;
    while k < results.len()
        invariant
            k <= results@.len(),
            coins@.len() >= results@.len(),
            winner == running_winner(results@.take(k as int), coins@),
        decreases results.len() - k,
    {
        let e = results[k];
        proof {
            assert(results@.take(k + 1).drop_last() =~= results@.take(k as int));
        }
        winner = match winner {
            None => Some(e),
            Some(w) => if e.1 > w.1 || (e.1 == w.1 && coins[k]) {
                Some(e)
            } else {
                Some(w)
            },
        };
        k = k + 1;
    }
    assert(results@.take(results@.len() as int) =~= results@);
    winner
}

/// The target with the most votes for `action` among `voters`, with its count;
/// `None` when nobody voted. It is the running selection (`running_winner`)
/// over the tally in order, with a fair coin tossed only at each tie.
pub fn compute_votes_winner(voters: &Vec<&Player>, action: ActionType) -> (r: Option<(PlayerId, usize)>)
    ensures
        (r is None) == (ballots(deref_all(voters@), action) == 0),
        r is Some ==> {
            let (w, n) = r.unwrap();
            &&& n == votes_for(deref_all(voters@), action, w)
            &&& n > 0
            &&& forall|t: PlayerId| #[trigger] votes_for(deref_all(voters@), action, t) <= n
        },
        forall|t: PlayerId| #![trigger votes_for(deref_all(voters@), action, t)]
            votes_for(deref_all(voters@), action, t) > 0
            && (forall|u: PlayerId| u != t ==> #[trigger] votes_for(deref_all(voters@), action, u)
                < votes_for(deref_all(voters@), action, t))
            ==> r == Some((t, votes_for(deref_all(voters@), action, t) as usize)),
        exists|t: Seq<(PlayerId, usize)>, coins: Seq<bool>| #[trigger] running_winner(t, coins) == r
            && is_tally(t, deref_all(voters@), action) && coins.len() == t.len(),
{
    let ghost all = deref_all(voters@);
    let results = compute_votes_results(voters, action);
    let mut r: Option<(PlayerId, usize)> = None;
    let ghost mut coins: Seq<bool> = Seq::empty();
    let mut k: usize = 0;
    while k < results.len()
        invariant
            k <= results@.len(),
            coins.len() == k,
            r == running_winner(results@.take(k as int), coins),
            (r is None) == (k == 0),
            r is Some ==> results@.take(k as int).contains(r.unwrap()),
            r is Some ==> forall|l: int| 0 <= l < k ==> #[trigger] results@[l].1 <= r.unwrap().1,
        decreases results.len() - k,
    {
        let e = results[k];
        let ghost before = r;
        let ghost old_coins = coins;
        let mut drawn = false;
        match r {
            None => {
                r = Some(e);
            },
            Some(w) => {
                if e.1 > w.1 {
                    r = Some(e);
                } else if e.1 == w.1 {
                    drawn = coin_flip();
                    if drawn {
                        r = Some(e);
                    }
                }
            },
        }
        proof {
            coins = old_coins.push(drawn);
            assert(results@.take(k + 1).drop_last() =~= results@.take(k as int));
            lemma_running_winner_coins(results@.take(k as int), old_coins, coins);
            assert(coins[k as int] == drawn);
            assert(results@.take(k + 1)[k as int] == e);
            if before is Some {
                let i = choose|i: int| 0 <= i < results@.take(k as int).len() && results@.take(k as int)[i] == before.unwrap();
                assert(results@.take(k + 1)[i] == before.unwrap());
            }
        }
        k = k + 1;
    }
    proof {
        assert(results@.take(results@.len() as int) =~= results@);
        lemma_tally_positive(results@);
        assert(running_winner(results@, coins) == r);
    }
    proof {
        if r is Some {
            let (w, n) = r.unwrap();
            let j = choose|j: int| 0 <= j < results@.len() && results@[j] == (w, n);
            assert(results@[j] == (w, n));
            assert forall|t: PlayerId| #[trigger] votes_for(all, action, t) <= n by {
                if votes_for(all, action, t) > 0 {
                    let l = choose|l: int| 0 <= l < results@.len() && #[trigger] results@[l].0 == t;
                    assert(results@[l].1 <= n);
                }
            }
        }
        assert forall|t: PlayerId| #![trigger votes_for(all, action, t)]
            votes_for(all, action, t) > 0
            && (forall|u: PlayerId| u != t ==> #[trigger] votes_for(all, action, u) < votes_for(all, action, t))
            implies r == Some((t, votes_for(all, action, t) as usize)) by {
            let l = choose|l: int| 0 <= l < results@.len() && #[trigger] results@[l].0 == t;
            assert(results@[l].1 > 0);
            let (w, n) = r.unwrap();
            if w != t {
                assert(votes_for(all, action, w) < votes_for(all, action, t));
            }
        }
    }
    r
}

} // verus!
