use vstd::prelude::*;
use crate::game::{send_to, receives, sent_extra, lemma_receives_trans, lemma_receives_unfold};
use crate::player::{Player, PlayerId};

verus! {

/// A message seen as date, source and content.
pub type Note = (u32, Seq<char>, Seq<char>);

/// What player `p`, at position `j`, receives when `notes` are sent in turn
/// to player number `t`.
pub open spec fn fan(p: Player, j: int, t: int, notes: Seq<Note>) -> Seq<Note>
    decreases notes.len(),
{
    if notes.len() == 0 {
        Seq::empty()
    } else {
        fan(p, j, t, notes.drop_last()) + sent_extra(p, j, t, notes.last())
    }
}

/// What player `p`, at position `j`, receives once the players before
/// position `n` have each sent their `notes` to themselves.
pub open spec fn night_mail(p: Player, j: int, n: int, notes: spec_fn(int) -> Seq<Note>) -> Seq<Note>
    decreases n,
{
    if n <= 0 {
        Seq::empty()
    } else {
        night_mail(p, j, n - 1, notes) + fan(p, j, n - 1, notes(n - 1))
    }
}

/// Same interception, and so the same mail, for `a` and `b`.
pub open spec fn same_interception(a: Player, b: Player) -> bool {
    a.alive == b.alive && a.role == b.role && a.hacker_target == b.hacker_target
}

proof fn lemma_fan_push(
    base: Player,
    s: Player,
    c: Player,
    f: Player,
    j: int,
    t: int,
    before: Seq<Note>,
    notes: Seq<Note>,
    m: Note,
)
    requires
        same_interception(s, c),
        receives(base, c, before + fan(s, j, t, notes)),
        receives(c, f, sent_extra(c, j, t, m)),
    ensures
        receives(base, f, before + fan(s, j, t, notes.push(m))),
{
    assert(notes.push(m).drop_last() =~= notes);
    assert(sent_extra(c, j, t, m) == sent_extra(s, j, t, m));
    lemma_receives_trans(base, c, f, before + fan(s, j, t, notes), sent_extra(c, j, t, m));
    assert(before + fan(s, j, t, notes) + sent_extra(s, j, t, m) =~= before + fan(s, j, t, notes.push(m)));
}

/// Sends each of `contents`, from `source`, to `target`, in order.
pub fn send_all(players: &mut Vec<Player>, date: u32, target: usize, source: &str, contents: &Vec<String>,
    Ghost(start): Ghost<Seq<Player>>, Ghost(base): Ghost<Seq<Player>>, Ghost(before): Ghost<spec_fn(int) -> Seq<Note>>)
    requires
        target < old(players)@.len(),
        old(players)@.len() == start.len(),
        base.len() == start.len(),
        forall|j: int| 0 <= j < start.len() ==> same_interception(#[trigger] start[j], old(players)@[j]),
        forall|j: int| 0 <= j < start.len() ==> receives(#[trigger] base[j], old(players)@[j], before(j)),
    ensures
        final(players)@.len() == start.len(),
        forall|j: int| 0 <= j < start.len() ==> same_interception(#[trigger] start[j], final(players)@[j]),
        forall|j: int| 0 <= j < start.len() ==> receives(
            #[trigger] base[j],
            final(players)@[j],
            before(j) + fan(start[j], j, target as int, contents@.map_values(|c: String| (date, source@, c@))),
        ),
{
    let ghost all = contents@.map_values(|c: String| (date, source@, c@));
    proof {
        assert forall|j: int| 0 <= j < start.len() implies receives(
            #[trigger] base[j],
            players@[j],
            before(j) + fan(start[j], j, target as int, all.take(0)),
        ) by {
            assert(fan(start[j], j, target as int, all.take(0)) =~= Seq::empty());
            assert(before(j) + Seq::empty() =~= before(j));
        }
    }
    let mut k: usize = 0;
    while k < contents.len()
        invariant
            k <= contents@.len(),
            target < players@.len(),
            players@.len() == start.len(),
            base.len() == start.len(),
            all == contents@.map_values(|c: String| (date, source@, c@)),
            forall|j: int| 0 <= j < start.len() ==> same_interception(#[trigger] start[j], players@[j]),
            forall|j: int| 0 <= j < start.len() ==> receives(
                #[trigger] base[j],
                players@[j],
                before(j) + fan(start[j], j, target as int, all.take(k as int)),
            ),
        decreases contents.len() - k,
    {
        let ghost cur = players@;
        send_to(players, date, PlayerId { id: target }, source.to_string(), contents[k].clone());
        proof {
            assert(all.take(k + 1) =~= all.take(k as int).push(all[k as int]));
            assert forall|j: int| 0 <= j < start.len() implies receives(
                #[trigger] base[j],
                players@[j],
                before(j) + fan(start[j], j, target as int, all.take(k + 1)),
            ) by {
                lemma_receives_unfold(cur[j], players@[j], sent_extra(cur[j], j, target as int, all[k as int]));
                lemma_fan_push(base[j], start[j], cur[j], players@[j], j, target as int, before(j), all.take(k as int), all[k as int]);
            }
        }
        proof {
            assert forall|j: int| 0 <= j < start.len() implies same_interception(#[trigger] start[j], players@[j]) by {
                lemma_receives_unfold(cur[j], players@[j], sent_extra(cur[j], j, target as int, all[k as int]));
            }
        }
        k = k + 1;
    }
    assert(all.take(contents@.len() as int) =~= all);
}

} // verus!
