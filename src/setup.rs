use vstd::prelude::*;
use rand::seq::SliceRandom;
use crate::player::Player;
use crate::game::{ids_match, targets_valid};
use crate::role::Role;

verus! {

/// Why a game cannot start yet.
#[derive(Clone, Copy, Debug, PartialEq, Eq, Structural)]
pub enum SetupError {
    MissingShipName,
    TooFewPlayers,
    RoleCountMismatch { roles: usize, players: usize },
    NoTraitCandidates,
}

/// Fewest players a game starts with.
pub const MIN_PLAYERS: usize = 7;

/// The default number of each role for `n` players: one index case, two
/// physicians, one psychologist, IT engineer and spy, and astronauts for the rest.
pub open spec fn default_count(n: nat, r: Role) -> nat {
    match r {
        Role::Patient0 => 1,
        Role::Physician => 2,
        Role::Psychologist => 1,
        Role::ITEngineer => 1,
        Role::Spy => 1,
        Role::Astronaut => ((if n > 7 { n } else { 7 }) - 6) as nat,
        _ => 0,
    }
}

/// How many of each role the default setup uses for `n_players`, in the
/// order index case, physician, psychologist, IT engineer, spy, astronaut.
pub fn get_default_roles(n_players: usize) -> (r: Vec<(Role, usize)>)
    ensures
        r@.len() == 6,
        forall|k: int| 0 <= k < 6 ==> (#[trigger] r@[k]).1 == default_count(n_players as nat, r@[k].0),
        r@[0].0 == Role::Patient0,
        r@[1].0 == Role::Physician,
        r@[2].0 == Role::Psychologist,
        r@[3].0 == Role::ITEngineer,
        r@[4].0 == Role::Spy,
        r@[5].0 == Role::Astronaut,
{
    let players = if n_players > MIN_PLAYERS { n_players } else { MIN_PLAYERS };
    vec![
        (Role::Patient0, 1),
        (Role::Physician, 2),
        (Role::Psychologist, 1),
        (Role::ITEngineer, 1),
        (Role::Spy, 1),
        (Role::Astronaut, players - 6),
    ]
}

/// A game can start once the ship is named, with at least seven players and
/// exactly one role for each.
pub fn can_create_game(ship_named: bool, n_players: usize, n_roles: usize) -> (r: Result<(), SetupError>)
    ensures
        !ship_named ==> r == Err::<(), SetupError>(SetupError::MissingShipName),
        ship_named && n_players < 7 ==> r == Err::<(), SetupError>(SetupError::TooFewPlayers),
        ship_named && n_players >= 7 && n_roles != n_players
            ==> r == Err::<(), SetupError>(SetupError::RoleCountMismatch { roles: n_roles, players: n_players }),
        r is Ok <==> (ship_named && n_players >= 7 && n_roles == n_players),
{
    if !ship_named {
        Err(SetupError::MissingShipName)
    } else if n_players < MIN_PLAYERS {
        Err(SetupError::TooFewPlayers)
    } else if n_roles != n_players {
        Err(SetupError::RoleCountMismatch { roles: n_roles, players: n_players })
    } else {
        Ok(())
    }
}

/// The roles in declaration order.
pub open spec fn role_order() -> Seq<Role> {
    seq![Role::Patient0, Role::Physician, Role::Psychologist, Role::ITEngineer, Role::Spy, Role::Geneticist,
        Role::Hacker, Role::Traitor, Role::Astronaut]
}

/// Total asked for `r` in `counts`.
pub open spec fn count_of(counts: Seq<(Role, usize)>, r: Role) -> nat
    decreases counts.len(),
{
    if counts.len() == 0 {
        0
    } else {
        count_of(counts.drop_last(), r) + if counts.last().0 == r { counts.last().1 as nat } else { 0 }
    }
}

/// `n` times `r`.
pub open spec fn copies(r: Role, n: nat) -> Seq<Role> {
    Seq::new(n, |_i: int| r)
}

/// The roles of the first `k` kinds of `role_order`, each repeated as `counts` asks.
pub open spec fn roles_in_order(counts: Seq<(Role, usize)>, k: int) -> Seq<Role>
    decreases k,
{
    if k <= 0 {
        Seq::empty()
    } else {
        roles_in_order(counts, k - 1) + copies(role_order()[k - 1], count_of(counts, role_order()[k - 1]))
    }
}

/// Relies on rand's SliceRandom::shuffle with thread_rng: it only swaps
/// elements, so the result holds the same roles.
#[verifier::external_body]
fn shuffle_roles(v: &mut Vec<Role>)
    ensures
        final(v)@.to_multiset() == old(v)@.to_multiset(),
{
    v.shuffle(&mut rand::thread_rng());
}

/// Relies on rand's SliceRandom::shuffle with thread_rng: it only swaps
/// elements, so the result holds the same indices.
#[verifier::external_body]
fn shuffle_indices(v: &mut Vec<usize>)
    ensures
        final(v)@.to_multiset() == old(v)@.to_multiset(),
{
    v.shuffle(&mut rand::thread_rng());
}

fn count_role(counts: &Vec<(Role, usize)>, r: Role) -> (n: usize)
    requires
        count_of(counts@, r) <= usize::MAX,
    ensures
        n == count_of(counts@, r),
{
    let mut n: usize = 0;
    let mut i: usize = 0;
    while i < counts.len()
        invariant
            i <= counts@.len(),
            n == count_of(counts@.take(i as int), r),
            count_of(counts@, r) <= usize::MAX,
        decreases counts.len() - i,
    {
        proof {
            assert(counts@.take(i + 1).drop_last() =~= counts@.take(i as int));
            lemma_count_prefix(counts@, r, i + 1);
        }
        if counts[i].0 == r {
            n = n + counts[i].1;
        }
        i = i + 1;
    }
    assert(counts@.take(counts@.len() as int) =~= counts@);
    n
}

proof fn lemma_count_prefix(counts: Seq<(Role, usize)>, r: Role, k: int)
    requires
        0 <= k <= counts.len(),
    ensures
        count_of(counts.take(k), r) <= count_of(counts, r),
    decreases counts.len() - k,
{
    if k < counts.len() {
        lemma_count_prefix(counts, r, k + 1);
        assert(counts.take(k + 1).drop_last() =~= counts.take(k));
    } else {
        assert(counts.take(k) =~= counts);
    }
}

/// The roles to hand out: each as many times as `counts` asks, in
/// declaration order when debugging, shuffled otherwise.
pub fn get_roles(counts: &Vec<(Role, usize)>, debug: bool) -> (r: Vec<Role>)
    requires
        roles_in_order(counts@, 9).len() <= usize::MAX,
    ensures
        debug ==> r@ == roles_in_order(counts@, 9),
        r@.to_multiset() == roles_in_order(counts@, 9).to_multiset(),
{
    let order = [Role::Patient0, Role::Physician, Role::Psychologist, Role::ITEngineer, Role::Spy, Role::Geneticist,
        Role::Hacker, Role::Traitor, Role::Astronaut];
    assert(order@ == role_order());
    let mut roles: Vec<Role> = Vec::new();
    let mut k: usize = 0;
    while k < 9
        invariant
            k <= 9,
            order@ == role_order(),
            roles@ == roles_in_order(counts@, k as int),
            roles_in_order(counts@, 9).len() <= usize::MAX,
        decreases 9 - k,
    {
        proof { lemma_roles_in_order_grows(counts@, k + 1, 9); }
        let r = order[k];
        let n = count_role(counts, r);
        let mut c: usize = 0;
        let ghost base = roles@;
        while c < n
            invariant
                c <= n,
                roles@ == base + copies(r, c as nat),
                base.len() + n <= usize::MAX,
            decreases n - c,
        {
            roles.push(r);
            assert(roles@ =~= base + copies(r, (c + 1) as nat));
            c = c + 1;
        }
        k = k + 1;
    }
    if !debug {
        shuffle_roles(&mut roles);
    }
    roles
}

proof fn lemma_roles_in_order_grows(counts: Seq<(Role, usize)>, k: int, m: int)
    requires
        0 <= k <= m,
    ensures
        roles_in_order(counts, k).len() <= roles_in_order(counts, m).len(),
    decreases m - k,
{
    if k < m {
        lemma_roles_in_order_grows(counts, k + 1, m);
    }
}

proof fn lemma_permuted(sorted: Seq<usize>, shuffled: Seq<usize>)
    requires
        sorted.to_multiset() == shuffled.to_multiset(),
        forall|k: int, l: int| 0 <= k < l < sorted.len() ==> sorted[k] < sorted[l],
    ensures
        shuffled.len() == sorted.len(),
        shuffled.no_duplicates(),
        forall|k: int| 0 <= k < shuffled.len() ==> sorted.contains(#[trigger] shuffled[k]),
{
    vstd::seq_lib::to_multiset_len(sorted);
    vstd::seq_lib::to_multiset_len(shuffled);
    assert(sorted.no_duplicates());
    sorted.lemma_multiset_has_no_duplicates();
    assert forall|x: usize| shuffled.to_multiset().contains(x) implies shuffled.to_multiset().count(x) == 1 by {
        assert(sorted.to_multiset().contains(x));
    }
    shuffled.lemma_multiset_has_no_duplicates_conv();
    assert forall|k: int| 0 <= k < shuffled.len() implies sorted.contains(#[trigger] shuffled[k]) by {
        assert(shuffled.contains(shuffled[k]));
        vstd::seq_lib::to_multiset_contains(shuffled, shuffled[k]);
        vstd::seq_lib::to_multiset_contains(sorted, shuffled[k]);
    }
}

/// May carry a genetic trait: neither the index case nor a physician.
pub open spec fn trait_candidate(p: Player) -> bool {
    p.role != Role::Patient0 && p.role != Role::Physician
}

/// Marks player `h` host and player `s` resilient.
fn mark_traits(players: &mut Vec<Player>, h: usize, s: usize)
    requires
        h < old(players)@.len(),
        s < old(players)@.len(),
        h != s,
    ensures
        final(players)@ == old(players)@
            .update(h as int, Player { host: true, ..old(players)@[h as int] })
            .update(s as int, Player { resilient: true, ..old(players)@[s as int] }),
{
    players[h].host = true;
    players[s].resilient = true;
}

/// Marks one candidate host and another resilient, drawn at random unless
/// debugging (then the last two candidates), and says which. Fails, changing
/// nothing, with fewer than two candidates.
pub fn assign_traits(players: &mut Vec<Player>, debug: bool) -> (r: Result<(usize, usize), SetupError>)
    ensures
        r is Err <==> old(players)@.filter(|p: Player| trait_candidate(p)).len() < 2,
        r is Err ==> final(players)@ == old(players)@,
        r is Ok ==> ({
            let (h, s) = r.unwrap();
            &&& h < old(players)@.len()
            &&& s < old(players)@.len()
            &&& h != s
            &&& trait_candidate(old(players)@[h as int])
            &&& trait_candidate(old(players)@[s as int])
            &&& final(players)@ == old(players)@
                .update(h as int, Player { host: true, ..old(players)@[h as int] })
                .update(s as int, Player { resilient: true, ..old(players)@[s as int] })
        }),
{
    let candidates = trait_candidates(players, debug);
    if candidates.len() < 2 {
        return Err(SetupError::NoTraitCandidates);
    }
    let n = candidates.len();
    let h = candidates[n - 1];
    let s = candidates[n - 2];
    mark_traits(players, h, s);
    Ok((h, s))
}

/// Positions of the players that may carry a trait, shuffled unless debugging.
fn trait_candidates(players: &Vec<Player>, debug: bool) -> (r: Vec<usize>)
    ensures
        r@.len() == players@.filter(|p: Player| trait_candidate(p)).len(),
        r@.no_duplicates(),
        forall|k: int| 0 <= k < r@.len() ==> (#[trigger] r@[k]) < players@.len() && trait_candidate(players@[r@[k] as int]),
{
    let ghost s0 = players@;
    let mut candidates: Vec<usize> = Vec::new();
    let mut i: usize = 0;
    while i < players.len()
        invariant
            i <= players@.len(),
            players@ == s0,
            candidates@.len() == s0.take(i as int).filter(|p: Player| trait_candidate(p)).len(),
            forall|k: int| 0 <= k < candidates@.len() ==> (#[trigger] candidates@[k]) < i && trait_candidate(s0[candidates@[k] as int]),
            forall|k: int, l: int| 0 <= k < l < candidates@.len() ==> candidates@[k] < candidates@[l],
        decreases players.len() - i,
    {
        proof {
            assert(s0.take(i + 1) =~= s0.take(i as int).push(s0[i as int]));
            s0.take(i as int).lemma_filter_push(s0[i as int], |p: Player| trait_candidate(p));
        }
        if players[i].role != Role::Patient0 && players[i].role != Role::Physician {
            candidates.push(i);
        }
        i = i + 1;
    }
    assert(s0.take(s0.len() as int) =~= s0);
    let ghost sorted = candidates@;
    if !debug {
        shuffle_indices(&mut candidates);
    }
    proof {
        lemma_permuted(sorted, candidates@);
        assert forall|k: int| 0 <= k < candidates@.len() implies (#[trigger] candidates@[k]) < s0.len()
            && trait_candidate(s0[candidates@[k] as int]) by {
            let j = choose|j: int| 0 <= j < sorted.len() && sorted[j] == candidates@[k];
        }
    }
    candidates
}

/// The players of a new game: the `k`-th of `crew` (name, then key) gets id
/// `k` and the role `k` places from the end of `roles`.
pub fn build_players(crew: &Vec<(String, String)>, roles: &Vec<Role>) -> (r: Vec<Player>)
    requires
        crew@.len() <= roles@.len(),
    ensures
        r@.len() == crew@.len(),
        ids_match(r@),
        targets_valid(r@),
        forall|k: int| 0 <= k < r@.len() ==> {
            let p = #[trigger] r@[k];
            &&& p.name == crew@[k].0
            &&& p.key == crew@[k].1
            &&& p.role == roles@[roles@.len() - 1 - k]
            &&& p.alive
            &&& p.infected == (p.role == Role::Patient0)
            &&& !p.host && !p.resilient && !p.paralyzed
            &&& p.messages@.len() == 0
            &&& p.actions@ == Map::<crate::action::ActionType, crate::player::PlayerId>::empty()
        },
{
    let mut r: Vec<Player> = Vec::new();
    let mut k: usize = 0;
    while k < crew.len()
        invariant
            k <= crew@.len(),
            crew@.len() <= roles@.len(),
            r@.len() == k,
            forall|i: int| 0 <= i < k ==> {
                let p = #[trigger] r@[i];
                &&& p.id.id == i
                &&& p.name == crew@[i].0
                &&& p.key == crew@[i].1
                &&& p.role == roles@[roles@.len() - 1 - i]
                &&& p.alive
                &&& p.infected == (p.role == Role::Patient0)
                &&& !p.host && !p.resilient && !p.paralyzed
                &&& p.messages@.len() == 0
                &&& p.actions@ == Map::<crate::action::ActionType, crate::player::PlayerId>::empty()
            },
        decreases crew.len() - k,
    {
        let role = roles[roles.len() - 1 - k];
        let name = crew[k].0.clone();
        let key = crew[k].1.clone();
        r.push(Player::new(k, key, name, role));
        k = k + 1;
    }
    assert forall|i: int, a: crate::action::ActionType| 0 <= i < r@.len() && #[trigger] r@[i].actions@.contains_key(a)
        implies r@[i].actions@[a].id < r@.len() by {
        assert(r@[i].actions@ == Map::<crate::action::ActionType, crate::player::PlayerId>::empty());
    }
    r
}

} // verus!
