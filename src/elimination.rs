use vstd::prelude::*;
use vstd::string::StringExecFns;
use crate::action::ActionType;
use crate::game::{GameStatus, living_players, mailbox, lemma_receives_unfold, receives};
use crate::message::{Message, central_computer};
use crate::player::{Player, PlayerId};
use crate::role::{Role, role_label};
use crate::text::{decimal, decimal_string};
use crate::votes::{compute_votes_results, is_tally, abstentions, deref_all, tally_total};

verus! {

/// The day vote counted: who got votes, how many voted for no one, the
/// highest count, and the options that reach it (`None` for no one).
pub struct VoteOutcome {
    pub results: Vec<(PlayerId, usize)>,
    pub white_votes: usize,
    pub max_votes: usize,
    pub options: Vec<Option<PlayerId>>,
}

/// Counts the living players' elimination votes and lists the options tied
/// at the top, abstention included: one option means a clear outcome, more
/// mean a tie for the moderator to settle.
pub fn tally_elimination(game: &GameStatus) -> (r: VoteOutcome)
    ensures
        is_tally(r.results@, living_players(game.players@), ActionType::Eliminate),
        r.white_votes == abstentions(living_players(game.players@), ActionType::Eliminate),
        r.white_votes <= r.max_votes,
        forall|k: int| 0 <= k < r.results@.len() ==> (#[trigger] r.results@[k]).1 <= r.max_votes,
        r.max_votes == r.white_votes || exists|k: int| 0 <= k < r.results@.len() && (#[trigger] r.results@[k]).1 == r.max_votes,
        forall|k: int| 0 <= k < r.options@.len() && #[trigger] r.options@[k] is None ==> r.white_votes == r.max_votes,
        forall|k: int| 0 <= k < r.options@.len() && #[trigger] r.options@[k] is Some ==> exists|l: int|
            0 <= l < r.results@.len() && #[trigger] r.results@[l] == (r.options@[k].unwrap(), r.max_votes),
        r.white_votes == r.max_votes ==> r.options@.contains(None),
        r.options@.no_duplicates(),
        forall|l: int| 0 <= l < r.results@.len() && (#[trigger] r.results@[l]).1 == r.max_votes
            ==> r.options@.contains(Some(r.results@[l].0)),
{
    let voters = game.get_players();
    let results = compute_votes_results(&voters, ActionType::Eliminate);
    proof {
        assert(deref_all(voters@) == living_players(game.players@));
    }
    let nv = voters.len();
    let mut cast: usize = 0;
    let mut max_votes: usize = 0;
    let mut k: usize = 0;
    while k < results.len()
        invariant
            k <= results@.len(),
            cast == tally_total(results@.take(k as int)),
            voters@.len() == nv,
            tally_total(results@) + abstentions(living_players(game.players@), ActionType::Eliminate) == voters@.len(),
            forall|l: int| 0 <= l < k ==> (#[trigger] results@[l]).1 <= max_votes,
            max_votes == 0 || exists|l: int| 0 <= l < k && (#[trigger] results@[l]).1 == max_votes,
        decreases results.len() - k,
    {
        proof {
            assert(results@.take(k + 1).drop_last() =~= results@.take(k as int));
            lemma_tally_prefix(results@, k as int);
        }
        cast = cast + results[k].1;
        if results[k].1 > max_votes {
            max_votes = results[k].1;
        }
        k = k + 1;
    }
    assert(results@.take(results@.len() as int) =~= results@);
    let white_votes = voters.len() - cast;
    if white_votes > max_votes {
        max_votes = white_votes;
    }
    let mut options: Vec<Option<PlayerId>> = Vec::new();
    let mut m: usize = 0;
    while m < results.len()
        invariant
            m <= results@.len(),
            white_votes <= max_votes,
            forall|l: int| 0 <= l < results@.len() ==> (#[trigger] results@[l]).1 <= max_votes,
            max_votes == white_votes || exists|l: int| 0 <= l < results@.len() && (#[trigger] results@[l]).1 == max_votes,
            forall|k: int| 0 <= k < options@.len() ==> match #[trigger] options@[k] {
                None => false,
                Some(p) => exists|l: int| 0 <= l < results@.len() && #[trigger] results@[l] == (p, max_votes),
            },
            forall|l: int| 0 <= l < m && (#[trigger] results@[l]).1 == max_votes ==> options@.contains(Some(results@[l].0)),
            forall|k: int, l: int| 0 <= k < l < results@.len() ==> results@[k].0 != results@[l].0,
            options@.no_duplicates(),
            forall|k: int| 0 <= k < options@.len() ==> exists|l: int| 0 <= l < m && #[trigger] options@[k] == Some(results@[l].0),
        decreases results.len() - m,
    {
        if results[m].1 == max_votes {
            let ghost before = options@;
            options.push(Some(results[m].0));
            proof {
                assert(options@[options@.len() - 1] == Some(results@[m as int].0));
                assert forall|l: int| 0 <= l < m + 1 && (#[trigger] results@[l]).1 == max_votes implies options@.contains(Some(results@[l].0)) by {
                    if l < m {
                        let i = choose|i: int| 0 <= i < before.len() && before[i] == Some(results@[l].0);
                        assert(options@[i] == before[i]);
                    } else {
                        assert(options@[options@.len() - 1] == Some(results@[l].0));
                    }
                }
                assert forall|k: int| 0 <= k < options@.len() implies match #[trigger] options@[k] {
                    None => false,
                    Some(p) => exists|l: int| 0 <= l < results@.len() && #[trigger] results@[l] == (p, max_votes),
                } by {
                    if k < before.len() {
                        assert(options@[k] == before[k]);
                    } else {
                        assert(results@[m as int] == (results@[m as int].0, max_votes));
                    }
                }
                assert forall|k: int| 0 <= k < options@.len() implies exists|l: int| 0 <= l < m + 1 && #[trigger] options@[k] == Some(results@[l].0) by {
                    if k < before.len() {
                        assert(options@[k] == before[k]);
                        let l = choose|l: int| 0 <= l < m && #[trigger] before[k] == Some(results@[l].0);
                    } else {
                        assert(options@[k] == Some(results@[m as int].0));
                    }
                }
                assert forall|a: int, b: int| 0 <= a < options@.len() && 0 <= b < options@.len() && a != b implies options@[a] != options@[b] by {
                    if a < before.len() && b < before.len() {
                        assert(options@[a] == before[a] && options@[b] == before[b]);
                    } else if a < before.len() {
                        assert(options@[a] == before[a]);
                        let l = choose|l: int| 0 <= l < m && #[trigger] before[a] == Some(results@[l].0);
                    } else if b < before.len() {
                        assert(options@[b] == before[b]);
                        let l = choose|l: int| 0 <= l < m && #[trigger] before[b] == Some(results@[l].0);
                    }
                }
            }
        }
        m = m + 1;
    }
    let ghost after_scan = options@;
    assert(forall|k: int| 0 <= k < after_scan.len() ==> after_scan[k] is Some);
    if white_votes == max_votes {
        let ghost before = options@;
        options.push(None);
        proof {
            assert forall|a: int, b: int| 0 <= a < options@.len() && 0 <= b < options@.len() && a != b implies options@[a] != options@[b] by {
                if a < before.len() && b < before.len() {
                    assert(options@[a] == before[a] && options@[b] == before[b]);
                } else if a < before.len() {
                    assert(options@[a] == before[a]);
                } else if b < before.len() {
                    assert(options@[b] == before[b]);
                }
            }
            assert(options@[options@.len() - 1] == None::<PlayerId>);
            assert forall|l: int| 0 <= l < results@.len() && (#[trigger] results@[l]).1 == max_votes implies options@.contains(Some(results@[l].0)) by {
                let i = choose|i: int| 0 <= i < before.len() && before[i] == Some(results@[l].0);
                assert(options@[i] == before[i]);
            }
            assert forall|k: int| 0 <= k < options@.len() implies match #[trigger] options@[k] {
                None => white_votes == max_votes,
                Some(p) => exists|l: int| 0 <= l < results@.len() && #[trigger] results@[l] == (p, max_votes),
            } by {
                if k < before.len() {
                    assert(options@[k] == before[k]);
                }
            }
        }
    }
    proof {
        assert(max_votes == white_votes || exists|k: int| 0 <= k < results@.len() && (#[trigger] results@[k]).1 == max_votes);
        assert forall|k: int| 0 <= k < options@.len() && #[trigger] options@[k] is Some implies exists|l: int|
            0 <= l < results@.len() && #[trigger] results@[l] == (options@[k].unwrap(), max_votes) by {
            assert(match options@[k] {
                None => white_votes == max_votes,
                Some(p) => exists|l: int| 0 <= l < results@.len() && #[trigger] results@[l] == (p, max_votes),
            });
        }
    }
    VoteOutcome { results, white_votes, max_votes, options }
}

proof fn lemma_tally_prefix(t: Seq<(PlayerId, usize)>, k: int)
    requires
        0 <= k < t.len(),
    ensures
        tally_total(t.take(k + 1)) == tally_total(t.take(k)) + t[k].1,
        tally_total(t.take(k + 1)) <= tally_total(t),
    decreases t.len() - k,
{
    assert(t.take(k + 1).drop_last() =~= t.take(k));
    if k + 1 < t.len() {
        lemma_tally_prefix(t, k + 1);
    } else {
        assert(t.take(k + 1) =~= t);
    }
}

/// How the death of `p` is announced: its true role, a dead index case
/// passing for an astronaut, and its genetic trait if any.
pub open spec fn announcement(p: Player) -> Seq<char> {
    let shown = if p.role == Role::Patient0 { Role::Astronaut } else { p.role };
    "Conformément à la volonté populaire, "@ + p.name@ + " à été retiré du service actif."@
        + (if p.infected {
            " L'autopsie a révélé que "@ + p.name@ + " était en réalité un·e "@ + role_label(shown) + " mutant·e!"@
        } else {
            " "@ + p.name@ + " était un·e honnête "@ + role_label(p.role) + " dévoué à la mission."@
        })
        + (if p.host {
            " L'analyse génomique a de plus révélé qu'iel était particulierement succeptible à la mutation. Aujourd'hui est donc un grand jour!"@
        } else if p.resilient {
            " L'analyse génomique a de plus révélé qu'iel était résistant à la mutation. Une perte véritablement tragique..."@
        } else {
            Seq::empty()
        })
        + " Vous pouvez lui dire adieu par le hublot tribord :-)"@
}

/// The public announcement of the elimination of `p`.
pub fn death_announcement(p: &Player) -> (r: String)
    ensures
        r@ == announcement(*p),
{
    let mut c = String::from_str("Conformément à la volonté populaire, ");
    c.append(p.name.as_str());
    c.append(" à été retiré du service actif.");
    let ghost a = c@;
    if p.infected {
        let shown = if p.role == Role::Patient0 { Role::Astronaut } else { p.role };
        c.append(" L'autopsie a révélé que ");
        c.append(p.name.as_str());
        c.append(" était en réalité un·e ");
        c.append(shown.to_string().as_str());
        c.append(" mutant·e!");
    } else {
        c.append(" ");
        c.append(p.name.as_str());
        c.append(" était un·e honnête ");
        c.append(p.role.to_string().as_str());
        c.append(" dévoué à la mission.");
    }
    let ghost b = c@;
    if p.host {
        c.append(" L'analyse génomique a de plus révélé qu'iel était particulierement succeptible à la mutation. Aujourd'hui est donc un grand jour!");
    } else if p.resilient {
        c.append(" L'analyse génomique a de plus révélé qu'iel était résistant à la mutation. Une perte véritablement tragique...");
    } else {
        assert(c@ =~= b + Seq::<char>::empty());
    }
    c.append(" Vous pouvez lui dire adieu par le hublot tribord :-)");
    c
}

/// Notice to a player who received `votes` elimination votes.
pub open spec fn vote_notice(votes: usize) -> Seq<char> {
    "Cette nuit, "@ + decimal(votes as nat) + " membres d'équipages ont tenté de vous éliminer."@
}

/// The vote-count notices that the entries of `results` send to player number `j`.
pub open spec fn vote_notices(results: Seq<(PlayerId, usize)>, j: int, date: u32) -> Seq<(u32, Seq<char>, Seq<char>)>
    decreases results.len(),
{
    if results.len() == 0 {
        Seq::empty()
    } else {
        vote_notices(results.drop_last(), j, date) + if results.last().0.id == j {
            seq![(date, central_computer(), vote_notice(results.last().1))]
        } else {
            Seq::empty()
        }
    }
}

/// Cause of death recorded for an eliminated player.
pub open spec fn elimination_cause() -> Seq<char> {
    "Aspiré·e accidentellement par le sas tribord"@
}

/// Notice of a night with no elimination.
pub open spec fn no_elimination_text() -> Seq<char> {
    "Tout le monde a très bien dormi cette nuit."@
}

/// Settles the day vote: each player who got votes is told how many, then
/// `chosen`, if any, dies and everyone hears the announcement; with no one
/// chosen everyone hears that the night was calm.
pub fn eliminate(game: &mut GameStatus, results: &Vec<(PlayerId, usize)>, chosen: Option<PlayerId>)
    requires
        forall|k: int| 0 <= k < results@.len() ==> old(game).valid_id(#[trigger] results@[k].0),
        chosen is Some ==> old(game).valid_id(chosen.unwrap()),
    ensures
        *final(game) == old(game).with_players(final(game).players),
        final(game).players@.len() == old(game).players@.len(),
        forall|j: int| 0 <= j < old(game).players@.len() ==> final(game).players@[j] == (Player {
            messages: final(game).players@[j].messages,
            alive: old(game).players@[j].alive && chosen != Some(PlayerId { id: j as usize }),
            death_date: if chosen == Some(PlayerId { id: j as usize }) { Some(old(game).date) } else { old(game).players@[j].death_date },
            death_cause: if chosen == Some(PlayerId { id: j as usize }) { final(game).players@[j].death_cause } else { old(game).players@[j].death_cause },
            ..(#[trigger] old(game).players@[j])
        }),
        chosen is Some ==> final(game).players@[chosen.unwrap().id as int].death_cause is Some,
        chosen is Some ==> final(game).players@[chosen.unwrap().id as int].death_cause.unwrap()@ == elimination_cause(),
        forall|j: int| 0 <= j < old(game).players@.len() ==> mailbox(#[trigger] final(game).players@[j])
            == mailbox(old(game).players@[j]) + vote_notices(results@, j, old(game).date)
                + seq![(old(game).date, central_computer(), match chosen {
                    Some(p) => announcement(old(game).players@[p.id as int]),
                    None => no_elimination_text(),
                })],
{
    let ghost s = game.players@;
    let date = game.date;
    let count = game.players.len();
    let mut k: usize = 0;
    while k < results.len()
        invariant
            k <= results@.len(),
            game.players@.len() == s.len(),
            s.len() == count,
            *game == old(game).with_players(game.players),
            s == old(game).players@,
            forall|k: int| 0 <= k < results@.len() ==> (#[trigger] results@[k].0).id < s.len(),
            forall|j: int| 0 <= j < s.len() ==> game.players@[j] == (Player { messages: game.players@[j].messages, ..#[trigger] s[j] }),
            forall|j: int| 0 <= j < s.len() ==> mailbox(#[trigger] game.players@[j]) == mailbox(s[j]) + vote_notices(results@.take(k as int), j, date),
            date == old(game).date,
        decreases results.len() - k,
    {
        let (target, votes) = results[k];
        let mut content = String::from_str("Cette nuit, ");
        content.append(decimal_string(votes as u64).as_str());
        content.append(" membres d'équipages ont tenté de vous éliminer.");
        let ghost before = game.players@;
        game.players[target.id].send_message(Message { date, source: String::from_str("Ordinateur Central"), content });
        proof {
            assert(results@.take(k + 1).drop_last() =~= results@.take(k as int));
            assert forall|j: int| 0 <= j < s.len() implies mailbox(#[trigger] game.players@[j]) == mailbox(s[j]) + vote_notices(results@.take(k + 1), j, date) by {
                if j == target.id {
                    assert(mailbox(game.players@[j]) =~= mailbox(before[j]) + seq![(date, central_computer(), vote_notice(votes))]);
                    assert(mailbox(s[j]) + vote_notices(results@.take(k as int), j, date) + seq![(date, central_computer(), vote_notice(votes))]
                        =~= mailbox(s[j]) + vote_notices(results@.take(k + 1), j, date));
                } else {
                    assert(vote_notices(results@.take(k + 1), j, date) =~= vote_notices(results@.take(k as int), j, date));
                }
            }
        }
        k = k + 1;
    }
    assert(results@.take(results@.len() as int) =~= results@);
    let ghost mid = game.players@;
    match chosen {
        Some(p) => {
            game.players[p.id].die(date, String::from_str("Aspiré·e accidentellement par le sas tribord"));
            let content = death_announcement(&game.players[p.id]);
            proof {
                assert(announcement(game.players@[p.id as int]) == announcement(s[p.id as int]));
            }
            let ghost dead = game.players@;
            game.broadcast(Message { date, source: String::from_str("Ordinateur Central"), content });
            proof {
                assert forall|j: int| 0 <= j < s.len() implies mailbox(#[trigger] game.players@[j])
                    == mailbox(s[j]) + vote_notices(results@, j, date) + seq![(date, central_computer(), announcement(s[p.id as int]))]
                    && game.players@[j] == (Player { messages: game.players@[j].messages, ..dead[j] }) by {
                    lemma_receives_unfold(dead[j], game.players@[j], seq![(date, central_computer(), announcement(s[p.id as int]))]);
                    assert(mailbox(dead[j]) == mailbox(mid[j]));
                }
            }
        },
        None => {
            game.broadcast(Message {
                date,
                source: String::from_str("Ordinateur Central"),
                content: String::from_str("Tout le monde a très bien dormi cette nuit."),
            });
            proof {
                assert forall|j: int| 0 <= j < s.len() implies mailbox(#[trigger] game.players@[j])
                    == mailbox(s[j]) + vote_notices(results@, j, date) + seq![(date, central_computer(), no_elimination_text())]
                    && game.players@[j] == (Player { messages: game.players@[j].messages, ..mid[j] }) by {
                    lemma_receives_unfold(mid[j], game.players@[j], seq![(date, central_computer(), no_elimination_text())]);
                }
            }
        },
    }
}

} // verus!
