use vstd::prelude::*;
use crate::action::ActionType;
use crate::game::{GameStatus, PhaseOfDay};
use crate::player::{Player, PlayerId};
use crate::role::Role;

verus! {

/// One entry of a logged-in player's menu.
#[derive(Clone, Copy, Debug, PartialEq, Eq, Structural)]
pub enum MenuEntry {
    LogOut,
    Target(ActionType),
    CycleInactivePhysicians,
    TogglePhysicianKill,
    ChooseHackTarget,
    ToggleMutantKill,
}

/// The entries that the role of `p` adds.
pub open spec fn role_entries(p: Player) -> Seq<MenuEntry> {
    match p.role {
        Role::Psychologist => seq![MenuEntry::Target(ActionType::Psychoanalyze)],
        Role::Geneticist => seq![MenuEntry::Target(ActionType::Genomyze)],
        Role::Spy => seq![MenuEntry::Target(ActionType::Spy)],
        Role::Physician => if !p.infected {
            seq![MenuEntry::Target(ActionType::Cure), MenuEntry::CycleInactivePhysicians, MenuEntry::TogglePhysicianKill]
        } else {
            Seq::empty()
        },
        Role::Hacker => seq![MenuEntry::ChooseHackTarget],
        _ => Seq::empty(),
    }
}

/// The menu of player `p` during `phase`: logging out; for the living, the
/// elimination vote by day, their role's entries, and the mutants' entries.
pub open spec fn entries_for(p: Player, phase: PhaseOfDay) -> Seq<MenuEntry> {
    seq![MenuEntry::LogOut] + if p.alive {
        (if phase == PhaseOfDay::Day { seq![MenuEntry::Target(ActionType::Eliminate)] } else { Seq::empty() })
            + role_entries(p)
            + (if p.infected {
                seq![MenuEntry::Target(ActionType::Infect), MenuEntry::Target(ActionType::Paralyze), MenuEntry::ToggleMutantKill]
            } else {
                Seq::empty()
            })
    } else {
        Seq::empty()
    }
}

/// Logs player `me` in for today and lists the entries of its menu.
pub fn menu_entries(game: &mut GameStatus, me: PlayerId) -> (r: Vec<MenuEntry>)
    requires
        old(game).valid_id(me),
    ensures
        r@ == entries_for(old(game).players@[me.id as int], old(game).phase),
        *final(game) == old(game).with_players(final(game).players),
        final(game).players@ == old(game).players@.update(
            me.id as int,
            Player { has_connected_today: true, ..old(game).players@[me.id as int] },
        ),
{
    game.players[me.id].has_connected_today = true;
    let p = &game.players[me.id];
    let mut r: Vec<MenuEntry> = Vec::new();
    r.push(MenuEntry::LogOut);
    if p.alive {
        let ghost a = r@;
        if game.phase == PhaseOfDay::Day {
            r.push(MenuEntry::Target(ActionType::Eliminate));
        }
        let ghost b = r@;
        match p.role {
            Role::Psychologist => r.push(MenuEntry::Target(ActionType::Psychoanalyze)),
            Role::Geneticist => r.push(MenuEntry::Target(ActionType::Genomyze)),
            Role::Spy => r.push(MenuEntry::Target(ActionType::Spy)),
            Role::Physician => {
                if !p.infected {
                    r.push(MenuEntry::Target(ActionType::Cure));
                    r.push(MenuEntry::CycleInactivePhysicians);
                    r.push(MenuEntry::TogglePhysicianKill);
                }
            },
            Role::Hacker => r.push(MenuEntry::ChooseHackTarget),
            _ => {},
        }
        assert(r@ =~= b + role_entries(*p));
        let ghost c = r@;
        if p.infected {
            r.push(MenuEntry::Target(ActionType::Infect));
            r.push(MenuEntry::Target(ActionType::Paralyze));
            r.push(MenuEntry::ToggleMutantKill);
        }
        assert(r@ =~= entries_for(old(game).players@[me.id as int], old(game).phase));
    } else {
        assert(r@ =~= entries_for(old(game).players@[me.id as int], old(game).phase));
    }
    r
}

} // verus!
