use sporz::action::{get_header_text, get_menu_text, ActionType};
use sporz::elimination::{death_announcement, eliminate, tally_elimination};
use sporz::game::{GameStatus, PhaseOfDay};
use sporz::message::Message;
use sporz::menu::{menu_entries, MenuEntry};
use sporz::mutants::apply_infection;
use sporz::mutant_night::run_mutants_phase;
use sporz::night::{run_geneticist_phase, run_spy_phase, spy_report_lines};
use sporz::phases::run_it_phase;
use sporz::psychologist::run_psychologist_phase;
use sporz::physicians::run_physicians_phase;
use sporz::player::{Player, PlayerId, SpyData};
use sporz::role::Role;
use sporz::setup::{build_players, assign_traits, can_create_game, get_default_roles, get_roles, SetupError};
use sporz::text::{decimal_string, join_strings};
use sporz::view::{Game, PlayerGame};
use sporz::votes::{compute_votes_results, compute_votes_winner, pick_winner};

const NAMES: [&str; 9] = ["Mal", "Zoe", "Wash", "Inara", "Kaylee", "Jayne", "Book", "Simon", "River"];

fn crew(roles: &[Role]) -> GameStatus {
    let mut players = Vec::new();
    for (i, role) in roles.iter().enumerate() {
        players.push(Player::new(i, format!("{}", 100 + i), NAMES[i].to_string(), *role));
    }
    GameStatus::new(String::from("Koursk"), players, true)
}

fn id(i: usize) -> PlayerId {
    PlayerId { id: i }
}

fn vote(game: &mut GameStatus, voter: usize, action: ActionType, target: usize) {
    game.players[voter].set_target(&action, Some(id(target)));
}

fn last_content(p: &Player) -> String {
    p.messages.last().unwrap().content.clone()
}

#[test]
fn new_player_starts_alive_and_only_index_case_infected() {
    let index_case = Player::new(0, String::from("100"), String::from("Mal"), Role::Patient0);
    let doctor = Player::new(1, String::from("101"), String::from("Zoe"), Role::Physician);
    assert!(index_case.infected && index_case.alive);
    assert!(!doctor.infected && doctor.alive && doctor.auto_cure_physician);
    assert_eq!(doctor.id, id(1));
    assert!(doctor.get_target(&ActionType::Cure).is_none());
}

#[test]
fn ended_when_no_mutant_or_only_mutants() {
    let mut game = crew(&[Role::Patient0, Role::Astronaut, Role::Spy]);
    assert!(!game.ended());
    game.players[1].infected = true;
    game.players[2].infected = true;
    assert!(game.ended());
    game.players[0].infected = false;
    game.players[1].infected = false;
    game.players[2].alive = false;
    assert!(game.ended());
    let game = crew(&[Role::Astronaut, Role::Spy]);
    assert!(game.ended());
}

#[test]
fn ended_ignores_dead_players() {
    let mut game = crew(&[Role::Patient0, Role::Astronaut, Role::Spy]);
    game.players[1].alive = false;
    game.players[2].alive = false;
    assert!(game.ended());
}

#[test]
fn new_turn_clears_turn_data() {
    let mut game = crew(&[Role::Patient0, Role::Hacker, Role::Spy]);
    vote(&mut game, 0, ActionType::Infect, 2);
    vote(&mut game, 2, ActionType::Eliminate, 0);
    game.players[1].hacker_target = Some(Role::Spy);
    game.players[2].has_connected_today = true;
    game.players[2].spy_info.woke_up = true;
    game.players[2].spy_info.was_cured = true;
    game.players[0].mutant_kill = true;
    game.players[2].paralyzed = true;
    game.players[2].auto_kill_physician = true;
    game.phase = PhaseOfDay::Twilight;
    game.prepare_new_turn();
    assert_eq!(game.date, 2);
    assert_eq!(game.phase, PhaseOfDay::Day);
    for p in &game.players {
        assert!(p.get_target(&ActionType::Infect).is_none());
        assert!(p.get_target(&ActionType::Eliminate).is_none());
        assert!(!p.has_connected_today);
        assert_eq!(p.spy_info, SpyData::new());
        assert!(p.hacker_target.is_none());
        assert!(!p.mutant_kill);
        assert!(!p.paralyzed);
    }
    assert!(game.players[2].auto_kill_physician);
    assert_eq!(game.players[0].role, Role::Patient0);
}

#[test]
fn tally_sums_to_voters_minus_abstentions() {
    let mut game = crew(&[Role::Astronaut, Role::Astronaut, Role::Astronaut, Role::Spy, Role::Physician]);
    vote(&mut game, 0, ActionType::Eliminate, 3);
    vote(&mut game, 1, ActionType::Eliminate, 3);
    vote(&mut game, 2, ActionType::Eliminate, 4);
    let voters = game.get_players();
    let results = compute_votes_results(&voters, ActionType::Eliminate);
    let total: usize = results.iter().map(|e| e.1).sum();
    assert_eq!(total, 5 - 2);
    assert_eq!(results.len(), 2);
    assert!(results.contains(&(id(3), 2)));
    assert!(results.contains(&(id(4), 1)));
}

#[test]
fn tally_of_abstainers_is_empty_and_has_no_winner() {
    let game = crew(&[Role::Astronaut, Role::Spy]);
    let voters = game.get_players();
    assert!(compute_votes_results(&voters, ActionType::Infect).is_empty());
    assert_eq!(compute_votes_winner(&voters, ActionType::Infect), None);
    let nobody: Vec<&Player> = Vec::new();
    assert_eq!(compute_votes_winner(&nobody, ActionType::Infect), None);
}

#[test]
fn clear_majority_always_wins() {
    let mut game = crew(&[Role::Patient0, Role::Traitor, Role::Astronaut, Role::Spy, Role::Physician]);
    vote(&mut game, 0, ActionType::Infect, 3);
    vote(&mut game, 1, ActionType::Infect, 3);
    vote(&mut game, 2, ActionType::Infect, 4);
    let voters = game.get_players();
    for _ in 0..50 {
        assert_eq!(compute_votes_winner(&voters, ActionType::Infect), Some((id(3), 2)));
    }
}

#[test]
fn tie_is_broken_between_the_tied_only() {
    let mut game = crew(&[Role::Patient0, Role::Traitor, Role::Astronaut]);
    vote(&mut game, 0, ActionType::Infect, 1);
    vote(&mut game, 1, ActionType::Infect, 2);
    let voters = game.get_players();
    for _ in 0..20 {
        let w = compute_votes_winner(&voters, ActionType::Infect).unwrap();
        assert!(w == (id(1), 1) || w == (id(2), 1));
    }
}

#[test]
fn clearing_an_absent_target_changes_nothing_and_setting_twice_is_once() {
    let mut game = crew(&[Role::Psychologist, Role::Astronaut]);
    {
        let mut turn = game.get_player_game(id(0));
        turn.set_current_target(&ActionType::Psychoanalyze, None);
        assert!(turn.get_current_target(&ActionType::Psychoanalyze).is_none());
        turn.set_current_target(&ActionType::Psychoanalyze, Some(id(1)));
        turn.set_current_target(&ActionType::Psychoanalyze, Some(id(1)));
        assert_eq!(turn.get_current_target(&ActionType::Psychoanalyze).unwrap().name, "Zoe");
        assert!(turn.get_current_target(&ActionType::Cure).is_none());
        assert_eq!(turn.get_current_player().name, "Mal");
    }
    assert_eq!(game.players[0].get_target(&ActionType::Psychoanalyze), Some(&id(1)));
    assert!(game.players[1].get_target(&ActionType::Psychoanalyze).is_none());
    game.players[0].set_target(&ActionType::Psychoanalyze, None);
    assert!(game.players[0].get_target(&ActionType::Psychoanalyze).is_none());
}

#[test]
fn restore_keeps_everything_but_the_creation_token() {
    let mut game = crew(&[Role::Patient0, Role::Spy]);
    game.date = 4;
    game.phase = PhaseOfDay::Twilight;
    game.creation = 0;
    let restored = GameStatus::restore_from_backup(game);
    assert_eq!(restored.date, 4);
    assert_eq!(restored.phase, PhaseOfDay::Twilight);
    assert_eq!(restored.name, "Koursk");
    assert_eq!(restored.players.len(), 2);
    assert_eq!(restored.players[1].name, "Zoe");
    assert!(restored.creation > 0);
}

#[test]
fn backup_name_holds_name_token_and_day() {
    let mut game = crew(&[Role::Patient0]);
    game.creation = 1700000000;
    game.date = 3;
    assert_eq!(game.backup_file_name("backups/"), "backups/sporz-Koursk-1700000000-day-3");
}

#[test]
fn infection_of_the_unique_majority() {
    let mut game = crew(&[Role::Patient0, Role::Astronaut, Role::Spy, Role::Physician]);
    game.players[1].infected = true;
    vote(&mut game, 0, ActionType::Infect, 2);
    vote(&mut game, 1, ActionType::Infect, 2);
    vote(&mut game, 2, ActionType::Infect, 3);
    let before = game.players[2].messages.len();
    run_mutants_phase(&mut game);
    let target = &game.players[2];
    assert!(target.infected);
    assert!(target.spy_info.was_infected);
    let welcomes: Vec<&Message> = target.messages[before..].iter().filter(|m| m.content.starts_with("Bienvenue")).collect();
    assert_eq!(welcomes.len(), 1);
    assert_eq!(welcomes[0].content, "Bienvenue Wash, nous sommes heureuxe de vous compter parmis nous.");
    assert_eq!(welcomes[0].source, "Overmind");
    assert!(!game.players[3].infected);
    assert!(game.players[0].spy_info.woke_up && game.players[1].spy_info.woke_up);
    assert!(!game.players[3].spy_info.woke_up);
}

#[test]
fn mutants_roster_names_last_night_mutants() {
    let mut game = crew(&[Role::Patient0, Role::Astronaut, Role::Spy]);
    game.players[1].infected = true;
    run_mutants_phase(&mut game);
    assert_eq!(last_content(&game.players[0]), "Lors du dernier crépuscule, les mutant·e·s étaient: [Mal Zoe]");
    assert!(game.players[2].messages.is_empty());
}

#[test]
fn resilient_target_never_turns() {
    for _ in 0..20 {
        let mut game = crew(&[Role::Patient0, Role::Astronaut, Role::Spy]);
        game.players[2].resilient = true;
        vote(&mut game, 0, ActionType::Infect, 2);
        run_mutants_phase(&mut game);
        assert!(!game.players[2].infected);
        assert!(!game.players[2].spy_info.was_infected);
        assert_eq!(
            last_content(&game.players[2]),
            "Bonne nouvelle Wash, les mutants ont essayé de vous infecter, mais votre genome vous a protégé!"
        );
    }
}

#[test]
fn paralysis_of_the_majority() {
    let mut game = crew(&[Role::Patient0, Role::Astronaut, Role::Spy]);
    vote(&mut game, 0, ActionType::Paralyze, 2);
    run_mutants_phase(&mut game);
    assert!(game.players[2].paralyzed);
    assert!(game.players[2].spy_info.was_paralyzed);
    assert_eq!(last_content(&game.players[0]), "Félicitations, cette nuit vous êtes parvenus à paralyser: Wash");
}

#[test]
fn apply_infection_without_winner_changes_nothing() {
    let mut game = crew(&[Role::Patient0, Role::Astronaut]);
    apply_infection(&mut game, None);
    assert!(!game.players[1].infected);
    assert!(game.players[0].messages.is_empty());
}

#[test]
fn elimination_with_clear_majority_needs_no_tie_break() {
    let mut game = crew(&[Role::Patient0, Role::Physician, Role::Physician, Role::Psychologist, Role::ITEngineer, Role::Spy, Role::Astronaut]);
    for voter in 0..4 {
        vote(&mut game, voter, ActionType::Eliminate, 6);
    }
    let outcome = tally_elimination(&game);
    assert_eq!(outcome.white_votes, 3);
    assert_eq!(outcome.max_votes, 4);
    assert_eq!(outcome.options, vec![Some(id(6))]);
    eliminate(&mut game, &outcome.results, outcome.options[0]);
    let dead = &game.players[6];
    assert!(!dead.alive);
    assert_eq!(dead.death_date, Some(1));
    assert_eq!(dead.get_death_cause(), "Aspiré·e accidentellement par le sas tribord");
    assert_eq!(dead.messages[0].content, "Cette nuit, 4 membres d'équipages ont tenté de vous éliminer.");
    assert_eq!(
        last_content(&game.players[0]),
        "Conformément à la volonté populaire, Book à été retiré du service actif. Book était un·e honnête Astronaute dévoué à la mission. Vous pouvez lui dire adieu par le hublot tribord :-)"
    );
}

#[test]
fn elimination_tie_lists_every_tied_option() {
    let mut game = crew(&[Role::Patient0, Role::Astronaut, Role::Spy, Role::Physician]);
    vote(&mut game, 0, ActionType::Eliminate, 2);
    vote(&mut game, 1, ActionType::Eliminate, 3);
    let outcome = tally_elimination(&game);
    assert_eq!(outcome.max_votes, 2);
    assert_eq!(outcome.options, vec![None]);
    vote(&mut game, 2, ActionType::Eliminate, 3);
    let outcome = tally_elimination(&game);
    assert_eq!(outcome.options.len(), 1);
    vote(&mut game, 3, ActionType::Eliminate, 2);
    let outcome = tally_elimination(&game);
    assert_eq!(outcome.options.len(), 2);
    assert!(outcome.options.contains(&Some(id(2))) && outcome.options.contains(&Some(id(3))));
    eliminate(&mut game, &outcome.results, None);
    assert!(game.players.iter().all(|p| p.alive));
    assert_eq!(last_content(&game.players[1]), "Tout le monde a très bien dormi cette nuit.");
}

#[test]
fn announcement_hides_the_index_case() {
    let mut p = Player::new(0, String::from("100"), String::from("Mal"), Role::Patient0);
    p.host = true;
    assert_eq!(
        death_announcement(&p),
        "Conformément à la volonté populaire, Mal à été retiré du service actif. L'autopsie a révélé que Mal était en réalité un·e Astronaute mutant·e! L'analyse génomique a de plus révélé qu'iel était particulierement succeptible à la mutation. Aujourd'hui est donc un grand jour! Vous pouvez lui dire adieu par le hublot tribord :-)"
    );
}

#[test]
fn cure_fails_on_host() {
    let mut game = crew(&[Role::Patient0, Role::Physician, Role::Astronaut]);
    game.players[2].infected = true;
    game.players[2].host = true;
    vote(&mut game, 1, ActionType::Cure, 2);
    run_physicians_phase(&mut game);
    assert!(game.players[2].infected);
    assert!(!game.players[2].spy_info.was_cured);
    assert_eq!(game.players[2].messages.last().unwrap().source, "Overmind");
    assert!(game.players[1].spy_info.woke_up);
    assert_eq!(
        last_content(&game.players[1]),
        "L'équipe médicale opérationelle de la nuit précédente (Zoe) est parvenue à soigner: [Wash]"
    );
}

#[test]
fn cure_heals_infected_and_spares_index_case() {
    let mut game = crew(&[Role::Patient0, Role::Physician, Role::Physician, Role::Astronaut]);
    game.players[3].infected = true;
    vote(&mut game, 1, ActionType::Cure, 3);
    vote(&mut game, 2, ActionType::Cure, 0);
    run_physicians_phase(&mut game);
    assert!(!game.players[3].infected);
    assert!(game.players[3].spy_info.was_cured);
    assert!(game.players[0].infected);
    assert_eq!(game.players[0].messages.last().unwrap().source, "Équipe médicale");
}

#[test]
fn auto_cure_claims_a_disabled_colleague() {
    let mut game = crew(&[Role::Patient0, Role::Physician, Role::Physician, Role::Astronaut]);
    game.players[2].infected = true;
    vote(&mut game, 1, ActionType::Cure, 3);
    run_physicians_phase(&mut game);
    assert!(!game.players[2].infected);
    assert_eq!(game.players[2].messages[0].content, "Vous êtes infecté·e, vous n'avez donc pas participé aux soins");
    assert!(game.players[3].messages.is_empty());
}

#[test]
fn spy_sees_an_infection_of_the_same_night() {
    let mut game = crew(&[Role::Patient0, Role::Spy, Role::Astronaut]);
    vote(&mut game, 0, ActionType::Infect, 2);
    vote(&mut game, 1, ActionType::Spy, 2);
    run_mutants_phase(&mut game);
    run_physicians_phase(&mut game);
    run_it_phase(&mut game);
    run_psychologist_phase(&mut game);
    run_geneticist_phase(&mut game);
    run_spy_phase(&mut game);
    let reports: Vec<&String> = game.players[1].messages.iter().filter(|m| m.source == "Stalker IV").map(|m| &m.content).collect();
    assert!(reports.contains(&&String::from("Durant votre surveillance, vous avez vu Wash se transformer en mutant·e")));
}

#[test]
fn paralyzed_spy_is_told_so() {
    let mut game = crew(&[Role::Patient0, Role::Spy, Role::Astronaut]);
    game.players[1].paralyzed = true;
    vote(&mut game, 1, ActionType::Spy, 2);
    run_spy_phase(&mut game);
    assert_eq!(game.players[1].messages.len(), 1);
    assert_eq!(game.players[1].messages[0].source, "Outil d'auto diagnostique");
}

#[test]
fn spy_lines_follow_the_flags() {
    let info = SpyData { woke_up: true, was_cured: true, was_infected: false, was_paralyzed: false, was_psychoanalyzed: true };
    let lines = spy_report_lines(&String::from("Zoe"), info);
    assert_eq!(
        lines,
        vec![
            String::from("Durant votre surveillance, vous avez vu Zoe se reveiller et sortir de son dortoir"),
            String::from("Durant votre surveillance, vous avez vu Zoe guérir de sa mutation"),
            String::from("Durant votre surveillance, vous avez vu Zoe être analysé·e par le psychologue"),
        ]
    );
}

#[test]
fn it_engineer_counts_mutants_and_hacker_listens() {
    let mut game = crew(&[Role::Patient0, Role::ITEngineer, Role::Hacker, Role::Astronaut]);
    game.players[3].infected = true;
    game.players[2].hacker_target = Some(Role::ITEngineer);
    run_it_phase(&mut game);
    let report = "L'analyse quantique de cette nuit a révélé la présence de 2 membres d'équipage infectés à bord.";
    assert_eq!(last_content(&game.players[1]), report);
    assert!(game.players[1].spy_info.woke_up);
    assert_eq!(game.players[2].messages.len(), 1);
    assert_eq!(game.players[2].messages[0].source, "Hacked Système de diagnostique");
    assert_eq!(game.players[2].messages[0].content, report);
    assert!(game.players[3].messages.is_empty());
}

#[test]
fn paralyzed_it_engineer_gets_nothing() {
    let mut game = crew(&[Role::Patient0, Role::ITEngineer]);
    game.players[1].paralyzed = true;
    run_it_phase(&mut game);
    assert!(game.players[1].messages.is_empty());
    assert!(!game.players[1].spy_info.woke_up);
}

#[test]
fn psychologist_learns_the_truth() {
    let mut game = crew(&[Role::Patient0, Role::Psychologist, Role::Astronaut]);
    vote(&mut game, 1, ActionType::Psychoanalyze, 0);
    run_psychologist_phase(&mut game);
    assert!(game.players[0].spy_info.was_psychoanalyzed);
    assert!(game.players[1].spy_info.woke_up);
    assert_eq!(
        last_content(&game.players[1]),
        "D'après l'analyse, il semblerait que le comportement déviant de Mal ne découle pas d'un trauma d'enfance, mais d'un changement récent. C'est un·e mutant·e!"
    );
    assert_eq!(game.players[1].messages[0].source, "Freud GPT");
}

#[test]
fn geneticist_reads_traits_and_hacker_gets_a_copy() {
    let mut game = crew(&[Role::Patient0, Role::Geneticist, Role::Astronaut, Role::Hacker]);
    game.players[2].resilient = true;
    game.players[3].hacker_target = Some(Role::Geneticist);
    vote(&mut game, 1, ActionType::Genomyze, 2);
    run_geneticist_phase(&mut game);
    let report = "Votre analyse du génome de Wash révèle qu'il est résistant à l'infection. Il ne deviendra jamais un mutant";
    assert_eq!(last_content(&game.players[1]), report);
    assert_eq!(game.players[1].messages[0].source, "GenoTech v0.17");
    assert_eq!(last_content(&game.players[3]), report);
    assert_eq!(game.players[3].messages[0].source, "Hacked GenoTech v0.17");
}

#[test]
fn send_message_reaches_target_and_only_matching_hackers() {
    let mut game = crew(&[Role::Spy, Role::Hacker, Role::Hacker]);
    game.players[1].hacker_target = Some(Role::Spy);
    game.players[2].hacker_target = Some(Role::Geneticist);
    game.send_message(id(0), String::from("Stalker IV"), String::from("vu"));
    assert_eq!(game.players[0].messages[0].content, "vu");
    assert_eq!(game.players[1].messages[0].source, "Hacked Stalker IV");
    assert!(game.players[2].messages.is_empty());
    game.send_message(id(0), String::from("Overmind"), String::from("secret"));
    assert_eq!(game.players[1].messages.len(), 1);
}

#[test]
fn broadcasts_reach_the_right_mailboxes() {
    let mut game = crew(&[Role::Patient0, Role::Astronaut, Role::Spy]);
    game.players[2].alive = false;
    game.broadcast(Message { date: 1, source: String::from("Ordinateur Central"), content: String::from("a") });
    assert!(game.players.iter().all(|p| p.messages.len() == 1));
    game.broadcast_to_mutants(Message { date: 1, source: String::from("Overmind"), content: String::from("b") });
    assert_eq!(game.players[0].messages.len(), 2);
    assert_eq!(game.players[1].messages.len(), 1);
}

#[test]
fn login_by_key() {
    let game = crew(&[Role::Patient0, Role::Astronaut]);
    assert_eq!(game.get_player_id_from_key(String::from("101")), Some(id(1)));
    assert_eq!(game.get_player_id_from_key(String::from("999")), None);
    assert_eq!(game.get_player(id(1)).name, "Zoe");
    assert_eq!(game.get_player_ids_with_role(Role::Astronaut), vec![id(1)]);
    assert_eq!(game.count_living_mutants(), 1);
}

#[test]
fn texts_and_numbers() {
    assert_eq!(decimal_string(0), "0");
    assert_eq!(decimal_string(907), "907");
    assert_eq!(join_strings(&vec![String::from("a"), String::from("b"), String::from("c")], ", "), "a, b, c");
    assert_eq!(join_strings(&Vec::new(), " "), "");
    let m = Message { date: 12, source: String::from("Overmind"), content: String::from("hi") };
    assert_eq!(m.to_string(), "* Day 12 from [Overmind]: hi");
    assert_eq!(Role::Patient0.to_string(), "Patient·e 0");
    assert_eq!(Role::ITEngineer.to_string(), "Informaticien·ne");
    assert_eq!(get_menu_text(ActionType::Spy), "Surveiller un·e individu·e");
    assert_eq!(get_header_text(ActionType::Genomyze), "Choisissez votre cobaye:");
}

#[test]
fn death_updates_status() {
    let mut p = Player::new(0, String::from("100"), String::from("Mal"), Role::Spy);
    p.die(3, String::from("sas"));
    assert!(!p.alive);
    assert_eq!(p.death_date, Some(3));
    assert_eq!(p.get_death_cause(), "sas");
    p.send_message(Message { date: 3, source: String::from("x"), content: String::from("y") });
    assert_eq!(p.messages.len(), 1);
}

#[test]
fn physician_policy_cycles_and_kill_choices_toggle() {
    let mut p = Player::new(0, String::from("100"), String::from("Mal"), Role::Physician);
    p.cycle_inactive_physician_policy();
    assert!(!p.auto_cure_physician && p.auto_kill_physician);
    p.cycle_inactive_physician_policy();
    assert!(!p.auto_cure_physician && !p.auto_kill_physician);
    p.cycle_inactive_physician_policy();
    assert!(p.auto_cure_physician && !p.auto_kill_physician);
    p.toggle_physician_kill();
    assert!(p.physician_kill);
    p.toggle_mutant_kill();
    p.toggle_mutant_kill();
    assert!(!p.mutant_kill);
}

#[test]
fn default_roles_fill_with_astronauts() {
    let seven = get_default_roles(3);
    assert_eq!(seven, vec![(Role::Patient0, 1), (Role::Physician, 2), (Role::Psychologist, 1), (Role::ITEngineer, 1), (Role::Spy, 1), (Role::Astronaut, 1)]);
    let ten = get_default_roles(10);
    assert_eq!(ten[5], (Role::Astronaut, 4));
    assert_eq!(ten.iter().map(|e| e.1).sum::<usize>(), 10);
}

#[test]
fn setup_validation_errors() {
    assert_eq!(can_create_game(false, 9, 9), Err(SetupError::MissingShipName));
    assert_eq!(can_create_game(true, 6, 6), Err(SetupError::TooFewPlayers));
    assert_eq!(can_create_game(true, 8, 7), Err(SetupError::RoleCountMismatch { roles: 7, players: 8 }));
    assert_eq!(can_create_game(true, 7, 7), Ok(()));
}

#[test]
fn roles_are_listed_in_order_when_debugging() {
    let counts = vec![(Role::Astronaut, 2), (Role::Patient0, 1), (Role::Spy, 1), (Role::Astronaut, 1)];
    assert_eq!(get_roles(&counts, true), vec![Role::Patient0, Role::Spy, Role::Astronaut, Role::Astronaut, Role::Astronaut]);
    let mut shuffled = get_roles(&counts, false);
    shuffled.sort();
    assert_eq!(shuffled, vec![Role::Patient0, Role::Spy, Role::Astronaut, Role::Astronaut, Role::Astronaut]);
}

#[test]
fn traits_go_to_two_distinct_candidates() {
    let mut game = crew(&[Role::Patient0, Role::Physician, Role::Spy, Role::Geneticist, Role::Astronaut]);
    assert_eq!(assign_traits(&mut game.players, true), Ok((4, 3)));
    assert!(game.players[4].host && game.players[3].resilient);
    let mut game = crew(&[Role::Patient0, Role::Physician, Role::Spy, Role::Geneticist, Role::Astronaut]);
    let (h, r) = assign_traits(&mut game.players, false).unwrap();
    assert!(h != r && h >= 2 && r >= 2);
    assert_eq!(game.players.iter().filter(|p| p.host).count(), 1);
    assert_eq!(game.players.iter().filter(|p| p.resilient).count(), 1);
    let mut small = crew(&[Role::Patient0, Role::Physician, Role::Spy]);
    assert_eq!(assign_traits(&mut small.players, false), Err(SetupError::NoTraitCandidates));
    assert!(!small.players[2].host);
}

fn overview<G: Game>(g: &G) -> (u32, bool, PhaseOfDay, Option<PlayerId>) {
    (g.day(), g.debug_mode(), g.phase_of_day(), g.logged_in())
}

#[test]
fn whole_game_and_player_turn_answer_alike() {
    let mut game = crew(&[Role::Patient0, Role::Spy]);
    game.date = 5;
    let whole = overview(&game);
    assert_eq!(whole, (5, true, PhaseOfDay::Day, None));
    let mut turn = game.get_player_game(id(1));
    assert_eq!(overview(&turn), whole);
    assert_eq!(turn.current_player_name(), "Zoe");
    assert!(!turn.has_target(ActionType::Spy));
    turn.set_current_target(&ActionType::Spy, Some(id(0)));
    assert!(turn.has_target(ActionType::Spy));
}

#[test]
fn paralyzed_psychologist_is_told_so() {
    let mut game = crew(&[Role::Patient0, Role::Psychologist, Role::Astronaut]);
    game.players[1].paralyzed = true;
    vote(&mut game, 1, ActionType::Psychoanalyze, 0);
    run_psychologist_phase(&mut game);
    assert_eq!(game.players[1].messages.len(), 1);
    assert_eq!(game.players[1].messages[0].source, "Outil d'auto diagnostique");
    assert!(!game.players[0].spy_info.was_psychoanalyzed);
    assert!(!game.players[1].spy_info.woke_up);
}

#[test]
fn each_candidate_hears_its_vote_count() {
    let mut game = crew(&[Role::Patient0, Role::Astronaut, Role::Spy, Role::Physician]);
    vote(&mut game, 0, ActionType::Eliminate, 2);
    vote(&mut game, 1, ActionType::Eliminate, 2);
    vote(&mut game, 2, ActionType::Eliminate, 3);
    let outcome = tally_elimination(&game);
    assert_eq!(outcome.options, vec![Some(id(2))]);
    eliminate(&mut game, &outcome.results, None);
    assert_eq!(game.players[2].messages[0].content, "Cette nuit, 2 membres d'équipages ont tenté de vous éliminer.");
    assert_eq!(game.players[3].messages[0].content, "Cette nuit, 1 membres d'équipages ont tenté de vous éliminer.");
    assert_eq!(game.players[0].messages.len(), 1);
}

#[test]
fn well_formedness_and_missing_players() {
    let mut game = crew(&[Role::Patient0, Role::Astronaut, Role::Spy]);
    assert!(game.is_well_formed());
    assert_eq!(game.missing_players(), vec![id(0), id(1), id(2)]);
    game.players[1].has_connected_today = true;
    game.players[2].alive = false;
    assert_eq!(game.missing_players(), vec![id(0)]);
    vote(&mut game, 0, ActionType::Infect, 7);
    assert!(!game.is_well_formed());
    game.players[0].set_target(&ActionType::Infect, None);
    game.players[1].id = id(5);
    assert!(!game.is_well_formed());
}

#[test]
fn a_night_runs_every_phase_then_starts_the_next_day() {
    let mut game = crew(&[Role::Patient0, Role::Spy, Role::Astronaut, Role::Physician]);
    vote(&mut game, 0, ActionType::Infect, 2);
    vote(&mut game, 0, ActionType::Paralyze, 3);
    vote(&mut game, 1, ActionType::Spy, 2);
    assert_eq!(sporz::resolve::resolve_night(&mut game), (None, None));
    assert!(game.players[2].infected);
    assert_eq!(game.date, 2);
    assert!(game.players.iter().all(|p| !p.paralyzed && p.spy_info == SpyData::new()));
    assert!(game.players[1].messages.iter().any(|m| m.content == "Durant votre surveillance, vous avez vu Wash se transformer en mutant·e"));
    assert!(game.players[3].messages.iter().any(|m| m.content == "Vous avez été paralysé pendant la nuit, vous n'avez donc pas pu faire d'action spéciale"));
}

#[test]
fn menu_follows_life_phase_role_and_infection() {
    let mut game = crew(&[Role::Patient0, Role::Physician, Role::Hacker]);
    let index_case = menu_entries(&mut game, id(0));
    assert!(game.players[0].has_connected_today);
    assert_eq!(index_case, vec![MenuEntry::LogOut, MenuEntry::Target(ActionType::Eliminate), MenuEntry::Target(ActionType::Infect), MenuEntry::Target(ActionType::Paralyze), MenuEntry::ToggleMutantKill]);
    assert_eq!(menu_entries(&mut game, id(1)), vec![MenuEntry::LogOut, MenuEntry::Target(ActionType::Eliminate), MenuEntry::Target(ActionType::Cure), MenuEntry::CycleInactivePhysicians, MenuEntry::TogglePhysicianKill]);
    game.phase = PhaseOfDay::Twilight;
    assert_eq!(menu_entries(&mut game, id(2)), vec![MenuEntry::LogOut, MenuEntry::ChooseHackTarget]);
    game.players[1].alive = false;
    assert_eq!(menu_entries(&mut game, id(1)), vec![MenuEntry::LogOut]);
}

#[test]
fn players_are_built_in_order_with_roles_from_the_end() {
    let crew_list = vec![(String::from("Mal"), String::from("100")), (String::from("Zoe"), String::from("101"))];
    let players = build_players(&crew_list, &vec![Role::Spy, Role::Patient0, Role::Astronaut]);
    assert_eq!(players.len(), 2);
    assert_eq!(players[0].role, Role::Astronaut);
    assert_eq!(players[1].role, Role::Patient0);
    assert!(players[1].infected);
    assert_eq!(players[1].id, id(1));
    assert_eq!(players[0].key, "100");
    assert!(GameStatus::new(String::from("K"), players, false).is_well_formed());
}

#[test]
fn limited_broadcast_reaches_living_players_selected() {
    let mut game = crew(&[Role::Patient0, Role::Physician, Role::Physician, Role::Spy]);
    game.players[2].alive = false;
    game.limited_broadcast(Message { date: 1, source: String::from("Équipe médicale"), content: String::from("x") }, |p: &Player| p.role == Role::Physician);
    assert_eq!(game.players[1].messages.len(), 1);
    assert!(game.players[2].messages.is_empty());
    assert!(game.players[0].messages.is_empty() && game.players[3].messages.is_empty());
}

#[test]
fn running_winner_follows_the_coins() {
    let results = vec![(id(0), 2), (id(1), 2), (id(2), 1), (id(3), 2)];
    assert_eq!(pick_winner(&results, &vec![false, false, false, false]), Some((id(0), 2)));
    assert_eq!(pick_winner(&results, &vec![false, true, true, false]), Some((id(1), 2)));
    assert_eq!(pick_winner(&results, &vec![false, false, true, true]), Some((id(3), 2)));
    assert_eq!(pick_winner(&Vec::new(), &Vec::new()), None);
}

#[test]
fn day_ends_only_when_everyone_logged_in() {
    let mut game = crew(&[Role::Patient0, Role::Astronaut]);
    game.debug = false;
    assert!(!game.day_can_end());
    game.players[0].has_connected_today = true;
    game.players[1].alive = false;
    assert!(game.day_can_end());
    game.players[0].has_connected_today = false;
    game.debug = true;
    assert!(game.day_can_end());
}

#[test]
fn abstainer_changes_no_tally() {
    let mut game = crew(&[Role::Patient0, Role::Astronaut, Role::Spy]);
    vote(&mut game, 0, ActionType::Eliminate, 2);
    vote(&mut game, 2, ActionType::Eliminate, 0);
    let all = game.get_players();
    let without: Vec<&Player> = vec![all[0], all[2]];
    assert_eq!(compute_votes_results(&all, ActionType::Eliminate), compute_votes_results(&without, ActionType::Eliminate));
}

#[test]
fn a_player_infected_tonight_can_be_cured_tonight() {
    let mut game = crew(&[Role::Patient0, Role::Physician, Role::Astronaut]);
    vote(&mut game, 0, ActionType::Infect, 2);
    vote(&mut game, 1, ActionType::Cure, 2);
    sporz::resolve::resolve_night(&mut game);
    assert!(!game.players[2].infected);
    assert!(game.players[2].messages.iter().any(|m| m.content.starts_with("Bienvenue")));
    assert_eq!(
        game.players[1].messages.last().unwrap().content,
        "L'équipe médicale opérationelle de la nuit précédente (Zoe) est parvenue à soigner: [Wash]"
    );
}
