use impostor_rooms::content::{GameContent, LocationDefinition, QuestionPrompt};
use impostor_rooms::errors::{AppError, ErrorKind};
use impostor_rooms::game::{AbortScope, GameEvent, GamePhase};
use impostor_rooms::outcome::{RoundOutcome, RoundWinner};
use impostor_rooms::registry::{CreateGameResponse, Registry};
use impostor_rooms::round::{PlayerAssignmentView, PlayerRoleAssignment};
use impostor_rooms::rules::GameRules;

fn location(id: u32, name: &str, roles: usize) -> LocationDefinition {
    LocationDefinition {
        id,
        name: name.to_string(),
        roles: (0..roles).map(|k| format!("{} role {}", name, k)).collect(),
    }
}

fn question(id: &str, categories: &[&str]) -> QuestionPrompt {
    QuestionPrompt {
        id: id.to_string(),
        text: format!("What about {}?", id),
        categories: categories.iter().map(|c| c.to_string()).collect(),
    }
}

fn catalog() -> GameContent {
    GameContent::new(
        vec![
            location(1, "Airport", 7),
            location(2, "Bakery", 7),
            location(3, "Casino", 8),
        ],
        vec![
            question("q1", &["General"]),
            question("q2", &["general", "Food"]),
            question("q3", &["Travel"]),
            question("q4", &["food"]),
        ],
    )
    .expect("content should load")
}

fn room_of_three(registry: &mut Registry, content: &GameContent) -> (CreateGameResponse, Vec<u128>) {
    let created = registry
        .create_game("Alice".to_string(), None, content, 1_000)
        .unwrap();
    let mut ids = vec![created.player_id];
    for name in ["Bob", "Cara"] {
        let (joined, _) = registry
            .join_game(created.code.as_text(), name.to_string(), 1_001)
            .unwrap();
        ids.push(joined.player_id);
    }
    (created, ids)
}

fn kind_of<T>(result: Result<T, AppError>) -> ErrorKind {
    match result {
        Ok(_) => panic!("expected a failure"),
        Err(e) => match e {
            AppError::BadRequest(_) => ErrorKind::Validation,
            AppError::NotFound(_) => ErrorKind::NotFound,
            AppError::Forbidden(_) => ErrorKind::Forbidden,
            AppError::Unexpected(_) => ErrorKind::Unexpected,
        },
    }
}

fn private_views(
    registry: &mut Registry,
    code: &str,
    ids: &[u128],
) -> Vec<(u128, PlayerAssignmentView)> {
    ids.iter()
        .map(|id| {
            let text = uuid::Uuid::from_u128(*id).to_string();
            let view = registry
                .get_assignment(code.to_string(), text, 2_000)
                .unwrap();
            (*id, view)
        })
        .collect()
}

#[test]
fn create_game_initializes_lobby() {
    let content = catalog();
    let mut registry = Registry::new();
    let created = registry
        .create_game("Alice".to_string(), None, &content, 1_000)
        .unwrap();
    assert_eq!(created.rules.max_players, GameRules::default().max_players);
    assert_eq!(registry.len(), 1);
    let place = registry.find(&created.code).unwrap();
    assert_eq!(registry.games[place].players.len(), 1);
    assert_eq!(registry.games[place].leader_id, created.player_id);
    assert_eq!(created.leader_id, created.player_id);
    assert_eq!(registry.games[place].players[0].name, "Alice");
    assert_eq!(registry.games[place].phase, GamePhase::Lobby);
}

#[test]
fn join_game_adds_player() {
    let content = catalog();
    let mut registry = Registry::new();
    let created = registry
        .create_game("Alice".to_string(), None, &content, 1_000)
        .unwrap();
    let (joined, events) = registry
        .join_game(created.code.as_text(), "Bob".to_string(), 1_500)
        .unwrap();
    assert_eq!(joined.code, created.code);
    let place = registry.find(&created.code).unwrap();
    assert_eq!(registry.games[place].players.len(), 2);
    assert_eq!(registry.games[place].players[1].id, joined.player_id);
    assert_eq!(registry.games[place].last_active_ms, 1_500);
    assert_eq!(events.len(), 1);
    match &events[0] {
        GameEvent::Lobby { lobby } => assert_eq!(lobby.player_count, 2),
        other => panic!("unexpected event: {:?}", other),
    }
}

#[test]
fn host_can_start_game_without_readying() {
    let content = catalog();
    let mut registry = Registry::new();
    let (created, ids) = room_of_three(&mut registry, &content);
    let (round, events) = registry
        .start_game(created.code.as_text(), created.host_token, &content, 2_000)
        .unwrap();
    assert_eq!(round.round_number, 1);
    assert_eq!(round.turn_order.len(), ids.len());
    assert_eq!(round.turn_order.len(), 3);
    assert_eq!(round.current_turn_player_id, Some(round.turn_order[0]));
    assert!(round.current_question.is_some());
    assert_eq!(events.len(), 2);
    assert!(matches!(events[0], GameEvent::Lobby { .. }));
    assert!(matches!(events[1], GameEvent::Round { round: Some(_) }));
}

#[test]
fn host_can_abort_round() {
    let content = catalog();
    let mut registry = Registry::new();
    let (created, ids) = room_of_three(&mut registry, &content);
    let code = created.code.as_text();
    let (started, _) = registry
        .start_game(code.clone(), created.host_token, &content, 2_000)
        .unwrap();
    assert_eq!(started.round_number, 1);
    assert_eq!(started.turn_order.len(), ids.len());

    let (lobby, events) = registry
        .abort_game(code.clone(), created.host_token, AbortScope::Round, 2_500)
        .unwrap();
    assert_eq!(lobby.phase, GamePhase::AwaitingNextRound);
    assert!(matches!(events[1], GameEvent::Round { round: None }));

    let fetched = registry.get_round_state(code.clone(), 2_600);
    match fetched {
        Err(e) => {
            assert_eq!(e.status_code(), 400);
            assert_eq!(e.describe(), "bad request: no active round");
        }
        Ok(_) => panic!("expected no active round"),
    }

    let (resumed, _) = registry
        .start_next_round(code, created.host_token, &content, 3_000)
        .unwrap();
    assert_eq!(resumed.round_number, 2);
    assert_eq!(resumed.turn_order.len(), ids.len());
}

#[test]
fn imposter_wrong_location_guess_rewards_crew() {
    let content = catalog();
    let mut registry = Registry::new();
    let (created, ids) = room_of_three(&mut registry, &content);
    let code = created.code.as_text();
    let (round, _) = registry
        .start_game(code.clone(), created.host_token, &content, 2_000)
        .unwrap();
    let current_turn = round
        .current_turn_player_id
        .expect("round should provide first turn");

    let (next_question, events) = registry
        .draw_next_question(code.clone(), current_turn, &content, 2_100)
        .unwrap();
    assert!(next_question.asked_total >= 1);
    assert_eq!(events.len(), 1);
    let refreshed = registry.get_round_state(code.clone(), 2_200).unwrap();
    assert_eq!(
        refreshed.current_turn_player_id,
        Some(next_question.next_turn_player_id)
    );
    assert_eq!(refreshed.asked_questions.len(), next_question.asked_total);

    let views = private_views(&mut registry, &code, &ids);
    let mut imposter_id = None;
    let mut location_id = None;
    for (id, view) in &views {
        if view.is_imposter {
            assert!(imposter_id.is_none());
            imposter_id = Some(*id);
        } else if location_id.is_none() {
            location_id = view.location_id;
        }
    }
    let imposter_id = imposter_id.expect("expected one imposter");
    let location_id = location_id.expect("crew assignment should include location");

    let locations = registry.get_game_locations(code.clone(), 2_300).unwrap();
    assert!(!locations.is_empty());
    let wrong_location_id = locations
        .iter()
        .map(|option| option.id)
        .find(|id| *id != location_id)
        .expect("need alternative location id");
    assert_ne!(wrong_location_id, location_id);

    let (resolution, events) = registry
        .submit_guess(code.clone(), imposter_id, None, Some(wrong_location_id), 2_400)
        .unwrap();
    assert!(matches!(resolution.winner, RoundWinner::Crew));
    assert_eq!(resolution.ended_at_ms, 2_400);
    match resolution.outcome {
        RoundOutcome::ImposterFailedLocationGuess {
            impostor,
            guessed_location_id,
            actual_location_id,
            ..
        } => {
            assert_eq!(impostor, imposter_id);
            assert_eq!(guessed_location_id, wrong_location_id);
            assert_eq!(actual_location_id, location_id);
        }
        other => panic!("unexpected outcome: {:?}", other),
    }
    assert!(matches!(events[0], GameEvent::Round { round: Some(_) }));
    assert!(matches!(events[1], GameEvent::Lobby { .. }));

    let lobby = registry.fetch_game_details(code, 2_500).unwrap();
    assert_eq!(lobby.phase, GamePhase::AwaitingNextRound);
    assert_eq!(lobby.round_history.len(), 1);
    for player in &lobby.players {
        if player.id == imposter_id {
            assert_eq!(player.imposter_wins, 0);
            assert_eq!(player.crew_wins, 0);
        } else {
            assert_eq!(player.crew_wins, 1);
            assert_eq!(player.imposter_wins, 0);
        }
    }
}

#[test]
fn created_codes_are_four_uppercase_alphanumerics_and_distinct() {
    let content = catalog();
    let mut registry = Registry::new();
    let mut seen = Vec::new();
    for k in 0..200u64 {
        let created = registry
            .create_game("Host".to_string(), None, &content, k)
            .unwrap();
        let text = created.code.as_text();
        assert_eq!(text.len(), 4);
        assert!(text
            .chars()
            .all(|c| c.is_ascii_digit() || c.is_ascii_uppercase()));
        assert!(!seen.contains(&text));
        seen.push(text);
    }
    assert_eq!(registry.len(), 200);
}

#[test]
fn create_rejects_blank_host_name() {
    let content = catalog();
    let mut registry = Registry::new();
    let result = registry.create_game("   ".to_string(), None, &content, 0);
    assert_eq!(kind_of(result), ErrorKind::Validation);
    assert_eq!(registry.len(), 0);
}

#[test]
fn join_fails_once_the_room_is_full() {
    let content = catalog();
    let mut registry = Registry::new();
    let rules = GameRules {
        max_players: 3,
        ..GameRules::default()
    };
    let created = registry
        .create_game("Alice".to_string(), Some(rules), &content, 0)
        .unwrap();
    assert_eq!(created.rules.max_players, 3);
    let code = created.code.as_text();
    assert!(registry.join_game(code.clone(), "Bob".to_string(), 1).is_ok());
    assert!(registry.join_game(code.clone(), "Cara".to_string(), 2).is_ok());
    let result = registry.join_game(code.clone(), "Dan".to_string(), 3);
    match result {
        Err(e) => assert_eq!(e.describe(), "bad request: game is full"),
        Ok(_) => panic!("the fourth player must not get in"),
    }
    let place = registry.find(&created.code).unwrap();
    assert_eq!(registry.games[place].players.len(), 3);
    assert_eq!(registry.games[place].last_active_ms, 2);
}

#[test]
fn join_fails_outside_the_lobby() {
    let content = catalog();
    let mut registry = Registry::new();
    let (created, _) = room_of_three(&mut registry, &content);
    let code = created.code.as_text();
    registry
        .start_game(code.clone(), created.host_token, &content, 10)
        .unwrap();
    let result = registry.join_game(code, "Dan".to_string(), 11);
    match result {
        Err(e) => assert_eq!(e.describe(), "bad request: game already in progress"),
        Ok(_) => panic!("nobody joins a running game"),
    }
}

#[test]
fn join_rejects_blank_name_and_unknown_room() {
    let content = catalog();
    let mut registry = Registry::new();
    let created = registry
        .create_game("Alice".to_string(), None, &content, 0)
        .unwrap();
    let blank = registry.join_game(created.code.as_text(), " \t".to_string(), 1);
    assert_eq!(kind_of(blank), ErrorKind::Validation);
    let other = if created.code.as_text() == "ZZZZ" { "YYYY" } else { "ZZZZ" };
    let unknown = registry.join_game(other.to_string(), "Bob".to_string(), 1);
    match unknown {
        Err(e) => {
            assert_eq!(e.status_code(), 404);
            assert_eq!(e.describe(), "not found: game not found");
        }
        Ok(_) => panic!("no such room"),
    }
    let malformed = registry.join_game("toolong".to_string(), "Bob".to_string(), 1);
    match malformed {
        Err(e) => assert_eq!(e.status_code(), 400),
        Ok(_) => panic!("no such code"),
    }
}

#[test]
fn room_is_found_under_lowercase_code() {
    let content = catalog();
    let mut registry = Registry::new();
    let created = registry
        .create_game("Alice".to_string(), None, &content, 0)
        .unwrap();
    let lower = created.code.as_text().to_lowercase();
    let lobby = registry.fetch_game_details(lower, 7).unwrap();
    assert_eq!(lobby.code, created.code);
    assert_eq!(lobby.created_at_ms, 0);
}

#[test]
fn started_round_deals_one_impostor_and_a_permuted_turn_order() {
    let content = catalog();
    for _ in 0..20 {
        let mut registry = Registry::new();
        let (created, ids) = room_of_three(&mut registry, &content);
        let (round, _) = registry
            .start_game(created.code.as_text(), created.host_token, &content, 5)
            .unwrap();
        let mut order = round.turn_order.clone();
        let mut roster = ids.clone();
        order.sort();
        roster.sort();
        assert_eq!(order, roster);
        assert_eq!(round.current_turn_player_id, Some(round.turn_order[0]));
        assert_eq!(round.started_at_ms, 5);
        let place = registry.find(&created.code).unwrap();
        let state = registry.games[place].current_round.as_ref().unwrap();
        let impostors: Vec<u128> = state
            .assignments
            .iter()
            .filter(|a| a.part == PlayerRoleAssignment::Imposter)
            .map(|a| a.player_id)
            .collect();
        assert_eq!(impostors, vec![state.imposter_id]);
        assert_eq!(state.assignments.len(), 3);
        let mut roles: Vec<String> = state
            .assignments
            .iter()
            .filter_map(|a| match &a.part {
                PlayerRoleAssignment::Civilian { role } => Some(role.clone()),
                PlayerRoleAssignment::Imposter => None,
            })
            .collect();
        assert_eq!(roles.len(), 2);
        for role in &roles {
            assert!(state.location.roles.contains(role));
        }
        roles.dedup();
        assert_eq!(roles.len(), 2);
    }
}

#[test]
fn turn_orders_are_shuffled() {
    let content = catalog();
    let mut differs = false;
    for _ in 0..40 {
        let mut registry = Registry::new();
        let created = registry
            .create_game("P0".to_string(), None, &content, 0)
            .unwrap();
        let mut ids = vec![created.player_id];
        for k in 1..8 {
            let (joined, _) = registry
                .join_game(created.code.as_text(), format!("P{}", k), 0)
                .unwrap();
            ids.push(joined.player_id);
        }
        let (round, _) = registry
            .start_game(created.code.as_text(), created.host_token, &content, 0)
            .unwrap();
        assert_eq!(round.turn_order.len(), 8);
        if round.turn_order != ids {
            differs = true;
        }
    }
    assert!(differs);
}

#[test]
fn out_of_turn_draw_is_forbidden_and_changes_nothing() {
    let content = catalog();
    let mut registry = Registry::new();
    let (created, ids) = room_of_three(&mut registry, &content);
    let code = created.code.as_text();
    let (round, _) = registry
        .start_game(code.clone(), created.host_token, &content, 10)
        .unwrap();
    let holder = round.current_turn_player_id.unwrap();
    for id in ids.iter().filter(|id| **id != holder) {
        let result = registry.draw_next_question(code.clone(), *id, &content, 20);
        match result {
            Err(e) => {
                assert_eq!(e.status_code(), 403);
                assert_eq!(e.describe(), "forbidden: not your turn to draw");
            }
            Ok(_) => panic!("only the turn holder draws"),
        }
        let place = registry.find(&created.code).unwrap();
        assert_eq!(registry.games[place].public_round_state().unwrap(), round);
        assert_eq!(registry.games[place].last_active_ms, 10);
    }
    let stranger = registry.draw_next_question(code, 12345, &content, 20);
    assert_eq!(kind_of(stranger), ErrorKind::Forbidden);
}

#[test]
fn draw_archives_the_question_and_moves_the_turn() {
    let content = catalog();
    let mut registry = Registry::new();
    let (created, _) = room_of_three(&mut registry, &content);
    let code = created.code.as_text();
    let (round, _) = registry
        .start_game(code.clone(), created.host_token, &content, 10)
        .unwrap();
    let first = round.current_question.clone().unwrap();
    let holder = round.turn_order[0];
    let (answer, _) = registry
        .draw_next_question(code.clone(), holder, &content, 30)
        .unwrap();
    assert_eq!(answer.asked_total, 1);
    assert_eq!(answer.next_turn_player_id, round.turn_order[1]);
    assert_ne!(answer.question.id, first.id);
    let after = registry.get_round_state(code.clone(), 31).unwrap();
    assert_eq!(after.asked_questions.len(), 1);
    assert_eq!(after.asked_questions[0].id, first.id);
    assert_eq!(after.asked_questions[0].asked_by, holder);
    assert_eq!(after.asked_questions[0].asked_at_ms, 30);
    assert_eq!(after.current_question, Some(answer.question));
    let (second, _) = registry
        .draw_next_question(code.clone(), round.turn_order[1], &content, 32)
        .unwrap();
    assert_eq!(second.next_turn_player_id, round.turn_order[2]);
    let (third, _) = registry
        .draw_next_question(code, round.turn_order[2], &content, 33)
        .unwrap();
    assert_eq!(third.next_turn_player_id, round.turn_order[0]);
    assert_eq!(third.asked_total, 3);
}

#[test]
fn second_guess_fails_and_keeps_the_resolution() {
    let content = catalog();
    let mut registry = Registry::new();
    let (created, ids) = room_of_three(&mut registry, &content);
    let code = created.code.as_text();
    registry
        .start_game(code.clone(), created.host_token, &content, 10)
        .unwrap();
    let place = registry.find(&created.code).unwrap();
    let impostor = registry.games[place].current_round.as_ref().unwrap().imposter_id;
    let civilian = *ids.iter().find(|id| **id != impostor).unwrap();
    let (resolution, _) = registry
        .submit_guess(code.clone(), civilian, Some(impostor), None, 50)
        .unwrap();
    assert_eq!(resolution.winner, RoundWinner::Crew);
    assert_eq!(
        resolution.outcome,
        RoundOutcome::CrewIdentifiedImposter {
            accuser: civilian,
            impostor
        }
    );
    let again = registry.submit_guess(code.clone(), civilian, Some(impostor), None, 60);
    match again {
        Err(e) => assert_eq!(e.describe(), "bad request: round already resolved"),
        Ok(_) => panic!("a round resolves once"),
    }
    let view = registry.get_round_state(code.clone(), 61).unwrap();
    assert_eq!(view.resolution, Some(resolution));
    let lobby = registry.fetch_game_details(code.clone(), 62).unwrap();
    assert_eq!(lobby.round_history.len(), 1);
    let draw = registry.draw_next_question(code.clone(), view.turn_order[0], &content, 63);
    match draw {
        Err(e) => assert_eq!(e.describe(), "bad request: round already resolved"),
        Ok(_) => panic!("a resolved round draws no question"),
    }
    let other = registry.draw_next_question(code.clone(), view.turn_order[1], &content, 64);
    match other {
        Err(e) => assert_eq!(e.describe(), "forbidden: not your turn to draw"),
        Ok(_) => panic!("only the turn holder draws"),
    }
    assert_eq!(registry.get_round_state(code, 65).unwrap(), view);
}

#[test]
fn misdirected_accusation_rewards_the_impostor() {
    let content = catalog();
    let mut registry = Registry::new();
    let (created, ids) = room_of_three(&mut registry, &content);
    let code = created.code.as_text();
    registry
        .start_game(code.clone(), created.host_token, &content, 10)
        .unwrap();
    let place = registry.find(&created.code).unwrap();
    let impostor = registry.games[place].current_round.as_ref().unwrap().imposter_id;
    let civilians: Vec<u128> = ids.iter().copied().filter(|id| *id != impostor).collect();
    let (resolution, _) = registry
        .submit_guess(code.clone(), civilians[0], Some(civilians[1]), None, 50)
        .unwrap();
    assert_eq!(resolution.winner, RoundWinner::Imposter);
    assert_eq!(
        resolution.outcome,
        RoundOutcome::CrewMisdirected {
            accuser: civilians[0],
            accused: civilians[1],
            impostor
        }
    );
    let lobby = registry.fetch_game_details(code, 51).unwrap();
    for player in &lobby.players {
        assert_eq!(player.crew_wins, 0);
        assert_eq!(player.imposter_wins, if player.id == impostor { 1 } else { 0 });
    }
    assert_eq!(lobby.last_round.unwrap().round_number, 1);
}

#[test]
fn impostor_naming_the_location_wins() {
    let content = catalog();
    let mut registry = Registry::new();
    let (created, _) = room_of_three(&mut registry, &content);
    let code = created.code.as_text();
    registry
        .start_game(code.clone(), created.host_token, &content, 10)
        .unwrap();
    let place = registry.find(&created.code).unwrap();
    let state = registry.games[place].current_round.as_ref().unwrap();
    let impostor = state.imposter_id;
    let location_id = state.location.id;
    let location_name = state.location.name.clone();
    let (resolution, _) = registry
        .submit_guess(code, impostor, None, Some(location_id), 50)
        .unwrap();
    assert_eq!(resolution.winner, RoundWinner::Imposter);
    assert_eq!(
        resolution.outcome,
        RoundOutcome::ImposterIdentifiedLocation {
            impostor,
            location_id,
            location_name
        }
    );
}

#[test]
fn guesses_of_the_wrong_kind_are_rejected() {
    let content = catalog();
    let mut registry = Registry::new();
    let (created, ids) = room_of_three(&mut registry, &content);
    let code = created.code.as_text();
    registry
        .start_game(code.clone(), created.host_token, &content, 10)
        .unwrap();
    let place = registry.find(&created.code).unwrap();
    let impostor = registry.games[place].current_round.as_ref().unwrap().imposter_id;
    let civilian = *ids.iter().find(|id| **id != impostor).unwrap();

    let both = registry.submit_guess(code.clone(), civilian, Some(impostor), Some(1), 20);
    assert_eq!(kind_of(both), ErrorKind::Validation);
    let neither = registry.submit_guess(code.clone(), civilian, None, None, 20);
    assert_eq!(kind_of(neither), ErrorKind::Validation);
    let impostor_accuses = registry.submit_guess(code.clone(), impostor, Some(civilian), None, 20);
    assert_eq!(kind_of(impostor_accuses), ErrorKind::Forbidden);
    let civilian_guesses = registry.submit_guess(code.clone(), civilian, None, Some(1), 20);
    assert_eq!(kind_of(civilian_guesses), ErrorKind::Forbidden);
    let own = registry.submit_guess(code.clone(), civilian, Some(civilian), None, 20);
    assert_eq!(kind_of(own), ErrorKind::Validation);
    let nobody = registry.submit_guess(code.clone(), civilian, Some(999), None, 20);
    assert_eq!(kind_of(nobody), ErrorKind::Validation);
    let stranger = registry.submit_guess(code.clone(), 999, Some(impostor), None, 20);
    assert_eq!(kind_of(stranger), ErrorKind::Forbidden);

    let place = registry.find(&created.code).unwrap();
    assert_eq!(registry.games[place].phase, GamePhase::InRound);
    assert!(registry.games[place]
        .current_round
        .as_ref()
        .unwrap()
        .resolution
        .is_none());
}

#[test]
fn a_pool_of_one_location_is_played_again() {
    let content = catalog();
    let mut registry = Registry::new();
    let rules = GameRules {
        location_pool_size: 1,
        allow_repeated_questions: true,
        ..GameRules::default()
    };
    let created = registry
        .create_game("Alice".to_string(), Some(rules), &content, 0)
        .unwrap();
    let code = created.code.as_text();
    let mut ids = vec![created.player_id];
    for name in ["Bob", "Cara"] {
        ids.push(
            registry
                .join_game(code.clone(), name.to_string(), 0)
                .unwrap()
                .0
                .player_id,
        );
    }
    let mut played = Vec::new();
    for n in 1..=4u32 {
        let (round, _) = registry
            .start_game(code.clone(), created.host_token, &content, 10)
            .unwrap();
        assert_eq!(round.round_number, n);
        let place = registry.find(&created.code).unwrap();
        let game = &registry.games[place];
        assert_eq!(game.location_pool.len(), 1);
        let state = game.current_round.as_ref().unwrap();
        assert_eq!(game.used_location_ids, vec![state.location.id]);
        played.push(state.location.id);
        let impostor = state.imposter_id;
        let civilian = *ids.iter().find(|id| **id != impostor).unwrap();
        registry
            .submit_guess(code.clone(), civilian, Some(impostor), None, 20)
            .unwrap();
    }
    assert!(played.iter().all(|id| *id == played[0]));
}

#[test]
fn unused_locations_are_preferred() {
    let content = catalog();
    let mut registry = Registry::new();
    let (created, ids) = room_of_three(&mut registry, &content);
    let code = created.code.as_text();
    let mut played = Vec::new();
    for _ in 0..3 {
        registry
            .start_game(code.clone(), created.host_token, &content, 10)
            .unwrap();
        let place = registry.find(&created.code).unwrap();
        let state = registry.games[place].current_round.as_ref().unwrap();
        played.push(state.location.id);
        let impostor = state.imposter_id;
        let civilian = *ids.iter().find(|id| **id != impostor).unwrap();
        registry
            .submit_guess(code.clone(), civilian, Some(impostor), None, 20)
            .unwrap();
    }
    played.sort();
    assert_eq!(played, vec![1, 2, 3]);
    registry
        .start_game(code, created.host_token, &content, 10)
        .unwrap();
    let place = registry.find(&created.code).unwrap();
    assert_eq!(registry.games[place].used_location_ids.len(), 1);
}

#[test]
fn round_abort_releases_the_location() {
    let content = catalog();
    let mut registry = Registry::new();
    let (created, _) = room_of_three(&mut registry, &content);
    let code = created.code.as_text();
    registry
        .start_game(code.clone(), created.host_token, &content, 10)
        .unwrap();
    let place = registry.find(&created.code).unwrap();
    assert_eq!(registry.games[place].used_location_ids.len(), 1);
    registry
        .abort_game(code.clone(), created.host_token, AbortScope::Round, 11)
        .unwrap();
    let place = registry.find(&created.code).unwrap();
    assert!(registry.games[place].used_location_ids.is_empty());
    assert!(registry.games[place].current_round.is_none());
    assert_eq!(registry.games[place].round_counter, 1);
    let again = registry.abort_game(code, created.host_token, AbortScope::Round, 12);
    match again {
        Err(e) => assert_eq!(
            e.describe(),
            "bad request: no active round is currently running"
        ),
        Ok(_) => panic!("nothing to abort"),
    }
}

#[test]
fn game_abort_returns_to_an_empty_lobby() {
    let content = catalog();
    let mut registry = Registry::new();
    let (created, ids) = room_of_three(&mut registry, &content);
    let code = created.code.as_text();
    registry
        .start_game(code.clone(), created.host_token, &content, 10)
        .unwrap();
    let place = registry.find(&created.code).unwrap();
    let impostor = registry.games[place].current_round.as_ref().unwrap().imposter_id;
    let civilian = *ids.iter().find(|id| **id != impostor).unwrap();
    registry
        .submit_guess(code.clone(), civilian, Some(impostor), None, 20)
        .unwrap();
    let (lobby, _) = registry
        .abort_game(code.clone(), created.host_token, AbortScope::Game, 30)
        .unwrap();
    assert_eq!(lobby.phase, GamePhase::Lobby);
    assert!(lobby.round_history.is_empty());
    assert!(lobby.last_round.is_none());
    assert_eq!(lobby.player_count, 3);
    let place = registry.find(&created.code).unwrap();
    let game = &registry.games[place];
    assert_eq!(game.round_counter, 0);
    assert!(game.location_pool.is_empty());
    assert!(game.used_location_ids.is_empty());
    assert!(game.current_round.is_none());
    assert_eq!(game.last_active_ms, 30);
    assert_eq!(AbortScope::default(), AbortScope::Round);
    let (round, _) = registry
        .start_game(code, created.host_token, &content, 40)
        .unwrap();
    assert_eq!(round.round_number, 1);
}

#[test]
fn host_only_operations_need_the_host_token() {
    let content = catalog();
    let mut registry = Registry::new();
    let (created, _) = room_of_three(&mut registry, &content);
    let code = created.code.as_text();
    let wrong = created.host_token.wrapping_add(1);
    let start = registry.start_game(code.clone(), wrong, &content, 1);
    match start {
        Err(e) => assert_eq!(e.describe(), "forbidden: host token invalid"),
        Ok(_) => panic!("only the host starts"),
    }
    assert_eq!(
        kind_of(registry.start_next_round(code.clone(), wrong, &content, 1)),
        ErrorKind::Forbidden
    );
    assert_eq!(
        kind_of(registry.abort_game(code.clone(), wrong, AbortScope::Game, 1)),
        ErrorKind::Forbidden
    );
    assert_eq!(
        kind_of(registry.update_rules(code.clone(), wrong, GameRules::default(), &content, 1)),
        ErrorKind::Forbidden
    );
    let place = registry.find(&created.code).unwrap();
    assert_eq!(registry.games[place].phase, GamePhase::Lobby);
}

#[test]
fn start_needs_three_players_and_no_running_round() {
    let content = catalog();
    let mut registry = Registry::new();
    let created = registry
        .create_game("Alice".to_string(), None, &content, 0)
        .unwrap();
    let code = created.code.as_text();
    registry.join_game(code.clone(), "Bob".to_string(), 0).unwrap();
    let early = registry.start_game(code.clone(), created.host_token, &content, 1);
    match early {
        Err(e) => assert_eq!(
            e.describe(),
            "bad request: at least three players are required to start"
        ),
        Ok(_) => panic!("two players are too few"),
    }
    registry.join_game(code.clone(), "Cara".to_string(), 0).unwrap();
    registry
        .start_game(code.clone(), created.host_token, &content, 2)
        .unwrap();
    let twice = registry.start_game(code, created.host_token, &content, 3);
    match twice {
        Err(e) => assert_eq!(e.describe(), "bad request: round already in progress"),
        Ok(_) => panic!("a round is running"),
    }
}

#[test]
fn start_fails_without_questions_in_the_chosen_categories() {
    let content = GameContent {
        locations: vec![location(1, "Airport", 7)],
        questions: vec![question("q1", &["general"])],
        categories: vec!["general".to_string(), "food".to_string()],
    };
    let mut registry = Registry::new();
    let rules = GameRules {
        question_categories: vec!["food".to_string()],
        ..GameRules::default()
    };
    let created = registry
        .create_game("Alice".to_string(), Some(rules), &content, 0)
        .unwrap();
    let code = created.code.as_text();
    registry.join_game(code.clone(), "Bob".to_string(), 0).unwrap();
    registry.join_game(code.clone(), "Cara".to_string(), 0).unwrap();
    let result = registry.start_game(code, created.host_token, &content, 1);
    match result {
        Err(e) => assert_eq!(
            e.describe(),
            "bad request: no questions available for selected categories"
        ),
        Ok(_) => panic!("no question fits"),
    }
    let place = registry.find(&created.code).unwrap();
    assert_eq!(registry.games[place].phase, GamePhase::Lobby);
    assert!(registry.games[place].current_round.is_none());
    assert_eq!(registry.games[place].round_counter, 0);
}

#[test]
fn update_rules_normalizes_and_publishes_the_lobby() {
    let content = catalog();
    let mut registry = Registry::new();
    let created = registry
        .create_game("Alice".to_string(), None, &content, 0)
        .unwrap();
    let rules = GameRules {
        max_players: 200,
        round_time_seconds: 5,
        allow_repeated_questions: true,
        location_pool_size: 0,
        question_categories: vec![" Food ".to_string(), "food".to_string()],
    };
    let (lobby, events) = registry
        .update_rules(created.code.as_text(), created.host_token, rules, &content, 9)
        .unwrap();
    assert_eq!(lobby.rules.max_players, 9);
    assert_eq!(lobby.rules.round_time_seconds, 30);
    assert!(lobby.rules.allow_repeated_questions);
    assert_eq!(lobby.rules.location_pool_size, 1);
    assert_eq!(lobby.rules.question_categories, vec!["food".to_string()]);
    assert_eq!(events, vec![GameEvent::Lobby { lobby }]);
    let odd = GameRules {
        question_categories: vec!["sports".to_string()],
        ..GameRules::default()
    };
    let (lobby, _) = registry
        .update_rules(created.code.as_text(), created.host_token, odd, &content, 10)
        .unwrap();
    assert_eq!(
        lobby.rules.question_categories,
        vec!["food".to_string(), "general".to_string(), "travel".to_string()]
    );
}

#[test]
fn assignments_are_private_and_parsed_by_id() {
    let content = catalog();
    let mut registry = Registry::new();
    let (created, ids) = room_of_three(&mut registry, &content);
    let code = created.code.as_text();
    let id_text = uuid::Uuid::from_u128(ids[0]).to_string();
    let early = registry.get_assignment(code.clone(), id_text.clone(), 1);
    assert_eq!(kind_of(early), ErrorKind::Validation);
    registry
        .start_game(code.clone(), created.host_token, &content, 2)
        .unwrap();
    let views = private_views(&mut registry, &code, &ids);
    let place = registry.find(&created.code).unwrap();
    let state = registry.games[place].current_round.as_ref().unwrap();
    for (id, view) in &views {
        assert_eq!(view.round_number, 1);
        if *id == state.imposter_id {
            assert!(view.is_imposter);
            assert_eq!(view.location_id, None);
            assert_eq!(view.location_name, None);
            assert_eq!(view.role, None);
        } else {
            assert!(!view.is_imposter);
            assert_eq!(view.location_id, Some(state.location.id));
            assert_eq!(view.location_name, Some(state.location.name.clone()));
            assert!(state.location.roles.contains(view.role.as_ref().unwrap()));
        }
    }
    let garbled = registry.get_assignment(code.clone(), "not-an-id".to_string(), 3);
    match garbled {
        Err(e) => assert_eq!(e.describe(), "bad request: invalid player id"),
        Ok(_) => panic!("no such id"),
    }
    let stranger = uuid::Uuid::from_u128(77).to_string();
    assert_eq!(
        kind_of(registry.get_assignment(code, stranger, 3)),
        ErrorKind::Forbidden
    );
}

#[test]
fn locations_are_listed_once_the_pool_is_drawn() {
    let content = catalog();
    let mut registry = Registry::new();
    let (created, _) = room_of_three(&mut registry, &content);
    let code = created.code.as_text();
    let early = registry.get_game_locations(code.clone(), 1);
    match early {
        Err(e) => assert_eq!(
            e.describe(),
            "bad request: location pool has not been generated yet"
        ),
        Ok(_) => panic!("no pool yet"),
    }
    registry
        .start_game(code.clone(), created.host_token, &content, 2)
        .unwrap();
    let mut options = registry.get_game_locations(code, 3).unwrap();
    options.sort_by_key(|o| o.id);
    let listed: Vec<(u32, String)> = options.into_iter().map(|o| (o.id, o.name)).collect();
    assert_eq!(
        listed,
        vec![
            (1, "Airport".to_string()),
            (2, "Bakery".to_string()),
            (3, "Casino".to_string())
        ]
    );
}

#[test]
fn idle_rooms_expire_but_rooms_in_a_round_never_do() {
    let content = catalog();
    let mut registry = Registry::new();
    let idle = registry
        .create_game("Idle".to_string(), None, &content, 1_000)
        .unwrap();
    let fresh = registry
        .create_game("Fresh".to_string(), None, &content, 5_000)
        .unwrap();
    let (busy, _) = room_of_three(&mut registry, &content);
    registry
        .start_game(busy.code.as_text(), busy.host_token, &content, 1_000)
        .unwrap();
    assert_eq!(registry.purge_expired_lobbies(0, 1_000_000), 0);
    assert_eq!(registry.len(), 3);
    assert_eq!(registry.purge_expired_lobbies(3_000, 3_999), 0);
    assert_eq!(registry.purge_expired_lobbies(3_000, 4_000), 1);
    assert!(registry.find(&idle.code).is_none());
    assert!(registry.find(&fresh.code).is_some());
    assert!(registry.find(&busy.code).is_some());
    assert_eq!(registry.purge_expired_lobbies(3_000, 1_000_000), 1);
    assert_eq!(registry.len(), 1);
    assert!(registry.find(&busy.code).is_some());
    registry
        .abort_game(busy.code.as_text(), busy.host_token, AbortScope::Round, 2_000_000)
        .unwrap();
    assert_eq!(registry.purge_expired_lobbies(3_000, 2_002_999), 0);
    assert_eq!(registry.purge_expired_lobbies(3_000, 2_003_000), 1);
    assert_eq!(registry.len(), 0);
}

#[test]
fn a_resync_snapshot_shows_the_room_as_it_stands() {
    let content = catalog();
    let mut registry = Registry::new();
    let (created, _) = room_of_three(&mut registry, &content);
    let code = created.code.as_text();
    let opening = registry.stream_game(code.clone()).unwrap();
    assert_eq!(opening.lobby.phase, GamePhase::Lobby);
    assert!(opening.round.is_none());
    let (round, _) = registry
        .start_game(code.clone(), created.host_token, &content, 10)
        .unwrap();
    registry
        .draw_next_question(code.clone(), round.turn_order[0], &content, 11)
        .unwrap();
    let snapshot = registry.latest_snapshot(&created.code).unwrap();
    let place = registry.find(&created.code).unwrap();
    assert_eq!(snapshot.lobby, registry.games[place].lobby_view());
    assert_eq!(snapshot.round, registry.games[place].current_round_view());
    assert_eq!(snapshot.lobby.phase, GamePhase::InRound);
    assert_eq!(snapshot.round.unwrap().asked_questions.len(), 1);
    assert_ne!(snapshot.lobby, opening.lobby);
    let gone = impostor_rooms::room_code::RoomCode::new("0000".to_string()).unwrap();
    if gone != created.code {
        assert!(registry.latest_snapshot(&gone).is_none());
    }
}
