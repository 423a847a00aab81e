use impostor_rooms::config::{
    cleanup_interval_duration, env_u64, lobby_ttl_duration, sweep_every, timestamp_ms,
};
use impostor_rooms::content::{
    eligible_questions, keys_fit, seated_places, GameContent, LocationDefinition, QuestionPrompt,
};
use impostor_rooms::dealing::deal_parts;
use impostor_rooms::errors::{AppError, ErrorKind};
use impostor_rooms::game::{GameEvent, GamePhase};
use impostor_rooms::lobby::{holds_id, release};
use impostor_rooms::outcome::GuessAction;
use impostor_rooms::play::first_unused;
use impostor_rooms::player::{find_player, Player, PlayerWins};
use impostor_rooms::room_code::RoomCode;
use impostor_rooms::round::{Assignment, PlayerRoleAssignment, QuestionView, RoundState};
use impostor_rooms::rules::GameRules;
use impostor_rooms::service::{get_question_categories, guess_action};
use impostor_rooms::socket::{
    is_ping_word, keeps_running, snapshot_event, socket_step, SocketAction, SocketInput,
};
use impostor_rooms::text::{copy_texts, distinct_texts, has_text, lower_texts};

fn place(id: u32, name: &str, roles: usize) -> LocationDefinition {
    LocationDefinition {
        id,
        name: name.to_string(),
        roles: (0..roles).map(|k| format!("{}-{}", name, k)).collect(),
    }
}

fn prompt(id: &str, categories: &[&str]) -> QuestionPrompt {
    QuestionPrompt {
        id: id.to_string(),
        text: format!("{}?", id),
        categories: categories.iter().map(|c| c.to_string()).collect(),
    }
}

fn texts(items: &[&str]) -> Vec<String> {
    items.iter().map(|s| s.to_string()).collect()
}

fn small_catalog() -> GameContent {
    GameContent::new(
        vec![place(10, "Harbour", 3), place(20, "Museum", 5), place(30, "Zoo", 2)],
        vec![
            prompt("a", &["Travel", "Food"]),
            prompt("b", &["food"]),
            prompt("c", &["Work"]),
        ],
    )
    .unwrap()
}

fn roster(names: &[&str]) -> Vec<Player> {
    names
        .iter()
        .enumerate()
        .map(|(k, name)| Player::named(name.to_string(), 100 + k as u128).unwrap())
        .collect()
}

#[test]
fn catalog_categories_are_lowercase_sorted_and_distinct() {
    let content = small_catalog();
    assert_eq!(content.categories, texts(&["food", "travel", "work"]));
    assert_eq!(content.default_categories(), texts(&["food", "travel", "work"]));
    assert_eq!(get_question_categories(&content), texts(&["food", "travel", "work"]));
    assert_eq!(content.locations.len(), 3);
    assert_eq!(content.questions.len(), 3);
}

#[test]
fn catalog_needs_locations_and_questions() {
    let no_locations = GameContent::new(vec![], vec![prompt("a", &["x"])]);
    match no_locations {
        Err(e) => {
            assert_eq!(e.status_code(), 500);
            assert_eq!(e.describe(), "no locations configured");
        }
        Ok(_) => panic!("a catalog needs locations"),
    }
    let no_questions = GameContent::new(vec![place(1, "A", 3)], vec![]);
    match no_questions {
        Err(e) => assert_eq!(e, AppError::Unexpected("no questions configured".to_string())),
        Ok(_) => panic!("a catalog needs questions"),
    }
}

#[test]
fn catalog_bounds() {
    let content = small_catalog();
    assert_eq!(content.max_location_pool(), 3);
    assert_eq!(content.max_player_capacity(), 6);
    let empty = GameContent {
        locations: vec![],
        questions: vec![],
        categories: vec![],
    };
    assert_eq!(empty.max_player_capacity(), 8);
    assert_eq!(empty.max_location_pool(), 0);
    let wide = GameContent {
        locations: vec![place(1, "Wide", 254), place(2, "Narrow", 4)],
        questions: vec![],
        categories: vec![],
    };
    assert_eq!(wide.max_player_capacity(), 255);
    let wider = GameContent {
        locations: vec![place(2, "Narrow", 4), place(1, "Wider", 300)],
        questions: vec![],
        categories: vec![],
    };
    assert_eq!(wider.max_player_capacity(), 255);
}

#[test]
fn categories_are_trimmed_lowercased_and_deduplicated() {
    let content = small_catalog();
    let chosen = content
        .normalize_categories(&texts(&["  Work ", "", "FOOD", "work", "   "]))
        .unwrap();
    assert_eq!(chosen, texts(&["work", "food"]));
    assert_eq!(
        content.normalize_categories(&[].to_vec()).unwrap(),
        texts(&["food", "travel", "work"])
    );
    assert_eq!(
        content.normalize_categories(&texts(&["", " "])).unwrap(),
        texts(&["food", "travel", "work"])
    );
}

#[test]
fn an_unknown_category_selects_every_category() {
    let content = small_catalog();
    let all = texts(&["food", "travel", "work"]);
    assert_eq!(
        content.normalize_categories(&texts(&["food", " Sports ", "music"])),
        Ok(all.clone())
    );
    assert_eq!(content.normalize_categories(&texts(&["music"])), Ok(all.clone()));
    assert_eq!(content.choose_categories(&texts(&["food", "music"])), all);
    assert_eq!(content.choose_categories(&texts(&["music", "food"])), all);
    assert_eq!(content.choose_categories(&texts(&["work", "", "work"])), texts(&["work"]));
    assert_eq!(content.choose_categories(&texts(&["", ""])), all);
    assert_eq!(content.choose_categories(&vec![]), all);
}

#[test]
fn location_pool_holds_only_locations_with_enough_roles() {
    let content = small_catalog();
    for _ in 0..30 {
        let pool = content.random_location_pool(5, 5);
        assert_eq!(pool.len(), 1);
        assert_eq!(pool[0], content.locations[1]);
        let pool = content.random_location_pool(1, 4);
        assert_eq!(pool.len(), 1);
        assert!(pool[0].id == 10 || pool[0].id == 20);
        let pool = content.random_location_pool(10, 3);
        let mut ids: Vec<u32> = pool.iter().map(|l| l.id).collect();
        ids.sort();
        assert_eq!(ids, vec![10, 20, 30]);
        assert!(content.random_location_pool(3, 7).is_empty());
        assert!(content.random_location_pool(0, 3).is_empty());
    }
}

#[test]
fn location_pool_order_is_shuffled() {
    let content = small_catalog();
    let mut orders = Vec::new();
    for _ in 0..200 {
        let ids: Vec<u32> = content
            .random_location_pool(3, 3)
            .iter()
            .map(|l| l.id)
            .collect();
        if !orders.contains(&ids) {
            orders.push(ids);
        }
    }
    assert!(orders.len() > 1);
}

#[test]
fn locations_support_one_more_player_than_roles() {
    let harbour = place(10, "Harbour", 3);
    assert!(harbour.supports(0));
    assert!(harbour.supports(4));
    assert!(!harbour.supports(5));
    assert_eq!(harbour.clone(), harbour);
}

#[test]
fn questions_are_drawn_by_category_and_not_repeated() {
    let content = small_catalog();
    for _ in 0..30 {
        let q = content
            .random_question(&texts(&["FOOD"]), false, &vec![])
            .unwrap();
        assert!(q.id == "a" || q.id == "b");
        let q = content
            .random_question(&texts(&["food"]), false, &texts(&["a"]))
            .unwrap();
        assert_eq!(q.id, "b");
        let q = content
            .random_question(&vec![], false, &texts(&["a", "b"]))
            .unwrap();
        assert_eq!(q.id, "c");
        assert!(content
            .random_question(&texts(&["food"]), false, &texts(&["a", "b"]))
            .is_none());
        assert!(content
            .random_question(&texts(&["food"]), true, &texts(&["a", "b"]))
            .is_some());
        assert!(content
            .random_question(&texts(&["music"]), true, &vec![])
            .is_none());
    }
}

#[test]
fn question_view_shows_lowercase_categories() {
    let view = QuestionView::from_prompt(&prompt("a", &["Travel", "FOOD"]));
    assert_eq!(view.id, "a");
    assert_eq!(view.text, "a?");
    assert_eq!(view.categories, texts(&["travel", "food"]));
    assert_eq!(view.clone(), view);
}

#[test]
fn rules_are_clamped_to_the_catalog() {
    let content = small_catalog();
    assert_eq!(GameRules::default().max_players, 8);
    assert_eq!(GameRules::default().round_time_seconds, 120);
    assert!(!GameRules::default().allow_repeated_questions);
    assert_eq!(GameRules::default().location_pool_size, 10);
    assert!(GameRules::default().question_categories.is_empty());

    let normal = GameRules::default().normalize(&content).unwrap();
    assert_eq!(
        normal,
        GameRules {
            max_players: 6,
            round_time_seconds: 120,
            allow_repeated_questions: false,
            location_pool_size: 3,
            question_categories: texts(&["food", "travel", "work"]),
        }
    );
    let low = GameRules {
        max_players: 0,
        round_time_seconds: 29,
        allow_repeated_questions: true,
        location_pool_size: 0,
        question_categories: texts(&["Work"]),
    }
    .normalize(&content)
    .unwrap();
    assert_eq!(
        low,
        GameRules {
            max_players: 3,
            round_time_seconds: 30,
            allow_repeated_questions: true,
            location_pool_size: 1,
            question_categories: texts(&["work"]),
        }
    );
    let high = GameRules {
        max_players: 255,
        round_time_seconds: 601,
        allow_repeated_questions: false,
        location_pool_size: 2,
        question_categories: vec![],
    }
    .normalize(&content)
    .unwrap();
    assert_eq!(high.max_players, 6);
    assert_eq!(high.round_time_seconds, 600);
    assert_eq!(high.location_pool_size, 2);

    let tiny = GameContent {
        locations: vec![place(1, "Booth", 1)],
        questions: vec![],
        categories: vec![],
    };
    let cramped = GameRules::default().normalize(&tiny).unwrap();
    assert_eq!(cramped.max_players, 3);
    assert_eq!(cramped.location_pool_size, 1);

    let unknown = GameRules {
        question_categories: texts(&["work", "music"]),
        ..GameRules::default()
    }
    .normalize(&content)
    .unwrap();
    assert_eq!(unknown.question_categories, texts(&["food", "travel", "work"]));
}

#[test]
fn room_codes_are_read_in_any_case() {
    assert_eq!(RoomCode::LENGTH, 4);
    assert_eq!(RoomCode::new("ab1z".to_string()).unwrap().as_text(), "AB1Z");
    assert_eq!(RoomCode::new("QW9E".to_string()).unwrap().0, "QW9E");
    for bad in ["", "abc", "abcde", "ab-1", "a b1", "äbcd", "ab1é"] {
        assert_eq!(
            RoomCode::new(bad.to_string()),
            Err(AppError::BadRequest(
                "room codes are 4 alphanumeric characters".to_string()
            ))
        );
    }
    let code = RoomCode::new("ab1z".to_string()).unwrap();
    assert!(code.same_as(&RoomCode("AB1Z".to_string())));
    assert!(!code.same_as(&RoomCode("AB1Y".to_string())));
    assert!(code.is_among(&vec![RoomCode("XXXX".to_string()), code.clone()]));
    assert!(!code.is_among(&vec![RoomCode("XXXX".to_string())]));
}

#[test]
fn drawn_codes_are_well_formed_and_avoid_existing_ones() {
    let mut seen_letter = false;
    let mut seen_digit = false;
    for _ in 0..200 {
        let text = RoomCode::candidate().as_text();
        assert_eq!(text.chars().count(), 4);
        assert!(text.chars().all(|c| c.is_ascii_digit() || c.is_ascii_uppercase()));
        seen_letter |= text.chars().any(|c| c.is_ascii_uppercase());
        seen_digit |= text.chars().any(|c| c.is_ascii_digit());
    }
    assert!(seen_letter && seen_digit);
    let existing = vec![RoomCode("AAAA".to_string())];
    let code = RoomCode::generate(&existing, 1_000).unwrap();
    assert_ne!(code, existing[0]);
    assert!(RoomCode::generate(&existing, 0).is_none());
}

#[test]
fn players_are_named_by_their_trimmed_name() {
    let bob = Player::new("  Bob \n".to_string()).unwrap();
    assert_eq!(bob.name, "Bob");
    assert_eq!(bob.wins, PlayerWins { crew: 0, imposter: 0 });
    let other = Player::new("Bob".to_string()).unwrap();
    assert_ne!(bob.id, other.id);
    for blank in ["", " ", "\t\n"] {
        assert_eq!(
            Player::new(blank.to_string()),
            Err(AppError::BadRequest("player name required".to_string()))
        );
    }
    assert_eq!(
        Player::named(String::new(), 1),
        Err(AppError::BadRequest("player name required".to_string()))
    );
    let cara = Player::named("Cara".to_string(), 7).unwrap();
    assert_eq!(cara.id, 7);
    let summary = cara.summary();
    assert_eq!((summary.id, summary.crew_wins, summary.imposter_wins), (7, 0, 0));
    assert_eq!(summary.name, "Cara");
    let list = vec![bob, cara];
    assert_eq!(find_player(&list, 7), Some(1));
    assert_eq!(find_player(&list, 8), if list[0].id == 8 { Some(0) } else { None });
}

#[test]
fn errors_map_to_statuses_and_messages() {
    let cases = [
        (AppError::bad_request("x"), ErrorKind::Validation, 400, "bad request: x"),
        (AppError::not_found("y"), ErrorKind::NotFound, 404, "not found: y"),
        (AppError::forbidden("z"), ErrorKind::Forbidden, 403, "forbidden: z"),
        (AppError::unexpected("w"), ErrorKind::Unexpected, 500, "w"),
    ];
    for (error, kind, status, text) in cases {
        assert_eq!(error.error_kind(), kind);
        assert_eq!(error.status_code(), status);
        assert_eq!(error.describe(), text);
    }
}

#[test]
fn settings_fall_back_to_their_defaults() {
    assert_eq!(lobby_ttl_duration(None, None), 3_600);
    assert_eq!(lobby_ttl_duration(Some(5), Some(1)), 5);
    assert_eq!(lobby_ttl_duration(Some(0), None), 0);
    assert_eq!(lobby_ttl_duration(None, Some(2)), 120);
    assert_eq!(lobby_ttl_duration(None, Some(u64::MAX / 60)), u64::MAX / 60 * 60);
    assert_eq!(lobby_ttl_duration(None, Some(u64::MAX / 60 + 1)), u64::MAX);
    assert_eq!(cleanup_interval_duration(None), 300);
    assert_eq!(cleanup_interval_duration(Some(7)), 7);
    assert_eq!(sweep_every(0, 300), None);
    assert_eq!(sweep_every(10, 0), Some(60));
    assert_eq!(sweep_every(10, 5), Some(5));
    assert_eq!(env_u64(None), None);
    assert_eq!(env_u64(Some("42".to_string())), Some(42));
    assert_eq!(env_u64(Some("18446744073709551615".to_string())), Some(u64::MAX));
    assert_eq!(env_u64(Some("18446744073709551616".to_string())), None);
    assert_eq!(env_u64(Some("4 2".to_string())), None);
    assert_eq!(env_u64(Some("-1".to_string())), None);
    assert_eq!(env_u64(Some("+7".to_string())), Some(7));
    assert_eq!(env_u64(Some("007".to_string())), Some(7));
    assert_eq!(env_u64(Some("0".to_string())), Some(0));
    assert_eq!(env_u64(Some("".to_string())), None);
    assert_eq!(env_u64(Some("+".to_string())), None);
    assert_eq!(env_u64(Some("++7".to_string())), None);
    assert_eq!(env_u64(Some("7_000".to_string())), None);
}

#[test]
fn timestamps_are_milliseconds_capped_at_the_maximum() {
    assert_eq!(timestamp_ms(None), 0);
    assert_eq!(timestamp_ms(Some(0)), 0);
    assert_eq!(timestamp_ms(Some(1_500)), 1_500);
    assert_eq!(timestamp_ms(Some(u64::MAX as u128)), u64::MAX);
    assert_eq!(timestamp_ms(Some(u64::MAX as u128 + 1)), u64::MAX);
    assert_eq!(timestamp_ms(Some(u128::MAX)), u64::MAX);
}

#[test]
fn a_connection_answers_each_input() {
    assert_eq!(socket_step(SocketInput::Tick), SocketAction::SendPing);
    assert_eq!(socket_step(SocketInput::ClientClose), SocketAction::EchoClose);
    assert_eq!(socket_step(SocketInput::ClientPing), SocketAction::SendPong);
    assert_eq!(socket_step(SocketInput::ClientOther), SocketAction::Ignore);
    assert_eq!(socket_step(SocketInput::ClientError), SocketAction::Stop);
    assert_eq!(socket_step(SocketInput::ClientGone), SocketAction::Stop);
    assert_eq!(socket_step(SocketInput::BusClosed), SocketAction::Stop);
    assert_eq!(socket_step(SocketInput::Lagged), SocketAction::Resync);
    assert_eq!(socket_step(SocketInput::Event), SocketAction::Forward);
    for text in ["ping", " PiNg\n", "PING"] {
        assert_eq!(
            socket_step(SocketInput::ClientText(text.to_string())),
            SocketAction::SendPongEvent
        );
    }
    for text in ["", "pong", "pingg", "p ing"] {
        assert_eq!(
            socket_step(SocketInput::ClientText(text.to_string())),
            SocketAction::Ignore
        );
    }
    assert!(is_ping_word("pInG"));
    assert!(!is_ping_word(" ping"));
}

#[test]
fn a_connection_stops_on_failed_sends() {
    assert!(!keeps_running(SocketAction::Stop, false, false));
    assert!(!keeps_running(SocketAction::EchoClose, true, true));
    assert!(keeps_running(SocketAction::Ignore, false, false));
    assert!(keeps_running(SocketAction::SendPing, true, true));
    assert!(!keeps_running(SocketAction::SendPing, true, false));
    assert!(!keeps_running(SocketAction::SendPongEvent, true, false));
    assert!(!keeps_running(SocketAction::Forward, true, false));
    assert!(keeps_running(SocketAction::Forward, false, false));
    assert!(keeps_running(SocketAction::Resync, false, false));
    assert!(!keeps_running(SocketAction::Resync, true, false));
}

#[test]
fn a_subscription_opens_with_the_snapshot() {
    let content = small_catalog();
    let mut registry = impostor_rooms::registry::Registry::new();
    let created = registry
        .create_game("Alice".to_string(), None, &content, 3)
        .unwrap();
    let snapshot = registry.latest_snapshot(&created.code).unwrap();
    let lobby = registry.fetch_game_details(created.code.as_text(), 3).unwrap();
    match snapshot_event(snapshot) {
        GameEvent::Snapshot(snapshot) => {
            assert_eq!(snapshot.lobby, lobby);
            assert_eq!(snapshot.round, None);
        }
        other => panic!("unexpected event: {:?}", other),
    }
}

#[test]
fn guess_requests_hold_exactly_one_field() {
    assert_eq!(
        guess_action(Some(5), None),
        Ok(GuessAction::AccusePlayer { accused_id: 5 })
    );
    assert_eq!(
        guess_action(None, Some(9)),
        Ok(GuessAction::GuessLocation { location_id: 9 })
    );
    let message = "provide an accused_player_id or location_id, but not both";
    assert_eq!(
        guess_action(Some(5), Some(9)),
        Err(AppError::BadRequest(message.to_string()))
    );
    assert_eq!(guess_action(None, None), Err(AppError::BadRequest(message.to_string())));
}

#[test]
fn a_round_needs_three_players_and_enough_roles() {
    let content = small_catalog();
    let rules = GameRules::default().normalize(&content).unwrap();
    let two = RoundState::new(1, place(20, "Museum", 5), &roster(&["A", "B"]), &rules, &content, 0);
    match two {
        Err(e) => assert_eq!(
            e.describe(),
            "bad request: at least three players are required to start a round"
        ),
        Ok(_) => panic!("two players are too few"),
    }
    let crowded = RoundState::new(
        1,
        place(30, "Zoo", 2),
        &roster(&["A", "B", "C", "D"]),
        &rules,
        &content,
        0,
    );
    match crowded {
        Err(e) => assert_eq!(
            e.describe(),
            "bad request: selected location does not support this many players"
        ),
        Ok(_) => panic!("the zoo has two roles"),
    }
    let round = RoundState::new(
        4,
        place(30, "Zoo", 2),
        &roster(&["A", "B", "C"]),
        &rules,
        &content,
        77,
    )
    .unwrap();
    assert_eq!(round.round_number, 4);
    assert_eq!(round.started_at_ms, 77);
    assert_eq!(round.current_turn_index, 0);
    assert!(round.is_active());
    assert_eq!(round.current_turn(), Some(round.turn_order[0]));
    assert_eq!(round.used_question_ids, vec![round.current_question.as_ref().unwrap().id.clone()]);
    assert!(round.asked_questions.is_empty());
    let mut order = round.turn_order.clone();
    order.sort();
    assert_eq!(order, vec![100, 101, 102]);
    assert!(round.assignment_for(100).is_some());
    assert!(round.assignment_for(5).is_none());
}

#[test]
fn questions_cycle_without_repeats_until_all_were_used() {
    let content = small_catalog();
    let rules = GameRules::default().normalize(&content).unwrap();
    let mut round = RoundState::new(
        1,
        place(20, "Museum", 5),
        &roster(&["A", "B", "C"]),
        &rules,
        &content,
        0,
    )
    .unwrap();
    let mut shown = vec![round.current_question.as_ref().unwrap().id.clone()];
    for step in 0..5u64 {
        let holder = round.current_turn().unwrap();
        let (question, next) = round.next_question(holder, &rules, &content, step).unwrap();
        assert_eq!(Some(next), round.current_turn());
        assert_eq!(round.current_question.as_ref(), Some(&question));
        shown.push(question.id);
    }
    let mut first_cycle = shown[0..3].to_vec();
    first_cycle.sort();
    assert_eq!(first_cycle, texts(&["a", "b", "c"]));
    let mut second_cycle = shown[3..6].to_vec();
    second_cycle.sort();
    assert_eq!(second_cycle, texts(&["a", "b", "c"]));
    assert_eq!(round.asked_questions.len(), 5);
    assert_eq!(round.asked_questions[0].categories.len(), {
        let first = content.questions.iter().find(|q| q.id == shown[0]).unwrap();
        first.categories.len()
    });
    assert!(round.asked_questions.iter().all(|q| q
        .categories
        .iter()
        .all(|c| *c == c.to_lowercase())));
}

#[test]
fn a_round_without_further_questions_fails_with_the_turn_moved() {
    let content = small_catalog();
    let rules = GameRules::default().normalize(&content).unwrap();
    let mut round = RoundState::new(
        1,
        place(20, "Museum", 5),
        &roster(&["A", "B", "C"]),
        &rules,
        &content,
        0,
    )
    .unwrap();
    let narrow = GameRules {
        question_categories: texts(&["music"]),
        ..GameRules::default()
    };
    let holder = round.current_turn().unwrap();
    let result = round.next_question(holder, &narrow, &content, 9);
    assert_eq!(
        result,
        Err(AppError::BadRequest("no further questions available".to_string()))
    );
    assert_eq!(round.current_turn_index, 1);
    assert!(round.current_question.is_none());
    assert!(round.used_question_ids.is_empty());
    assert_eq!(round.asked_questions.len(), 1);
    assert_eq!(round.public_state().current_question, None);
    assert_eq!(GamePhase::Lobby, GamePhase::Lobby);
}

#[test]
fn eligible_questions_are_listed_in_catalog_order() {
    let questions = vec![
        prompt("a", &["Travel", "Food"]),
        prompt("b", &["food"]),
        prompt("c", &["Work"]),
        prompt("d", &[]),
    ];
    let keys = vec![texts(&["travel", "food"]), texts(&["food"]), texts(&["work"]), vec![]];
    let none: Vec<String> = vec![];
    assert_eq!(
        eligible_questions(&questions, &keys, &none, false, &none),
        vec![0, 1, 2, 3]
    );
    assert_eq!(
        eligible_questions(&questions, &keys, &texts(&["food"]), false, &none),
        vec![0, 1]
    );
    assert_eq!(
        eligible_questions(&questions, &keys, &texts(&["food", "work"]), false, &texts(&["a"])),
        vec![1, 2]
    );
    assert_eq!(
        eligible_questions(&questions, &keys, &texts(&["food", "work"]), true, &texts(&["a"])),
        vec![0, 1, 2]
    );
    assert_eq!(
        eligible_questions(&questions, &keys, &texts(&["Food"]), true, &none),
        Vec::<usize>::new()
    );
    assert_eq!(
        eligible_questions(&questions, &keys, &none, false, &texts(&["a", "b", "c", "d"])),
        Vec::<usize>::new()
    );
    assert!(keys_fit(&none, &none));
    assert!(keys_fit(&texts(&["x"]), &texts(&["y", "x"])));
    assert!(!keys_fit(&texts(&["x"]), &texts(&["y"])));
    assert!(!keys_fit(&texts(&["x"]), &none));
}

#[test]
fn seated_places_are_the_locations_with_enough_roles() {
    let locations = vec![place(10, "Harbour", 3), place(20, "Museum", 5), place(30, "Zoo", 2)];
    assert_eq!(seated_places(&locations, 3), vec![0, 1, 2]);
    assert_eq!(seated_places(&locations, 4), vec![0, 1]);
    assert_eq!(seated_places(&locations, 6), vec![1]);
    assert_eq!(seated_places(&locations, 7), Vec::<usize>::new());
    assert_eq!(seated_places(&locations, 0), vec![0, 1, 2]);
}

#[test]
fn the_first_unused_candidate_is_chosen() {
    let pool = vec![place(10, "Harbour", 3), place(20, "Museum", 5), place(30, "Zoo", 2)];
    assert_eq!(first_unused(&pool, &vec![2, 0, 1], &vec![]), Some(2));
    assert_eq!(first_unused(&pool, &vec![2, 0, 1], &vec![30]), Some(0));
    assert_eq!(first_unused(&pool, &vec![2, 0, 1], &vec![10, 30]), Some(1));
    assert_eq!(first_unused(&pool, &vec![2, 0, 1], &vec![20, 10, 30]), None);
    assert_eq!(first_unused(&pool, &vec![1], &vec![10]), Some(1));
    assert_eq!(first_unused(&pool, &vec![], &vec![]), None);
    assert_eq!(release(&vec![10, 20, 30], 20), vec![10, 30]);
    assert_eq!(release(&vec![10, 20, 30], 40), vec![10, 20, 30]);
    assert_eq!(release(&vec![], 40), Vec::<u32>::new());
    assert!(holds_id(&vec![10, 20], 20));
    assert!(!holds_id(&vec![10, 20], 30));
}

#[test]
fn parts_are_dealt_in_the_given_order() {
    let roles = texts(&["cook", "guard", "pilot", "nurse"]);
    let parts = deal_parts(&vec![7, 8, 9, 10], 2, &roles, &vec![3, 0, 2, 1]);
    assert_eq!(
        parts,
        vec![
            Assignment { player_id: 7, part: PlayerRoleAssignment::Civilian { role: "nurse".to_string() } },
            Assignment { player_id: 8, part: PlayerRoleAssignment::Civilian { role: "cook".to_string() } },
            Assignment { player_id: 9, part: PlayerRoleAssignment::Imposter },
            Assignment { player_id: 10, part: PlayerRoleAssignment::Civilian { role: "pilot".to_string() } },
        ]
    );
    let parts = deal_parts(&vec![7, 8, 9], 0, &roles, &vec![1, 2]);
    assert_eq!(parts[0].part, PlayerRoleAssignment::Imposter);
    assert_eq!(parts[1].part, PlayerRoleAssignment::Civilian { role: "guard".to_string() });
    assert_eq!(parts[2].part, PlayerRoleAssignment::Civilian { role: "pilot".to_string() });
}

#[test]
fn text_lists_are_copied_lowered_and_deduplicated() {
    let list = texts(&["B", "a", "a", "C"]);
    assert_eq!(copy_texts(&list), list);
    assert_eq!(lower_texts(&list), texts(&["b", "a", "a", "c"]));
    assert_eq!(lower_texts(&texts(&["ÄÖ", "Straße"])), texts(&["äö", "straße"]));
    assert!(has_text(&list, &"a".to_string()));
    assert!(!has_text(&list, &"A".to_string()));
    assert_eq!(distinct_texts(&texts(&["a", "a", "b", "c", "c"])), texts(&["a", "b", "c"]));
    assert_eq!(distinct_texts(&vec![]), Vec::<String>::new());
}

#[test]
fn a_code_is_owed_where_no_well_formed_code_exists() {
    for _ in 0..50 {
        let code = RoomCode::generate(&vec![], 1).unwrap();
        assert_eq!(code.as_text().chars().count(), 4);
        let odd = vec![RoomCode("zz".to_string()), RoomCode("ab1z".to_string())];
        let code = RoomCode::generate(&odd, 1).unwrap();
        assert!(!code.is_among(&odd));
    }
    assert!(RoomCode::generate(&vec![], 0).is_none());
}

#[test]
fn a_code_is_kept_only_if_it_is_free() {
    let existing = vec![RoomCode("AAAA".to_string()), RoomCode("BBBB".to_string())];
    assert_eq!(RoomCode("BBBB".to_string()).if_free(&existing), None);
    assert_eq!(
        RoomCode("CCCC".to_string()).if_free(&existing),
        Some(RoomCode("CCCC".to_string()))
    );
    assert_eq!(
        RoomCode("AAAA".to_string()).if_free(&vec![]),
        Some(RoomCode("AAAA".to_string()))
    );
}
