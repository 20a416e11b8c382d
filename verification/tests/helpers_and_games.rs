use homelab_backend::games::{
    check_if_solution_is_valid, ConnectionCategory, ConnectionGame, MinimalConnectionsGame,
    PlayConnectionGame,
};
use homelab_backend::log::LogCreationTask;
use homelab_backend::text::{
    i64_to_string, list_to_query_params, name_to_slug, parse_i32, to_upper_hex, u64_to_string,
};
use homelab_backend::user::{generate_salt, hash_password, AuthLevel, ReturnUser, User};
use homelab_backend::{ChannelType, Config, Priority, ReminderUpdateSchema, WebsocketAck};

fn cat(name: &str, clues: [&str; 4]) -> ConnectionCategory {
    ConnectionCategory {
        category_clues: [
            clues[0].to_string(),
            clues[1].to_string(),
            clues[2].to_string(),
            clues[3].to_string(),
        ],
        category_name: name.to_string(),
    }
}

fn test_game() -> ConnectionGame {
    ConnectionGame {
        id: "g1".to_string(),
        connection_categories: [
            cat("first", ["foo", "bar", "baz", "bash"]),
            cat("second", ["one", "two", "three", "four"]),
            cat("third", ["red", "green", "blue", "white"]),
            cat("fourth", ["cat", "dog", "bird", "fish"]),
        ],
        puzzle_name: "Test Puzzle".to_string(),
        slug: "test-puzzle".to_string(),
        author_id: "author".to_string(),
        creation_datetime: 123,
    }
}

#[test]
fn correct_guess_names_its_category() {
    let game = test_game();
    let guess =
        ["two".to_string(), "one".to_string(), "four".to_string(), "three".to_string()];
    let (name, correct) = check_if_solution_is_valid(&game, &guess);
    assert!(correct);
    assert_eq!(name, Some("second".to_string()));
}

#[test]
fn wrong_guess_is_rejected() {
    let game = test_game();
    let guess =
        ["one".to_string(), "two".to_string(), "three".to_string(), "wrong".to_string()];
    let (name, correct) = check_if_solution_is_valid(&game, &guess);
    assert!(!correct);
    assert_eq!(name, None);
}

#[test]
fn mixed_rows_do_not_solve() {
    let game = test_game();
    let guess = ["foo".to_string(), "one".to_string(), "red".to_string(), "cat".to_string()];
    let (name, correct) = check_if_solution_is_valid(&game, &guess);
    assert!(!correct);
    assert_eq!(name, None);
}

#[test]
fn play_view_scrambles_without_losing_clues() {
    let game = test_game();
    let play = PlayConnectionGame::from_game(&game);
    assert_eq!(play.id, "g1");
    assert_eq!(play.author_id, "author");
    assert_eq!(play.puzzle_name, "Test Puzzle");
    assert_eq!(play.slug, "test-puzzle");
    assert_eq!(play.creation_datetime, 123);
    assert_eq!(play.scrambled_clues.len(), 16);
    let mut scrambled = play.scrambled_clues.clone();
    scrambled.sort();
    let mut expected: Vec<String> = game
        .connection_categories
        .iter()
        .flat_map(|c| c.category_clues.iter().cloned())
        .collect();
    expected.sort();
    assert_eq!(scrambled, expected);
}

#[test]
fn minimal_view_drops_the_categories() {
    let game = test_game();
    let minimal = MinimalConnectionsGame::from_game(&game);
    assert_eq!(minimal.id, "g1");
    assert_eq!(minimal.puzzle_name, "Test Puzzle");
    assert_eq!(minimal.slug, "test-puzzle");
    assert_eq!(minimal.author_id, "author");
    assert_eq!(minimal.creation_datetime, 123);
}

#[test]
fn decimal_rendering() {
    assert_eq!(u64_to_string(0), "0");
    assert_eq!(u64_to_string(7), "7");
    assert_eq!(u64_to_string(1234567890), "1234567890");
    assert_eq!(u64_to_string(u64::MAX), "18446744073709551615");
}

#[test]
fn signed_decimal_rendering() {
    assert_eq!(i64_to_string(0), "0");
    assert_eq!(i64_to_string(-1), "-1");
    assert_eq!(i64_to_string(i64::MIN), "-9223372036854775808");
    assert_eq!(i64_to_string(i64::MAX), "9223372036854775807");
}

#[test]
fn decimal_parsing_follows_the_standard_rules() {
    assert_eq!(parse_i32("123"), Some(123));
    assert_eq!(parse_i32("+7"), Some(7));
    assert_eq!(parse_i32("-42"), Some(-42));
    assert_eq!(parse_i32("007"), Some(7));
    assert_eq!(parse_i32("2147483647"), Some(i32::MAX));
    assert_eq!(parse_i32("-2147483648"), Some(i32::MIN));
    assert_eq!(parse_i32("2147483648"), None);
    assert_eq!(parse_i32("-2147483649"), None);
    assert_eq!(parse_i32("99999999999999999999"), None);
    assert_eq!(parse_i32(""), None);
    assert_eq!(parse_i32("-"), None);
    assert_eq!(parse_i32("+"), None);
    assert_eq!(parse_i32("12a"), None);
    assert_eq!(parse_i32("abc"), None);
    assert_eq!(parse_i32(" 1"), None);
}

#[test]
fn slugs_lower_letters_and_dash_the_rest() {
    assert_eq!(name_to_slug("My Channel"), "my-channel");
    assert_eq!(name_to_slug("ABC"), "abc");
    assert_eq!(name_to_slug("a1b"), "a-b");
    assert_eq!(name_to_slug(""), "");
    assert_eq!(name_to_slug("!@#"), "---");
}

#[test]
fn uppercase_hex_pads_every_byte() {
    assert_eq!(to_upper_hex(&vec![]), "");
    assert_eq!(to_upper_hex(&vec![0x00, 0xAB, 0xFF, 0x07]), "00ABFF07");
}

#[test]
fn password_hash_matches_reference_vector() {
    // SHA-256("abc"), uppercase
    let expected = "BA7816BF8F01CFEA414140DE5DAE2223B00361A396177A9CB410FF61F20015AD";
    assert_eq!(hash_password("ab".to_string(), "c"), expected);
    assert_eq!(hash_password("abc".to_string(), ""), expected);
    // salting changes the hash
    assert_ne!(hash_password("abc".to_string(), "d"), expected);
}

#[test]
fn salts_are_alphanumeric_and_fixed_length() {
    let salt = generate_salt();
    assert_eq!(salt.len(), 12);
    assert!(salt.chars().all(|c| c.is_ascii_alphanumeric()));
    // two draws almost surely differ; equality here would point at a stuck generator
    let other = generate_salt();
    assert_eq!(other.len(), 12);
}

#[test]
fn query_params_join_with_ampersands() {
    assert_eq!(
        list_to_query_params("ids", vec!["1".to_string(), "2".to_string(), "3".to_string()]),
        "ids=1&ids=2&ids=3"
    );
    assert_eq!(list_to_query_params("ids", vec!["only".to_string()]), "ids=only");
    assert_eq!(list_to_query_params("ids", vec![]), "");
}

#[test]
fn credential_bearing_uris_are_redacted() {
    let task = LogCreationTask::new(
        "GET".to_string(),
        "/api/chat/ws?auth_token=abc123".to_string(),
        "7".to_string(),
        5,
    );
    assert_eq!(task.redacted_uri(), "/api/chat/ws?auth_token=<redacted>");
    let task = LogCreationTask::new(
        "GET".to_string(),
        "/api/users/me".to_string(),
        "7".to_string(),
        5,
    );
    assert_eq!(task.redacted_uri(), "/api/users/me");
}

#[test]
fn log_summary_line() {
    let task = LogCreationTask::new(
        "POST".to_string(),
        "/api/users".to_string(),
        "42".to_string(),
        1700000000,
    );
    assert_eq!(task.summary(), "1700000000: POST /api/users from 42");
    let negative = LogCreationTask::new("GET".to_string(), "/".to_string(), "-1".to_string(), -5);
    assert_eq!(negative.summary(), "-5: GET / from -1");
}

#[test]
fn redaction_triggers_on_the_exact_prefix() {
    let bare = LogCreationTask::new(
        "GET".to_string(),
        "/api/chat/ws?auth_token=".to_string(),
        "7".to_string(),
        0,
    );
    assert_eq!(bare.redacted_uri(), "/api/chat/ws?auth_token=<redacted>");
    let close = LogCreationTask::new(
        "GET".to_string(),
        "/api/chat/ws?auth_toke".to_string(),
        "7".to_string(),
        0,
    );
    assert_eq!(close.redacted_uri(), "/api/chat/ws?auth_toke");
}

#[test]
fn ack_error_range_is_exactly_4xx() {
    let mut ack = WebsocketAck::new();
    assert_eq!(ack.status_code, 0);
    assert_eq!(ack.msg, "");
    assert!(!ack.is_error());
    ack.status_code = 399;
    assert!(!ack.is_error());
    ack.status_code = 400;
    assert!(ack.is_error());
    ack.status_code = 499;
    assert!(ack.is_error());
    ack.status_code = 500;
    assert!(!ack.is_error());
}

#[test]
fn numeric_codes_round_trip() {
    for v in 0..=2i64 {
        assert_eq!(ChannelType::from_i64(v).to_i64(), v);
    }
    assert_eq!(ChannelType::from_i64(1), ChannelType::Group);
    for v in 0..=3i64 {
        assert_eq!(Priority::from_i64(v).to_i64(), v);
    }
    assert_eq!(Priority::from_i64(3), Priority::VeryHigh);
    for v in 0..=1i64 {
        assert_eq!(AuthLevel::from_i64(v).to_i64(), v);
    }
    assert_eq!(AuthLevel::from_i64(1), AuthLevel::Admin);
}

#[test]
fn config_and_misc() {
    let config = Config::init(
        "mongodb://localhost".to_string(),
        "jwt".to_string(),
        3600,
        "app".to_string(),
    );
    assert_eq!(config.connection_string, "mongodb://localhost");
    assert_eq!(config.jwt_secret, "jwt");
    assert_eq!(config.jwt_max_age, 3600);
    assert_eq!(config.app_secret, "app");
    assert_eq!(homelab_backend::notes::get_notes(), "test");
    assert!(homelab_backend::current_unix_time() > 1_600_000_000);
}

#[test]
fn update_schema_emptiness() {
    let empty = ReminderUpdateSchema { name: None, description: None, categories: None, priority: None };
    assert!(!empty.has_updates());
    let named = ReminderUpdateSchema {
        name: Some("new name".to_string()),
        description: None,
        categories: None,
        priority: None,
    };
    assert!(named.has_updates());
    let prioritized = ReminderUpdateSchema {
        name: None,
        description: None,
        categories: None,
        priority: Some(Priority::High),
    };
    assert!(prioritized.has_updates());
}

#[test]
fn user_projection_keeps_id_and_username() {
    let user = User::new(
        "id-1".to_string(),
        "foo".to_string(),
        "hash".to_string(),
        AuthLevel::User,
        "salt".to_string(),
    );
    assert_eq!(user.get_id(), "id-1");
    let ret = ReturnUser::from_user(user);
    assert_eq!(ret.id, "id-1");
    assert_eq!(ret.username, "foo");
}
