use auth_gateway::password::{parse_line, ArgonPasswordsInFile, VerifyPassword};
use auth_gateway::text::{decimal_string, parse_u32};

const KNOWN_HASH: &str =
    "$argon2i$v=19$m=4096,t=3,p=1$c29tZXNhbHQ$iWh06vD8Fy27wf9npn6FXWiCX4K6pW6Ue1Bnzz07Z8A";

fn argon2id_hash(password: &str) -> String {
    let config = argon2::Config {
        variant: argon2::Variant::Argon2id,
        mem_cost: 64,
        time_cost: 1,
        lanes: 1,
        ..argon2::Config::default()
    };
    argon2::hash_encoded(password.as_bytes(), b"saltsalt", &config).unwrap()
}

fn store_of(lines: Vec<String>) -> ArgonPasswordsInFile {
    match ArgonPasswordsInFile::try_from(Some(lines)) {
        Ok(store) => store,
        Err(message) => panic!("{}", message),
    }
}

#[test]
fn parse_u32_reads_plain_digits() {
    assert_eq!(parse_u32("0"), Some(0));
    assert_eq!(parse_u32("7"), Some(7));
    assert_eq!(parse_u32("0042"), Some(42));
    assert_eq!(parse_u32("4294967295"), Some(4294967295));
}

#[test]
fn parse_u32_takes_a_leading_plus() {
    assert_eq!(parse_u32("+15"), Some(15));
}

#[test]
fn parse_u32_refuses_what_is_no_number() {
    assert_eq!(parse_u32(""), None);
    assert_eq!(parse_u32("+"), None);
    assert_eq!(parse_u32("-1"), None);
    assert_eq!(parse_u32("++1"), None);
    assert_eq!(parse_u32("1 "), None);
    assert_eq!(parse_u32(" 1"), None);
    assert_eq!(parse_u32("12a"), None);
    assert_eq!(parse_u32("１２"), None);
}

#[test]
fn parse_u32_refuses_what_does_not_fit() {
    assert_eq!(parse_u32("4294967296"), None);
    assert_eq!(parse_u32("99999999999999999999999999"), None);
    assert_eq!(parse_u32("000000000004294967295"), Some(4294967295));
}

#[test]
fn parse_u32_agrees_with_std() {
    for text in ["", "+", "+0", "17", "4294967295", "4294967296", "1e3", "0x10", "٣"] {
        assert_eq!(parse_u32(text), text.parse::<u32>().ok());
    }
}

#[test]
fn decimal_string_writes_shortest_form() {
    assert_eq!(decimal_string(0), "0");
    assert_eq!(decimal_string(9), "9");
    assert_eq!(decimal_string(10), "10");
    assert_eq!(decimal_string(1203), "1203");
    assert_eq!(decimal_string(4294967295), "4294967295");
}

#[test]
fn decimal_round_trip() {
    for n in [0u32, 1, 9, 10, 99, 100, 65535, 65536, 4294967294, 4294967295] {
        assert_eq!(parse_u32(&decimal_string(n)), Some(n));
    }
}

#[test]
fn parse_line_reads_three_fields() {
    let entry = parse_line("12~alice~$argon2id$abc").unwrap();
    assert_eq!(entry.user_id, 12);
    assert_eq!(entry.username, "alice");
    assert_eq!(entry.password_hash, "$argon2id$abc");
}

#[test]
fn parse_line_keeps_empty_and_unicode_fields() {
    let entry = parse_line("3~~").unwrap();
    assert_eq!(entry.user_id, 3);
    assert_eq!(entry.username, "");
    assert_eq!(entry.password_hash, "");
    let entry = parse_line("4~zoë~häsh").unwrap();
    assert_eq!(entry.username, "zoë");
    assert_eq!(entry.password_hash, "häsh");
}

#[test]
fn parse_line_refuses_wrong_field_count() {
    assert!(parse_line("").is_none());
    assert!(parse_line("alice").is_none());
    assert!(parse_line("alice~$argon2id$abc").is_none());
    assert!(parse_line("1~alice~hash~more").is_none());
    assert!(parse_line("1~alice~hash~").is_none());
}

#[test]
fn parse_line_refuses_unparsable_id() {
    assert!(parse_line("x~alice~hash").is_none());
    assert!(parse_line("~alice~hash").is_none());
    assert!(parse_line("-1~alice~hash").is_none());
    assert!(parse_line("4294967296~alice~hash").is_none());
    assert!(parse_line(" 1~alice~hash").is_none());
}

#[test]
fn unreadable_file_is_an_error() {
    match ArgonPasswordsInFile::try_from(None) {
        Ok(_) => panic!("a store from no file"),
        Err(message) => assert_eq!(message, "unable to read the file"),
    }
}

#[test]
fn empty_file_gives_empty_store() {
    let store = store_of(vec![]);
    assert_eq!(store.loaded(), 0);
    assert_eq!(store.check_password("alice", "password"), None);
}

#[test]
fn malformed_lines_are_skipped() {
    let store = store_of(vec![
        String::from("garbage"),
        format!("1~alice~{}", KNOWN_HASH),
        String::from("not~a~record~at~all"),
        format!("nan~bob~{}", KNOWN_HASH),
    ]);
    assert_eq!(store.loaded(), 1);
    assert_eq!(store.check_password("alice", "password"), Some(1));
    assert_eq!(store.check_password("bob", "password"), None);
}

#[test]
fn later_line_wins_for_one_name() {
    let store = store_of(vec![
        format!("1~alice~{}", argon2id_hash("first")),
        format!("2~alice~{}", KNOWN_HASH),
    ]);
    assert_eq!(store.loaded(), 2);
    assert_eq!(store.check_password("alice", "password"), Some(2));
    assert_eq!(store.check_password("alice", "first"), None);
}

#[test]
fn check_password_scenario() {
    let store = store_of(vec![format!("41~alice~{}", argon2id_hash("correct"))]);
    assert_eq!(store.check_password("alice", "correct"), Some(41));
    assert_eq!(store.check_password("alice", "wrong"), None);
    assert_eq!(store.check_password("bob", "anything"), None);
}

#[test]
fn check_password_with_known_hash() {
    let store = store_of(vec![format!("9~carol~{}", KNOWN_HASH)]);
    assert_eq!(store.check_password("carol", "password"), Some(9));
    assert_eq!(store.check_password("carol", "Password"), None);
    assert_eq!(store.check_password("carol", ""), None);
}

#[test]
fn check_password_with_unreadable_hash() {
    let store = store_of(vec![String::from("5~dave~not-a-hash")]);
    assert_eq!(store.loaded(), 1);
    assert_eq!(store.check_password("dave", "not-a-hash"), None);
    assert_eq!(store.check_password("dave", ""), None);
}

#[test]
fn every_stored_pair_is_accepted() {
    let users = [(1u32, "ann", "pw-ann"), (2, "ben", "pw-ben"), (4000000000, "cy", "pw-cy")];
    let lines = users.iter().map(|(id, name, pw)| format!("{}~{}~{}", id, name, argon2id_hash(pw)));
    let store = store_of(lines.collect());
    for (id, name, pw) in users {
        assert_eq!(store.check_password(name, pw), Some(id));
        assert_eq!(store.check_password(name, "other"), None);
    }
}
