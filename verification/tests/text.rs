//! Texts, tables and JSON values.

use todoki::collections::{Table, TextSet};
use todoki::json::Json;
use todoki::protocol::{AgentRole, AgentStatus, EventTime, SessionStatus};
use todoki::text::{
    chars_of, contains, find_char, replace, same, split, starts_with, strip_prefix, to_decimal,
    trim, trim_end_char, white_space,
};

#[test]
fn text_operations_agree_with_std() {
    let samples = [
        "", "a", "/", "//", "a/b", "/a/", "  x ", "\u{3000}y\t", "aXbXc", "XX", "éàü", "=", "k=v",
        "relay.*", "**", "a\u{a0}", "\u{200b}z",
    ];
    for s in samples {
        assert_eq!(chars_of(s), s.chars().collect::<Vec<char>>());
        assert_eq!(trim(s), s.trim());
        for c in ['/', 'X', '*', '='] {
            assert_eq!(trim_end_char(s, c), s.trim_end_matches(c));
            let pieces: Vec<String> = s.split(c).map(|p| p.to_string()).collect();
            assert_eq!(split(s, c), pieces);
            assert_eq!(find_char(s, c), s.chars().position(|d| d == c));
        }
        for p in ["a", "/", "XX", "éà", "  "] {
            assert_eq!(contains(s, p), s.contains(p));
            assert_eq!(starts_with(s, p), s.starts_with(p));
            assert_eq!(strip_prefix(s, p), s.strip_prefix(p).map(|t| t.to_string()));
            assert_eq!(replace(s, p, "<>"), s.replace(p, "<>"));
        }
        for t in samples {
            assert_eq!(same(s, t), s == t);
        }
    }
    assert_eq!(replace("aaa", "aa", "b"), "aaa".replace("aa", "b"));
}

#[test]
fn white_space_is_that_of_std() {
    for c in '\0'..=char::MAX {
        assert_eq!(white_space(c), c.is_whitespace());
    }
}

#[test]
fn decimal_numbers_are_those_of_std() {
    for n in [0u64, 1, 9, 10, 99, 100, 1000, 123456789, u64::MAX] {
        assert_eq!(to_decimal(n), n.to_string());
    }
}

#[test]
fn tables_hold_each_key_once() {
    let mut t: Table<u32> = Table::new();
    assert_eq!(t.get("a"), None);
    t.insert("a".to_string(), 1);
    t.insert("b".to_string(), 2);
    t.insert("a".to_string(), 3);
    assert_eq!(t.len(), 2);
    assert_eq!(t.get("a"), Some(&3));
    assert_eq!(t.remove("a"), Some(3));
    assert_eq!(t.remove("a"), None);
    assert_eq!(t.at(0), ("b", &2));
}

#[test]
fn sets_hold_each_member_once() {
    let mut s = TextSet::new();
    assert!(s.is_empty());
    s.insert("a");
    s.insert("a");
    s.insert("b");
    assert_eq!(s.len(), 2);
    assert!(s.contains("a"));
    s.remove("a");
    assert_eq!(s.to_list(), vec!["b".to_string()]);
}

#[test]
fn last_entry_of_a_key_counts() {
    let j = Json::Object(vec![
        ("a".to_string(), Json::text("first")),
        ("a".to_string(), Json::text("last")),
    ]);
    assert_eq!(j.text_field("a"), Some("last"));
    let table = j.text_table().unwrap();
    assert_eq!(table.len(), 1);
    assert_eq!(table.get("a"), Some(&"last".to_string()));
    let j = j.clone().with("a", Json::Null);
    assert!(matches!(j.get("a"), Some(Json::Null)));
    assert_eq!(j.text_field("a"), None);
    assert!(Json::Null.get("a").is_none());
    assert!(matches!(Json::Bool(true).with("a", Json::Null), Json::Bool(true)));
}

#[test]
fn text_lists_are_read() {
    let list = vec!["a".to_string(), "b".to_string()];
    assert_eq!(Json::texts(&list).text_list(), Ok(list));
    assert_eq!(Json::texts(&vec![]).text_list(), Ok(vec![]));
    assert_eq!(
        Json::Null.text_list(),
        Err("invalid type: null, expected a sequence".to_string())
    );
    assert_eq!(
        Json::Array(vec![Json::text("a"), Json::Bool(true)]).text_list(),
        Err("invalid type: boolean `true`, expected a string".to_string())
    );
    let number = Json::Number(serde_json::Number::from(5));
    assert_eq!(
        Json::Array(vec![number.clone()]).text_list(),
        Err("invalid type: integer `5`, expected a string".to_string())
    );
    assert_eq!(
        number.text_list(),
        Err("invalid type: integer `5`, expected a sequence".to_string())
    );
    assert_eq!(
        Json::object().text_list(),
        Err("invalid type: map, expected a sequence".to_string())
    );
}

#[test]
fn nested_values_are_read_as_they_are() {
    let inner = Json::Array(vec![Json::Null, Json::object().with("k", Json::Bool(false))]);
    assert_eq!(
        Json::Array(vec![inner.clone()]).text_list(),
        Err("invalid type: sequence, expected a string".to_string())
    );
    assert!(Json::object().with("a", inner).text_table().is_none());
}

#[test]
fn text_tables_are_read() {
    let mut t: Table<String> = Table::new();
    t.insert("k".to_string(), "v".to_string());
    t.insert("l".to_string(), "w".to_string());
    let read = Json::table(&t).text_table().unwrap();
    assert_eq!(read.len(), 2);
    assert_eq!(read.get("k"), Some(&"v".to_string()));
    assert_eq!(read.get("l"), Some(&"w".to_string()));
    assert_eq!(Json::object().text_table().unwrap().len(), 0);
    assert!(Json::Null.text_table().is_none());
    assert!(Json::object().with("k", Json::Null).text_table().is_none());
    assert!(Json::Array(vec![]).text_table().is_none());
}

#[test]
fn uuid_lists_are_read() {
    let id: u128 = 0x550e8400_e29b_41d4_a716_446655440000;
    let written = Json::ids(&vec![id, 0]);
    assert_eq!(
        written.text_list(),
        Ok(vec![
            "550e8400-e29b-41d4-a716-446655440000".to_string(),
            "00000000-0000-0000-0000-000000000000".to_string()
        ])
    );
    assert_eq!(written.id_list(), Some(vec![id, 0]));
    assert_eq!(
        Json::Array(vec![Json::text("550E8400E29B41D4A716446655440000")]).id_list(),
        Some(vec![id])
    );
    assert_eq!(Json::Array(vec![Json::text("no uuid")]).id_list(), None);
    assert_eq!(Json::Array(vec![Json::Null]).id_list(), None);
    assert_eq!(Json::Null.id_list(), None);
    assert_eq!(Json::Array(vec![]).id_list(), Some(vec![]));
}

#[test]
fn optional_text_is_null_when_absent() {
    assert!(matches!(Json::opt_text(None), Json::Null));
    assert_eq!(Json::opt_text(Some("x")).as_str(), Some("x"));
}

#[test]
fn roles_have_names() {
    for role in [AgentRole::General, AgentRole::Business, AgentRole::Coding, AgentRole::Qa] {
        assert_eq!(AgentRole::from_str(role.as_str()), role);
    }
    assert_eq!(AgentRole::from_str("coding"), AgentRole::Coding);
    assert_eq!(AgentRole::from_str("anything"), AgentRole::General);
    assert_eq!(AgentRole::default(), AgentRole::General);
}

#[test]
fn statuses_have_names_and_ends() {
    assert_eq!(SessionStatus::from_str("running"), Some(SessionStatus::Running));
    assert_eq!(SessionStatus::from_str("exited"), Some(SessionStatus::Completed));
    assert_eq!(SessionStatus::from_str("completed"), Some(SessionStatus::Completed));
    assert_eq!(SessionStatus::from_str("failed"), Some(SessionStatus::Failed));
    assert_eq!(SessionStatus::from_str("cancelled"), Some(SessionStatus::Cancelled));
    assert_eq!(SessionStatus::from_str("Running"), None);
    assert_eq!(SessionStatus::Running.agent_status(), None);
    assert_eq!(SessionStatus::Completed.agent_status(), Some(AgentStatus::Exited));
    assert_eq!(SessionStatus::Failed.agent_status(), Some(AgentStatus::Failed));
    assert_eq!(SessionStatus::Cancelled.agent_status(), Some(AgentStatus::Stopped));
}

#[test]
fn times_are_written_as_rfc_3339() {
    let time = |secs, nanos| EventTime::new(secs, nanos).map(|t| t.to_rfc3339());
    assert_eq!(time(0, 0), Some("1970-01-01T00:00:00+00:00".to_string()));
    assert_eq!(
        time(1_700_000_000, 123_000_000),
        Some("2023-11-14T22:13:20.123+00:00".to_string())
    );
    assert_eq!(
        time(1_700_000_000, 0),
        chrono::DateTime::from_timestamp(1_700_000_000, 0).map(|t| t.to_rfc3339())
    );
}

#[test]
fn times_out_of_range_are_refused() {
    for (secs, nanos) in [
        (-8_334_601_228_800, 0),
        (8_210_266_876_799, 999_999_999),
        (8_210_266_876_799, 1_999_999_999),
        (59, 1_000_000_000),
        (-1, 1_999_999_999),
    ] {
        assert!(EventTime::new(secs, nanos).is_some(), "{secs} {nanos}");
        assert!(chrono::DateTime::from_timestamp(secs, nanos).is_some());
    }
    for (secs, nanos) in [
        (-8_334_601_228_801, 0),
        (8_210_266_876_800, 0),
        (58, 1_000_000_000),
        (-2, 1_000_000_000),
        (59, 2_000_000_000),
        (i64::MIN, 0),
        (i64::MAX, 0),
    ] {
        assert!(EventTime::new(secs, nanos).is_none(), "{secs} {nanos}");
        assert!(chrono::DateTime::from_timestamp(secs, nanos).is_none());
    }
}
