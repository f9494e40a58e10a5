use pto::matrix::client::{json, ClientError};
use pto::matrix::events::{Event, EventData, MembershipAction, RoomEvent};
use pto::matrix::json::{array, string};
use pto::matrix::scan::admits;
use pto::matrix::model::{EventID, RoomID, UserID};
use rustc_serialize::json::Json;

fn doc(text: &str) -> Json {
    Json::from_str(text).unwrap()
}

fn room_event(text: &str) -> RoomEvent {
    match Event::from_json(&doc(text)).data {
        EventData::Room(room, evt) => {
            assert_eq!(room, RoomID::from_str("!r:home.org").unwrap());
            evt
        }
        other => panic!("{:?}", other),
    }
}

#[test]
fn answer_other_than_success_is_refused() {
    assert!(matches!(json(false, "{}"), Err(ClientError::UrlNotFound)));
    assert!(matches!(json(false, "not a document"), Err(ClientError::UrlNotFound)));
}

#[test]
fn answer_that_is_no_document_is_refused() {
    assert!(matches!(json(true, "{\"a\": "), Err(ClientError::Json(_))));
    assert!(matches!(json(true, ""), Err(ClientError::Json(_))));
}

#[test]
fn answer_is_read_as_a_document() {
    let answer = json(true, "{\"event_id\": \"$1:home.org\"}").unwrap();
    assert_eq!(string(&answer, "event_id"), Some("$1:home.org".to_string()));
}

#[test]
fn white_space_around_an_answer_is_taken_off() {
    let answer = json(true, "\u{a0}\u{3000} {\"a\": \"b\"} \u{2003}\u{a0}").unwrap();
    assert_eq!(string(&answer, "a"), Some("b".to_string()));
}

#[test]
fn string_member_is_found_by_its_key() {
    let d = doc("{\"a\": \"x\", \"b\": 3, \"c\": [\"y\"], \"d\": {\"a\": \"z\"}}");
    assert_eq!(string(&d, "a"), Some("x".to_string()));
    assert_eq!(string(&d, "b"), None);
    assert_eq!(string(&d, "c"), None);
    assert_eq!(string(&d, "d"), None);
    assert_eq!(string(&d, "e"), None);
    assert_eq!(string(&doc("[\"a\"]"), "a"), None);
    assert_eq!(string(&doc("\"a\""), "a"), None);
}

#[test]
fn array_member_is_found_by_its_key() {
    let d = doc("{\"a\": [1, \"two\", [3]], \"b\": \"x\", \"c\": []}");
    assert_eq!(array(&d, "a").len(), 3);
    assert_eq!(array(&d, "a")[1], Json::String("two".to_string()));
    assert!(array(&d, "b").is_empty());
    assert!(array(&d, "c").is_empty());
    assert!(array(&d, "d").is_empty());
    assert!(array(&doc("[1, 2]"), "a").is_empty());
}

#[test]
fn message_event_is_read() {
    let evt = Event::from_json(&doc(
        "{\"type\": \"m.room.message\", \"room_id\": \"!r:home.org\", \"user_id\": \"@alice:home.org\", \
         \"event_id\": \"$e1:home.org\", \"content\": {\"msgtype\": \"m.text\", \"body\": \"hello\"}}",
    ));
    assert_eq!(evt.id, Some(EventID::from_str("$e1:home.org").unwrap()));
    match evt.data {
        EventData::Room(room, RoomEvent::Message(user, text)) => {
            assert_eq!(room, RoomID::from_str("!r:home.org").unwrap());
            assert_eq!(user, UserID::from_str("@alice:home.org").unwrap());
            assert_eq!(text, "hello");
        }
        other => panic!("{:?}", other),
    }
}

#[test]
fn sender_may_stand_under_either_key() {
    match room_event(
        "{\"type\": \"m.room.topic\", \"room_id\": \"!r:home.org\", \"sender\": \"@bob:home.org\", \
         \"content\": {\"topic\": \"news\"}}",
    ) {
        RoomEvent::Topic(user, topic) => {
            assert_eq!(user, UserID::from_str("@bob:home.org").unwrap());
            assert_eq!(topic, "news");
        }
        other => panic!("{:?}", other),
    }
    match room_event(
        "{\"type\": \"m.room.topic\", \"room_id\": \"!r:home.org\", \"sender\": \"@bob:home.org\", \
         \"user_id\": \"@alice:home.org\", \"content\": {\"topic\": \"news\"}}",
    ) {
        RoomEvent::Topic(user, _) => assert_eq!(user, UserID::from_str("@alice:home.org").unwrap()),
        other => panic!("{:?}", other),
    }
}

#[test]
fn membership_event_names_the_user_by_its_state_key() {
    match room_event(
        "{\"type\": \"m.room.member\", \"room_id\": \"!r:home.org\", \"user_id\": \"@alice:home.org\", \
         \"state_key\": \"@bob:home.org\", \"content\": {\"membership\": \"invite\"}}",
    ) {
        RoomEvent::Membership(user, action) => {
            assert_eq!(user, UserID::from_str("@bob:home.org").unwrap());
            assert_eq!(action, MembershipAction::Invite);
        }
        other => panic!("{:?}", other),
    }
}

#[test]
fn membership_words_are_read() {
    assert_eq!(MembershipAction::from_str(&"join".to_string()), Some(MembershipAction::Join));
    assert_eq!(MembershipAction::from_str(&"leave".to_string()), Some(MembershipAction::Leave));
    assert_eq!(MembershipAction::from_str(&"ban".to_string()), Some(MembershipAction::Ban));
    assert_eq!(MembershipAction::from_str(&"invite".to_string()), Some(MembershipAction::Invite));
    assert_eq!(MembershipAction::from_str(&"knock".to_string()), None);
    assert_eq!(MembershipAction::from_str(&"".to_string()), None);
    assert_eq!(MembershipAction::from_str(&"Join".to_string()), None);
}

#[test]
fn state_events_are_read() {
    assert!(matches!(
        room_event("{\"type\": \"m.room.canonical_alias\", \"room_id\": \"!r:home.org\", \"content\": {\"alias\": \"#a:home.org\"}}"),
        RoomEvent::CanonicalAlias(alias) if alias == "#a:home.org"
    ));
    assert!(matches!(
        room_event("{\"type\": \"m.room.join_rules\", \"room_id\": \"!r:home.org\", \"content\": {\"join_rule\": \"public\"}}"),
        RoomEvent::JoinRules(rule) if rule == "public"
    ));
    assert!(matches!(
        room_event("{\"type\": \"m.room.history_visibility\", \"room_id\": \"!r:home.org\", \"content\": {\"history_visibility\": \"shared\"}}"),
        RoomEvent::HistoryVisibility(v) if v == "shared"
    ));
    assert!(matches!(
        room_event("{\"type\": \"m.room.name\", \"room_id\": \"!r:home.org\", \"user_id\": \"@a:h\", \"content\": {\"name\": \"Room\"}}"),
        RoomEvent::Name(_, name) if name == "Room"
    ));
    assert!(matches!(
        room_event("{\"type\": \"m.room.avatar\", \"room_id\": \"!r:home.org\", \"user_id\": \"@a:h\", \"content\": {\"url\": \"mxc://h/x\"}}"),
        RoomEvent::Avatar(_, url) if url == "mxc://h/x"
    ));
    assert!(matches!(
        room_event("{\"type\": \"m.room.create\", \"room_id\": \"!r:home.org\", \"content\": {}}"),
        RoomEvent::Create
    ));
    assert!(matches!(
        room_event("{\"type\": \"m.room.power_levels\", \"room_id\": \"!r:home.org\"}"),
        RoomEvent::PowerLevels
    ));
}

#[test]
fn aliases_are_the_strings_of_the_list() {
    match room_event(
        "{\"type\": \"m.room.aliases\", \"room_id\": \"!r:home.org\", \
         \"content\": {\"aliases\": [\"#a:home.org\", 7, \"#b:home.org\", null]}}",
    ) {
        RoomEvent::Aliases(aliases) => {
            assert_eq!(aliases, vec!["#a:home.org".to_string(), "#b:home.org".to_string()])
        }
        other => panic!("{:?}", other),
    }
    assert!(matches!(
        room_event("{\"type\": \"m.room.aliases\", \"room_id\": \"!r:home.org\", \"content\": {}}"),
        RoomEvent::Aliases(aliases) if aliases.is_empty()
    ));
}

#[test]
fn event_that_lacks_a_part_is_unknown() {
    assert!(matches!(
        room_event("{\"type\": \"m.room.message\", \"room_id\": \"!r:home.org\", \"content\": {\"body\": \"x\"}}"),
        RoomEvent::Unknown(kind) if kind == "m.room.message"
    ));
    assert!(matches!(
        room_event("{\"type\": \"m.room.message\", \"room_id\": \"!r:home.org\", \"user_id\": \"@a:h\"}"),
        RoomEvent::Unknown(kind) if kind == "m.room.message"
    ));
    assert!(matches!(
        room_event("{\"type\": \"m.room.member\", \"room_id\": \"!r:home.org\", \"state_key\": \"@a:h\", \"content\": {\"membership\": \"knock\"}}"),
        RoomEvent::Unknown(kind) if kind == "m.room.member"
    ));
    assert!(matches!(
        room_event("{\"type\": \"m.room.canonical_alias\", \"room_id\": \"!r:home.org\", \"content\": {}}"),
        RoomEvent::Unknown(kind) if kind == "m.room.canonical_alias"
    ));
    assert!(matches!(
        room_event("{\"type\": \"m.room.aliases\", \"room_id\": \"!r:home.org\"}"),
        RoomEvent::Unknown(kind) if kind == "m.room.aliases"
    ));
}

#[test]
fn event_of_a_new_kind_is_unknown() {
    assert!(matches!(
        room_event("{\"type\": \"m.room.future\", \"room_id\": \"!r:home.org\", \"content\": {}}"),
        RoomEvent::Unknown(kind) if kind == "m.room.future"
    ));
    assert!(matches!(
        Event::from_json(&doc("{\"type\": \"m.presence\", \"content\": {}}")).data,
        EventData::Unknown(kind) if kind == "m.presence"
    ));
    assert!(matches!(Event::from_json(&doc("{}")).data, EventData::Unknown(kind) if kind.is_empty()));
    assert!(matches!(Event::from_json(&doc("[]")).data, EventData::Unknown(kind) if kind.is_empty()));
}

#[test]
fn typing_notice_is_read() {
    let evt = Event::from_json(&doc("{\"type\": \"m.typing\", \"room_id\": \"!r:home.org\", \"content\": {}}"));
    assert!(matches!(evt.data, EventData::Typing));
    assert_eq!(evt.id, None);
}

#[test]
fn event_without_a_valid_room_is_unknown() {
    assert!(matches!(
        Event::from_json(&doc("{\"type\": \"m.room.create\", \"room_id\": \"r:home.org\"}")).data,
        EventData::Unknown(kind) if kind == "m.room.create"
    ));
    assert!(matches!(
        Event::from_json(&doc("{\"type\": \"m.room.create\"}")).data,
        EventData::Unknown(kind) if kind == "m.room.create"
    ));
}

#[test]
fn event_identifier_must_be_well_formed() {
    let evt = Event::from_json(&doc("{\"type\": \"m.typing\", \"event_id\": \"e1\"}"));
    assert_eq!(evt.id, None);
    let evt = Event::from_json(&doc("{\"type\": \"m.typing\", \"event_id\": 7}"));
    assert_eq!(evt.id, None);
}

#[test]
fn kinds_have_their_names() {
    let alice = UserID::from_str("@alice:home.org").unwrap();
    assert_eq!(RoomEvent::Message(alice.clone(), "x".to_string()).type_str(), "m.room.message");
    assert_eq!(RoomEvent::Topic(alice.clone(), "x".to_string()).type_str(), "m.room.topic");
    assert_eq!(RoomEvent::Name(alice.clone(), "x".to_string()).type_str(), "m.room.name");
    assert_eq!(RoomEvent::Avatar(alice.clone(), "x".to_string()).type_str(), "m.room.avatar");
    assert_eq!(RoomEvent::Membership(alice, MembershipAction::Join).type_str(), "m.room.member");
    assert_eq!(RoomEvent::CanonicalAlias("x".to_string()).type_str(), "m.room.canonical_alias");
    assert_eq!(RoomEvent::JoinRules("x".to_string()).type_str(), "m.room.join_rules");
    assert_eq!(RoomEvent::HistoryVisibility("x".to_string()).type_str(), "m.room.history_visibility");
    assert_eq!(RoomEvent::Aliases(vec![]).type_str(), "m.room.aliases");
    assert_eq!(RoomEvent::Create.type_str(), "m.room.create");
    assert_eq!(RoomEvent::PowerLevels.type_str(), "m.room.power_levels");
    assert_eq!(RoomEvent::Unknown("m.room.future".to_string()).type_str(), "m.room.future");
}

fn nested(depth: usize) -> String {
    format!("{}{}", "[".repeat(depth), "]".repeat(depth))
}

/// What the parser itself says of a text that the scan lets through.
fn parses(text: &str) -> bool {
    assert!(admits(text), "refused: {}", text);
    Json::from_str(text).is_ok()
}

#[test]
fn documents_are_fit_for_the_parser() {
    assert!(parses("{}"));
    assert!(parses(" [ ] "));
    assert!(parses("{\"a\": [1, 2.5e3, -4E-10, true, false, null, \"x\"], \"b\": {\"c\": \"d\"}}"));
    assert!(parses("{\"origin_server_ts\": 1432735824653, \"age\": 18446744073709551615}"));
    assert!(parses("-9223372036854775808"));
    assert!(parses("0"));
    assert!(parses("-0.5e+2"));
    assert!(parses("\"\\\" \\\\ \\/ \\b \\f \\n \\r \\t \\u00e9 \\u20ac \\ud83d\\ude00\""));
    assert!(parses("{\"\": {\"\": [[], {}, [{}]]}}"));
}

#[test]
fn texts_with_an_ordinary_error_are_fit_for_the_parser() {
    for text in [
        "",
        "   ",
        "not a document at all",
        "nul",
        "nulx",
        "tru e",
        "falsy",
        "{\"a\":1,}",
        "{\"a\":1 , \n }",
        "{,}",
        "[1,]",
        "[,1]",
        "[1 2]",
        "{\"a\" 1}",
        "{\"a\":}",
        "{a:1}",
        "{\"a\":1}}",
        "[1]]",
        "1 2",
        "01",
        "-",
        "-x",
        "1.",
        "1.x",
        "1e",
        "1e+",
        "1ex",
        "18446744073709551616",
        "-9223372036854775809",
        "\"abc",
        "\"a\\qb\"",
        "\"\\u12g4\"",
        "\"\\udc00\"",
        "\"\\ud800\"",
        "\"\\ud800x\"",
        "\"\\ud800\\n\"",
        "\"\\ud800\\u0041\"",
        "\"a\nb\"",
        "[\"a\": 1]",
        "{\"a\": 1 \"b\": 2}",
        "{\"a\": [1, 2}",
        "[{\"a\": 1]",
    ] {
        assert!(!parses(text), "{}", text);
    }
}

#[test]
fn what_follows_an_error_is_not_held_against_a_text() {
    let deep = "[".repeat(1000);
    let long_exponent = "1e99999999999999999999";
    for head in ["x", "1 ", "[1 2", "{\"a\" ", "18446744073709551616,", "\"\\q\"", "[tru ", "{}{", "[01"] {
        assert!(!parses(&format!("{}{}", head, deep)));
        assert!(!parses(&format!("{}{}", head, long_exponent)));
        assert!(!parses(&format!("{}[{{\"k\":{{\"b\":1,}},2", head)));
    }
    assert!(matches!(json(true, &format!("x{}", deep)), Err(ClientError::Json(_))));
}

#[test]
fn nesting_has_a_limit() {
    assert!(parses(&nested(64)));
    assert!(!admits(&nested(65)));
    assert!(!admits(&"[".repeat(100000)));
    assert!(!admits(&"{\"a\":".repeat(65)));
    assert!(parses(&format!("[{}1]", "[[]],".repeat(1000))));
    assert!(parses(&format!("[\"{}\"]", "[".repeat(200))));
    assert!(parses(&format!("{{\"a\": \"{}\"}}", "\\\"[{".repeat(200))));
    assert!(parses(&format!("{{\"{}\": 1}}", "[{".repeat(200))));
}

#[test]
fn keys_of_open_objects_have_a_limit_together() {
    assert!(parses(&format!("{{\"{}\": 1}}", "k".repeat(256))));
    assert!(parses(&format!("[\"{}\"]", "v".repeat(100000))));
    assert!(parses(&format!("{{\"a\": \"{}\"}}", "v".repeat(100000))));
    assert!(parses(&format!("{{\"{}\": 1}}", "k".repeat(65535))));
    assert!(!admits(&format!("{{\"{}\": 1}}", "k".repeat(65536))));
    assert!(parses(&format!("{{\"{}\": {{\"{}\": 1}}}}", "a".repeat(60000), "b".repeat(5535))));
    assert!(!admits(&format!("{{\"{}\": {{\"{}\": 1}}}}", "a".repeat(60000), "b".repeat(5536))));
    assert!(!admits(&format!("{{\"{}\": [[{{\"{}\": 1}}]]}}", "a".repeat(60000), "b".repeat(10000))));
    assert!(parses(&format!(
        "{{\"{}\": 1, \"{}\": 2, \"x\": {{\"{}\": 3}}}}",
        "a".repeat(60000),
        "b".repeat(60000),
        "c".repeat(60000)
    )));
    assert!(parses(&format!("[{{\"{}\": 1}}, {{\"{}\": 2}}]", "a".repeat(60000), "b".repeat(60000))));
    assert!(!parses(&format!("{{\"{}\" 1}}", "k".repeat(70000))));
    assert!(!parses(&format!("{{\"{}\"", "k".repeat(70000))));
}

#[test]
fn keys_are_counted_in_bytes() {
    assert!(parses(&format!("{{\"{}\": 1}}", "\u{20ac}".repeat(21845))));
    assert!(!admits(&format!("{{\"{}\": 1}}", "\u{20ac}".repeat(21846))));
    assert!(parses(&format!("{{\"{}\": 1}}", "\\u20ac".repeat(21845))));
    assert!(!admits(&format!("{{\"{}\": 1}}", "\\u20ac".repeat(21846))));
    assert!(parses(&format!("{{\"{}\": 1}}", "\\n".repeat(65535))));
    assert!(!admits(&format!("{{\"{}\": 1}}", "\\n".repeat(65536))));
    assert!(parses(&format!("{{\"{}k\": 1}}", "\u{e9}".repeat(32767))));
    assert!(!admits(&format!("{{\"{}kk\": 1}}", "\u{e9}".repeat(32767))));
    assert!(parses(&format!("{{\"{}kkk\": 1}}", "\\ud83d\\ude00".repeat(16383))));
    assert!(!admits(&format!("{{\"{}kkkk\": 1}}", "\u{1f600}".repeat(16383))));
}

#[test]
fn exponents_have_a_limit() {
    assert!(parses("1e0000000001"));
    assert!(parses("1e000000000000000000000000000000"));
    assert!(parses("[1E+000000009, 2e-1]"));
    assert!(parses("1e4294967295"));
    assert!(!admits("1e4294967296"));
    assert!(!admits("[1.5E-00042949672950]"));
    assert!(!admits("1e99999999999999999999"));
    assert!(parses("{\"e\": \"1e99999999999999999999\"}"));
    assert!(parses("{\"1e99999999999999999999\": 1}"));
}

#[test]
fn comma_before_the_brace_of_an_inner_object_is_refused() {
    assert!(!admits("[{\"k\":{\"b\":1,},2"));
    assert!(!admits("[{\"a\":{\"b\":1,},\"c\":3}]"));
    assert!(!admits("[{\"a\": 1, }]"));
    assert!(!admits("{\"a\": {\"b\": 1,\n\t }}"));
    assert!(!parses("{\"a\": 1, }"));
    assert!(parses("{\"a\": \",}\"}"));
    assert!(parses("[{\"a\": [1,2]}, {\"b\": 3}]"));
    assert!(!parses("[[1,]]"));
}

#[test]
fn every_text_that_is_let_through_is_parsed_or_refused_by_the_parser() {
    let alphabet: Vec<&str> = vec![
        "[", "]", "{", "}", ",", ":", "\"", "\\", " ", "\n", "0", "1", "9", "-", "+", ".", "e", "E", "a", "u",
        "n", "t", "f", "l", "r", "s", "\"k\":", "null", "true", "false", "\\u", "d83d", "de00", "00e9", "1e5",
        "[{\"a\":", ",}", "}]", "\"x\"",
    ];
    let mut seed: u64 = 0x2545_f491_4f6c_dd1d;
    let mut let_through = 0;
    for _ in 0..20000 {
        let mut text = String::new();
        seed = seed.wrapping_mul(6364136223846793005).wrapping_add(1442695040888963407);
        let parts = 1 + (seed >> 33) % 12;
        for _ in 0..parts {
            seed = seed.wrapping_mul(6364136223846793005).wrapping_add(1442695040888963407);
            text.push_str(alphabet[((seed >> 33) % alphabet.len() as u64) as usize]);
        }
        if admits(&text) {
            let_through += 1;
            let _ = Json::from_str(&text);
        }
    }
    assert!(let_through > 10000);
}

#[test]
fn unfit_answer_is_refused_before_it_is_parsed() {
    assert!(matches!(json(true, &nested(65)), Err(ClientError::Inadmissible)));
    assert!(matches!(json(true, "1e99999999999999999999"), Err(ClientError::Inadmissible)));
    assert!(matches!(json(true, "[{\"k\":{\"b\":1,},2"), Err(ClientError::Inadmissible)));
    assert!(matches!(
        json(true, &format!("{{\"{}\": {{\"{}\": 1}}}}", "a".repeat(60000), "b".repeat(10000))),
        Err(ClientError::Inadmissible)
    ));
    assert!(matches!(json(false, &nested(65)), Err(ClientError::UrlNotFound)));
}

#[test]
fn answers_that_the_parser_takes_are_read() {
    assert!(json(true, &nested(64)).is_ok());
    assert!(json(true, "1e0000000001").is_ok());
    assert!(json(true, &format!("[\"{}\"]", "v".repeat(256))).is_ok());
    assert!(json(true, &format!("  {{\"{}\": 1e123456789}}  ", "k".repeat(256))).is_ok());
    assert!(matches!(json(true, "{\"a\":1,}"), Err(ClientError::Json(_))));
}
