use pto::bridge::{notices, Action, Bridge, Event as Notice};
use pto::irc::protocol::{Command, Message};
use pto::matrix::client::{AccessToken, Client, ClientError};
use pto::matrix::events::{Event, EventData, MembershipAction, RoomEvent};
use pto::matrix::model::{EventID, RoomID, UserID};
use pto::text::{find_char, push_decimal, str_ends_with, substring, trim, white_space};
use pto::translate::{hostmask, names_reply, relayed, to_irc, to_matrix};

const BASE: &str = "https://home.org/_matrix/client/api/v1/";
const LOGIN_ANSWER: &str = "{\"access_token\": \"tok\", \"refresh_token\": \"ref\", \"home_server\": \"home.org\"}";

fn logged_in_client() -> Client {
    let mut client = Client::new(BASE);
    client.login("alice", true, LOGIN_ANSWER).unwrap();
    client
}

fn message(room: &str, text: &str) -> EventData {
    EventData::Room(
        RoomID::from_str(room).unwrap(),
        RoomEvent::Message(UserID::from_str("@alice:home.org").unwrap(), text.to_string()),
    )
}

#[test]
fn new_session_is_logged_out() {
    let client = Client::new(BASE);
    assert!(client.uid.is_none());
    assert!(client.uid().is_none());
    assert!(client.token().is_none());
    assert_eq!(client.baseurl(), BASE);
    assert_eq!(client.next_id(), 0);
}

#[test]
fn address_without_token_has_no_token() {
    let client = Client::new(BASE);
    assert_eq!(client.url("login", &vec![]), "https://home.org/_matrix/client/api/v1/login?");
}

#[test]
fn address_lists_its_arguments_in_order() {
    let client = Client::new("http://h/");
    let args = vec![("a".to_string(), "1".to_string()), ("b".to_string(), "two".to_string())];
    assert_eq!(client.url("x", &args), "http://h/x?a=1&b=two&");
}

#[test]
fn address_carries_the_token_before_the_arguments() {
    let client = logged_in_client();
    let args = vec![("limit".to_string(), "0".to_string())];
    assert_eq!(
        client.url("initialSync", &args),
        "https://home.org/_matrix/client/api/v1/initialSync?access_token=tok&limit=0&"
    );
}

#[test]
fn token_is_put_in_the_address_without_white_space_around_it() {
    let mut client = Client::new("http://h/");
    client
        .login("alice", true, "{\"access_token\": \" tok\\n\", \"refresh_token\": \"ref\"}")
        .unwrap();
    assert_eq!(client.url("x", &vec![]), "http://h/x?access_token=tok&");
}

#[test]
fn login_request_names_user_password_and_kind() {
    let client = Client::new(BASE);
    let request = client.login_request("alice", "secret");
    assert_eq!(request.url, "https://home.org/_matrix/client/api/v1/login?");
    assert_eq!(request.body, "{\"password\":\"secret\",\"type\":\"m.login.password\",\"user\":\"alice\"}");
}

#[test]
fn login_request_escapes_what_it_writes() {
    let client = Client::new(BASE);
    let request = client.login_request("al\"ice", "a\\b\nc");
    assert_eq!(
        request.body,
        "{\"password\":\"a\\\\b\\nc\",\"type\":\"m.login.password\",\"user\":\"al\\\"ice\"}"
    );
}

#[test]
fn login_sets_tokens_and_identity() {
    let client = logged_in_client();
    assert_eq!(client.uid, Some(UserID::from_str("@alice:home.org").unwrap()));
    let token: &AccessToken = client.token().as_ref().unwrap();
    assert_eq!(token.access(), "tok");
    assert_eq!(token.refresh(), "ref");
    let copy = token.clone();
    assert_eq!(copy.access(), "tok");
    assert_eq!(copy.refresh(), "ref");
}

#[test]
fn access_token_holds_what_it_was_given() {
    let token = AccessToken::new("a".to_string(), "r".to_string());
    assert_eq!(token.access(), "a");
    assert_eq!(token.refresh(), "r");
}

#[test]
fn login_takes_the_host_of_the_address() {
    let mut client = Client::new("  http://Matrix.Example:8008/api/ ");
    client.login("bob", true, LOGIN_ANSWER).unwrap();
    assert_eq!(client.uid, Some(UserID::from_str("@bob:matrix.example").unwrap()));
}

#[test]
fn failed_login_changes_nothing() {
    let mut client = Client::new(BASE);
    assert!(matches!(client.login("alice", false, LOGIN_ANSWER), Err(ClientError::UrlNotFound)));
    assert!(matches!(client.login("alice", true, "{"), Err(ClientError::Json(_))));
    assert!(matches!(
        client.login("alice", true, "{\"access_token\": \"tok\"}"),
        Err(ClientError::Incomplete)
    ));
    assert!(matches!(
        client.login("alice", true, "{\"refresh_token\": \"ref\"}"),
        Err(ClientError::Incomplete)
    ));
    assert!(matches!(
        client.login("alice", true, "{\"access_token\": 1, \"refresh_token\": \"ref\"}"),
        Err(ClientError::Incomplete)
    ));
    assert!(client.uid.is_none());
    assert!(client.token().is_none());
}

#[test]
fn login_needs_an_address_with_a_host() {
    let mut client = Client::new("mailto:alice@home.org");
    assert!(matches!(client.login("alice", true, LOGIN_ANSWER), Err(ClientError::UrlNotFound)));
    let mut client = Client::new("not an address");
    assert!(matches!(client.login("alice", true, LOGIN_ANSWER), Err(ClientError::UrlNotFound)));
    assert!(client.uid.is_none());
    assert!(client.token().is_none());
}

#[test]
fn chat_is_sent_to_its_room_under_the_next_number() {
    let mut client = logged_in_client();
    let first = client.send_request(&message("!r:home.org", "hello"));
    assert_eq!(
        first.url,
        "https://home.org/_matrix/client/api/v1/rooms/!r:home.org/send/m.room.message/1?access_token=tok&"
    );
    assert_eq!(first.body, "{\"body\":\"hello\",\"msgtype\":\"m.text\"}");
    let second = client.send_request(&message("!other:far.org", "again"));
    assert_eq!(
        second.url,
        "https://home.org/_matrix/client/api/v1/rooms/!other:far.org/send/m.room.message/2?access_token=tok&"
    );
    assert_eq!(client.next_id(), 2);
}

#[test]
fn request_numbers_are_written_in_decimal() {
    let mut client = Client::new("http://h/");
    let mut last = String::new();
    for _ in 0..120 {
        last = client.send_request(&message("!r:h", "x")).url;
    }
    assert_eq!(last, "http://h/rooms/!r:h/send/m.room.message/120?");
}

#[test]
fn decimal_digits_are_written_without_leading_zeros() {
    for (n, text) in [(0u32, "0"), (7, "7"), (10, "10"), (99, "99"), (100, "100"), (4294967295, "4294967295")] {
        let mut s = "n=".to_string();
        push_decimal(&mut s, n);
        assert_eq!(s, format!("n={}", text));
    }
}

#[test]
fn every_event_of_a_room_can_be_sent() {
    let mut client = logged_in_client();
    let room = RoomID::from_str("!r:home.org").unwrap();
    let alice = UserID::from_str("@alice:home.org").unwrap();
    let cases: Vec<(RoomEvent, &str, &str)> = vec![
        (RoomEvent::Topic(alice.clone(), "t".to_string()), "m.room.topic", "{\"topic\":\"t\"}"),
        (RoomEvent::Name(alice.clone(), "n".to_string()), "m.room.name", "{\"name\":\"n\"}"),
        (RoomEvent::Avatar(alice.clone(), "mxc://h/x".to_string()), "m.room.avatar", "{\"url\":\"mxc://h/x\"}"),
        (
            RoomEvent::Membership(alice.clone(), MembershipAction::Invite),
            "m.room.member",
            "{\"membership\":\"invite\"}",
        ),
        (RoomEvent::CanonicalAlias("#a:h".to_string()), "m.room.canonical_alias", "{\"alias\":\"#a:h\"}"),
        (RoomEvent::JoinRules("public".to_string()), "m.room.join_rules", "{\"join_rule\":\"public\"}"),
        (
            RoomEvent::HistoryVisibility("shared".to_string()),
            "m.room.history_visibility",
            "{\"history_visibility\":\"shared\"}",
        ),
        (
            RoomEvent::Aliases(vec!["#a:h".to_string(), "#b:h".to_string()]),
            "m.room.aliases",
            "{\"aliases\":[\"#a:h\",\"#b:h\"]}",
        ),
        (RoomEvent::Aliases(vec![]), "m.room.aliases", "{\"aliases\":[]}"),
        (RoomEvent::Create, "m.room.create", "{}"),
        (RoomEvent::PowerLevels, "m.room.power_levels", "{}"),
        (RoomEvent::Unknown("m.room.future".to_string()), "m.room.future", "{}"),
        (RoomEvent::Message(alice, "hi".to_string()), "m.room.message", "{\"body\":\"hi\",\"msgtype\":\"m.text\"}"),
    ];
    let mut number = 0;
    for (evt, kind, body) in cases {
        number += 1;
        let request = client.send_request(&EventData::Room(room.clone(), evt));
        assert_eq!(
            request.url,
            format!(
                "https://home.org/_matrix/client/api/v1/rooms/!r:home.org/send/{}/{}?access_token=tok&",
                kind, number
            )
        );
        assert_eq!(request.body, body);
        assert_eq!(client.next_id(), number);
    }
}

#[test]
fn content_is_written_as_it_is_read() {
    let alice = UserID::from_str("@alice:home.org").unwrap();
    assert_eq!(RoomEvent::Topic(alice.clone(), "a \"b\"".to_string()).to_json(), "{\"topic\":\"a \\\"b\\\"\"}");
    assert_eq!(RoomEvent::Membership(alice.clone(), MembershipAction::Join).to_json(), "{\"membership\":\"join\"}");
    assert_eq!(RoomEvent::Membership(alice.clone(), MembershipAction::Leave).to_json(), "{\"membership\":\"leave\"}");
    assert_eq!(RoomEvent::Membership(alice, MembershipAction::Ban).to_json(), "{\"membership\":\"ban\"}");
    for action in [MembershipAction::Join, MembershipAction::Leave, MembershipAction::Ban, MembershipAction::Invite] {
        assert_eq!(MembershipAction::from_str(&action.word()), Some(action));
    }
}

#[test]
fn answer_to_send_gives_the_event_identifier() {
    let client = logged_in_client();
    assert_eq!(
        client.send(true, "{\"event_id\": \"$abc:home.org\"}").unwrap(),
        EventID::from_str("$abc:home.org").unwrap()
    );
}

#[test]
fn answer_to_send_without_identifier_is_incomplete() {
    let client = logged_in_client();
    assert!(matches!(client.send(true, "{}"), Err(ClientError::Incomplete)));
    assert!(matches!(client.send(true, "{\"event_id\": \"abc\"}"), Err(ClientError::Incomplete)));
    assert!(matches!(client.send(true, "{\"event_id\": 3}"), Err(ClientError::Incomplete)));
    assert!(matches!(client.send(false, "{\"event_id\": \"$abc:home.org\"}"), Err(ClientError::UrlNotFound)));
    assert!(matches!(client.send(true, "<html>"), Err(ClientError::Json(_))));
}

#[test]
fn synchronisation_is_asked_for_without_history() {
    let client = logged_in_client();
    assert_eq!(
        client.sync_request(),
        "https://home.org/_matrix/client/api/v1/initialSync?access_token=tok&limit=0&"
    );
}

#[test]
fn synchronisation_lists_state_room_by_room_and_ends_with_the_marker() {
    let client = logged_in_client();
    let events = client
        .sync(
            true,
            "{\"rooms\": [\
               {\"room_id\": \"!a:home.org\", \"state\": [\
                 {\"type\": \"m.room.create\", \"room_id\": \"!a:home.org\", \"event_id\": \"$1:home.org\"},\
                 {\"type\": \"m.room.aliases\", \"room_id\": \"!a:home.org\", \"content\": {\"aliases\": [\"#a:home.org\"]}}]},\
               {\"room_id\": \"!b:home.org\"},\
               {\"room_id\": \"!c:home.org\", \"state\": [\
                 {\"type\": \"m.room.member\", \"room_id\": \"!c:home.org\", \"state_key\": \"@bob:home.org\", \
                  \"content\": {\"membership\": \"join\"}}]}]}",
        )
        .unwrap();
    assert_eq!(events.len(), 4);
    assert!(matches!(&events[0].data, EventData::Room(room, RoomEvent::Create) if room.id == "a"));
    assert_eq!(events[0].id, Some(EventID::from_str("$1:home.org").unwrap()));
    assert!(matches!(&events[1].data, EventData::Room(room, RoomEvent::Aliases(_)) if room.id == "a"));
    assert!(matches!(
        &events[2].data,
        EventData::Room(room, RoomEvent::Membership(_, MembershipAction::Join)) if room.id == "c"
    ));
    assert!(matches!(events[3].data, EventData::EndOfSync));
    assert_eq!(events[3].id, None);
}

#[test]
fn empty_synchronisation_is_just_the_marker() {
    let client = logged_in_client();
    for body in ["{}", "{\"rooms\": []}", "{\"rooms\": 3}", "[]"] {
        let events = client.sync(true, body).unwrap();
        assert_eq!(events.len(), 1);
        assert!(matches!(events[0].data, EventData::EndOfSync));
    }
}

#[test]
fn failed_synchronisation_is_an_error() {
    let client = logged_in_client();
    assert!(matches!(client.sync(false, "{}"), Err(ClientError::UrlNotFound)));
    assert!(matches!(client.sync(true, "{\"rooms\""), Err(ClientError::Json(_))));
}

#[test]
fn poll_goes_to_the_event_stream() {
    let client = logged_in_client();
    assert_eq!(client.poll_async().url, "https://home.org/_matrix/client/api/v1/events?access_token=tok&");
}

#[test]
fn poll_lists_the_events_of_its_chunk() {
    let client = logged_in_client();
    let events = client
        .poll_async()
        .send(
            true,
            "{\"start\": \"s1\", \"end\": \"s2\", \"chunk\": [\
               {\"type\": \"m.typing\", \"room_id\": \"!a:home.org\"},\
               {\"type\": \"m.room.message\", \"room_id\": \"!a:home.org\", \"user_id\": \"@bob:home.org\", \
                \"event_id\": \"$9:home.org\", \"content\": {\"body\": \"hi\"}}]}",
        )
        .unwrap();
    assert_eq!(events.len(), 2);
    assert!(matches!(events[0].data, EventData::Typing));
    assert!(matches!(&events[1].data, EventData::Room(_, RoomEvent::Message(_, text)) if text == "hi"));
    assert!(client.poll_async().send(true, "{}").unwrap().is_empty());
    assert!(matches!(client.poll_async().send(false, "{}"), Err(ClientError::UrlNotFound)));
    assert!(matches!(client.poll_async().send(true, "nothing"), Err(ClientError::Json(_))));
}

#[test]
fn batch_is_handled_in_the_order_of_delivery() {
    let mut bridge = Bridge::new(BASE);
    bridge.matrix_mut().login("me", true, LOGIN_ANSWER).unwrap();
    let room = RoomID::from_str("!a:home.org").unwrap();
    let bob = UserID::from_str("@bob:far.org").unwrap();
    let batch = vec![
        Event { id: None, data: EventData::Room(room.clone(), RoomEvent::Aliases(vec!["#a:home.org".to_string()])) },
        Event {
            id: Some(EventID::from_str("$1:home.org").unwrap()),
            data: EventData::Room(room.clone(), RoomEvent::Message(bob.clone(), "one".to_string())),
        },
        Event { id: None, data: EventData::EndOfSync },
        Event {
            id: Some(EventID::from_str("$1:home.org").unwrap()),
            data: EventData::Room(room.clone(), RoomEvent::Message(bob.clone(), "one".to_string())),
        },
        Event {
            id: Some(EventID::from_str("$2:home.org").unwrap()),
            data: EventData::Room(room.clone(), RoomEvent::Message(bob.clone(), "two".to_string())),
        },
    ];
    let out = bridge.start_matrix(batch);
    let lines: Vec<(Command, Option<String>)> = out.iter().map(|m| (m.command, m.suffix.clone())).collect();
    assert_eq!(
        lines,
        vec![
            (Command::Join, None),
            (Command::Numeric(353), Some("".to_string())),
            (Command::Privmsg, Some("one".to_string())),
            (Command::Privmsg, Some("two".to_string())),
        ]
    );
    assert_eq!(bridge.seen_events().len(), 2);
    assert!(bridge.start_matrix(vec![]).is_empty());
}

#[test]
fn end_of_a_round_asks_for_the_next() {
    let mut bridge = Bridge::new(BASE);
    assert!(matches!(bridge.notify(Notice::EndPoll), Action::Poll));
    assert!(bridge.rooms().is_empty());
}

#[test]
fn polled_event_is_handled_and_delivered() {
    let mut bridge = Bridge::new(BASE);
    bridge.matrix_mut().login("me", true, LOGIN_ANSWER).unwrap();
    bridge.handle_matrix(Event { id: None, data: EventData::EndOfSync });
    let room = RoomID::from_str("!a:home.org").unwrap();
    bridge.notify(Notice::Matrix(Event { id: None, data: EventData::Room(room.clone(), RoomEvent::Create) }));
    bridge.notify(Notice::Matrix(Event { id: None, data: EventData::EndOfSync }));
    let alice = UserID::from_str("@alice:home.org").unwrap();
    match bridge.notify(Notice::Matrix(Event {
        id: Some(EventID::from_str("$1:home.org").unwrap()),
        data: EventData::Room(room, RoomEvent::Message(alice, "hi".to_string())),
    })) {
        Action::Deliver(messages) => {
            assert_eq!(
                messages,
                vec![Message {
                    prefix: Some("alice!alice@home.org".to_string()),
                    command: Command::Privmsg,
                    args: vec!["#a:home.org".to_string()],
                    suffix: Some("hi".to_string()),
                }]
            );
        }
        other => panic!("{:?}", other),
    }
    assert_eq!(bridge.seen_events().len(), 1);
}

#[test]
fn sender_prefix_repeats_the_nickname() {
    assert_eq!(hostmask(&UserID::from_str("@U:h.example").unwrap()), "U!U@h.example");
}

#[test]
fn translation_towards_the_channel() {
    let alice = UserID::from_str("@alice:home.org").unwrap();
    let channel = "#x:h".to_string();
    assert_eq!(
        to_irc(&channel, RoomEvent::Message(alice.clone(), "hi".to_string())),
        Some(relayed(&alice, Command::Privmsg, &channel, Some("hi".to_string())))
    );
    assert_eq!(
        to_irc(&channel, RoomEvent::Topic(alice.clone(), "t".to_string())),
        Some(relayed(&alice, Command::Topic, &channel, Some("t".to_string())))
    );
    assert_eq!(to_irc(&channel, RoomEvent::Create), None);
    assert_eq!(to_irc(&channel, RoomEvent::Membership(alice.clone(), MembershipAction::Join)), None);
    assert_eq!(to_irc(&channel, RoomEvent::Name(alice, "n".to_string())), None);
}

#[test]
fn translation_towards_the_room_service() {
    let room = RoomID::from_str("!r:home.org").unwrap();
    let alice = UserID::from_str("@alice:home.org").unwrap();
    match to_matrix(room.clone(), alice.clone(), "hi".to_string()) {
        EventData::Room(r, RoomEvent::Message(u, t)) => {
            assert_eq!(r, room);
            assert_eq!(u, alice);
            assert_eq!(t, "hi");
        }
        other => panic!("{:?}", other),
    }
}

#[test]
fn roster_reply_is_numeric_353() {
    let me = UserID::from_str("@me:home.org").unwrap();
    let members = vec![UserID::from_str("@a:x").unwrap(), UserID::from_str("@b:y").unwrap()];
    let reply = names_reply(&me, &"#x:h".to_string(), &members);
    assert_eq!(reply.prefix, Some("pto".to_string()));
    assert_eq!(reply.command, Command::Numeric(353));
    assert_eq!(reply.args, vec!["me".to_string(), "@".to_string(), "#x:h".to_string()]);
    assert_eq!(reply.suffix, Some("a b".to_string()));
}

#[test]
fn first_occurrence_of_a_character_is_found() {
    assert_eq!(find_char("a:b:c", ':'), 1);
    assert_eq!(find_char(":", ':'), 0);
    assert_eq!(find_char("abc", ':'), 3);
    assert_eq!(find_char("", ':'), 0);
    assert_eq!(find_char("äö:ü", ':'), 2);
}

#[test]
fn substring_counts_characters() {
    assert_eq!(substring("hello", 1, 3), "el");
    assert_eq!(substring("äöü", 1, 3), "öü");
    assert_eq!(substring("abc", 3, 3), "");
    assert_eq!(substring("abc", 0, 3), "abc");
}

#[test]
fn credentials_lose_the_white_space_around_them() {
    let mut bridge = Bridge::new(BASE);
    bridge.handle_client(Message { prefix: None, command: Command::Pass, args: vec![" secret ".to_string()], suffix: None });
    match bridge.handle_client(Message { prefix: None, command: Command::User, args: vec!["\talice\r\n".to_string()], suffix: None }) {
        Action::Login { username, password } => {
            assert_eq!(username, "alice");
            assert_eq!(password, "secret");
        }
        other => panic!("{:?}", other),
    }
}

#[test]
fn poll_hands_over_each_event_and_then_the_end() {
    let room = RoomID::from_str("!a:home.org").unwrap();
    let handed = notices(vec![
        Event { id: None, data: EventData::Room(room.clone(), RoomEvent::Create) },
        Event { id: Some(EventID::from_str("$1:home.org").unwrap()), data: EventData::Typing },
    ]);
    assert_eq!(handed.len(), 3);
    assert!(matches!(&handed[0], Notice::Matrix(Event { id: None, data: EventData::Room(_, RoomEvent::Create) })));
    assert!(matches!(&handed[1], Notice::Matrix(Event { id: Some(_), data: EventData::Typing })));
    assert!(matches!(&handed[2], Notice::EndPoll));
    let empty = notices(vec![]);
    assert_eq!(empty.len(), 1);
    assert!(matches!(&empty[0], Notice::EndPoll));
}

#[test]
fn failed_login_ends_the_session_with_a_word() {
    let bridge = Bridge::new(BASE);
    match bridge.login_failed() {
        Action::Abort(message) => assert_eq!(
            message,
            Message {
                prefix: Some("pto".to_string()),
                command: Command::Error,
                args: vec![],
                suffix: Some("Could not login!".to_string()),
            }
        ),
        other => panic!("{:?}", other),
    }
    assert!(bridge.matrix().uid.is_none());
}

#[test]
fn suffix_is_compared_by_character() {
    assert!(str_ends_with("#a:home.org", ":home.org"));
    assert!(str_ends_with("abc", ""));
    assert!(str_ends_with("abc", "abc"));
    assert!(!str_ends_with("abc", "xabc"));
    assert!(!str_ends_with("#a:home.org", ":home.or"));
    assert!(str_ends_with("zoë:münchen", ":münchen"));
    assert!(!str_ends_with("", "a"));
}

#[test]
fn white_space_is_what_the_standard_library_takes_for_it() {
    for v in 0..=0x10FFFFu32 {
        if let Some(c) = char::from_u32(v) {
            assert_eq!(white_space(c), c.is_whitespace(), "U+{:04X}", v);
        }
    }
}

#[test]
fn white_space_is_taken_off_at_both_ends_only() {
    for text in [
        "",
        " ",
        "\t\n\u{b}\u{c}\r \u{85}\u{a0}\u{1680}\u{2000}\u{200a}\u{2028}\u{2029}\u{202f}\u{205f}\u{3000}",
        "a",
        " a",
        "a ",
        "  a b  c \n",
        "\u{a0}x\u{3000}y\u{2003}",
        "\u{200b}a\u{200b}",
        "\u{180e}a\u{feff}",
        "\r\n{\"a\": \" b \"}\r\n",
    ] {
        assert_eq!(trim(text), text.trim(), "{:?}", text);
    }
    assert_eq!(trim("  a b  "), "a b");
    assert_eq!(trim(" \u{3000} "), "");
}
