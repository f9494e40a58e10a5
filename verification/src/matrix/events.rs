//! Events of the room service.
//!
//! An event carries an optional identifier and a payload. The payload is
//! either scoped to a room, a typing notice, the marker that ends the initial
//! synchronisation, or of a kind the gateway does not know.

use vstd::prelude::*;
use vstd::string::StringExecFns;
use rustc_serialize::json::Json;
use crate::matrix::json::{
    array, as_string, find, spec_array, spec_as_string, spec_find, spec_string, spec_write_object,
    string, write_object,
};
use crate::matrix::model::{parse_id, EventID, IdView, RoomID, UserID};
use crate::text::clone_string_vec;

verus! {

/// What a membership event does to a user's place in a room.
#[derive(Debug, Clone, Copy, PartialEq, Eq, Structural)]
pub enum MembershipAction {
    Join,
    Leave,
    Ban,
    Invite,
}

/// An event within one room, as character sequences.
pub enum RoomEventView {
    CanonicalAlias(Seq<char>),
    JoinRules(Seq<char>),
    Membership(IdView, MembershipAction),
    PowerLevels,
    Name(IdView, Seq<char>),
    Avatar(IdView, Seq<char>),
    Topic(IdView, Seq<char>),
    Create,
    Aliases(Seq<Seq<char>>),
    Message(IdView, Seq<char>),
    HistoryVisibility(Seq<char>),
    Unknown(Seq<char>),
}

/// An event within one room.
#[derive(Debug)]
pub enum RoomEvent {
    /// The room's canonical alias was set.
    CanonicalAlias(String),
    /// The room's join rules were set.
    JoinRules(String),
    /// A user joined, left, was banned or was invited.
    Membership(UserID, MembershipAction),
    PowerLevels,
    /// A user named the room.
    Name(UserID, String),
    /// A user gave the room an avatar, by its address.
    Avatar(UserID, String),
    /// A user set the room's topic.
    Topic(UserID, String),
    Create,
    /// The list of the room's aliases was replaced.
    Aliases(Vec<String>),
    /// A user said something.
    Message(UserID, String),
    HistoryVisibility(String),
    /// An event of a kind the gateway does not know, by the name of its kind.
    Unknown(String),
}

impl View for RoomEvent {
    type V = RoomEventView;

    open spec fn view(&self) -> RoomEventView {
        match self {
            RoomEvent::CanonicalAlias(name) => RoomEventView::CanonicalAlias(name@),
            RoomEvent::JoinRules(rules) => RoomEventView::JoinRules(rules@),
            RoomEvent::Membership(user, action) => RoomEventView::Membership(user@, *action),
            RoomEvent::PowerLevels => RoomEventView::PowerLevels,
            RoomEvent::Name(user, name) => RoomEventView::Name(user@, name@),
            RoomEvent::Avatar(user, url) => RoomEventView::Avatar(user@, url@),
            RoomEvent::Topic(user, topic) => RoomEventView::Topic(user@, topic@),
            RoomEvent::Create => RoomEventView::Create,
            RoomEvent::Aliases(aliases) => RoomEventView::Aliases(aliases.deep_view()),
            RoomEvent::Message(user, text) => RoomEventView::Message(user@, text@),
            RoomEvent::HistoryVisibility(v) => RoomEventView::HistoryVisibility(v@),
            RoomEvent::Unknown(kind) => RoomEventView::Unknown(kind@),
        }
    }
}

impl Clone for RoomEvent {
    fn clone(&self) -> (r: Self)
        ensures
            r@ == self@,
    {
        match self {
            RoomEvent::CanonicalAlias(name) => RoomEvent::CanonicalAlias(name.clone()),
            RoomEvent::JoinRules(rules) => RoomEvent::JoinRules(rules.clone()),
            RoomEvent::Membership(user, action) => RoomEvent::Membership(user.clone(), *action),
            RoomEvent::PowerLevels => RoomEvent::PowerLevels,
            RoomEvent::Name(user, name) => RoomEvent::Name(user.clone(), name.clone()),
            RoomEvent::Avatar(user, url) => RoomEvent::Avatar(user.clone(), url.clone()),
            RoomEvent::Topic(user, topic) => RoomEvent::Topic(user.clone(), topic.clone()),
            RoomEvent::Create => RoomEvent::Create,
            RoomEvent::Aliases(aliases) => RoomEvent::Aliases(clone_string_vec(aliases)),
            RoomEvent::Message(user, text) => RoomEvent::Message(user.clone(), text.clone()),
            RoomEvent::HistoryVisibility(v) => RoomEvent::HistoryVisibility(v.clone()),
            RoomEvent::Unknown(kind) => RoomEvent::Unknown(kind.clone()),
        }
    }
}

impl DeepView for RoomEvent {
    type V = RoomEventView;

    open spec fn deep_view(&self) -> RoomEventView {
        self@
    }
}

/// The payload of an event, as character sequences.
pub enum EventDataView {
    Room(IdView, RoomEventView),
    Typing,
    EndOfSync,
    Unknown(Seq<char>),
}

/// The payload of an event.
#[derive(Debug)]
pub enum EventData {
    /// An event within the room named.
    Room(RoomID, RoomEvent),
    /// Somebody started or stopped typing.
    Typing,
    /// Everything the initial synchronisation had to deliver has been delivered.
    EndOfSync,
    /// A payload of a kind the gateway does not know, by the name of its kind.
    Unknown(String),
}

impl View for EventData {
    type V = EventDataView;

    open spec fn view(&self) -> EventDataView {
        match self {
            EventData::Room(room, evt) => EventDataView::Room(room@, evt@),
            EventData::Typing => EventDataView::Typing,
            EventData::EndOfSync => EventDataView::EndOfSync,
            EventData::Unknown(kind) => EventDataView::Unknown(kind@),
        }
    }
}

impl Clone for EventData {
    fn clone(&self) -> (r: Self)
        ensures
            r@ == self@,
    {
        match self {
            EventData::Room(room, evt) => EventData::Room(room.clone(), evt.clone()),
            EventData::Typing => EventData::Typing,
            EventData::EndOfSync => EventData::EndOfSync,
            EventData::Unknown(kind) => EventData::Unknown(kind.clone()),
        }
    }
}

/// An event, as character sequences.
pub struct EventView {
    pub id: Option<IdView>,
    pub data: EventDataView,
}

/// One event as the room service delivers it.
#[derive(Debug)]
pub struct Event {
    pub id: Option<EventID>,
    pub data: EventData,
}

impl View for Event {
    type V = EventView;

    open spec fn view(&self) -> EventView {
        EventView { id: self.id.deep_view(), data: self.data@ }
    }
}

impl Clone for Event {
    fn clone(&self) -> (r: Self)
        ensures
            r@ == self@,
    {
        Event {
            id: match &self.id {
                Some(id) => Some(id.clone()),
                None => None,
            },
            data: self.data.clone(),
        }
    }
}

impl DeepView for Event {
    type V = EventView;

    open spec fn deep_view(&self) -> EventView {
        self@
    }
}

/// The name that the room service has for the kind of `evt`.
pub open spec fn spec_type_str(evt: RoomEventView) -> Seq<char> {
    match evt {
        RoomEventView::CanonicalAlias(_) => "m.room.canonical_alias"@,
        RoomEventView::JoinRules(_) => "m.room.join_rules"@,
        RoomEventView::Membership(_, _) => "m.room.member"@,
        RoomEventView::PowerLevels => "m.room.power_levels"@,
        RoomEventView::Name(_, _) => "m.room.name"@,
        RoomEventView::Avatar(_, _) => "m.room.avatar"@,
        RoomEventView::Topic(_, _) => "m.room.topic"@,
        RoomEventView::Create => "m.room.create"@,
        RoomEventView::Aliases(_) => "m.room.aliases"@,
        RoomEventView::Message(_, _) => "m.room.message"@,
        RoomEventView::HistoryVisibility(_) => "m.room.history_visibility"@,
        RoomEventView::Unknown(kind) => kind,
    }
}

impl RoomEvent {
    /// The name that the room service has for the kind of the event.
    pub fn type_str(&self) -> (r: String)
        ensures
            r@ == spec_type_str(self@),
    {
        match self {
            RoomEvent::CanonicalAlias(_) => String::from_str("m.room.canonical_alias"),
            RoomEvent::JoinRules(_) => String::from_str("m.room.join_rules"),
            RoomEvent::Membership(_, _) => String::from_str("m.room.member"),
            RoomEvent::PowerLevels => String::from_str("m.room.power_levels"),
            RoomEvent::Name(_, _) => String::from_str("m.room.name"),
            RoomEvent::Avatar(_, _) => String::from_str("m.room.avatar"),
            RoomEvent::Topic(_, _) => String::from_str("m.room.topic"),
            RoomEvent::Create => String::from_str("m.room.create"),
            RoomEvent::Aliases(_) => String::from_str("m.room.aliases"),
            RoomEvent::Message(_, _) => String::from_str("m.room.message"),
            RoomEvent::HistoryVisibility(_) => String::from_str("m.room.history_visibility"),
            RoomEvent::Unknown(kind) => kind.clone(),
        }
    }
}

/// The word that the room service has for what a membership event does.
pub open spec fn spec_action_word(action: MembershipAction) -> Seq<char> {
    match action {
        MembershipAction::Join => "join"@,
        MembershipAction::Leave => "leave"@,
        MembershipAction::Ban => "ban"@,
        MembershipAction::Invite => "invite"@,
    }
}

/// The members of the content of `evt` that are strings, each a key and a
/// value: what a reader of the content needs to make out the event again,
/// but for who caused it.
pub open spec fn spec_content_strings(evt: RoomEventView) -> Seq<(Seq<char>, Seq<char>)> {
    match evt {
        RoomEventView::CanonicalAlias(alias) => seq![("alias"@, alias)],
        RoomEventView::JoinRules(rule) => seq![("join_rule"@, rule)],
        RoomEventView::Membership(_, action) => seq![("membership"@, spec_action_word(action))],
        RoomEventView::Name(_, name) => seq![("name"@, name)],
        RoomEventView::Avatar(_, url) => seq![("url"@, url)],
        RoomEventView::Topic(_, topic) => seq![("topic"@, topic)],
        RoomEventView::Message(_, text) => seq![("msgtype"@, "m.text"@), ("body"@, text)],
        RoomEventView::HistoryVisibility(visibility) => seq![
            ("history_visibility"@, visibility),
        ],
        RoomEventView::PowerLevels
        | RoomEventView::Create
        | RoomEventView::Aliases(_)
        | RoomEventView::Unknown(_) => Seq::empty(),
    }
}

/// The members of the content of `evt` that are lists of strings.
pub open spec fn spec_content_lists(evt: RoomEventView) -> Seq<(Seq<char>, Seq<Seq<char>>)> {
    match evt {
        RoomEventView::Aliases(aliases) => seq![("aliases"@, aliases)],
        _ => Seq::empty(),
    }
}

/// The content of `evt`, written out as the body of a request.
pub open spec fn spec_to_json(evt: RoomEventView) -> Seq<char> {
    spec_write_object(spec_content_strings(evt), spec_content_lists(evt))
}

impl MembershipAction {
    /// The word that the room service has for the action.
    pub fn word(&self) -> (r: String)
        ensures
            r@ == spec_action_word(*self),
    {
        match self {
            MembershipAction::Join => String::from_str("join"),
            MembershipAction::Leave => String::from_str("leave"),
            MembershipAction::Ban => String::from_str("ban"),
            MembershipAction::Invite => String::from_str("invite"),
        }
    }
}

/// One member that is a string.
fn member(key: &str, value: String) -> (r: Vec<(String, String)>)
    ensures
        r.deep_view() == seq![(key@, value@)],
{
    let mut r: Vec<(String, String)> = Vec::new();
    r.push((String::from_str(key), value));
    assert(r.deep_view() =~= seq![(key@, value@)]);
    r
}

impl RoomEvent {
    /// The content of the event, written out as the body of a request.
    pub fn to_json(&self) -> (r: String)
        ensures
            r@ == spec_to_json(self@),
    {
        let mut lists: Vec<(String, Vec<String>)> = Vec::new();
        assert(lists.deep_view() =~= Seq::empty());
        let strings: Vec<(String, String)> = match self {
            RoomEvent::CanonicalAlias(alias) => member("alias", alias.clone()),
            RoomEvent::JoinRules(rule) => member("join_rule", rule.clone()),
            RoomEvent::Membership(_, action) => member("membership", action.word()),
            RoomEvent::Name(_, name) => member("name", name.clone()),
            RoomEvent::Avatar(_, url) => member("url", url.clone()),
            RoomEvent::Topic(_, topic) => member("topic", topic.clone()),
            RoomEvent::Message(_, text) => {
                let mut r = member("msgtype", String::from_str("m.text"));
                let ghost first = r.deep_view();
                r.push((String::from_str("body"), text.clone()));
                assert(r.deep_view() =~= first.push(("body"@, text@)));
                r
            },
            RoomEvent::HistoryVisibility(visibility) => member(
                "history_visibility",
                visibility.clone(),
            ),
            RoomEvent::Aliases(aliases) => {
                lists.push((String::from_str("aliases"), clone_string_vec(aliases)));
                assert(lists.deep_view() =~= seq![("aliases"@, aliases.deep_view())]);
                let none: Vec<(String, String)> = Vec::new();
                assert(none.deep_view() =~= Seq::empty());
                none
            },
            RoomEvent::PowerLevels | RoomEvent::Create | RoomEvent::Unknown(_) => {
                let none: Vec<(String, String)> = Vec::new();
                assert(none.deep_view() =~= Seq::empty());
                none
            },
        };
        assert(strings.deep_view() =~= spec_content_strings(self@));
        assert(lists.deep_view() =~= spec_content_lists(self@));
        write_object(&strings, &lists)
    }
}

/// Whether `text` is the literal `word`.
fn is_word(text: &String, word: &str) -> (r: bool)
    ensures
        r == (text@ == word@),
{
    *text == String::from_str(word)
}

/// What a membership event does, by the word the room service has for it.
pub open spec fn spec_action(word: Seq<char>) -> Option<MembershipAction> {
    if word == "join"@ {
        Some(MembershipAction::Join)
    } else if word == "leave"@ {
        Some(MembershipAction::Leave)
    } else if word == "ban"@ {
        Some(MembershipAction::Ban)
    } else if word == "invite"@ {
        Some(MembershipAction::Invite)
    } else {
        None
    }
}

impl MembershipAction {
    /// Reads `join`, `leave`, `ban` or `invite`.
    pub fn from_str(word: &String) -> (r: Option<MembershipAction>)
        ensures
            r == spec_action(word@),
    {
        if is_word(word, "join") {
            Some(MembershipAction::Join)
        } else if is_word(word, "leave") {
            Some(MembershipAction::Leave)
        } else if is_word(word, "ban") {
            Some(MembershipAction::Ban)
        } else if is_word(word, "invite") {
            Some(MembershipAction::Invite)
        } else {
            None
        }
    }
}

/// The texts of those of `items` that are strings, in order.
pub open spec fn spec_strings(items: Seq<Json>) -> Seq<Seq<char>>
    decreases items.len(),
{
    if items.len() == 0 {
        Seq::empty()
    } else {
        let earlier = spec_strings(items.drop_last());
        match spec_as_string(items.last()) {
            Some(text) => earlier.push(text),
            None => earlier,
        }
    }
}

/// The text of the member `key` of the member `content` of `json`.
pub open spec fn spec_content(json: Json, key: Seq<char>) -> Option<Seq<char>> {
    match spec_find(json, "content"@) {
        Some(content) => spec_string(content, key),
        None => None,
    }
}

/// The user that the member `key` of `json` names.
pub open spec fn spec_user(json: Json, key: Seq<char>) -> Option<IdView> {
    match spec_string(json, key) {
        Some(text) => parse_id(text, '@'),
        None => None,
    }
}

/// Who caused the event `json`: the user named by its member `user_id`, or
/// else by its member `sender`.
pub open spec fn spec_sender(json: Json) -> Option<IdView> {
    match spec_user(json, "user_id"@) {
        Some(user) => Some(user),
        None => spec_user(json, "sender"@),
    }
}

/// An event of `kind` that has a user and a text, both of which must be
/// there.
pub open spec fn spec_said(
    kind: Seq<char>,
    user: Option<IdView>,
    text: Option<Seq<char>>,
    make: spec_fn(IdView, Seq<char>) -> RoomEventView,
) -> RoomEventView {
    if user is Some && text is Some {
        make(user->0, text->0)
    } else {
        RoomEventView::Unknown(kind)
    }
}

/// An event of `kind` that has a text, which must be there.
pub open spec fn spec_set(
    kind: Seq<char>,
    text: Option<Seq<char>>,
    make: spec_fn(Seq<char>) -> RoomEventView,
) -> RoomEventView {
    match text {
        Some(text) => make(text),
        None => RoomEventView::Unknown(kind),
    }
}

/// The event of kind `kind` that the document `json` describes. An event
/// that lacks a part that its kind needs, and one of a kind that the
/// gateway has no name for, is unknown.
pub open spec fn spec_room_event(kind: Seq<char>, json: Json) -> RoomEventView {
    if kind == "m.room.message"@ {
        spec_said(
            kind,
            spec_sender(json),
            spec_content(json, "body"@),
            |u: IdView, t: Seq<char>| RoomEventView::Message(u, t),
        )
    } else if kind == "m.room.topic"@ {
        spec_said(
            kind,
            spec_sender(json),
            spec_content(json, "topic"@),
            |u: IdView, t: Seq<char>| RoomEventView::Topic(u, t),
        )
    } else if kind == "m.room.name"@ {
        spec_said(
            kind,
            spec_sender(json),
            spec_content(json, "name"@),
            |u: IdView, t: Seq<char>| RoomEventView::Name(u, t),
        )
    } else if kind == "m.room.avatar"@ {
        spec_said(
            kind,
            spec_sender(json),
            spec_content(json, "url"@),
            |u: IdView, t: Seq<char>| RoomEventView::Avatar(u, t),
        )
    } else if kind == "m.room.member"@ {
        let user = spec_user(json, "state_key"@);
        let action = match spec_content(json, "membership"@) {
            Some(word) => spec_action(word),
            None => None,
        };
        if user is Some && action is Some {
            RoomEventView::Membership(user->0, action->0)
        } else {
            RoomEventView::Unknown(kind)
        }
    } else if kind == "m.room.canonical_alias"@ {
        spec_set(kind, spec_content(json, "alias"@), |t: Seq<char>| RoomEventView::CanonicalAlias(t))
    } else if kind == "m.room.join_rules"@ {
        spec_set(kind, spec_content(json, "join_rule"@), |t: Seq<char>| RoomEventView::JoinRules(t))
    } else if kind == "m.room.history_visibility"@ {
        spec_set(
            kind,
            spec_content(json, "history_visibility"@),
            |t: Seq<char>| RoomEventView::HistoryVisibility(t),
        )
    } else if kind == "m.room.aliases"@ {
        match spec_find(json, "content"@) {
            Some(content) => RoomEventView::Aliases(spec_strings(spec_array(content, "aliases"@))),
            None => RoomEventView::Unknown(kind),
        }
    } else if kind == "m.room.create"@ {
        RoomEventView::Create
    } else if kind == "m.room.power_levels"@ {
        RoomEventView::PowerLevels
    } else {
        RoomEventView::Unknown(kind)
    }
}

/// The payload that the document `json` describes: a typing notice if that
/// is its kind; else an event of the room that it names, if it names one;
/// else unknown. A document without a kind is of the kind with the empty
/// name.
pub open spec fn spec_event_data(json: Json) -> EventDataView {
    let kind = match spec_string(json, "type"@) {
        Some(kind) => kind,
        None => Seq::empty(),
    };
    let room = match spec_string(json, "room_id"@) {
        Some(text) => parse_id(text, '!'),
        None => None,
    };
    if kind == "m.typing"@ {
        EventDataView::Typing
    } else {
        match room {
            Some(room) => EventDataView::Room(room, spec_room_event(kind, json)),
            None => EventDataView::Unknown(kind),
        }
    }
}

/// The event that the document `json` describes, under the identifier that
/// its member `event_id` spells, if it spells one.
pub open spec fn spec_event(json: Json) -> EventView {
    EventView {
        id: match spec_string(json, "event_id"@) {
            Some(text) => parse_id(text, '$'),
            None => None,
        },
        data: spec_event_data(json),
    }
}

/// The text of the member `key` of the member `content` of `json`.
fn content(json: &Json, key: &str) -> (r: Option<String>)
    ensures
        r.deep_view() == spec_content(*json, key@),
{
    match find(json, "content") {
        Some(content) => string(content, key),
        None => None,
    }
}

/// The user that the member `key` of `json` names.
fn user(json: &Json, key: &str) -> (r: Option<UserID>)
    ensures
        r.deep_view() == spec_user(*json, key@),
{
    match string(json, key) {
        Some(text) => UserID::from_str(text.as_str()),
        None => None,
    }
}

/// Who caused the event `json`.
fn sender(json: &Json) -> (r: Option<UserID>)
    ensures
        r.deep_view() == spec_sender(*json),
{
    match user(json, "user_id") {
        Some(user) => Some(user),
        None => user(json, "sender"),
    }
}

/// The texts of those of `items` that are strings, in order.
fn strings(items: &[Json]) -> (r: Vec<String>)
    ensures
        r.deep_view() == spec_strings(items@),
{
    let mut r: Vec<String> = Vec::new();
    let n: usize = items.len();
    let mut i: usize = 0;
    assert(items@.take(0) =~= Seq::empty());
    assert(r.deep_view() =~= Seq::empty());
    while i < n
        invariant
            n == items.len(),
            i <= n,
            r.deep_view() == spec_strings(items@.take(i as int)),
        decreases n - i,
    {
        let ghost next = items@.take(i + 1);
        let ghost sofar = r.deep_view();
        assert(next.drop_last() =~= items@.take(i as int));
        assert(next.last() == items@[i as int]);
        match as_string(&items[i]) {
            Some(text) => {
                r.push(String::from_str(text));
                assert(r.deep_view() =~= sofar.push(text@));
            },
            None => {},
        }
        i += 1;
    }
    assert(items@.take(n as int) =~= items@);
    r
}

impl RoomEvent {
    /// Reads the event of kind `kind` that the document `json` describes.
    pub fn from_json(kind: String, json: &Json) -> (r: RoomEvent)
        ensures
            r@ == spec_room_event(kind@, *json),
    {
        if is_word(&kind, "m.room.message") {
            match (sender(json), content(json, "body")) {
                (Some(user), Some(text)) => RoomEvent::Message(user, text),
                _ => RoomEvent::Unknown(kind),
            }
        } else if is_word(&kind, "m.room.topic") {
            match (sender(json), content(json, "topic")) {
                (Some(user), Some(text)) => RoomEvent::Topic(user, text),
                _ => RoomEvent::Unknown(kind),
            }
        } else if is_word(&kind, "m.room.name") {
            match (sender(json), content(json, "name")) {
                (Some(user), Some(text)) => RoomEvent::Name(user, text),
                _ => RoomEvent::Unknown(kind),
            }
        } else if is_word(&kind, "m.room.avatar") {
            match (sender(json), content(json, "url")) {
                (Some(user), Some(text)) => RoomEvent::Avatar(user, text),
                _ => RoomEvent::Unknown(kind),
            }
        } else if is_word(&kind, "m.room.member") {
            let action = match content(json, "membership") {
                Some(word) => MembershipAction::from_str(&word),
                None => None,
            };
            match (user(json, "state_key"), action) {
                (Some(user), Some(action)) => RoomEvent::Membership(user, action),
                _ => RoomEvent::Unknown(kind),
            }
        } else if is_word(&kind, "m.room.canonical_alias") {
            match content(json, "alias") {
                Some(text) => RoomEvent::CanonicalAlias(text),
                None => RoomEvent::Unknown(kind),
            }
        } else if is_word(&kind, "m.room.join_rules") {
            match content(json, "join_rule") {
                Some(text) => RoomEvent::JoinRules(text),
                None => RoomEvent::Unknown(kind),
            }
        } else if is_word(&kind, "m.room.history_visibility") {
            match content(json, "history_visibility") {
                Some(text) => RoomEvent::HistoryVisibility(text),
                None => RoomEvent::Unknown(kind),
            }
        } else if is_word(&kind, "m.room.aliases") {
            match find(json, "content") {
                Some(content) => RoomEvent::Aliases(strings(array(content, "aliases"))),
                None => RoomEvent::Unknown(kind),
            }
        } else if is_word(&kind, "m.room.create") {
            RoomEvent::Create
        } else if is_word(&kind, "m.room.power_levels") {
            RoomEvent::PowerLevels
        } else {
            RoomEvent::Unknown(kind)
        }
    }
}

impl EventData {
    /// Reads the payload that the document `json` describes.
    pub fn from_json(json: &Json) -> (r: EventData)
        ensures
            r@ == spec_event_data(*json),
    {
        let kind = match string(json, "type") {
            Some(kind) => kind,
            None => String::new(),
        };
        let room = match string(json, "room_id") {
            Some(text) => RoomID::from_str(text.as_str()),
            None => None,
        };
        if is_word(&kind, "m.typing") {
            EventData::Typing
        } else {
            match room {
                Some(room) => EventData::Room(room, RoomEvent::from_json(kind, json)),
                None => EventData::Unknown(kind),
            }
        }
    }
}

impl Event {
    /// Reads the event that the document `json` describes.
    pub fn from_json(json: &Json) -> (r: Event)
        ensures
            r@ == spec_event(*json),
    {
        let id = match string(json, "event_id") {
            Some(text) => EventID::from_str(text.as_str()),
            None => None,
        };
        Event { id, data: EventData::from_json(json) }
    }
}

} // verus!
