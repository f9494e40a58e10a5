//! What the gateway remembers of its session with the room service.
//!
//! The requests themselves travel outside of this crate. Here are the state
//! that they read and change, and the addresses that they go to.

use vstd::prelude::*;
use vstd::pervasive::unreached;
use vstd::string::StringExecFns;
use hyper::Url;
use rustc_serialize::json::{Json, ParserError};
use crate::matrix::events::{
    spec_event, spec_to_json, spec_type_str, Event, EventData, EventDataView, EventView,
    RoomEventView,
};
use crate::matrix::json::{
    array, parse, spec_array, spec_parse, spec_string, spec_write_object, string, write_object,
};
use crate::matrix::scan::{admits, parse_admits};
use crate::matrix::model::{format_id, lemma_parse_format, parse_id, EventID, IdView, UserID};
use crate::text::{decimal, push_char, push_decimal, spec_trim, trim};

verus! {

/// An error of the transport, as `hyper` reports it.
#[verifier::external_type_specification]
#[verifier::external_body]
pub struct ExHttpError(hyper::Error);

/// An address, as `hyper` holds it.
#[verifier::external_type_specification]
#[verifier::external_body]
pub struct ExUrl(Url);

/// The address that `text` spells, if it spells one.
pub uninterp spec fn spec_parse_url(text: Seq<char>) -> Option<Url>;

/// The host that the address `url` names, if it names one.
pub uninterp spec fn spec_host(url: Url) -> Option<Seq<char>>;

/// `Url::parse`: reads `text` as an address. The same text always gives the
/// same address, or none.
#[verifier::external_body]
pub(crate) fn parse_url(text: &str) -> (r: Option<Url>)
    ensures
        r == spec_parse_url(text@),
{
    Url::parse(text).ok()
}

/// `Url::host_str`: the host that `url` names.
#[verifier::external_body]
pub(crate) fn host(url: &Url) -> (r: Option<String>)
    ensures
        r.deep_view() == spec_host(*url),
{
    url.host_str().map(|h| h.to_string())
}

/// The host that the address spelled by `text` names.
pub open spec fn spec_domain(text: Seq<char>) -> Option<Seq<char>> {
    match spec_parse_url(spec_trim(text)) {
        Some(url) => spec_host(url),
        None => None,
    }
}

/// What can go wrong in an exchange with the room service.
#[derive(Debug)]
pub enum ClientError {
    /// The request did not get through.
    Http(hyper::Error),
    /// The service answered with anything but success, or its address
    /// names no host.
    UrlNotFound,
    /// The answer is no document.
    Json(ParserError),
    /// The answer is a document that lacks what was asked for.
    Incomplete,
    /// The answer cannot be handed to the parser, which would not return:
    /// it is nested too deeply, the keys of its open objects are too long
    /// together, an exponent is too large, a comma stands before the closing
    /// brace of an inner object, or it is too long altogether.
    Inadmissible,
}

/// The outcome of an exchange with the room service.
pub type Result<T = ()> = core::result::Result<T, ClientError>;

/// The document that the body `body` of an answer spells, once the white
/// space around it is taken off; none where it spells none.
pub open spec fn spec_answer(body: Seq<char>) -> Option<Json> {
    spec_parse(spec_trim(body))
}

/// Whether the body `body` of an answer may be handed to the parser, once
/// the white space around it is taken off.
pub open spec fn spec_fit(body: Seq<char>) -> bool {
    parse_admits(spec_trim(body))
}

/// Reads the answer to a request: `ok` says whether the service reported
/// success, `body` is what it sent. An answer other than success is refused
/// whatever its body. Else the body, without the white space around it, must
/// be fit for the parser and must be a document.
pub fn json(ok: bool, body: &str) -> (r: Result<Json>)
    ensures
        match r {
            Ok(doc) => ok && spec_fit(body@) && spec_answer(body@) == Some(doc),
            Err(ClientError::UrlNotFound) => !ok,
            Err(ClientError::Inadmissible) => ok && !spec_fit(body@),
            Err(ClientError::Json(_)) => ok && spec_fit(body@) && spec_answer(body@) is None,
            Err(_) => false,
        },
{
    if !ok {
        return Err(ClientError::UrlNotFound);
    }
    let text = trim(body);
    if !admits(text) {
        return Err(ClientError::Inadmissible);
    }
    match parse(text) {
        Ok(doc) => Ok(doc),
        Err(err) => Err(ClientError::Json(err)),
    }
}

/// The events that the documents `items` describe, in order.
pub open spec fn spec_events(items: Seq<Json>) -> Seq<EventView> {
    items.map_values(|item: Json| spec_event(item))
}

/// Reads each of `items` as an event and appends it to `events`.
fn read_events(items: &[Json], events: &mut Vec<Event>)
    ensures
        final(events).deep_view() == old(events).deep_view() + spec_events(items@),
{
    let n: usize = items.len();
    let mut i: usize = 0;
    assert(items@.take(0) =~= Seq::empty());
    assert(events.deep_view() =~= old(events).deep_view() + spec_events(items@.take(0)));
    while i < n
        invariant
            n == items.len(),
            i <= n,
            events.deep_view() == old(events).deep_view() + spec_events(items@.take(i as int)),
        decreases n - i,
    {
        let ghost sofar = events.deep_view();
        events.push(Event::from_json(&items[i]));
        assert(events.deep_view() =~= sofar.push(spec_event(items@[i as int])));
        assert(spec_events(items@.take(i + 1)) =~= spec_events(items@.take(i as int)).push(
            spec_event(items@[i as int]),
        ));
        i += 1;
    }
    assert(items@.take(n as int) =~= items@);
}

/// The events of an initial synchronisation, as the answer `doc` lists
/// them: for each of its rooms in order, the state of the room in order;
/// and at the end the marker that the synchronisation is over.
pub open spec fn spec_sync_events(rooms: Seq<Json>) -> Seq<EventView>
    decreases rooms.len(),
{
    if rooms.len() == 0 {
        Seq::empty()
    } else {
        spec_sync_events(rooms.drop_last()) + spec_events(spec_array(rooms.last(), "state"@))
    }
}

/// One round of the long poll, ready to be sent.
#[derive(Debug)]
pub struct AsyncPoll {
    pub url: String,
}

impl AsyncPoll {
    /// Reads the answer to the poll: the events that the member `chunk` of
    /// the answer lists, in order.
    pub fn send(self, ok: bool, body: &str) -> (r: Result<Vec<Event>>)
        ensures
            match r {
                Ok(events) => ok && spec_fit(body@) && spec_answer(body@) is Some
                    && events.deep_view() == spec_events(
                    spec_array(spec_answer(body@)->0, "chunk"@),
                ),
                Err(ClientError::UrlNotFound) => !ok,
                Err(ClientError::Inadmissible) => ok && !spec_fit(body@),
                Err(ClientError::Json(_)) => ok && spec_fit(body@) && spec_answer(body@) is None,
                Err(_) => false,
            },
    {
        match json(ok, body) {
            Ok(doc) => {
                let mut ret: Vec<Event> = Vec::new();
                assert(ret.deep_view() =~= Seq::empty());
                read_events(array(&doc, "chunk"), &mut ret);
                assert(ret.deep_view() =~= spec_events(spec_array(doc, "chunk"@)));
                Ok(ret)
            },
            Err(err) => Err(err),
        }
    }
}

/// The pair of tokens that a login yields, as character sequences.
pub struct AccessTokenView {
    pub access: Seq<char>,
    pub refresh: Seq<char>,
}

/// The pair of tokens that a login yields.
pub struct AccessToken {
    access: String,
    refresh: String,
}

impl View for AccessToken {
    type V = AccessTokenView;

    closed spec fn view(&self) -> AccessTokenView {
        AccessTokenView { access: self.access@, refresh: self.refresh@ }
    }
}

impl DeepView for AccessToken {
    type V = AccessTokenView;

    open spec fn deep_view(&self) -> AccessTokenView {
        self@
    }
}

impl Clone for AccessToken {
    fn clone(&self) -> (r: Self)
        ensures
            r@ == self@,
    {
        AccessToken { access: self.access.clone(), refresh: self.refresh.clone() }
    }
}

impl AccessToken {
    /// The pair of the two tokens given.
    pub fn new(access: String, refresh: String) -> (r: AccessToken)
        ensures
            r@ == (AccessTokenView { access: access@, refresh: refresh@ }),
    {
        AccessToken { access, refresh }
    }

    /// The token that authorises requests.
    pub fn access(&self) -> (r: &String)
        ensures
            r@ == self@.access,
    {
        &self.access
    }

    /// The token that renews the other.
    pub fn refresh(&self) -> (r: &String)
        ensures
            r@ == self@.refresh,
    {
        &self.refresh
    }
}

/// The session with the room service, as character sequences.
pub struct ClientView {
    pub token: Option<AccessTokenView>,
    pub next_id: nat,
    pub baseurl: Seq<char>,
    pub uid: Option<IdView>,
}

/// The arguments `args` as they stand in an address: each a name, `=`, a
/// value and `&`.
pub open spec fn spec_query(args: Seq<(Seq<char>, Seq<char>)>) -> Seq<char>
    decreases args.len(),
{
    if args.len() == 0 {
        Seq::empty()
    } else {
        spec_query(args.drop_last()) + args.last().0 + seq!['='] + args.last().1 + seq!['&']
    }
}

/// What is asked of the room service: where, and with what body.
#[derive(Debug)]
pub struct Request {
    pub url: String,
    pub body: String,
}

impl ClientView {
    /// The address of `endpoint` with the arguments `args`: the base
    /// address, the endpoint, `?`, the access token if there is one, and the
    /// arguments.
    pub open spec fn url(self, endpoint: Seq<char>, args: Seq<(Seq<char>, Seq<char>)>) -> Seq<char> {
        self.baseurl + endpoint + seq!['?'] + (match self.token {
            Some(token) => "access_token="@ + spec_trim(token.access) + seq!['&'],
            None => Seq::empty(),
        }) + spec_query(args)
    }

    /// Where an event of the kind of `evt` is sent for `room`, as the
    /// request with the number `number`.
    pub open spec fn send_url(self, room: IdView, evt: RoomEventView, number: nat) -> Seq<char> {
        self.url(
            "rooms/"@ + format_id(room, '!') + "/send/"@ + spec_type_str(evt) + seq!['/'] + decimal(
                number,
            ),
            Seq::empty(),
        )
    }
}

/// The text that names the user `username` of the homeserver `domain`.
pub open spec fn spec_user_text(username: Seq<char>, domain: Seq<char>) -> Seq<char> {
    seq!['@'] + username + seq![':'] + domain
}

/// The text that names a user of a homeserver names some user.
pub proof fn lemma_user_text_parses(username: Seq<char>, domain: Seq<char>)
    ensures
        parse_id(spec_user_text(username, domain), '@') is Some,
{
    let s = spec_user_text(username, domain);
    crate::text::lemma_first_index_of_contains(s, ':');
    let at = username.len() as int + 1;
    assert(s[at] == ':');
    assert(s.contains(':'));
}

/// The body of a login with `username` and `password`.
pub open spec fn spec_login_body(username: Seq<char>, password: Seq<char>) -> Seq<char> {
    spec_write_object(
        seq![
            ("user"@, username),
            ("password"@, password),
            ("type"@, "m.login.password"@),
        ],
        Seq::empty(),
    )
}

/// The session with the room service.
pub struct Client {
    token: Option<AccessToken>,
    next_id: u32,
    baseurl: String,
    pub uid: Option<UserID>,
}

impl View for Client {
    type V = ClientView;

    closed spec fn view(&self) -> ClientView {
        ClientView {
            token: self.token.deep_view(),
            next_id: self.next_id as nat,
            baseurl: self.baseurl@,
            uid: self.uid.deep_view(),
        }
    }
}

impl Client {
    /// A session with the service at `baseurl`, not logged in.
    pub fn new(baseurl: &str) -> (r: Client)
        ensures
            r@ == (ClientView { token: None, next_id: 0, baseurl: baseurl@, uid: None }),
    {
        Client { token: None, next_id: 0, baseurl: String::from_str(baseurl), uid: None }
    }

    /// The address of `endpoint` with the arguments `args`.
    pub fn url(&self, endpoint: &str, args: &Vec<(String, String)>) -> (r: String)
        ensures
            r@ == self@.url(endpoint@, args.deep_view()),
    {
        let mut ret = self.baseurl.clone();
        ret.append(endpoint);
        push_char(&mut ret, '?');
        match &self.token {
            None => {},
            Some(token) => {
                ret.append("access_token=");
                ret.append(trim(token.access.as_str()));
                push_char(&mut ret, '&');
            },
        }
        let ghost head = ret@;
        let n: usize = args.len();
        let mut i: usize = 0;
        assert(args.deep_view().take(0) =~= Seq::empty());
        assert(ret@ =~= head + spec_query(args.deep_view().take(0)));
        while i < n
            invariant
                n == args.len(),
                i <= n,
                ret@ == head + spec_query(args.deep_view().take(i as int)),
            decreases n - i,
        {
            let ghost next = args.deep_view().take(i + 1);
            assert(next.drop_last() =~= args.deep_view().take(i as int));
            assert(next.last() == (args[i as int].0@, args[i as int].1@));
            ret.append(args[i].0.as_str());
            push_char(&mut ret, '=');
            ret.append(args[i].1.as_str());
            push_char(&mut ret, '&');
            assert(ret@ =~= head + spec_query(next));
            i += 1;
        }
        assert(args.deep_view().take(n as int) =~= args.deep_view());
        assert(ret@ =~= self@.url(endpoint@, args.deep_view()));
        ret
    }

    /// What a login with `username` and `password` asks of the service.
    pub fn login_request(&self, username: &str, password: &str) -> (r: Request)
        ensures
            r.url@ == self@.url("login"@, Seq::empty()),
            r.body@ == spec_login_body(username@, password@),
    {
        let mut members: Vec<(String, String)> = Vec::new();
        members.push((String::from_str("user"), String::from_str(username)));
        members.push((String::from_str("password"), String::from_str(password)));
        members.push((String::from_str("type"), String::from_str("m.login.password")));
        assert(members.deep_view() =~= seq![
            ("user"@, username@),
            ("password"@, password@),
            ("type"@, "m.login.password"@),
        ]);
        let none: Vec<(String, String)> = Vec::new();
        assert(none.deep_view() =~= Seq::empty());
        let lists: Vec<(String, Vec<String>)> = Vec::new();
        assert(lists.deep_view() =~= Seq::empty());
        Request { url: self.url("login", &none), body: write_object(&members, &lists) }
    }

    /// Takes in the answer to a login as `username`. Where the answer holds
    /// both tokens and the base address names a host, the session is logged
    /// in as that user of that host. Else the session is as it was.
    pub fn login(&mut self, username: &str, ok: bool, body: &str) -> (r: Result)
        ensures
            match r {
                Ok(_) => {
                    let doc = spec_answer(body@);
                    &&& ok
                    &&& spec_fit(body@)
                    &&& doc is Some
                    &&& spec_string(doc->0, "access_token"@) is Some
                    &&& spec_string(doc->0, "refresh_token"@) is Some
                    &&& spec_domain(old(self)@.baseurl) is Some
                    &&& final(self)@ == (ClientView {
                        token: Some(
                            AccessTokenView {
                                access: spec_string(doc->0, "access_token"@)->0,
                                refresh: spec_string(doc->0, "refresh_token"@)->0,
                            },
                        ),
                        uid: parse_id(
                            spec_user_text(username@, spec_domain(old(self)@.baseurl)->0),
                            '@',
                        ),
                        ..old(self)@
                    })
                    &&& final(self)@.uid is Some
                    &&& !username@.contains(':') ==> final(self)@.uid == Some(
                        IdView {
                            local: username@,
                            homeserver: spec_domain(old(self)@.baseurl)->0,
                        },
                    )
                },
                Err(err) => {
                    let doc = spec_answer(body@);
                    &&& final(self)@ == old(self)@
                    &&& match err {
                        ClientError::UrlNotFound => !ok || (spec_fit(body@) && doc is Some
                            && spec_string(doc->0, "access_token"@) is Some && spec_string(
                            doc->0,
                            "refresh_token"@,
                        ) is Some && spec_domain(old(self)@.baseurl) is None),
                        ClientError::Inadmissible => ok && !spec_fit(body@),
                        ClientError::Json(_) => ok && spec_fit(body@) && doc is None,
                        ClientError::Incomplete => ok && spec_fit(body@) && doc is Some && (
                        spec_string(doc->0, "access_token"@) is None || spec_string(
                            doc->0,
                            "refresh_token"@,
                        ) is None),
                        ClientError::Http(_) => false,
                    }
                },
            },
    {
        let doc = match json(ok, body) {
            Ok(doc) => doc,
            Err(err) => {
                return Err(err);
            },
        };
        let access = match string(&doc, "access_token") {
            Some(access) => access,
            None => {
                return Err(ClientError::Incomplete);
            },
        };
        let refresh = match string(&doc, "refresh_token") {
            Some(refresh) => refresh,
            None => {
                return Err(ClientError::Incomplete);
            },
        };
        let url = match parse_url(trim(self.baseurl.as_str())) {
            Some(url) => url,
            None => {
                return Err(ClientError::UrlNotFound);
            },
        };
        let domain = match host(&url) {
            Some(domain) => domain,
            None => {
                return Err(ClientError::UrlNotFound);
            },
        };
        let mut text = String::new();
        push_char(&mut text, '@');
        text.append(username);
        push_char(&mut text, ':');
        text.append(domain.as_str());
        assert(text@ =~= spec_user_text(username@, domain@));
        proof {
            lemma_user_text_parses(username@, domain@);
            if !username@.contains(':') {
                lemma_parse_format(IdView { local: username@, homeserver: domain@ }, '@');
            }
        }
        self.token = Some(AccessToken { access, refresh });
        self.uid = UserID::from_str(text.as_str());
        Ok(())
    }

    /// The round of the long poll that is due.
    pub fn poll_async(&self) -> (r: AsyncPoll)
        ensures
            r.url@ == self@.url("events"@, Seq::empty()),
    {
        let none: Vec<(String, String)> = Vec::new();
        assert(none.deep_view() =~= Seq::empty());
        AsyncPoll { url: self.url("events", &none) }
    }

    /// What sending the event `evt` of a room asks of the service: it goes
    /// to the address of that room and of its kind, under the next number
    /// of the session, which is counted up; its body is its content. Only
    /// an event of a room can be sent, and only while the numbers last.
    pub fn send_request(&mut self, evt: &EventData) -> (request: Request)
        requires
            evt@ is Room,
            old(self)@.next_id < u32::MAX,
        ensures
            final(self)@ == (ClientView { next_id: old(self)@.next_id + 1, ..old(self)@ }),
            request.url@ == old(self)@.send_url(
                evt@->Room_0,
                evt@->Room_1,
                old(self)@.next_id + 1,
            ),
            request.body@ == spec_to_json(evt@->Room_1),
    {
        let (room, room_event) = match evt {
            EventData::Room(room, room_event) => (room, room_event),
            _ => unreached(),
        };
        self.next_id = self.next_id + 1;
        let mut endpoint = String::from_str("rooms/");
        endpoint.append(room.to_string().as_str());
        endpoint.append("/send/");
        endpoint.append(room_event.type_str().as_str());
        push_char(&mut endpoint, '/');
        push_decimal(&mut endpoint, self.next_id);
        assert(endpoint@ =~= "rooms/"@ + format_id(room@, '!') + "/send/"@ + spec_type_str(
            room_event@,
        ) + seq!['/'] + decimal(self.next_id as nat));
        let none: Vec<(String, String)> = Vec::new();
        assert(none.deep_view() =~= Seq::empty());
        Request { url: self.url(endpoint.as_str(), &none), body: room_event.to_json() }
    }

    /// Reads the answer to a request to send an event: the identifier that
    /// the service has given the event.
    pub fn send(&self, ok: bool, body: &str) -> (r: Result<EventID>)
        ensures
            match r {
                Ok(id) => {
                    let doc = spec_answer(body@);
                    &&& ok
                    &&& spec_fit(body@)
                    &&& doc is Some
                    &&& spec_string(doc->0, "event_id"@) is Some
                    &&& parse_id(spec_string(doc->0, "event_id"@)->0, '$') == Some(id@)
                },
                Err(ClientError::UrlNotFound) => !ok,
                Err(ClientError::Inadmissible) => ok && !spec_fit(body@),
                Err(ClientError::Json(_)) => ok && spec_fit(body@) && spec_answer(body@) is None,
                Err(ClientError::Incomplete) => {
                    let doc = spec_answer(body@);
                    &&& ok
                    &&& spec_fit(body@)
                    &&& doc is Some
                    &&& (spec_string(doc->0, "event_id"@) is None || parse_id(
                        spec_string(doc->0, "event_id"@)->0,
                        '$',
                    ) is None)
                },
                Err(ClientError::Http(_)) => false,
            },
    {
        let doc = match json(ok, body) {
            Ok(doc) => doc,
            Err(err) => {
                return Err(err);
            },
        };
        match string(&doc, "event_id") {
            Some(text) => match EventID::from_str(text.as_str()) {
                Some(id) => Ok(id),
                None => Err(ClientError::Incomplete),
            },
            None => Err(ClientError::Incomplete),
        }
    }

    /// Where the initial synchronisation is asked for.
    pub fn sync_request(&self) -> (r: String)
        ensures
            r@ == self@.url("initialSync"@, seq![("limit"@, "0"@)]),
    {
        let mut args: Vec<(String, String)> = Vec::new();
        args.push((String::from_str("limit"), String::from_str("0")));
        assert(args.deep_view() =~= seq![("limit"@, "0"@)]);
        self.url("initialSync", &args)
    }

    /// Reads the answer to the initial synchronisation: for each room that
    /// the member `rooms` of the answer lists, the events of its member
    /// `state`, and at the end the marker that the synchronisation is over.
    pub fn sync(&self, ok: bool, body: &str) -> (r: Result<Vec<Event>>)
        ensures
            match r {
                Ok(events) => ok && spec_fit(body@) && spec_answer(body@) is Some
                    && events.deep_view() == spec_sync_events(
                    spec_array(spec_answer(body@)->0, "rooms"@),
                ).push(EventView { id: None, data: EventDataView::EndOfSync }),
                Err(ClientError::UrlNotFound) => !ok,
                Err(ClientError::Inadmissible) => ok && !spec_fit(body@),
                Err(ClientError::Json(_)) => ok && spec_fit(body@) && spec_answer(body@) is None,
                Err(_) => false,
            },
    {
        let doc = match json(ok, body) {
            Ok(doc) => doc,
            Err(err) => {
                return Err(err);
            },
        };
        let rooms = array(&doc, "rooms");
        let mut ret: Vec<Event> = Vec::new();
        let n: usize = rooms.len();
        let mut i: usize = 0;
        assert(rooms@.take(0) =~= Seq::empty());
        assert(ret.deep_view() =~= Seq::empty());
        while i < n
            invariant
                n == rooms.len(),
                i <= n,
                ret.deep_view() == spec_sync_events(rooms@.take(i as int)),
            decreases n - i,
        {
            let ghost next = rooms@.take(i + 1);
            assert(next.drop_last() =~= rooms@.take(i as int));
            assert(next.last() == rooms@[i as int]);
            read_events(array(&rooms[i], "state"), &mut ret);
            i += 1;
        }
        assert(rooms@.take(n as int) =~= rooms@);
        let ghost listed = ret.deep_view();
        ret.push(Event { id: None, data: EventData::EndOfSync });
        assert(ret.deep_view() =~= listed.push(
            EventView { id: None, data: EventDataView::EndOfSync },
        ));
        Ok(ret)
    }

    /// The tokens of the session, once it is logged in.
    pub fn token(&self) -> (r: &Option<AccessToken>)
        ensures
            r.deep_view() == self@.token,
    {
        &self.token
    }

    /// The address of the room service, as it was given.
    pub fn baseurl(&self) -> (r: &String)
        ensures
            r@ == self@.baseurl,
    {
        &self.baseurl
    }

    /// How many events the session has sent.
    pub fn next_id(&self) -> (r: u32)
        ensures
            r == self@.next_id,
    {
        self.next_id
    }

    /// Who the session is logged in as, if it is.
    pub fn uid(&self) -> (r: &Option<UserID>)
        ensures
            r.deep_view() == self@.uid,
    {
        &self.uid
    }
}

} // verus!
