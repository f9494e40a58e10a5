//! Identifiers of the room service: users, rooms and events.
//!
//! Each identifier is written as a sigil, a local part, a colon and the name
//! of the homeserver that issued it (`@user:host`, `!room:host`,
//! `$event:host`). Two identifiers are equal when both parts are.

use vstd::prelude::*;
use vstd::string::StringExecFns;
use vstd::string::StrSliceExecFns;
use crate::text::{find_char, first_index_of, lemma_first_index_of_contains, push_char, substring};

verus! {

/// The two parts of an identifier, as character sequences.
pub struct IdView {
    pub local: Seq<char>,
    pub homeserver: Seq<char>,
}

/// The parts of the identifier that `s` spells with the given sigil: the
/// text between the sigil and the first colon, and the text after that
/// colon. `None` where `s` does not start with the sigil or holds no colon.
pub open spec fn parse_id(s: Seq<char>, sigil: char) -> Option<IdView> {
    let colon = first_index_of(s, ':');
    if s.len() > 0 && s[0] == sigil && 0 < colon < s.len() {
        Some(IdView { local: s.subrange(1, colon), homeserver: s.subrange(colon + 1, s.len() as int) })
    } else {
        None
    }
}

/// The text of an identifier: sigil, local part, colon, homeserver.
pub open spec fn format_id(id: IdView, sigil: char) -> Seq<char> {
    seq![sigil] + id.local + seq![':'] + id.homeserver
}

/// Reading back what `format_id` wrote gives the identifier again, provided
/// the sigil is not a colon and the local part holds none.
pub proof fn lemma_parse_format(id: IdView, sigil: char)
    requires
        sigil != ':',
        !id.local.contains(':'),
    ensures
        parse_id(format_id(id, sigil), sigil) == Some(id),
{
    let s = format_id(id, sigil);
    let colon = id.local.len() as int + 1;
    assert(s[colon] == ':');
    assert forall|j: int| 0 <= j < colon implies s[j] != ':' by {
        if j > 0 {
            assert(s[j] == id.local[j - 1]);
            assert(id.local.contains(id.local[j - 1]));
        }
    }
    crate::text::lemma_first_index_of_unique(s, ':', colon);
    assert(s.subrange(1, colon) =~= id.local);
    assert(s.subrange(colon + 1, s.len() as int) =~= id.homeserver);
}

/// Splits the text of an identifier into its two parts.
fn split_id(s: &str, sigil: char) -> (r: Option<(String, String)>)
    ensures
        match r {
            Some((local, homeserver)) => parse_id(s@, sigil) == Some(
                IdView { local: local@, homeserver: homeserver@ },
            ),
            None => parse_id(s@, sigil) is None,
        },
{
    let n: usize = s.unicode_len();
    if n == 0 || s.get_char(0) != sigil {
        return None;
    }
    let colon: usize = find_char(s, ':');
    proof {
        lemma_first_index_of_contains(s@, ':');
    }
    if colon == 0 || colon >= n {
        return None;
    }
    Some((substring(s, 1, colon), substring(s, colon + 1, n)))
}

/// Writes an identifier out.
fn join_id(sigil: char, local: &String, homeserver: &String) -> (r: String)
    ensures
        r@ == format_id(IdView { local: local@, homeserver: homeserver@ }, sigil),
{
    let mut r = String::new();
    push_char(&mut r, sigil);
    r.append(local.as_str());
    push_char(&mut r, ':');
    r.append(homeserver.as_str());
    r
}

/// A user of the room service.
#[derive(Debug)]
pub struct UserID {
    pub nickname: String,
    pub homeserver: String,
}

impl View for UserID {
    type V = IdView;

    open spec fn view(&self) -> IdView {
        IdView { local: self.nickname@, homeserver: self.homeserver@ }
    }
}

impl DeepView for UserID {
    type V = IdView;

    open spec fn deep_view(&self) -> IdView {
        self@
    }
}

impl Clone for UserID {
    fn clone(&self) -> (r: Self)
        ensures
            r@ == self@,
    {
        UserID { nickname: self.nickname.clone(), homeserver: self.homeserver.clone() }
    }
}

impl PartialEq for UserID {
    fn eq(&self, other: &Self) -> (r: bool) {
        self.nickname == other.nickname && self.homeserver == other.homeserver
    }
}

impl Eq for UserID {}

impl vstd::std_specs::cmp::PartialEqSpecImpl for UserID {
    open spec fn obeys_eq_spec() -> bool {
        true
    }

    open spec fn eq_spec(&self, other: &Self) -> bool {
        self@ == other@
    }
}

impl UserID {
    /// Reads `@nickname:homeserver`.
    pub fn from_str(s: &str) -> (r: Option<UserID>)
        ensures
            match r {
                Some(id) => parse_id(s@, '@') == Some(id@),
                None => parse_id(s@, '@') is None,
            },
    {
        match split_id(s, '@') {
            Some((nickname, homeserver)) => Some(UserID { nickname, homeserver }),
            None => None,
        }
    }

    /// Writes `@nickname:homeserver`.
    pub fn to_string(&self) -> (r: String)
        ensures
            r@ == format_id(self@, '@'),
    {
        join_id('@', &self.nickname, &self.homeserver)
    }
}

/// A room of the room service.
#[derive(Debug)]
pub struct RoomID {
    pub id: String,
    pub homeserver: String,
}

impl View for RoomID {
    type V = IdView;

    open spec fn view(&self) -> IdView {
        IdView { local: self.id@, homeserver: self.homeserver@ }
    }
}

impl DeepView for RoomID {
    type V = IdView;

    open spec fn deep_view(&self) -> IdView {
        self@
    }
}

impl Clone for RoomID {
    fn clone(&self) -> (r: Self)
        ensures
            r@ == self@,
    {
        RoomID { id: self.id.clone(), homeserver: self.homeserver.clone() }
    }
}

impl PartialEq for RoomID {
    fn eq(&self, other: &Self) -> (r: bool) {
        self.id == other.id && self.homeserver == other.homeserver
    }
}

impl Eq for RoomID {}

impl vstd::std_specs::cmp::PartialEqSpecImpl for RoomID {
    open spec fn obeys_eq_spec() -> bool {
        true
    }

    open spec fn eq_spec(&self, other: &Self) -> bool {
        self@ == other@
    }
}

impl RoomID {
    /// Reads `!id:homeserver`.
    pub fn from_str(s: &str) -> (r: Option<RoomID>)
        ensures
            match r {
                Some(room) => parse_id(s@, '!') == Some(room@),
                None => parse_id(s@, '!') is None,
            },
    {
        match split_id(s, '!') {
            Some((id, homeserver)) => Some(RoomID { id, homeserver }),
            None => None,
        }
    }

    /// Writes `!id:homeserver`.
    pub fn to_string(&self) -> (r: String)
        ensures
            r@ == format_id(self@, '!'),
    {
        join_id('!', &self.id, &self.homeserver)
    }
}

/// An event of the room service, by the name it was given.
#[derive(Debug)]
pub struct EventID {
    pub id: String,
    pub homeserver: String,
}

impl View for EventID {
    type V = IdView;

    open spec fn view(&self) -> IdView {
        IdView { local: self.id@, homeserver: self.homeserver@ }
    }
}

impl DeepView for EventID {
    type V = IdView;

    open spec fn deep_view(&self) -> IdView {
        self@
    }
}

impl Clone for EventID {
    fn clone(&self) -> (r: Self)
        ensures
            r@ == self@,
    {
        EventID { id: self.id.clone(), homeserver: self.homeserver.clone() }
    }
}

impl PartialEq for EventID {
    fn eq(&self, other: &Self) -> (r: bool) {
        self.id == other.id && self.homeserver == other.homeserver
    }
}

impl Eq for EventID {}

impl vstd::std_specs::cmp::PartialEqSpecImpl for EventID {
    open spec fn obeys_eq_spec() -> bool {
        true
    }

    open spec fn eq_spec(&self, other: &Self) -> bool {
        self@ == other@
    }
}

impl EventID {
    /// Reads `$id:homeserver`.
    pub fn from_str(s: &str) -> (r: Option<EventID>)
        ensures
            match r {
                Some(event) => parse_id(s@, '$') == Some(event@),
                None => parse_id(s@, '$') is None,
            },
    {
        match split_id(s, '$') {
            Some((id, homeserver)) => Some(EventID { id, homeserver }),
            None => None,
        }
    }

    /// Writes `$id:homeserver`.
    pub fn to_string(&self) -> (r: String)
        ensures
            r@ == format_id(self@, '$'),
    {
        join_id('$', &self.id, &self.homeserver)
    }
}

} // verus!
