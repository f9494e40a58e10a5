//! The state of one room and the channel that stands for it.
//!
//! A room starts out pending: events accumulate state, and what would be
//! chat is buffered, because the channel has no name yet. When the initial
//! synchronisation ends the room is given its channel name, the local user
//! is told to have joined, the roster is sent and the buffer is replayed in
//! the order of arrival. From then on the room is active and every event is
//! translated at once.

pub mod model;
pub mod laws;

use vstd::prelude::*;
use vstd::string::StringExecFns;
pub use crate::room::model::RoomView;
use crate::room::model::{fallback_name, home_suffix, replay};
use crate::room::laws::{lemma_apply_preserves_wf, lemma_first_home_alias_unique};
use crate::irc::protocol::{Command, Message, MessageView};
use crate::matrix::events::{MembershipAction, RoomEvent, RoomEventView};
use crate::matrix::model::{RoomID, UserID};
use crate::text::{
    first_index_of, is_suffix_of, lemma_first_index_of_contains, lemma_first_index_of_unique,
    push_char, str_ends_with,
};
use crate::translate::{names_reply, relayed, spec_names_reply, spec_relayed, spec_to_irc, to_irc};

verus! {

/// One room of the room service, and the channel that stands for it.
#[derive(Debug)]
pub struct Room {
    id: RoomID,
    irc_name: Option<String>,
    canonical_alias: Option<String>,
    join_rules: Option<String>,
    members: Vec<UserID>,
    aliases: Vec<String>,
    pending_events: Vec<RoomEvent>,
    pending_sync: bool,
}

impl View for Room {
    type V = RoomView;

    closed spec fn view(&self) -> RoomView {
        RoomView {
            id: self.id@,
            irc_name: self.irc_name.deep_view(),
            canonical_alias: self.canonical_alias.deep_view(),
            join_rules: self.join_rules.deep_view(),
            members: self.members.deep_view(),
            aliases: self.aliases.deep_view(),
            pending_events: self.pending_events.deep_view(),
            pending_sync: self.pending_sync,
        }
    }
}

impl DeepView for Room {
    type V = RoomView;

    open spec fn deep_view(&self) -> RoomView {
        self@
    }
}

impl Room {
    /// A room nothing is known of yet: pending, unnamed and empty.
    pub fn new(id: RoomID) -> (room: Room)
        ensures
            room@ == RoomView::fresh(id@),
            room@.wf(),
    {
        let room = Room {
            id,
            irc_name: None,
            canonical_alias: None,
            join_rules: None,
            members: Vec::new(),
            aliases: Vec::new(),
            pending_events: Vec::new(),
            pending_sync: true,
        };
        assert(room.members.deep_view() =~= Seq::empty());
        assert(room.aliases.deep_view() =~= Seq::empty());
        assert(room.pending_events.deep_view() =~= Seq::empty());
        room
    }

    /// The identifier of the room.
    pub fn id(&self) -> (r: &RoomID)
        ensures
            r@ == self@.id,
    {
        &self.id
    }

    /// The name of the channel that stands for the room, once it has one.
    pub fn irc_name(&self) -> (r: &Option<String>)
        ensures
            r.deep_view() == self@.irc_name,
    {
        &self.irc_name
    }

    /// Whether the room still waits for the end of the synchronisation.
    pub fn pending_sync(&self) -> (r: bool)
        ensures
            r == self@.pending_sync,
    {
        self.pending_sync
    }

    /// Where `user` stands in the roster; the length of the roster if the
    /// user is no member.
    fn position(&self, user: &UserID) -> (k: usize)
        ensures
            k == first_index_of(self@.members, user@),
            k <= self.members.len(),
            k < self.members.len() <==> self@.members.contains(user@),
    {
        let n: usize = self.members.len();
        let mut i: usize = 0;
        while i < n
            invariant
                n == self.members.len(),
                i <= n,
                forall|j: int| 0 <= j < i ==> #[trigger] self@.members[j] != user@,
            decreases n - i,
        {
            if self.members[i] == *user {
                proof {
                    assert(self@.members[i as int] == user@);
                    lemma_first_index_of_unique(self@.members, user@, i as int);
                    lemma_first_index_of_contains(self@.members, user@);
                }
                return i;
            }
            assert(self@.members[i as int] == self.members[i as int]@);
            i += 1;
        }
        proof {
            lemma_first_index_of_unique(self@.members, user@, i as int);
            lemma_first_index_of_contains(self@.members, user@);
        }
        i
    }

    /// `user` has joined the room.
    pub fn handle_join(&mut self, user: UserID) -> (out: Vec<Message>)
        ensures
            (final(self)@, out.deep_view()) == old(self)@.join(user@),
            old(self)@.wf() ==> final(self)@.wf(),
    {
        let mut out: Vec<Message> = Vec::new();
        assert(out.deep_view() =~= Seq::empty());
        proof {
            if self@.wf() {
                lemma_apply_preserves_wf(
                    self@,
                    RoomEventView::Membership(user@, MembershipAction::Join),
                );
            }
        }
        if self.position(&user) == self.members.len() {
            match &self.irc_name {
                Some(name) => {
                    out.push(relayed(&user, Command::Join, name, None));
                    assert(out.deep_view() =~= seq![
                        spec_relayed(user@, Command::Join, name@, None),
                    ]);
                },
                None => {},
            }
            self.members.push(user);
            assert(self.members.deep_view() =~= old(self).members.deep_view().push(user@));
        }
        out
    }

    /// `user` has left the room.
    pub fn handle_part(&mut self, user: UserID) -> (out: Vec<Message>)
        ensures
            (final(self)@, out.deep_view()) == old(self)@.part(user@),
            old(self)@.wf() ==> final(self)@.wf(),
    {
        let mut out: Vec<Message> = Vec::new();
        assert(out.deep_view() =~= Seq::empty());
        proof {
            if self@.wf() {
                lemma_apply_preserves_wf(
                    self@,
                    RoomEventView::Membership(user@, MembershipAction::Leave),
                );
            }
        }
        let k: usize = self.position(&user);
        if k < self.members.len() {
            match &self.irc_name {
                Some(name) => {
                    out.push(relayed(&user, Command::Part, name, None));
                    assert(out.deep_view() =~= seq![
                        spec_relayed(user@, Command::Part, name@, None),
                    ]);
                },
                None => {},
            }
            self.members.remove(k);
            assert(self.members.deep_view() =~= old(self).members.deep_view().remove(k as int));
        }
        out
    }

    /// An event that needs the channel's name.
    pub fn handle_with_alias(&mut self, evt: RoomEvent) -> (out: Vec<Message>)
        ensures
            (final(self)@, out.deep_view()) == old(self)@.deliver(evt@),
    {
        let mut out: Vec<Message> = Vec::new();
        assert(out.deep_view() =~= Seq::empty());
        match &self.irc_name {
            Some(name) => {
                match to_irc(name, evt) {
                    Some(m) => {
                        out.push(m);
                        assert(out.deep_view() =~= seq![m@]);
                    },
                    None => {},
                }
            },
            None => {
                self.pending_events.push(evt);
                assert(self.pending_events.deep_view() =~= old(self).pending_events.deep_view().push(
                    evt@,
                ));
            },
        }
        out
    }

    /// Takes one event of the room in: state events are recorded, joins and
    /// leaves change the roster, chat is translated or buffered, and what
    /// the gateway has no use for is dropped. Returns what the channel is to
    /// be sent.
    pub fn handle_event(&mut self, evt: RoomEvent) -> (out: Vec<Message>)
        ensures
            (final(self)@, out.deep_view()) == old(self)@.apply(evt@),
            old(self)@.wf() ==> final(self)@.wf(),
    {
        proof {
            if self@.wf() {
                lemma_apply_preserves_wf(self@, evt@);
            }
        }
        match evt {
            RoomEvent::CanonicalAlias(name) => {
                self.canonical_alias = Some(name);
                Self::nothing()
            },
            RoomEvent::JoinRules(rules) => {
                self.join_rules = Some(rules);
                Self::nothing()
            },
            RoomEvent::Aliases(aliases) => {
                self.aliases = aliases;
                Self::nothing()
            },
            RoomEvent::Create
            | RoomEvent::PowerLevels
            | RoomEvent::HistoryVisibility(_)
            | RoomEvent::Name(_, _)
            | RoomEvent::Avatar(_, _)
            | RoomEvent::Unknown(_) => Self::nothing(),
            RoomEvent::Membership(user, MembershipAction::Join) => self.handle_join(user),
            RoomEvent::Membership(user, MembershipAction::Leave) => self.handle_part(user),
            other => self.handle_with_alias(other),
        }
    }

    /// No message at all.
    fn nothing() -> (out: Vec<Message>)
        ensures
            out.deep_view() == Seq::<MessageView>::empty(),
    {
        let out: Vec<Message> = Vec::new();
        assert(out.deep_view() =~= Seq::empty());
        out
    }

    /// The channel name of the room for a user of `homeserver`.
    fn resolve_name(&self, homeserver: &String) -> (name: String)
        ensures
            name@ == self@.resolve_name(homeserver@),
    {
        let mut suffix = String::new();
        push_char(&mut suffix, ':');
        suffix.append(homeserver.as_str());
        assert(suffix@ =~= home_suffix(homeserver@));
        let n: usize = self.aliases.len();
        let mut i: usize = 0;
        while i < n
            invariant
                n == self.aliases.len(),
                i <= n,
                suffix@ == home_suffix(homeserver@),
                forall|j: int| 0 <= j < i ==> !is_suffix_of(suffix@, #[trigger] self@.aliases[j]),
            decreases n - i,
        {
            assert(self@.aliases[i as int] == self.aliases[i as int]@);
            if str_ends_with(self.aliases[i].as_str(), suffix.as_str()) {
                proof {
                    lemma_first_home_alias_unique(self@.aliases, homeserver@, i as int);
                }
                return self.aliases[i].clone();
            }
            i += 1;
        }
        proof {
            lemma_first_home_alias_unique(self@.aliases, homeserver@, n as int);
        }
        match &self.canonical_alias {
            Some(alias) => alias.clone(),
            None => {
                if n > 0 {
                    assert(self@.aliases[0] == self.aliases[0]@);
                    self.aliases[0].clone()
                } else {
                    let mut name = String::new();
                    push_char(&mut name, '#');
                    name.append(self.id.id.as_str());
                    push_char(&mut name, ':');
                    name.append(self.id.homeserver.as_str());
                    assert(name@ =~= fallback_name(self.id@));
                    name
                }
            },
        }
    }

    /// Translates the buffered events in their order of arrival and empties
    /// the buffer.
    fn run_pending(&mut self, name: &String, out: &mut Vec<Message>)
        ensures
            final(self)@ == (RoomView { pending_events: Seq::empty(), ..old(self)@ }),
            final(out).deep_view() == old(out).deep_view() + replay(
                name@,
                old(self)@.pending_events,
            ),
    {
        let mut pending: Vec<RoomEvent> = Vec::new();
        assert(pending.deep_view() =~= Seq::empty());
        core::mem::swap(&mut self.pending_events, &mut pending);
        let ghost events = pending.deep_view();
        let ghost before = out.deep_view();
        assert(events.take(0) =~= Seq::empty());
        for evt in it: pending
            invariant
                events.len() == it.seq().len(),
                forall|j: int| 0 <= j < events.len() ==> events[j] == (#[trigger] it.seq()[j])@,
                out.deep_view() == before + replay(name@, events.take(it.index() as int)),
        {
            let ghost done = events.take(it.index() as int);
            let ghost next = events.take(it.index() + 1);
            assert(next.drop_last() =~= done);
            assert(next.last() == evt@);
            let ghost sofar = out.deep_view();
            match to_irc(name, evt) {
                Some(m) => {
                    assert(spec_to_irc(name@, next.last()) == Some(m@));
                    assert(replay(name@, next) == replay(name@, done).push(m@));
                    out.push(m);
                    assert(out.deep_view() =~= sofar.push(m@));
                    assert(out.deep_view() =~= before + replay(name@, next));
                },
                None => {},
            }
        }
        assert(events.take(events.len() as int) =~= events);
    }

    /// Ends the initial synchronisation of this room for the local user
    /// `my_uid`: the room gets its channel name and becomes active. Returns
    /// what the channel is to be sent: the user's own join, the roster, and
    /// the buffered events in their order of arrival.
    pub fn finish_sync(&mut self, my_uid: &UserID) -> (out: Vec<Message>)
        requires
            old(self)@.pending_sync,
        ensures
            (final(self)@, out.deep_view()) == old(self)@.finish_sync(my_uid@),
            old(self)@.wf() ==> final(self)@.wf(),
    {
        let name = self.resolve_name(&my_uid.homeserver);
        let mut out: Vec<Message> = Vec::new();
        out.push(relayed(my_uid, Command::Join, &name, None));
        out.push(names_reply(my_uid, &name, &self.members));
        assert(out.deep_view() =~= seq![
            spec_relayed(my_uid@, Command::Join, name@, None),
            spec_names_reply(my_uid@, name@, self@.members),
        ]);
        self.run_pending(&name, &mut out);
        self.irc_name = Some(name);
        self.pending_sync = false;
        out
    }
    /// The room's canonical alias, if one was set.
    pub fn canonical_alias(&self) -> (r: &Option<String>)
        ensures
            r.deep_view() == self@.canonical_alias,
    {
        &self.canonical_alias
    }

    /// The room's join rules, if any were set.
    pub fn join_rules(&self) -> (r: &Option<String>)
        ensures
            r.deep_view() == self@.join_rules,
    {
        &self.join_rules
    }

    /// Who is in the room.
    pub fn members(&self) -> (r: &Vec<UserID>)
        ensures
            r.deep_view() == self@.members,
    {
        &self.members
    }

    /// The room's aliases.
    pub fn aliases(&self) -> (r: &Vec<String>)
        ensures
            r.deep_view() == self@.aliases,
    {
        &self.aliases
    }

    /// The events that wait for the room to get its channel name.
    pub fn pending_events(&self) -> (r: &Vec<RoomEvent>)
        ensures
            r.deep_view() == self@.pending_events,
    {
        &self.pending_events
    }
}

} // verus!
