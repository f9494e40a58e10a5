//! The state of a room as a mathematical value, and what each event does
//! to it.

use vstd::prelude::*;
use crate::irc::protocol::{Command, MessageView};
use crate::matrix::events::{MembershipAction, RoomEventView};
use crate::matrix::model::IdView;
use crate::text::{first_index_of, first_index_where, is_suffix_of};
use crate::translate::{spec_names_reply, spec_relayed, spec_to_irc};

verus! {

/// The state of a room, as character sequences.
pub struct RoomView {
    pub id: IdView,
    pub irc_name: Option<Seq<char>>,
    pub canonical_alias: Option<Seq<char>>,
    pub join_rules: Option<Seq<char>>,
    pub members: Seq<IdView>,
    pub aliases: Seq<Seq<char>>,
    pub pending_events: Seq<RoomEventView>,
    pub pending_sync: bool,
}

/// The messages that the events `events` become in `channel`, in order.
pub open spec fn replay(channel: Seq<char>, events: Seq<RoomEventView>) -> Seq<MessageView>
    decreases events.len(),
{
    if events.len() == 0 {
        Seq::empty()
    } else {
        let earlier = replay(channel, events.drop_last());
        match spec_to_irc(channel, events.last()) {
            Some(m) => earlier.push(m),
            None => earlier,
        }
    }
}

/// The name for a room that has no alias at all: `#id:homeserver`.
pub open spec fn fallback_name(id: IdView) -> Seq<char> {
    seq!['#'] + id.local + seq![':'] + id.homeserver
}

/// What an alias must end with to belong to `homeserver`.
pub open spec fn home_suffix(homeserver: Seq<char>) -> Seq<char> {
    seq![':'] + homeserver
}

/// The index of the first of `aliases` that belongs to `homeserver`, or
/// `aliases.len()` if none does.
pub open spec fn first_home_alias(aliases: Seq<Seq<char>>, homeserver: Seq<char>) -> int {
    first_index_where(aliases, |a: Seq<char>| is_suffix_of(home_suffix(homeserver), a))
}

impl RoomView {
    /// A room nothing is known of yet.
    pub open spec fn fresh(id: IdView) -> RoomView {
        RoomView {
            id,
            irc_name: None,
            canonical_alias: None,
            join_rules: None,
            members: Seq::empty(),
            aliases: Seq::empty(),
            pending_events: Seq::empty(),
            pending_sync: true,
        }
    }

    /// What holds of every room: a pending room has no channel name, an
    /// active room has one and an empty buffer, and nobody is a member twice.
    pub open spec fn wf(self) -> bool {
        &&& self.pending_sync ==> self.irc_name is None
        &&& !self.pending_sync ==> self.irc_name is Some && self.pending_events.len() == 0
        &&& self.members.no_duplicates()
    }

    /// `user` joins: the channel, if it has a name, is told so unless the
    /// user was a member already; the user is a member afterwards.
    pub open spec fn join(self, user: IdView) -> (RoomView, Seq<MessageView>) {
        if self.members.contains(user) {
            (self, Seq::empty())
        } else {
            (
                RoomView { members: self.members.push(user), ..self },
                match self.irc_name {
                    Some(name) => seq![spec_relayed(user, Command::Join, name, None)],
                    None => Seq::empty(),
                },
            )
        }
    }

    /// `user` leaves: the channel, if it has a name, is told so if the user
    /// was a member; the user's first entry in the roster is removed.
    pub open spec fn part(self, user: IdView) -> (RoomView, Seq<MessageView>) {
        if self.members.contains(user) {
            (
                RoomView {
                    members: self.members.remove(first_index_of(self.members, user)),
                    ..self
                },
                match self.irc_name {
                    Some(name) => seq![spec_relayed(user, Command::Part, name, None)],
                    None => Seq::empty(),
                },
            )
        } else {
            (self, Seq::empty())
        }
    }

    /// An event that needs the channel's name: translated if there is one,
    /// buffered if not.
    pub open spec fn deliver(self, evt: RoomEventView) -> (RoomView, Seq<MessageView>) {
        match self.irc_name {
            Some(name) => (
                self,
                match spec_to_irc(name, evt) {
                    Some(m) => seq![m],
                    None => Seq::empty(),
                },
            ),
            None => (
                RoomView { pending_events: self.pending_events.push(evt), ..self },
                Seq::empty(),
            ),
        }
    }

    /// The room after `evt`, and the messages that `evt` causes.
    pub open spec fn apply(self, evt: RoomEventView) -> (RoomView, Seq<MessageView>) {
        match evt {
            RoomEventView::CanonicalAlias(name) => (
                RoomView { canonical_alias: Some(name), ..self },
                Seq::empty(),
            ),
            RoomEventView::JoinRules(rules) => (
                RoomView { join_rules: Some(rules), ..self },
                Seq::empty(),
            ),
            RoomEventView::Aliases(aliases) => (RoomView { aliases, ..self }, Seq::empty()),
            RoomEventView::Create
            | RoomEventView::PowerLevels
            | RoomEventView::HistoryVisibility(_)
            | RoomEventView::Name(_, _)
            | RoomEventView::Avatar(_, _)
            | RoomEventView::Unknown(_) => (self, Seq::empty()),
            RoomEventView::Membership(user, MembershipAction::Join) => self.join(user),
            RoomEventView::Membership(user, MembershipAction::Leave) => self.part(user),
            RoomEventView::Membership(_, _)
            | RoomEventView::Message(_, _)
            | RoomEventView::Topic(_, _) => self.deliver(evt),
        }
    }

    /// The channel name of the room for a user of `homeserver`: the first
    /// alias on that homeserver; else the canonical alias; else the first
    /// alias; else a name made of the room's identifier.
    pub open spec fn resolve_name(self, homeserver: Seq<char>) -> Seq<char> {
        let k = first_home_alias(self.aliases, homeserver);
        if k < self.aliases.len() {
            self.aliases[k]
        } else if self.canonical_alias is Some {
            self.canonical_alias->0
        } else if self.aliases.len() > 0 {
            self.aliases[0]
        } else {
            fallback_name(self.id)
        }
    }

    /// The room after the initial synchronisation has ended for the user
    /// `me`, and what the channel is sent: the user's own join, the roster,
    /// and the buffered events in their order of arrival.
    pub open spec fn finish_sync(self, me: IdView) -> (RoomView, Seq<MessageView>) {
        let name = self.resolve_name(me.homeserver);
        (
            RoomView {
                irc_name: Some(name),
                pending_events: Seq::empty(),
                pending_sync: false,
                ..self
            },
            seq![
                spec_relayed(me, Command::Join, name, None),
                spec_names_reply(me, name, self.members),
            ] + replay(name, self.pending_events),
        )
    }
}

} // verus!
