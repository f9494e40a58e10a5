//! The state of the gateway as a mathematical value, and what each kind of
//! input does to it.

use vstd::prelude::*;
use crate::irc::protocol::{Command, Message, MessageView};
use crate::matrix::client::ClientView;
use crate::matrix::events;
use crate::matrix::events::{EventData, EventDataView, EventView};
use crate::matrix::model::IdView;
use crate::room::RoomView;
use crate::text::{first_index_where, spec_trim};
use crate::translate::{spec_server_name, spec_to_matrix};

verus! {

/// The state of the gateway, as character sequences.
#[verifier::ext_equal]
pub struct BridgeView {
    pub matrix: ClientView,
    pub rooms: Seq<RoomView>,
    pub seen_events: Seq<IdView>,
    pub username: Option<Seq<char>>,
    pub password: Option<Seq<char>>,
}

/// The rooms after the initial synchronisation has ended for `me`, and what
/// the local connection is sent: every room that was still pending has been
/// finished, in the order of the table; the others are as they were.
pub open spec fn finish_sync_all(rooms: Seq<RoomView>, me: IdView) -> (Seq<RoomView>, Seq<MessageView>)
    decreases rooms.len(),
{
    if rooms.len() == 0 {
        (Seq::empty(), Seq::empty())
    } else {
        let (earlier, out) = finish_sync_all(rooms.drop_last(), me);
        if rooms.last().pending_sync {
            let (room, more) = rooms.last().finish_sync(me);
            (earlier.push(room), out + more)
        } else {
            (earlier.push(rooms.last()), out)
        }
    }
}

/// What the poll hands to the gateway, as character sequences.
pub enum NoticeView {
    EndPoll,
    Matrix(EventView),
}

/// What the poll hands to the gateway: an event, or the word that a round
/// is over.
#[derive(Debug)]
pub enum Event {
    /// A round of the long poll is over.
    EndPoll,
    /// The room service has delivered this event.
    Matrix(events::Event),
}

impl DeepView for Event {
    type V = NoticeView;

    open spec fn deep_view(&self) -> NoticeView {
        self@
    }
}

impl View for Event {
    type V = NoticeView;

    open spec fn view(&self) -> NoticeView {
        match self {
            Event::EndPoll => NoticeView::EndPoll,
            Event::Matrix(evt) => NoticeView::Matrix(evt@),
        }
    }
}

/// What the poll hands over after a round that has brought `events`: each
/// event in the order of delivery, then the word that the round is over.
pub open spec fn spec_notices(events: Seq<EventView>) -> Seq<NoticeView> {
    events.map_values(|evt: EventView| NoticeView::Matrix(evt)).push(NoticeView::EndPoll)
}

/// What the local connection is told when the login has failed: the word of
/// the gateway that the session is over.
pub open spec fn spec_login_failed() -> MessageView {
    MessageView {
        prefix: Some(spec_server_name()),
        command: Command::Error,
        args: Seq::empty(),
        suffix: Some("Could not login!"@),
    }
}

/// What is to be done outside after a message of the local connection, as
/// character sequences.
pub enum ActionView {
    Nothing,
    Unhandled,
    SetNickname(Seq<char>),
    Login { username: Seq<char>, password: Seq<char> },
    Join(Seq<char>),
    Pong,
    Quit,
    Send(EventDataView),
    Poll,
    Deliver(Seq<MessageView>),
    Abort(MessageView),
}

/// What is to be done outside after a message of the local connection.
#[derive(Debug)]
pub enum Action {
    /// Nothing: the message has been taken in, or was meant for no channel
    /// that exists.
    Nothing,
    /// Nothing but a note that the gateway has no use for the message.
    Unhandled,
    /// The local user goes by this nickname from now on.
    SetNickname(String),
    /// Both credentials are there: log in to the room service, synchronise,
    /// start polling, and welcome the user.
    Login { username: String, password: String },
    /// Tell the local connection that it has joined this channel.
    Join(String),
    /// Answer the keep-alive.
    Pong,
    /// End the session.
    Quit,
    /// Send this to the room service, and enter the identifier that it gives
    /// the event in the ledger.
    Send(EventData),
    /// Start the next round of the long poll.
    Poll,
    /// Write these messages to the local connection, in this order.
    Deliver(Vec<Message>),
    /// Write this message to the local connection and end the session.
    Abort(Message),
}

impl View for Action {
    type V = ActionView;

    open spec fn view(&self) -> ActionView {
        match self {
            Action::Nothing => ActionView::Nothing,
            Action::Unhandled => ActionView::Unhandled,
            Action::SetNickname(nick) => ActionView::SetNickname(nick@),
            Action::Login { username, password } => ActionView::Login {
                username: username@,
                password: password@,
            },
            Action::Join(channel) => ActionView::Join(channel@),
            Action::Pong => ActionView::Pong,
            Action::Quit => ActionView::Quit,
            Action::Send(data) => ActionView::Send(data@),
            Action::Poll => ActionView::Poll,
            Action::Deliver(messages) => ActionView::Deliver(messages.deep_view()),
            Action::Abort(message) => ActionView::Abort(message@),
        }
    }
}

impl BridgeView {
    /// What holds of every gateway: each room is well formed, and no two
    /// rooms have the same identifier.
    pub open spec fn wf(self) -> bool {
        &&& forall|i: int| 0 <= i < self.rooms.len() ==> (#[trigger] self.rooms[i]).wf()
        &&& forall|i: int, j: int|
            0 <= i < self.rooms.len() && 0 <= j < self.rooms.len() && i != j ==> (
            #[trigger] self.rooms[i]).id != (#[trigger] self.rooms[j]).id
    }

    /// Where the room `id` stands in the table; the length of the table if
    /// it is not in it.
    pub open spec fn room_index(self, id: IdView) -> int {
        first_index_where(self.rooms, |r: RoomView| r.id == id)
    }

    /// Where the first room shown as channel `name` stands in the table; the
    /// length of the table if there is none.
    pub open spec fn channel_index(self, name: Seq<char>) -> int {
        first_index_where(self.rooms, |r: RoomView| r.irc_name == Some(name))
    }

    /// The gateway with the room `id` in its table: as it is if the room is
    /// known, with a fresh room at the end of the table if not.
    pub open spec fn with_room(self, id: IdView) -> BridgeView {
        if self.room_index(id) < self.rooms.len() {
            self
        } else {
            BridgeView { rooms: self.rooms.push(RoomView::fresh(id)), ..self }
        }
    }

    /// The gateway with `room` in place `k` of its table.
    pub open spec fn put_room(self, k: int, room: RoomView) -> BridgeView {
        BridgeView { rooms: self.rooms.update(k, room), ..self }
    }

    /// The gateway after the payload `data` has been dispatched, and what
    /// the local connection is sent. An event of a room goes to that room,
    /// which is created if need be. The end of the synchronisation finishes
    /// every pending room, provided the gateway is logged in. Anything else
    /// changes nothing.
    pub open spec fn dispatch(self, data: EventDataView) -> (BridgeView, Seq<MessageView>) {
        match data {
            EventDataView::Room(id, evt) => {
                let k = self.room_index(id);
                let with = self.with_room(id);
                let (room, out) = with.rooms[k].apply(evt);
                (with.put_room(k, room), out)
            },
            EventDataView::EndOfSync => match self.matrix.uid {
                Some(me) => {
                    let (rooms, out) = finish_sync_all(self.rooms, me);
                    (BridgeView { rooms, ..self }, out)
                },
                None => (self, Seq::empty()),
            },
            _ => (self, Seq::empty()),
        }
    }

    /// The gateway with `id` entered in the ledger.
    pub open spec fn record(self, id: IdView) -> BridgeView {
        BridgeView { seen_events: self.seen_events.push(id), ..self }
    }

    /// The gateway after the event `evt`, and what the local connection is
    /// sent. An event whose identifier is in the ledger changes nothing and
    /// sends nothing. Any other is dispatched, and its identifier, if it has
    /// one, is entered in the ledger.
    pub open spec fn handle_matrix(self, evt: EventView) -> (BridgeView, Seq<MessageView>) {
        if evt.id is Some && self.seen_events.contains(evt.id->0) {
            (self, Seq::empty())
        } else {
            let (next, out) = self.dispatch(evt.data);
            (
                match evt.id {
                    Some(id) => next.record(id),
                    None => next,
                },
                out,
            )
        }
    }

    /// The gateway after each of `events` has been handled in turn, and all
    /// that the local connection is sent, in order.
    pub open spec fn handle_all(self, events: Seq<EventView>) -> (BridgeView, Seq<MessageView>)
        decreases events.len(),
    {
        if events.len() == 0 {
            (self, Seq::empty())
        } else {
            let (before, out) = self.handle_all(events.drop_last());
            let (after, more) = before.handle_matrix(events.last());
            (after, out + more)
        }
    }

    /// The gateway after the poll has handed it `notice`, and what is to be
    /// done outside: after the end of a round, the next round; after an
    /// event, the delivery of what the event causes.
    pub open spec fn notify(self, notice: NoticeView) -> (BridgeView, ActionView) {
        match notice {
            NoticeView::EndPoll => (self, ActionView::Poll),
            NoticeView::Matrix(evt) => (
                self.handle_matrix(evt).0,
                ActionView::Deliver(self.handle_matrix(evt).1),
            ),
        }
    }

    /// The gateway once the credentials at hand are `username` and
    /// `password`: with both there, they are used up and a login is due
    /// with them, less the white space around them; else they are kept.
    pub open spec fn with_credentials(
        self,
        username: Option<Seq<char>>,
        password: Option<Seq<char>>,
    ) -> (BridgeView, ActionView) {
        if username is Some && password is Some {
            (
                BridgeView { username: None, password: None, ..self },
                ActionView::Login {
                    username: spec_trim(username->0),
                    password: spec_trim(password->0),
                },
            )
        } else {
            (BridgeView { username, password, ..self }, ActionView::Nothing)
        }
    }

    /// The gateway after the message `msg` of the local connection, and what
    /// is to be done outside. A password or a user name is kept until both
    /// are there. A nickname, a join, a keep-alive and a disconnect are
    /// handed on. A line of chat for a channel that stands for no room is
    /// dropped; for one that does, it becomes a request to send it there in
    /// the name of the user logged in. Everything else, and a message that
    /// lacks what its command needs, is unhandled.
    pub open spec fn handle_client(self, msg: MessageView) -> (BridgeView, ActionView) {
        match msg.command {
            Command::Pass => if msg.args.len() > 0 {
                self.with_credentials(self.username, Some(msg.args[0]))
            } else {
                (self, ActionView::Unhandled)
            },
            Command::User => if msg.args.len() > 0 {
                self.with_credentials(Some(msg.args[0]), self.password)
            } else {
                (self, ActionView::Unhandled)
            },
            Command::Nick => match msg.suffix {
                Some(nick) => (self, ActionView::SetNickname(nick)),
                None => if msg.args.len() > 0 {
                    (self, ActionView::SetNickname(msg.args[0]))
                } else {
                    (self, ActionView::Unhandled)
                },
            },
            Command::Join => if msg.args.len() > 0 {
                (self, ActionView::Join(msg.args[0]))
            } else {
                (self, ActionView::Unhandled)
            },
            Command::Ping => (self, ActionView::Pong),
            Command::Quit => (self, ActionView::Quit),
            Command::Privmsg => if msg.args.len() > 0 {
                let k = self.channel_index(msg.args[0]);
                if k >= self.rooms.len() {
                    (self, ActionView::Nothing)
                } else if msg.suffix is Some && self.matrix.uid is Some {
                    (
                        self,
                        ActionView::Send(
                            spec_to_matrix(self.rooms[k].id, self.matrix.uid->0, msg.suffix->0),
                        ),
                    )
                } else {
                    (self, ActionView::Unhandled)
                }
            } else {
                (self, ActionView::Unhandled)
            },
            _ => (self, ActionView::Unhandled),
        }
    }
}

} // verus!
