//! The orchestrator: the table of rooms, the ledger of events already seen,
//! and the two entry points through which everything passes.
//!
//! Events of the room service enter through `Bridge::handle_matrix`,
//! messages of the local connection through `Bridge::handle_client`. Both
//! return what is to be done outside: the messages to write to the local
//! connection, or the request to make of the room service. Nothing else
//! changes the rooms.

pub mod model;
pub mod laws;

use vstd::prelude::*;
use vstd::string::StringExecFns;
pub use crate::bridge::model::{Action, ActionView, BridgeView, Event, NoticeView};
use crate::bridge::model::{finish_sync_all, spec_login_failed, spec_notices};
use crate::bridge::laws::{
    lemma_channel_index, lemma_channel_index_unique, lemma_dispatch_wf, lemma_handle_all_wf,
    lemma_handle_matrix_wf, lemma_put_room_wf, lemma_room_index, lemma_room_index_unique,
    lemma_with_room,
};
use crate::irc::protocol::{Command, Message};
use crate::matrix::client::{Client, ClientView};
use crate::matrix::events;
use crate::matrix::events::{EventData, EventDataView};
use crate::matrix::model::{EventID, RoomID, UserID};
use crate::room::{Room, RoomView};
use crate::text::trim;
use crate::translate::{server_name, to_matrix};

verus! {

/// What the poll hands over after a round that has brought `batch`: each
/// event in the order of delivery, then the word that the round is over.
pub fn notices(batch: Vec<events::Event>) -> (r: Vec<Event>)
    ensures
        r.deep_view() == spec_notices(batch.deep_view()),
{
    let mut r: Vec<Event> = Vec::new();
    let ghost all = batch.deep_view();
    assert(r.deep_view() =~= Seq::empty());
    for evt in it: batch
        invariant
            all.len() == it.seq().len(),
            forall|j: int| 0 <= j < all.len() ==> all[j] == (#[trigger] it.seq()[j])@,
            r.deep_view().len() == it.index(),
            forall|j: int|
                0 <= j < it.index() ==> #[trigger] r.deep_view()[j] == NoticeView::Matrix(all[j]),
    {
        let ghost sofar = r.deep_view();
        r.push(Event::Matrix(evt));
        assert(r.deep_view() =~= sofar.push(NoticeView::Matrix(evt@)));
    }
    let ghost handed = r.deep_view();
    r.push(Event::EndPoll);
    assert(r.deep_view() =~= handed.push(NoticeView::EndPoll));
    assert(r.deep_view() =~= spec_notices(all));
    r
}

/// The gateway itself.
pub struct Bridge {
    matrix: Client,
    rooms: Vec<Room>,
    seen_events: Vec<EventID>,
    username: Option<String>,
    password: Option<String>,
}

impl View for Bridge {
    type V = BridgeView;

    closed spec fn view(&self) -> BridgeView {
        BridgeView {
            matrix: self.matrix@,
            rooms: self.rooms.deep_view(),
            seen_events: self.seen_events.deep_view(),
            username: self.username.deep_view(),
            password: self.password.deep_view(),
        }
    }
}

impl Bridge {
    /// A gateway to the room service at `url`: no rooms, nothing seen, nobody
    /// logged in.
    pub fn new(url: &str) -> (bridge: Bridge)
        ensures
            bridge@ == (BridgeView {
                matrix: ClientView { token: None, next_id: 0, baseurl: url@, uid: None },
                rooms: Seq::empty(),
                seen_events: Seq::empty(),
                username: None,
                password: None,
            }),
            bridge@.wf(),
    {
        let bridge = Bridge {
            matrix: Client::new(url),
            rooms: Vec::new(),
            seen_events: Vec::new(),
            username: None,
            password: None,
        };
        assert(bridge.rooms.deep_view() =~= Seq::empty());
        assert(bridge.seen_events.deep_view() =~= Seq::empty());
        bridge
    }

    /// Where the room `id` stands in the table; the length of the table if
    /// it is not in it.
    fn find_room(&self, id: &RoomID) -> (k: usize)
        ensures
            k == self@.room_index(id@),
            k <= self.rooms.len(),
    {
        let n: usize = self.rooms.len();
        let mut i: usize = 0;
        while i < n
            invariant
                n == self.rooms.len(),
                i <= n,
                forall|j: int| 0 <= j < i ==> (#[trigger] self@.rooms[j]).id != id@,
            decreases n - i,
        {
            assert(self@.rooms[i as int] == self.rooms[i as int]@);
            if *self.rooms[i].id() == *id {
                proof {
                    lemma_room_index_unique(self@, id@, i as int);
                }
                return i;
            }
            i += 1;
        }
        proof {
            lemma_room_index_unique(self@, id@, i as int);
        }
        i
    }

    /// The room `id`, which is created, pending and empty, if the gateway
    /// has not heard of it.
    pub fn room_from_matrix(&mut self, id: &RoomID) -> (room: &mut Room)
        ensures
            room@ == old(self)@.with_room(id@).rooms[old(self)@.room_index(id@)],
            room@.id == id@,
            old(self)@.wf() ==> room@.wf(),
            final(self)@ =~= old(self)@.with_room(id@).put_room(
                old(self)@.room_index(id@),
                final(room)@,
            ),
            old(self)@.wf() && final(room)@.wf() && final(room)@.id == id@ ==> final(self)@.wf(),
    {
        let k: usize = self.find_room(id);
        proof {
            lemma_room_index(self@, id@);
        }
        if k == self.rooms.len() {
            self.rooms.push(Room::new(id.clone()));
            assert(self@ =~= old(self)@.with_room(id@));
        }
        proof {
            if old(self)@.wf() {
                lemma_with_room(old(self)@, id@);
                assert forall|r: RoomView| r.wf() && r.id == id@ implies #[trigger] self@.put_room(
                    k as int,
                    r,
                ).wf() by {
                    lemma_put_room_wf(self@, k as int, r);
                }
            }
        }
        assert(self@.rooms[k as int] == self.rooms[k as int]@);
        &mut self.rooms[k]
    }
    /// Where the first room shown as channel `name` stands in the table; the
    /// length of the table if there is none.
    fn find_channel(&self, name: &String) -> (k: usize)
        ensures
            k == self@.channel_index(name@),
            k <= self.rooms.len(),
    {
        let n: usize = self.rooms.len();
        let mut i: usize = 0;
        while i < n
            invariant
                n == self.rooms.len(),
                i <= n,
                forall|j: int| 0 <= j < i ==> (#[trigger] self@.rooms[j]).irc_name != Some(name@),
            decreases n - i,
        {
            assert(self@.rooms[i as int] == self.rooms[i as int]@);
            let shown = match self.rooms[i].irc_name() {
                Some(alias) => *alias == *name,
                None => false,
            };
            if shown {
                proof {
                    lemma_channel_index_unique(self@, name@, i as int);
                }
                return i;
            }
            i += 1;
        }
        proof {
            lemma_channel_index_unique(self@, name@, i as int);
        }
        i
    }

    /// The first room that is shown as the channel `id`, if there is one.
    pub fn room_from_irc(&mut self, id: &String) -> (room: Option<&mut Room>)
        ensures
            room is Some <==> old(self)@.channel_index(id@) < old(self)@.rooms.len(),
            room is None ==> final(self)@ == old(self)@,
            match room {
                Some(r) => {
                    &&& r@ == old(self)@.rooms[old(self)@.channel_index(id@)]
                    &&& r@.irc_name == Some(id@)
                    &&& old(self)@.wf() ==> r@.wf()
                    &&& final(self)@ =~= old(self)@.put_room(old(self)@.channel_index(id@), final(r)@)
                    &&& old(self)@.wf() && final(r)@.wf() && final(r)@.id == r@.id
                        ==> final(self)@.wf()
                },
                None => true,
            },
    {
        let k: usize = self.find_channel(id);
        proof {
            lemma_channel_index(self@, id@);
        }
        if k < self.rooms.len() {
            proof {
                if self@.wf() {
                    assert forall|r: RoomView|
                        r.wf() && r.id == self@.rooms[k as int].id implies #[trigger] self@.put_room(
                        k as int,
                        r,
                    ).wf() by {
                        lemma_put_room_wf(self@, k as int, r);
                    }
                }
            }
            assert(self@.rooms[k as int] == self.rooms[k as int]@);
            Some(&mut self.rooms[k])
        } else {
            None
        }
    }

    /// Whether the event `id` is in the ledger.
    pub fn has_seen(&self, id: &EventID) -> (r: bool)
        ensures
            r == self@.seen_events.contains(id@),
    {
        let n: usize = self.seen_events.len();
        let mut i: usize = 0;
        while i < n
            invariant
                n == self.seen_events.len(),
                i <= n,
                forall|j: int| 0 <= j < i ==> #[trigger] self@.seen_events[j] != id@,
            decreases n - i,
        {
            assert(self@.seen_events[i as int] == self.seen_events[i as int]@);
            if self.seen_events[i] == *id {
                return true;
            }
            i += 1;
        }
        false
    }

    /// Ends the initial synchronisation: every room that is still pending is
    /// finished for the user the gateway is logged in as. Returns what the
    /// local connection is to be sent, room by room in the order of the
    /// table. Does nothing while nobody is logged in.
    pub fn finish_sync(&mut self) -> (out: Vec<Message>)
        ensures
            final(self)@ == old(self)@.dispatch(EventDataView::EndOfSync).0,
            out.deep_view() == old(self)@.dispatch(EventDataView::EndOfSync).1,
            old(self)@.wf() ==> final(self)@.wf(),
    {
        let mut out: Vec<Message> = Vec::new();
        assert(out.deep_view() =~= Seq::empty());
        proof {
            if self@.wf() {
                lemma_dispatch_wf(self@, EventDataView::EndOfSync);
            }
        }
        let me: UserID = match self.matrix.uid() {
            Some(me) => me.clone(),
            None => {
                return out;
            },
        };
        let ghost start = self@;
        let n: usize = self.rooms.len();
        let mut i: usize = 0;
        assert(start.rooms.take(0) =~= Seq::empty());
        assert(self@.rooms.take(0) =~= Seq::empty());
        while i < n
            invariant
                n == self.rooms.len(),
                n == start.rooms.len(),
                i <= n,
                self@.matrix == start.matrix,
                self@.seen_events == start.seen_events,
                self@.username == start.username,
                self@.password == start.password,
                self@.rooms.take(i as int) == finish_sync_all(start.rooms.take(i as int), me@).0,
                out.deep_view() == finish_sync_all(start.rooms.take(i as int), me@).1,
                forall|j: int| i <= j < n ==> #[trigger] self@.rooms[j] == start.rooms[j],
            decreases n - i,
        {
            let ghost before = self@.rooms;
            let ghost sofar = out.deep_view();
            let ghost next = start.rooms.take(i + 1);
            assert(next.drop_last() =~= start.rooms.take(i as int));
            assert(next.last() == start.rooms[i as int]);
            assert(before[i as int] == self.rooms[i as int]@);
            if self.rooms[i].pending_sync() {
                let mut more = self.rooms[i].finish_sync(&me);
                let ghost sent = more.deep_view();
                out.append(&mut more);
                assert(out.deep_view() =~= sofar + sent);
            }
            assert(self@.rooms =~= before.update(i as int, self.rooms[i as int]@));
            assert(self@.rooms.take(i + 1) =~= before.take(i as int).push(self.rooms[i as int]@));
            i += 1;
        }
        assert(start.rooms.take(n as int) =~= start.rooms);
        assert(self@.rooms.take(n as int) =~= self@.rooms);
        assert(self@ =~= start.dispatch(EventDataView::EndOfSync).0);
        out
    }

    /// Takes in one event of the room service, from the initial
    /// synchronisation or from a later poll. An event whose identifier is in
    /// the ledger is dropped. Any other is dispatched and its identifier, if
    /// it has one, entered in the ledger. Returns what the local connection
    /// is to be sent, which is complete only now that the whole event has
    /// been processed.
    pub fn handle_matrix(&mut self, evt: events::Event) -> (out: Vec<Message>)
        ensures
            final(self)@ == old(self)@.handle_matrix(evt@).0,
            out.deep_view() == old(self)@.handle_matrix(evt@).1,
            old(self)@.wf() ==> final(self)@.wf(),
    {
        proof {
            if self@.wf() {
                lemma_handle_matrix_wf(self@, evt@);
            }
        }
        let events::Event { id, data } = evt;
        let duplicate = match &id {
            Some(id) => self.has_seen(id),
            None => false,
        };
        if duplicate {
            let out: Vec<Message> = Vec::new();
            assert(out.deep_view() =~= Seq::empty());
            return out;
        }
        let out = match data {
            EventData::Room(room_id, room_event) => {
                let room = self.room_from_matrix(&room_id);
                room.handle_event(room_event)
            },
            EventData::EndOfSync => self.finish_sync(),
            _ => {
                let out: Vec<Message> = Vec::new();
                assert(out.deep_view() =~= Seq::empty());
                out
            },
        };
        assert(self@ =~= old(self)@.dispatch(evt@.data).0);
        match id {
            Some(id) => {
                let ghost before = self@;
                self.seen_events.push(id);
                assert(self@ =~= before.record(id@));
            },
            None => {},
        }
        out
    }
    /// Takes in the events of the initial synchronisation, or of any other
    /// batch, in the order of delivery. Returns all that the local connection
    /// is to be sent, in order.
    pub fn start_matrix(&mut self, batch: Vec<events::Event>) -> (out: Vec<Message>)
        ensures
            final(self)@ == old(self)@.handle_all(batch.deep_view()).0,
            out.deep_view() == old(self)@.handle_all(batch.deep_view()).1,
            old(self)@.wf() ==> final(self)@.wf(),
    {
        let mut out: Vec<Message> = Vec::new();
        let ghost all = batch.deep_view();
        let ghost start = self@;
        assert(out.deep_view() =~= Seq::empty());
        assert(all.take(0) =~= Seq::empty());
        for evt in it: batch
            invariant
                all.len() == it.seq().len(),
                forall|j: int| 0 <= j < all.len() ==> all[j] == (#[trigger] it.seq()[j])@,
                self@ == start.handle_all(all.take(it.index() as int)).0,
                out.deep_view() == start.handle_all(all.take(it.index() as int)).1,
        {
            let ghost next = all.take(it.index() + 1);
            let ghost sofar = out.deep_view();
            assert(next.drop_last() =~= all.take(it.index() as int));
            assert(next.last() == evt@);
            let mut more = self.handle_matrix(evt);
            let ghost sent = more.deep_view();
            out.append(&mut more);
            assert(out.deep_view() =~= sofar + sent);
        }
        assert(all.take(all.len() as int) =~= all);
        proof {
            if start.wf() {
                lemma_handle_all_wf(start, all);
            }
        }
        out
    }

    /// Takes in what the poll hands over and says what is to be done
    /// outside.
    pub fn notify(&mut self, msg: Event) -> (action: Action)
        ensures
            final(self)@ == old(self)@.notify(msg@).0,
            action@ == old(self)@.notify(msg@).1,
            old(self)@.wf() ==> final(self)@.wf(),
    {
        match msg {
            Event::EndPoll => Action::Poll,
            Event::Matrix(evt) => Action::Deliver(self.handle_matrix(evt)),
        }
    }

    /// What is to be done when the login, or the synchronisation that follows
    /// it, has failed: the local connection is told so and the session ends.
    pub fn login_failed(&self) -> (action: Action)
        ensures
            action@ == ActionView::Abort(spec_login_failed()),
    {
        let args: Vec<String> = Vec::new();
        assert(args.deep_view() =~= Seq::empty());
        Action::Abort(
            Message {
                prefix: Some(server_name()),
                command: Command::Error,
                args,
                suffix: Some(String::from_str("Could not login!")),
            },
        )
    }

    /// Enters `id` in the ledger: the identifier that the room service gave
    /// to an event that the gateway itself has sent, so that the event is
    /// dropped when the service sends it back.
    pub fn record_sent(&mut self, id: EventID)
        ensures
            final(self)@ == old(self)@.record(id@),
            old(self)@.wf() ==> final(self)@.wf(),
    {
        let ghost before = self@;
        self.seen_events.push(id);
        assert(self@ =~= before.record(id@));
    }

    /// The session with the room service.
    pub fn matrix(&self) -> (r: &Client)
        ensures
            r@ == self@.matrix,
    {
        &self.matrix
    }

    /// The session with the room service, to be changed.
    pub fn matrix_mut(&mut self) -> (r: &mut Client)
        ensures
            r@ == old(self)@.matrix,
            final(self)@ == (BridgeView { matrix: final(r)@, ..old(self)@ }),
    {
        &mut self.matrix
    }

    /// Takes the credentials at hand: logs in with them if both are there,
    /// keeps them if not.
    fn take_credentials(&mut self, username: Option<String>, password: Option<String>) -> (action:
        Action)
        ensures
            final(self)@ == old(self)@.with_credentials(
                username.deep_view(),
                password.deep_view(),
            ).0,
            action@ == old(self)@.with_credentials(username.deep_view(), password.deep_view()).1,
    {
        let ghost before = self@;
        if username.is_some() && password.is_some() {
            self.username = None;
            self.password = None;
            assert(self@ =~= before.with_credentials(
                username.deep_view(),
                password.deep_view(),
            ).0);
            Action::Login {
                username: String::from_str(trim(username.unwrap().as_str())),
                password: String::from_str(trim(password.unwrap().as_str())),
            }
        } else {
            self.username = username;
            self.password = password;
            assert(self@ =~= before.with_credentials(
                username.deep_view(),
                password.deep_view(),
            ).0);
            Action::Nothing
        }
    }

    /// Takes in one message of the local connection and says what is to be
    /// done outside.
    pub fn handle_client(&mut self, message: Message) -> (action: Action)
        ensures
            final(self)@ == old(self)@.handle_client(message@).0,
            action@ == old(self)@.handle_client(message@).1,
            old(self)@.wf() ==> final(self)@.wf(),
    {
        let Message { prefix: _, command, args, suffix } = message;
        let mut args = args;
        let ghost texts = args.deep_view();
        let first: Option<String> = if args.len() > 0 {
            assert(texts[0] == args[0]@);
            Some(args.swap_remove(0))
        } else {
            None
        };
        match command {
            Command::Pass => match first {
                Some(password) => {
                    let username = self.username.take();
                    let action = self.take_credentials(username, Some(password));
                    assert(self@ =~= old(self)@.handle_client(message@).0);
                    action
                },
                None => Action::Unhandled,
            },
            Command::User => match first {
                Some(username) => {
                    let password = self.password.take();
                    let action = self.take_credentials(Some(username), password);
                    assert(self@ =~= old(self)@.handle_client(message@).0);
                    action
                },
                None => Action::Unhandled,
            },
            Command::Nick => match suffix {
                Some(nick) => Action::SetNickname(nick),
                None => match first {
                    Some(nick) => Action::SetNickname(nick),
                    None => Action::Unhandled,
                },
            },
            Command::Join => match first {
                Some(channel) => Action::Join(channel),
                None => Action::Unhandled,
            },
            Command::Ping => Action::Pong,
            Command::Quit => Action::Quit,
            Command::Privmsg => {
                let channel = match first {
                    Some(channel) => channel,
                    None => {
                        return Action::Unhandled;
                    },
                };
                let k: usize = self.find_channel(&channel);
                if k >= self.rooms.len() {
                    return Action::Nothing;
                }
                if suffix.is_none() || self.matrix.uid().is_none() {
                    return Action::Unhandled;
                }
                let me = self.matrix.uid().as_ref().unwrap().clone();
                assert(self@.rooms[k as int] == self.rooms[k as int]@);
                Action::Send(to_matrix(self.rooms[k].id().clone(), me, suffix.unwrap()))
            },
            _ => Action::Unhandled,
        }
    }
    /// The table of rooms, in the order in which the gateway heard of them.
    pub fn rooms(&self) -> (r: &Vec<Room>)
        ensures
            r.deep_view() == self@.rooms,
    {
        &self.rooms
    }

    /// The ledger: the identifiers of the events handled so far, and of
    /// those that the gateway has sent itself.
    pub fn seen_events(&self) -> (r: &Vec<EventID>)
        ensures
            r.deep_view() == self@.seen_events,
    {
        &self.seen_events
    }
}

} // verus!
