//! What holds of the gateway whatever it is given: it stays well formed, its
//! ledger only grows, its rooms stay where they are, and an event that is in
//! the ledger counts for nothing.

use vstd::prelude::*;
use crate::bridge::model::{finish_sync_all, BridgeView};
use crate::irc::protocol::MessageView;
use crate::matrix::events::{EventDataView, EventView, MembershipAction, RoomEventView};
use crate::matrix::model::IdView;
use crate::room::laws::{lemma_apply_preserves_wf, lemma_finish_sync_activates};
use crate::room::model::RoomView;
use crate::text::{lemma_first_index_where, lemma_first_index_where_unique};

verus! {

/// `room_index` lies within the table or at its end; the room it names has
/// the identifier asked for, and no room before it has.
pub proof fn lemma_room_index(b: BridgeView, id: IdView)
    ensures
        0 <= b.room_index(id) <= b.rooms.len(),
        b.room_index(id) < b.rooms.len() ==> b.rooms[b.room_index(id)].id == id,
        forall|j: int| 0 <= j < b.room_index(id) ==> (#[trigger] b.rooms[j]).id != id,
{
    let p = |r: RoomView| r.id == id;
    lemma_first_index_where(b.rooms, p);
    assert forall|j: int| 0 <= j < b.room_index(id) implies (#[trigger] b.rooms[j]).id != id by {
        assert(!p(b.rooms[j]));
    }
}

/// Any place that holds the first room with the identifier `id` is
/// `room_index(id)`.
pub proof fn lemma_room_index_unique(b: BridgeView, id: IdView, i: int)
    requires
        0 <= i <= b.rooms.len(),
        i < b.rooms.len() ==> b.rooms[i].id == id,
        forall|j: int| 0 <= j < i ==> (#[trigger] b.rooms[j]).id != id,
    ensures
        b.room_index(id) == i,
{
    let p = |r: RoomView| r.id == id;
    lemma_first_index_where_unique(b.rooms, p, i);
}

/// `channel_index` lies within the table or at its end; the room it names
/// is shown as the channel asked for, and no room before it is.
pub proof fn lemma_channel_index(b: BridgeView, name: Seq<char>)
    ensures
        0 <= b.channel_index(name) <= b.rooms.len(),
        b.channel_index(name) < b.rooms.len() ==> b.rooms[b.channel_index(name)].irc_name == Some(
            name,
        ),
        forall|j: int|
            0 <= j < b.channel_index(name) ==> (#[trigger] b.rooms[j]).irc_name != Some(name),
{
    let p = |r: RoomView| r.irc_name == Some(name);
    lemma_first_index_where(b.rooms, p);
    assert forall|j: int| 0 <= j < b.channel_index(name) implies (#[trigger] b.rooms[j]).irc_name
        != Some(name) by {
        assert(!p(b.rooms[j]));
    }
}

/// Any place that holds the first room shown as channel `name` is
/// `channel_index(name)`.
pub proof fn lemma_channel_index_unique(b: BridgeView, name: Seq<char>, i: int)
    requires
        0 <= i <= b.rooms.len(),
        i < b.rooms.len() ==> b.rooms[i].irc_name == Some(name),
        forall|j: int| 0 <= j < i ==> (#[trigger] b.rooms[j]).irc_name != Some(name),
    ensures
        b.channel_index(name) == i,
{
    let p = |r: RoomView| r.irc_name == Some(name);
    lemma_first_index_where_unique(b.rooms, p, i);
}

/// Putting a well-formed room in the place of one with the same identifier
/// keeps the gateway well formed.
pub proof fn lemma_put_room_wf(b: BridgeView, k: int, room: RoomView)
    requires
        b.wf(),
        0 <= k < b.rooms.len(),
        room.wf(),
        room.id == b.rooms[k].id,
    ensures
        b.put_room(k, room).wf(),
{
    let after = b.put_room(k, room);
    assert forall|i: int, j: int|
        0 <= i < after.rooms.len() && 0 <= j < after.rooms.len() && i != j implies (
    #[trigger] after.rooms[i]).id != (#[trigger] after.rooms[j]).id by {
        assert(after.rooms[i].id == b.rooms[i].id);
        assert(after.rooms[j].id == b.rooms[j].id);
    }
}

/// Getting or creating a room keeps the gateway well formed, and the room
/// stands where `room_index` says.
pub proof fn lemma_with_room(b: BridgeView, id: IdView)
    requires
        b.wf(),
    ensures
        b.with_room(id).wf(),
        0 <= b.room_index(id) < b.with_room(id).rooms.len(),
        b.with_room(id).rooms[b.room_index(id)].id == id,
        b.with_room(id).room_index(id) == b.room_index(id),
{
    lemma_room_index(b, id);
    let with = b.with_room(id);
    let k = b.room_index(id);
    if k == b.rooms.len() {
        assert forall|i: int, j: int|
            0 <= i < with.rooms.len() && 0 <= j < with.rooms.len() && i != j implies (
        #[trigger] with.rooms[i]).id != (#[trigger] with.rooms[j]).id by {
            if i < k {
                assert(with.rooms[i] == b.rooms[i]);
            }
            if j < k {
                assert(with.rooms[j] == b.rooms[j]);
            }
        }
        assert forall|j: int| 0 <= j < k implies (#[trigger] with.rooms[j]).id != id by {
            assert(with.rooms[j] == b.rooms[j]);
        }
        lemma_room_index_unique(with, id, k);
    }
}

/// Ending the synchronisation keeps the table's length and every room's
/// identifier; a room that was pending has been finished, any other is as it
/// was; and a well-formed gateway stays well formed.
pub proof fn lemma_finish_sync_all(rooms: Seq<RoomView>, me: IdView)
    ensures
        finish_sync_all(rooms, me).0.len() == rooms.len(),
        forall|i: int|
            0 <= i < rooms.len() ==> #[trigger] finish_sync_all(rooms, me).0[i] == (if rooms[i].pending_sync {
                rooms[i].finish_sync(me).0
            } else {
                rooms[i]
            }),
    decreases rooms.len(),
{
    if rooms.len() > 0 {
        lemma_finish_sync_all(rooms.drop_last(), me);
        let after = finish_sync_all(rooms, me).0;
        let earlier = finish_sync_all(rooms.drop_last(), me).0;
        assert forall|i: int| 0 <= i < rooms.len() implies #[trigger] after[i] == (if rooms[i].pending_sync {
            rooms[i].finish_sync(me).0
        } else {
            rooms[i]
        }) by {
            if i < rooms.len() - 1 {
                assert(after[i] == earlier[i]);
                assert(rooms.drop_last()[i] == rooms[i]);
            }
        }
    }
}

/// Dispatching a payload keeps a well-formed gateway well formed.
pub proof fn lemma_dispatch_wf(b: BridgeView, data: EventDataView)
    requires
        b.wf(),
    ensures
        b.dispatch(data).0.wf(),
        b.dispatch(data).0.seen_events == b.seen_events,
        b.dispatch(data).0.matrix == b.matrix,
{
    match data {
        EventDataView::Room(id, evt) => {
            lemma_with_room(b, id);
            let k = b.room_index(id);
            let with = b.with_room(id);
            lemma_apply_preserves_wf(with.rooms[k], evt);
            lemma_put_room_wf(with, k, with.rooms[k].apply(evt).0);
        },
        EventDataView::EndOfSync => {
            if b.matrix.uid is Some {
                let me = b.matrix.uid->0;
                lemma_finish_sync_all(b.rooms, me);
                let after = b.dispatch(data).0;
                assert forall|i: int| 0 <= i < after.rooms.len() implies (#[trigger] after.rooms[i]).wf()
                    && after.rooms[i].id == b.rooms[i].id by {
                    lemma_finish_sync_activates(b.rooms[i], me);
                }
                assert forall|i: int, j: int|
                    0 <= i < after.rooms.len() && 0 <= j < after.rooms.len() && i != j implies (
                #[trigger] after.rooms[i]).id != (#[trigger] after.rooms[j]).id by {
                    assert(after.rooms[i].id == b.rooms[i].id);
                    assert(after.rooms[j].id == b.rooms[j].id);
                }
            }
        },
        _ => {},
    }
}

/// Handling an event keeps a well-formed gateway well formed.
pub proof fn lemma_handle_matrix_wf(b: BridgeView, evt: EventView)
    requires
        b.wf(),
    ensures
        b.handle_matrix(evt).0.wf(),
{
    lemma_dispatch_wf(b, evt.data);
}

/// Whatever is in the ledger stays in it, and an event that has been handled
/// is in it if it has an identifier.
pub proof fn lemma_ledger_grows(b: BridgeView, evt: EventView, id: IdView)
    requires
        b.seen_events.contains(id) || evt.id == Some(id),
    ensures
        b.handle_matrix(evt).0.seen_events.contains(id),
{
    let after = b.handle_matrix(evt).0;
    if evt.id is Some && b.seen_events.contains(evt.id->0) {
    } else {
        let next = b.dispatch(evt.data).0;
        assert(next.seen_events == b.seen_events);
        if b.seen_events.contains(id) {
            let i = choose|i: int| 0 <= i < b.seen_events.len() && b.seen_events[i] == id;
            assert(after.seen_events[i] == id);
        } else {
            assert(after.seen_events.last() == id);
        }
    }
}

/// An event whose identifier is in the ledger changes nothing and sends
/// nothing.
pub proof fn lemma_seen_is_dropped(b: BridgeView, evt: EventView)
    requires
        evt.id is Some,
        b.seen_events.contains(evt.id->0),
    ensures
        b.handle_matrix(evt) == (b, Seq::<MessageView>::empty()),
{
}

/// An event with an identifier that is delivered twice in a row sends
/// nothing and changes nothing the second time.
pub proof fn lemma_delivered_twice(b: BridgeView, evt: EventView)
    requires
        evt.id is Some,
    ensures
        b.handle_matrix(evt).0.handle_matrix(evt) == (
            b.handle_matrix(evt).0,
            Seq::<MessageView>::empty(),
        ),
{
    lemma_ledger_grows(b, evt, evt.id->0);
}

/// An event with an identifier that is delivered again after any other has
/// been handled in between sends nothing and changes nothing.
pub proof fn lemma_delivered_again(b: BridgeView, evt: EventView, between: EventView)
    requires
        evt.id is Some,
    ensures
        ({
            let later = b.handle_matrix(evt).0.handle_matrix(between).0;
            later.handle_matrix(evt) == (later, Seq::<MessageView>::empty())
        }),
{
    lemma_ledger_grows(b, evt, evt.id->0);
    lemma_ledger_grows(b.handle_matrix(evt).0, between, evt.id->0);
}

/// No room ever leaves the table or changes its place or its identifier.
pub proof fn lemma_rooms_stay(b: BridgeView, evt: EventView)
    ensures
        b.handle_matrix(evt).0.rooms.len() >= b.rooms.len(),
        forall|i: int|
            0 <= i < b.rooms.len() ==> (#[trigger] b.handle_matrix(evt).0.rooms[i]).id
                == b.rooms[i].id,
{
    let after = b.handle_matrix(evt).0;
    if evt.id is Some && b.seen_events.contains(evt.id->0) {
    } else {
        match evt.data {
            EventDataView::Room(id, e) => {
                lemma_room_index(b, id);
                let k = b.room_index(id);
                let with = b.with_room(id);
                assert(with.rooms[k].id == id);
                assert forall|i: int| 0 <= i < b.rooms.len() implies (#[trigger] after.rooms[i]).id
                    == b.rooms[i].id by {
                    if i == k {
                        let room = with.rooms[k];
                        assert(room.apply(e).0.id == room.id) by {
                            match e {
                                RoomEventView::Membership(user, MembershipAction::Leave) => {},
                                _ => {},
                            }
                        }
                    }
                }
            },
            EventDataView::EndOfSync => {
                if b.matrix.uid is Some {
                    lemma_finish_sync_all(b.rooms, b.matrix.uid->0);
                }
            },
            _ => {},
        }
    }
}

/// Handling a batch of events keeps a well-formed gateway well formed.
pub proof fn lemma_handle_all_wf(b: BridgeView, events: Seq<EventView>)
    requires
        b.wf(),
    ensures
        b.handle_all(events).0.wf(),
    decreases events.len(),
{
    if events.len() > 0 {
        lemma_handle_all_wf(b, events.drop_last());
        lemma_handle_matrix_wf(b.handle_all(events.drop_last()).0, events.last());
    }
}

/// Whatever is in the ledger stays in it through a batch of events.
pub proof fn lemma_ledger_keeps(b: BridgeView, events: Seq<EventView>, id: IdView)
    requires
        b.seen_events.contains(id),
    ensures
        b.handle_all(events).0.seen_events.contains(id),
    decreases events.len(),
{
    if events.len() > 0 {
        lemma_ledger_keeps(b, events.drop_last(), id);
        lemma_ledger_grows(b.handle_all(events.drop_last()).0, events.last(), id);
    }
}

/// An event whose identifier is in the ledger counts for nothing in a batch:
/// the batch does what it would do without it.
pub proof fn lemma_seen_in_batch_is_dropped(b: BridgeView, events: Seq<EventView>, i: int)
    requires
        0 <= i < events.len(),
        events[i].id is Some,
        b.seen_events.contains(events[i].id->0),
    ensures
        b.handle_all(events) == b.handle_all(events.remove(i)),
    decreases events.len(),
{
    let earlier = events.drop_last();
    if i == events.len() - 1 {
        lemma_ledger_keeps(b, earlier, events[i].id->0);
        assert(events.remove(i) =~= earlier);
        assert(b.handle_all(earlier).1 + Seq::<MessageView>::empty() =~= b.handle_all(earlier).1);
    } else {
        lemma_seen_in_batch_is_dropped(b, earlier, i);
        assert(events.remove(i).drop_last() =~= earlier.remove(i));
        assert(events.remove(i).last() == events.last());
    }
}

/// Once the identifier of an event that the gateway has sent is in the
/// ledger, a batch that holds the event does what it would do without it.
pub proof fn lemma_own_echo_in_batch(b: BridgeView, id: IdView, events: Seq<EventView>, i: int)
    requires
        0 <= i < events.len(),
        events[i].id == Some(id),
    ensures
        b.record(id).handle_all(events) == b.record(id).handle_all(events.remove(i)),
{
    assert(b.record(id).seen_events.last() == id);
    lemma_seen_in_batch_is_dropped(b.record(id), events, i);
}

/// Once the identifier of an event that the gateway has sent is in the
/// ledger, the event changes nothing and sends nothing when the room service
/// delivers it.
pub proof fn lemma_own_echo_is_dropped(b: BridgeView, id: IdView, evt: EventView)
    requires
        evt.id == Some(id),
    ensures
        b.record(id).handle_matrix(evt) == (b.record(id), Seq::<MessageView>::empty()),
{
    assert(b.record(id).seen_events.last() == id);
}

} // verus!
