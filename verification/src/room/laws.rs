//! What holds of a room whatever it is given: it stays well formed, it
//! becomes active once and stays so, and what it buffers comes out in order.

use vstd::prelude::*;
use crate::irc::protocol::{Command, MessageView};
use crate::matrix::events::{MembershipAction, RoomEventView};
use crate::matrix::model::IdView;
use crate::room::model::{first_home_alias, home_suffix, RoomView};
use crate::text::{
    first_index_of, is_suffix_of, lemma_first_index_of_contains, lemma_first_index_where,
    lemma_first_index_where_unique,
};
use crate::translate::spec_relayed;

verus! {

/// Any index that holds the first of `aliases` on `homeserver` is
/// `first_home_alias(aliases, homeserver)`.
pub proof fn lemma_first_home_alias_unique(aliases: Seq<Seq<char>>, homeserver: Seq<char>, i: int)
    requires
        0 <= i <= aliases.len(),
        i < aliases.len() ==> is_suffix_of(home_suffix(homeserver), aliases[i]),
        forall|j: int| 0 <= j < i ==> !is_suffix_of(home_suffix(homeserver), #[trigger] aliases[j]),
    ensures
        first_home_alias(aliases, homeserver) == i,
{
    let p = |a: Seq<char>| is_suffix_of(home_suffix(homeserver), a);
    lemma_first_index_where_unique(aliases, p, i);
}

/// Every step of a room keeps what holds of every room.
pub proof fn lemma_apply_preserves_wf(room: RoomView, evt: RoomEventView)
    requires
        room.wf(),
    ensures
        room.apply(evt).0.wf(),
        room.apply(evt).0.id == room.id,
        room.apply(evt).0.pending_sync == room.pending_sync,
        room.apply(evt).0.irc_name == room.irc_name,
{
    match evt {
        RoomEventView::Membership(user, MembershipAction::Leave) => {
            if room.members.contains(user) {
                lemma_first_index_of_contains(room.members, user);
                let k = first_index_of(room.members, user);
                let after = room.members.remove(k);
                assert forall|i: int, j: int|
                    0 <= i < after.len() && 0 <= j < after.len() && i != j implies after[i]
                    != after[j] by {
                    let oi = if i < k { i } else { i + 1 };
                    let oj = if j < k { j } else { j + 1 };
                    assert(after[i] == room.members[oi]);
                    assert(after[j] == room.members[oj]);
                }
            }
        },
        _ => {},
    }
}

/// Ending the synchronisation of a pending room makes it active, under a
/// name, with an empty buffer.
pub proof fn lemma_finish_sync_activates(room: RoomView, me: IdView)
    requires
        room.wf(),
    ensures
        room.finish_sync(me).0.wf(),
        !room.finish_sync(me).0.pending_sync,
        room.finish_sync(me).0.id == room.id,
        room.finish_sync(me).0.irc_name == Some(room.resolve_name(me.homeserver)),
        room.finish_sync(me).0.members == room.members,
{
}

/// Chat that reaches a pending room is sent to nobody at first. When the
/// synchronisation ends it comes out after everything that the room would
/// have sent without it: after the join, the roster and whatever was
/// buffered before. The room ends up the same either way.
pub proof fn lemma_buffer_then_flush(room: RoomView, user: IdView, text: Seq<char>, me: IdView)
    requires
        room.wf(),
        room.pending_sync,
    ensures
        room.apply(RoomEventView::Message(user, text)).1 == Seq::<MessageView>::empty(),
        room.apply(RoomEventView::Message(user, text)).0.finish_sync(me).0 == room.finish_sync(
            me,
        ).0,
        room.apply(RoomEventView::Message(user, text)).0.finish_sync(me).1 == room.finish_sync(
            me,
        ).1.push(
            spec_relayed(user, Command::Privmsg, room.resolve_name(me.homeserver), Some(text)),
        ),
{
    let evt = RoomEventView::Message(user, text);
    let buffered = room.apply(evt).0;
    let name = room.resolve_name(me.homeserver);
    assert(buffered.pending_events.drop_last() =~= room.pending_events);
    assert(buffered.finish_sync(me).1 =~= room.finish_sync(me).1.push(
        spec_relayed(user, Command::Privmsg, name, Some(text)),
    ));
}

/// Of two joins of the same user in a row only the first can be announced,
/// the second changes nothing, and the user is in the roster once.
pub proof fn lemma_join_twice(room: RoomView, user: IdView)
    requires
        room.wf(),
    ensures
        ({
            let join = RoomEventView::Membership(user, MembershipAction::Join);
            let once = room.apply(join).0;
            &&& once.apply(join) == (once, Seq::<MessageView>::empty())
            &&& once.members.contains(user)
            &&& forall|i: int, j: int|
                0 <= i < once.members.len() && 0 <= j < once.members.len() && once.members[i]
                    == user && once.members[j] == user ==> i == j
        }),
{
    let join = RoomEventView::Membership(user, MembershipAction::Join);
    let once = room.apply(join).0;
    lemma_apply_preserves_wf(room, join);
    if !room.members.contains(user) {
        assert(once.members.last() == user);
    }
}

/// In an active room a line of chat becomes exactly one message: to the
/// room's channel, in the name of who said it, with what was said; and the
/// room is as it was.
pub proof fn lemma_chat_is_relayed(room: RoomView, user: IdView, text: Seq<char>)
    requires
        room.irc_name is Some,
    ensures
        room.apply(RoomEventView::Message(user, text)) == (
            room,
            seq![
                MessageView {
                    prefix: Some(
                        user.local + seq!['!'] + user.local + seq!['@'] + user.homeserver,
                    ),
                    command: Command::Privmsg,
                    args: seq![room.irc_name->0],
                    suffix: Some(text),
                },
            ],
        ),
{
}

/// A room with an alias on the local user's homeserver is named by the
/// first such alias, whatever its canonical alias and its other aliases.
pub proof fn lemma_home_alias_wins(room: RoomView, homeserver: Seq<char>, k: int)
    requires
        0 <= k < room.aliases.len(),
        is_suffix_of(home_suffix(homeserver), room.aliases[k]),
    ensures
        first_home_alias(room.aliases, homeserver) <= k,
        room.resolve_name(homeserver) == room.aliases[first_home_alias(room.aliases, homeserver)],
        is_suffix_of(home_suffix(homeserver), room.resolve_name(homeserver)),
{
    let p = |a: Seq<char>| is_suffix_of(home_suffix(homeserver), a);
    lemma_first_index_where(room.aliases, p);
    let first = first_home_alias(room.aliases, homeserver);
    if first > k {
        assert(!p(room.aliases[k]));
    }
    assert(p(room.aliases[first]));
}

/// A room without any alias is named after its identifier.
pub proof fn lemma_fallback_name(room: RoomView, homeserver: Seq<char>)
    requires
        room.aliases.len() == 0,
        room.canonical_alias is None,
    ensures
        room.resolve_name(homeserver) == seq!['#'] + room.id.local + seq![':']
            + room.id.homeserver,
{
}

} // verus!
