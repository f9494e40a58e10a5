//! Translation between the two protocols.
//!
//! Towards the channel protocol, an event of a room becomes at most one
//! message, sent in the name of the acting user to the channel that stands
//! for the room. Towards the room service, a line of chat becomes a request
//! to send a message event into a room.

use vstd::prelude::*;
use vstd::string::StringExecFns;
use crate::irc::protocol::{Command, Message, MessageView};
use crate::matrix::events::{EventData, EventDataView, RoomEvent, RoomEventView};
use crate::matrix::model::{IdView, RoomID, UserID};
use crate::text::{joined, push_char};

verus! {

/// The sender prefix of a user: `nickname!nickname@homeserver`.
pub open spec fn spec_hostmask(user: IdView) -> Seq<char> {
    user.local + seq!['!'] + user.local + seq!['@'] + user.homeserver
}

/// A message in the name of `sender`, addressed to `channel`.
pub open spec fn spec_relayed(
    sender: IdView,
    command: Command,
    channel: Seq<char>,
    suffix: Option<Seq<char>>,
) -> MessageView {
    MessageView { prefix: Some(spec_hostmask(sender)), command, args: seq![channel], suffix }
}

/// The name under which the gateway itself speaks.
pub open spec fn spec_server_name() -> Seq<char> {
    seq!['p', 't', 'o']
}

/// The nicknames of `members`, in order.
pub open spec fn spec_nicknames(members: Seq<IdView>) -> Seq<Seq<char>> {
    members.map_values(|u: IdView| u.local)
}

/// The roster of `channel` as told to `me`: numeric 353 from the gateway,
/// with the nicknames of `members` separated by single spaces.
pub open spec fn spec_names_reply(me: IdView, channel: Seq<char>, members: Seq<IdView>) -> MessageView {
    MessageView {
        prefix: Some(spec_server_name()),
        command: Command::Numeric(353),
        args: seq![me.local, seq!['@'], channel],
        suffix: Some(joined(spec_nicknames(members), seq![' '])),
    }
}

/// What an event of a room looks like in `channel`: a line of chat, a change
/// of topic, or nothing.
pub open spec fn spec_to_irc(channel: Seq<char>, evt: RoomEventView) -> Option<MessageView> {
    match evt {
        RoomEventView::Message(user, text) => Some(
            spec_relayed(user, Command::Privmsg, channel, Some(text)),
        ),
        RoomEventView::Topic(user, topic) => Some(
            spec_relayed(user, Command::Topic, channel, Some(topic)),
        ),
        _ => None,
    }
}

/// The request to say `text` in `room` as `sender`.
pub open spec fn spec_to_matrix(room: IdView, sender: IdView, text: Seq<char>) -> EventDataView {
    EventDataView::Room(room, RoomEventView::Message(sender, text))
}

/// The name under which the gateway itself speaks.
pub fn server_name() -> (r: String)
    ensures
        r@ == spec_server_name(),
{
    let r = String::from_str("pto");
    proof {
        reveal_strlit("pto");
        assert(r@ =~= spec_server_name());
    }
    r
}

/// The sender prefix of `user`.
pub fn hostmask(user: &UserID) -> (r: String)
    ensures
        r@ == spec_hostmask(user@),
{
    let mut r = user.nickname.clone();
    push_char(&mut r, '!');
    r.append(user.nickname.as_str());
    push_char(&mut r, '@');
    r.append(user.homeserver.as_str());
    r
}

/// A message in the name of `sender`, addressed to `channel`.
pub fn relayed(sender: &UserID, command: Command, channel: &String, suffix: Option<String>) -> (m:
    Message)
    ensures
        m@ == spec_relayed(sender@, command, channel@, suffix.deep_view()),
{
    let mut args: Vec<String> = Vec::new();
    args.push(channel.clone());
    assert(args.deep_view() =~= seq![channel@]);
    Message { prefix: Some(hostmask(sender)), command, args, suffix }
}

/// The roster of `channel` as told to `me`.
pub fn names_reply(me: &UserID, channel: &String, members: &Vec<UserID>) -> (m: Message)
    ensures
        m@ == spec_names_reply(me@, channel@, members.deep_view()),
{
    let ghost nicks = spec_nicknames(members.deep_view());
    let mut names = String::new();
    let n: usize = members.len();
    let mut i: usize = 0;
    while i < n
        invariant
            n == members.len(),
            i <= n,
            nicks == spec_nicknames(members.deep_view()),
            names@ == joined(nicks.take(i as int), seq![' ']),
        decreases n - i,
    {
        if i > 0 {
            push_char(&mut names, ' ');
        }
        names.append(members[i].nickname.as_str());
        proof {
            let next = nicks.take(i + 1);
            assert(next.drop_last() =~= nicks.take(i as int));
            assert(next.last() == members[i as int].nickname@);
        }
        i += 1;
    }
    assert(nicks.take(n as int) =~= nicks);
    let mut args: Vec<String> = Vec::new();
    args.push(me.nickname.clone());
    let mut at = String::new();
    push_char(&mut at, '@');
    args.push(at);
    args.push(channel.clone());
    assert(args.deep_view() =~= seq![me@.local, seq!['@'], channel@]);
    Message { prefix: Some(server_name()), command: Command::Numeric(353), args, suffix: Some(names) }
}

/// What `evt` looks like in `channel`.
pub fn to_irc(channel: &String, evt: RoomEvent) -> (r: Option<Message>)
    ensures
        r.deep_view() == spec_to_irc(channel@, evt@),
{
    match evt {
        RoomEvent::Message(user, text) => Some(relayed(&user, Command::Privmsg, channel, Some(text))),
        RoomEvent::Topic(user, topic) => Some(relayed(&user, Command::Topic, channel, Some(topic))),
        _ => None,
    }
}

/// The request to say `text` in `room` as `sender`.
pub fn to_matrix(room: RoomID, sender: UserID, text: String) -> (r: EventData)
    ensures
        r@ == spec_to_matrix(room@, sender@, text@),
{
    EventData::Room(room, RoomEvent::Message(sender, text))
}

} // verus!
