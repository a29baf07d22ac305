//! What happens to the messages, said of every call.
//!
//! A call is spoken of by what it was given and what it gave back: `call_ensures` of the function,
//! its arguments and its result.
use crate::clock::is_clock_reading;
use crate::config::HistoryLength;
use crate::conversation::{
    is_receipt, is_received, is_shown, lemma_unread_push, message_is_shown, shown, unread,
    Conversation, ConversationModel,
};
use crate::conversation_id::{ConversationId, MessageId, NodeId};
use crate::device::Action;
use crate::history::{
    distinct_ids, has_message, is_inserted, is_place_for, lemma_filter_drops_all,
    lemma_filter_keeps_all, position_of, trimmed, without, MessageLog,
};
use crate::laws::lemma_position;
use crate::message::{EmojiReplies, MCContent, MCMessage, MessageModel};
use crate::timestamp::{Duration, TimeStamp, LATEST_MILLIS};
use vstd::prelude::*;
use vstd::utf8::encode_utf8;

verus! {

/// Whether the messages after are those before with a new one at a place: without the new one they
/// are the messages before that have another id, in their order, and no newer message stands
/// above it and no older one below it.
pub open spec fn stands_at(
    before: Seq<MessageModel>,
    message: MessageModel,
    after: Seq<MessageModel>,
    place: int,
) -> bool {
    &&& 0 <= place < after.len()
    &&& after[place] == message
    &&& after.remove(place) == before.filter(|m: MessageModel| m.id != message.id)
    &&& forall|i: int| 0 <= i < place ==> (#[trigger] after[i]).time.0 <= message.time.0
    &&& forall|i: int| place < i < after.len() ==> (#[trigger] after[i]).time.0 >= message.time.0
}

/// The milliseconds of a duration.
pub open spec fn limit_of(duration: Duration) -> int {
    duration.secs * 1000 + duration.nanos as int / 1_000_000
}

/// Whether the messages after are what a history of this length keeps of all messages, at the time
/// `now`: the last ones up to the number, or those that are no older than the duration.
pub open spec fn is_kept_of(
    all: Seq<MessageModel>,
    history_length: HistoryLength,
    now: TimeStamp,
    after: Seq<MessageModel>,
) -> bool {
    match history_length {
        HistoryLength::All => after == all,
        HistoryLength::NumberOfMessages(number) => {
            let dropped = if all.len() > number { all.len() - number } else { 0 };
            after == all.subrange(dropped, all.len() as int)
        },
        HistoryLength::Duration(duration) => after == all.filter(
            |m: MessageModel| now.0 - m.time.0 <= limit_of(duration),
        ),
    }
}

/// Whether the messages after are what a history of this length keeps of those before and a new
/// one in its place.
pub open spec fn is_history_with(
    before: Seq<MessageModel>,
    message: MessageModel,
    history_length: HistoryLength,
    now: TimeStamp,
    after: Seq<MessageModel>,
) -> bool {
    exists|all: Seq<MessageModel>, place: int|
        #[trigger] stands_at(before, message, all, place) && is_kept_of(
            all,
            history_length,
            now,
            after,
        )
}

/// Taking the message with an id out leaves the messages with other ids.
proof fn lemma_without_is_filter(messages: Seq<MessageModel>, id: MessageId)
    requires
        distinct_ids(messages),
    ensures
        without(messages, id) == messages.filter(|m: MessageModel| m.id != id),
{
    let keeps = |m: MessageModel| m.id != id;
    if has_message(messages, id) {
        let p = position_of(messages, id);
        assert(messages[p].id == id);
        let above = messages.subrange(0, p);
        let one = seq![messages[p]];
        let below = messages.subrange(p + 1, messages.len() as int);
        assert(messages =~= above + (one + below));
        assert(messages.remove(p) =~= above + below);
        Seq::filter_distributes_over_add(above, one + below, keeps);
        Seq::filter_distributes_over_add(one, below, keeps);
        assert forall|i: int| 0 <= i < above.len() implies keeps(#[trigger] above[i]) by {
            assert(above[i] == messages[i]);
        }
        assert forall|i: int| 0 <= i < below.len() implies keeps(#[trigger] below[i]) by {
            assert(below[i] == messages[p + 1 + i]);
        }
        lemma_filter_keeps_all(above, keeps);
        lemma_filter_keeps_all(below, keeps);
        lemma_filter_drops_all(one, keeps);
        assert(messages.filter(keeps) =~= above + below);
    } else {
        assert forall|i: int| 0 <= i < messages.len() implies keeps(#[trigger] messages[i]) by {
            assert(messages[i].id != id);
        }
        lemma_filter_keeps_all(messages, keeps);
    }
}

proof fn lemma_stands_at(
    before: Seq<MessageModel>,
    message: MessageModel,
    after: Seq<MessageModel>,
    place: int,
)
    requires
        distinct_ids(before),
        is_place_for(without(before, message.id), place, message.time),
        after == without(before, message.id).insert(place, message),
    ensures
        stands_at(before, message, after, place),
{
    let rest = without(before, message.id);
    lemma_without_is_filter(before, message.id);
    assert(after.remove(place) =~= rest);
    assert forall|i: int| 0 <= i < place implies (#[trigger] after[i]).time.0 <= message.time.0 by {
        assert(after[i] == rest[i]);
    }
    assert forall|i: int| place < i < after.len() implies (#[trigger] after[i]).time.0
        >= message.time.0 by {
        assert(after[i] == rest[i - 1]);
    }
}

proof fn lemma_kept_of(all: Seq<MessageModel>, history_length: HistoryLength, now: TimeStamp)
    ensures
        is_kept_of(all, history_length, now, trimmed(all, history_length, now)),
{
    match history_length {
        HistoryLength::All => {},
        HistoryLength::NumberOfMessages(number) => {
            let dropped = if all.len() > number { all.len() - number } else { 0 };
            assert(trimmed(all, history_length, now) =~= all.subrange(dropped, all.len() as int));
        },
        HistoryLength::Duration(duration) => {
            let f = |m: MessageModel| m.time.0 >= now.0 - duration.millis();
            let g = |m: MessageModel| now.0 - m.time.0 <= limit_of(duration);
            assert(f =~= g);
        },
    }
}

proof fn lemma_history_with(
    before: Seq<MessageModel>,
    message: MessageModel,
    history_length: HistoryLength,
    now: TimeStamp,
    after: Seq<MessageModel>,
)
    requires
        distinct_ids(before),
        !(message.content is EmojiReply),
        is_received(before, message, history_length, now, after),
    ensures
        is_history_with(before, message, history_length, now, after),
{
    let all = choose|all: Seq<MessageModel>|
        #[trigger] is_inserted(before, message, all) && after == trimmed(all, history_length, now);
    let rest = without(before, message.id);
    let place = choose|place: int|
        #[trigger] is_place_for(rest, place, message.time) && all == rest.insert(place, message);
    lemma_stands_at(before, message, all, place);
    lemma_kept_of(all, history_length, now);
    assert(stands_at(before, message, all, place));
}

/// A message that comes in at a given time, other than an emoji in reply, takes its place by time
/// in place of one with the same id, and the history keeps what it has room for at that time.
/// Nothing else changes, and the screen scrolls to the end where the message is from this node.
pub proof fn law_message_at(
    conversation: &mut Conversation,
    message: MCMessage,
    history_length: &HistoryLength,
    now: TimeStamp,
    action: Action,
)
    requires
        old(conversation).wf(),
        !(message@.content is EmojiReply),
        call_ensures(
            Conversation::new_message_at,
            (conversation, message, history_length, now),
            action,
        ),
    ensures
        is_history_with(
            old(conversation).model().messages,
            message@,
            *history_length,
            now,
            final(conversation).model().messages,
        ),
        final(conversation).model() == (ConversationModel {
            messages: final(conversation).model().messages,
            ..old(conversation).model()
        }),
        message@.from == old(conversation).model().my_node_num ==> action is SnapToEnd,
        message@.from != old(conversation).model().my_node_num ==> action is Nothing,
{
    old(conversation).law_invariant();
    lemma_history_with(
        old(conversation).model().messages,
        message@,
        *history_length,
        now,
        final(conversation).model().messages,
    );
}

/// A message is refused at a given time exactly where it is no emoji in reply and the history is
/// longer than the time since the epoch. Then nothing changes. Otherwise it is taken in.
pub proof fn law_try_message_at(
    conversation: &mut Conversation,
    message: MCMessage,
    history_length: &HistoryLength,
    now: TimeStamp,
    action: Option<Action>,
)
    requires
        old(conversation).wf(),
        !(message@.content is EmojiReply),
        call_ensures(
            Conversation::try_new_message_at,
            (conversation, message, history_length, now),
            action,
        ),
    ensures
        action is None <==> (*history_length matches HistoryLength::Duration(duration)
            && limit_of(duration) > now.0),
        action is None ==> final(conversation).model() == old(conversation).model(),
        action matches Some(action) ==> {
            &&& is_history_with(
                old(conversation).model().messages,
                message@,
                *history_length,
                now,
                final(conversation).model().messages,
            )
            &&& final(conversation).model() == (ConversationModel {
                messages: final(conversation).model().messages,
                ..old(conversation).model()
            })
            &&& message@.from == old(conversation).model().my_node_num ==> action is SnapToEnd
            &&& message@.from != old(conversation).model().my_node_num ==> action is Nothing
        },
{
    old(conversation).law_invariant();
    if action is Some {
        lemma_history_with(
            old(conversation).model().messages,
            message@,
            *history_length,
            now,
            final(conversation).model().messages,
        );
    }
}

/// Where the history has no limit of age, every message is taken in, whatever the clock says.
pub proof fn law_message_without_clock(
    conversation: &mut Conversation,
    message: MCMessage,
    history_length: &HistoryLength,
    action: Option<Action>,
)
    requires
        old(conversation).wf(),
        !(message@.content is EmojiReply),
        !(*history_length is Duration),
        call_ensures(Conversation::new_message, (conversation, message, history_length), action),
    ensures
        is_history_with(
            old(conversation).model().messages,
            message@,
            *history_length,
            TimeStamp(0),
            final(conversation).model().messages,
        ),
        final(conversation).model() == (ConversationModel {
            messages: final(conversation).model().messages,
            ..old(conversation).model()
        }),
        action == Some(
            if message@.from == old(conversation).model().my_node_num {
                Action::SnapToEnd
            } else {
                Action::Nothing
            },
        ),
{
    old(conversation).law_invariant();
    let before = old(conversation).model().messages;
    let after = final(conversation).model().messages;
    let now = choose|now: TimeStamp|
        #[trigger] is_received(before, message@, *history_length, now, after);
    assert(exists|now: TimeStamp|
        #[trigger] is_received(before, message@, *history_length, now, after));
    lemma_history_with(before, message@, *history_length, now, after);
    let (all, place) = choose|all: Seq<MessageModel>, place: int|
        #[trigger] stands_at(before, message@, all, place) && is_kept_of(
            all,
            *history_length,
            now,
            after,
        );
    assert(stands_at(before, message@, all, place));
    assert(is_kept_of(all, *history_length, TimeStamp(0), after));
}

/// What comes of a message under a limit of age, by a reading of the clock.
pub open spec fn is_kept_by_clock(
    before: Seq<MessageModel>,
    message: MessageModel,
    duration: Duration,
    now: TimeStamp,
    after: Seq<MessageModel>,
) -> bool {
    &&& is_clock_reading(now.0 as int)
    &&& limit_of(duration) <= now.0
    &&& is_history_with(before, message, HistoryLength::Duration(duration), now, after)
    &&& forall|m: MessageModel| #[trigger]
        after.contains(m) <==> now.0 - m.time.0 <= limit_of(duration) && (m == message || (
        before.contains(m) && m.id != message.id))
}

/// Where the history has a limit of age, the clock decides. There is a reading of it such that,
/// of the new message and the messages with other ids, exactly those stay that are no older than
/// the duration by that reading. A message is refused, and nothing changes, only where by a
/// reading the history is longer than the time since the epoch.
pub proof fn law_message_by_clock(
    conversation: &mut Conversation,
    message: MCMessage,
    duration: Duration,
    history_length: &HistoryLength,
    action: Option<Action>,
)
    requires
        old(conversation).wf(),
        !(message@.content is EmojiReply),
        *history_length == HistoryLength::Duration(duration),
        call_ensures(Conversation::new_message, (conversation, message, history_length), action),
    ensures
        action is Some ==> exists|now: TimeStamp|
            #[trigger] is_kept_by_clock(
                old(conversation).model().messages,
                message@,
                duration,
                now,
                final(conversation).model().messages,
            ),
        action is None ==> final(conversation).model() == old(conversation).model() && exists|
            millis: int,
        | #[trigger] is_clock_reading(millis) && limit_of(duration) > millis,
        final(conversation).model() == (ConversationModel {
            messages: final(conversation).model().messages,
            ..old(conversation).model()
        }),
        action matches Some(action) ==> action == if message@.from == old(
            conversation,
        ).model().my_node_num {
            Action::SnapToEnd
        } else {
            Action::Nothing
        },
{
    old(conversation).law_invariant();
    let before = old(conversation).model().messages;
    let after = final(conversation).model().messages;
    let now = choose|now: TimeStamp|
        now.0 <= LATEST_MILLIS && #[trigger] is_receipt(
            old(conversation).model(),
            message@,
            *history_length,
            now,
            final(conversation).model(),
            action,
        ) && is_clock_reading(now.0 as int);
    if action is Some {
        lemma_history_with(before, message@, *history_length, now, after);
        lemma_young_messages_stay(before, message@, duration, now, after);
        assert(is_kept_by_clock(before, message@, duration, now, after));
    }
}

proof fn lemma_young_messages_stay(
    before: Seq<MessageModel>,
    message: MessageModel,
    duration: Duration,
    now: TimeStamp,
    after: Seq<MessageModel>,
)
    requires
        is_history_with(before, message, HistoryLength::Duration(duration), now, after),
    ensures
        forall|m: MessageModel| #[trigger]
            after.contains(m) <==> now.0 - m.time.0 <= limit_of(duration) && (m == message || (
            before.contains(m) && m.id != message.id)),
{
    let (all, place) = choose|all: Seq<MessageModel>, place: int|
        #[trigger] stands_at(before, message, all, place) && is_kept_of(
            all,
            HistoryLength::Duration(duration),
            now,
            after,
        );
    let young = |m: MessageModel| now.0 - m.time.0 <= limit_of(duration);
    let other = |m: MessageModel| m.id != message.id;
    let rest = all.remove(place);
    assert forall|m: MessageModel| #[trigger]
        after.contains(m) <==> now.0 - m.time.0 <= limit_of(duration) && (m == message || (
        before.contains(m) && m.id != message.id)) by {
        if after.contains(m) {
            all.lemma_filter_contains_rev(young, m);
            all.lemma_filter_pred(young, after.index_of(m));
            let i = all.index_of(m);
            if i != place {
                assert(rest[if i < place { i } else { i - 1 }] == m);
                assert(rest.contains(m));
                before.lemma_filter_contains_rev(other, m);
                before.lemma_filter_pred(other, rest.index_of(m));
            }
        }
        if young(m) && m == message {
            all.lemma_filter_contains(young, place);
        }
        if young(m) && before.contains(m) && m.id != message.id {
            before.lemma_filter_contains(other, before.index_of(m));
            let j = rest.index_of(m);
            let i = if j < place { j } else { j + 1 };
            assert(all[i] == m);
            all.lemma_filter_contains(young, i);
        }
    }
}

/// An emoji in reply to a message that is there is added behind those who sent the same emoji
/// before. Everything else about that message and all other messages stay as they are, whatever
/// the length of the history.
pub proof fn law_emoji_is_added(
    conversation: &mut Conversation,
    message: MCMessage,
    history_length: &HistoryLength,
    i: int,
    action: Option<Action>,
)
    requires
        old(conversation).wf(),
        message@.content is EmojiReply,
        call_ensures(Conversation::new_message, (conversation, message, history_length), action),
        0 <= i < old(conversation).model().messages.len(),
        old(conversation).model().messages[i].id == message@.content->EmojiReply_0,
    ensures
        ({
            let original = old(conversation).model().messages[i];
            let emoji = message@.content->EmojiReply_1@;
            let senders = if original.emojis.contains_key(emoji) {
                original.emojis[emoji]
            } else {
                Seq::<NodeId>::empty()
            };
            final(conversation).model() == (ConversationModel {
                messages: old(conversation).model().messages.update(
                    i,
                    MessageModel {
                        emojis: original.emojis.insert(emoji, senders.push(message@.from)),
                        ..original
                    },
                ),
                ..old(conversation).model()
            })
        }),
        action == Some(
            if message@.from == old(conversation).model().my_node_num {
                Action::SnapToEnd
            } else {
                Action::Nothing
            },
        ),
{
    old(conversation).law_invariant();
    let messages = old(conversation).model().messages;
    lemma_position(messages, i);
    assert(Seq::<NodeId>::empty().push(message@.from) =~= seq![message@.from]);
}

/// An emoji in reply to a message that is not there changes nothing.
pub proof fn law_stray_emoji(
    conversation: &mut Conversation,
    message: MCMessage,
    history_length: &HistoryLength,
    action: Option<Action>,
)
    requires
        old(conversation).wf(),
        message@.content is EmojiReply,
        call_ensures(Conversation::new_message, (conversation, message, history_length), action),
        forall|i: int|
            0 <= i < old(conversation).model().messages.len() ==> (#[trigger] old(
                conversation,
            ).model().messages[i]).id != message@.content->EmojiReply_0,
    ensures
        final(conversation).model() == old(conversation).model(),
        action == Some(
            if message@.from == old(conversation).model().my_node_num {
                Action::SnapToEnd
            } else {
                Action::Nothing
            },
        ),
{
}

/// Acknowledging makes the message with the id acknowledged, whoever it is from and whenever it
/// was sent, and changes nothing else.
pub proof fn law_ack(conversation: &mut Conversation, id: MessageId)
    requires
        old(conversation).wf(),
        call_ensures(Conversation::ack, (conversation, id), ()),
    ensures
        final(conversation).model() == (ConversationModel {
            messages: old(conversation).model().messages.map_values(
                |m: MessageModel|
                    if m.id == id {
                        MessageModel { acked: true, ..m }
                    } else {
                        m
                    },
            ),
            ..old(conversation).model()
        }),
{
    old(conversation).law_invariant();
    let before = old(conversation).model().messages;
    let change = |m: MessageModel|
        if m.id == id {
            MessageModel { acked: true, ..m }
        } else {
            m
        };
    let after = final(conversation).model().messages;
    if has_message(before, id) {
        let p = position_of(before, id);
        assert(before[p].id == id);
        assert forall|i: int| 0 <= i < before.len() implies after[i] == change(before[i]) by {
            if i != p {
                assert(before[i].id != before[p].id);
            }
        }
    } else {
        assert forall|i: int| 0 <= i < before.len() implies after[i] == change(before[i]) by {
            assert(before[i].id != id);
        }
    }
    assert(after =~= before.map_values(change));
}

/// A message counts unless it is a position and positions are hidden, or tells about a user and
/// these are hidden.
pub open spec fn counts(content: MCContent, positions: bool, users: bool) -> bool {
    match content {
        MCContent::AlertMessage(_) => true,
        MCContent::NewTextMessage(_) => true,
        MCContent::TextMessageReply(_, _) => true,
        MCContent::EmojiReply(_, _) => true,
        MCContent::PositionMessage(_) => positions,
        MCContent::UserMessage(_) => users,
    }
}

/// The messages that are shown are those that count, in their order.
pub proof fn lemma_shown(messages: Seq<MessageModel>, positions: bool, users: bool)
    ensures
        shown(messages, positions, users) == messages.filter(
            |m: MessageModel| counts(m.content, positions, users),
        ),
{
    let f = |m: MessageModel| is_shown(m, positions, users);
    let g = |m: MessageModel| counts(m.content, positions, users);
    assert(f =~= g);
}

proof fn lemma_filter_twice(
    messages: Seq<MessageModel>,
    f: spec_fn(MessageModel) -> bool,
    g: spec_fn(MessageModel) -> bool,
)
    ensures
        messages.filter(f).filter(g) == messages.filter(|m: MessageModel| f(m) && g(m)),
    decreases messages.len(),
{
    reveal(Seq::filter);
    if messages.len() > 0 {
        lemma_filter_twice(messages.drop_last(), f, g);
        let once = messages.drop_last().filter(f);
        assert(once.push(messages.last()).drop_last() =~= once);
    }
}

/// The number of unread messages is the number of messages that count and were not seen.
pub proof fn law_unread_count(
    conversation: &Conversation,
    positions: bool,
    users: bool,
    count: usize,
)
    requires
        call_ensures(Conversation::unread_count, (conversation, positions, users), count),
    ensures
        count == conversation.model().messages.filter(
            |m: MessageModel| counts(m.content, positions, users) && !m.seen,
        ).len(),
{
    let messages = conversation.model().messages;
    let f = |m: MessageModel| counts(m.content, positions, users);
    let g = |m: MessageModel| !m.seen;
    lemma_shown(messages, positions, users);
    lemma_filter_twice(messages, f, g);
    let h = |m: MessageModel| counts(m.content, positions, users) && !m.seen;
    assert((|m: MessageModel| f(m) && g(m)) =~= h);
}

/// A text, an alert and a text in reply count as unread until they are seen, whatever is hidden.
/// A position counts where positions are not hidden, and what tells about a user where that is
/// not: the one setting makes no difference to the other.
pub proof fn law_unread_of_one_more(
    messages: Seq<MessageModel>,
    message: MessageModel,
    positions: bool,
    users: bool,
)
    ensures
        ({
            let one = if message.seen { 0nat } else { 1nat };
            let more = unread(messages.push(message), positions, users);
            let before = unread(messages, positions, users);
            match message.content {
                MCContent::PositionMessage(_) => more == before + if positions { one } else { 0 },
                MCContent::UserMessage(_) => more == before + if users { one } else { 0 },
                _ => more == before + one,
            }
        }),
        unread(Seq::empty(), positions, users) == 0,
{
    reveal(Seq::filter);
    lemma_unread_push(messages, message, positions, users);
}

/// A message that is there is found by its id, and by no other.
pub proof fn law_find(
    log: &MessageLog,
    id: &MessageId,
    found: Option<&MCMessage>,
    contains: bool,
)
    requires
        log.wf(),
        call_ensures(MessageLog::get, (log, id), found),
        call_ensures(MessageLog::contains_key, (log, id), contains),
    ensures
        forall|i: int|
            0 <= i < log@.len() && (#[trigger] log@[i]).id == *id ==> contains && (
            found matches Some(message) && message@ == log@[i]),
        (forall|i: int| 0 <= i < log@.len() ==> (#[trigger] log@[i]).id != *id) ==> !contains
            && found is None,
{
    log.lemma_wf();
    assert forall|i: int| 0 <= i < log@.len() && (#[trigger] log@[i]).id == *id implies contains && (
    found matches Some(message) && message@ == log@[i]) by {
        lemma_position(log@, i);
    }
}

/// A valid conversation has each message once, oldest first, and a text of less than 200 bytes.
pub proof fn law_valid_conversation(conversation: &Conversation)
    requires
        conversation.wf(),
    ensures
        forall|i: int, j: int|
            0 <= i < j < conversation.model().messages.len() ==> (
            #[trigger] conversation.model().messages[i]).time.0 <= (
            #[trigger] conversation.model().messages[j]).time.0
                && conversation.model().messages[i].id != conversation.model().messages[j].id,
        encode_utf8(conversation.model().draft).len() < 200,
{
    conversation.law_invariant();
}

/// A message is shown exactly where it counts.
pub proof fn law_message_is_shown(
    message: &MCMessage,
    positions: bool,
    users: bool,
    is_shown: bool,
)
    requires
        call_ensures(message_is_shown, (message, positions, users), is_shown),
    ensures
        is_shown == counts(message@.content, positions, users),
{
}

/// A log puts a message in its place by time, in place of one with the same id.
pub proof fn law_log_insert(log: &mut MessageLog, message: MCMessage)
    requires
        old(log).wf(),
        call_ensures(MessageLog::insert, (log, message), ()),
    ensures
        exists|place: int| #[trigger] stands_at(old(log)@, message@, final(log)@, place),
{
    old(log).lemma_wf();
    let before = old(log)@;
    let after = final(log)@;
    let rest = without(before, message@.id);
    let place = choose|place: int|
        #[trigger] is_place_for(rest, place, message@.time) && after == rest.insert(
            place,
            message@,
        );
    lemma_stands_at(before, message@, after, place);
}

/// A log that is trimmed keeps what the history has room for.
pub proof fn law_log_trim(log: &mut MessageLog, history_length: &HistoryLength, now: TimeStamp)
    requires
        old(log).wf(),
        call_ensures(MessageLog::trim, (log, history_length, now), ()),
    ensures
        is_kept_of(old(log)@, *history_length, now, final(log)@),
{
    lemma_kept_of(old(log)@, *history_length, now);
}

/// What a message was made of is what it tells. It is neither seen nor acknowledged yet, and
/// nobody has replied to it with an emoji.
pub proof fn law_message_tells(
    id: MessageId,
    from: NodeId,
    content: MCContent,
    time: TimeStamp,
    message: MCMessage,
    told_id: MessageId,
    told_from: NodeId,
    told_content: &MCContent,
    told_time: TimeStamp,
    seen: bool,
    acked: bool,
    emojis: &EmojiReplies,
)
    requires
        call_ensures(MCMessage::new, (id, from, content, time), message),
        call_ensures(MCMessage::message_id, (&message,), told_id),
        call_ensures(MCMessage::from, (&message,), told_from),
        call_ensures(MCMessage::message, (&message,), told_content),
        call_ensures(MCMessage::time, (&message,), told_time),
        call_ensures(MCMessage::seen, (&message,), seen),
        call_ensures(MCMessage::acked, (&message,), acked),
        call_ensures(MCMessage::emojis, (&message,), emojis),
    ensures
        told_id == id,
        told_from == from,
        *told_content == content,
        told_time == time,
        !seen,
        !acked,
        emojis@.dom() =~= Set::<Seq<char>>::empty(),
{
}

/// A message that was marked is seen, one that was acknowledged is acknowledged, and neither
/// touches anything else.
pub proof fn law_message_marks(marked: &mut MCMessage, acknowledged: &mut MCMessage)
    requires
        call_ensures(MCMessage::mark_seen, (marked,), ()),
        call_ensures(MCMessage::ack, (acknowledged,), ()),
    ensures
        final(marked)@ == (MessageModel { seen: true, ..old(marked)@ }),
        final(acknowledged)@ == (MessageModel { acked: true, ..old(acknowledged)@ }),
{
}

/// Whoever replied with an emoji is the last of those who did, after the ones before. The senders
/// of other emojis stay as they are.
pub proof fn law_emoji_senders(
    replies: &mut EmojiReplies,
    emoji: String,
    sender: NodeId,
    other: &str,
    before: Option<&Vec<NodeId>>,
    after: Option<&Vec<NodeId>>,
)
    requires
        call_ensures(EmojiReplies::get, (&*old(replies), other), before),
        call_ensures(EmojiReplies::add, (replies, emoji, sender), ()),
        call_ensures(EmojiReplies::get, (&*final(replies), other), after),
    ensures
        other@ == emoji@ ==> {
            &&& after matches Some(senders)
            &&& senders@ == match before {
                Some(earlier) => earlier@.push(sender),
                None => seq![sender],
            }
        },
        other@ != emoji@ ==> {
            &&& after is Some <==> before is Some
            &&& after is Some ==> after->0@ == before->0@
        },
{
}

/// A message is older than a point in time exactly where it was sent before it.
pub proof fn law_message_age(message: &MCMessage, oldest: u128, older: bool)
    requires
        call_ensures(MCMessage::is_older_than, (message, oldest), older),
    ensures
        older <==> message@.time.0 < oldest,
{
}

/// A duration of seconds is a thousand times as many milliseconds, and parts of a millisecond do
/// not count.
pub proof fn law_duration_millis(
    secs: u64,
    whole: Duration,
    duration: &Duration,
    millis: u128,
)
    requires
        call_ensures(Duration::from_secs, (secs,), whole),
        call_ensures(Duration::as_millis, (duration,), millis),
    ensures
        limit_of(whole) == secs * 1000,
        millis == limit_of(*duration),
{
}

/// A new conversation is the one that it was made for. It has no messages, nothing is typed, no
/// reply is being written, and nothing is unread.
pub proof fn law_new_conversation(
    id: ConversationId,
    node: NodeId,
    conversation: Conversation,
    told_id: ConversationId,
    told_node: NodeId,
    text: &str,
    messages: &MessageLog,
    reply_to: Option<MessageId>,
    last_seen: TimeStamp,
    positions: bool,
    users: bool,
    count: usize,
)
    requires
        call_ensures(Conversation::new, (id, node), conversation),
        call_ensures(Conversation::conversation_id, (&conversation,), told_id),
        call_ensures(Conversation::my_node_num, (&conversation,), told_node),
        call_ensures(Conversation::message, (&conversation,), text),
        call_ensures(Conversation::messages, (&conversation,), messages),
        call_ensures(Conversation::preparing_reply_to, (&conversation,), reply_to),
        call_ensures(Conversation::last_seen_message, (&conversation,), last_seen),
        call_ensures(Conversation::unread_count, (&conversation, positions, users), count),
    ensures
        conversation.wf(),
        told_id == id,
        told_node == node,
        text@.len() == 0,
        messages@.len() == 0,
        reply_to is None,
        last_seen.0 == 0,
        count == 0,
{
    law_unread_count(&conversation, positions, users, count);
    reveal(Seq::filter);
}

/// What a conversation tells of itself is what is said of it elsewhere.
pub proof fn law_conversation_tells(
    conversation: &Conversation,
    id: ConversationId,
    node: NodeId,
    text: &str,
    messages: &MessageLog,
    reply_to: Option<MessageId>,
    last_seen: TimeStamp,
)
    requires
        call_ensures(Conversation::conversation_id, (conversation,), id),
        call_ensures(Conversation::my_node_num, (conversation,), node),
        call_ensures(Conversation::message, (conversation,), text),
        call_ensures(Conversation::messages, (conversation,), messages),
        call_ensures(Conversation::preparing_reply_to, (conversation,), reply_to),
        call_ensures(Conversation::last_seen_message, (conversation,), last_seen),
    ensures
        id == conversation.model().conversation_id,
        node == conversation.model().my_node_num,
        text@ == conversation.model().draft,
        messages@ == conversation.model().messages,
        reply_to == conversation.model().preparing_reply_to,
        last_seen == conversation.model().last_seen_message,
{
}

/// The messages of a log come out all and in their order, and it has as many as that.
pub proof fn law_log_values(
    log: &MessageLog,
    values: Vec<&MCMessage>,
    len: usize,
    empty: bool,
)
    requires
        call_ensures(MessageLog::values, (log,), values),
        call_ensures(MessageLog::len, (log,), len),
        call_ensures(MessageLog::is_empty, (log,), empty),
    ensures
        Seq::new(values@.len(), |i: int| values@[i]@) == log@,
        len == log@.len(),
        empty <==> len == 0,
{
    assert(Seq::new(values@.len(), |i: int| values@[i]@) =~= log@);
}

} // verus!
