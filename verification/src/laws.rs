//! What holds of every conversation.
use crate::channel_view::{
    rows_of, send_button_of, shown_with, starts_day, to_conversation, RowModel, ViewSettings,
};
use crate::calendar::{label_of, LocalDate, LocalTime};
use crate::config::HistoryLength;
use crate::conversation::{
    acknowledged, fits_input, is_received, is_shown, is_updated, lemma_empty_text_fits,
    lemma_share_text_fits, lemma_unread_push, marked_seen, unread, with_emoji, with_message,
    ChannelViewMessage, ConversationModel,
};
use crate::conversation_id::{MessageId, NodeId};
use crate::device::{Action, DeviceMessage};
use crate::emoji_picker::PickerMessage;
use crate::history::{
    by_time, distinct_ids, has_message, is_inserted, is_place_for, position_of, trimmed, without,
};
use crate::message::{MCContent, MessageModel};
use crate::timestamp::{Duration, TimeStamp};
use vstd::prelude::*;

verus! {

/// A message is where its id says.
pub proof fn lemma_position(messages: Seq<MessageModel>, i: int)
    requires
        distinct_ids(messages),
        0 <= i < messages.len(),
    ensures
        has_message(messages, messages[i].id),
        position_of(messages, messages[i].id) == i,
{
    let id = messages[i].id;
    assert(messages[i].id == id);
    let p = position_of(messages, id);
    assert(messages[p].id == id);
}

/// A message that is put in its place is there afterwards, as it came. All other messages stay,
/// in the order of time, and none is there twice.
#[verifier::rlimit(30)]
pub proof fn law_insert(
    before: Seq<MessageModel>,
    message: MessageModel,
    after: Seq<MessageModel>,
    other: MessageId,
)
    requires
        by_time(before),
        distinct_ids(before),
        is_inserted(before, message, after),
    ensures
        by_time(after),
        distinct_ids(after),
        has_message(after, message.id),
        after[position_of(after, message.id)] == message,
        after.len() == before.len() + if has_message(before, message.id) {
            0int
        } else {
            1int
        },
        other != message.id ==> has_message(after, other) == has_message(before, other),
        other != message.id && has_message(before, other) ==> after[position_of(after, other)]
            == before[position_of(before, other)],
{
    let rest = without(before, message.id);
    let p = choose|p: int|
        #[trigger] is_place_for(rest, p, message.time) && after == rest.insert(p, message);
    assert(is_place_for(rest, p, message.time));
    assert(!has_message(rest, message.id));
    assert(distinct_ids(rest));
    assert(by_time(rest));
    assert(distinct_ids(after));
    assert(after[p] == message);
    lemma_position(after, p);
    if other != message.id {
        if has_message(before, other) {
            let i = position_of(before, other);
            let removed = has_message(before, message.id);
            let q = position_of(before, message.id);
            let j = if removed && i > q { i - 1 } else { i };
            assert(rest[j] == before[i]);
            let k = if j < p { j } else { j + 1 };
            assert(after[k] == before[i]);
            lemma_position(after, k);
        }
        if has_message(after, other) {
            let k = position_of(after, other);
            let j = if k < p { k } else { k - 1 };
            assert(rest[j] == after[k]);
            let removed = has_message(before, message.id);
            let q = position_of(before, message.id);
            let i = if removed && j >= q { j + 1 } else { j };
            assert(before[i] == rest[j]);
        }
    }
}

/// There is one place for a message of a time that no other message has.
proof fn lemma_place_is_unique(messages: Seq<MessageModel>, p: int, q: int, time: TimeStamp)
    requires
        is_place_for(messages, p, time),
        is_place_for(messages, q, time),
        forall|i: int| 0 <= i < messages.len() ==> (#[trigger] messages[i]).time != time,
    ensures
        p == q,
{
    if p < q {
        assert(messages[p].time != time);
    } else if q < p {
        assert(messages[q].time != time);
    }
}

/// It makes no difference whether a message leaves before or after another one takes its place.
proof fn lemma_without_inserted(
    messages: Seq<MessageModel>,
    p: int,
    message: MessageModel,
    id: MessageId,
) -> (q: int)
    requires
        distinct_ids(messages.insert(p, message)),
        distinct_ids(messages),
        is_place_for(messages, p, message.time),
        id != message.id,
    ensures
        is_place_for(without(messages, id), q, message.time),
        without(messages.insert(p, message), id) == without(messages, id).insert(q, message),
{
    let inserted = messages.insert(p, message);
    let rest = without(messages, id);
    if has_message(messages, id) {
        let i = position_of(messages, id);
        let k = if i < p { i } else { i + 1 };
        let q = if i < p { p - 1 } else { p };
        assert(has_message(inserted, id) && position_of(inserted, id) == k) by {
            assert(inserted[k] == messages[i]);
            lemma_position(inserted, k);
        }
        assert(inserted.remove(k) =~= messages.remove(i).insert(q, message));
        assert(is_place_for(rest, q, message.time)) by {
            assert forall|j: int| 0 <= j < q implies (#[trigger] rest[j]).time.0
                <= message.time.0 by {
                assert(rest[j] == messages[if j < i { j } else { j + 1 }]);
            }
            assert forall|j: int| q <= j < rest.len() implies (#[trigger] rest[j]).time.0
                >= message.time.0 by {
                assert(rest[j] == messages[if j < i { j } else { j + 1 }]);
            }
        }
        q
    } else {
        assert(!has_message(inserted, id)) by {
            if has_message(inserted, id) {
                let k = position_of(inserted, id);
                assert(inserted[k].id == id);
                assert(messages[if k < p { k } else { k - 1 }] == inserted[k]);
            }
        }
        p
    }
}

/// The messages are as distinct without one of them, and the others are still there.
proof fn lemma_without(messages: Seq<MessageModel>, id: MessageId, other: MessageId)
    requires
        distinct_ids(messages),
        id != other,
    ensures
        distinct_ids(without(messages, id)),
        has_message(without(messages, id), other) == has_message(messages, other),
        has_message(messages, other) ==> position_of(without(messages, id), other) == if has_message(
            messages,
            id,
        ) && position_of(messages, id) < position_of(messages, other) {
            position_of(messages, other) - 1
        } else {
            position_of(messages, other)
        },
{
    let rest = without(messages, id);
    if has_message(messages, id) {
        let i = position_of(messages, id);
        assert(messages[i].id == id);
        assert(distinct_ids(rest));
        if has_message(messages, other) {
            let j = position_of(messages, other);
            let k = if i < j { j - 1 } else { j };
            assert(rest[k] == messages[j]);
            lemma_position(rest, k);
        }
        if has_message(rest, other) {
            let k = position_of(rest, other);
            assert(messages[if k < i { k } else { k + 1 }] == rest[k]);
        }
    }
}

/// It makes no difference in which order two messages leave.
proof fn lemma_without_commutes(messages: Seq<MessageModel>, first: MessageId, second: MessageId)
    requires
        distinct_ids(messages),
        first != second,
    ensures
        without(without(messages, first), second) == without(without(messages, second), first),
{
    lemma_without(messages, first, second);
    lemma_without(messages, second, first);
    if has_message(messages, first) && has_message(messages, second) {
        let i = position_of(messages, first);
        let j = position_of(messages, second);
        assert(messages[i].id == first && messages[j].id == second);
        let j_in_a = if i < j { j - 1 } else { j };
        let i_in_b = if j < i { i - 1 } else { i };
        assert(messages.remove(i).remove(j_in_a) =~= messages.remove(j).remove(i_in_b));
    }
}

/// Two messages of different times that take their places one after the other stand in the same
/// places as if they came the other way round.
proof fn lemma_places_commute(
    messages: Seq<MessageModel>,
    earlier: MessageModel,
    later: MessageModel,
    p1: int,
    p2: int,
    q1: int,
    q2: int,
)
    requires
        earlier.time.0 < later.time.0,
        forall|i: int|
            0 <= i < messages.len() ==> (#[trigger] messages[i]).time != earlier.time
                && messages[i].time != later.time,
        is_place_for(messages, p1, earlier.time),
        is_place_for(messages.insert(p1, earlier), p2, later.time),
        is_place_for(messages, q1, later.time),
        is_place_for(messages.insert(q1, later), q2, earlier.time),
    ensures
        messages.insert(p1, earlier).insert(p2, later) == messages.insert(q1, later).insert(
            q2,
            earlier,
        ),
{
    let with_earlier = messages.insert(p1, earlier);
    let with_later = messages.insert(q1, later);
    assert(with_earlier[p1] == earlier);
    assert(with_later[q1] == later);
    assert(p1 < p2);
    assert(q2 <= q1);
    assert(is_place_for(messages, p2 - 1, later.time)) by {
        assert forall|i: int| 0 <= i < p2 - 1 implies (#[trigger] messages[i]).time.0
            <= later.time.0 by {
            assert(messages[i] == with_earlier[if i < p1 { i } else { i + 1 }]);
        }
        assert forall|i: int| p2 - 1 <= i < messages.len() implies (#[trigger] messages[i]).time.0
            >= later.time.0 by {
            assert(messages[i] == with_earlier[i + 1]);
        }
    }
    assert(is_place_for(messages, q2, earlier.time)) by {
        assert forall|i: int| 0 <= i < q2 implies (#[trigger] messages[i]).time.0
            <= earlier.time.0 by {
            assert(messages[i] == with_later[i]);
        }
        assert forall|i: int| q2 <= i < messages.len() implies (#[trigger] messages[i]).time.0
            >= earlier.time.0 by {
            assert(messages[i] == with_later[if i < q1 { i } else { i + 1 }]);
        }
    }
    lemma_place_is_unique(messages, p2 - 1, q1, later.time);
    lemma_place_is_unique(messages, p1, q2, earlier.time);
    assert(with_earlier.insert(p2, later) =~= with_later.insert(q2, earlier));
}

/// Messages are ordered by their time, not by when they came in: two messages take the same
/// places in whichever order they come, unless a time occurs twice.
pub proof fn law_order_of_arrival(
    before: Seq<MessageModel>,
    first: MessageModel,
    second: MessageModel,
    with_first: Seq<MessageModel>,
    first_then_second: Seq<MessageModel>,
    with_second: Seq<MessageModel>,
    second_then_first: Seq<MessageModel>,
)
    requires
        by_time(before),
        distinct_ids(before),
        first.id != second.id,
        first.time != second.time,
        forall|i: int|
            0 <= i < before.len() && (#[trigger] before[i]).id != first.id && before[i].id
                != second.id ==> before[i].time != first.time && before[i].time != second.time,
        is_inserted(before, first, with_first),
        is_inserted(with_first, second, first_then_second),
        is_inserted(before, second, with_second),
        is_inserted(with_second, first, second_then_first),
    ensures
        first_then_second == second_then_first,
{
    law_insert(before, first, with_first, second.id);
    law_insert(before, second, with_second, first.id);
    let rest1 = without(before, first.id);
    let p1 = choose|p: int|
        #[trigger] is_place_for(rest1, p, first.time) && with_first == rest1.insert(p, first);
    let rest2 = without(before, second.id);
    let q1 = choose|p: int|
        #[trigger] is_place_for(rest2, p, second.time) && with_second == rest2.insert(p, second);
    lemma_without(before, first.id, second.id);
    lemma_without(before, second.id, first.id);
    let core = without(rest1, second.id);
    lemma_without_commutes(before, first.id, second.id);
    let p = lemma_without_inserted(rest1, p1, first, second.id);
    let q = lemma_without_inserted(rest2, q1, second, first.id);
    let after_p = core.insert(p, first);
    let after_q = core.insert(q, second);
    let p2 = choose|i: int|
        #[trigger] is_place_for(after_p, i, second.time) && first_then_second == after_p.insert(
            i,
            second,
        );
    let q2 = choose|i: int|
        #[trigger] is_place_for(after_q, i, first.time) && second_then_first == after_q.insert(
            i,
            first,
        );
    lemma_core_times(before, first, second);
    if first.time.0 < second.time.0 {
        lemma_places_commute(core, first, second, p, p2, q, q2);
    } else {
        lemma_places_commute(core, second, first, q, q2, p, p2);
    }
}

proof fn lemma_core_times(before: Seq<MessageModel>, first: MessageModel, second: MessageModel)
    requires
        distinct_ids(before),
        forall|i: int|
            0 <= i < before.len() && (#[trigger] before[i]).id != first.id && before[i].id
                != second.id ==> before[i].time != first.time && before[i].time != second.time,
    ensures
        ({
            let core = without(without(before, first.id), second.id);
            forall|i: int|
                0 <= i < core.len() ==> (#[trigger] core[i]).time != first.time && core[i].time
                    != second.time
        }),
{
    let rest = without(before, first.id);
    let core = without(rest, second.id);
    assert forall|i: int| 0 <= i < core.len() implies (#[trigger] core[i]).time != first.time
        && core[i].time != second.time by {
        let j = if has_message(rest, second.id) && i >= position_of(rest, second.id) {
            i + 1
        } else {
            i
        };
        assert(core[i] == rest[j]);
        let k = if has_message(before, first.id) && j >= position_of(before, first.id) {
            j + 1
        } else {
            j
        };
        assert(rest[j] == before[k]);
        assert(rest[j].id != first.id);
        assert(distinct_ids(rest));
        assert(core[i].id != second.id);
    }
}

/// The history never holds more messages than it may. What is dropped is never newer than what
/// is kept.
pub proof fn law_number_of_messages(messages: Seq<MessageModel>, number: usize, now: TimeStamp)
    requires
        by_time(messages),
    ensures
        ({
            let kept = trimmed(messages, HistoryLength::NumberOfMessages(number), now);
            let dropped = messages.len() - kept.len();
            &&& kept.len() == if messages.len() < number { messages.len() } else { number as nat }
            &&& kept == messages.skip(dropped)
            &&& forall|i: int, j: int|
                0 <= i < dropped && 0 <= j < kept.len() ==> (#[trigger] messages[i]).time.0 <= (
                #[trigger] kept[j]).time.0
        }),
{
    let kept = trimmed(messages, HistoryLength::NumberOfMessages(number), now);
    assert(kept =~= messages.skip(messages.len() - kept.len()));
}

/// A history of a duration holds the messages that are no older than it, and no others.
pub proof fn law_duration(
    messages: Seq<MessageModel>,
    duration: Duration,
    now: TimeStamp,
    message: MessageModel,
)
    ensures
        trimmed(messages, HistoryLength::Duration(duration), now).contains(message) <==> (
        messages.contains(message) && now.0 - message.time.0 <= duration.millis()),
{
    let keeps = |m: MessageModel| m.time.0 >= now.0 - duration.millis();
    let kept = messages.filter(keeps);
    if messages.contains(message) && keeps(message) {
        messages.lemma_filter_contains(keeps, messages.index_of(message));
    }
    if kept.contains(message) {
        messages.lemma_filter_contains_rev(keeps, message);
        messages.lemma_filter_pred(keeps, kept.index_of(message));
    }
}

/// Trimming only ever removes the oldest messages.
pub proof fn law_trim_removes_oldest(
    messages: Seq<MessageModel>,
    history_length: HistoryLength,
    now: TimeStamp,
)
    requires
        by_time(messages),
    ensures
        trimmed(messages, history_length, now).len() <= messages.len(),
        trimmed(messages, history_length, now) == messages.skip(
            messages.len() - trimmed(messages, history_length, now).len(),
        ),
    decreases messages.len(),
{
    let kept = trimmed(messages, history_length, now);
    match history_length {
        HistoryLength::All => {
            assert(kept =~= messages.skip(0));
        },
        HistoryLength::NumberOfMessages(number) => {
            law_number_of_messages(messages, number, now);
        },
        HistoryLength::Duration(duration) => {
            reveal(Seq::filter);
            if messages.len() > 0 {
                let shorter = messages.drop_last();
                law_trim_removes_oldest(shorter, history_length, now);
                let kept_of_shorter = trimmed(shorter, history_length, now);
                let keeps = |m: MessageModel| m.time.0 >= now.0 - duration.millis();
                if keeps(messages.last()) {
                    assert(kept =~= messages.skip(messages.len() - kept.len()));
                } else {
                    if kept_of_shorter.len() > 0 {
                        shorter.lemma_filter_pred(keeps, 0);
                        assert(keeps(kept_of_shorter[0]));
                    }
                    assert(kept =~= messages.skip(messages.len() as int));
                }
            } else {
                assert(kept =~= messages.skip(0));
            }
        },
    }
}

/// Trimming a second time at the same moment changes nothing.
pub proof fn law_trim_is_idempotent(
    messages: Seq<MessageModel>,
    history_length: HistoryLength,
    now: TimeStamp,
)
    ensures
        trimmed(trimmed(messages, history_length, now), history_length, now) == trimmed(
            messages,
            history_length,
            now,
        ),
    decreases messages.len(),
{
    if history_length is Duration && messages.len() > 0 {
        reveal(Seq::filter);
        law_trim_is_idempotent(messages.drop_last(), history_length, now);
        let before = trimmed(messages.drop_last(), history_length, now);
        assert(before.push(messages.last()).drop_last() =~= before);
    }
}

/// Changing a message leaves the others alone.
proof fn lemma_with_message(
    messages: Seq<MessageModel>,
    id: MessageId,
    change: spec_fn(MessageModel) -> MessageModel,
)
    requires
        distinct_ids(messages),
        by_time(messages),
        forall|m: MessageModel| (#[trigger] change(m)).id == m.id && change(m).time == m.time,
    ensures
        ({
            let after = with_message(messages, id, change);
            &&& distinct_ids(after)
            &&& by_time(after)
            &&& after.len() == messages.len()
            &&& has_message(after, id) == has_message(messages, id)
            &&& has_message(messages, id) ==> position_of(after, id) == position_of(messages, id)
                && after[position_of(after, id)] == change(messages[position_of(messages, id)])
            &&& forall|i: int|
                0 <= i < messages.len() ==> (#[trigger] after[i]).id == messages[i].id
                    && after[i].time == messages[i].time && (messages[i].id != id ==> after[i]
                    == messages[i])
        }),
{
    let after = with_message(messages, id, change);
    if has_message(messages, id) {
        let p = position_of(messages, id);
        let m = messages[p];
        assert(change(m).id == m.id && change(m).time == m.time);
        assert(after[p] == change(m));
        assert(distinct_ids(after));
        lemma_position(after, p);
        assert forall|i: int| 0 <= i < messages.len() implies (#[trigger] after[i]).id
            == messages[i].id && after[i].time == messages[i].time && (messages[i].id != id
            ==> after[i] == messages[i]) by {
            if i != p {
                assert(messages[i].id != messages[p].id);
            }
        }
    }
}

/// An emoji in reply to a message never becomes an entry of its own. It is added to the message
/// that it replies to, at the end of those who sent the same emoji, and dropped if that message
/// is not there.
pub proof fn law_emoji_reply(
    before: Seq<MessageModel>,
    message: MessageModel,
    history_length: HistoryLength,
    now: TimeStamp,
    after: Seq<MessageModel>,
)
    requires
        by_time(before),
        distinct_ids(before),
        message.content is EmojiReply,
        is_received(before, message, history_length, now, after),
    ensures
        ({
            let to = message.content->EmojiReply_0;
            let emoji = message.content->EmojiReply_1@;
            &&& after.len() == before.len()
            &&& !has_message(before, to) ==> after == before
            &&& has_message(before, to) ==> {
                let p = position_of(before, to);
                &&& after == before.update(p, with_emoji(before[p], emoji, message.from))
                &&& after[p].emojis.contains_key(emoji)
                &&& after[p].emojis[emoji].last() == message.from
            }
        }),
{
}

/// A message that comes in leaves the messages in the order of time, and none there twice.
pub proof fn law_receive_keeps_order(
    before: Seq<MessageModel>,
    message: MessageModel,
    history_length: HistoryLength,
    now: TimeStamp,
    after: Seq<MessageModel>,
)
    requires
        by_time(before),
        distinct_ids(before),
        is_received(before, message, history_length, now, after),
    ensures
        by_time(after),
        distinct_ids(after),
{
    match message.content {
        MCContent::EmojiReply(to, emoji) => {
            lemma_with_message(
                before,
                to,
                |m: MessageModel| with_emoji(m, emoji@, message.from),
            );
        },
        _ => {
            let inserted = choose|inserted: Seq<MessageModel>|
                #[trigger] is_inserted(before, message, inserted) && after == trimmed(
                    inserted,
                    history_length,
                    now,
                );
            law_insert(before, message, inserted, message.id);
            law_trim_removes_oldest(inserted, history_length, now);
        },
    }
}

/// After a message came in, other than an emoji in reply, the history is within its limit: it
/// holds no more messages than it may, and none that is older than it may be.
pub proof fn law_receive_limits(
    before: Seq<MessageModel>,
    message: MessageModel,
    history_length: HistoryLength,
    now: TimeStamp,
    after: Seq<MessageModel>,
)
    requires
        !(message.content is EmojiReply),
        is_received(before, message, history_length, now, after),
    ensures
        history_length matches HistoryLength::NumberOfMessages(number) ==> after.len() <= number,
        history_length matches HistoryLength::Duration(duration) ==> forall|i: int|
            0 <= i < after.len() ==> now.0 - (#[trigger] after[i]).time.0 <= duration.millis(),
{
    let inserted = choose|inserted: Seq<MessageModel>|
        #[trigger] is_inserted(before, message, inserted) && after == trimmed(
            inserted,
            history_length,
            now,
        );
    if let HistoryLength::Duration(duration) = history_length {
        assert forall|i: int| 0 <= i < after.len() implies now.0 - (#[trigger] after[i]).time.0
            <= duration.millis() by {
            inserted.lemma_filter_pred(
                |m: MessageModel| m.time.0 >= now.0 - duration.millis(),
                i,
            );
        }
    }
}

/// Where the whole history is kept, a message that comes in is there afterwards, and so is every
/// message from before with another id.
pub proof fn law_whole_history(
    before: Seq<MessageModel>,
    message: MessageModel,
    now: TimeStamp,
    after: Seq<MessageModel>,
    other: MessageId,
)
    requires
        by_time(before),
        distinct_ids(before),
        !(message.content is EmojiReply),
        is_received(before, message, HistoryLength::All, now, after),
    ensures
        has_message(after, message.id),
        after[position_of(after, message.id)] == message,
        other != message.id ==> has_message(after, other) == has_message(before, other),
        other != message.id && has_message(before, other) ==> after[position_of(after, other)]
            == before[position_of(before, other)],
{
    law_insert(before, message, after, other);
}

/// Whatever happens in the view, the conversation stays with whom it is, no message comes, goes
/// or moves, the time of the newest message that was shown never goes back, and the text typed
/// so far still fits in the message input.
pub proof fn law_update_keeps(
    before: ConversationModel,
    message: ChannelViewMessage,
    after: ConversationModel,
    action: Action,
)
    requires
        by_time(before.messages),
        distinct_ids(before.messages),
        fits_input(before.draft),
        is_updated(before, message, after, action),
    ensures
        after.conversation_id == before.conversation_id,
        after.my_node_num == before.my_node_num,
        after.last_seen_message.0 >= before.last_seen_message.0,
        fits_input(after.draft),
        by_time(after.messages),
        distinct_ids(after.messages),
        after.messages.len() == before.messages.len(),
        forall|i: int|
            0 <= i < before.messages.len() ==> (#[trigger] after.messages[i]) == before.messages[i]
                || after.messages[i] == marked_seen(before.messages[i]),
    decreases message,
{
    lemma_empty_text_fits();
    lemma_share_text_fits();
    match message {
        ChannelViewMessage::MessageSeen(id, time) => {
            lemma_with_message(before.messages, id, |m: MessageModel| marked_seen(m));
        },
        ChannelViewMessage::EmojiPickerMsg(picker_message) => {
            let between = ConversationModel {
                emoji_picker: before.emoji_picker.after(*picker_message),
                ..before
            };
            if let PickerMessage::Forward(inner) = *picker_message {
                law_update_keeps(between, inner, after, action);
            }
        },
        _ => {},
    }
}

/// A message that the emoji picker forwards does what it does by itself.
pub proof fn law_picker_forwards(
    before: ConversationModel,
    inner: ChannelViewMessage,
    after: ConversationModel,
    action: Action,
)
    ensures
        is_updated(
            before,
            ChannelViewMessage::EmojiPickerMsg(Box::new(PickerMessage::Forward(inner))),
            after,
            action,
        ) <==> is_updated(before, inner, after, action),
{
    let message = ChannelViewMessage::EmojiPickerMsg(Box::new(PickerMessage::Forward(inner)));
    assert(before == ConversationModel {
        emoji_picker: before.emoji_picker.after(PickerMessage::Forward(inner)),
        ..before
    });
    assert(is_updated(before, message, after, action) <==> is_updated(
        before,
        inner,
        after,
        action,
    )) by {
        reveal_with_fuel(is_updated, 2);
    }
}

/// What is typed and fits in the message input is what is sent. Then the input is empty, no
/// reply is being written, and the rest is as it was.
pub proof fn law_typed_text_is_sent(
    start: ConversationModel,
    text: String,
    typed: ConversationModel,
    typed_action: Action,
    reply_to: Option<MessageId>,
    sent: ConversationModel,
    action: Action,
)
    requires
        fits_input(text@),
        text@.len() > 0,
        is_updated(start, ChannelViewMessage::MessageInput(text), typed, typed_action),
        is_updated(typed, ChannelViewMessage::SendMessage(reply_to), sent, action),
    ensures
        action matches Action::Emit(DeviceMessage::SendTextMessage(sent_text, to, re))
            && sent_text@ == text@ && to == start.conversation_id && re == reply_to,
        sent == (ConversationModel { draft: Seq::empty(), preparing_reply_to: None, ..start }),
{
}

/// A text is sent once: sending again does nothing.
pub proof fn law_text_is_sent_once(
    start: ConversationModel,
    reply_to: Option<MessageId>,
    sent: ConversationModel,
    action: Action,
    reply_to_again: Option<MessageId>,
    sent_again: ConversationModel,
    action_again: Action,
)
    requires
        is_updated(start, ChannelViewMessage::SendMessage(reply_to), sent, action),
        is_updated(sent, ChannelViewMessage::SendMessage(reply_to_again), sent_again, action_again),
    ensures
        action_again is Nothing,
        sent_again == sent,
{
}

/// A reply that was started and given up leaves no trace, unless it took the place of another.
pub proof fn law_cancel_undoes_prepare(
    start: ConversationModel,
    id: MessageId,
    prepared: ConversationModel,
    prepared_action: Action,
    end: ConversationModel,
    action: Action,
)
    requires
        start.preparing_reply_to is None,
        is_updated(start, ChannelViewMessage::PrepareReply(id), prepared, prepared_action),
        is_updated(prepared, ChannelViewMessage::CancelPrepareReply, end, action),
    ensures
        end == start,
{
    assert(end =~= start);
}

proof fn lemma_unread_update(
    messages: Seq<MessageModel>,
    i: int,
    message: MessageModel,
    show_position_updates: bool,
    show_user_updates: bool,
)
    requires
        0 <= i < messages.len(),
        message.content == messages[i].content,
    ensures
        unread(messages.update(i, message), show_position_updates, show_user_updates) + if is_shown(
            messages[i],
            show_position_updates,
            show_user_updates,
        ) && !messages[i].seen {
            1nat
        } else {
            0nat
        } == unread(messages, show_position_updates, show_user_updates) + if is_shown(
            message,
            show_position_updates,
            show_user_updates,
        ) && !message.seen {
            1nat
        } else {
            0nat
        },
    decreases messages.len(),
{
    let shorter = messages.drop_last();
    let last = messages.last();
    assert(messages =~= shorter.push(last));
    if i == messages.len() - 1 {
        assert(messages.update(i, message) =~= shorter.push(message));
        lemma_unread_push(shorter, last, show_position_updates, show_user_updates);
        lemma_unread_push(shorter, message, show_position_updates, show_user_updates);
    } else {
        assert(messages.update(i, message) =~= shorter.update(i, message).push(last));
        lemma_unread_update(shorter, i, message, show_position_updates, show_user_updates);
        lemma_unread_push(shorter, last, show_position_updates, show_user_updates);
        lemma_unread_push(
            shorter.update(i, message),
            last,
            show_position_updates,
            show_user_updates,
        );
    }
}

/// Showing a message lowers the number of unread messages by one if the message counts and was
/// not seen before, and does not change it otherwise.
pub proof fn law_seen_is_read(
    before: ConversationModel,
    id: MessageId,
    time: TimeStamp,
    after: ConversationModel,
    action: Action,
    show_position_updates: bool,
    show_user_updates: bool,
)
    requires
        is_updated(before, ChannelViewMessage::MessageSeen(id, time), after, action),
    ensures
        ({
            let count = unread(before.messages, show_position_updates, show_user_updates);
            let message = before.messages[position_of(before.messages, id)];
            unread(after.messages, show_position_updates, show_user_updates) == if has_message(
                before.messages,
                id,
            ) && is_shown(message, show_position_updates, show_user_updates) && !message.seen {
                count - 1
            } else {
                count as int
            }
        }),
{
    if has_message(before.messages, id) {
        let i = position_of(before.messages, id);
        lemma_unread_update(
            before.messages,
            i,
            marked_seen(before.messages[i]),
            show_position_updates,
            show_user_updates,
        );
    }
}

/// A further message adds to the number of unread messages in whatever place it is.
proof fn lemma_unread_insert(
    messages: Seq<MessageModel>,
    position: int,
    message: MessageModel,
    show_position_updates: bool,
    show_user_updates: bool,
)
    requires
        0 <= position <= messages.len(),
    ensures
        unread(messages.insert(position, message), show_position_updates, show_user_updates)
            == unread(messages, show_position_updates, show_user_updates) + if is_shown(
            message,
            show_position_updates,
            show_user_updates,
        ) && !message.seen {
            1nat
        } else {
            0nat
        },
    decreases messages.len(),
{
    if position == messages.len() {
        assert(messages.insert(position, message) =~= messages.push(message));
        lemma_unread_push(messages, message, show_position_updates, show_user_updates);
    } else {
        let shorter = messages.drop_last();
        let last = messages.last();
        let inserted = shorter.insert(position, message);
        assert(messages =~= shorter.push(last));
        assert(messages.insert(position, message) =~= inserted.push(last));
        lemma_unread_insert(shorter, position, message, show_position_updates, show_user_updates);
        lemma_unread_push(shorter, last, show_position_updates, show_user_updates);
        lemma_unread_push(inserted, last, show_position_updates, show_user_updates);
    }
}

/// Where the whole history is kept, a message with a new id raises the number of unread messages
/// by one if it counts and was not seen, and does not change it otherwise.
pub proof fn law_new_message_is_unread(
    before: Seq<MessageModel>,
    message: MessageModel,
    now: TimeStamp,
    after: Seq<MessageModel>,
    show_position_updates: bool,
    show_user_updates: bool,
)
    requires
        !(message.content is EmojiReply),
        !has_message(before, message.id),
        is_received(before, message, HistoryLength::All, now, after),
    ensures
        unread(after, show_position_updates, show_user_updates) == unread(
            before,
            show_position_updates,
            show_user_updates,
        ) + if is_shown(message, show_position_updates, show_user_updates) && !message.seen {
            1nat
        } else {
            0nat
        },
{
    let p = choose|p: int|
        #[trigger] is_place_for(before, p, message.time) && after == before.insert(p, message);
    lemma_unread_insert(before, p, message, show_position_updates, show_user_updates);
}

/// An emoji in reply to a message makes nothing read or unread.
pub proof fn law_emoji_reply_is_not_unread(
    before: Seq<MessageModel>,
    message: MessageModel,
    history_length: HistoryLength,
    now: TimeStamp,
    after: Seq<MessageModel>,
    show_position_updates: bool,
    show_user_updates: bool,
)
    requires
        message.content is EmojiReply,
        is_received(before, message, history_length, now, after),
    ensures
        unread(after, show_position_updates, show_user_updates) == unread(
            before,
            show_position_updates,
            show_user_updates,
        ),
{
    let to = message.content->EmojiReply_0;
    let emoji = message.content->EmojiReply_1@;
    if has_message(before, to) {
        let i = position_of(before, to);
        lemma_unread_update(
            before,
            i,
            with_emoji(before[i], emoji, message.from),
            show_position_updates,
            show_user_updates,
        );
    }
}

/// Acknowledging a message changes no other message, and nothing in the number of unread messages.
/// Acknowledging it again changes nothing.
pub proof fn law_acknowledge(
    messages: Seq<MessageModel>,
    id: MessageId,
    show_position_updates: bool,
    show_user_updates: bool,
)
    requires
        by_time(messages),
        distinct_ids(messages),
    ensures
        ({
            let once = with_message(messages, id, |m: MessageModel| acknowledged(m));
            let twice = with_message(once, id, |m: MessageModel| acknowledged(m));
            &&& twice == once
            &&& once.len() == messages.len()
            &&& forall|i: int|
                0 <= i < messages.len() ==> (#[trigger] once[i]) == if messages[i].id == id {
                    acknowledged(messages[i])
                } else {
                    messages[i]
                }
            &&& unread(once, show_position_updates, show_user_updates) == unread(
                messages,
                show_position_updates,
                show_user_updates,
            )
        }),
{
    let change = |m: MessageModel| acknowledged(m);
    lemma_with_message(messages, id, change);
    let once = with_message(messages, id, change);
    if has_message(messages, id) {
        let i = position_of(messages, id);
        assert(messages[i].id == id);
        lemma_unread_update(
            messages,
            i,
            acknowledged(messages[i]),
            show_position_updates,
            show_user_updates,
        );
        assert(with_message(once, id, change) =~= once);
    }
}

/// Hiding a type of messages never makes more messages unread, and with nothing hidden every
/// message that was not seen counts.
pub proof fn law_hidden_messages_do_not_count(
    messages: Seq<MessageModel>,
    show_position_updates: bool,
    show_user_updates: bool,
)
    ensures
        unread(messages, show_position_updates, show_user_updates) <= unread(messages, true, true),
        unread(messages, true, true) == messages.filter(|m: MessageModel| !m.seen).len(),
    decreases messages.len(),
{
    reveal(Seq::filter);
    if messages.len() > 0 {
        let shorter = messages.drop_last();
        assert(messages =~= shorter.push(messages.last()));
        law_hidden_messages_do_not_count(shorter, show_position_updates, show_user_updates);
        lemma_unread_push(shorter, messages.last(), show_position_updates, show_user_updates);
        lemma_unread_push(shorter, messages.last(), true, true);
    }
}

/// The messages among rows, in their order.
pub open spec fn messages_in(rows: Seq<RowModel>) -> Seq<MessageModel>
    decreases rows.len(),
{
    if rows.len() == 0 {
        Seq::empty()
    } else {
        let above = messages_in(rows.drop_last());
        match rows.last() {
            RowModel::DaySeparator(_) => above,
            RowModel::Message { message, mine, show_sender } => above.push(message),
        }
    }
}

/// The rows show each message once, in the order of the messages. The first row announces a day,
/// and below each row that does comes a message.
pub proof fn law_rows(
    messages: Seq<MessageModel>,
    times: Seq<LocalTime>,
    today: LocalDate,
    my_node_num: NodeId,
    count: int,
)
    requires
        0 <= count <= messages.len(),
    ensures
        ({
            let rows = rows_of(messages, times, today, my_node_num, count);
            &&& messages_in(rows) == messages.take(count)
            &&& count > 0 ==> rows.len() > 0 && rows[0] is DaySeparator
            &&& forall|i: int|
                0 <= i < rows.len() && rows[i] is DaySeparator ==> i + 1 < rows.len()
                    && #[trigger] rows[i + 1] is Message
        }),
    decreases count,
{
    let rows = rows_of(messages, times, today, my_node_num, count);
    if count > 0 {
        law_rows(messages, times, today, my_node_num, count - 1);
        let above = rows_of(messages, times, today, my_node_num, count - 1);
        let with_day = if rows.len() == above.len() + 2 { rows.drop_last() } else { above };
        assert(rows.drop_last() =~= with_day);
        if rows.len() == above.len() + 2 {
            assert(with_day.drop_last() =~= above);
            assert(messages_in(with_day) == messages_in(above));
        }
        assert(messages_in(rows) == messages_in(with_day).push(messages[count - 1]));
        assert(messages.take(count) =~= messages.take(count - 1).push(messages[count - 1]));
    } else {
        assert(messages.take(0) =~= Seq::empty());
    }
}

/// The last of the days that the rows announce.
pub open spec fn last_heading(rows: Seq<RowModel>) -> Option<Seq<char>>
    decreases rows.len(),
{
    if rows.len() == 0 {
        None
    } else {
        match rows.last() {
            RowModel::DaySeparator(text) => Some(text),
            RowModel::Message { message, mine, show_sender } => last_heading(rows.drop_last()),
        }
    }
}

/// For each of the messages among rows, in their order, the day that it stands under: the last
/// one that is announced above it.
pub open spec fn headings_in(rows: Seq<RowModel>) -> Seq<Option<Seq<char>>>
    decreases rows.len(),
{
    if rows.len() == 0 {
        Seq::empty()
    } else {
        let above = headings_in(rows.drop_last());
        match rows.last() {
            RowModel::DaySeparator(_) => above,
            RowModel::Message { message, mine, show_sender } => above.push(
                last_heading(rows.drop_last()),
            ),
        }
    }
}

/// Each message stands under the announcement of its own day.
pub proof fn law_messages_stand_under_their_day(
    messages: Seq<MessageModel>,
    times: Seq<LocalTime>,
    today: LocalDate,
    my_node_num: NodeId,
    count: int,
)
    requires
        0 <= count <= messages.len(),
    ensures
        ({
            let rows = rows_of(messages, times, today, my_node_num, count);
            &&& headings_in(rows) == Seq::new(
                count as nat,
                |i: int| Some(label_of(times[i].date, today)),
            )
            &&& count > 0 ==> last_heading(rows) == Some(label_of(times[count - 1].date, today))
        }),
    decreases count,
{
    if count > 0 {
        law_messages_stand_under_their_day(messages, times, today, my_node_num, count - 1);
        let rows = rows_of(messages, times, today, my_node_num, count);
        let above = rows_of(messages, times, today, my_node_num, count - 1);
        let label = label_of(times[count - 1].date, today);
        let with_day = if starts_day(times, count - 1) {
            above.push(RowModel::DaySeparator(label))
        } else {
            above
        };
        assert(rows.drop_last() =~= with_day);
        if starts_day(times, count - 1) {
            assert(with_day.drop_last() =~= above);
        } else {
            assert(label == label_of(times[count - 2].date, today));
        }
        assert(last_heading(with_day) == Some(label));
        assert(headings_in(with_day) == headings_in(above));
        assert(headings_in(rows) == headings_in(above).push(Some(label)));
    }
}

/// The number of unread messages is the number of messages on the screen that were not seen.
pub proof fn law_unread_is_on_screen(
    conversation: ConversationModel,
    settings: ViewSettings,
    times: Seq<LocalTime>,
    today: LocalDate,
)
    ensures
        ({
            let messages = shown_with(conversation, settings);
            let rows = rows_of(
                messages,
                times,
                today,
                conversation.my_node_num,
                messages.len() as int,
            );
            unread(
                conversation.messages,
                settings.show_position_updates,
                settings.show_user_updates,
            ) == messages_in(rows).filter(|m: MessageModel| !m.seen).len()
        }),
{
    let messages = shown_with(conversation, settings);
    law_rows(messages, times, today, conversation.my_node_num, messages.len() as int);
    assert(messages.take(messages.len() as int) =~= messages);
}

/// The send button is disabled exactly while there is nothing to send. When it is pressed, what
/// was typed is sent, in reply to the message that a reply is being written to.
pub proof fn law_send_button(
    conversation: ConversationModel,
    after: ConversationModel,
    action: Action,
)
    requires
        is_updated(
            conversation,
            ChannelViewMessage::SendMessage(conversation.preparing_reply_to),
            after,
            action,
        ),
    ensures
        send_button_of(conversation) is None <==> action is Nothing,
        send_button_of(conversation) matches Some(request) ==> {
            &&& request == to_conversation(
                conversation,
                ChannelViewMessage::SendMessage(conversation.preparing_reply_to),
            )
            &&& action matches Action::Emit(DeviceMessage::SendTextMessage(text, to, re))
            &&& text@ == conversation.draft
            &&& to == conversation.conversation_id
            &&& re == conversation.preparing_reply_to
        },
{
}

} // verus!
