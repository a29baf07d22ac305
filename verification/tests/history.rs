use meshchat::config::HistoryLength;
use meshchat::conversation::Conversation;
use meshchat::conversation_id::{ConversationId, MessageId, NodeId};
use meshchat::device::Action;
use meshchat::message::MCContent::{EmojiReply, NewTextMessage};
use meshchat::message::MCMessage;
use meshchat::timestamp::{Duration, TimeStamp};

fn conversation() -> Conversation {
    Conversation::new(ConversationId::Channel(0.into()), NodeId::from(100u64))
}

fn text(id: u64, from: u64, content: &str, time: u64) -> MCMessage {
    MCMessage::new(
        MessageId::from(id),
        NodeId::from(from),
        NewTextMessage(content.into()),
        TimeStamp::from(time),
    )
}

fn emoji(id: u64, from: u64, to: u64, content: &str, time: u64) -> MCMessage {
    MCMessage::new(
        MessageId::from(id),
        NodeId::from(from),
        EmojiReply(MessageId::from(to), content.into()),
        TimeStamp::from(time),
    )
}

fn ids(conversation: &Conversation) -> Vec<u64> {
    conversation
        .messages()
        .values()
        .iter()
        .map(|message| message.message_id().0)
        .collect()
}

#[test]
fn order_of_arrival_does_not_matter() {
    let messages = [text(1, 1, "a", 10), text(2, 1, "b", 20), text(3, 1, "c", 30)];
    for order in [[0, 1, 2], [0, 2, 1], [1, 0, 2], [1, 2, 0], [2, 0, 1], [2, 1, 0]] {
        let mut conversation = conversation();
        for i in order {
            let _ = conversation.new_message(messages[i].clone(), &HistoryLength::All);
        }
        assert_eq!(ids(&conversation), [1, 2, 3]);
    }
}

#[test]
fn messages_of_the_same_time_are_all_kept() {
    let mut conversation = conversation();
    for id in 1..=5 {
        let _ = conversation.new_message(text(id, 1, "same", 10), &HistoryLength::All);
    }
    let _ = conversation.new_message(text(6, 1, "before", 9), &HistoryLength::All);
    let _ = conversation.new_message(text(7, 1, "after", 11), &HistoryLength::All);
    let ids = ids(&conversation);
    assert_eq!(ids.len(), 7);
    assert_eq!(ids[0], 6);
    assert_eq!(ids[6], 7);
}

#[test]
fn a_message_with_the_same_id_makes_way() {
    let mut conversation = conversation();
    let _ = conversation.new_message(text(1, 1, "one", 10), &HistoryLength::All);
    let _ = conversation.new_message(text(2, 1, "two", 20), &HistoryLength::All);
    let _ = conversation.new_message(text(3, 1, "three", 30), &HistoryLength::All);
    conversation.ack(MessageId::from(1));
    let _ = conversation.new_message(text(1, 1, "one again", 25), &HistoryLength::All);
    assert_eq!(ids(&conversation), [2, 1, 3]);
    let message = conversation.messages().get(&MessageId::from(1)).unwrap();
    assert_eq!(message.message(), &NewTextMessage("one again".into()));
    assert!(!message.acked());
    let _ = conversation.new_message(text(3, 1, "three again", 5), &HistoryLength::All);
    assert_eq!(ids(&conversation), [3, 2, 1]);
    let _ = conversation.new_message(text(2, 1, "two again", 20), &HistoryLength::All);
    assert_eq!(ids(&conversation), [3, 2, 1]);
}

#[test]
fn number_of_messages_keeps_the_newest() {
    let mut conversation = conversation();
    for id in 1..=4 {
        let _ = conversation.new_message(text(id, 1, "m", id * 10), &HistoryLength::All);
    }
    let limit = HistoryLength::NumberOfMessages(3);
    // the newcomer is the oldest, so it goes too
    let _ = conversation.new_message(text(5, 1, "old", 5), &limit);
    assert_eq!(ids(&conversation), [2, 3, 4]);
    let _ = conversation.new_message(text(6, 1, "new", 50), &limit);
    assert_eq!(ids(&conversation), [3, 4, 6]);
    // below the limit nothing goes
    let _ = conversation.new_message(text(7, 1, "new", 60), &HistoryLength::NumberOfMessages(9));
    assert_eq!(ids(&conversation), [3, 4, 6, 7]);
    let _ = conversation.new_message(text(8, 1, "new", 70), &HistoryLength::NumberOfMessages(0));
    assert!(conversation.messages().is_empty());
}

#[test]
fn duration_keeps_what_is_no_older() {
    let mut conversation = conversation();
    let now = TimeStamp::from(10_000u64);
    for (id, time) in [(1, 6_999), (2, 7_000), (3, 7_001), (4, 10_000)] {
        let _ = conversation.new_message(text(id, 1, "m", time), &HistoryLength::All);
    }
    let limit = HistoryLength::Duration(Duration::from_secs(3));
    let action = conversation.new_message_at(text(5, 1, "m", 12_000), &limit, now);
    assert!(matches!(action, Action::Nothing));
    // exactly three seconds old is still in
    assert_eq!(ids(&conversation), [2, 3, 4, 5]);
    // a message that is too old when it comes in goes at once
    let _ = conversation.new_message_at(text(6, 1, "m", 1), &limit, now);
    assert_eq!(ids(&conversation), [2, 3, 4, 5]);
    // trimming again changes nothing
    let _ = conversation.new_message_at(text(5, 1, "m", 12_000), &limit, now);
    assert_eq!(ids(&conversation), [2, 3, 4, 5]);
}

#[test]
fn parts_of_a_millisecond_do_not_count() {
    let duration = Duration { secs: 2, nanos: 999_999_999 };
    assert_eq!(duration.as_millis(), 2_999);
    assert_eq!(Duration::from_secs(u64::MAX).as_millis(), u64::MAX as u128 * 1000);
}

#[test]
fn a_history_longer_than_time_is_refused() {
    let mut conversation = conversation();
    let _ = conversation.new_message(text(1, 1, "one", 10), &HistoryLength::All);
    let limit = HistoryLength::Duration(Duration::from_secs(u64::MAX));
    assert!(conversation.new_message(text(2, 1, "two", 20), &limit).is_none());
    assert_eq!(ids(&conversation), [1]);
    // an emoji in reply trims nothing, so it does not matter there
    assert!(conversation.new_message(emoji(3, 2, 1, "👍", 30), &limit).is_some());
    assert_eq!(ids(&conversation), [1]);
    // no time at all is always possible
    let nothing = HistoryLength::Duration(Duration::from_secs(0));
    assert!(conversation.new_message(text(4, 1, "four", 40), &nothing).is_some());
    assert!(conversation.messages().is_empty());
}

#[test]
fn emoji_replies_do_not_trim() {
    let mut conversation = conversation();
    for id in 1..=3 {
        let _ = conversation.new_message(text(id, 1, "m", id), &HistoryLength::All);
    }
    let _ = conversation.new_message(emoji(9, 2, 1, "👍", 9), &HistoryLength::NumberOfMessages(1));
    assert_eq!(ids(&conversation), [1, 2, 3]);
}

#[test]
fn emoji_replies_list_their_senders() {
    let mut conversation = conversation();
    let _ = conversation.new_message(text(1, 100, "m", 1), &HistoryLength::All);
    for (from, content) in [(200, "👍"), (300, "❤️"), (400, "👍"), (200, "👍")] {
        let _ = conversation.new_message(emoji(from, from, 1, content, 2), &HistoryLength::All);
    }
    let message = conversation.messages().get(&MessageId::from(1)).unwrap();
    let senders = |content: &str| -> Vec<u64> {
        message.emojis().get(content).unwrap().iter().map(|node| node.0).collect()
    };
    assert_eq!(senders("👍"), [200, 400, 200]);
    assert_eq!(senders("❤️"), [300]);
    assert!(!message.emojis().contains_key("🎉"));
    assert!(message.emojis().get("🎉").is_none());
    assert_eq!(message, &message.clone());
}

#[test]
fn my_own_messages_scroll_to_the_end() {
    let mut conversation = conversation();
    let mine = conversation.new_message(text(1, 100, "mine", 1), &HistoryLength::All);
    assert!(matches!(mine, Some(Action::SnapToEnd)));
    let other = conversation.new_message(text(2, 200, "other", 2), &HistoryLength::All);
    assert!(matches!(other, Some(Action::Nothing)));
    // also where the emoji has nowhere to go
    let emoji = conversation.new_message(emoji(3, 100, 999, "👍", 3), &HistoryLength::All);
    assert!(matches!(emoji, Some(Action::SnapToEnd)));
}

#[test]
fn acknowledging_twice_is_acknowledging_once() {
    let mut conversation = conversation();
    let _ = conversation.new_message(text(1, 1, "one", 1), &HistoryLength::All);
    let _ = conversation.new_message(text(2, 1, "two", 2), &HistoryLength::All);
    conversation.ack(MessageId::from(2));
    conversation.ack(MessageId::from(2));
    let acked: Vec<bool> =
        conversation.messages().values().iter().map(|message| message.acked()).collect();
    assert_eq!(acked, [false, true]);
    assert_eq!(conversation.unread_count(true, true), 2);
}

#[test]
fn new_messages_are_unread_and_emoji_replies_are_not() {
    let mut conversation = conversation();
    let _ = conversation.new_message(text(1, 1, "one", 10), &HistoryLength::All);
    assert_eq!(conversation.unread_count(true, true), 1);
    let _ = conversation.new_message(text(2, 1, "older", 5), &HistoryLength::All);
    assert_eq!(conversation.unread_count(true, true), 2);
    let mut seen = text(3, 1, "seen", 20);
    seen.mark_seen();
    let _ = conversation.new_message(seen, &HistoryLength::All);
    assert_eq!(conversation.unread_count(true, true), 2);
    let _ = conversation.new_message(emoji(4, 2, 1, "👍", 30), &HistoryLength::All);
    let _ = conversation.new_message(emoji(5, 2, 3, "👍", 30), &HistoryLength::All);
    let _ = conversation.new_message(emoji(6, 2, 99, "👍", 30), &HistoryLength::All);
    assert_eq!(conversation.unread_count(true, true), 2);
    assert_eq!(conversation.messages().len(), 3);
}

#[test]
fn a_message_is_refused_where_the_clock_stands_too_early() {
    let mut conversation = conversation();
    let limit = HistoryLength::Duration(Duration::from_secs(3));
    let early = TimeStamp::from(2_999u64);
    assert!(conversation.try_new_message_at(text(1, 1, "one", 10), &limit, early).is_none());
    assert!(conversation.messages().is_empty());
    // three seconds after the epoch is late enough
    let late = TimeStamp::from(3_000u64);
    let action = conversation.try_new_message_at(text(1, 1, "one", 10), &limit, late);
    assert!(matches!(action, Some(Action::Nothing)));
    assert_eq!(ids(&conversation), [1]);
    // the clock matters neither to an emoji in reply nor to the other lengths
    let epoch = TimeStamp::from(0u64);
    let action = conversation.try_new_message_at(emoji(2, 100, 1, "👍", 20), &limit, epoch);
    assert!(matches!(action, Some(Action::SnapToEnd)));
    let all = HistoryLength::All;
    assert!(conversation.try_new_message_at(text(3, 1, "three", 30), &all, epoch).is_some());
    let one = HistoryLength::NumberOfMessages(1);
    assert!(conversation.try_new_message_at(text(4, 1, "four", 40), &one, epoch).is_some());
    assert_eq!(ids(&conversation), [4]);
}
