use chrono::{Datelike, Local, TimeDelta};
use meshchat::calendar::LocalTime;
use meshchat::config::HistoryLength;
use meshchat::conversation::ChannelViewMessage;
use meshchat::conversation::ChannelViewMessage::{
    CancelPrepareReply, ClearMessage, MessageInput, MessageSeen, PrepareReply, SendMessage,
};
use meshchat::conversation::Conversation;
use meshchat::conversation_id::{ConversationId, MessageId, NodeId};
use meshchat::device::DeviceMessage;
use meshchat::message::MCContent;
use meshchat::message::MCContent::{EmojiReply, NewTextMessage};
use meshchat::message::{MCMessage, MCPosition, MCUser};
use meshchat::timestamp::{Duration, TimeStamp};

#[test]
fn message_ordering_test() {
    let start = u64::try_from(u128::from(TimeStamp::now())).expect("milliseconds fit");
    let mut channel_view =
        Conversation::new(ConversationId::Channel(0.into()), NodeId::from(0u64));
    assert!(
        channel_view.messages().is_empty(),
        "Initial entries list should be empty"
    );

    // create a set of messages with more than a second between them
    // message ids are not in order
    let oldest_message = MCMessage::new(
        MessageId::from(1),
        NodeId::from(1u64),
        NewTextMessage("Hello 1".to_string()),
        TimeStamp::from(start),
    );

    let middle_message = MCMessage::new(
        MessageId::from(2),
        NodeId::from(1000u64),
        NewTextMessage("Hello 2".to_string()),
        TimeStamp::from(start + 1500),
    );

    let newest_message = MCMessage::new(
        MessageId::from(3),
        NodeId::from(500u64),
        NewTextMessage("Hello 3".to_string()),
        TimeStamp::from(start + 3000),
    );

    // Add them out of order - they should be ordered by the time of creation, not entry
    let _ = channel_view.new_message(newest_message.clone(), &HistoryLength::All);
    let _ = channel_view.new_message(middle_message.clone(), &HistoryLength::All);
    let _ = channel_view.new_message(oldest_message.clone(), &HistoryLength::All);
    assert_eq!(
        channel_view.messages().values().len(),
        3,
        "There should be 3 messages in the list"
    );
    assert_eq!(
        channel_view.unread_count(true, true),
        3,
        "The unread count should be 3"
    );

    // Check the order is correct
    let mut iter = channel_view.messages().values().into_iter();
    assert_eq!(
        iter.next().expect("iterator should have first entry"),
        &oldest_message,
        "The oldest message should be first"
    );
    assert_eq!(
        iter.next().expect("iterator should have second entry"),
        &middle_message,
        "The middle message should be second"
    );
    assert_eq!(
        iter.next().expect("iterator should have third entry"),
        &newest_message,
        "The newest message should be third"
    );
}

#[test]
fn test_initial_unread_count() {
    let channel_view = Conversation::new(ConversationId::Channel(0.into()), NodeId::from(0u64));
    assert_eq!(channel_view.unread_count(true, true), 0);
}

#[test]
fn test_unread_count() {
    let mut channel_view =
        Conversation::new(ConversationId::Channel(0.into()), NodeId::from(0u64));
    let message = MCMessage::new(
        MessageId::from(1),
        NodeId::from(1u64),
        NewTextMessage("Hello 1".to_string()),
        TimeStamp::now(),
    );
    let _ = channel_view.new_message(message.clone(), &HistoryLength::All);
    assert_eq!(channel_view.unread_count(true, true), 1);
}

#[test]
fn test_replying_valid_entry() {
    let mut channel_view =
        Conversation::new(ConversationId::Channel(0.into()), NodeId::from(0u64));
    let message = MCMessage::new(
        MessageId::from(1),
        NodeId::from(1u64),
        NewTextMessage("Hello 1".to_string()),
        TimeStamp::now(),
    );
    let _ = channel_view.new_message(message, &HistoryLength::All);

    // Use the actual message ID (1), not an index
    let _ = channel_view.update(PrepareReply(MessageId::from(1)));

    assert_eq!(channel_view.preparing_reply_to(), Some(MessageId::from(1)));
}

#[test]
fn test_replying_invalid_entry() {
    let mut channel_view =
        Conversation::new(ConversationId::Channel(0.into()), NodeId::from(0u64));
    let message = MCMessage::new(
        MessageId::from(1),
        NodeId::from(1u64),
        NewTextMessage("Hello 1".to_string()),
        TimeStamp::now(),
    );
    let _ = channel_view.new_message(message, &HistoryLength::All);

    // Use a non-existent message ID (999) - should not set preparing_reply
    let _ = channel_view.update(PrepareReply(MessageId::from(999)));

    assert!(channel_view.preparing_reply_to().is_none());
}

#[test]
fn test_cancel_prepare_reply() {
    let mut channel_view =
        Conversation::new(ConversationId::Channel(0.into()), NodeId::from(0u64));
    let message = MCMessage::new(
        MessageId::from(1),
        NodeId::from(1u64),
        NewTextMessage("test".into()),
        TimeStamp::now(),
    );
    let _ = channel_view.new_message(message, &HistoryLength::All);
    let _ = channel_view.update(PrepareReply(MessageId::from(1))); // Use actual message ID
    assert!(channel_view.preparing_reply_to().is_some());

    let _ = channel_view.update(CancelPrepareReply);
    assert!(channel_view.preparing_reply_to().is_none());
}

#[test]
fn test_cancel_interactive() {
    let mut channel_view =
        Conversation::new(ConversationId::Channel(0.into()), NodeId::from(0u64));
    let message = MCMessage::new(
        MessageId::from(1),
        NodeId::from(1u64),
        NewTextMessage("test".into()),
        TimeStamp::now(),
    );
    let _ = channel_view.new_message(message, &HistoryLength::All);
    let _ = channel_view.update(PrepareReply(MessageId::from(1))); // Use actual message ID
    assert!(channel_view.preparing_reply_to().is_some());

    channel_view.cancel_interactive();
    assert!(channel_view.preparing_reply_to().is_none());
}

#[test]
fn test_message_input() {
    let mut channel_view =
        Conversation::new(ConversationId::Channel(0.into()), NodeId::from(0u64));
    assert!(channel_view.message().is_empty());

    let _ = channel_view.update(MessageInput("Hello".into()));
    assert_eq!(channel_view.message(), "Hello");
}

#[test]
fn test_message_input_max_length() {
    let mut channel_view =
        Conversation::new(ConversationId::Channel(0.into()), NodeId::from(0u64));

    // Message longer than 200 chars should be rejected
    let long_message = "a".repeat(250);
    let _ = channel_view.update(MessageInput(long_message));
    assert!(channel_view.message().is_empty());

    // Message of 199 chars should be accepted
    let valid_message = "b".repeat(199);
    let _ = channel_view.update(MessageInput(valid_message.clone()));
    assert_eq!(channel_view.message(), valid_message);
}

#[test]
fn test_clear_message() {
    let mut channel_view =
        Conversation::new(ConversationId::Channel(0.into()), NodeId::from(0u64));
    let _ = channel_view.update(MessageInput("Hello".into()));
    assert!(!channel_view.message().is_empty());

    let _ = channel_view.update(ClearMessage);
    assert!(channel_view.message().is_empty());
}

#[test]
fn test_send_message_empty() {
    let mut channel_view =
        Conversation::new(ConversationId::Channel(0.into()), NodeId::from(0u64));
    // Empty message should not trigger a send task
    let _ = channel_view.update(SendMessage(None));
    // No crash, the message should still be empty
    assert!(channel_view.message().is_empty());
}

#[test]
fn test_send_message_clears_text() {
    let mut channel_view =
        Conversation::new(ConversationId::Channel(0.into()), NodeId::from(0u64));
    let _ = channel_view.update(MessageInput("Hello world".into()));
    assert!(!channel_view.message().is_empty());

    let _ = channel_view.update(SendMessage(None));
    assert!(channel_view.message().is_empty());
}

#[test]
fn test_send_message_clears_preparing_reply() {
    let mut channel_view =
        Conversation::new(ConversationId::Channel(0.into()), NodeId::from(0u64));
    let message = MCMessage::new(
        MessageId::from(1),
        NodeId::from(1u64),
        NewTextMessage("test".into()),
        TimeStamp::now(),
    );
    let _ = channel_view.new_message(message, &HistoryLength::All);
    let _ = channel_view.update(PrepareReply(MessageId::from(1))); // Use actual message ID
    let _ = channel_view.update(MessageInput("Reply text".into()));

    let _ = channel_view.update(SendMessage(Some(MessageId::from(1))));
    assert!(channel_view.preparing_reply_to().is_none());
}

#[test]
fn test_ack_message() {
    let mut channel_view =
        Conversation::new(ConversationId::Channel(0.into()), NodeId::from(0u64));
    let message = MCMessage::new(
        MessageId::from(42),
        NodeId::from(1u64),
        NewTextMessage("test".into()),
        TimeStamp::now(),
    );
    let _ = channel_view.new_message(message, &HistoryLength::All);

    assert!(
        !channel_view
            .messages()
            .get(&MessageId::from(42))
            .expect("entry 42 should exist")
            .acked()
    );

    channel_view.ack(MessageId::from(42));
    assert!(
        channel_view
            .messages()
            .get(&MessageId::from(42))
            .expect("entry 42 should exist after ack")
            .acked()
    );
}

#[test]
fn test_ack_nonexistent_message() {
    let mut channel_view =
        Conversation::new(ConversationId::Channel(0.into()), NodeId::from(0u64));
    // Should not panic
    channel_view.ack(MessageId::from(999));
}

#[test]
fn test_message_seen() {
    let mut channel_view =
        Conversation::new(ConversationId::Channel(0.into()), NodeId::from(0u64));
    let message = MCMessage::new(
        MessageId::from(42),
        NodeId::from(1u64),
        NewTextMessage("test".into()),
        TimeStamp::now(),
    );
    let timestamp = message.time();
    let _ = channel_view.new_message(message, &HistoryLength::All);

    assert!(
        !channel_view
            .messages()
            .get(&MessageId::from(42))
            .expect("entry 42 should exist")
            .seen()
    );
    assert_eq!(channel_view.unread_count(true, true), 1);

    let _ = channel_view.update(MessageSeen(MessageId::from(42), timestamp));
    assert!(
        channel_view
            .messages()
            .get(&MessageId::from(42))
            .expect("entry 42 should exist after marking seen")
            .seen()
    );
    assert_eq!(channel_view.unread_count(true, true), 0);
}

#[test]
fn test_trim_history_by_number() {
    let mut channel_view =
        Conversation::new(ConversationId::Channel(0.into()), NodeId::from(0u64));

    // Add 5 messages
    for i in 0u64..5u64 {
        let message = MCMessage::new(
            MessageId::from(i),
            NodeId::from(1u64),
            NewTextMessage(format!("msg {}", i)),
            TimeStamp::from(i),
        );
        let _ = channel_view.new_message(message, &HistoryLength::All);
    }
    assert_eq!(channel_view.messages().len(), 5);

    // Adding the 6th message with a limit of 3 should trim to 3
    let message = MCMessage::new(
        MessageId::from(5),
        NodeId::from(1u64),
        NewTextMessage("msg 5".into()),
        TimeStamp::from(5u64),
    );
    let _ = channel_view.new_message(message, &HistoryLength::NumberOfMessages(3));
    assert_eq!(channel_view.messages().len(), 3);

    // The oldest messages should have been removed
    assert!(!channel_view.messages().contains_key(&MessageId::from(0)));
    assert!(!channel_view.messages().contains_key(&MessageId::from(1)));
    assert!(!channel_view.messages().contains_key(&MessageId::from(2)));
    assert!(channel_view.messages().contains_key(&MessageId::from(3)));
    assert!(channel_view.messages().contains_key(&MessageId::from(4)));
    assert!(channel_view.messages().contains_key(&MessageId::from(5)));
}

#[test]
fn test_trim_history_by_duration() {
    let mut channel_view =
        Conversation::new(ConversationId::Channel(0.into()), NodeId::from(0u64));
    let now = TimeStamp::now();

    // Add an old message (2 hours ago)
    let old_time = now - TimeStamp::from(7_200_000_u64);
    let old_message = MCMessage::new(
        MessageId::from(1),
        NodeId::from(1u64),
        NewTextMessage("old".into()),
        old_time,
    );
    let _ = channel_view.new_message(old_message, &HistoryLength::All);

    // Add a recent message (now)
    let new_message = MCMessage::new(
        MessageId::from(2),
        NodeId::from(1u64),
        NewTextMessage("new".into()),
        now,
    );
    // Trim history to 1 hour (3600 seconds)
    let _ = channel_view.new_message(
        new_message,
        &HistoryLength::Duration(Duration::from_secs(3600)),
    );

    // Old message should be trimmed
    assert_eq!(channel_view.messages().len(), 1);
    assert!(channel_view.messages().contains_key(&MessageId::from(2)));
}

#[test]
fn test_emoji_reply_adds_to_existing_message() {
    let mut channel_view =
        Conversation::new(ConversationId::Channel(0.into()), NodeId::from(0u64));

    // Add the original message
    let original = MCMessage::new(
        MessageId::from(1),
        NodeId::from(100u64),
        NewTextMessage("Hello".into()),
        TimeStamp::now(),
    );
    let _ = channel_view.new_message(original, &HistoryLength::All);
    assert_eq!(channel_view.messages().len(), 1);

    // Add emoji reply to message 1
    let emoji_reply = MCMessage::new(
        MessageId::from(2),
        NodeId::from(200u64),
        EmojiReply(MessageId::from(1), "👍".into()),
        TimeStamp::now(),
    );
    let _ = channel_view.new_message(emoji_reply, &HistoryLength::All);

    // Should still only have 1 entry (the original)
    assert_eq!(channel_view.messages().len(), 1);
    // But the original should now have the emoji
    let original_entry = channel_view
        .messages()
        .get(&MessageId::from(1))
        .expect("original entry should exist after emoji reply");
    assert!(original_entry.emojis().contains_key("👍"));
}

#[test]
fn test_new_default() {
    let channel_view = Conversation::default();
    assert_eq!(channel_view.conversation_id(), ConversationId::default());
    assert!(channel_view.message().is_empty());
    assert!(channel_view.messages().is_empty());
    assert!(channel_view.preparing_reply_to().is_none());
}

#[test]
fn test_my_message_scrolls() {
    let mut channel_view =
        Conversation::new(ConversationId::Channel(0.into()), NodeId::from(100u64));

    // Message from me (node 100)
    let my_message = MCMessage::new(
        MessageId::from(1),
        NodeId::from(100u64),
        NewTextMessage("my msg".into()),
        TimeStamp::now(),
    );
    let task = channel_view.new_message(my_message, &HistoryLength::All);

    // Should return a scroll task (not Task::none)
    // We can't easily check the task type, but we can verify the message was added
    assert_eq!(channel_view.messages().len(), 1);
    // The task should not be none - it should be a snap_to operation
    drop(task); // Just verify it doesn't panic
}

#[test]
fn test_others_message_no_scroll() {
    let mut channel_view =
        Conversation::new(ConversationId::Channel(0.into()), NodeId::from(100u64));

    // Message from someone else (node 200)
    let other_message = MCMessage::new(
        MessageId::from(1),
        NodeId::from(200u64),
        NewTextMessage("other msg".into()),
        TimeStamp::now(),
    );
    let _task = channel_view.new_message(other_message, &HistoryLength::All);

    assert_eq!(channel_view.messages().len(), 1);
}

#[test]
fn test_channel_view_debug() {
    let channel_view =
        Conversation::new(ConversationId::Channel(0.into()), NodeId::from(100u64));
    let debug_str = format!("{:?}", channel_view);
    assert!(debug_str.contains("Conversation"));
}

#[test]
fn test_channel_view_message_debug() {
    let msg = MessageInput("test".into());
    let debug_str = format!("{:?}", msg);
    assert!(debug_str.contains("MessageInput"));
}

#[test]
fn test_channel_view_message_clone() {
    let msg = PrepareReply(MessageId::from(42));
    let cloned = msg.clone();
    assert!(matches!(cloned, PrepareReply(id) if id == MessageId::from(42)));
}

#[test]
fn test_pick_channel() {
    let mut channel_view =
        Conversation::new(ConversationId::Channel(0.into()), NodeId::from(0u64));
    let _task = channel_view.update(ChannelViewMessage::PickChannel(Some(
        ConversationId::Channel(1.into()),
    )));
    // Should return a Task, not panic
}

#[test]
fn test_pick_channel_none() {
    let mut channel_view =
        Conversation::new(ConversationId::Channel(0.into()), NodeId::from(0u64));
    let _task = channel_view.update(ChannelViewMessage::PickChannel(None));
    // Should return a Task, not panic
}

#[test]
fn test_reply_with_emoji() {
    let mut channel_view =
        Conversation::new(ConversationId::Channel(0.into()), NodeId::from(0u64));
    let _task = channel_view.update(ChannelViewMessage::ReplyWithEmoji(
        MessageId::from(42),
        "👍".into(),
        ConversationId::Channel(0.into()),
    ));
    // Should return a Task, not panic
}

#[test]
fn test_share_meshchat() {
    let mut channel_view =
        Conversation::new(ConversationId::Channel(0.into()), NodeId::from(0u64));
    assert!(channel_view.message().is_empty());

    let _task = channel_view.update(ChannelViewMessage::ShareMeshChat);
    assert!(channel_view.message().contains("MeshChat"));
    assert!(channel_view.message().contains("github.com"));
}

#[test]
fn test_unread_count_with_position_hidden() {
    let mut channel_view =
        Conversation::new(ConversationId::Channel(0.into()), NodeId::from(0u64));

    // Add a text message
    let text_msg = MCMessage::new(
        MessageId::from(1),
        NodeId::from(1u64),
        NewTextMessage("test".into()),
        TimeStamp::now(),
    );
    let _ = channel_view.new_message(text_msg, &HistoryLength::All);

    // Add a position message
    let pos_msg = MCMessage::new(
        MessageId::from(2),
        NodeId::from(1u64),
        MCContent::PositionMessage(MCPosition {
            latitude: 0.0f64.to_bits(),
            longitude: 0.0f64.to_bits(),
        }),
        TimeStamp::now(),
    );
    let _ = channel_view.new_message(pos_msg, &HistoryLength::All);

    // With position updates shown, should be 2 unread
    assert_eq!(channel_view.unread_count(true, true), 2);

    // With position updates hidden, should be 1 unread
    assert_eq!(channel_view.unread_count(false, true), 1);
}

#[test]
fn test_unread_count_with_user_hidden() {
    let mut channel_view =
        Conversation::new(ConversationId::Channel(0.into()), NodeId::from(0u64));

    // Add a text message
    let text_msg = MCMessage::new(
        MessageId::from(1),
        NodeId::from(1u64),
        NewTextMessage("test".into()),
        TimeStamp::now(),
    );
    let _ = channel_view.new_message(text_msg, &HistoryLength::All);

    // Add a user message
    let user_msg = MCMessage::new(
        MessageId::from(2),
        NodeId::from(1u64),
        MCContent::UserMessage(MCUser {
            id: "test".into(),
            long_name: "Test".into(),
            short_name: "T".into(),
            hw_model_str: "".into(),
            hw_model: 0,
            is_licensed: false,
            role_str: "".into(),
            role: 0,
            public_key: vec![],
            is_unmessagable: false,
        }),
        TimeStamp::now(),
    );
    let _ = channel_view.new_message(user_msg, &HistoryLength::All);

    // With user updates shown, should be 2 unread
    assert_eq!(channel_view.unread_count(true, true), 2);

    // With user updates hidden, should be 1 unread
    assert_eq!(channel_view.unread_count(true, false), 1);
}

#[test]
fn test_emoji_reply_to_nonexistent_message() {
    let mut channel_view =
        Conversation::new(ConversationId::Channel(0.into()), NodeId::from(0u64));

    // Try to add emoji reply to the message that doesn't exist
    let emoji_reply = MCMessage::new(
        MessageId::from(2),
        NodeId::from(200u64),
        EmojiReply(MessageId::from(999), "👍".into()),
        TimeStamp::now(),
    );
    let _ = channel_view.new_message(emoji_reply, &HistoryLength::All);

    // Should still have 0 entries (emoji reply doesn't create the new entry)
    assert_eq!(channel_view.messages().len(), 0);
}

#[test]
fn test_message_seen_nonexistent() {
    let mut channel_view =
        Conversation::new(ConversationId::Channel(0.into()), NodeId::from(0u64));
    // Should not panic when marking a nonexistent message as seen
    let _ = channel_view.update(MessageSeen(MessageId::from(999), TimeStamp::now()));
}

#[test]
fn test_trim_history_all() {
    let mut channel_view =
        Conversation::new(ConversationId::Channel(0.into()), NodeId::from(0u64));

    // Add many messages
    for i in 0u64..10u64 {
        let message = MCMessage::new(
            MessageId::from(i),
            NodeId::from(1u64),
            NewTextMessage(format!("msg {}", i)),
            TimeStamp::from(i),
        );
        let _ = channel_view.new_message(message, &HistoryLength::All);
    }

    // All messages should be kept
    assert_eq!(channel_view.messages().len(), 10);
}

#[test]
fn test_multiple_emoji_replies() {
    let mut channel_view =
        Conversation::new(ConversationId::Channel(0.into()), NodeId::from(0u64));

    // Add the original message
    let original = MCMessage::new(
        MessageId::from(1),
        NodeId::from(100u64),
        NewTextMessage("Hello".into()),
        TimeStamp::now(),
    );
    let _ = channel_view.new_message(original, &HistoryLength::All);

    // Add multiple emoji replies
    let emoji1 = MCMessage::new(
        MessageId::from(2),
        NodeId::from(200u64),
        EmojiReply(MessageId::from(1), "👍".into()),
        TimeStamp::now(),
    );
    let _ = channel_view.new_message(emoji1, &HistoryLength::All);

    let emoji2 = MCMessage::new(
        MessageId::from(3),
        NodeId::from(300u64),
        EmojiReply(MessageId::from(1), "❤️".into()),
        TimeStamp::now(),
    );
    let _ = channel_view.new_message(emoji2, &HistoryLength::All);

    let emoji3 = MCMessage::new(
        MessageId::from(4),
        NodeId::from(200u64),
        EmojiReply(MessageId::from(1), "👍".into()),
        TimeStamp::now(),
    );
    let _ = channel_view.new_message(emoji3, &HistoryLength::All);

    // Should still only have 1 entry
    assert_eq!(channel_view.messages().len(), 1);

    // Original should have multiple emojis
    let original_entry = channel_view
        .messages()
        .get(&MessageId::from(1))
        .expect("Original message with id 1 should exist after adding emoji replies");
    assert!(original_entry.emojis().contains_key("👍"));
    assert!(original_entry.emojis().contains_key("❤️"));
}

#[test]
fn test_text_message_reply() {
    let mut channel_view =
        Conversation::new(ConversationId::Channel(0.into()), NodeId::from(0u64));

    // Add the original message
    let original = MCMessage::new(
        MessageId::from(1),
        NodeId::from(100u64),
        NewTextMessage("Hello".into()),
        TimeStamp::now(),
    );
    let _ = channel_view.new_message(original, &HistoryLength::All);

    // Add a text reply
    let reply = MCMessage::new(
        MessageId::from(2),
        NodeId::from(200u64),
        MCContent::TextMessageReply(MessageId::from(1), "Hi there!".into()),
        TimeStamp::now(),
    );
    let _ = channel_view.new_message(reply, &HistoryLength::All);

    // Should have 2 entries
    assert_eq!(channel_view.messages().len(), 2);
}

#[test]
fn test_alert_message() {
    let mut channel_view =
        Conversation::new(ConversationId::Channel(0.into()), NodeId::from(0u64));

    let alert = MCMessage::new(
        MessageId::from(1),
        NodeId::from(100u64),
        MCContent::AlertMessage("Emergency!".into()),
        TimeStamp::now(),
    );
    let _ = channel_view.new_message(alert, &HistoryLength::All);

    assert_eq!(channel_view.messages().len(), 1);
}

// View function tests

#[test]
fn test_empty_view() {
    let channel_view = Conversation::new(ConversationId::Channel(0.into()), NodeId::from(0u64));
    let view = channel_view
        .channel_view(true, true, true, true)
        .expect("nothing to show, so no date is needed");
    // There is no list of messages in an empty channel
    assert!(view.rows.is_none());
}

fn local(time: chrono::DateTime<Local>) -> LocalTime {
    LocalTime::of(TimeStamp::from(time.timestamp_millis() as u64)).expect("time in range")
}

#[test]
fn test_day_separator_today() {
    let now = Local::now();
    let label = Conversation::day_separator(&local(now));
    // Should show "Today" for the current day
    assert_eq!(label, "Today");
}

#[test]
fn test_day_separator_past_day_same_week() {
    let now = Local::now();
    let past = now - TimeDelta::days(2);
    let label = Conversation::day_separator(&local(past));
    // Should show day name only
    let format = if past.iso_week() == now.iso_week() {
        "%A"
    } else if past.year() == now.year() {
        "%A, %b %e"
    } else {
        "%A, %b %e, %Y"
    };
    assert_eq!(label, past.format(format).to_string());
}

#[test]
fn test_day_separator_past_week() {
    let now = Local::now();
    let past = now - TimeDelta::days(10);
    let label = Conversation::day_separator(&local(past));
    // Should show day name with month and date
    let format = if past.year() == now.year() {
        "%A, %b %e"
    } else {
        "%A, %b %e, %Y"
    };
    assert_eq!(label, past.format(format).to_string());
}

#[test]
fn test_day_separator_past_year() {
    let past = Local::now() - TimeDelta::days(400);
    let label = Conversation::day_separator(&local(past));
    // Should show the full date with year
    assert_eq!(label, past.format("%A, %b %e, %Y").to_string());
}

#[test]
fn test_send_button_empty_message() {
    let channel_view = Conversation::new(ConversationId::Channel(0.into()), NodeId::from(100u64));
    let button = channel_view.send_button();
    // Button should be disabled when the message is empty
    assert!(button.is_none());
}

#[test]
fn test_send_button_with_message() {
    let mut channel_view =
        Conversation::new(ConversationId::Channel(0.into()), NodeId::from(100u64));
    let _ = channel_view.update(MessageInput("Hello".into()));
    let button = channel_view.send_button();
    // Button should be enabled when the message is not empty
    assert!(matches!(
        button,
        Some(DeviceMessage::ChannelMsg(ConversationId::Channel(_), SendMessage(None)))
    ));
}

#[test]
fn test_clear_button_empty_message() {
    let channel_view = Conversation::new(ConversationId::Channel(0.into()), NodeId::from(100u64));
    let button = channel_view.clear_button();
    // Button should be disabled when the message is empty
    assert!(button.is_none());
}

#[test]
fn test_clear_button_with_message() {
    let mut channel_view =
        Conversation::new(ConversationId::Channel(0.into()), NodeId::from(100u64));
    let _ = channel_view.update(MessageInput("Hello".into()));
    let button = channel_view.clear_button();
    // Button should be enabled when the message is not empty
    assert!(matches!(
        button,
        Some(DeviceMessage::ChannelMsg(ConversationId::Channel(_), ClearMessage))
    ));
}

#[test]
fn test_input_box_empty() {
    let channel_view = Conversation::new(ConversationId::Channel(0.into()), NodeId::from(100u64));
    let input = channel_view.input_box();
    assert_eq!(input.text, "");
    assert!(input.send.is_none());
    assert!(input.clear.is_none());
}

#[test]
fn test_input_box_with_message() {
    let mut channel_view =
        Conversation::new(ConversationId::Channel(0.into()), NodeId::from(100u64));
    let _ = channel_view.update(MessageInput("Hello world".into()));
    let input = channel_view.input_box();
    assert_eq!(input.text, "Hello world");
    assert!(input.send.is_some());
    assert!(input.clear.is_some());
}

#[test]
fn test_replying_to_with_valid_entry() {
    let mut channel_view =
        Conversation::new(ConversationId::Channel(0.into()), NodeId::from(100u64));
    let message = MCMessage::new(
        MessageId::from(1),
        NodeId::from(200u64),
        NewTextMessage("Original".into()),
        TimeStamp::now(),
    );
    let _ = channel_view.new_message(message, &HistoryLength::All);
    let _ = channel_view.update(PrepareReply(MessageId::from(1)));

    let row = channel_view
        .replying_to(&MessageId::from(1))
        .expect("a reply indicator");
    // Should add a reply indicator to the column
    assert_eq!(row.original, &NewTextMessage("Original".into()));
}

#[test]
fn test_replying_to_with_invalid_entry() {
    let channel_view = Conversation::new(ConversationId::Channel(0.into()), NodeId::from(100u64));
    // No messages in the channel view

    // Should add nothing
    assert!(channel_view.replying_to(&MessageId::from(999)).is_none());
}

#[test]
fn test_message_seen_updates_last_seen_timestamp() {
    // Test that last_seen_message is updated only when a newer timestamp is provided
    let mut channel_view =
        Conversation::new(ConversationId::Channel(0.into()), NodeId::from(0u64));

    // Add the first message with an older timestamp
    let older_timestamp = TimeStamp::from(1000u64);
    let message1 = MCMessage::new(
        MessageId::from(1),
        NodeId::from(1u64),
        NewTextMessage("older message".into()),
        older_timestamp,
    );
    let _ = channel_view.new_message(message1, &HistoryLength::All);

    // Add the second message with a newer timestamp
    let newer_timestamp = TimeStamp::from(2000u64);
    let message2 = MCMessage::new(
        MessageId::from(2),
        NodeId::from(1u64),
        NewTextMessage("newer message".into()),
        newer_timestamp,
    );
    let _ = channel_view.new_message(message2, &HistoryLength::All);

    // Mark the older message as seen first
    let _ = channel_view.update(MessageSeen(MessageId::from(1), older_timestamp));
    assert_eq!(channel_view.last_seen_message(), older_timestamp);

    // Mark the newer message as seen - should update last_seen_message
    let _ = channel_view.update(MessageSeen(MessageId::from(2), newer_timestamp));
    assert_eq!(channel_view.last_seen_message(), newer_timestamp);

    // Try to mark with an older timestamp again - should NOT update last_seen_message
    let even_older = TimeStamp::from(500u64);
    let message3 = MCMessage::new(
        MessageId::from(3),
        NodeId::from(1u64),
        NewTextMessage("even older".into()),
        even_older,
    );
    let _ = channel_view.new_message(message3, &HistoryLength::All);
    let _ = channel_view.update(MessageSeen(MessageId::from(3), even_older));
    // last_seen_message should still be newer_timestamp since even_older < newer_timestamp
    assert_eq!(channel_view.last_seen_message(), newer_timestamp);
}
