use meshchat::config::HistoryLength;
use meshchat::conversation::ChannelViewMessage::{
    CancelPrepareReply, ClearMessage, EmojiPickerMsg, FocusMessageInput, MessageInput, MessageSeen,
    PickChannel, PrepareReply, ReplyWithEmoji, SendMessage, ShareMeshChat,
};
use meshchat::conversation::Conversation;
use meshchat::conversation_id::{ConversationId, MessageId, NodeId};
use meshchat::device::{Action, DeviceMessage};
use meshchat::emoji_picker::PickerMessage;
use meshchat::message::MCContent::NewTextMessage;
use meshchat::message::MCMessage;
use meshchat::timestamp::TimeStamp;

const CHANNEL: ConversationId = ConversationId::Channel(meshchat::conversation_id::ChannelIndex(7));

fn conversation() -> Conversation {
    let mut conversation = Conversation::new(CHANNEL, NodeId::from(100u64));
    for id in 1..=2u64 {
        let message = MCMessage::new(
            MessageId::from(id),
            NodeId::from(1u64),
            NewTextMessage("text".into()),
            TimeStamp::from(id * 1000),
        );
        let _ = conversation.new_message(message, &HistoryLength::All);
    }
    conversation
}

#[test]
fn typed_text_is_sent_once() {
    let mut conversation = conversation();
    let _ = conversation.update(PrepareReply(MessageId::from(1)));
    assert!(matches!(conversation.update(MessageInput("Hello".into())), Action::Nothing));
    let action = conversation.update(SendMessage(Some(MessageId::from(1))));
    match action {
        Action::Emit(DeviceMessage::SendTextMessage(text, to, reply_to)) => {
            assert_eq!(text, "Hello");
            assert_eq!(to, CHANNEL);
            assert_eq!(reply_to, Some(MessageId::from(1)));
        }
        other => panic!("{:?}", other),
    }
    assert_eq!(conversation.message(), "");
    assert_eq!(conversation.preparing_reply_to(), None);
    assert!(matches!(conversation.update(SendMessage(None)), Action::Nothing));
}

#[test]
fn sending_nothing_keeps_the_reply() {
    let mut conversation = conversation();
    let _ = conversation.update(PrepareReply(MessageId::from(2)));
    assert!(matches!(conversation.update(SendMessage(None)), Action::Nothing));
    assert_eq!(conversation.preparing_reply_to(), Some(MessageId::from(2)));
}

#[test]
fn input_is_limited_in_bytes() {
    let mut conversation = conversation();
    let _ = conversation.update(MessageInput("kept".into()));
    let _ = conversation.update(MessageInput("a".repeat(200)));
    assert_eq!(conversation.message(), "kept");
    // two bytes each
    let _ = conversation.update(MessageInput("é".repeat(100)));
    assert_eq!(conversation.message(), "kept");
    let _ = conversation.update(MessageInput("é".repeat(99)));
    assert_eq!(conversation.message(), "é".repeat(99));
    let _ = conversation.update(ClearMessage);
    assert_eq!(conversation.message(), "");
}

#[test]
fn preparing_a_reply_asks_for_the_focus() {
    let mut conversation = conversation();
    match conversation.update(PrepareReply(MessageId::from(1))) {
        Action::Emit(DeviceMessage::ChannelMsg(to, FocusMessageInput)) => assert_eq!(to, CHANNEL),
        other => panic!("{:?}", other),
    }
    assert!(matches!(conversation.update(PrepareReply(MessageId::from(3))), Action::Nothing));
    // a reply to a message that is not there does not replace the one underway
    assert_eq!(conversation.preparing_reply_to(), Some(MessageId::from(1)));
    assert!(matches!(conversation.update(FocusMessageInput), Action::FocusMessageInput));
    assert!(matches!(conversation.update(CancelPrepareReply), Action::Nothing));
    assert_eq!(conversation.preparing_reply_to(), None);
}

#[test]
fn seen_messages_are_read() {
    let mut conversation = conversation();
    assert_eq!(conversation.unread_count(true, true), 2);
    let seen = MessageSeen(MessageId::from(2), TimeStamp::from(2000u64));
    assert!(matches!(conversation.update(seen.clone()), Action::Nothing));
    assert_eq!(conversation.unread_count(true, true), 1);
    assert!(matches!(conversation.update(seen), Action::Nothing));
    assert_eq!(conversation.unread_count(true, true), 1);
    assert_eq!(conversation.last_seen_message(), TimeStamp::from(2000u64));
    // an older message is read as well, and the newest time stays
    let _ = conversation.update(MessageSeen(MessageId::from(1), TimeStamp::from(1000u64)));
    assert_eq!(conversation.unread_count(true, true), 0);
    assert_eq!(conversation.last_seen_message(), TimeStamp::from(2000u64));
}

#[test]
fn seeing_a_missing_message_is_reported() {
    let mut conversation = conversation();
    match conversation.update(MessageSeen(MessageId::from(9), TimeStamp::from(9000u64))) {
        Action::ReportMissing(id) => assert_eq!(id, MessageId::from(9)),
        other => panic!("{:?}", other),
    }
    assert_eq!(conversation.last_seen_message(), TimeStamp::default());
    assert_eq!(conversation.unread_count(true, true), 2);
}

#[test]
fn requests_for_the_device() {
    let mut conversation = conversation();
    let node = ConversationId::Node(NodeId::from(5u64));
    match conversation.update(PickChannel(Some(node))) {
        Action::Emit(DeviceMessage::ShowChannel(id)) => assert_eq!(id, Some(node)),
        other => panic!("{:?}", other),
    }
    assert!(matches!(
        conversation.update(PickChannel(None)),
        Action::Emit(DeviceMessage::ShowChannel(None))
    ));
    match conversation.update(ReplyWithEmoji(MessageId::from(1), "👍".into(), node)) {
        Action::Emit(DeviceMessage::SendEmojiReplyMessage(id, emoji, to)) => {
            assert_eq!(id, MessageId::from(1));
            assert_eq!(emoji, "👍");
            assert_eq!(to, node);
        }
        other => panic!("{:?}", other),
    }
}

#[test]
fn sharing_types_a_text() {
    let mut conversation = conversation();
    assert!(matches!(conversation.update(ShareMeshChat), Action::FocusMessageInput));
    assert_eq!(
        conversation.message(),
        "I am using the MeshChat app. It's available for macOS/Windows/Linux from: \
        https://github.com/andrewdavidmackenzie/meshchat/releases/latest "
    );
    assert!(conversation.message().len() < 200);
}

#[test]
fn the_emoji_picker_forwards_messages() {
    let mut conversation = conversation();
    assert_eq!(conversation.emoji_picker().height, Some(400));
    assert_eq!(conversation.emoji_picker().width, Some(400));
    let select = EmojiPickerMsg(Box::new(PickerMessage::SelectGroup(3)));
    assert!(matches!(conversation.update(select), Action::Nothing));
    assert_eq!(conversation.emoji_picker().group, 3);
    let inner = ReplyWithEmoji(MessageId::from(1), "👍".into(), CHANNEL);
    let nested = EmojiPickerMsg(Box::new(PickerMessage::Forward(EmojiPickerMsg(Box::new(
        PickerMessage::Forward(inner),
    )))));
    assert!(matches!(
        conversation.update(nested.clone()),
        Action::Emit(DeviceMessage::SendEmojiReplyMessage(MessageId(1), _, CHANNEL))
    ));
    assert_eq!(conversation.emoji_picker().group, 3);
}

#[test]
fn times_can_be_subtracted() {
    assert_eq!(
        TimeStamp::from(5000u64) - TimeStamp::from(2000u64),
        TimeStamp::from(3000u64)
    );
}
