//! What a conversation asks of the device, and of the screen around it.
use crate::conversation::ChannelViewMessage;
use crate::conversation_id::{ConversationId, MessageId};
use vstd::prelude::*;

verus! {

/// A request to the device and the list of its conversations.
#[derive(Debug, Clone)]
pub enum DeviceMessage {
    /// Show a conversation, or none.
    ShowChannel(Option<ConversationId>),
    /// Send a text, in reply to a message if one is given.
    SendTextMessage(String, ConversationId, Option<MessageId>),
    /// Send an emoji in reply to a message.
    SendEmojiReplyMessage(MessageId, String, ConversationId),
    SendPositionMessage(ConversationId),
    SendSelfInfoMessage(ConversationId),
    /// Forward the message that is being forwarded to a conversation.
    ForwardMessage(ConversationId),
    StopForwardingMessage,
    /// Hand a message to a conversation.
    ChannelMsg(ConversationId, ChannelViewMessage),
}

/// What is left to do after a conversation has changed.
#[derive(Debug, Clone)]
pub enum Action {
    Nothing,
    /// Hand a request to the device.
    Emit(DeviceMessage),
    /// Move the keyboard focus to the message input.
    FocusMessageInput,
    /// Scroll to the end of the messages.
    SnapToEnd,
    /// Report that a message was expected and is not there.
    ReportMissing(MessageId),
}

} // verus!
