//! A conversation, and what happens to it.
use crate::clock::is_clock_reading;
use crate::config::HistoryLength;
use crate::conversation_id::{ChannelIndex, ConversationId, MessageId, NodeId};
use crate::device::{Action, DeviceMessage};
use crate::emoji_picker::{EmojiPicker, PickerMessage};
use crate::history::{
    by_time, distinct_ids, has_message, is_inserted, position_of, trimmed, MessageLog,
};
use crate::message::{with_reply, MCContent, MCMessage, MessageModel};
use crate::timestamp::{TimeStamp, LATEST_MILLIS};
use vstd::prelude::*;
use vstd::utf8::encode_utf8;

verus! {

/// The text that tells about the app.
pub const SHARE_TEXT: &'static str = "I am using the MeshChat app. It's available for macOS/Windows/Linux from: https://github.com/andrewdavidmackenzie/meshchat/releases/latest ";

/// What happens in the view of a conversation.
#[derive(Debug)]
pub enum ChannelViewMessage {
    /// The text in the message input changed.
    MessageInput(String),
    /// Empty the message input.
    ClearMessage,
    /// Send the text typed so far, in reply to a message if one is given.
    SendMessage(Option<MessageId>),
    /// Start a reply to a message.
    PrepareReply(MessageId),
    /// Give up the reply.
    CancelPrepareReply,
    /// A message was shown, and this is its time.
    MessageSeen(MessageId, TimeStamp),
    /// Show a conversation, or none.
    PickChannel(Option<ConversationId>),
    /// Send an emoji in reply to a message.
    ReplyWithEmoji(MessageId, String, ConversationId),
    /// Something happened in the emoji picker.
    EmojiPickerMsg(Box<PickerMessage<ChannelViewMessage>>),
    /// Type a text that tells about the app.
    ShareMeshChat,
    /// Move the keyboard focus to the message input.
    FocusMessageInput,
}

impl Clone for ChannelViewMessage {
    fn clone(&self) -> (copy: ChannelViewMessage)
        ensures
            copy == *self,
        decreases self,
    {
        match self {
            ChannelViewMessage::MessageInput(s) => ChannelViewMessage::MessageInput(s.clone()),
            ChannelViewMessage::ClearMessage => ChannelViewMessage::ClearMessage,
            ChannelViewMessage::SendMessage(id) => ChannelViewMessage::SendMessage(*id),
            ChannelViewMessage::PrepareReply(id) => ChannelViewMessage::PrepareReply(*id),
            ChannelViewMessage::CancelPrepareReply => ChannelViewMessage::CancelPrepareReply,
            ChannelViewMessage::MessageSeen(id, time) => ChannelViewMessage::MessageSeen(
                *id,
                *time,
            ),
            ChannelViewMessage::PickChannel(id) => ChannelViewMessage::PickChannel(*id),
            ChannelViewMessage::ReplyWithEmoji(id, emoji, to) => ChannelViewMessage::ReplyWithEmoji(
                *id,
                emoji.clone(),
                *to,
            ),
            ChannelViewMessage::EmojiPickerMsg(picker_message) => {
                let copy = match &**picker_message {
                    PickerMessage::SelectGroup(group) => PickerMessage::SelectGroup(*group),
                    PickerMessage::Forward(inner) => PickerMessage::Forward(inner.clone()),
                };
                ChannelViewMessage::EmojiPickerMsg(Box::new(copy))
            },
            ChannelViewMessage::ShareMeshChat => ChannelViewMessage::ShareMeshChat,
            ChannelViewMessage::FocusMessageInput => ChannelViewMessage::FocusMessageInput,
        }
    }
}

/// A conversation with a channel or a node: the messages so far, and what the user is up to.
#[derive(Debug)]
pub struct Conversation {
    conversation_id: ConversationId,
    /// The text typed so far.
    message: String,
    messages: MessageLog,
    my_node_num: NodeId,
    preparing_reply_to: Option<MessageId>,
    emoji_picker: EmojiPicker,
    /// The time of the newest message that was shown.
    last_seen_message: TimeStamp,
}

/// All there is to a conversation.
#[verifier::ext_equal]
pub struct ConversationModel {
    pub conversation_id: ConversationId,
    /// The text typed so far.
    pub draft: Seq<char>,
    pub messages: Seq<MessageModel>,
    pub my_node_num: NodeId,
    pub preparing_reply_to: Option<MessageId>,
    pub emoji_picker: EmojiPicker,
    pub last_seen_message: TimeStamp,
}

/// A text that fits in the message input: less than 200 bytes of UTF-8.
pub open spec fn fits_input(text: Seq<char>) -> bool {
    encode_utf8(text).len() < 200
}

/// The messages after one of them has changed.
pub open spec fn with_message(
    messages: Seq<MessageModel>,
    id: MessageId,
    change: spec_fn(MessageModel) -> MessageModel,
) -> Seq<MessageModel> {
    if has_message(messages, id) {
        let position = position_of(messages, id);
        messages.update(position, change(messages[position]))
    } else {
        messages
    }
}

pub open spec fn acknowledged(message: MessageModel) -> MessageModel {
    MessageModel { acked: true, ..message }
}

/// The message with one more emoji in reply to it.
pub open spec fn with_emoji(
    message: MessageModel,
    emoji: Seq<char>,
    sender: NodeId,
) -> MessageModel {
    MessageModel { emojis: with_reply(message.emojis, emoji, sender), ..message }
}

pub open spec fn marked_seen(message: MessageModel) -> MessageModel {
    MessageModel { seen: true, ..message }
}

/// Whether a message reads the clock when it comes in: it is kept, and what is kept with it
/// depends on its age.
pub open spec fn reads_clock(content: MCContent, history_length: HistoryLength) -> bool {
    !(content is EmojiReply) && history_length is Duration
}

/// Whether the clock stands late enough for the history: a duration ago there was an epoch.
pub open spec fn reaches_back(history_length: HistoryLength, now: TimeStamp) -> bool {
    history_length matches HistoryLength::Duration(duration) ==> duration.millis() <= now.0
}

/// Whether the messages after are those before with a new message taken in, at the time `now`.
///
/// An emoji in reply to a message is added to that message, and dropped if it is not there. Every
/// other message takes its place by time, and the history is trimmed.
pub open spec fn is_received(
    before: Seq<MessageModel>,
    message: MessageModel,
    history_length: HistoryLength,
    now: TimeStamp,
    after: Seq<MessageModel>,
) -> bool {
    match message.content {
        MCContent::EmojiReply(to, emoji) => after == with_message(
            before,
            to,
            |m: MessageModel| with_emoji(m, emoji@, message.from),
        ),
        _ => exists|inserted: Seq<MessageModel>|
            #[trigger] is_inserted(before, message, inserted) && after == trimmed(
                inserted,
                history_length,
                now,
            ),
    }
}

/// What is left to do after a message came in: show it, if it is from this node.
pub open spec fn action_on_receipt(my_node_num: NodeId, from: NodeId) -> Action {
    if from == my_node_num {
        Action::SnapToEnd
    } else {
        Action::Nothing
    }
}

/// Whether a conversation takes a message in like this, at the time `now`.
///
/// It is refused where the age of messages matters and the clock stands too early for the length
/// of the history. Then nothing changes, and there is no action.
pub open spec fn is_receipt(
    before: ConversationModel,
    message: MessageModel,
    history_length: HistoryLength,
    now: TimeStamp,
    after: ConversationModel,
    action: Option<Action>,
) -> bool {
    if reads_clock(message.content, history_length) && !reaches_back(history_length, now) {
        action is None && after == before
    } else {
        &&& action == Some(action_on_receipt(before.my_node_num, message.from))
        &&& after == ConversationModel { messages: after.messages, ..before }
        &&& is_received(before.messages, message, history_length, now, after.messages)
    }
}

/// A message that is shown, with or without updates on positions and users.
pub open spec fn is_shown(
    message: MessageModel,
    show_position_updates: bool,
    show_user_updates: bool,
) -> bool {
    &&& message.content is PositionMessage ==> show_position_updates
    &&& message.content is UserMessage ==> show_user_updates
}

/// The messages that are shown, in their order.
pub open spec fn shown(
    messages: Seq<MessageModel>,
    show_position_updates: bool,
    show_user_updates: bool,
) -> Seq<MessageModel> {
    messages.filter(|m: MessageModel| is_shown(m, show_position_updates, show_user_updates))
}

/// The number of messages that are shown and were not seen.
pub open spec fn unread(
    messages: Seq<MessageModel>,
    show_position_updates: bool,
    show_user_updates: bool,
) -> nat {
    shown(messages, show_position_updates, show_user_updates).filter(|m: MessageModel| !m.seen).len()
}

/// Whether a message changes a conversation in this way, and leaves this to do.
pub open spec fn is_updated(
    before: ConversationModel,
    message: ChannelViewMessage,
    after: ConversationModel,
    action: Action,
) -> bool
    decreases message,
{
    match message {
        ChannelViewMessage::MessageInput(text) => {
            &&& action is Nothing
            &&& after == if fits_input(text@) {
                ConversationModel { draft: text@, ..before }
            } else {
                before
            }
        },
        ChannelViewMessage::ClearMessage => {
            &&& action is Nothing
            &&& after == ConversationModel { draft: Seq::empty(), ..before }
        },
        ChannelViewMessage::SendMessage(reply_to) => if before.draft.len() > 0 {
            &&& action matches Action::Emit(DeviceMessage::SendTextMessage(text, to, re))
            &&& text@ == before.draft
            &&& to == before.conversation_id
            &&& re == reply_to
            &&& after == ConversationModel {
                draft: Seq::empty(),
                preparing_reply_to: None,
                ..before
            }
        } else {
            action is Nothing && after == before
        },
        ChannelViewMessage::PrepareReply(id) => if has_message(before.messages, id) {
            &&& action == Action::Emit(
                DeviceMessage::ChannelMsg(
                    before.conversation_id,
                    ChannelViewMessage::FocusMessageInput,
                ),
            )
            &&& after == ConversationModel { preparing_reply_to: Some(id), ..before }
        } else {
            action is Nothing && after == before
        },
        ChannelViewMessage::CancelPrepareReply => {
            &&& action is Nothing
            &&& after == ConversationModel { preparing_reply_to: None, ..before }
        },
        ChannelViewMessage::MessageSeen(id, time) => if has_message(before.messages, id) {
            &&& action is Nothing
            &&& after == ConversationModel {
                messages: with_message(before.messages, id, |m: MessageModel| marked_seen(m)),
                last_seen_message: if time.0 > before.last_seen_message.0 {
                    time
                } else {
                    before.last_seen_message
                },
                ..before
            }
        } else {
            action == Action::ReportMissing(id) && after == before
        },
        ChannelViewMessage::PickChannel(id) => {
            &&& action == Action::Emit(DeviceMessage::ShowChannel(id))
            &&& after == before
        },
        ChannelViewMessage::ReplyWithEmoji(id, emoji, to) => {
            &&& action == Action::Emit(DeviceMessage::SendEmojiReplyMessage(id, emoji, to))
            &&& after == before
        },
        ChannelViewMessage::EmojiPickerMsg(picker_message) => {
            let between = ConversationModel {
                emoji_picker: before.emoji_picker.after(*picker_message),
                ..before
            };
            match *picker_message {
                PickerMessage::Forward(inner) => is_updated(between, inner, after, action),
                PickerMessage::SelectGroup(_) => action is Nothing && after == between,
            }
        },
        ChannelViewMessage::ShareMeshChat => {
            &&& action is FocusMessageInput
            &&& after == ConversationModel { draft: SHARE_TEXT@, ..before }
        },
        ChannelViewMessage::FocusMessageInput => action is FocusMessageInput && after == before,
    }
}

impl Conversation {
    pub closed spec fn model(&self) -> ConversationModel {
        ConversationModel {
            conversation_id: self.conversation_id,
            draft: self.message@,
            messages: self.messages@,
            my_node_num: self.my_node_num,
            preparing_reply_to: self.preparing_reply_to,
            emoji_picker: self.emoji_picker,
            last_seen_message: self.last_seen_message,
        }
    }

    /// The messages are in order, and the text typed so far fits in the message input.
    pub closed spec fn wf(&self) -> bool {
        &&& self.messages.wf()
        &&& fits_input(self.message@)
    }

    /// In a valid conversation the messages are in the order of time, each is there only once,
    /// and the text typed so far fits in the message input.
    pub proof fn law_invariant(&self)
        requires
            self.wf(),
        ensures
            by_time(self.model().messages),
            distinct_ids(self.model().messages),
            fits_input(self.model().draft),
    {
        self.messages.lemma_wf();
    }

    /// A conversation without messages.
    pub fn new(conversation_id: ConversationId, my_node_id: NodeId) -> (conversation: Conversation)
        ensures
            conversation.wf(),
            conversation.model() == (ConversationModel {
                conversation_id,
                draft: Seq::empty(),
                messages: Seq::empty(),
                my_node_num: my_node_id,
                preparing_reply_to: None,
                emoji_picker: EmojiPicker { height: Some(400), width: Some(400), group: 0 },
                last_seen_message: TimeStamp(0),
            }),
    {
        Conversation {
            conversation_id,
            my_node_num: my_node_id,
            emoji_picker: EmojiPicker::new().height(400).width(400),
            ..Conversation::default()
        }
    }

    /// Acknowledge the receipt of a message.
    pub fn ack(&mut self, message_id: MessageId)
        requires
            old(self).wf(),
        ensures
            final(self).wf(),
            final(self).model() == (ConversationModel {
                messages: with_message(
                    old(self).model().messages,
                    message_id,
                    |m: MessageModel| acknowledged(m),
                ),
                ..old(self).model()
            }),
    {
        if let Some(entry) = self.messages.get_mut(&message_id) {
            entry.ack();
        }
    }

    /// Remove older messages according to the history length, at the time `now`.
    fn trim_history(&mut self, history_length: &HistoryLength, now: TimeStamp)
        requires
            old(self).wf(),
            reaches_back(*history_length, now),
        ensures
            final(self).wf(),
            final(self).model() == (ConversationModel {
                messages: trimmed(old(self).model().messages, *history_length, now),
                ..old(self).model()
            }),
    {
        self.messages.trim(history_length, now);
    }

    /// Takes a new message in, at the time `now`.
    ///
    /// An emoji in reply to a message is added to that message, and no new entry is created.
    pub fn new_message_at(
        &mut self,
        new_message: MCMessage,
        history_length: &HistoryLength,
        now: TimeStamp,
    ) -> (action: Action)
        requires
            old(self).wf(),
            reads_clock(new_message@.content, *history_length) ==> reaches_back(
                *history_length,
                now,
            ),
        ensures
            final(self).wf(),
            final(self).model() == (ConversationModel {
                messages: final(self).model().messages,
                ..old(self).model()
            }),
            is_received(
                old(self).model().messages,
                new_message@,
                *history_length,
                now,
                final(self).model().messages,
            ),
            action == action_on_receipt(old(self).model().my_node_num, new_message@.from),
    {
        let mine = new_message.from() == self.my_node_num;

        match new_message.message() {
            MCContent::AlertMessage(_)
            | MCContent::NewTextMessage(_)
            | MCContent::PositionMessage(_)
            | MCContent::UserMessage(_)
            | MCContent::TextMessageReply(_, _) => {
                // Insert a new message, ordered by timestamp
                self.messages.insert(new_message);
                self.trim_history(history_length, now);
            },
            MCContent::EmojiReply(reply_to_id, emoji_string) => {
                if let Some(entry) = self.messages.get_mut(reply_to_id) {
                    entry.add_emoji(emoji_string.clone(), new_message.from());
                }
            },
        }

        if mine {
            // scroll to the end of messages to see the message I just sent
            Action::SnapToEnd
        } else {
            Action::Nothing
        }
    }

    /// Takes a new message in, at the time `now`, unless that is too early for the length of the
    /// history: then nothing changes, and there is no action.
    pub fn try_new_message_at(
        &mut self,
        new_message: MCMessage,
        history_length: &HistoryLength,
        now: TimeStamp,
    ) -> (action: Option<Action>)
        requires
            old(self).wf(),
        ensures
            final(self).wf(),
            action is None <==> reads_clock(new_message@.content, *history_length)
                && !reaches_back(*history_length, now),
            is_receipt(
                old(self).model(),
                new_message@,
                *history_length,
                now,
                final(self).model(),
                action,
            ),
    {
        if let HistoryLength::Duration(duration) = history_length {
            if needs_clock(&new_message, history_length) && u128::from(now)
                < duration.as_millis() {
                return None;
            }
        }
        Some(self.new_message_at(new_message, history_length, now))
    }

    /// Takes a new message in.
    ///
    /// An emoji in reply to a message is added to that message, and no new entry is created.
    /// The clock is read where the age of messages matters. Where it stands too early for the
    /// length of the history nothing changes, and there is no action.
    pub fn new_message(&mut self, new_message: MCMessage, history_length: &HistoryLength) -> (action:
        Option<Action>)
        requires
            old(self).wf(),
        ensures
            final(self).wf(),
            !reads_clock(new_message@.content, *history_length) ==> action is Some,
            exists|now: TimeStamp|
                now.0 <= LATEST_MILLIS && #[trigger] is_receipt(
                    old(self).model(),
                    new_message@,
                    *history_length,
                    now,
                    final(self).model(),
                    action,
                ) && (reads_clock(new_message@.content, *history_length) ==> is_clock_reading(
                    now.0 as int,
                )),
    {
        let now = if needs_clock(&new_message, history_length) {
            TimeStamp::now()
        } else {
            TimeStamp::default()
        };
        self.try_new_message_at(new_message, history_length, now)
    }

    /// The number of unread messages in the conversation, not counting message types that
    /// are currently not being shown
    pub fn unread_count(&self, show_position_updates: bool, show_user_updates: bool) -> (count:
        usize)
        ensures
            count == unread(self.model().messages, show_position_updates, show_user_updates),
    {
        let messages = self.messages.values();
        let mut count: usize = 0;
        let mut i: usize = 0;
        assert(self.messages@.take(0).filter(
            |m: MessageModel| is_shown(m, show_position_updates, show_user_updates),
        ) =~= Seq::empty()) by {
            reveal(Seq::filter);
        }
        while i < messages.len()
            invariant
                i <= messages.len(),
                count <= i,
                messages.len() == self.messages@.len(),
                forall|j: int| 0 <= j < messages.len() ==> (#[trigger] messages[j])@
                    == self.messages@[j],
                count == unread(
                    self.messages@.take(i as int),
                    show_position_updates,
                    show_user_updates,
                ),
            decreases messages.len() - i,
        {
            let entry = messages[i];
            proof {
                lemma_unread_push(
                    self.messages@.take(i as int),
                    entry@,
                    show_position_updates,
                    show_user_updates,
                );
                assert(self.messages@.take(i as int).push(entry@) =~= self.messages@.take(i + 1));
            }
            if message_is_shown(entry, show_position_updates, show_user_updates) && !entry.seen() {
                count += 1;
            }
            i += 1;
        }
        assert(self.messages@.take(i as int) =~= self.messages@);
        count
    }

    /// Whom the conversation is with.
    pub fn conversation_id(&self) -> (id: ConversationId)
        ensures
            id == self.model().conversation_id,
    {
        self.conversation_id
    }

    /// The text typed so far.
    pub fn message(&self) -> (text: &str)
        ensures
            text@ == self.model().draft,
    {
        self.message.as_str()
    }

    /// The messages so far.
    pub fn messages(&self) -> (messages: &MessageLog)
        requires
            self.wf(),
        ensures
            messages.wf(),
            messages@ == self.model().messages,
    {
        &self.messages
    }

    pub fn my_node_num(&self) -> (node: NodeId)
        ensures
            node == self.model().my_node_num,
    {
        self.my_node_num
    }

    /// The message that a reply is being written to.
    pub fn preparing_reply_to(&self) -> (id: Option<MessageId>)
        ensures
            id == self.model().preparing_reply_to,
    {
        self.preparing_reply_to
    }

    pub fn emoji_picker(&self) -> (picker: &EmojiPicker)
        ensures
            *picker == self.model().emoji_picker,
    {
        &self.emoji_picker
    }

    /// The time of the newest message that was shown.
    pub fn last_seen_message(&self) -> (time: TimeStamp)
        ensures
            time == self.model().last_seen_message,
    {
        self.last_seen_message
    }

    /// Cancel any interactive modes underway
    pub fn cancel_interactive(&mut self)
        requires
            old(self).wf(),
        ensures
            final(self).wf(),
            final(self).model() == (ConversationModel {
                preparing_reply_to: None,
                ..old(self).model()
            }),
    {
        self.preparing_reply_to = None;
    }

    /// Takes in what happened in the view of the conversation.
    pub fn update(&mut self, channel_view_message: ChannelViewMessage) -> (action: Action)
        requires
            old(self).wf(),
        ensures
            final(self).wf(),
            is_updated(old(self).model(), channel_view_message, final(self).model(), action),
        decreases channel_view_message,
    {
        match channel_view_message {
            ChannelViewMessage::MessageInput(s) => {
                if s.as_str().as_bytes().len() < 200 {
                    self.message = s;
                }
                Action::Nothing
            },
            ChannelViewMessage::ClearMessage => {
                self.message = String::new();
                proof {
                    lemma_empty_text_fits();
                }
                Action::Nothing
            },
            ChannelViewMessage::SendMessage(reply_to_id) => {
                if !self.message.as_str().is_empty() {
                    let msg = self.message.clone();
                    self.message = String::new();
                    let conversation_id = self.conversation_id;
                    self.preparing_reply_to = None;
                    proof {
                        lemma_empty_text_fits();
                    }
                    Action::Emit(DeviceMessage::SendTextMessage(msg, conversation_id, reply_to_id))
                } else {
                    Action::Nothing
                }
            },
            ChannelViewMessage::PrepareReply(message_id) => {
                if self.messages.contains_key(&message_id) {
                    self.preparing_reply_to = Some(message_id);
                    // The focus goes through the message queue: a reply starts in a menu, which
                    // has to close before the focus can move.
                    Action::Emit(
                        DeviceMessage::ChannelMsg(
                            self.conversation_id,
                            ChannelViewMessage::FocusMessageInput,
                        ),
                    )
                } else {
                    Action::Nothing
                }
            },
            ChannelViewMessage::FocusMessageInput => Action::FocusMessageInput,
            ChannelViewMessage::CancelPrepareReply => {
                self.cancel_interactive();
                Action::Nothing
            },
            ChannelViewMessage::MessageSeen(message_id, timestamp) => {
                if let Some(message) = self.messages.get_mut(&message_id) {
                    message.mark_seen();
                    // The resolution is a millisecond, and it does not matter which message of
                    // the same millisecond was shown
                    if timestamp.0 > self.last_seen_message.0 {
                        self.last_seen_message = timestamp;
                    }
                    Action::Nothing
                } else {
                    Action::ReportMissing(message_id)
                }
            },
            ChannelViewMessage::PickChannel(conversation_id) => Action::Emit(
                DeviceMessage::ShowChannel(conversation_id),
            ),
            ChannelViewMessage::ReplyWithEmoji(message_id, emoji, conversation_id) => Action::Emit(
                DeviceMessage::SendEmojiReplyMessage(message_id, emoji, conversation_id),
            ),
            ChannelViewMessage::EmojiPickerMsg(picker_msg) => {
                if let Some(msg) = self.emoji_picker.update(*picker_msg) {
                    // Forward the wrapped message
                    self.update(msg)
                } else {
                    // Internal state change only
                    Action::Nothing
                }
            },
            ChannelViewMessage::ShareMeshChat => {
                // Insert the text to share to the message input
                self.message = SHARE_TEXT.to_owned();
                proof {
                    lemma_share_text_fits();
                }
                // and shift the focus to it in case the user wants to add to it or edit it
                Action::FocusMessageInput
            },
        }
    }
}

impl Default for Conversation {
    fn default() -> (conversation: Conversation)
        ensures
            conversation.wf(),
            conversation.model() == (ConversationModel {
                conversation_id: ConversationId::Channel(ChannelIndex(0)),
                draft: Seq::empty(),
                messages: Seq::empty(),
                my_node_num: NodeId(0),
                preparing_reply_to: None,
                emoji_picker: EmojiPicker { height: None, width: None, group: 0 },
                last_seen_message: TimeStamp(0),
            }),
    {
        proof {
            lemma_empty_text_fits();
        }
        Conversation {
            conversation_id: ConversationId::default(),
            message: String::new(),
            messages: MessageLog::new(),
            my_node_num: NodeId::default(),
            preparing_reply_to: None,
            emoji_picker: EmojiPicker::default(),
            last_seen_message: TimeStamp::default(),
        }
    }
}

/// Whether a message reads the clock when it comes in.
fn needs_clock(message: &MCMessage, history_length: &HistoryLength) -> (needs: bool)
    ensures
        needs == reads_clock(message@.content, *history_length),
{
    let emoji_reply = matches!(message.message(), MCContent::EmojiReply(_, _));
    !emoji_reply && matches!(history_length, HistoryLength::Duration(_))
}

/// Whether a message is shown, with or without updates on positions and users.
pub fn message_is_shown(
    message: &MCMessage,
    show_position_updates: bool,
    show_user_updates: bool,
) -> (shown: bool)
    ensures
        shown == is_shown(message@, show_position_updates, show_user_updates),
{
    match message.message() {
        MCContent::PositionMessage(_) => show_position_updates,
        MCContent::UserMessage(_) => show_user_updates,
        _ => true,
    }
}

/// A further message adds to the number of unread messages if it is shown and was not seen.
pub proof fn lemma_unread_push(
    messages: Seq<MessageModel>,
    message: MessageModel,
    show_position_updates: bool,
    show_user_updates: bool,
)
    ensures
        unread(messages.push(message), show_position_updates, show_user_updates) == unread(
            messages,
            show_position_updates,
            show_user_updates,
        ) + if is_shown(message, show_position_updates, show_user_updates) && !message.seen {
            1nat
        } else {
            0nat
        },
{
    reveal(Seq::filter);
    assert(messages.push(message).drop_last() =~= messages);
    let before = shown(messages, show_position_updates, show_user_updates);
    assert(before.push(message).drop_last() =~= before);
}

pub proof fn lemma_empty_text_fits()
    ensures
        fits_input(Seq::empty()),
{
}

pub proof fn lemma_share_text_fits()
    ensures
        fits_input(SHARE_TEXT@),
{
    reveal_strlit(
        "I am using the MeshChat app. It's available for macOS/Windows/Linux from: https://github.com/andrewdavidmackenzie/meshchat/releases/latest ",
    );
    assert(SHARE_TEXT@.len() == 139);
    vstd::utf8::is_ascii_chars_encode_utf8(SHARE_TEXT@);
}

} // verus!
