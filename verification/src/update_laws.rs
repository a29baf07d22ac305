//! What the user's doings come to, said of every call.
//!
//! A call is spoken of by what it was given and what it gave back: `call_ensures` of the function,
//! its arguments and its result.
use crate::conversation::{is_updated, ChannelViewMessage, Conversation, ConversationModel};
use crate::conversation_id::{ConversationId, MessageId};
use crate::device::{Action, DeviceMessage};
use crate::emoji_picker::{EmojiPicker, PickerMessage};
use crate::laws::{law_picker_forwards, lemma_position};
use crate::message::MessageModel;
use crate::timestamp::TimeStamp;
use vstd::prelude::*;
use vstd::utf8::encode_utf8;

verus! {

/// The message input holds what was typed last, whatever was typed before: every text of less
/// than 200 bytes, the empty one too. A longer text changes nothing.
pub proof fn law_input_is_what_was_typed(
    conversation: &mut Conversation,
    text: String,
    action: Action,
)
    requires
        old(conversation).wf(),
        call_ensures(
            Conversation::update,
            (conversation, ChannelViewMessage::MessageInput(text)),
            action,
        ),
    ensures
        encode_utf8(text@).len() < 200 ==> final(conversation).model() == (ConversationModel {
            draft: text@,
            ..old(conversation).model()
        }),
        encode_utf8(text@).len() >= 200 ==> final(conversation).model()
            == old(conversation).model(),
        action is Nothing,
{
}

/// Of two texts that are typed one after the other, the second one alone counts, if it fits.
pub proof fn law_last_input_counts(
    conversation: &mut Conversation,
    first: String,
    first_action: Action,
    then: &mut Conversation,
    second: String,
    second_action: Action,
    alone: &mut Conversation,
    alone_action: Action,
)
    requires
        old(conversation).wf(),
        call_ensures(
            Conversation::update,
            (conversation, ChannelViewMessage::MessageInput(first)),
            first_action,
        ),
        *old(then) == *final(conversation),
        call_ensures(
            Conversation::update,
            (then, ChannelViewMessage::MessageInput(second)),
            second_action,
        ),
        *old(alone) == *old(conversation),
        call_ensures(
            Conversation::update,
            (alone, ChannelViewMessage::MessageInput(second)),
            alone_action,
        ),
        encode_utf8(second@).len() < 200,
    ensures
        final(then).model() == final(alone).model(),
        final(then).model().draft == second@,
{
    assert(final(then).model() =~= final(alone).model());
}

/// Clearing empties the message input, and changes nothing else.
pub proof fn law_clear(conversation: &mut Conversation, action: Action)
    requires
        old(conversation).wf(),
        call_ensures(
            Conversation::update,
            (conversation, ChannelViewMessage::ClearMessage),
            action,
        ),
    ensures
        final(conversation).model() == (ConversationModel {
            draft: Seq::empty(),
            ..old(conversation).model()
        }),
        action is Nothing,
{
}

/// Sending makes a request with the text typed so far, for this conversation and in reply to the
/// message that was given. Then the message input is empty and no reply is being written. Where
/// nothing was typed, nothing happens.
pub proof fn law_send(
    conversation: &mut Conversation,
    reply_to: Option<MessageId>,
    action: Action,
)
    requires
        old(conversation).wf(),
        call_ensures(
            Conversation::update,
            (conversation, ChannelViewMessage::SendMessage(reply_to)),
            action,
        ),
    ensures
        old(conversation).model().draft.len() > 0 ==> {
            &&& action matches Action::Emit(DeviceMessage::SendTextMessage(text, to, re))
            &&& text@ == old(conversation).model().draft
            &&& to == old(conversation).model().conversation_id
            &&& re == reply_to
            &&& final(conversation).model() == (ConversationModel {
                draft: Seq::empty(),
                preparing_reply_to: None,
                ..old(conversation).model()
            })
        },
        old(conversation).model().draft.len() == 0 ==> action is Nothing
            && final(conversation).model() == old(conversation).model(),
{
}

/// What is typed and fits is what is sent; and when it is deleted again, nothing is sent.
pub proof fn law_typed_then_sent(
    conversation: &mut Conversation,
    text: String,
    typed_action: Action,
    then: &mut Conversation,
    reply_to: Option<MessageId>,
    action: Action,
)
    requires
        old(conversation).wf(),
        encode_utf8(text@).len() < 200,
        call_ensures(
            Conversation::update,
            (conversation, ChannelViewMessage::MessageInput(text)),
            typed_action,
        ),
        *old(then) == *final(conversation),
        call_ensures(
            Conversation::update,
            (then, ChannelViewMessage::SendMessage(reply_to)),
            action,
        ),
    ensures
        text@.len() > 0 ==> {
            &&& action matches Action::Emit(DeviceMessage::SendTextMessage(sent, to, re))
            &&& sent@ == text@
            &&& to == old(conversation).model().conversation_id
            &&& re == reply_to
        },
        text@.len() == 0 ==> action is Nothing,
        final(then).model().draft.len() == 0,
{
    law_input_is_what_was_typed(conversation, text, typed_action);
    law_send(then, reply_to, action);
}

/// A reply can be started to every message that is there, and to no other. The focus is asked for
/// by a message to this conversation.
pub proof fn law_prepare_reply(conversation: &mut Conversation, id: MessageId, action: Action)
    requires
        old(conversation).wf(),
        call_ensures(
            Conversation::update,
            (conversation, ChannelViewMessage::PrepareReply(id)),
            action,
        ),
    ensures
        forall|i: int|
            0 <= i < old(conversation).model().messages.len() && (#[trigger] old(
                conversation,
            ).model().messages[i]).id == id ==> {
                &&& final(conversation).model() == (ConversationModel {
                    preparing_reply_to: Some(id),
                    ..old(conversation).model()
                })
                &&& action == Action::Emit(
                    DeviceMessage::ChannelMsg(
                        old(conversation).model().conversation_id,
                        ChannelViewMessage::FocusMessageInput,
                    ),
                )
            },
        (forall|i: int|
            0 <= i < old(conversation).model().messages.len() ==> (#[trigger] old(
                conversation,
            ).model().messages[i]).id != id) ==> action is Nothing
            && final(conversation).model() == old(conversation).model(),
{
}

/// Giving up a reply, by a message or by a call, ends the reply and changes nothing else.
pub proof fn law_cancel_reply(
    conversation: &mut Conversation,
    action: Action,
    other: &mut Conversation,
)
    requires
        old(conversation).wf(),
        call_ensures(
            Conversation::update,
            (conversation, ChannelViewMessage::CancelPrepareReply),
            action,
        ),
        old(other).wf(),
        call_ensures(Conversation::cancel_interactive, (other,), ()),
    ensures
        final(conversation).model() == (ConversationModel {
            preparing_reply_to: None,
            ..old(conversation).model()
        }),
        action is Nothing,
        final(other).model() == (ConversationModel {
            preparing_reply_to: None,
            ..old(other).model()
        }),
{
}

/// A message that was shown is seen from then on, and no other message changes. The time of the
/// newest message that was shown is the later of the one before and the one given.
pub proof fn law_message_seen(
    conversation: &mut Conversation,
    id: MessageId,
    time: TimeStamp,
    i: int,
    action: Action,
)
    requires
        old(conversation).wf(),
        call_ensures(
            Conversation::update,
            (conversation, ChannelViewMessage::MessageSeen(id, time)),
            action,
        ),
        0 <= i < old(conversation).model().messages.len(),
        old(conversation).model().messages[i].id == id,
    ensures
        final(conversation).model() == (ConversationModel {
            messages: old(conversation).model().messages.update(
                i,
                MessageModel { seen: true, ..old(conversation).model().messages[i] },
            ),
            last_seen_message: if old(conversation).model().last_seen_message.0 < time.0 {
                time
            } else {
                old(conversation).model().last_seen_message
            },
            ..old(conversation).model()
        }),
        action is Nothing,
{
    old(conversation).law_invariant();
    lemma_position(old(conversation).model().messages, i);
}

/// Where a message is not there, showing it changes nothing and is reported.
pub proof fn law_missing_message_seen(
    conversation: &mut Conversation,
    id: MessageId,
    time: TimeStamp,
    action: Action,
)
    requires
        old(conversation).wf(),
        call_ensures(
            Conversation::update,
            (conversation, ChannelViewMessage::MessageSeen(id, time)),
            action,
        ),
        forall|i: int|
            0 <= i < old(conversation).model().messages.len() ==> (#[trigger] old(
                conversation,
            ).model().messages[i]).id != id,
    ensures
        final(conversation).model() == old(conversation).model(),
        action == Action::ReportMissing(id),
{
}

/// Picking a conversation, and replying with an emoji, make a request of just that, and change
/// nothing.
pub proof fn law_requests(
    conversation: &mut Conversation,
    pick: Option<ConversationId>,
    pick_action: Action,
    other: &mut Conversation,
    id: MessageId,
    emoji: String,
    to: ConversationId,
    emoji_action: Action,
)
    requires
        old(conversation).wf(),
        call_ensures(
            Conversation::update,
            (conversation, ChannelViewMessage::PickChannel(pick)),
            pick_action,
        ),
        old(other).wf(),
        call_ensures(
            Conversation::update,
            (other, ChannelViewMessage::ReplyWithEmoji(id, emoji, to)),
            emoji_action,
        ),
    ensures
        pick_action == Action::Emit(DeviceMessage::ShowChannel(pick)),
        final(conversation).model() == old(conversation).model(),
        emoji_action == Action::Emit(DeviceMessage::SendEmojiReplyMessage(id, emoji, to)),
        final(other).model() == old(other).model(),
{
}

/// Sharing types the text that tells about the app, whatever was typed before, and moves the focus
/// to it. Moving the focus by itself changes nothing.
pub proof fn law_share_and_focus(
    conversation: &mut Conversation,
    share_action: Action,
    other: &mut Conversation,
    focus_action: Action,
)
    requires
        old(conversation).wf(),
        call_ensures(
            Conversation::update,
            (conversation, ChannelViewMessage::ShareMeshChat),
            share_action,
        ),
        old(other).wf(),
        call_ensures(
            Conversation::update,
            (other, ChannelViewMessage::FocusMessageInput),
            focus_action,
        ),
    ensures
        final(conversation).model() == (ConversationModel {
            draft: "I am using the MeshChat app. It's available for macOS/Windows/Linux from: https://github.com/andrewdavidmackenzie/meshchat/releases/latest "@,
            ..old(conversation).model()
        }),
        share_action is FocusMessageInput,
        final(other).model() == old(other).model(),
        focus_action is FocusMessageInput,
{
}

/// The emoji picker shows the group that was selected last, and nothing else changes.
pub proof fn law_picker_selects(conversation: &mut Conversation, group: usize, action: Action)
    requires
        old(conversation).wf(),
        call_ensures(
            Conversation::update,
            (
                conversation,
                ChannelViewMessage::EmojiPickerMsg(Box::new(PickerMessage::SelectGroup(group))),
            ),
            action,
        ),
    ensures
        final(conversation).model() == (ConversationModel {
            emoji_picker: EmojiPicker { group, ..old(conversation).model().emoji_picker },
            ..old(conversation).model()
        }),
        action is Nothing,
{
}

/// Every call does what is said of its message, and leaves the conversation valid.
pub proof fn law_update(
    conversation: &mut Conversation,
    message: ChannelViewMessage,
    action: Action,
)
    requires
        old(conversation).wf(),
        call_ensures(Conversation::update, (conversation, message), action),
    ensures
        is_updated(old(conversation).model(), message, final(conversation).model(), action),
        final(conversation).wf(),
{
}

/// A message that the emoji picker forwards does what it does by itself, and the picker stays as
/// it is.
pub proof fn law_forwarded(
    conversation: &mut Conversation,
    inner: ChannelViewMessage,
    action: Action,
)
    requires
        old(conversation).wf(),
        call_ensures(
            Conversation::update,
            (
                conversation,
                ChannelViewMessage::EmojiPickerMsg(Box::new(PickerMessage::Forward(inner))),
            ),
            action,
        ),
    ensures
        is_updated(old(conversation).model(), inner, final(conversation).model(), action),
{
    law_picker_forwards(
        old(conversation).model(),
        inner,
        final(conversation).model(),
        action,
    );
}

/// A copy of a message to the view is that message.
pub proof fn law_clone(message: &ChannelViewMessage, copy: ChannelViewMessage)
    requires
        call_ensures(ChannelViewMessage::clone, (message,), copy),
    ensures
        copy == *message,
{
}

/// The emoji picker has the size that was set, and gives a message that it carries to its owner.
pub proof fn law_picker(
    picker: EmojiPicker,
    height: u32,
    high: EmojiPicker,
    width: u32,
    wide: EmojiPicker,
    updated: &mut EmojiPicker,
    inner: ChannelViewMessage,
    forwarded: Option<ChannelViewMessage>,
)
    requires
        call_ensures(EmojiPicker::height, (picker, height), high),
        call_ensures(EmojiPicker::width, (picker, width), wide),
        call_ensures(
            EmojiPicker::update::<ChannelViewMessage>,
            (updated, PickerMessage::Forward(inner)),
            forwarded,
        ),
    ensures
        high == (EmojiPicker { height: Some(height), ..picker }),
        wide == (EmojiPicker { width: Some(width), ..picker }),
        *final(updated) == *old(updated),
        forwarded == Some(inner),
{
}

} // verus!
