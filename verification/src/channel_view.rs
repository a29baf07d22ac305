//! What the screen shows of a conversation: the rows, texts and buttons, and the requests that
//! the buttons make.
use crate::calendar::{day_label, is_clock_time, is_reading, label_of, LocalDate, LocalTime};
use crate::conversation::{
    is_shown, message_is_shown, shown, ChannelViewMessage, Conversation, ConversationModel,
};
use crate::conversation_id::{ConversationId, MessageId, NodeId};
use crate::device::DeviceMessage;
use crate::history::{has_message, position_of};
use crate::message::{MCContent, MCMessage, MessageModel};
use crate::timestamp::LATEST_MILLIS;
use vstd::prelude::*;

verus! {

/// There is no date to show for a message: its time is too far away.
#[derive(Debug, Clone, Copy, PartialEq, Eq, Structural)]
pub struct DateError {
    pub message: MessageId,
}

/// A message on the screen.
#[derive(Debug)]
pub struct MessageRow<'a> {
    pub message: &'a MCMessage,
    /// The message is from this node.
    pub mine: bool,
    /// The message above is from somebody else, so the sender is shown.
    pub show_sender: bool,
}

/// A row of the list of messages.
#[derive(Debug)]
pub enum Row<'a> {
    /// The text that announces the day of the messages below.
    DaySeparator(String),
    Message(MessageRow<'a>),
}

/// The message that is replied to.
#[derive(Debug)]
pub struct ReplyRow<'a> {
    pub original: &'a MCContent,
    /// What the button beside it does.
    pub cancel: DeviceMessage,
}

/// The message input, with its buttons. A button without a request is disabled.
#[derive(Debug)]
pub struct InputBox<'a> {
    pub conversation_id: ConversationId,
    pub text: &'a str,
    /// What happens when the text is submitted.
    pub submit: DeviceMessage,
    pub clear: Option<DeviceMessage>,
    pub send: Option<DeviceMessage>,
}

/// The view of a conversation. A button without a request is disabled.
#[derive(Debug)]
pub struct ChannelView<'a> {
    /// The list of messages; none where there is no message yet.
    pub rows: Option<Vec<Row<'a>>>,
    pub send_position: Option<DeviceMessage>,
    pub send_info: Option<DeviceMessage>,
    pub share: DeviceMessage,
    pub reply: Option<ReplyRow<'a>>,
    pub input: InputBox<'a>,
}

/// The dialog in which a conversation is picked to forward a message to.
#[derive(Debug)]
pub struct ChannelPicker {
    /// What happens when the dialog is closed.
    pub close: DeviceMessage,
}

/// The whole view: the conversation, and the dialog on top of it while a message is forwarded.
#[derive(Debug)]
pub struct ConversationView<'a> {
    pub content: ChannelView<'a>,
    pub picker: Option<ChannelPicker>,
}

pub enum RowModel {
    DaySeparator(Seq<char>),
    Message { message: MessageModel, mine: bool, show_sender: bool },
}

impl<'a> View for Row<'a> {
    type V = RowModel;

    open spec fn view(&self) -> RowModel {
        match self {
            Row::DaySeparator(text) => RowModel::DaySeparator(text@),
            Row::Message(row) => RowModel::Message {
                message: row.message@,
                mine: row.mine,
                show_sender: row.show_sender,
            },
        }
    }
}

pub open spec fn rows_view(rows: Seq<Row>) -> Seq<RowModel> {
    Seq::new(rows.len(), |i: int| rows[i]@)
}

/// The row of one of the messages that are shown.
pub open spec fn message_row(messages: Seq<MessageModel>, my_node_num: NodeId, i: int) -> RowModel {
    RowModel::Message {
        message: messages[i],
        mine: messages[i].from == my_node_num,
        show_sender: i == 0 || messages[i].from != messages[i - 1].from,
    }
}

/// A day is announced above a message that is not of the same day as the message before.
pub open spec fn starts_day(times: Seq<LocalTime>, i: int) -> bool {
    i == 0 || !times[i].date.same_day(times[i - 1].date)
}

/// The rows for the first `count` of the messages that are shown.
pub open spec fn rows_of(
    messages: Seq<MessageModel>,
    times: Seq<LocalTime>,
    today: LocalDate,
    my_node_num: NodeId,
    count: int,
) -> Seq<RowModel>
    decreases count,
{
    if count <= 0 {
        Seq::empty()
    } else {
        let above = rows_of(messages, times, today, my_node_num, count - 1);
        let row = message_row(messages, my_node_num, count - 1);
        if starts_day(times, count - 1) {
            above.push(RowModel::DaySeparator(label_of(times[count - 1].date, today))).push(row)
        } else {
            above.push(row)
        }
    }
}

/// Each message has its time, and each time is valid.
pub open spec fn are_times_for(times: Seq<LocalTime>, messages: Seq<MessageModel>) -> bool {
    &&& times.len() == messages.len()
    &&& forall|i: int| 0 <= i < times.len() ==> (#[trigger] times[i]).wf()
}

/// The times are those of the messages, in the local time zone.
pub open spec fn are_local_times_of(times: Seq<LocalTime>, messages: Seq<MessageModel>) -> bool {
    &&& times.len() == messages.len()
    &&& forall|i: int|
        0 <= i < times.len() ==> (#[trigger] times[i]).is_of(messages[i].time)
            && times[i].is_local()
}

/// A request to hand a message to the conversation.
pub open spec fn to_conversation(
    conversation: ConversationModel,
    message: ChannelViewMessage,
) -> DeviceMessage {
    DeviceMessage::ChannelMsg(conversation.conversation_id, message)
}

/// What the button that sends the text does. It is disabled while there is no text.
pub open spec fn send_button_of(conversation: ConversationModel) -> Option<DeviceMessage> {
    if conversation.draft.len() > 0 {
        Some(
            to_conversation(
                conversation,
                ChannelViewMessage::SendMessage(conversation.preparing_reply_to),
            ),
        )
    } else {
        None
    }
}

/// What the button that clears the text does. It is disabled while there is no text.
pub open spec fn clear_button_of(conversation: ConversationModel) -> Option<DeviceMessage> {
    if conversation.draft.len() > 0 {
        Some(to_conversation(conversation, ChannelViewMessage::ClearMessage))
    } else {
        None
    }
}

impl<'a> InputBox<'a> {
    /// The message input of the conversation.
    pub open spec fn is_of(self, conversation: ConversationModel) -> bool {
        &&& self.conversation_id == conversation.conversation_id
        &&& self.text@ == conversation.draft
        &&& self.submit == to_conversation(
            conversation,
            ChannelViewMessage::SendMessage(conversation.preparing_reply_to),
        )
        &&& self.clear == clear_button_of(conversation)
        &&& self.send == send_button_of(conversation)
    }
}

/// Whether the row shows a reply of the conversation to the message. There is no row where the
/// message is not there.
pub open spec fn is_reply_row(
    row: Option<ReplyRow>,
    conversation: ConversationModel,
    id: MessageId,
) -> bool {
    match row {
        Some(row) => {
            &&& has_message(conversation.messages, id)
            &&& *row.original == conversation.messages[position_of(
                conversation.messages,
                id,
            )].content
            &&& row.cancel == to_conversation(
                conversation,
                ChannelViewMessage::CancelPrepareReply,
            )
        },
        None => !has_message(conversation.messages, id),
    }
}

/// What the view depends on beside the conversation.
pub struct ViewSettings {
    pub enable_position: bool,
    pub enable_my_info: bool,
    pub show_position_updates: bool,
    pub show_user_updates: bool,
}

/// The messages that are shown with these settings.
pub open spec fn shown_with(
    conversation: ConversationModel,
    settings: ViewSettings,
) -> Seq<MessageModel> {
    shown(
        conversation.messages,
        settings.show_position_updates,
        settings.show_user_updates,
    )
}

impl<'a> ChannelView<'a> {
    /// The view of the conversation with these settings, where the messages that are shown have
    /// these times.
    pub open spec fn is_of(
        self,
        conversation: ConversationModel,
        settings: ViewSettings,
        times: Seq<LocalTime>,
        today: LocalDate,
    ) -> bool {
        let messages = shown_with(conversation, settings);
        &&& match self.rows {
            Some(rows) => conversation.messages.len() > 0 && rows_view(rows@) == rows_of(
                messages,
                times,
                today,
                conversation.my_node_num,
                messages.len() as int,
            ),
            None => conversation.messages.len() == 0,
        }
        &&& self.send_position == if settings.enable_position {
            Some(DeviceMessage::SendPositionMessage(conversation.conversation_id))
        } else {
            None
        }
        &&& self.send_info == if settings.enable_my_info {
            Some(DeviceMessage::SendSelfInfoMessage(conversation.conversation_id))
        } else {
            None
        }
        &&& self.share == to_conversation(conversation, ChannelViewMessage::ShareMeshChat)
        &&& match conversation.preparing_reply_to {
            Some(id) => is_reply_row(self.reply, conversation, id),
            None => self.reply is None,
        }
        &&& self.input.is_of(conversation)
    }
}

/// Whether this is the view of the conversation with these settings, or why there is none: the
/// time of a message that is shown is too far away, the first of which is reported. Where a
/// message is shown, the view is read against the clock.
pub open spec fn is_view_or_error(
    view: Result<ChannelView, DateError>,
    conversation: ConversationModel,
    settings: ViewSettings,
) -> bool {
    let messages = shown_with(conversation, settings);
    match view {
        Ok(view) => none_too_far(messages, messages.len() as int) && exists|
            times: Seq<LocalTime>,
            now: LocalTime,
        |
            #[trigger] view.is_of(conversation, settings, times, now.date) && are_local_times_of(
                times,
                messages,
            ) && #[trigger] is_reading(now) && (messages.len() > 0 ==> is_clock_time(now)),
        Err(error) => is_first_too_far(messages, error.message),
    }
}

/// The first `count` of the messages have a date.
pub open spec fn none_too_far(messages: Seq<MessageModel>, count: int) -> bool {
    forall|i: int| 0 <= i < count ==> (#[trigger] messages[i]).time.0 <= LATEST_MILLIS
}

/// The first of the messages that has no date has this id.
pub open spec fn is_first_too_far(messages: Seq<MessageModel>, id: MessageId) -> bool {
    exists|i: int|
        0 <= i < messages.len() && (#[trigger] messages[i]).id == id && messages[i].time.0
            > LATEST_MILLIS && none_too_far(messages, i)
}

/// The conversation in a view, without the dialog on top of it.
pub open spec fn content_of<'a>(view: Result<ConversationView<'a>, DateError>) -> Result<
    ChannelView<'a>,
    DateError,
> {
    match view {
        Ok(view) => Ok(view.content),
        Err(error) => Err(error),
    }
}

impl<'a> InputBox<'a> {
    /// The request to make when the text has changed.
    pub fn typed(&self, text: String) -> (request: DeviceMessage)
        ensures
            request == DeviceMessage::ChannelMsg(
                self.conversation_id,
                ChannelViewMessage::MessageInput(text),
            ),
    {
        DeviceMessage::ChannelMsg(self.conversation_id, ChannelViewMessage::MessageInput(text))
    }
}

impl ChannelPicker {
    /// The request to make when a conversation is picked.
    pub fn select(conversation_id: ConversationId) -> (request: DeviceMessage)
        ensures
            request == DeviceMessage::ForwardMessage(conversation_id),
    {
        DeviceMessage::ForwardMessage(conversation_id)
    }
}

/// The rows for messages with these times: a message below the other, under the day they are of.
pub fn message_rows<'a>(
    messages: &Vec<&'a MCMessage>,
    times: &Vec<LocalTime>,
    today: &LocalDate,
    my_node_num: NodeId,
) -> (rows: Vec<Row<'a>>)
    requires
        times.len() == messages.len(),
        forall|i: int| 0 <= i < times.len() ==> (#[trigger] times[i]).wf(),
        today.wf(),
    ensures
        rows_view(rows@) == rows_of(
            Seq::new(messages@.len(), |i: int| messages[i]@),
            times@,
            *today,
            my_node_num,
            messages.len() as int,
        ),
{
    let ghost all = Seq::new(messages@.len(), |i: int| messages[i]@);
    let mut rows: Vec<Row<'a>> = Vec::new();
    let mut previous_from: Option<NodeId> = None;
    let mut i: usize = 0;
    assert(rows_view(rows@) =~= Seq::empty());
    while i < messages.len()
        invariant
            i <= messages.len(),
            times.len() == messages.len(),
            forall|j: int| 0 <= j < times.len() ==> (#[trigger] times[j]).wf(),
            today.wf(),
            all == Seq::new(messages@.len(), |j: int| messages[j]@),
            previous_from == if i == 0 {
                None
            } else {
                Some(all[i - 1].from)
            },
            rows_view(rows@) == rows_of(all, times@, *today, my_node_num, i as int),
        decreases messages.len() - i,
    {
        let message = messages[i];
        let local = &times[i];
        let ghost above = rows@;

        // Add a day separator when the day of an entry changes
        if i == 0 || !local.date.is_same_day_as(&times[i - 1].date) {
            let label = day_label(local, today);
            let ghost text = label@;
            rows.push(Row::DaySeparator(label));
            assert(rows_view(rows@) =~= rows_view(above).push(RowModel::DaySeparator(text)));
        }
        let ghost between = rows@;
        let from = message.from();
        let show_sender = match previous_from {
            Some(previous) => previous != from,
            None => true,
        };
        rows.push(Row::Message(MessageRow { message, mine: from == my_node_num, show_sender }));
        assert(rows_view(rows@) =~= rows_view(between).push(
            message_row(all, my_node_num, i as int),
        ));
        previous_from = Some(from);
        i += 1;
    }
    rows
}

/// The times of messages in the local time zone, or the first message that has no date.
fn local_times(messages: &Vec<&MCMessage>) -> (times: Result<Vec<LocalTime>, DateError>)
    ensures
        ({
            let all = Seq::new(messages@.len(), |i: int| messages[i]@);
            match times {
                Ok(times) => are_local_times_of(times@, all) && none_too_far(
                    all,
                    all.len() as int,
                ),
                Err(error) => is_first_too_far(all, error.message),
            }
        }),
{
    let ghost all = Seq::new(messages@.len(), |i: int| messages[i]@);
    let mut times: Vec<LocalTime> = Vec::new();
    let mut i: usize = 0;
    while i < messages.len()
        invariant
            i <= messages.len(),
            times.len() == i,
            all == Seq::new(messages@.len(), |j: int| messages[j]@),
            none_too_far(all, i as int),
            forall|j: int|
                0 <= j < i ==> (#[trigger] times[j]).is_of(all[j].time) && times[j].is_local(),
        decreases messages.len() - i,
    {
        match LocalTime::of(messages[i].time()) {
            Some(local) => times.push(local),
            None => {
                let id = messages[i].message_id();
                assert(all[i as int].id == id);
                return Err(DateError { message: id });
            },
        }
        i += 1;
    }
    Ok(times)
}

impl Conversation {
    /// The messages that are shown, oldest first.
    fn shown_messages(&self, show_position_updates: bool, show_user_updates: bool) -> (messages: Vec<
        &MCMessage,
    >)
        requires
            self.wf(),
        ensures
            Seq::new(messages@.len(), |i: int| messages[i]@) == shown(
                self.model().messages,
                show_position_updates,
                show_user_updates,
            ),
    {
        let ghost all = self.model().messages;
        let ghost keeps = |m: MessageModel| is_shown(m, show_position_updates, show_user_updates);
        let values = self.messages().values();
        let mut messages: Vec<&MCMessage> = Vec::new();
        let mut i: usize = 0;
        assert(Seq::new(messages@.len(), |j: int| messages[j]@) =~= all.take(0).filter(keeps)) by {
            reveal(Seq::filter);
        }
        while i < values.len()
            invariant
                i <= values.len(),
                values.len() == all.len(),
                forall|j: int| 0 <= j < values.len() ==> (#[trigger] values[j])@ == all[j],
                keeps == |m: MessageModel| is_shown(m, show_position_updates, show_user_updates),
                Seq::new(messages@.len(), |j: int| messages[j]@) == all.take(i as int).filter(
                    keeps,
                ),
            decreases values.len() - i,
        {
            let message = values[i];
            let ghost before = Seq::new(messages@.len(), |j: int| messages[j]@);
            proof {
                reveal(Seq::filter);
                assert(all.take(i + 1).drop_last() =~= all.take(i as int));
            }
            if message_is_shown(message, show_position_updates, show_user_updates) {
                messages.push(message);
                assert(Seq::new(messages@.len(), |j: int| messages[j]@) =~= before.push(message@));
            }
            i += 1;
        }
        assert(all.take(i as int) =~= all);
        messages
    }

    /// The text that announces a day, read today: "Today", the name of the day from this week on,
    /// as in "Friday", the month and the date before that, as in "Friday, Jul  8", and the year
    /// where it is another one, as in "Friday, Jul  8, 2022".
    pub fn day_separator(local: &LocalTime) -> (label: String)
        requires
            local.wf(),
        ensures
            exists|now: LocalTime|
                #[trigger] is_clock_time(now) && label@ == label_of(local.date, now.date),
    {
        let now = LocalTime::now();
        day_label(local, &now.date)
    }

    /// What the button that sends the text does. It is disabled while there is no text.
    pub fn send_button(&self) -> (request: Option<DeviceMessage>)
        ensures
            request == send_button_of(self.model()),
    {
        if !self.message().is_empty() {
            Some(
                DeviceMessage::ChannelMsg(
                    self.conversation_id(),
                    ChannelViewMessage::SendMessage(self.preparing_reply_to()),
                ),
            )
        } else {
            None
        }
    }

    /// What the button that clears the text does. It is disabled while there is no text.
    pub fn clear_button(&self) -> (request: Option<DeviceMessage>)
        ensures
            request == clear_button_of(self.model()),
    {
        if !self.message().is_empty() {
            Some(
                DeviceMessage::ChannelMsg(
                    self.conversation_id(),
                    ChannelViewMessage::ClearMessage,
                ),
            )
        } else {
            None
        }
    }

    /// The message input.
    pub fn input_box(&self) -> (input: InputBox<'_>)
        ensures
            input.is_of(self.model()),
    {
        InputBox {
            conversation_id: self.conversation_id(),
            text: self.message(),
            submit: DeviceMessage::ChannelMsg(
                self.conversation_id(),
                ChannelViewMessage::SendMessage(self.preparing_reply_to()),
            ),
            clear: self.clear_button(),
            send: self.send_button(),
        }
    }

    /// The row that explains that we are replying to a prior message.
    pub fn replying_to(&self, message_id: &MessageId) -> (row: Option<ReplyRow<'_>>)
        requires
            self.wf(),
        ensures
            is_reply_row(row, self.model(), *message_id),
    {
        match self.messages().get(message_id) {
            Some(original) => Some(
                ReplyRow {
                    original: original.message(),
                    cancel: DeviceMessage::ChannelMsg(
                        self.conversation_id(),
                        ChannelViewMessage::CancelPrepareReply,
                    ),
                },
            ),
            None => None,
        }
    }

    /// The view of the conversation, where the messages that are shown have these times.
    pub fn channel_view_on(
        &self,
        times: &Vec<LocalTime>,
        today: &LocalDate,
        enable_position: bool,
        enable_my_info: bool,
        show_position_updates: bool,
        show_user_updates: bool,
    ) -> (view: ChannelView<'_>)
        requires
            self.wf(),
            are_times_for(
                times@,
                shown(self.model().messages, show_position_updates, show_user_updates),
            ),
            today.wf(),
        ensures
            view.is_of(
                self.model(),
                ViewSettings {
                    enable_position,
                    enable_my_info,
                    show_position_updates,
                    show_user_updates,
                },
                times@,
                *today,
            ),
    {
        let rows = if self.messages().is_empty() {
            None
        } else {
            let messages = self.shown_messages(show_position_updates, show_user_updates);
            Some(message_rows(&messages, times, today, self.my_node_num()))
        };
        let conversation_id = self.conversation_id();
        let send_position = if enable_position {
            Some(DeviceMessage::SendPositionMessage(conversation_id))
        } else {
            None
        };
        let send_info = if enable_my_info {
            Some(DeviceMessage::SendSelfInfoMessage(conversation_id))
        } else {
            None
        };
        // If we are replying to a message, add a row with the original
        let reply = match self.preparing_reply_to() {
            Some(id) => self.replying_to(&id),
            None => None,
        };
        ChannelView {
            rows,
            send_position,
            send_info,
            share: DeviceMessage::ChannelMsg(conversation_id, ChannelViewMessage::ShareMeshChat),
            reply,
            input: self.input_box(),
        }
    }

    /// The view of the conversation.
    ///
    /// The dates of the messages are those of the local time zone, and the clock is read once if
    /// there is a message to show. There is a view exactly where each of these has a date.
    pub fn channel_view(
        &self,
        enable_position: bool,
        enable_my_info: bool,
        show_position_updates: bool,
        show_user_updates: bool,
    ) -> (view: Result<ChannelView<'_>, DateError>)
        requires
            self.wf(),
        ensures
            is_view_or_error(
                view,
                self.model(),
                ViewSettings {
                    enable_position,
                    enable_my_info,
                    show_position_updates,
                    show_user_updates,
                },
            ),
            ({
                let messages = shown(
                    self.model().messages,
                    show_position_updates,
                    show_user_updates,
                );
                view is Ok <==> none_too_far(messages, messages.len() as int)
            }),
    {
        let messages = self.shown_messages(show_position_updates, show_user_updates);
        let ghost all = shown(self.model().messages, show_position_updates, show_user_updates);
        assert(forall|i: int| 0 <= i < all.len() ==> all[i] == (#[trigger] messages[i])@);
        let times = match local_times(&messages) {
            Ok(times) => times,
            Err(error) => {
                return Err(error);
            },
        };
        let now = if messages.len() == 0 {
            // no row, so no date to compare with
            LocalTime::epoch()
        } else {
            LocalTime::now()
        };
        assert(are_local_times_of(times@, all));
        assert(is_reading(now) && (messages.len() > 0 ==> is_clock_time(now)));
        Ok(
            self.channel_view_on(
                &times,
                &now.date,
                enable_position,
                enable_my_info,
                show_position_updates,
                show_user_updates,
            ),
        )
    }

    /// The dialog in which a conversation is picked to forward a message to.
    fn channel_picker() -> (picker: ChannelPicker)
        ensures
            picker.close == DeviceMessage::StopForwardingMessage,
    {
        ChannelPicker { close: DeviceMessage::StopForwardingMessage }
    }

    /// The view of the conversation. While a message is being forwarded, a dialog is on top of
    /// it in which the user picks a conversation to forward it to.
    pub fn view(
        &self,
        enable_position: bool,
        enable_my_user: bool,
        forwarding_message: bool,
        show_position_updates: bool,
        show_user_updates: bool,
    ) -> (view: Result<ConversationView<'_>, DateError>)
        requires
            self.wf(),
        ensures
            is_view_or_error(
                content_of(view),
                self.model(),
                ViewSettings {
                    enable_position,
                    enable_my_info: enable_my_user,
                    show_position_updates,
                    show_user_updates,
                },
            ),
            ({
                let messages = shown(
                    self.model().messages,
                    show_position_updates,
                    show_user_updates,
                );
                view is Ok <==> none_too_far(messages, messages.len() as int)
            }),
            view matches Ok(view) ==> view.picker == if forwarding_message {
                Some(ChannelPicker { close: DeviceMessage::StopForwardingMessage })
            } else {
                None
            },
    {
        match self.channel_view(
            enable_position,
            enable_my_user,
            show_position_updates,
            show_user_updates,
        ) {
            Ok(content) => {
                let picker = if forwarding_message {
                    Some(Self::channel_picker())
                } else {
                    None
                };
                Ok(ConversationView { content, picker })
            },
            Err(error) => Err(error),
        }
    }
}

} // verus!
