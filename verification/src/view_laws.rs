//! What the screen shows, said of every call.
//!
//! A call is spoken of by what it was given and what it gave back: `call_ensures` of the function,
//! its arguments and its result.
use crate::calendar::{
    day_label, is_clock_time, is_reading, label_of, law_day_labels, law_only_today_is_today,
    law_same_day, month_name, name_of_day, padded_day, year_text, LocalDate, LocalTime,
};
use crate::channel_view::{
    are_local_times_of, content_of, is_first_too_far, is_reply_row, is_view_or_error,
    message_rows, none_too_far, rows_of, rows_view, starts_day, ChannelPicker, ChannelView,
    ConversationView, DateError, InputBox, ReplyRow, Row, RowModel, ViewSettings,
};
use crate::clock::is_clock_reading;
use crate::conversation::{ChannelViewMessage, Conversation, ConversationModel};
use crate::conversation_id::{ConversationId, MessageId, NodeId};
use crate::device::{Action, DeviceMessage};
use crate::history::distinct_ids;
use crate::laws::{last_heading, law_messages_stand_under_their_day, law_rows, lemma_position};
use crate::message::{MCMessage, MessageModel};
use crate::receipt_laws::{counts, lemma_shown};
use crate::timestamp::TimeStamp;
use crate::update_laws::law_prepare_reply;
use vstd::prelude::*;

verus! {

/// A message as it stands on the screen.
#[verifier::ext_equal]
pub struct OnScreen {
    pub message: MessageModel,
    pub mine: bool,
    pub show_sender: bool,
    /// The day that it stands under: the last one that is announced above it.
    pub heading: Option<Seq<char>>,
    /// The day is announced directly above it.
    pub announced: bool,
}

/// The messages among rows as they stand there, in their order.
pub open spec fn on_screen(rows: Seq<RowModel>) -> Seq<OnScreen>
    decreases rows.len(),
{
    if rows.len() == 0 {
        Seq::empty()
    } else {
        let above = rows.drop_last();
        match rows.last() {
            RowModel::DaySeparator(_) => on_screen(above),
            RowModel::Message { message, mine, show_sender } => on_screen(above).push(
                OnScreen {
                    message,
                    mine,
                    show_sender,
                    heading: last_heading(above),
                    announced: above.len() > 0 && above.last() is DaySeparator,
                },
            ),
        }
    }
}

/// The day that it is at a point in time where it is, counted from the epoch.
pub open spec fn day_of(local: LocalTime) -> int {
    (local.millis + 1000 * local.offset) / 86_400_000
}

/// How a message stands on the screen: as mine where it is from this node, with its sender where
/// the message above is from somebody else, under its own day, and directly below the announcement
/// of the day where that is another day than that of the message above.
pub open spec fn as_it_stands(
    messages: Seq<MessageModel>,
    times: Seq<LocalTime>,
    today: LocalDate,
    my_node_num: NodeId,
    i: int,
) -> OnScreen {
    OnScreen {
        message: messages[i],
        mine: messages[i].from == my_node_num,
        show_sender: i == 0 || messages[i].from != messages[i - 1].from,
        heading: Some(label_of(times[i].date, today)),
        announced: i == 0 || day_of(times[i]) != day_of(times[i - 1]),
    }
}

/// Whether the rows show these messages, sent at these times, to somebody who reads them today.
/// Below each day that is announced comes a message.
pub open spec fn are_rows_for(
    rows: Seq<RowModel>,
    messages: Seq<MessageModel>,
    times: Seq<LocalTime>,
    today: LocalDate,
    my_node_num: NodeId,
) -> bool {
    &&& on_screen(rows) == Seq::new(
        messages.len(),
        |i: int| as_it_stands(messages, times, today, my_node_num, i),
    )
    &&& forall|i: int|
        0 <= i < rows.len() && rows[i] is DaySeparator ==> i + 1 < rows.len()
            && #[trigger] rows[i + 1] is Message
}

/// Whether the rows show these messages by the clock: sent at their times, in the local time zone,
/// and read today. Exactly the messages of that day stand under "Today".
pub open spec fn are_rows_by_clock(
    rows: Seq<RowModel>,
    messages: Seq<MessageModel>,
    times: Seq<LocalTime>,
    now: LocalTime,
    my_node_num: NodeId,
) -> bool {
    &&& is_clock_time(now)
    &&& times.len() == messages.len()
    &&& forall|i: int|
        0 <= i < times.len() ==> (#[trigger] times[i]).wf() && times[i].is_local()
            && times[i].millis == messages[i].time.0
    &&& are_rows_for(rows, messages, times, now.date, my_node_num)
    &&& forall|i: int|
        0 <= i < messages.len() ==> ((#[trigger] on_screen(rows)[i]).heading == Some("Today"@)
            <==> day_of(times[i]) == day_of(now))
}

/// The messages of a conversation that count, with or without positions and users.
pub open spec fn counted(
    conversation: ConversationModel,
    positions: bool,
    users: bool,
) -> Seq<MessageModel> {
    conversation.messages.filter(|m: MessageModel| counts(m.content, positions, users))
}

proof fn lemma_on_screen(
    messages: Seq<MessageModel>,
    times: Seq<LocalTime>,
    today: LocalDate,
    my_node_num: NodeId,
    count: int,
)
    requires
        0 <= count <= messages.len(),
        times.len() == messages.len(),
        forall|i: int| 0 <= i < times.len() ==> (#[trigger] times[i]).wf(),
    ensures
        on_screen(rows_of(messages, times, today, my_node_num, count)) == Seq::new(
            count as nat,
            |i: int| as_it_stands(messages, times, today, my_node_num, i),
        ),
    decreases count,
{
    if count > 0 {
        lemma_on_screen(messages, times, today, my_node_num, count - 1);
        let i = count - 1;
        let rows = rows_of(messages, times, today, my_node_num, count);
        let above = rows_of(messages, times, today, my_node_num, i);
        let starts = starts_day(times, i);
        let label = label_of(times[i].date, today);
        let with_day = if starts { above.push(RowModel::DaySeparator(label)) } else { above };
        assert(rows.drop_last() =~= with_day);
        if starts {
            assert(with_day.drop_last() =~= above);
        } else {
            law_messages_stand_under_their_day(messages, times, today, my_node_num, i);
            assert(label == label_of(times[i - 1].date, today));
            assert(above.last() is Message);
        }
        if i > 0 {
            law_same_day(times[i].date, times[i - 1].date);
            assert(starts <==> day_of(times[i]) != day_of(times[i - 1]));
        }
        assert(on_screen(with_day) == on_screen(above));
        assert(last_heading(with_day) == Some(label));
        assert(on_screen(rows) =~= on_screen(above).push(
            as_it_stands(messages, times, today, my_node_num, i),
        ));
    }
}

proof fn lemma_rows_for(
    messages: Seq<MessageModel>,
    times: Seq<LocalTime>,
    today: LocalDate,
    my_node_num: NodeId,
)
    requires
        times.len() == messages.len(),
        forall|i: int| 0 <= i < times.len() ==> (#[trigger] times[i]).wf(),
    ensures
        are_rows_for(
            rows_of(messages, times, today, my_node_num, messages.len() as int),
            messages,
            times,
            today,
            my_node_num,
        ),
{
    lemma_on_screen(messages, times, today, my_node_num, messages.len() as int);
    law_rows(messages, times, today, my_node_num, messages.len() as int);
}

proof fn lemma_rows_by_clock(
    messages: Seq<MessageModel>,
    times: Seq<LocalTime>,
    now: LocalTime,
    my_node_num: NodeId,
)
    requires
        is_clock_time(now),
        are_local_times_of(times, messages),
    ensures
        are_rows_by_clock(
            rows_of(messages, times, now.date, my_node_num, messages.len() as int),
            messages,
            times,
            now,
            my_node_num,
        ),
{
    lemma_rows_for(messages, times, now.date, my_node_num);
    let rows = rows_of(messages, times, now.date, my_node_num, messages.len() as int);
    assert forall|i: int| 0 <= i < messages.len() implies ((#[trigger] on_screen(rows)[i]).heading
        == Some("Today"@) <==> day_of(times[i]) == day_of(now)) by {
        law_only_today_is_today(times[i].date, now.date);
    }
}

/// Whether the buttons of a view make the requests that they are for, the message input holds the
/// text typed so far, and the reply row shows the message that is replied to.
pub open spec fn is_furnished(
    view: ChannelView,
    conversation: ConversationModel,
    enable_position: bool,
    enable_my_info: bool,
) -> bool {
    let id = conversation.conversation_id;
    &&& view.send_position == if enable_position {
        Some(DeviceMessage::SendPositionMessage(id))
    } else {
        None
    }
    &&& view.send_info == if enable_my_info {
        Some(DeviceMessage::SendSelfInfoMessage(id))
    } else {
        None
    }
    &&& view.share == DeviceMessage::ChannelMsg(id, ChannelViewMessage::ShareMeshChat)
    &&& is_input_for(view.input, conversation)
    &&& match conversation.preparing_reply_to {
        Some(to) => quotes(view.reply, conversation, to),
        None => view.reply is None,
    }
}

/// Whether a message input shows the text typed so far and sends it, in reply to the message that
/// a reply is being written to.
pub open spec fn is_input_for(input: InputBox, conversation: ConversationModel) -> bool {
    let id = conversation.conversation_id;
    let send = ChannelViewMessage::SendMessage(conversation.preparing_reply_to);
    let empty = conversation.draft.len() == 0;
    &&& input.conversation_id == id
    &&& input.text@ == conversation.draft
    &&& input.submit == DeviceMessage::ChannelMsg(id, send)
    &&& input.send == if empty {
        None
    } else {
        Some(DeviceMessage::ChannelMsg(id, send))
    }
    &&& input.clear == if empty {
        None
    } else {
        Some(DeviceMessage::ChannelMsg(id, ChannelViewMessage::ClearMessage))
    }
}

/// Whether a reply row shows the content of the message with the id, and can be cancelled. There
/// is none where no message has the id.
pub open spec fn quotes(
    row: Option<ReplyRow>,
    conversation: ConversationModel,
    id: MessageId,
) -> bool {
    &&& forall|i: int|
        0 <= i < conversation.messages.len() && (#[trigger] conversation.messages[i]).id == id ==> (
        row matches Some(row) && *row.original == conversation.messages[i].content && row.cancel
            == DeviceMessage::ChannelMsg(
            conversation.conversation_id,
            ChannelViewMessage::CancelPrepareReply,
        ))
    &&& (forall|i: int|
        0 <= i < conversation.messages.len() ==> (#[trigger] conversation.messages[i]).id != id)
        ==> row is None
}

proof fn lemma_quotes(row: Option<ReplyRow>, conversation: ConversationModel, id: MessageId)
    requires
        distinct_ids(conversation.messages),
        is_reply_row(row, conversation, id),
    ensures
        quotes(row, conversation, id),
{
    assert forall|i: int|
        0 <= i < conversation.messages.len() && (#[trigger] conversation.messages[i]).id
            == id implies (row matches Some(row) && *row.original
        == conversation.messages[i].content && row.cancel == DeviceMessage::ChannelMsg(
        conversation.conversation_id,
        ChannelViewMessage::CancelPrepareReply,
    )) by {
        lemma_position(conversation.messages, i);
    }
}

proof fn lemma_furnished(
    view: ChannelView,
    conversation: ConversationModel,
    settings: ViewSettings,
    times: Seq<LocalTime>,
    today: LocalDate,
)
    requires
        distinct_ids(conversation.messages),
        view.is_of(conversation, settings, times, today),
    ensures
        is_furnished(
            view,
            conversation,
            settings.enable_position,
            settings.enable_my_info,
        ),
{
    if let Some(id) = conversation.preparing_reply_to {
        lemma_quotes(view.reply, conversation, id);
    }
}

/// Whether a result is the view of a conversation by the clock. It has rows unless there is no
/// message at all. There is no view exactly where a message that counts was sent after the last
/// millisecond that has a date, and the first of these is reported.
pub open spec fn is_screen_of(
    view: Result<ChannelView, DateError>,
    conversation: ConversationModel,
    enable_position: bool,
    enable_my_info: bool,
    positions: bool,
    users: bool,
) -> bool {
    let messages = counted(conversation, positions, users);
    match view {
        Ok(view) => {
            &&& is_furnished(view, conversation, enable_position, enable_my_info)
            &&& view.rows is None <==> conversation.messages.len() == 0
            &&& view.rows matches Some(rows) ==> {
                &&& messages.len() == 0 ==> rows@.len() == 0
                &&& messages.len() > 0 ==> exists|times: Seq<LocalTime>, now: LocalTime|
                    #[trigger] are_rows_by_clock(
                        rows_view(rows@),
                        messages,
                        times,
                        now,
                        conversation.my_node_num,
                    )
            }
            &&& forall|i: int|
                0 <= i < messages.len() ==> (#[trigger] messages[i]).time.0
                    <= 8_210_266_876_799_999
        },
        Err(error) => exists|i: int|
            0 <= i < messages.len() && (#[trigger] messages[i]).id == error.message
                && messages[i].time.0 > 8_210_266_876_799_999 && forall|j: int|
                0 <= j < i ==> (#[trigger] messages[j]).time.0 <= 8_210_266_876_799_999,
    }
}

proof fn lemma_screen(
    view: Result<ChannelView, DateError>,
    conversation: ConversationModel,
    settings: ViewSettings,
)
    requires
        distinct_ids(conversation.messages),
        is_view_or_error(view, conversation, settings),
    ensures
        is_screen_of(
            view,
            conversation,
            settings.enable_position,
            settings.enable_my_info,
            settings.show_position_updates,
            settings.show_user_updates,
        ),
{
    let positions = settings.show_position_updates;
    let users = settings.show_user_updates;
    lemma_shown(conversation.messages, positions, users);
    let messages = counted(conversation, positions, users);
    match view {
        Ok(view) => {
            assert(none_too_far(messages, messages.len() as int));
            let (times, now) = choose|times: Seq<LocalTime>, now: LocalTime|
                #[trigger] view.is_of(conversation, settings, times, now.date)
                    && are_local_times_of(times, messages)
                    && #[trigger] is_reading(now) && (messages.len() > 0
                    ==> is_clock_time(now));
            lemma_furnished(view, conversation, settings, times, now.date);
            if let Some(rows) = view.rows {
                if messages.len() > 0 {
                    lemma_rows_by_clock(messages, times, now, conversation.my_node_num);
                    assert(are_rows_by_clock(
                        rows_view(rows@),
                        messages,
                        times,
                        now,
                        conversation.my_node_num,
                    ));
                } else {
                    assert(rows_view(rows@).len() == rows@.len());
                }
            }
        },
        Err(error) => {
            assert(is_first_too_far(messages, error.message));
        },
    }
}

/// The view of a conversation shows the messages that count, each once and in their order, under
/// its own day in the local time zone, read against the clock.
pub proof fn law_channel_view<'a>(
    conversation: &'a Conversation,
    enable_position: bool,
    enable_my_info: bool,
    positions: bool,
    users: bool,
    view: Result<ChannelView<'a>, DateError>,
)
    requires
        conversation.wf(),
        call_ensures(
            Conversation::channel_view,
            (conversation, enable_position, enable_my_info, positions, users),
            view,
        ),
    ensures
        is_screen_of(
            view,
            conversation.model(),
            enable_position,
            enable_my_info,
            positions,
            users,
        ),
{
    conversation.law_invariant();
    lemma_screen(
        view,
        conversation.model(),
        ViewSettings {
            enable_position,
            enable_my_info,
            show_position_updates: positions,
            show_user_updates: users,
        },
    );
}

/// The whole view shows the same of the conversation, and the dialog exactly while a message is
/// being forwarded. Closing the dialog stops that.
pub proof fn law_whole_view<'a>(
    conversation: &'a Conversation,
    enable_position: bool,
    enable_my_user: bool,
    forwarding: bool,
    positions: bool,
    users: bool,
    view: Result<ConversationView<'a>, DateError>,
)
    requires
        conversation.wf(),
        call_ensures(
            Conversation::view,
            (conversation, enable_position, enable_my_user, forwarding, positions, users),
            view,
        ),
    ensures
        is_screen_of(
            match view {
                Ok(view) => Ok(view.content),
                Err(error) => Err(error),
            },
            conversation.model(),
            enable_position,
            enable_my_user,
            positions,
            users,
        ),
        view matches Ok(view) ==> (view.picker is Some <==> forwarding),
        view matches Ok(view) ==> (view.picker matches Some(picker) ==> picker.close
            is StopForwardingMessage),
{
    conversation.law_invariant();
    lemma_screen(
        content_of(view),
        conversation.model(),
        ViewSettings {
            enable_position,
            enable_my_info: enable_my_user,
            show_position_updates: positions,
            show_user_updates: users,
        },
    );
}

/// Whether, by a reading of the clock, no message stands under "Today" that was sent on a day before
/// or after, in the local time zone, and every message of the day does.
pub open spec fn only_today_is_today(
    screen: Seq<OnScreen>,
    messages: Seq<MessageModel>,
    times: Seq<LocalTime>,
    now: LocalTime,
) -> bool {
    &&& is_clock_time(now)
    &&& screen.len() == messages.len()
    &&& times.len() == messages.len()
    &&& forall|i: int|
        #![trigger times[i]]
        0 <= i < messages.len() ==> {
            &&& times[i].is_of(messages[i].time)
            &&& times[i].is_local()
            &&& day_of(times[i]) < day_of(now) ==> screen[i].heading != Some("Today"@)
            &&& day_of(times[i]) > day_of(now) ==> screen[i].heading != Some("Today"@)
            &&& day_of(times[i]) == day_of(now) ==> screen[i].heading == Some("Today"@)
        }
}

/// A message of a day before the day of the clock's reading never stands under "Today", and nor
/// does one of a day to come.
pub proof fn law_other_days_are_not_today<'a>(
    conversation: &'a Conversation,
    enable_position: bool,
    enable_my_info: bool,
    positions: bool,
    users: bool,
    view: ChannelView<'a>,
)
    requires
        conversation.wf(),
        call_ensures(
            Conversation::channel_view,
            (conversation, enable_position, enable_my_info, positions, users),
            Ok(view),
        ),
        counted(conversation.model(), positions, users).len() > 0,
    ensures
        view.rows matches Some(rows) && exists|times: Seq<LocalTime>, now: LocalTime|
            #[trigger] only_today_is_today(
                on_screen(rows_view(rows@)),
                counted(conversation.model(), positions, users),
                times,
                now,
            ),
{
    law_channel_view(conversation, enable_position, enable_my_info, positions, users, Ok(view));
    let messages = counted(conversation.model(), positions, users);
    assert(conversation.model().messages.len() > 0) by {
        if conversation.model().messages.len() == 0 {
            reveal(Seq::filter);
        }
    }
    let rows = rows_view(view.rows->0@);
    let me = conversation.model().my_node_num;
    let (times, now) = choose|times: Seq<LocalTime>, now: LocalTime|
        #[trigger] are_rows_by_clock(rows, messages, times, now, me);
    assert(are_rows_by_clock(rows, messages, times, now, me));
    lemma_only_today(rows, messages, times, now, me);
}

proof fn lemma_only_today(
    rows: Seq<RowModel>,
    messages: Seq<MessageModel>,
    times: Seq<LocalTime>,
    now: LocalTime,
    my_node_num: NodeId,
)
    requires
        are_rows_by_clock(rows, messages, times, now, my_node_num),
    ensures
        only_today_is_today(on_screen(rows), messages, times, now),
{
    let screen = on_screen(rows);
    assert forall|i: int|
        #![trigger times[i]]
        0 <= i < messages.len() implies {
        &&& times[i].is_of(messages[i].time)
        &&& times[i].is_local()
        &&& day_of(times[i]) < day_of(now) ==> screen[i].heading != Some("Today"@)
        &&& day_of(times[i]) > day_of(now) ==> screen[i].heading != Some("Today"@)
        &&& day_of(times[i]) == day_of(now) ==> screen[i].heading == Some("Today"@)
    } by {
        assert(screen[i].heading == Some("Today"@) <==> day_of(times[i]) == day_of(now));
    }
}

/// At given times and a given day, the view is the one of these.
pub proof fn law_channel_view_on<'a>(
    conversation: &'a Conversation,
    times: &Vec<LocalTime>,
    today: &LocalDate,
    enable_position: bool,
    enable_my_info: bool,
    positions: bool,
    users: bool,
    view: ChannelView<'a>,
)
    requires
        conversation.wf(),
        times.len() == counted(conversation.model(), positions, users).len(),
        forall|i: int| 0 <= i < times.len() ==> (#[trigger] times[i]).wf(),
        call_ensures(
            Conversation::channel_view_on,
            (conversation, times, today, enable_position, enable_my_info, positions, users),
            view,
        ),
    ensures
        is_furnished(view, conversation.model(), enable_position, enable_my_info),
        view.rows is None <==> conversation.model().messages.len() == 0,
        view.rows matches Some(rows) ==> are_rows_for(
            rows_view(rows@),
            counted(conversation.model(), positions, users),
            times@,
            *today,
            conversation.model().my_node_num,
        ),
{
    conversation.law_invariant();
    lemma_shown(conversation.model().messages, positions, users);
    lemma_furnished(
        view,
        conversation.model(),
        ViewSettings {
            enable_position,
            enable_my_info,
            show_position_updates: positions,
            show_user_updates: users,
        },
        times@,
        *today,
    );
    lemma_rows_for(
        counted(conversation.model(), positions, users),
        times@,
        *today,
        conversation.model().my_node_num,
    );
}

/// A day is announced as it is read against the clock: as "Today" exactly where it is the day of
/// the reading.
pub proof fn law_day_separator(local: &LocalTime, label: String)
    requires
        local.wf(),
        call_ensures(Conversation::day_separator, (local,), label),
    ensures
        exists|now: LocalTime| #[trigger]
            is_clock_time(now) && label@ == label_of(local.date, now.date) && (label@ == "Today"@
                <==> day_of(*local) == day_of(now)),
{
    let now = choose|now: LocalTime| #[trigger]
        is_clock_time(now) && label@ == label_of(local.date, now.date);
    law_only_today_is_today(local.date, now.date);
    assert(is_clock_time(now));
}

/// The reply row shows the message with the id that it was asked for.
pub proof fn law_replying_to<'a>(
    conversation: &'a Conversation,
    id: &MessageId,
    row: Option<ReplyRow<'a>>,
)
    requires
        conversation.wf(),
        call_ensures(Conversation::replying_to, (conversation, id), row),
    ensures
        quotes(row, conversation.model(), *id),
{
    conversation.law_invariant();
    lemma_quotes(row, conversation.model(), *id);
}

/// After a reply to a message was started, the view quotes that message, and submitting what is
/// typed sends it in reply to that message.
pub proof fn law_reply_quotes_and_sends<'a>(
    conversation: &mut Conversation,
    id: MessageId,
    i: int,
    prepare_action: Action,
    prepared: &'a Conversation,
    enable_position: bool,
    enable_my_info: bool,
    positions: bool,
    users: bool,
    view: ChannelView<'a>,
    sending: &mut Conversation,
    reply_to: Option<MessageId>,
    send_action: Action,
)
    requires
        old(conversation).wf(),
        0 <= i < old(conversation).model().messages.len(),
        old(conversation).model().messages[i].id == id,
        call_ensures(
            Conversation::update,
            (conversation, ChannelViewMessage::PrepareReply(id)),
            prepare_action,
        ),
        *prepared == *final(conversation),
        call_ensures(
            Conversation::channel_view,
            (prepared, enable_position, enable_my_info, positions, users),
            Ok(view),
        ),
        view.input.submit == DeviceMessage::ChannelMsg(
            prepared.model().conversation_id,
            ChannelViewMessage::SendMessage(reply_to),
        ),
        *old(sending) == *prepared,
        prepared.model().draft.len() > 0,
        call_ensures(
            Conversation::update,
            (sending, ChannelViewMessage::SendMessage(reply_to)),
            send_action,
        ),
    ensures
        view.reply matches Some(row) && *row.original == old(
            conversation,
        ).model().messages[i].content,
        reply_to == Some(id),
        send_action matches Action::Emit(DeviceMessage::SendTextMessage(text, to, re)) && text@
            == old(conversation).model().draft && to == old(
            conversation,
        ).model().conversation_id && re == Some(id),
{
    law_channel_view(prepared, enable_position, enable_my_info, positions, users, Ok(view));
    law_prepare_reply(conversation, id, prepare_action);
    assert(old(conversation).model().messages[i].id == id);
    assert(prepared.model().messages[i].id == id);
}

/// The buttons beside the message input, and the input itself, are as they are on the screen. A
/// text that is typed there is handed to the conversation as it is.
pub proof fn law_input_box<'a>(
    conversation: &'a Conversation,
    input: InputBox<'a>,
    send: Option<DeviceMessage>,
    clear: Option<DeviceMessage>,
    text: String,
    typed: DeviceMessage,
)
    requires
        call_ensures(Conversation::input_box, (conversation,), input),
        call_ensures(Conversation::send_button, (conversation,), send),
        call_ensures(Conversation::clear_button, (conversation,), clear),
        call_ensures(InputBox::typed, (&input, text), typed),
    ensures
        is_input_for(input, conversation.model()),
        send == input.send,
        clear == input.clear,
        typed == DeviceMessage::ChannelMsg(
            conversation.model().conversation_id,
            ChannelViewMessage::MessageInput(text),
        ),
{
}

/// The conversation that is picked in the dialog is the one that the message is forwarded to.
pub proof fn law_forward(id: ConversationId, request: DeviceMessage)
    requires
        call_ensures(ChannelPicker::select, (id,), request),
    ensures
        request == DeviceMessage::ForwardMessage(id),
{
}

/// The rows for messages with these times show all of them, as they stand.
pub proof fn law_message_rows<'a>(
    messages: &Vec<&'a MCMessage>,
    times: &Vec<LocalTime>,
    today: &LocalDate,
    my_node_num: NodeId,
    rows: Vec<Row<'a>>,
)
    requires
        times.len() == messages.len(),
        forall|i: int| 0 <= i < times.len() ==> (#[trigger] times[i]).wf(),
        call_ensures(message_rows, (messages, times, today, my_node_num), rows),
    ensures
        are_rows_for(
            rows_view(rows@),
            Seq::new(messages@.len(), |i: int| messages@[i]@),
            times@,
            *today,
            my_node_num,
        ),
{
    let all = Seq::new(messages@.len(), |i: int| messages@[i]@);
    lemma_rows_for(all, times@, *today, my_node_num);
}

/// How a day is announced: "Today" for today, by its name from this week on, with month and date
/// in the weeks before, and with the year as well in the years before.
pub proof fn law_day_label(local: &LocalTime, today: &LocalDate, label: String)
    requires
        local.wf(),
        today.wf(),
        call_ensures(day_label, (local, today), label),
    ensures
        label@ == "Today"@ <==> local.date.number() == today.number(),
        ({
            let this_week = (today.number() - 1) / 7;
            let week = (local.date.number() - 1) / 7;
            &&& week >= this_week && local.date.number() != today.number() ==> label@
                == name_of_day(local.date)
            &&& week < this_week && local.date.year == today.year ==> label@ == name_of_day(
                local.date,
            ) + ", "@ + month_name(local.date.month as int) + " "@ + padded_day(
                local.date.day as int,
            )
            &&& week < this_week && local.date.year != today.year ==> label@ == name_of_day(
                local.date,
            ) + ", "@ + month_name(local.date.month as int) + " "@ + padded_day(
                local.date.day as int,
            ) + ", "@ + year_text(local.date.year as int)
        }),
{
    law_only_today_is_today(local.date, *today);
    law_day_labels(local.date, *today);
}

/// A point in time has a date in every time zone, if chrono represents it: the one of the day that
/// it is there. Two points in time of the same day there have the same date.
pub proof fn law_local_time(
    millis: i64,
    offset: i32,
    local: Option<LocalTime>,
    other_millis: i64,
    other_offset: i32,
    other: Option<LocalTime>,
)
    requires
        call_ensures(LocalTime::at, (millis, offset), local),
        call_ensures(LocalTime::at, (other_millis, other_offset), other),
    ensures
        local is Some <==> -8_334_601_228_800_000 <= millis <= 8_210_266_876_799_999 && -86_400
            < offset < 86_400,
        local matches Some(local) ==> local.millis == millis && local.offset == offset
            && local.date.number() == 719_163 + day_of(local),
        local is Some && other is Some ==> (local->0.date.same_day(other->0.date) <==> day_of(
            local->0,
        ) == day_of(other->0)),
{
    if local is Some && other is Some {
        law_same_day(local->0.date, other->0.date);
    }
}

/// A time stamp has a local time if chrono represents it: the same point in time, in the local
/// time zone. The clock's reading has one always.
pub proof fn law_local_time_of(time: TimeStamp, local: Option<LocalTime>, now: LocalTime)
    requires
        call_ensures(LocalTime::of, (time,), local),
        call_ensures(LocalTime::now, (), now),
    ensures
        local is Some <==> time.0 <= 8_210_266_876_799_999,
        local matches Some(local) ==> local.wf() && local.millis == time.0 && local.is_local(),
        now.wf() && now.is_local() && is_clock_reading(now.millis as int),
{
}

} // verus!
