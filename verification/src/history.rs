//! The messages of a conversation, oldest first.
use crate::config::HistoryLength;
use crate::conversation_id::MessageId;
use crate::message::{MCMessage, MessageModel};
use crate::timestamp::TimeStamp;
use ringmap::RingMap;
use vstd::prelude::*;

verus! {

/// `ringmap::RingMap`, a hash map that keeps its entries in a consistent order.
#[verifier::external_type_specification]
#[verifier::external_body]
#[verifier::reject_recursive_types(K)]
#[verifier::reject_recursive_types(V)]
#[verifier::reject_recursive_types(S)]
pub struct ExRingMap<K, V, S>(RingMap<K, V, S>);

/// The entries of a map, in its order.
pub uninterp spec fn entries(map: RingMap<u64, MCMessage>) -> Seq<(u64, MessageModel)>;

pub open spec fn has_key(entries: Seq<(u64, MessageModel)>, key: u64) -> bool {
    exists|i: int| 0 <= i < entries.len() && entries[i].0 == key
}

/// Where the entry with the key stands.
pub open spec fn position_of_key(entries: Seq<(u64, MessageModel)>, key: u64) -> int {
    choose|i: int| 0 <= i < entries.len() && entries[i].0 == key
}

/// The entries without the one that has the key, if there is one.
pub open spec fn without_key(entries: Seq<(u64, MessageModel)>, key: u64) -> Seq<
    (u64, MessageModel),
> {
    if has_key(entries, key) {
        entries.remove(position_of_key(entries, key))
    } else {
        entries
    }
}

/// No entry is older than one before it.
pub open spec fn entries_by_time(entries: Seq<(u64, MessageModel)>) -> bool {
    forall|i: int, j: int|
        0 <= i < j < entries.len() ==> entries[i].1.time.0 <= entries[j].1.time.0
}

/// Whether the entries after are those before, without one that has the key, with a new entry at
/// the position: nothing newer before it, nothing older behind it.
pub open spec fn is_sorted_insert(
    before: Seq<(u64, MessageModel)>,
    key: u64,
    message: MessageModel,
    position: usize,
    after: Seq<(u64, MessageModel)>,
) -> bool {
    let rest = without_key(before, key);
    &&& position <= rest.len()
    &&& forall|i: int| 0 <= i < position ==> (#[trigger] rest[i]).1.time.0 <= message.time.0
    &&& forall|i: int|
        position <= i < rest.len() ==> (#[trigger] rest[i]).1.time.0 >= message.time.0
    &&& after == rest.insert(position as int, (key, message))
}

/// `RingMap::new`.
///
/// Trusted: a new map is empty.
#[verifier::external_body]
fn ring_new() -> (map: RingMap<u64, MCMessage>)
    ensures
        entries(map) == Seq::<(u64, MessageModel)>::empty(),
{
    RingMap::new()
}

/// `RingMap::len`.
///
/// Trusted: it is the number of entries.
#[verifier::external_body]
fn ring_len(map: &RingMap<u64, MCMessage>) -> (len: usize)
    ensures
        len == entries(*map).len(),
{
    map.len()
}

/// `RingMap::contains_key`.
///
/// Trusted: it says whether some entry has the key.
#[verifier::external_body]
fn ring_contains_key(map: &RingMap<u64, MCMessage>, key: u64) -> (contains: bool)
    ensures
        contains == has_key(entries(*map), key),
{
    map.contains_key(&key)
}

/// `RingMap::get`.
///
/// Trusted: it finds the value of the entry that has the key, if there is one.
#[verifier::external_body]
fn ring_get(map: &RingMap<u64, MCMessage>, key: u64) -> (found: Option<&MCMessage>)
    ensures
        found is Some <==> has_key(entries(*map), key),
        found matches Some(message) ==> message@ == entries(*map)[position_of_key(
            entries(*map),
            key,
        )].1,
{
    map.get(&key)
}

/// `RingMap::get_mut`.
///
/// Trusted: it finds the value of the entry that has the key, if there is one. What is written
/// there becomes the value of the entry; its place and all other entries stay as they are.
#[verifier::external_body]
fn ring_get_mut(map: &mut RingMap<u64, MCMessage>, key: u64) -> (found: Option<&mut MCMessage>)
    ensures
        match found {
            Some(message) => {
                let position = position_of_key(entries(*old(map)), key);
                &&& has_key(entries(*old(map)), key)
                &&& message@ == entries(*old(map))[position].1
                &&& entries(*final(map)) == entries(*old(map)).update(
                    position,
                    (key, final(message)@),
                )
            },
            None => !has_key(entries(*old(map)), key) && entries(*final(map)) == entries(*old(map)),
        },
{
    map.get_mut(&key)
}

/// `RingMap::values`, collected.
///
/// Trusted: it gives the values of all entries, in the order of the map.
#[verifier::external_body]
fn ring_values(map: &RingMap<u64, MCMessage>) -> (values: Vec<&MCMessage>)
    ensures
        values.len() == entries(*map).len(),
        forall|i: int| 0 <= i < values.len() ==> (#[trigger] values[i])@ == entries(*map)[i].1,
{
    map.values().collect()
}

/// `RingMap::insert_sorted_by` with [`MCMessage::sort_by_timestamp`], and the position that it
/// returns.
///
/// Trusted: an entry with the same key leaves the map, and the new entry is put in between the
/// others so that no older one follows it and no newer one comes before it. The binary search
/// behind it leaves open where among entries of the same time that is.
#[verifier::external_body]
fn ring_insert_sorted_by_timestamp(
    map: &mut RingMap<u64, MCMessage>,
    key: u64,
    message: MCMessage,
) -> (position: usize)
    requires
        entries_by_time(entries(*old(map))),
    ensures
        is_sorted_insert(entries(*old(map)), key, message@, position, entries(*final(map))),
{
    map.insert_sorted_by(key, message, MCMessage::sort_by_timestamp).0
}

/// `RingMap::pop_front`.
///
/// Trusted: it takes the first entry out, if there is one, and keeps the order of the others.
#[verifier::external_body]
fn ring_pop_front(map: &mut RingMap<u64, MCMessage>) -> (popped: Option<(u64, MCMessage)>)
    ensures
        popped is Some <==> entries(*old(map)).len() > 0,
        popped matches Some(entry) ==> (entry.0, entry.1@) == entries(*old(map))[0]
            && entries(*final(map)) == entries(*old(map)).drop_first(),
        popped is None ==> entries(*final(map)) == entries(*old(map)),
{
    map.pop_front()
}

/// `RingMap::pop_front_if` with [`MCMessage::is_older_than`].
///
/// Trusted: it takes the first entry out if its message is older, and does nothing if it is not
/// or if there is none.
#[verifier::external_body]
fn ring_pop_front_if_older(map: &mut RingMap<u64, MCMessage>, oldest: u128) -> (popped: Option<
    (u64, MCMessage),
>)
    ensures
        popped is Some <==> entries(*old(map)).len() > 0 && entries(*old(map))[0].1.time.0 < oldest,
        popped matches Some(entry) ==> (entry.0, entry.1@) == entries(*old(map))[0]
            && entries(*final(map)) == entries(*old(map)).drop_first(),
        popped is None ==> entries(*final(map)) == entries(*old(map)),
{
    map.pop_front_if(|_key, message| message.is_older_than(oldest))
}

/// The messages of the entries.
pub open spec fn messages_of(entries: Seq<(u64, MessageModel)>) -> Seq<MessageModel> {
    Seq::new(entries.len(), |i: int| entries[i].1)
}

pub open spec fn has_message(messages: Seq<MessageModel>, id: MessageId) -> bool {
    exists|i: int| 0 <= i < messages.len() && (#[trigger] messages[i]).id == id
}

/// Where the message with the id stands.
pub open spec fn position_of(messages: Seq<MessageModel>, id: MessageId) -> int {
    choose|i: int| 0 <= i < messages.len() && (#[trigger] messages[i]).id == id
}

/// No two messages have the same id.
pub open spec fn distinct_ids(messages: Seq<MessageModel>) -> bool {
    forall|i: int, j: int|
        0 <= i < j < messages.len() ==> (#[trigger] messages[i]).id != (#[trigger] messages[j]).id
}

/// No message is older than one before it.
pub open spec fn by_time(messages: Seq<MessageModel>) -> bool {
    forall|i: int, j: int|
        0 <= i < j < messages.len() ==> (#[trigger] messages[i]).time.0 <= (
        #[trigger] messages[j]).time.0
}

/// The messages without the one that has the id, if there is one.
pub open spec fn without(messages: Seq<MessageModel>, id: MessageId) -> Seq<MessageModel> {
    if has_message(messages, id) {
        messages.remove(position_of(messages, id))
    } else {
        messages
    }
}

/// A place for a message of that time: nothing newer before it, nothing older behind it.
pub open spec fn is_place_for(
    messages: Seq<MessageModel>,
    position: int,
    time: TimeStamp,
) -> bool {
    &&& 0 <= position <= messages.len()
    &&& forall|i: int| 0 <= i < position ==> (#[trigger] messages[i]).time.0 <= time.0
    &&& forall|i: int| position <= i < messages.len() ==> (#[trigger] messages[i]).time.0 >= time.0
}

/// Whether the messages after are those before with the new one put in its place. A message with
/// the same id makes way for it.
pub open spec fn is_inserted(
    before: Seq<MessageModel>,
    message: MessageModel,
    after: Seq<MessageModel>,
) -> bool {
    let rest = without(before, message.id);
    exists|position: int|
        #[trigger] is_place_for(rest, position, message.time) && after == rest.insert(
            position,
            message,
        )
}

/// What is left of the messages when the history is trimmed, at the time `now`.
pub open spec fn trimmed(
    messages: Seq<MessageModel>,
    history_length: HistoryLength,
    now: TimeStamp,
) -> Seq<MessageModel> {
    match history_length {
        HistoryLength::All => messages,
        HistoryLength::NumberOfMessages(number) => if messages.len() > number {
            messages.skip(messages.len() - number)
        } else {
            messages
        },
        HistoryLength::Duration(duration) => messages.filter(
            |message: MessageModel| message.time.0 >= now.0 - duration.millis(),
        ),
    }
}

/// The messages of a conversation, each under its id, ordered by time.
#[derive(Debug)]
pub struct MessageLog {
    messages: RingMap<u64, MCMessage>,
}

impl View for MessageLog {
    type V = Seq<MessageModel>;

    closed spec fn view(&self) -> Seq<MessageModel> {
        messages_of(entries(self.messages))
    }
}

impl MessageLog {
    /// Each message stands under its own id, and all are in the order of time.
    pub closed spec fn wf(&self) -> bool {
        &&& forall|i: int|
            0 <= i < self@.len() ==> (#[trigger] entries(self.messages)[i]).0 == self@[i].id.0
        &&& distinct_ids(self@)
        &&& by_time(self@)
    }

    /// A valid log has its messages in the order of time, and each only once.
    pub proof fn lemma_wf(&self)
        requires
            self.wf(),
        ensures
            distinct_ids(self@),
            by_time(self@),
    {
    }

    /// A key is in use exactly where a message has it for its id.
    proof fn lemma_keys(&self, id: MessageId)
        requires
            self.wf(),
        ensures
            has_key(entries(self.messages), id.0) == has_message(self@, id),
            has_message(self@, id) ==> position_of_key(entries(self.messages), id.0) == position_of(
                self@,
                id,
            ),
    {
        let all = entries(self.messages);
        if has_message(self@, id) {
            let i = position_of(self@, id);
            assert(self@[i].id == id);
            assert(all[i].0 == id.0);
        }
        if has_key(all, id.0) {
            let i = position_of_key(all, id.0);
            assert(all[i].0 == id.0);
            assert(self@[i].id == id);
        }
    }

    pub fn new() -> (log: MessageLog)
        ensures
            log.wf(),
            log@ == Seq::<MessageModel>::empty(),
    {
        let log = MessageLog { messages: ring_new() };
        assert(log@ =~= Seq::<MessageModel>::empty());
        log
    }

    pub fn len(&self) -> (len: usize)
        ensures
            len == self@.len(),
    {
        ring_len(&self.messages)
    }

    pub fn is_empty(&self) -> (empty: bool)
        ensures
            empty <==> self@.len() == 0,
    {
        self.len() == 0
    }

    /// Whether there is a message with the id.
    pub fn contains_key(&self, id: &MessageId) -> (contains: bool)
        requires
            self.wf(),
        ensures
            contains == has_message(self@, *id),
    {
        proof {
            self.lemma_keys(*id);
        }
        ring_contains_key(&self.messages, id.0)
    }

    /// The message with the id.
    pub fn get(&self, id: &MessageId) -> (found: Option<&MCMessage>)
        requires
            self.wf(),
        ensures
            found is Some <==> has_message(self@, *id),
            found matches Some(message) ==> message@ == self@[position_of(self@, *id)],
    {
        proof {
            self.lemma_keys(*id);
        }
        ring_get(&self.messages, id.0)
    }

    /// The message with the id, for a change of anything but its id and time.
    pub(crate) fn get_mut(&mut self, id: &MessageId) -> (found: Option<&mut MCMessage>)
        requires
            old(self).wf(),
        ensures
            match found {
                Some(message) => {
                    let position = position_of(old(self)@, *id);
                    &&& has_message(old(self)@, *id)
                    &&& message@ == old(self)@[position]
                    &&& final(self)@ == old(self)@.update(position, final(message)@)
                    &&& final(message)@.id == message@.id && final(message)@.time == message@.time
                        ==> final(self).wf()
                },
                None => !has_message(old(self)@, *id) && final(self).wf() && final(self)@ == old(
                    self,
                )@,
            },
    {
        proof {
            self.lemma_keys(*id);
        }
        ring_get_mut(&mut self.messages, id.0)
    }

    /// All messages, oldest first.
    pub fn values(&self) -> (values: Vec<&MCMessage>)
        ensures
            values.len() == self@.len(),
            forall|i: int| 0 <= i < values.len() ==> (#[trigger] values[i])@ == self@[i],
    {
        ring_values(&self.messages)
    }

    /// Puts a message in its place by time. One with the same id makes way for it.
    pub fn insert(&mut self, message: MCMessage)
        requires
            old(self).wf(),
        ensures
            final(self).wf(),
            is_inserted(old(self)@, message@, final(self)@),
    {
        let ghost before = *self;
        let ghost new = message@;
        proof {
            self.lemma_keys(new.id);
        }
        let position = ring_insert_sorted_by_timestamp(
            &mut self.messages,
            message.message_id().0,
            message,
        );
        proof {
            let rest = without(before@, new.id);
            let rest_entries = without_key(entries(before.messages), new.id.0);
            assert(messages_of(rest_entries) =~= rest);
            assert(self@ =~= rest.insert(position as int, new));
            assert(is_place_for(rest, position as int, new.time));
            assert(!has_message(rest, new.id));
            assert(distinct_ids(rest));
            assert(by_time(rest));
        }
    }

    /// Removes the messages that the history has no room for, at the time `now`.
    pub fn trim(&mut self, history_length: &HistoryLength, now: TimeStamp)
        requires
            old(self).wf(),
            history_length matches HistoryLength::Duration(duration) ==> duration.millis() <= now.0,
        ensures
            final(self).wf(),
            final(self)@ == trimmed(old(self)@, *history_length, now),
    {
        let ghost before = self@;
        match history_length {
            HistoryLength::NumberOfMessages(number) => {
                while self.len() > *number
                    invariant
                        self.wf(),
                        self@.len() <= before.len(),
                        self@ == before.skip(before.len() - self@.len()),
                        before.len() > *number ==> self@.len() >= *number,
                        before.len() <= *number ==> self@.len() == before.len(),
                    decreases self@.len(),
                {
                    self.pop_front();
                }
                assert(before.len() <= *number ==> self@ =~= before);
            },
            HistoryLength::Duration(duration) => {
                let oldest: u128 = u128::from(now) - duration.as_millis();
                let ghost mut removed = Seq::<MessageModel>::empty();
                assert(before =~= removed + self@);
                loop
                    invariant
                        self.wf(),
                        before == removed + self@,
                        forall|i: int| 0 <= i < removed.len() ==> removed[i].time.0 < oldest,
                    ensures
                        self@.len() > 0 ==> self@[0].time.0 >= oldest,
                    decreases self@.len(),
                {
                    let ghost rest = self@;
                    if !self.pop_front_if_older(oldest) {
                        break;
                    }
                    proof {
                        removed = removed.push(rest[0]);
                        assert(before =~= removed + self@);
                    }
                }
                proof {
                    let keeps = |message: MessageModel|
                        message.time.0 >= now.0 - duration.millis();
                    lemma_filter_drops_all(removed, keeps);
                    lemma_filter_keeps_all(self@, keeps);
                    Seq::filter_distributes_over_add(removed, self@, keeps);
                    assert(removed.filter(keeps) + self@.filter(keeps) =~= self@);
                }
            },
            HistoryLength::All => {},
        }
    }

    /// Removes the oldest message.
    fn pop_front(&mut self)
        requires
            old(self).wf(),
            old(self)@.len() > 0,
        ensures
            final(self).wf(),
            final(self)@ == old(self)@.drop_first(),
    {
        let ghost before = *self;
        let _ = ring_pop_front(&mut self.messages);
        proof {
            self.lemma_drop_first(before);
        }
    }

    /// Removes the oldest message if it is older than that.
    fn pop_front_if_older(&mut self, oldest: u128) -> (popped: bool)
        requires
            old(self).wf(),
        ensures
            final(self).wf(),
            popped <==> old(self)@.len() > 0 && old(self)@[0].time.0 < oldest,
            final(self)@ == if popped {
                old(self)@.drop_first()
            } else {
                old(self)@
            },
    {
        let ghost before = *self;
        let popped = ring_pop_front_if_older(&mut self.messages, oldest).is_some();
        proof {
            if popped {
                self.lemma_drop_first(before);
            }
        }
        popped
    }

    proof fn lemma_drop_first(&self, before: MessageLog)
        requires
            before.wf(),
            before@.len() > 0,
            entries(self.messages) == entries(before.messages).drop_first(),
        ensures
            self.wf(),
            self@ == before@.drop_first(),
    {
        assert(self@ =~= before@.drop_first());
        assert forall|i: int| 0 <= i < self@.len() implies (#[trigger] entries(self.messages)[i]).0
            == self@[i].id.0 by {
            assert(entries(self.messages)[i] == entries(before.messages)[i + 1]);
        }
    }
}

pub proof fn lemma_filter_drops_all(
    messages: Seq<MessageModel>,
    keeps: spec_fn(MessageModel) -> bool,
)
    requires
        forall|i: int| 0 <= i < messages.len() ==> !keeps(#[trigger] messages[i]),
    ensures
        messages.filter(keeps) == Seq::<MessageModel>::empty(),
    decreases messages.len(),
{
    reveal(Seq::filter);
    if messages.len() > 0 {
        lemma_filter_drops_all(messages.drop_last(), keeps);
    }
}

pub proof fn lemma_filter_keeps_all(
    messages: Seq<MessageModel>,
    keeps: spec_fn(MessageModel) -> bool,
)
    requires
        forall|i: int| 0 <= i < messages.len() ==> keeps(#[trigger] messages[i]),
    ensures
        messages.filter(keeps) == messages,
    decreases messages.len(),
{
    reveal(Seq::filter);
    if messages.len() > 0 {
        lemma_filter_keeps_all(messages.drop_last(), keeps);
        assert(messages.drop_last().push(messages.last()) =~= messages);
    }
}

} // verus!
