//! Messages and what they carry.
use crate::conversation_id::{MessageId, NodeId};
use crate::timestamp::TimeStamp;
use vstd::prelude::*;

verus! {

/// A position. A coordinate is kept as the bits of a 64-bit float number of degrees.
#[derive(Debug, Clone, Copy, PartialEq, Eq, Structural)]
pub struct MCPosition {
    pub latitude: u64,
    pub longitude: u64,
}

/// What a node tells about its user.
#[derive(Debug, Clone, PartialEq, Eq)]
pub struct MCUser {
    pub id: String,
    pub long_name: String,
    pub short_name: String,
    pub hw_model_str: String,
    pub hw_model: i32,
    pub is_licensed: bool,
    pub role_str: String,
    pub role: i32,
    pub public_key: Vec<u8>,
    pub is_unmessagable: bool,
}

/// The content of a message.
#[derive(Debug, Clone, PartialEq, Eq)]
pub enum MCContent {
    AlertMessage(String),
    NewTextMessage(String),
    /// A text in reply to a message.
    TextMessageReply(MessageId, String),
    /// An emoji in reply to a message.
    EmojiReply(MessageId, String),
    PositionMessage(MCPosition),
    UserMessage(MCUser),
}

/// One emoji, and the nodes that replied with it.
#[derive(Debug, PartialEq, Eq)]
struct EmojiSenders {
    emoji: String,
    senders: Vec<NodeId>,
}

/// The emoji replies to a message: for each emoji the nodes that sent it, in the order in which
/// their replies came.
#[derive(Debug, PartialEq, Eq)]
pub struct EmojiReplies {
    replies: Vec<EmojiSenders>,
}

impl EmojiReplies {
    /// No emoji is listed twice.
    #[verifier::type_invariant]
    spec fn distinct(self) -> bool {
        forall|i: int, j: int|
            0 <= i < j < self.replies.len() ==> self.replies[i].emoji@ != self.replies[j].emoji@
    }

    spec fn lists(self, emoji: Seq<char>) -> bool {
        exists|i: int| 0 <= i < self.replies.len() && self.replies[i].emoji@ == emoji
    }

    spec fn position(self, emoji: Seq<char>) -> int {
        choose|i: int| 0 <= i < self.replies.len() && self.replies[i].emoji@ == emoji
    }
}

impl View for EmojiReplies {
    type V = Map<Seq<char>, Seq<NodeId>>;

    closed spec fn view(&self) -> Map<Seq<char>, Seq<NodeId>> {
        Map::new(
            |emoji: Seq<char>| self.lists(emoji),
            |emoji: Seq<char>| self.replies[self.position(emoji)].senders@,
        )
    }
}

/// The replies with one more reply among them.
pub open spec fn with_reply(
    replies: Map<Seq<char>, Seq<NodeId>>,
    emoji: Seq<char>,
    sender: NodeId,
) -> Map<Seq<char>, Seq<NodeId>> {
    if replies.contains_key(emoji) {
        replies.insert(emoji, replies[emoji].push(sender))
    } else {
        replies.insert(emoji, seq![sender])
    }
}

impl EmojiReplies {
    pub fn new() -> (replies: EmojiReplies)
        ensures
            replies@ == Map::<Seq<char>, Seq<NodeId>>::empty(),
    {
        let replies = EmojiReplies { replies: Vec::new() };
        assert(replies@ =~= Map::<Seq<char>, Seq<NodeId>>::empty());
        replies
    }

    /// Where the emoji is listed.
    fn find(&self, emoji: &String) -> (found: Option<usize>)
        ensures
            match found {
                Some(i) => i < self.replies.len() && self.replies[i as int].emoji@ == emoji@,
                None => !self.lists(emoji@),
            },
    {
        let mut i: usize = 0;
        while i < self.replies.len()
            invariant
                i <= self.replies.len(),
                forall|j: int| 0 <= j < i ==> self.replies[j].emoji@ != emoji@,
            decreases self.replies.len() - i,
        {
            if self.replies[i].emoji == *emoji {
                return Some(i);
            }
            i += 1;
        }
        None
    }

    /// Whether somebody replied with the emoji.
    pub fn contains_key(&self, emoji: &str) -> (contains: bool)
        ensures
            contains == self@.contains_key(emoji@),
    {
        self.get(emoji).is_some()
    }

    /// The nodes that replied with the emoji.
    pub fn get(&self, emoji: &str) -> (senders: Option<&Vec<NodeId>>)
        ensures
            senders is Some <==> self@.contains_key(emoji@),
            senders matches Some(senders) ==> senders@ == self@[emoji@],
    {
        proof {
            use_type_invariant(self);
        }
        match self.find(&emoji.to_owned()) {
            Some(i) => Some(&self.replies[i].senders),
            None => None,
        }
    }

    /// Adds a reply.
    pub fn add(&mut self, emoji: String, sender: NodeId)
        ensures
            final(self)@ == with_reply(old(self)@, emoji@, sender),
    {
        proof {
            use_type_invariant(&*self);
        }
        let ghost before = *self;
        let ghost key = emoji@;
        let found = self.find(&emoji);
        let mut replies: Vec<EmojiSenders> = Vec::new();
        std::mem::swap(&mut replies, &mut self.replies);
        match found {
            Some(i) => {
                replies[i].senders.push(sender);
                self.replies = replies;
                proof {
                    assert(before.lists(key));
                    assert forall|other: Seq<char>| self.lists(other) == before.lists(other) by {
                        if before.lists(other) {
                            assert(self.replies[before.position(other)].emoji@ == other);
                        }
                        if self.lists(other) {
                            assert(before.replies[self.position(other)].emoji@ == other);
                        }
                    }
                    assert(self@ =~= with_reply(before@, key, sender));
                }
            },
            None => {
                let mut senders: Vec<NodeId> = Vec::new();
                senders.push(sender);
                replies.push(EmojiSenders { emoji, senders });
                self.replies = replies;
                proof {
                    let last = before.replies.len() as int;
                    assert(self.replies[last].emoji@ == key);
                    assert forall|other: Seq<char>|
                        self.lists(other) == (before.lists(other) || other == key) by {
                        if before.lists(other) {
                            assert(self.replies[before.position(other)].emoji@ == other);
                        }
                        if self.lists(other) && other != key {
                            assert(before.replies[self.position(other)].emoji@ == other);
                        }
                    }
                    assert(senders@ =~= seq![sender]);
                    assert(self@ =~= with_reply(before@, key, sender));
                }
            },
        }
    }
}

impl Clone for EmojiReplies {
    fn clone(&self) -> (copy: EmojiReplies)
        ensures
            copy@ == self@,
    {
        proof {
            use_type_invariant(self);
        }
        let mut replies: Vec<EmojiSenders> = Vec::new();
        let mut i: usize = 0;
        while i < self.replies.len()
            invariant
                i <= self.replies.len(),
                replies.len() == i,
                forall|j: int|
                    0 <= j < i ==> replies[j].emoji@ == self.replies[j].emoji@
                        && replies[j].senders@ == self.replies[j].senders@,
            decreases self.replies.len() - i,
        {
            let emoji = self.replies[i].emoji.clone();
            let senders = self.replies[i].senders.clone();
            assert(senders@ =~= self.replies[i as int].senders@);
            replies.push(EmojiSenders { emoji, senders });
            i += 1;
        }
        let copy = EmojiReplies { replies };
        proof {
            assert forall|emoji: Seq<char>| copy.lists(emoji) == self.lists(emoji) by {
                if self.lists(emoji) {
                    assert(copy.replies[self.position(emoji)].emoji@ == emoji);
                }
                if copy.lists(emoji) {
                    assert(self.replies[copy.position(emoji)].emoji@ == emoji);
                }
            }
            assert(copy@ =~= self@);
        }
        copy
    }
}

/// A message of a conversation.
#[derive(Debug, Clone, PartialEq, Eq)]
pub struct MCMessage {
    message_id: MessageId,
    from: NodeId,
    message: MCContent,
    timestamp: TimeStamp,
    seen: bool,
    acked: bool,
    emojis: EmojiReplies,
}

/// All there is to a message.
#[verifier::ext_equal]
pub struct MessageModel {
    pub id: MessageId,
    pub from: NodeId,
    pub content: MCContent,
    pub time: TimeStamp,
    pub seen: bool,
    pub acked: bool,
    pub emojis: Map<Seq<char>, Seq<NodeId>>,
}

impl View for MCMessage {
    type V = MessageModel;

    closed spec fn view(&self) -> MessageModel {
        MessageModel {
            id: self.message_id,
            from: self.from,
            content: self.message,
            time: self.timestamp,
            seen: self.seen,
            acked: self.acked,
            emojis: self.emojis@,
        }
    }
}

impl MCMessage {
    /// A message that nobody has seen, acknowledged or replied to yet.
    pub fn new(
        message_id: MessageId,
        from: NodeId,
        message: MCContent,
        timestamp: TimeStamp,
    ) -> (new: MCMessage)
        ensures
            new@ == (MessageModel {
                id: message_id,
                from,
                content: message,
                time: timestamp,
                seen: false,
                acked: false,
                emojis: Map::empty(),
            }),
    {
        MCMessage {
            message_id,
            from,
            message,
            timestamp,
            seen: false,
            acked: false,
            emojis: EmojiReplies::new(),
        }
    }

    pub fn message_id(&self) -> (id: MessageId)
        ensures
            id == self@.id,
    {
        self.message_id
    }

    pub fn from(&self) -> (from: NodeId)
        ensures
            from == self@.from,
    {
        self.from
    }

    pub fn message(&self) -> (content: &MCContent)
        ensures
            *content == self@.content,
    {
        &self.message
    }

    pub fn time(&self) -> (time: TimeStamp)
        ensures
            time == self@.time,
    {
        self.timestamp
    }

    pub fn seen(&self) -> (seen: bool)
        ensures
            seen == self@.seen,
    {
        self.seen
    }

    pub fn acked(&self) -> (acked: bool)
        ensures
            acked == self@.acked,
    {
        self.acked
    }

    pub fn emojis(&self) -> (emojis: &EmojiReplies)
        ensures
            emojis@ == self@.emojis,
    {
        &self.emojis
    }

    /// The receipt of the message was acknowledged.
    pub fn ack(&mut self)
        ensures
            final(self)@ == (MessageModel { acked: true, ..old(self)@ }),
    {
        self.acked = true;
    }

    /// The message was shown.
    pub fn mark_seen(&mut self)
        ensures
            final(self)@ == (MessageModel { seen: true, ..old(self)@ }),
    {
        self.seen = true;
    }

    /// A node replied to the message with an emoji.
    pub fn add_emoji(&mut self, emoji: String, sender: NodeId)
        ensures
            final(self)@ == (MessageModel {
                emojis: with_reply(old(self)@.emojis, emoji@, sender),
                ..old(self)@
            }),
    {
        self.emojis.add(emoji, sender);
    }

    /// Compares two messages by their time.
    pub fn sort_by_timestamp(
        _left_id: &u64,
        left: &MCMessage,
        _right_id: &u64,
        right: &MCMessage,
    ) -> (order: core::cmp::Ordering)
        ensures
            order is Less <==> left@.time.0 < right@.time.0,
            order is Equal <==> left@.time.0 == right@.time.0,
            order is Greater <==> left@.time.0 > right@.time.0,
    {
        if left.timestamp.0 < right.timestamp.0 {
            core::cmp::Ordering::Less
        } else if left.timestamp.0 == right.timestamp.0 {
            core::cmp::Ordering::Equal
        } else {
            core::cmp::Ordering::Greater
        }
    }

    /// Whether the message was sent before a point in time.
    pub fn is_older_than(&self, oldest: u128) -> (older: bool)
        ensures
            older == (self@.time.0 < oldest),
    {
        u128::from(self.time()) < oldest
    }
}

} // verus!
