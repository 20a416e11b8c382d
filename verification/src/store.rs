//! An in-memory store with the exact contract the chat core expects of its
//! storage collaborator: channel lookup by id, channel creation with the
//! owner auto-subscribed, subscriber-set edits with update-filter semantics,
//! and message persistence with fresh identifiers and monotonically
//! nondecreasing creation times.
//!
//! Message identifiers are allocated from a counter and creation times from
//! a clock that only moves forward, so the stored message order realizes the
//! (creation time, id) key that pagination sorts by.

use vstd::prelude::*;

use crate::channel::{distinct_ids, ChannelView, ChatChannel, CreateChannelSchema};
use crate::error_handler::{DbError, DbErrorView};
use crate::message::{ChatMessage, CreateMessageSchema, MessageView, ReactionView};
use crate::resource_kinds::ResourceKind;
use crate::text::{decimal_rep, u64_to_string};

verus! {

/// The store: channels, messages in creation order, the id counter and the
/// clock.
pub struct ChatStore {
    channels: Vec<ChatChannel>,
    messages: Vec<ChatMessage>,
    next_id: u64,
    clock: i64,
}

/// Ghost model of the store.
#[verifier::ext_equal]
pub ghost struct StoreView {
    pub channels: Seq<ChannelView>,
    pub messages: Seq<MessageView>,
    pub next_id: int,
    pub clock: int,
}

impl View for ChatStore {
    type V = StoreView;

    closed spec fn view(&self) -> StoreView {
        StoreView {
            channels: self.channels@.map_values(|c: ChatChannel| c@),
            messages: self.messages@.map_values(|m: ChatMessage| m@),
            next_id: self.next_id as int,
            clock: self.clock as int,
        }
    }
}

/// What every store model satisfies: subscriber sets are duplicate-free and
/// messages stand in creation order, never ahead of the clock.
pub open spec fn store_view_wf(v: StoreView) -> bool {
    &&& forall|i: int|
        0 <= i < v.channels.len() ==> distinct_ids(#[trigger] v.channels[i].subscribers)
    &&& forall|i: int, j: int|
        0 <= i < j < v.messages.len() ==> v.messages[i].created_at <= v.messages[j].created_at
    &&& forall|i: int| 0 <= i < v.messages.len() ==> #[trigger] v.messages[i].created_at <= v.clock
    &&& 0 <= v.next_id
}

/// The position of the first channel with the given id, if any.
pub open spec fn find_channel(channels: Seq<ChannelView>, id: Seq<char>) -> Option<int>
    decreases channels.len(),
{
    if channels.len() == 0 {
        None
    } else if channels[0].id == id {
        Some(0int)
    } else {
        match find_channel(channels.drop_first(), id) {
            Some(i) => Some(i + 1),
            None => None,
        }
    }
}

/// What `find_channel` finds: the first matching position, or nothing when
/// no channel has the id.
pub proof fn lemma_find_channel_spec(channels: Seq<ChannelView>, id: Seq<char>)
    ensures
        match find_channel(channels, id) {
            Some(i) => 0 <= i < channels.len() && channels[i].id == id && forall|k: int|
                0 <= k < i ==> (#[trigger] channels[k]).id != id,
            None => forall|k: int| 0 <= k < channels.len() ==> (#[trigger] channels[k]).id != id,
        },
    decreases channels.len(),
{
    if channels.len() > 0 && channels[0].id != id {
        lemma_find_channel_spec(channels.drop_first(), id);
        let rest = channels.drop_first();
        match find_channel(rest, id) {
            Some(i) => {
                assert(channels[i + 1] == rest[i]);
                assert forall|k: int| 0 <= k < i + 1 implies (#[trigger] channels[k]).id
                    != id by {
                    if k > 0 {
                        assert(channels[k] == rest[k - 1]);
                    }
                }
            },
            None => {
                assert forall|k: int| 0 <= k < channels.len() implies (#[trigger] channels[k]).id
                    != id by {
                    if k > 0 {
                        assert(channels[k] == rest[k - 1]);
                    }
                }
            },
        }
    }
}

/// The converse: a first match at `i` pins `find_channel` down.
pub proof fn lemma_find_channel_at(channels: Seq<ChannelView>, id: Seq<char>, i: int)
    requires
        0 <= i < channels.len(),
        channels[i].id == id,
        forall|k: int| 0 <= k < i ==> (#[trigger] channels[k]).id != id,
    ensures
        find_channel(channels, id) == Some(i),
    decreases i,
{
    if i > 0 {
        lemma_find_channel_at(channels.drop_first(), id, i - 1);
    }
}

/// And: no match anywhere means nothing is found.
pub proof fn lemma_find_channel_none(channels: Seq<ChannelView>, id: Seq<char>)
    requires
        forall|k: int| 0 <= k < channels.len() ==> (#[trigger] channels[k]).id != id,
    ensures
        find_channel(channels, id) is None,
    decreases channels.len(),
{
    if channels.len() > 0 {
        lemma_find_channel_none(channels.drop_first(), id);
    }
}

/// Whether some channel already pairs this slug with this owner.
pub open spec fn owned_slug_exists(
    channels: Seq<ChannelView>,
    slug: Seq<char>,
    owner_id: Seq<char>,
) -> bool {
    exists|i: int|
        0 <= i < channels.len() && (#[trigger] channels[i]).slug == slug && channels[i].owner_id
            == owner_id
}

/// The channel record built for a creation request.
pub open spec fn built_channel(
    schema: crate::channel::CreateChannelSchema,
    owner_id: Seq<char>,
    id: Seq<char>,
    now: int,
) -> ChannelView {
    ChannelView {
        id: id,
        slug: schema.slug@,
        channel_type: spec_channel_type(schema.channel_type as int),
        name: match schema.name {
            Some(ref s) => Some(s@),
            None => None,
        },
        pinned_messages: Seq::empty(),
        subscribers: seq![owner_id],
        owner_id: owner_id,
        created_at: now,
    }
}

/// The channel kind stored for a numeric code.
pub open spec fn spec_channel_type(code: int) -> crate::channel::ChannelType {
    if code == 0 {
        crate::channel::ChannelType::DirectMessage
    } else if code == 1 {
        crate::channel::ChannelType::Group
    } else {
        crate::channel::ChannelType::Server
    }
}

/// The message record built for a creation request.
pub open spec fn built_message(
    schema: crate::message::CreateMessageView,
    author_id: Seq<char>,
    id: Seq<char>,
    now: int,
) -> MessageView {
    MessageView {
        id: id,
        channel_id: schema.channel_id,
        author_id: author_id,
        created_at: now,
        updated_at: now,
        contents: schema.contents,
        reply_to: schema.reply_to,
        reactions: Seq::<ReactionView>::empty(),
        pinned: false,
    }
}

/// The position of the first message with the given id, if any.
pub open spec fn find_message(messages: Seq<MessageView>, id: Seq<char>) -> Option<int>
    decreases messages.len(),
{
    if messages.len() == 0 {
        None
    } else if messages[0].id == id {
        Some(0int)
    } else {
        match find_message(messages.drop_first(), id) {
            Some(i) => Some(i + 1),
            None => None,
        }
    }
}

/// What `find_message` finds: the first matching position, or nothing when
/// no message has the id.
pub proof fn lemma_find_message_spec(messages: Seq<MessageView>, id: Seq<char>)
    ensures
        match find_message(messages, id) {
            Some(i) => 0 <= i < messages.len() && messages[i].id == id && forall|k: int|
                0 <= k < i ==> (#[trigger] messages[k]).id != id,
            None => forall|k: int| 0 <= k < messages.len() ==> (#[trigger] messages[k]).id != id,
        },
    decreases messages.len(),
{
    if messages.len() > 0 && messages[0].id != id {
        lemma_find_message_spec(messages.drop_first(), id);
        let rest = messages.drop_first();
        match find_message(rest, id) {
            Some(i) => {
                assert(messages[i + 1] == rest[i]);
                assert forall|k: int| 0 <= k < i + 1 implies (#[trigger] messages[k]).id
                    != id by {
                    if k > 0 {
                        assert(messages[k] == rest[k - 1]);
                    }
                }
            },
            None => {
                assert forall|k: int| 0 <= k < messages.len() implies (#[trigger] messages[k]).id
                    != id by {
                    if k > 0 {
                        assert(messages[k] == rest[k - 1]);
                    }
                }
            },
        }
    }
}

/// A first match at `i` pins `find_message` down.
pub proof fn lemma_find_message_at(messages: Seq<MessageView>, id: Seq<char>, i: int)
    requires
        0 <= i < messages.len(),
        messages[i].id == id,
        forall|k: int| 0 <= k < i ==> (#[trigger] messages[k]).id != id,
    ensures
        find_message(messages, id) == Some(i),
    decreases i,
{
    if i > 0 {
        lemma_find_message_at(messages.drop_first(), id, i - 1);
    }
}

/// No match anywhere means nothing is found.
pub proof fn lemma_find_message_none(messages: Seq<MessageView>, id: Seq<char>)
    requires
        forall|k: int| 0 <= k < messages.len() ==> (#[trigger] messages[k]).id != id,
    ensures
        find_message(messages, id) is None,
    decreases messages.len(),
{
    if messages.len() > 0 {
        lemma_find_message_none(messages.drop_first(), id);
    }
}

/// The page answered for a history request: walking backwards from position
/// `pos`, the most recent messages of the channel, newest first, at most
/// `count` of them. Stored order realizes the (creation time, id) key, so
/// this is exactly "strictly older than the cursor, descending, bounded".
pub open spec fn message_page(
    messages: Seq<MessageView>,
    channel_id: Seq<char>,
    pos: int,
    count: int,
) -> Seq<MessageView>
    decreases (if pos >= 0 { pos } else { 0 }),
{
    if pos <= 0 || count <= 0 || pos > messages.len() {
        Seq::empty()
    } else if messages[pos - 1].channel_id == channel_id {
        seq![messages[pos - 1]] + message_page(messages, channel_id, pos - 1, count - 1)
    } else {
        message_page(messages, channel_id, pos - 1, count)
    }
}

/// Where a history request starts: just before the cursor message when it
/// exists, at the very end (the newest message) when it does not.
pub open spec fn cursor_pos(messages: Seq<MessageView>, cursor: Seq<char>) -> int {
    match find_message(messages, cursor) {
        Some(i) => i,
        None => messages.len() as int,
    }
}

/// The position of the first occurrence of an id in a list of ids.
fn find_id_index(v: &Vec<String>, target: &String) -> (r: Option<usize>)
    ensures
        match r {
            Some(j) => j < v@.len() && v@[j as int]@ == target@,
            None => forall|k: int| 0 <= k < v@.len() ==> (#[trigger] v@[k])@ != target@,
        },
{
    let n = v.len();
    let mut j: usize = 0;
    while j < n
        invariant
            j <= n,
            n == v@.len(),
            forall|k: int| 0 <= k < j ==> (#[trigger] v@[k])@ != target@,
        decreases n - j,
    {
        if v[j].eq(target) {
            return Some(j);
        }
        j = j + 1;
    }
    None
}

impl ChatStore {
    /// The store's model is well-formed.
    pub open spec fn wf(&self) -> bool {
        store_view_wf(self@)
    }

    /// An empty store whose clock starts at the given time.
    pub fn new(now: i64) -> (r: Self)
        requires
            now >= 0,
        ensures
            r@.channels == Seq::<ChannelView>::empty(),
            r@.messages == Seq::<MessageView>::empty(),
            r@.next_id == 1,
            r@.clock == now as int,
            r.wf(),
    {
        let r = ChatStore { channels: Vec::new(), messages: Vec::new(), next_id: 1, clock: now };
        proof {
            assert(r@.channels =~= Seq::<ChannelView>::empty());
            assert(r@.messages =~= Seq::<MessageView>::empty());
        }
        r
    }

    /// Moves the clock forward; time never runs backwards.
    pub fn set_time(&mut self, now: i64)
        requires
            old(self).wf(),
            now as int >= old(self)@.clock,
        ensures
            final(self).wf(),
            final(self)@ == (StoreView { clock: now as int, ..old(self)@ }),
    {
        self.clock = now;
        proof {
            assert(self@ =~~= StoreView { clock: now as int, ..old(self)@ });
        }
    }

    /// Index of the first channel with this id.
    fn find_channel_index(&self, id: &String) -> (r: Option<usize>)
        ensures
            match r {
                Some(i) => i < self.channels@.len() && find_channel(self@.channels, id@) == Some(
                    i as int,
                ),
                None => find_channel(self@.channels, id@) is None,
            },
    {
        let n = self.channels.len();
        let mut i: usize = 0;
        while i < n
            invariant
                i <= n,
                n == self.channels@.len(),
                forall|k: int| 0 <= k < i ==> (#[trigger] self@.channels[k]).id != id@,
            decreases n - i,
        {
            if self.channels[i].id.eq(id) {
                proof {
                    assert(self@.channels[i as int].id == id@);
                    lemma_find_channel_at(self@.channels, id@, i as int);
                }
                return Some(i);
            }
            proof {
                assert(self@.channels[i as int].id == self.channels@[i as int].id@);
            }
            i = i + 1;
        }
        proof {
            lemma_find_channel_none(self@.channels, id@);
        }
        None
    }

    /// Fetches a channel by id; a copy of the stored record, or `NotFound`.
    pub fn get_chat_channel_by_id(&self, id: &String) -> (r: Result<ChatChannel, DbError>)
        requires
            self.wf(),
        ensures
            match r {
                Ok(c) => {
                    &&& find_channel(self@.channels, id@) is Some
                    &&& c@ == self@.channels[find_channel(self@.channels, id@)->Some_0]
                    &&& distinct_ids(c@.subscribers)
                },
                Err(e) => {
                    &&& find_channel(self@.channels, id@) is None
                    &&& e@ == DbErrorView::NotFound(ResourceKind::ChatChannel, id@)
                },
            },
    {
        match self.find_channel_index(id) {
            Some(i) => {
                proof {
                    lemma_find_channel_spec(self@.channels, id@);
                }
                Ok(self.channels[i].duplicate())
            },
            None => Err(DbError::NotFound(ResourceKind::ChatChannel, id.clone())),
        }
    }

    /// Creates a channel: the slug must be new for this owner, the owner is
    /// auto-subscribed, a fresh id is allocated and the clock stamps the
    /// record. Returns a copy of what was stored.
    pub fn insert_chat_channel(&mut self, data: &CreateChannelSchema, user_id: String) -> (r:
        Result<ChatChannel, DbError>)
        requires
            old(self).wf(),
            0 <= data.channel_type <= 2,
            old(self)@.next_id < u64::MAX,
        ensures
            final(self).wf(),
            final(self)@.messages == old(self)@.messages,
            final(self)@.clock == old(self)@.clock,
            match r {
                Ok(c) => {
                    &&& !owned_slug_exists(old(self)@.channels, data.slug@, user_id@)
                    &&& c@ == built_channel(
                        *data,
                        user_id@,
                        decimal_rep(old(self)@.next_id as nat),
                        old(self)@.clock,
                    )
                    &&& final(self)@.channels =~~= old(self)@.channels.push(c@)
                    &&& final(self)@.next_id == old(self)@.next_id + 1
                },
                Err(e) => {
                    &&& owned_slug_exists(old(self)@.channels, data.slug@, user_id@)
                    &&& e@ == DbErrorView::AlreadyExists(ResourceKind::ChatChannel, data.slug@)
                    &&& final(self)@ == old(self)@
                },
            },
    {
        let n = self.channels.len();
        let mut i: usize = 0;
        while i < n
            invariant
                i <= n,
                n == self.channels@.len(),
                self.wf(),
                self@ == old(self)@,
                forall|k: int|
                    0 <= k < i ==> !((#[trigger] self@.channels[k]).slug == data.slug@
                        && self@.channels[k].owner_id == user_id@),
            decreases n - i,
        {
            if self.channels[i].slug.eq(&data.slug) && self.channels[i].owner_id.eq(&user_id) {
                proof {
                    assert(self@.channels[i as int].slug == data.slug@);
                    assert(owned_slug_exists(self@.channels, data.slug@, user_id@));
                }
                return Err(DbError::AlreadyExists(ResourceKind::ChatChannel, data.slug.clone()));
            }
            proof {
                assert(self@.channels[i as int].slug == self.channels@[i as int].slug@);
                assert(self@.channels[i as int].owner_id == self.channels@[i as int].owner_id@);
            }
            i = i + 1;
        }
        let id = u64_to_string(self.next_id);
        let mut subscribers: Vec<String> = Vec::new();
        subscribers.push(user_id.clone());
        let channel = ChatChannel {
            id,
            slug: data.slug.clone(),
            channel_type: crate::channel::ChannelType::from_i64(data.channel_type),
            name: crate::message::duplicate_opt_string(&data.name),
            pinned_messages: Vec::new(),
            subscribers,
            owner_id: user_id,
            created_at: self.clock,
        };
        let copy = channel.duplicate();
        proof {
            assert(channel@ =~~= built_channel(
                *data,
                channel.owner_id@,
                decimal_rep(self@.next_id as nat),
                self@.clock,
            ));
        }
        self.channels.push(channel);
        self.next_id = self.next_id + 1;
        proof {
            assert(self@.channels =~~= old(self)@.channels.push(copy@));
        }
        Ok(copy)
    }

    /// Subscribes a user to a channel. The update filter requires that the
    /// channel exists and that the user is not already in its subscriber set
    /// — in every other case the update matches nothing and the caller sees
    /// `NotFound`. Returns a copy of the updated channel.
    pub fn subscribe(&mut self, channel_id: &String, user_id: &String) -> (r: Result<
        ChatChannel,
        DbError,
    >)
        requires
            old(self).wf(),
        ensures
            final(self).wf(),
            final(self)@.messages == old(self)@.messages,
            final(self)@.next_id == old(self)@.next_id,
            final(self)@.clock == old(self)@.clock,
            match r {
                Ok(c) => {
                    &&& find_channel(old(self)@.channels, channel_id@) is Some
                    &&& {
                        let i = find_channel(old(self)@.channels, channel_id@)->Some_0;
                        let updated = ChannelView {
                            subscribers: old(self)@.channels[i].subscribers.push(user_id@),
                            ..old(self)@.channels[i]
                        };
                        &&& !old(self)@.channels[i].subscribers.contains(user_id@)
                        &&& c@ == updated
                        &&& final(self)@.channels =~~= old(self)@.channels.update(i, updated)
                    }
                },
                Err(e) => {
                    &&& e@ == DbErrorView::NotFound(ResourceKind::ChatChannel, channel_id@)
                    &&& final(self)@ == old(self)@
                    &&& match find_channel(old(self)@.channels, channel_id@) {
                        Some(i) => old(self)@.channels[i].subscribers.contains(user_id@),
                        None => true,
                    }
                },
            },
    {
        let found = self.find_channel_index(channel_id);
        match found {
            None => Err(DbError::NotFound(ResourceKind::ChatChannel, channel_id.clone())),
            Some(i) => {
                if self.channels[i].is_subscriber(user_id) {
                    return Err(DbError::NotFound(ResourceKind::ChatChannel, channel_id.clone()));
                }
                let mut c = self.channels.remove(i);
                c.subscribers.push(user_id.clone());
                let copy = c.duplicate();
                self.channels.insert(i, c);
                proof {
                    assert(self@.channels =~~= old(self)@.channels.update(i as int, copy@));
                    assert(copy@.subscribers =~= old(self)@.channels[i as int].subscribers.push(
                        user_id@,
                    ));
                    assert(copy@ =~~= (ChannelView {
                        subscribers: old(self)@.channels[i as int].subscribers.push(user_id@),
                        ..old(self)@.channels[i as int]
                    }));
                }
                Ok(copy)
            },
        }
    }

    /// Unsubscribes a user from a channel. The update filter requires that
    /// the channel exists, that the user is in its subscriber set, and that
    /// the user does not own the channel — in every other case the caller
    /// sees `NotFound`. Returns a copy of the updated channel.
    pub fn unsubscribe(&mut self, channel_id: &String, user_id: &String) -> (r: Result<
        ChatChannel,
        DbError,
    >)
        requires
            old(self).wf(),
        ensures
            final(self).wf(),
            final(self)@.messages == old(self)@.messages,
            final(self)@.next_id == old(self)@.next_id,
            final(self)@.clock == old(self)@.clock,
            match r {
                Ok(c) => {
                    &&& find_channel(old(self)@.channels, channel_id@) is Some
                    &&& {
                        let i = find_channel(old(self)@.channels, channel_id@)->Some_0;
                        let before = old(self)@.channels[i];
                        &&& before.subscribers.contains(user_id@)
                        &&& before.owner_id != user_id@
                        &&& exists|j: int|
                            0 <= j < before.subscribers.len() && before.subscribers[j] == user_id@
                                && c@ == (ChannelView {
                                subscribers: before.subscribers.remove(j),
                                ..before
                            })
                        &&& final(self)@.channels =~~= old(self)@.channels.update(i, c@)
                    }
                },
                Err(e) => {
                    &&& e@ == DbErrorView::NotFound(ResourceKind::ChatChannel, channel_id@)
                    &&& final(self)@ == old(self)@
                    &&& match find_channel(old(self)@.channels, channel_id@) {
                        Some(i) => !old(self)@.channels[i].subscribers.contains(user_id@) || old(
                            self,
                        )@.channels[i].owner_id == user_id@,
                        None => true,
                    }
                },
            },
    {
        let found = self.find_channel_index(channel_id);
        match found {
            None => Err(DbError::NotFound(ResourceKind::ChatChannel, channel_id.clone())),
            Some(i) => {
                if !self.channels[i].is_subscriber(user_id) || self.channels[i].owner_id.eq(
                    user_id,
                ) {
                    return Err(DbError::NotFound(ResourceKind::ChatChannel, channel_id.clone()));
                }
                let mut c = self.channels.remove(i);
                let j = match find_id_index(&c.subscribers, user_id) {
                    Some(j) => j,
                    None => {
                        proof {
                            let k = choose|k: int|
                                0 <= k < c@.subscribers.len() && c@.subscribers[k] == user_id@;
                            assert(c.subscribers@[k]@ == user_id@);
                        }
                        return Err(DbError::NotFound(
                            ResourceKind::ChatChannel,
                            channel_id.clone(),
                        ));
                    },
                };
                proof {
                    assert(c@.subscribers[j as int] == user_id@);
                }
                let ghost before = c@;
                let _ = c.subscribers.remove(j);
                let copy = c.duplicate();
                self.channels.insert(i, c);
                proof {
                    assert(copy@.subscribers =~= before.subscribers.remove(j as int));
                    assert(copy@ =~~= (ChannelView {
                        subscribers: before.subscribers.remove(j as int),
                        ..before
                    }));
                    assert(self@.channels =~~= old(self)@.channels.update(i as int, copy@));
                }
                Ok(copy)
            },
        }
    }

    /// Persists a message: the author and a fresh id are filled in, the
    /// clock stamps both timestamps. Returns a copy of what was stored.
    /// This collaborator itself never fails; a caller models a failed
    /// persistence by not calling it.
    pub fn insert_chat_message(&mut self, data: CreateMessageSchema, user_id: &String) -> (r:
        ChatMessage)
        requires
            old(self).wf(),
            old(self)@.next_id < u64::MAX,
        ensures
            final(self).wf(),
            final(self)@.channels == old(self)@.channels,
            final(self)@.clock == old(self)@.clock,
            final(self)@.next_id == old(self)@.next_id + 1,
            r@ == built_message(
                data@,
                user_id@,
                decimal_rep(old(self)@.next_id as nat),
                old(self)@.clock,
            ),
            final(self)@.messages =~~= old(self)@.messages.push(r@),
    {
        let id = u64_to_string(self.next_id);
        let message = ChatMessage::from_schema(data, user_id, id, self.clock);
        let copy = message.duplicate();
        proof {
            assert(message@ =~~= built_message(
                data@,
                user_id@,
                decimal_rep(self@.next_id as nat),
                self@.clock,
            ));
        }
        self.messages.push(message);
        self.next_id = self.next_id + 1;
        proof {
            assert(self@.messages =~~= old(self)@.messages.push(copy@));
        }
        copy
    }

    /// The position of the first message with the given id, if any.
    fn find_message_index(&self, id: &String) -> (r: Option<usize>)
        ensures
            match r {
                Some(i) => i < self@.messages.len() && find_message(self@.messages, id@)
                    == Some(i as int),
                None => find_message(self@.messages, id@) is None,
            },
    {
        let n = self.messages.len();
        let mut i: usize = 0;
        while i < n
            invariant
                i <= n,
                n == self.messages@.len(),
                forall|k: int| 0 <= k < i ==> (#[trigger] self@.messages[k]).id != id@,
            decreases n - i,
        {
            if self.messages[i].id.eq(id) {
                proof {
                    assert(self@.messages[i as int].id == id@);
                    lemma_find_message_at(self@.messages, id@, i as int);
                }
                return Some(i);
            }
            proof {
                assert(self@.messages[i as int].id == self.messages@[i as int].id@);
            }
            i = i + 1;
        }
        proof {
            lemma_find_message_none(self@.messages, id@);
        }
        None
    }

    /// Fetches a message by id; a copy of the stored record, or `NotFound`.
    pub fn get_chat_message_by_id(&self, message_id: &String) -> (r: Result<ChatMessage, DbError>)
        requires
            self.wf(),
        ensures
            match r {
                Ok(m) => exists|i: int|
                    0 <= i < self@.messages.len() && #[trigger] self@.messages[i] == m@
                        && m@.id == message_id@,
                Err(e) => {
                    &&& e@ == DbErrorView::NotFound(ResourceKind::ChatMessage, message_id@)
                    &&& forall|k: int|
                        0 <= k < self@.messages.len() ==> (#[trigger] self@.messages[k]).id
                            != message_id@
                },
            },
    {
        match self.find_message_index(message_id) {
            Some(i) => {
                proof {
                    lemma_find_message_spec(self@.messages, message_id@);
                }
                Ok(self.messages[i].duplicate())
            },
            None => {
                proof {
                    lemma_find_message_spec(self@.messages, message_id@);
                }
                Err(DbError::NotFound(ResourceKind::ChatMessage, message_id.clone()))
            },
        }
    }

    /// Whether a channel passes the listing filter: `my_channels` keeps (or
    /// excludes) channels the user owns, `subscribed` keeps (or excludes)
    /// channels the user is in; an absent option does not filter.
    pub open spec fn channel_matches(
        c: ChannelView,
        user_id: Seq<char>,
        my_channels: Option<bool>,
        subscribed: Option<bool>,
    ) -> bool {
        &&& match my_channels {
            None => true,
            Some(true) => c.owner_id == user_id,
            Some(false) => c.owner_id != user_id,
        }
        &&& match subscribed {
            None => true,
            Some(true) => c.subscribers.contains(user_id),
            Some(false) => !c.subscribers.contains(user_id),
        }
    }

    /// The channels that pass the listing filter, in stored order.
    pub open spec fn filtered_channels(
        channels: Seq<ChannelView>,
        user_id: Seq<char>,
        my_channels: Option<bool>,
        subscribed: Option<bool>,
    ) -> Seq<ChannelView> {
        channels.filter(
            |c: ChannelView| Self::channel_matches(c, user_id, my_channels, subscribed),
        )
    }

    /// Lists the channels that pass the filter, in stored order; copies of
    /// the stored records.
    pub fn list_chat_channels(
        &self,
        user_id: &String,
        my_channels: Option<bool>,
        subscribed: Option<bool>,
    ) -> (r: Vec<ChatChannel>)
        requires
            self.wf(),
        ensures
            r@.map_values(|c: ChatChannel| c@) =~~= Self::filtered_channels(
                self@.channels,
                user_id@,
                my_channels,
                subscribed,
            ),
    {
        let n = self.channels.len();
        let mut out: Vec<ChatChannel> = Vec::new();
        let mut i: usize = 0;
        proof {
            reveal(Seq::filter);
            assert(self@.channels.take(0).len() == 0);
        }
        while i < n
            invariant
                i <= n,
                n == self.channels@.len(),
                out@.map_values(|c: ChatChannel| c@) =~~= Self::filtered_channels(
                    self@.channels.take(i as int),
                    user_id@,
                    my_channels,
                    subscribed,
                ),
            decreases n - i,
        {
            let keep_owner = match my_channels {
                None => true,
                Some(true) => self.channels[i].owner_id.eq(user_id),
                Some(false) => !self.channels[i].owner_id.eq(user_id),
            };
            let keep_member = match subscribed {
                None => true,
                Some(true) => self.channels[i].is_subscriber(user_id),
                Some(false) => !self.channels[i].is_subscriber(user_id),
            };
            proof {
                assert(self@.channels[i as int] == self.channels@[i as int]@);
                assert(self@.channels.take(i + 1).drop_last() =~= self@.channels.take(i as int));
                assert(self@.channels.take(i + 1).last() == self@.channels[i as int]);
                assert((keep_owner && keep_member) == Self::channel_matches(
                    self@.channels[i as int],
                    user_id@,
                    my_channels,
                    subscribed,
                ));
            }
            if keep_owner && keep_member {
                out.push(self.channels[i].duplicate());
            }
            proof {
                reveal(Seq::filter);
                assert(out@.map_values(|c: ChatChannel| c@) =~~= Self::filtered_channels(
                    self@.channels.take(i + 1),
                    user_id@,
                    my_channels,
                    subscribed,
                ));
            }
            i = i + 1;
        }
        proof {
            assert(self@.channels.take(n as int) =~= self@.channels);
        }
        out
    }

    /// How many messages are stored.
    pub fn message_count(&self) -> (r: usize)
        ensures
            r == self@.messages.len(),
    {
        self.messages.len()
    }

    /// How many channels are stored.
    pub fn channel_count(&self) -> (r: usize)
        ensures
            r == self@.channels.len(),
    {
        self.channels.len()
    }

    /// A copy of the stored message at a position (creation order).
    pub fn message_at(&self, i: usize) -> (r: ChatMessage)
        requires
            i < self@.messages.len(),
        ensures
            r@ == self@.messages[i as int],
    {
        self.messages[i].duplicate()
    }

    /// A page of chat history: up to `message_count` messages of the
    /// channel, strictly older than the cursor message, newest first. An
    /// unknown cursor pages from the newest message; a non-positive count
    /// yields an empty page. Copies of the stored records.
    pub fn get_chat_state(&self, request: &crate::packet::RequestMessagesSchema) -> (r: Vec<
        ChatMessage,
    >)
        requires
            self.wf(),
        ensures
            r@.map_values(|m: ChatMessage| m@) =~~= message_page(
                self@.messages,
                request@.channel_id,
                cursor_pos(self@.messages, request@.starting_message),
                request@.message_count,
            ),
    {
        let cutoff: usize = match self.find_message_index(&request.starting_message) {
            Some(i) => i,
            None => self.messages.len(),
        };
        let ghost count0 = request@.message_count;
        let mut out: Vec<ChatMessage> = Vec::new();
        let mut j: usize = cutoff;
        let mut remaining: i64 = request.message_count;
        while j > 0 && remaining > 0
            invariant
                j <= cutoff <= self.messages@.len(),
                remaining <= count0,
                out@.len() == count0 - remaining,
                out@.map_values(|m: ChatMessage| m@) + message_page(
                    self@.messages,
                    request@.channel_id,
                    j as int,
                    remaining as int,
                ) =~~= message_page(self@.messages, request@.channel_id, cutoff as int, count0),
            decreases j,
        {
            j = j - 1;
            if self.messages[j].channel_id.eq(&request.channel_id) {
                proof {
                    assert(self@.messages[j as int].channel_id == request@.channel_id);
                }
                out.push(self.messages[j].duplicate());
                remaining = remaining - 1;
            } else {
                proof {
                    assert(self@.messages[j as int].channel_id == self.messages@[
                        j as int
                    ].channel_id@);
                }
            }
        }
        out
    }
}

} // verus!
