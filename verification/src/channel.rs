//! Chat channels: the stored record, its creation schema, and the channel
//! kind. The chat core only reads channels; they are created and their
//! subscriber sets edited through the store operations.

use vstd::prelude::*;

verus! {

/// The kind of a chat channel.
#[derive(Clone, Copy, Debug, PartialEq, Eq, Structural)]
pub enum ChannelType {
    DirectMessage,
    Group,
    Server,
}

impl ChannelType {
    /// The numeric code a channel kind is stored under.
    pub open spec fn as_int(self) -> int {
        match self {
            ChannelType::DirectMessage => 0,
            ChannelType::Group => 1,
            ChannelType::Server => 2,
        }
    }

    /// Decodes a stored numeric code. Codes outside the known range are
    /// rejected by the caller, so they are excluded here.
    pub fn from_i64(value: i64) -> (r: Self)
        requires
            0 <= value <= 2,
        ensures
            r.as_int() == value as int,
    {
        match value {
            0 => ChannelType::DirectMessage,
            1 => ChannelType::Group,
            _ => ChannelType::Server,
        }
    }

    /// Encodes the kind as its stored numeric code.
    pub fn to_i64(self) -> (r: i64)
        ensures
            r as int == self.as_int(),
    {
        match self {
            ChannelType::DirectMessage => 0,
            ChannelType::Group => 1,
            ChannelType::Server => 2,
        }
    }
}

/// What a client sends to subscribe to or leave a channel.
pub struct ChannelSubscribeSchema {
    pub channel_id: String,
}

/// What a client sends to create a channel.
pub struct CreateChannelSchema {
    pub name: Option<String>,
    pub channel_type: i64,
    pub slug: String,
}

/// One chat channel.
#[derive(Debug)]
pub struct ChatChannel {
    pub id: String,
    pub slug: String,
    pub channel_type: ChannelType,
    pub name: Option<String>,
    /// Identifiers of pinned messages.
    pub pinned_messages: Vec<String>,
    /// Identifiers of the subscribed users; order-irrelevant set, kept
    /// duplicate-free.
    pub subscribers: Vec<String>,
    pub owner_id: String,
    pub created_at: i64,
}

/// Ghost model of a chat channel.
#[verifier::ext_equal]
pub ghost struct ChannelView {
    pub id: Seq<char>,
    pub slug: Seq<char>,
    pub channel_type: ChannelType,
    pub name: Option<Seq<char>>,
    pub pinned_messages: Seq<Seq<char>>,
    pub subscribers: Seq<Seq<char>>,
    pub owner_id: Seq<char>,
    pub created_at: int,
}

impl View for ChatChannel {
    type V = ChannelView;

    open spec fn view(&self) -> ChannelView {
        ChannelView {
            id: self.id@,
            slug: self.slug@,
            channel_type: self.channel_type,
            name: match self.name {
                Some(ref s) => Some(s@),
                None => None,
            },
            pinned_messages: self.pinned_messages.deep_view(),
            subscribers: self.subscribers.deep_view(),
            owner_id: self.owner_id@,
            created_at: self.created_at as int,
        }
    }
}

/// No user id occurs twice in the sequence.
pub open spec fn distinct_ids(ids: Seq<Seq<char>>) -> bool {
    forall|i: int, j: int| 0 <= i < j < ids.len() ==> ids[i] != ids[j]
}

/// A copy of a vector of identifiers with the same model.
pub(crate) fn duplicate_string_vec(v: &Vec<String>) -> (r: Vec<String>)
    ensures
        r.deep_view() =~= v.deep_view(),
{
    let mut out: Vec<String> = Vec::new();
    let mut i: usize = 0;
    while i < v.len()
        invariant
            i <= v.len(),
            out@.len() == i,
            forall|k: int| 0 <= k < i ==> (#[trigger] out@[k])@ == v@[k]@,
        decreases v.len() - i,
    {
        out.push(v[i].clone());
        i = i + 1;
    }
    out
}

impl ChatChannel {
    /// The subscriber set is duplicate-free.
    pub open spec fn wf(&self) -> bool {
        distinct_ids(self@.subscribers)
    }

    /// Whether the given user is subscribed to this channel.
    pub fn is_subscriber(&self, user_id: &String) -> (r: bool)
        ensures
            r == self@.subscribers.contains(user_id@),
    {
        let n = self.subscribers.len();
        let mut i: usize = 0;
        while i < n
            invariant
                i <= n,
                n == self.subscribers.len(),
                forall|k: int| 0 <= k < i ==> self@.subscribers[k] != user_id@,
            decreases n - i,
        {
            if self.subscribers[i].eq(user_id) {
                proof {
                    assert(self@.subscribers[i as int] == user_id@);
                }
                return true;
            }
            proof {
                assert(self@.subscribers[i as int] == self.subscribers@[i as int]@);
            }
            i = i + 1;
        }
        false
    }

    /// A copy with the same model.
    pub fn duplicate(&self) -> (r: Self)
        ensures
            r@ =~~= self@,
    {
        let r = ChatChannel {
            id: self.id.clone(),
            slug: self.slug.clone(),
            channel_type: self.channel_type,
            name: crate::message::duplicate_opt_string(&self.name),
            pinned_messages: duplicate_string_vec(&self.pinned_messages),
            subscribers: duplicate_string_vec(&self.subscribers),
            owner_id: self.owner_id.clone(),
            created_at: self.created_at,
        };
        proof {
            assert(r@ =~~= self@);
        }
        r
    }
}

} // verus!
