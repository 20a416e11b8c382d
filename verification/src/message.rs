//! Chat messages: the stored record, the creation schema carried by the
//! wire protocol, and reactions.

use vstd::prelude::*;

verus! {

/// One emoji usable in a reaction.
#[derive(Debug)]
pub struct EmojiDetails {
    pub id: String,
    pub name: String,
}

/// Ghost model of an emoji.
#[verifier::ext_equal]
pub ghost struct EmojiView {
    pub id: Seq<char>,
    pub name: Seq<char>,
}

impl View for EmojiDetails {
    type V = EmojiView;

    open spec fn view(&self) -> EmojiView {
        EmojiView { id: self.id@, name: self.name@ }
    }
}

/// An aggregated reaction on a message: one emoji and how often it was used.
#[derive(Debug)]
pub struct Reactions {
    pub count: i64,
    pub emoji: EmojiDetails,
}

/// Ghost model of a reaction.
#[verifier::ext_equal]
pub ghost struct ReactionView {
    pub count: int,
    pub emoji: EmojiView,
}

impl View for Reactions {
    type V = ReactionView;

    open spec fn view(&self) -> ReactionView {
        ReactionView { count: self.count as int, emoji: self.emoji@ }
    }
}

/// The models of a sequence of reactions.
pub open spec fn reactions_view(rs: Seq<Reactions>) -> Seq<ReactionView> {
    rs.map_values(|r: Reactions| r@)
}

/// What a client sends to create a message.
pub struct CreateMessageSchema {
    pub channel_id: String,
    pub contents: String,
    pub reply_to: Option<String>,
}

/// Ghost model of a message-creation request.
#[verifier::ext_equal]
pub ghost struct CreateMessageView {
    pub channel_id: Seq<char>,
    pub contents: Seq<char>,
    pub reply_to: Option<Seq<char>>,
}

impl View for CreateMessageSchema {
    type V = CreateMessageView;

    open spec fn view(&self) -> CreateMessageView {
        CreateMessageView {
            channel_id: self.channel_id@,
            contents: self.contents@,
            reply_to: match self.reply_to {
                Some(ref s) => Some(s@),
                None => None,
            },
        }
    }
}

/// One stored chat message, immutable once fanned out.
#[derive(Debug)]
pub struct ChatMessage {
    pub id: String,
    pub channel_id: String,
    pub author_id: String,
    pub created_at: i64,
    pub updated_at: i64,
    pub contents: String,
    pub reply_to: Option<String>,
    pub reactions: Vec<Reactions>,
    pub pinned: bool,
}

/// Ghost model of a stored chat message.
#[verifier::ext_equal]
pub ghost struct MessageView {
    pub id: Seq<char>,
    pub channel_id: Seq<char>,
    pub author_id: Seq<char>,
    pub created_at: int,
    pub updated_at: int,
    pub contents: Seq<char>,
    pub reply_to: Option<Seq<char>>,
    pub reactions: Seq<ReactionView>,
    pub pinned: bool,
}

impl View for ChatMessage {
    type V = MessageView;

    open spec fn view(&self) -> MessageView {
        MessageView {
            id: self.id@,
            channel_id: self.channel_id@,
            author_id: self.author_id@,
            created_at: self.created_at as int,
            updated_at: self.updated_at as int,
            contents: self.contents@,
            reply_to: match self.reply_to {
                Some(ref s) => Some(s@),
                None => None,
            },
            reactions: reactions_view(self.reactions@),
            pinned: self.pinned,
        }
    }
}

impl EmojiDetails {
    /// A copy with the same model.
    pub fn duplicate(&self) -> (r: Self)
        ensures
            r@ == self@,
    {
        EmojiDetails { id: self.id.clone(), name: self.name.clone() }
    }
}

impl Reactions {
    /// A copy with the same model.
    pub fn duplicate(&self) -> (r: Self)
        ensures
            r@ == self@,
    {
        Reactions { count: self.count, emoji: self.emoji.duplicate() }
    }
}

/// A copy of an optional string with the same model.
pub(crate) fn duplicate_opt_string(o: &Option<String>) -> (r: Option<String>)
    ensures
        match (o, &r) {
            (Some(a), Some(b)) => a@ == b@,
            (None, None) => true,
            _ => false,
        },
{
    match o {
        Some(s) => Some(s.clone()),
        None => None,
    }
}

impl ChatMessage {
    /// A copy with the same model.
    pub fn duplicate(&self) -> (r: Self)
        ensures
            r@ == self@,
    {
        let mut reactions: Vec<Reactions> = Vec::new();
        let mut i: usize = 0;
        while i < self.reactions.len()
            invariant
                i <= self.reactions.len(),
                reactions@.len() == i,
                forall|k: int| 0 <= k < i ==> (#[trigger] reactions@[k])@ == self.reactions@[k]@,
            decreases self.reactions.len() - i,
        {
            reactions.push(self.reactions[i].duplicate());
            i = i + 1;
        }
        proof {
            assert(reactions_view(reactions@) =~= reactions_view(self.reactions@));
        }
        let r = ChatMessage {
            id: self.id.clone(),
            channel_id: self.channel_id.clone(),
            author_id: self.author_id.clone(),
            created_at: self.created_at,
            updated_at: self.updated_at,
            contents: self.contents.clone(),
            reply_to: duplicate_opt_string(&self.reply_to),
            reactions,
            pinned: self.pinned,
        };
        proof {
            assert(r@ =~= self@);
        }
        r
    }

    /// Builds the record that is stored for a creation request: the author and
    /// identifier are filled in, creation and update time coincide, no
    /// reactions exist yet and the message starts unpinned.
    pub fn from_schema(
        schema: CreateMessageSchema,
        author_id: &String,
        id: String,
        now: i64,
    ) -> (r: Self)
        ensures
            r@.id == id@,
            r@.channel_id == schema@.channel_id,
            r@.author_id == author_id@,
            r@.created_at == now as int,
            r@.updated_at == now as int,
            r@.contents == schema@.contents,
            r@.reply_to == schema@.reply_to,
            r@.reactions == Seq::<ReactionView>::empty(),
            r@.pinned == false,
    {
        let r = ChatMessage {
            id,
            channel_id: schema.channel_id,
            author_id: author_id.clone(),
            created_at: now,
            updated_at: now,
            contents: schema.contents,
            reply_to: schema.reply_to,
            reactions: Vec::new(),
            pinned: false,
        };
        proof {
            assert(r@.reactions =~= Seq::<ReactionView>::empty());
        }
        r
    }
}

} // verus!
