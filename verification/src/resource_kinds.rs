//! The kinds of stored resources, used to phrase storage errors.

use vstd::prelude::*;
use vstd::string::StringExecFns;

verus! {

/// Every kind of record the store keeps.
#[derive(Clone, Copy, Debug, PartialEq, Eq, Structural)]
pub enum ResourceKind {
    Reminder,
    ReminderCategory,
    User,
    ConnectionsGame,
    Log,
    ChatChannel,
    ChatMessage,
}

/// The human-readable name of each resource kind.
pub open spec fn kind_label(kind: ResourceKind) -> Seq<char> {
    match kind {
        ResourceKind::Reminder => "Reminder"@,
        ResourceKind::ReminderCategory => "Reminder Category"@,
        ResourceKind::User => "User"@,
        ResourceKind::ConnectionsGame => "Connections Game"@,
        ResourceKind::Log => "Log"@,
        ResourceKind::ChatChannel => "Chat Channel"@,
        ResourceKind::ChatMessage => "Chat Message"@,
    }
}

impl ResourceKind {
    /// The human-readable name, as shown inside error messages.
    pub fn label(&self) -> (r: String)
        ensures
            r@ == kind_label(*self),
    {
        match self {
            ResourceKind::Reminder => String::from_str("Reminder"),
            ResourceKind::ReminderCategory => String::from_str("Reminder Category"),
            ResourceKind::User => String::from_str("User"),
            ResourceKind::ConnectionsGame => String::from_str("Connections Game"),
            ResourceKind::Log => String::from_str("Log"),
            ResourceKind::ChatChannel => String::from_str("Chat Channel"),
            ResourceKind::ChatMessage => String::from_str("Chat Message"),
        }
    }
}

} // verus!
