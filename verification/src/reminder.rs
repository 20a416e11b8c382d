//! Reminders and their categories: the stored records, the creation and
//! update schemas, and the priority scale.

use vstd::prelude::*;

verus! {

/// How urgent a reminder is.
#[derive(Clone, Copy, Debug, PartialEq, Eq, Structural)]
pub enum Priority {
    Low,
    Medium,
    High,
    VeryHigh,
}

impl Priority {
    /// The numeric code a priority is stored under.
    pub open spec fn as_int(self) -> int {
        match self {
            Priority::Low => 0,
            Priority::Medium => 1,
            Priority::High => 2,
            Priority::VeryHigh => 3,
        }
    }

    /// Decodes a stored numeric code; unknown codes are rejected by the
    /// caller, so they are excluded here.
    pub fn from_i64(value: i64) -> (r: Self)
        requires
            0 <= value <= 3,
        ensures
            r.as_int() == value as int,
    {
        match value {
            0 => Priority::Low,
            1 => Priority::Medium,
            2 => Priority::High,
            _ => Priority::VeryHigh,
        }
    }

    /// Encodes the priority as its stored numeric code.
    pub fn to_i64(self) -> (r: i64)
        ensures
            r as int == self.as_int(),
    {
        match self {
            Priority::Low => 0,
            Priority::Medium => 1,
            Priority::High => 2,
            Priority::VeryHigh => 3,
        }
    }
}

/// What a client sends to create a category.
pub struct CategorySchema {
    pub slug: String,
    pub name: String,
}

/// One stored reminder category.
pub struct Category {
    pub id: String,
    pub slug: String,
    pub name: String,
    pub user_id: String,
}

/// What a client sends to create a reminder.
pub struct ReminderSchema {
    pub name: String,
    pub description: String,
    pub categories: Vec<String>,
    pub priority: Priority,
}

/// What a client sends to change a reminder; absent fields stay unchanged.
pub struct ReminderUpdateSchema {
    pub name: Option<String>,
    pub description: Option<String>,
    pub categories: Option<Vec<String>>,
    pub priority: Option<Priority>,
}

impl ReminderUpdateSchema {
    /// Whether the update changes anything at all. An update that carries no
    /// field is a no-op the store refuses rather than runs.
    pub fn has_updates(&self) -> (r: bool)
        ensures
            r == (self.name is Some || self.description is Some || self.categories is Some
                || self.priority is Some),
    {
        self.name.is_some() || self.description.is_some() || self.categories.is_some()
            || self.priority.is_some()
    }
}

/// One stored reminder.
pub struct Reminder {
    pub id: String,
    pub name: String,
    pub description: String,
    pub categories: Vec<String>,
    pub priority: Priority,
    pub user_id: String,
    pub date_time: i64,
}

} // verus!
