//! Request logs: the stored record and the task payload that creates one,
//! with the URI redaction that keeps credentials out of the log store.

use vstd::prelude::*;
use vstd::string::StringExecFns;

use crate::text::{decimal_rep_i64, i64_to_string, is_prefix_of, str_starts_with};

verus! {

/// One stored request log record.
pub struct Log {
    pub id: String,
    pub method: String,
    pub uri: String,
    pub user_id: String,
    pub date_time: i64,
}

/// What one loggable request turns into before it is written out.
pub struct LogCreationTask {
    pub method: String,
    pub uri: String,
    pub user_id: String,
    pub date_time: i64,
}

/// The query prefix under which the chat socket carries its credential.
pub open spec fn token_uri_prefix() -> Seq<char> {
    "/api/chat/ws?auth_token="@
}

impl LogCreationTask {
    /// Packs up one request's log data.
    pub fn new(method: String, uri: String, user_id: String, date_time: i64) -> (r: Self)
        ensures
            r.method@ == method@,
            r.uri@ == uri@,
            r.user_id@ == user_id@,
            r.date_time == date_time,
    {
        LogCreationTask { method, uri, user_id, date_time }
    }

    /// The URI as it is stored: a URI that carries a credential in its query
    /// string is replaced by a redacted marker, every other URI is kept.
    pub fn redacted_uri(&self) -> (r: String)
        ensures
            is_prefix_of(token_uri_prefix(), self.uri@) ==> r@
                == "/api/chat/ws?auth_token=<redacted>"@,
            !is_prefix_of(token_uri_prefix(), self.uri@) ==> r@ == self.uri@,
    {
        if str_starts_with(self.uri.as_str(), "/api/chat/ws?auth_token=") {
            String::from_str("/api/chat/ws?auth_token=<redacted>")
        } else {
            self.uri.clone()
        }
    }
}

impl LogCreationTask {
    /// One line describing the request, as the console log prints it.
    pub fn summary(&self) -> (r: String)
        ensures
            r@ == decimal_rep_i64(self.date_time as int) + ": "@ + self.method@ + " "@
                + self.uri@ + " from "@ + self.user_id@,
    {
        let mut s = i64_to_string(self.date_time);
        s.append(": ");
        s.append(self.method.as_str());
        s.append(" ");
        s.append(self.uri.as_str());
        s.append(" from ");
        s.append(self.user_id.as_str());
        s
    }
}

impl Log {
    /// Assembles a log record.
    pub fn new(id: String, method: String, uri: String, user_id: String, date_time: i64) -> (r:
        Self)
        ensures
            r.id@ == id@,
            r.method@ == method@,
            r.uri@ == uri@,
            r.user_id@ == user_id@,
            r.date_time == date_time,
    {
        Log { id, method, uri, user_id, date_time }
    }
}

} // verus!
