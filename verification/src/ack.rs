//! Acknowledgement payloads returned to the requester of a chat action.
//!
//! Status codes follow the HTTP convention shared with the REST layer:
//! 2xx success, 4xx client error, 5xx server error.

use vstd::prelude::*;

verus! {

/// Acknowledgement sent back to the connection that issued a chat request.
pub struct WebsocketAck {
    pub status_code: i64,
    pub msg: String,
}

/// Ghost model of an acknowledgement.
#[verifier::ext_equal]
pub ghost struct AckView {
    pub status_code: int,
    pub msg: Seq<char>,
}

impl View for WebsocketAck {
    type V = AckView;

    open spec fn view(&self) -> AckView {
        AckView { status_code: self.status_code as int, msg: self.msg@ }
    }
}

/// A status code is a client error exactly when it lies in the 4xx range.
pub open spec fn is_error_code(status_code: int) -> bool {
    400 <= status_code < 500
}

impl WebsocketAck {
    /// A blank acknowledgement, to be filled in by the dispatch logic.
    pub fn new() -> (r: Self)
        ensures
            r@.status_code == 0,
            r@.msg == Seq::<char>::empty(),
    {
        Self { status_code: 0, msg: String::new() }
    }

    /// True exactly for the client-error (4xx) range.
    pub fn is_error(&self) -> (r: bool)
        ensures
            r == is_error_code(self@.status_code),
    {
        self.status_code >= 400 && self.status_code < 500
    }
}

} // verus!
