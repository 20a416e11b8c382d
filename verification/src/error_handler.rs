//! The error taxonomy shared by the store and the REST layer, and how each
//! error is presented: an HTTP-style status code and a message.

use vstd::prelude::*;
use vstd::string::StringExecFns;

use crate::resource_kinds::{kind_label, ResourceKind};

verus! {

/// Everything that can go wrong against the store.
#[derive(Debug)]
pub enum DbError {
    AlreadyExists(ResourceKind, String),
    NotFound(ResourceKind, String),
    RelationshipViolation(ResourceKind, String),
    EmptyDbExpression(ResourceKind, String),
    BadId,
    AuthFailure,
    UnhandledException(String),
}

/// Ghost model of a storage error.
#[verifier::ext_equal]
pub ghost enum DbErrorView {
    AlreadyExists(ResourceKind, Seq<char>),
    NotFound(ResourceKind, Seq<char>),
    RelationshipViolation(ResourceKind, Seq<char>),
    EmptyDbExpression(ResourceKind, Seq<char>),
    BadId,
    AuthFailure,
    UnhandledException(Seq<char>),
}

impl View for DbError {
    type V = DbErrorView;

    open spec fn view(&self) -> DbErrorView {
        match self {
            DbError::AlreadyExists(k, s) => DbErrorView::AlreadyExists(*k, s@),
            DbError::NotFound(k, s) => DbErrorView::NotFound(*k, s@),
            DbError::RelationshipViolation(k, s) => DbErrorView::RelationshipViolation(*k, s@),
            DbError::EmptyDbExpression(k, s) => DbErrorView::EmptyDbExpression(*k, s@),
            DbError::BadId => DbErrorView::BadId,
            DbError::AuthFailure => DbErrorView::AuthFailure,
            DbError::UnhandledException(s) => DbErrorView::UnhandledException(s@),
        }
    }
}

/// The status code each storage error surfaces as.
pub open spec fn db_error_status(e: DbErrorView) -> int {
    match e {
        DbErrorView::AlreadyExists(_, _) => 400,
        DbErrorView::NotFound(_, _) => 404,
        DbErrorView::RelationshipViolation(_, _) => 400,
        DbErrorView::EmptyDbExpression(_, _) => 400,
        DbErrorView::BadId => 404,
        DbErrorView::AuthFailure => 401,
        DbErrorView::UnhandledException(_) => 500,
    }
}

/// The message each storage error surfaces with.
pub open spec fn db_error_message(e: DbErrorView) -> Seq<char> {
    match e {
        DbErrorView::AlreadyExists(k, ident) => "A "@ + kind_label(k) + " with identifier "@
            + ident + " already exists"@,
        DbErrorView::NotFound(k, ident) => kind_label(k) + " with identifier "@ + ident
            + " not found"@,
        DbErrorView::RelationshipViolation(k, ident) =>
        "The request violates a relationship constraint on "@ + kind_label(k)
            + " with identifier "@ + ident,
        DbErrorView::EmptyDbExpression(k, operation) => "Received no data while "@ + operation
            + " "@ + kind_label(k) + ", resulting in a no-op"@,
        DbErrorView::BadId => "The provided ID was not valid"@,
        DbErrorView::AuthFailure => "Auth failure while reading database"@,
        DbErrorView::UnhandledException(while_doing) =>
        "Unhandled exception when making a database request: "@ + while_doing,
    }
}

impl DbError {
    /// The status code this error surfaces as.
    pub fn status_code(&self) -> (r: u16)
        ensures
            r as int == db_error_status(self@),
    {
        match self {
            DbError::AlreadyExists(_, _) => 400,
            DbError::NotFound(_, _) => 404,
            DbError::RelationshipViolation(_, _) => 400,
            DbError::EmptyDbExpression(_, _) => 400,
            DbError::BadId => 404,
            DbError::AuthFailure => 401,
            DbError::UnhandledException(_) => 500,
        }
    }

    /// The message this error surfaces with.
    pub fn message(&self) -> (r: String)
        ensures
            r@ == db_error_message(self@),
    {
        match self {
            DbError::AlreadyExists(k, ident) => {
                let mut s = String::from_str("A ");
                s.append(k.label().as_str());
                s.append(" with identifier ");
                s.append(ident.as_str());
                s.append(" already exists");
                s
            },
            DbError::NotFound(k, ident) => {
                let mut s = k.label();
                s.append(" with identifier ");
                s.append(ident.as_str());
                s.append(" not found");
                s
            },
            DbError::RelationshipViolation(k, ident) => {
                let mut s = String::from_str(
                    "The request violates a relationship constraint on ",
                );
                s.append(k.label().as_str());
                s.append(" with identifier ");
                s.append(ident.as_str());
                s
            },
            DbError::EmptyDbExpression(k, operation) => {
                let mut s = String::from_str("Received no data while ");
                s.append(operation.as_str());
                s.append(" ");
                s.append(k.label().as_str());
                s.append(", resulting in a no-op");
                s
            },
            DbError::BadId => String::from_str("The provided ID was not valid"),
            DbError::AuthFailure => String::from_str("Auth failure while reading database"),
            DbError::UnhandledException(while_doing) => {
                let mut s = String::from_str(
                    "Unhandled exception when making a database request: ",
                );
                s.append(while_doing.as_str());
                s
            },
        }
    }
}

impl ServerError {
    /// How a failed account lookup during authentication is reported: a
    /// missing account is an authentication failure naming it, anything else
    /// an internal failure while authenticating.
    pub fn from_db_auth_failure(e: DbError) -> (r: ServerError)
        ensures
            r@ == (match e@ {
                DbErrorView::NotFound(k, ident) => ServerErrorView::FailedAuthentication(
                    "Could not find "@ + kind_label(k) + " with identifier "@ + ident,
                ),
                _ => ServerErrorView::InternalFailure("Authenticating"@),
            }),
    {
        match e {
            DbError::NotFound(k, ident) => {
                let mut s = String::from_str("Could not find ");
                s.append(k.label().as_str());
                s.append(" with identifier ");
                s.append(ident.as_str());
                ServerError::FailedAuthentication(s)
            },
            _ => ServerError::InternalFailure(String::from_str("Authenticating")),
        }
    }
}

/// Failures above the store: authentication and everything else.
pub enum ServerError {
    FailedAuthentication(String),
    InternalFailure(String),
}

/// Ghost model of a server error.
#[verifier::ext_equal]
pub ghost enum ServerErrorView {
    FailedAuthentication(Seq<char>),
    InternalFailure(Seq<char>),
}

impl View for ServerError {
    type V = ServerErrorView;

    open spec fn view(&self) -> ServerErrorView {
        match self {
            ServerError::FailedAuthentication(s) => ServerErrorView::FailedAuthentication(s@),
            ServerError::InternalFailure(s) => ServerErrorView::InternalFailure(s@),
        }
    }
}

/// The status code each server error surfaces as.
pub open spec fn server_error_status(e: ServerErrorView) -> int {
    match e {
        ServerErrorView::FailedAuthentication(_) => 401,
        ServerErrorView::InternalFailure(_) => 500,
    }
}

/// The message each server error surfaces with.
pub open spec fn server_error_message(e: ServerErrorView) -> Seq<char> {
    match e {
        ServerErrorView::FailedAuthentication(reason) => "Auth failure: "@ + reason,
        ServerErrorView::InternalFailure(while_doing) => "Internal server error while: "@
            + while_doing,
    }
}

impl ServerError {
    /// The status code this error surfaces as.
    pub fn status_code(&self) -> (r: u16)
        ensures
            r as int == server_error_status(self@),
    {
        match self {
            ServerError::FailedAuthentication(_) => 401,
            ServerError::InternalFailure(_) => 500,
        }
    }

    /// The message this error surfaces with.
    pub fn message(&self) -> (r: String)
        ensures
            r@ == server_error_message(self@),
    {
        match self {
            ServerError::FailedAuthentication(reason) => {
                let mut s = String::from_str("Auth failure: ");
                s.append(reason.as_str());
                s
            },
            ServerError::InternalFailure(while_doing) => {
                let mut s = String::from_str("Internal server error while: ");
                s.append(while_doing.as_str());
                s
            },
        }
    }
}

} // verus!
