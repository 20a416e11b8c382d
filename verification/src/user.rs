//! Users and credentials: the stored account, its public projection, the
//! login schema, salted password hashing and salt generation.

use vstd::prelude::*;

use rand::distr::SampleString;
use sha2::Digest;

use crate::text::upper_hex_of;
use vstd::string::StringExecFns;
use vstd::string::StringSliceAdditionalSpecFns;

verus! {

/// How much a user may do.
#[derive(Clone, Copy, Debug, PartialEq, Eq, Structural)]
pub enum AuthLevel {
    User,
    Admin,
}

impl AuthLevel {
    /// The numeric code an auth level is stored under.
    pub open spec fn as_int(self) -> int {
        match self {
            AuthLevel::User => 0,
            AuthLevel::Admin => 1,
        }
    }

    /// Decodes a stored numeric code; unknown codes are rejected by the
    /// caller, so they are excluded here.
    pub fn from_i64(value: i64) -> (r: Self)
        requires
            0 <= value <= 1,
        ensures
            r.as_int() == value as int,
    {
        if value == 0 {
            AuthLevel::User
        } else {
            AuthLevel::Admin
        }
    }

    /// Encodes the level as its stored numeric code.
    pub fn to_i64(self) -> (r: i64)
        ensures
            r as int == self.as_int(),
    {
        match self {
            AuthLevel::User => 0,
            AuthLevel::Admin => 1,
        }
    }
}

/// One stored account.
pub struct User {
    pub id: String,
    pub username: String,
    pub password: String,
    pub auth_level: AuthLevel,
    pub salt: String,
}

impl User {
    /// The account's identifier.
    pub fn get_id(&self) -> (r: String)
        ensures
            r@ == self.id@,
    {
        self.id.clone()
    }

    /// Assembles an account record.
    pub fn new(
        id: String,
        username: String,
        password: String,
        auth_level: AuthLevel,
        salt: String,
    ) -> (r: Self)
        ensures
            r.id@ == id@,
            r.username@ == username@,
            r.password@ == password@,
            r.auth_level == auth_level,
            r.salt@ == salt@,
    {
        User { id, username, password, auth_level, salt }
    }
}

/// The projection of an account that leaves this server.
pub struct ReturnUser {
    pub id: String,
    pub username: String,
}

impl ReturnUser {
    /// The public projection of an account: identifier and username only.
    pub fn from_user(user: User) -> (r: Self)
        ensures
            r.id@ == user.id@,
            r.username@ == user.username@,
    {
        ReturnUser { id: user.id, username: user.username }
    }
}

/// What a client sends to log in or sign up.
pub struct LoginUserSchema {
    pub username: String,
    pub password: String,
}

/// The SHA-256 digest of a byte sequence; 32 bytes that depend on the input
/// alone.
pub uninterp spec fn sha256_of(data: Seq<u8>) -> Seq<u8>;

/// Relies on sha2's `Sha256`: the digest is a function of the input bytes
/// alone and is 32 bytes long.
#[verifier::external_body]
fn sha256_digest(data: &str) -> (r: Vec<u8>)
    ensures
        r@ == sha256_of(data.spec_bytes()),
        r@.len() == 32,
{
    let mut hasher = sha2::Sha256::new();
    hasher.update(data.as_bytes());
    hasher.finalize().to_vec()
}

/// Salts and hashes a password: the salt is appended to the password, the
/// result SHA-256-hashed and rendered as uppercase hex.
pub fn hash_password(password: String, salt: &str) -> (r: String)
    ensures
        r@ == upper_hex_of(
            sha256_of(vstd::utf8::encode_utf8(password@ + salt@)),
        ),
{
    let mut salted = password;
    salted.append(salt);
    let digest = sha256_digest(salted.as_str());
    crate::text::to_upper_hex(&digest)
}

impl User {
    /// Whether a submitted password is this account's: it is salted with the
    /// account's salt, hashed, and compared against the stored hash.
    pub fn verify_password(&self, password: String) -> (r: bool)
        ensures
            r == (upper_hex_of(sha256_of(vstd::utf8::encode_utf8(password@ + self.salt@)))
                == self.password@),
    {
        let hashed = hash_password(password, self.salt.as_str());
        hashed.eq(&self.password)
    }

    /// Whether a requester may delete the target account: their own, or any
    /// account when they are an admin.
    pub fn deletion_allowed(target: &User, requester: &User) -> (r: bool)
        ensures
            r == (target.id@ == requester.id@ || requester.auth_level == AuthLevel::Admin),
    {
        target.id.eq(&requester.id) || match requester.auth_level {
            AuthLevel::Admin => true,
            AuthLevel::User => false,
        }
    }
}

/// How many characters a generated salt has.
pub const SALT_LENGTH: usize = 12;

/// Relies on rand's `Alphanumeric` distribution: exactly `len` characters,
/// each a single random ASCII letter or digit.
#[verifier::external_body]
fn random_alphanumeric(len: usize) -> (r: String)
    ensures
        r@.len() == len as nat,
{
    rand::distr::Alphanumeric.sample_string(&mut rand::rng(), len)
}

/// A fresh random alphanumeric salt of the fixed length.
pub fn generate_salt() -> (r: String)
    ensures
        r@.len() == SALT_LENGTH as nat,
{
    random_alphanumeric(SALT_LENGTH)
}

} // verus!
