//! User accounts: the user store's handle, how a password is checked
//! against its stored bcrypt hash, and how the store's failures are
//! reported. The database statements are the server's part.

use vstd::prelude::*;
use vstd::string::*;

use crate::error::{Error, Result};
use crate::text::{concat, contains_str, has_substring};

verus! {

/// What `bcrypt::verify` answers for a password and a stored hash: whether
/// they match, or the text of the error.
pub uninterp spec fn bcrypt_check(password: Seq<char>, hash: Seq<char>) -> core::result::Result<
    bool,
    Seq<char>,
>;

/// A stored bcrypt hash has the shape `bcrypt::verify` accepts at all: 60
/// ASCII characters.
pub open spec fn hash_shape_ok(hash: Seq<char>) -> bool {
    hash.len() == 60 && forall|i: int| 0 <= i < hash.len() ==> (hash[i] as u32) < 128
}

/// Checks `password` against the bcrypt hash `hash` with `bcrypt::verify`;
/// an error comes back as its text. A hash that is not 60 ASCII characters
/// is refused with an error.
#[verifier::external_body]
fn bcrypt_verify(password: &str, hash: &str) -> (r: core::result::Result<bool, String>)
    ensures
        match r {
            Ok(b) => bcrypt_check(password@, hash@) == core::result::Result::<bool, Seq<char>>::Ok(
                b,
            ),
            Err(e) => bcrypt_check(password@, hash@) == core::result::Result::<
                bool,
                Seq<char>,
            >::Err(e@),
        },
        !hash_shape_ok(hash@) ==> r is Err,
{
    bcrypt::verify(password, hash).map_err(|e| e.to_string())
}

/// bcrypt's default cost (`bcrypt::DEFAULT_COST`), with which passwords are
/// hashed.
pub const HASH_COST: u32 = 12;

/// Hashes `password` with `bcrypt::hash` at cost `cost`, under a random
/// salt; an error comes back as its text. A hash it returns is the 60
/// ASCII characters of the bcrypt format, and `bcrypt::verify` accepts the
/// password against it: verifying parses the cost and salt back out of the
/// hash and recomputes the same digest. Which hash comes back depends on
/// the salt, which is random, and whether the call succeeds is not stated.
#[verifier::external_body]
fn bcrypt_hash(password: &str, cost: u32) -> (r: core::result::Result<String, String>)
    requires
        4 <= cost <= 31,
    ensures
        match r {
            Ok(h) => hash_shape_ok(h@) && bcrypt_check(password@, h@) == core::result::Result::<
                bool,
                Seq<char>,
            >::Ok(true),
            Err(_) => true,
        },
{
    bcrypt::hash(password, cost).map_err(|e| e.to_string())
}

/// The hash under which `password` is stored: a bcrypt hash at the default
/// cost that `password_verdict` accepts the password against. A failure of
/// the hashing is an internal error.
pub fn hash_password(password: &str) -> (r: Result<String>)
    ensures
        match r {
            Ok(h) => hash_shape_ok(h@) && bcrypt_check(password@, h@) == core::result::Result::<
                bool,
                Seq<char>,
            >::Ok(true),
            Err(e) => e matches Error::Internal(m) && "Failed to hash password: "@.is_prefix_of(
                m@,
            ),
        },
{
    match bcrypt_hash(password, HASH_COST) {
        Ok(h) => Ok(h),
        Err(t) => {
            let m = concat("Failed to hash password: ", t.as_str());
            proof {
                let p = "Failed to hash password: "@;
                assert(m@.subrange(0, p.len() as int) =~= p);
            }
            Err(Error::Internal(m))
        },
    }
}

/// Whether `password` is the password of a user whose stored hash is
/// `stored`: a user that does not exist has none.
pub fn password_verdict(stored: Option<&str>, password: &str) -> (r: Result<bool>)
    ensures
        match stored {
            None => r == Ok::<bool, Error>(false),
            Some(h) => match bcrypt_check(password@, h@) {
                Ok(b) => r == Ok::<bool, Error>(b),
                Err(t) => r matches Err(Error::Internal(m)) && m@ == "Failed to verify password: "@
                    + t,
            },
        },
        stored matches Some(h) && !hash_shape_ok(h@) ==> r is Err,
{
    match stored {
        None => Ok(false),
        Some(h) => match bcrypt_verify(password, h) {
            Ok(b) => Ok(b),
            Err(t) => Err(Error::Internal(concat("Failed to verify password: ", t.as_str()))),
        },
    }
}

/// The error for a failed insertion of `username`: a uniqueness violation
/// means the user exists; anything else is a database error with the
/// database's message.
pub fn insert_user_error(message: &str, username: &str) -> (e: Error)
    ensures
        has_substring(message@, "UNIQUE constraint failed"@) ==> (e matches Error::AlreadyExists(m)
            && m@ == "User already exists: "@ + username@),
        !has_substring(message@, "UNIQUE constraint failed"@) ==> (e matches Error::Database(m)
            && m@ == message@),
{
    if contains_str(message, "UNIQUE constraint failed") {
        Error::AlreadyExists(concat("User already exists: ", username))
    } else {
        Error::Database(message.to_owned())
    }
}

/// The outcome of an update or deletion of `username` that changed
/// `affected` rows: none changed means there is no such user.
pub fn rows_changed(affected: usize, username: &str) -> (r: Result<()>)
    ensures
        affected == 0 ==> (r matches Err(Error::NotFound(m)) && m@ == "User not found: "@
            + username@),
        affected > 0 ==> r is Ok,
{
    if affected == 0 {
        Err(Error::NotFound(concat("User not found: ", username)))
    } else {
        Ok(())
    }
}

/// SQLite-based user store: the path of its database. The statements it
/// runs are the server's part.
pub struct SQLiteUserStore {
    db_path: String,
}

impl SQLiteUserStore {
    /// A handle on the database at `db_path`.
    pub fn with_path(db_path: &str) -> (s: Self)
        ensures
            s.path_view() == db_path@,
    {
        SQLiteUserStore { db_path: db_path.to_owned() }
    }

    pub closed spec fn path_view(&self) -> Seq<char> {
        self.db_path@
    }

    /// The path of the database.
    pub fn db_path(&self) -> (r: &str)
        ensures
            r@ == self.path_view(),
    {
        self.db_path.as_str()
    }
}

} // verus!
