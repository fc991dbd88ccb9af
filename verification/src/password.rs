//! Login with a local password: bounds on what is submitted, and who checks it.

use vstd::prelude::*;
use vstd::string::*;

use crate::text::{among, contains};

verus! {

/// The longest password that is checked.
pub const MAX_PASSWORD_BYTES: usize = 1024;

/// The longest username that is checked.
pub const MAX_USERNAME_BYTES: usize = 128;

/// Checks a local password. An implementation refuses on any error, and may
/// block.
pub trait PasswordVerifier {
    fn verify(&self, user: &str, password: &str) -> bool;
}

/// Password login for some users.
#[derive(Debug, Clone, PartialEq, Eq)]
pub struct PasswordAuth {
    /// The users that may log in with a password.
    pub users: Vec<String>,
}

/// Whether a login is worth checking: its user may use a password, and neither
/// text is empty or too long.
pub open spec fn worth_checking(users: Seq<String>, username: &str, password: &str) -> bool {
    &&& among(users, username@)
    &&& 0 < username.spec_bytes().len() <= MAX_USERNAME_BYTES
    &&& 0 < password.spec_bytes().len() <= MAX_PASSWORD_BYTES
}

impl PasswordAuth {
    /// Whether a login is worth checking.
    pub fn admits(&self, username: &str, password: &str) -> (r: bool)
        ensures
            r == worth_checking(self.users@, username, password),
    {
        let name: usize = username.as_bytes().len();
        let secret: usize = password.as_bytes().len();
        contains(&self.users, username) && 0 < name && name <= MAX_USERNAME_BYTES && 0 < secret
            && secret <= MAX_PASSWORD_BYTES
    }

    /// Whether a login is accepted: it is worth checking, and the check accepts
    /// it. Nothing else reaches the check.
    pub fn accepts<V: PasswordVerifier>(&self, backend: &V, username: &str, password: &str) -> (r:
        bool)
        ensures
            r ==> worth_checking(self.users@, username, password),
            worth_checking(self.users@, username, password) ==> call_ensures(
                V::verify,
                (backend, username, password),
                r,
            ),
    {
        if self.admits(username, password) {
            backend.verify(username, password)
        } else {
            false
        }
    }
}

} // verus!
