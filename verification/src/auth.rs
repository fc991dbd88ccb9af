//! How a daemon knows its clients: its mode, the users and their keys, the key
//! that signs grants, and the limit on failed logins.

use vstd::prelude::*;

use crate::grant::{ed25519_public, GrantSigner, GrantVerifier};
use crate::password::{worth_checking, PasswordAuth};
use crate::rate_limit::{LimiterView, RateLimitPolicy, RateLimiter};
use crate::ssh::SshVerifier;
use crate::text::same;

verus! {

/// How clients log in.
pub enum AuthMode {
    /// Anybody is let in. Only for a daemon that is bound to loopback.
    DevInsecure,
    /// Users log in with the SSH keys that are authorized for them.
    SshKeys { users: Vec<(String, SshVerifier)> },
}

/// The keys of the first user of a name.
pub open spec fn keys_of(users: Seq<(String, SshVerifier)>, name: Seq<char>) -> Option<
    Seq<Seq<u8>>,
>
    decreases users.len(),
{
    if users.len() == 0 {
        None
    } else if users[0].0@ == name {
        Some(users[0].1.keys())
    } else {
        keys_of(users.drop_first(), name)
    }
}

/// A limiter with the usual policy that remembers no failed login.
pub open spec fn no_failures() -> LimiterView {
    LimiterView {
        policy: RateLimitPolicy {
            max_failures: 5,
            window: 60_000,
            lockout: 60_000,
            max_tracked: 100_000,
        },
        sources: Map::empty(),
        last_sweep: None,
    }
}

/// Everything that a daemon decides logins by.
pub struct AuthState {
    /// How clients log in.
    pub mode: AuthMode,
    /// Who may log in with a password; `None` for nobody.
    pub password: Option<PasswordAuth>,
    /// Signs the grants that this daemon later accepts.
    pub grant_signer: GrantSigner,
    /// Verifies them.
    pub grant_verifier: GrantVerifier,
    /// What this daemon's grants are bound to.
    pub audience: String,
    /// Remembers failed logins.
    pub rate_limiter: RateLimiter,
}

impl AuthState {
    /// Whether the verifier is the signer's, and the limiter is sound.
    pub open spec fn wf(&self) -> bool {
        &&& self.grant_signer.secret().len() == 32
        &&& self.grant_verifier.public() == ed25519_public(self.grant_signer.secret())
        &&& self.rate_limiter.wf()
    }

    /// The keys that are authorized for a user.
    pub open spec fn ssh_keys(&self, username: Seq<char>) -> Option<Seq<Seq<u8>>> {
        match self.mode {
            AuthMode::SshKeys { users } => keys_of(users@, username),
            AuthMode::DevInsecure => None,
        }
    }

    /// Whether a password login is worth checking.
    pub open spec fn password_worth_checking(&self, username: &str, password: &str) -> bool {
        self.password matches Some(p) && worth_checking(p.users@, username, password)
    }

    /// The state of a daemon that starts: with the key that is given, or a
    /// fresh one, and nothing remembered.
    pub fn new(
        mode: AuthMode,
        password: Option<PasswordAuth>,
        audience: String,
        grant_key: Option<[u8; 32]>,
    ) -> (r: AuthState)
        ensures
            r.wf(),
            r.mode == mode,
            r.password == password,
            r.audience == audience,
            grant_key matches Some(seed) ==> r.grant_signer.secret() == seed@,
            r.rate_limiter@ == no_failures(),
    {
        let grant_signer: GrantSigner = match grant_key {
            Some(seed) => GrantSigner::from_bytes(&seed),
            None => GrantSigner::generate(),
        };
        let grant_verifier: GrantVerifier = grant_signer.grant_verifier();
        AuthState {
            mode,
            password,
            grant_signer,
            grant_verifier,
            audience,
            rate_limiter: RateLimiter::new(RateLimitPolicy::default()),
        }
    }

    /// The verifier of a user's keys.
    pub fn ssh_verifier(&self, username: &str) -> (r: Option<&SshVerifier>)
        ensures
            r is Some <==> self.ssh_keys(username@) is Some,
            r matches Some(v) ==> self.ssh_keys(username@) == Some(v.keys()),
    {
        match &self.mode {
            AuthMode::DevInsecure => None,
            AuthMode::SshKeys { users } => {
                let mut i: usize = 0;
                assert(users@.skip(0) =~= users@);
                while i < users.len()
                    invariant
                        i <= users.len(),
                        self.ssh_keys(username@) == keys_of(users@.skip(i as int), username@),
                    decreases users.len() - i,
                {
                    assert(users@.skip(i as int).drop_first() =~= users@.skip(i + 1));
                    if same(users[i].0.as_str(), username) {
                        return Some(&users[i].1);
                    }
                    i = i + 1;
                }
                None
            },
        }
    }

    /// Whether a password login is worth checking: no check is spent on a user
    /// that may not use one, nor on texts that are empty or too long.
    pub fn admits_password(&self, username: &str, password: &str) -> (r: bool)
        ensures
            r == self.password_worth_checking(username, password),
    {
        match &self.password {
            Some(p) => p.admits(username, password),
            None => false,
        }
    }
}

} // verus!
