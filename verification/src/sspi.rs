//! The SSPI-style surface the security provider exposes: credentials,
//! success codes, and the security errors a call can report.

use vstd::prelude::*;

verus! {

/// An account: the name, the secret, and an optional domain.
#[derive(Clone, Debug, PartialEq, Eq)]
pub struct Credentials {
    pub username: String,
    pub password: String,
    pub domain: Option<String>,
}

/// The mathematical shape of a credential set.
pub struct CredentialsSpec {
    pub username: Seq<char>,
    pub password: Seq<char>,
    pub domain: Option<Seq<char>>,
}

impl View for Credentials {
    type V = CredentialsSpec;

    open spec fn view(&self) -> CredentialsSpec {
        CredentialsSpec {
            username: self.username@,
            password: self.password@,
            domain: match &self.domain {
                Some(d) => Some(d@),
                None => None,
            },
        }
    }
}

impl Credentials {
    /// Bundles the three parts of an account.
    pub fn new(username: String, password: String, domain: Option<String>) -> (r: Self)
        ensures
            r.username == username,
            r.password == password,
            r.domain == domain,
    {
        Credentials { username, password, domain }
    }
}

/// What a successful security-context step asks of the caller next.
#[derive(Copy, Clone, Debug, PartialEq, Eq, Structural)]
pub enum SspiOk {
    /// Send the emitted token and call again with the peer's answer.
    ContinueNeeded,
    /// Call `complete_auth_token` to finish.
    CompleteNeeded,
}

/// The security failures: every error the provider can report. A failed
/// call never advances the state machine.
#[derive(Copy, Clone, Debug, PartialEq, Eq, Structural)]
pub enum SspiError {
    /// The call does not match the context's current state.
    OutOfSequence,
    /// A peer message is malformed.
    InvalidToken,
    /// A signature or integrity code does not match.
    MessageAltered,
    /// A sealed message is shorter than its signature.
    BufferTooSmall,
    /// A key needed by the call has not been established.
    NoCredentials,
}

} // verus!
