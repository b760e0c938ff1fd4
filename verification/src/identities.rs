//! The credential store the proxy answers from: records pairing the
//! credentials a client presents with the credentials and destination of
//! the real target. Reading the record file is the caller's business; the
//! lookup logic lives here.

use vstd::prelude::*;

use crate::sspi::{Credentials, CredentialsSpec, SspiError};

verus! {

/// One record: the account the client presents to the proxy, the account
/// the proxy replays to the target, and where the target is.
pub struct RdpIdentity {
    pub proxy: Credentials,
    pub target: Credentials,
    pub destination: String,
}

/// The mathematical shape of a record.
pub struct RdpIdentitySpec {
    pub proxy: CredentialsSpec,
    pub target: CredentialsSpec,
    pub destination: Seq<char>,
}

impl View for RdpIdentity {
    type V = RdpIdentitySpec;

    open spec fn view(&self) -> RdpIdentitySpec {
        RdpIdentitySpec { proxy: self.proxy@, target: self.target@, destination: self.destination@ }
    }
}

/// Copies an account field for field.
fn clone_credentials(c: &Credentials) -> (r: Credentials)
    ensures
        r@ == c@,
{
    Credentials {
        username: c.username.clone(),
        password: c.password.clone(),
        domain: match &c.domain {
            Some(d) => Some(d.clone()),
            None => None,
        },
    }
}

/// Copies a record field for field.
pub fn clone_rdp_identity(identity: &RdpIdentity) -> (r: RdpIdentity)
    ensures
        r@ == identity@,
{
    RdpIdentity {
        proxy: clone_credentials(&identity.proxy),
        target: clone_credentials(&identity.target),
        destination: identity.destination.clone(),
    }
}

/// Whatever can hand out the record selected for the current connection.
pub trait RdpIdentityGetter {
    /// True once a record has been selected.
    spec fn identity_selected(&self) -> bool;

    /// The selected record; callable only once one has been selected.
    fn get_rdp_identity(&self) -> RdpIdentity
        requires
            self.identity_selected(),
    ;
}

/// The index of the first record whose proxy account carries the given
/// user name.
pub open spec fn spec_find_identity(s: Seq<RdpIdentity>, username: Seq<char>, i: int) -> Option<
    int,
>
    decreases s.len() - i,
{
    if i < 0 || i >= s.len() {
        None
    } else if s[i]@.proxy.username == username {
        Some(i)
    } else {
        spec_find_identity(s, username, i + 1)
    }
}

/// The proxy-side credential store: it remembers where the records live
/// and which record the current connection selected.
pub struct IdentitiesProxy {
    pub rdp_identity: Option<RdpIdentity>,
    pub rdp_identities_filename: String,
}

impl IdentitiesProxy {
    /// A store that will answer from the records in the named file, with
    /// no record selected yet.
    pub fn new(rdp_identities_filename: String) -> (r: Self)
        ensures
            r.rdp_identity is None,
            r.rdp_identities_filename == rdp_identities_filename,
    {
        IdentitiesProxy { rdp_identities_filename, rdp_identity: None }
    }

    /// Answers a password request from loaded records: the first record
    /// whose proxy account carries the user name is selected and its
    /// password returned; an unknown user changes nothing and fails.
    pub fn password_by_user(&mut self, identities: &Vec<RdpIdentity>, username: &String) -> (r:
        Result<String, SspiError>)
        ensures
            final(self).rdp_identities_filename@ == old(self).rdp_identities_filename@,
            match spec_find_identity(identities@, username@, 0) {
                Some(i) => {
                    &&& r is Ok
                    &&& r->Ok_0@ == identities@[i]@.proxy.password
                    &&& final(self).rdp_identity is Some
                    &&& final(self).rdp_identity->Some_0@ == identities@[i]@
                },
                None => r == Err::<String, _>(SspiError::NoCredentials) && *final(self) == *old(
                    self,
                ),
            },
    {
        let mut i: usize = 0;
        while i < identities.len()
            invariant
                i <= identities@.len(),
                *self == *old(self),
                spec_find_identity(identities@, username@, 0) == spec_find_identity(
                    identities@,
                    username@,
                    i as int,
                ),
            decreases identities@.len() - i,
        {
            if identities[i].proxy.username.eq(username) {
                proof {
                    assert(spec_find_identity(identities@, username@, i as int) == Some(i as int));
                }
                let found = clone_rdp_identity(&identities[i]);
                let password = found.proxy.password.clone();
                self.rdp_identity = Some(found);
                return Ok(password);
            }
            i = i + 1;
        }
        assert(spec_find_identity(identities@, username@, i as int) is None);
        Err(SspiError::NoCredentials)
    }
}

impl RdpIdentityGetter for IdentitiesProxy {
    /// A record is selected once a password lookup stored one.
    open spec fn identity_selected(&self) -> bool {
        self.rdp_identity is Some
    }

    /// The record selected for this connection.
    fn get_rdp_identity(&self) -> (r: RdpIdentity)
        ensures
            r@ == self.rdp_identity->Some_0@,
    {
        match &self.rdp_identity {
            Some(identity) => clone_rdp_identity(identity),
            None => vstd::pervasive::unreached(),
        }
    }
}

} // verus!
