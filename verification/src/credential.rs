//! The storage-provider credential configuration: a validated credential
//! record and the store that keeps the single active configuration.

use vstd::prelude::*;
use vstd::string::StrSliceExecFns;
use crate::errors::ConfigError;

verus! {

/// A character allowed in a provider region token: a lowercase ASCII letter,
/// a digit, or a hyphen.
pub open spec fn region_char(c: char) -> bool {
    let u = c as u32;
    (97 <= u && u <= 122) || (48 <= u && u <= 57) || u == 45
}

/// A syntactically valid provider region token: non-empty and made of region
/// characters only.
pub open spec fn valid_region(r: Seq<char>) -> bool {
    r.len() > 0 && forall|i: int| 0 <= i < r.len() ==> region_char(r[i])
}

/// Checks that a region token is syntactically valid.
pub fn check_region(r: &str) -> (b: bool)
    ensures
        b == valid_region(r@),
{
    let n = r.unicode_len();
    if n == 0 {
        return false;
    }
    let mut i: usize = 0;
    while i < n
        invariant
            n as nat == r@.len(),
            i <= n,
            forall|j: int| 0 <= j < i ==> region_char(r@[j]),
        decreases n - i,
    {
        let c = r.get_char(i);
        let u = c as u32;
        if !((u >= 97 && u <= 122) || (u >= 48 && u <= 57) || u == 45) {
            assert(!region_char(r@[i as int]));
            return false;
        }
        i += 1;
    }
    true
}

/// The single active storage-provider configuration.
#[derive(Clone, Debug)]
pub struct Credential {
    pub user_name: String,
    pub bucket: String,
    pub access_key: String,
    pub secret_key: String,
    pub region: String,
    pub fdw_server_name: String,
    pub fdw_server_user_created: bool,
    pub created_on: u64,
    pub updated_on: u64,
}

/// A well-formed credential: every string field is non-empty and the region
/// token is syntactically valid.
pub open spec fn credential_valid(c: &Credential) -> bool {
    &&& c.user_name@.len() > 0
    &&& c.bucket@.len() > 0
    &&& c.access_key@.len() > 0
    &&& c.secret_key@.len() > 0
    &&& c.fdw_server_name@.len() > 0
    &&& valid_region(c.region@)
}

/// Checks that a credential is well-formed.
pub fn validate_credential(c: &Credential) -> (b: bool)
    ensures
        b == credential_valid(c),
{
    !c.user_name.as_str().is_empty() && !c.bucket.as_str().is_empty()
        && !c.access_key.as_str().is_empty() && !c.secret_key.as_str().is_empty()
        && !c.fdw_server_name.as_str().is_empty() && check_region(c.region.as_str())
}

/// Holds the single active credential row. At most one credential ever
/// exists; once one is configured the store never becomes empty again.
pub struct CredentialStore {
    pub slot: Option<Credential>,
}

impl CredentialStore {
    /// Whether a credential has been configured.
    pub open spec fn configured(&self) -> bool {
        self.slot is Some
    }

    /// An empty store: nothing configured yet.
    pub fn new() -> (s: Self)
        ensures
            !s.configured(),
    {
        CredentialStore { slot: None }
    }

    /// Whether a credential has been configured.
    pub fn is_configured(&self) -> (b: bool)
        ensures
            b == self.configured(),
    {
        self.slot.is_some()
    }

    /// The active credential, or `NotConfigured` if none was ever set.
    pub fn get(&self) -> (r: Result<&Credential, ConfigError>)
        ensures
            r is Ok <==> self.configured(),
            r is Ok ==> Some(*r->Ok_0) == self.slot,
            r is Err ==> r == Err::<&Credential, ConfigError>(ConfigError::NotConfigured),
    {
        match &self.slot {
            Some(c) => Ok(c),
            None => Err(ConfigError::NotConfigured),
        }
    }

    /// Installs or rotates the credential. A malformed credential is rejected
    /// outright. Installing a second credential without an explicit rotation
    /// fails with `MultipleConfigured` and leaves the store unchanged, so the
    /// configured row stays unique. Once configured, the store never becomes
    /// unconfigured.
    pub fn set(&mut self, c: Credential, rotation: bool) -> (r: Result<(), ConfigError>)
        ensures
            r is Ok <==> credential_valid(&c) && (!old(self).configured() || rotation),
            !credential_valid(&c) ==> r == Err::<(), ConfigError>(ConfigError::Malformed)
                && *final(self) == *old(self),
            credential_valid(&c) && old(self).configured() && !rotation ==> r == Err::<(),
                ConfigError,
            >(ConfigError::MultipleConfigured) && *final(self) == *old(self),
            r is Ok ==> final(self).slot == Some(c),
            old(self).configured() ==> final(self).configured(),
    {
        if !validate_credential(&c) {
            return Err(ConfigError::Malformed);
        }
        if self.slot.is_some() && !rotation {
            return Err(ConfigError::MultipleConfigured);
        }
        self.slot = Some(c);
        Ok(())
    }
}

} // verus!
