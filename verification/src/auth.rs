//! Credentials: an access key id/secret pair with an optional session
//! token. Secrets are wrapped so that no rendering path exposes them: the
//! wrapper offers only a fixed placeholder for display.

use vstd::prelude::*;

verus! {

/// A string holding a secret. It has no textual rendering: diagnostics use
/// [`SecretString::redacted`], and only [`SecretString::expose`] returns
/// the raw value, for computing signatures.
#[derive(Clone)]
pub struct SecretString {
    value: String,
}

impl SecretString {
    /// The wrapped secret.
    pub closed spec fn spec_value(&self) -> Seq<char> {
        self.value@
    }

    /// Wraps a secret.
    pub fn new(value: String) -> (r: SecretString)
        ensures
            r.spec_value() == value@,
    {
        SecretString { value }
    }

    /// The raw secret, for signing only.
    pub fn expose(&self) -> (r: &str)
        ensures
            r@ == self.spec_value(),
    {
        self.value.as_str()
    }

    /// The fixed placeholder that stands in for the secret wherever it is
    /// printed.
    pub fn redacted(&self) -> (r: String)
        ensures
            r@ == "<redacted>"@,
    {
        "<redacted>".to_owned()
    }
}

/// Access key credentials.
#[derive(Clone)]
pub struct AccessKey {
    access_key_id: String,
    access_key_secret: SecretString,
    security_token: Option<SecretString>,
}

impl AccessKey {
    /// The access key id.
    pub closed spec fn spec_id(&self) -> Seq<char> {
        self.access_key_id@
    }

    /// The access key secret.
    pub closed spec fn spec_secret(&self) -> Seq<char> {
        self.access_key_secret.spec_value()
    }

    /// The session token, if the credentials carry one.
    pub closed spec fn spec_token(&self) -> Option<Seq<char>> {
        match self.security_token {
            Some(t) => Some(t.spec_value()),
            None => None,
        }
    }

    /// The access key id.
    pub fn id(&self) -> (r: &str)
        ensures
            r@ == self.spec_id(),
    {
        self.access_key_id.as_str()
    }

    /// The wrapped secret.
    pub fn secret(&self) -> (r: &SecretString)
        ensures
            r.spec_value() == self.spec_secret(),
    {
        &self.access_key_secret
    }

    /// The session token, if any.
    pub fn token(&self) -> (r: Option<&SecretString>)
        ensures
            match r {
                Some(t) => self.spec_token() == Some(t.spec_value()),
                None => self.spec_token() is None,
            },
    {
        match &self.security_token {
            Some(t) => Some(t),
            None => None,
        }
    }
}

/// Authentication configuration.
#[derive(Clone)]
pub enum Auth {
    /// No authentication.
    Anonymous,
    /// Access key authentication for signed RPC calls.
    AccessKey(AccessKey),
}

impl Auth {
    /// The access key, when the configuration holds one.
    pub open spec fn spec_access_key(&self) -> Option<AccessKey> {
        match self {
            Auth::Anonymous => None,
            Auth::AccessKey(k) => Some(*k),
        }
    }

    /// An unauthenticated configuration.
    pub fn none() -> (r: Auth)
        ensures
            r is Anonymous,
    {
        Auth::Anonymous
    }

    /// Access key authentication.
    pub fn access_key(access_key_id: String, access_key_secret: String) -> (r: Auth)
        ensures
            r matches Auth::AccessKey(k) && k.spec_id() == access_key_id@ && k.spec_secret()
                == access_key_secret@ && k.spec_token() is None,
    {
        Auth::AccessKey(
            AccessKey {
                access_key_id,
                access_key_secret: SecretString::new(access_key_secret),
                security_token: None,
            },
        )
    }

    /// Access key authentication with a session token.
    pub fn access_key_with_security_token(
        access_key_id: String,
        access_key_secret: String,
        security_token: String,
    ) -> (r: Auth)
        ensures
            r matches Auth::AccessKey(k) && k.spec_id() == access_key_id@ && k.spec_secret()
                == access_key_secret@ && k.spec_token() == Some(security_token@),
    {
        Auth::AccessKey(
            AccessKey {
                access_key_id,
                access_key_secret: SecretString::new(access_key_secret),
                security_token: Some(SecretString::new(security_token)),
            },
        )
    }

    /// The access key, when the configuration holds one.
    pub fn as_access_key(&self) -> (r: Option<&AccessKey>)
        ensures
            match r {
                Some(k) => self.spec_access_key() == Some(*k),
                None => self.spec_access_key() is None,
            },
    {
        match self {
            Auth::AccessKey(k) => Some(k),
            Auth::Anonymous => None,
        }
    }
}

impl Default for Auth {
    /// The default configuration is unauthenticated.
    fn default() -> (r: Auth)
        ensures
            r is Anonymous,
    {
        Auth::Anonymous
    }
}

} // verus!
