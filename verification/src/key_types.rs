//! The data model: logical key identity, abstract key attributes, and the
//! durable record that binds an identity to a token-side identifier.

use vstd::prelude::*;

verus! {

/// The identity of the backend that owns a key.
#[derive(Clone, Copy, Debug, PartialEq, Eq, Structural)]
pub enum ProviderId {
    /// The core service itself.
    Core,
    /// The PKCS#11 token backend.
    Pkcs11,
}

/// The role of a token object relative to a key pair.
#[derive(Clone, Copy, Debug, PartialEq, Eq, Structural)]
pub enum KeyPairType {
    /// Only the public half.
    PublicKey,
    /// Only the private half.
    PrivateKey,
    /// Either half; the token decides which matching object it returns.
    Any,
}

/// The abstract key type of a record; only the RSA forms are supported.
#[derive(Clone, Copy, Debug, PartialEq, Eq, Structural)]
pub enum KeyType {
    /// An RSA key pair generated on the token.
    RsaKeyPair,
    /// An RSA public key imported from the outside.
    RsaPublicKey,
    /// A symmetric AES key; not supported by this provider.
    Aes,
}

/// The permitted usages of a key, persisted verbatim with its record.
#[derive(Clone, Copy, Debug, PartialEq, Eq, Structural)]
pub struct UsageFlags {
    pub export: bool,
    pub sign: bool,
    pub verify: bool,
    pub encrypt: bool,
    pub decrypt: bool,
}

/// The backend-agnostic descriptor of a key: its type, bit length and usage.
#[derive(Clone, Copy, Debug, PartialEq, Eq, Structural)]
pub struct KeyAttributes {
    pub key_type: KeyType,
    /// Requested bit length; `0` on import means "take the length of the data".
    pub bits: usize,
    pub usage: UsageFlags,
}

/// The logical identity of a key: application, provider and key name.
#[derive(Debug)]
pub struct KeyTriple {
    app_name: String,
    provider: ProviderId,
    key_name: String,
}

/// The mathematical value of a [`KeyTriple`].
pub struct KeyTripleView {
    pub app_name: Seq<char>,
    pub provider: ProviderId,
    pub key_name: Seq<char>,
}

impl View for KeyTriple {
    type V = KeyTripleView;

    closed spec fn view(&self) -> KeyTripleView {
        KeyTripleView { app_name: self.app_name@, provider: self.provider, key_name: self.key_name@ }
    }
}

impl KeyTriple {
    /// Builds the identity under which a record is stored.
    pub fn new(app_name: String, provider: ProviderId, key_name: String) -> (r: KeyTriple)
        ensures
            r@ == (KeyTripleView { app_name: app_name@, provider, key_name: key_name@ }),
    {
        KeyTriple { app_name, provider, key_name }
    }

    /// A fresh triple denoting the same logical key.
    pub fn clone_triple(&self) -> (r: KeyTriple)
        ensures
            r@ == self@,
    {
        KeyTriple {
            app_name: self.app_name.clone(),
            provider: self.provider,
            key_name: self.key_name.clone(),
        }
    }

    /// Whether two triples denote the same logical key.
    pub fn same_triple(&self, other: &KeyTriple) -> (r: bool)
        ensures
            r == (self@ == other@),
    {
        let r = self.app_name == other.app_name && self.provider == other.provider
            && self.key_name == other.key_name;
        if r {
            assert(self@ == other@);
        } else {
            assert(self@ != other@);
        }
        r
    }
}

/// The durable record kept for a key triple: the token-side identifier and
/// the attributes the key was created with.
#[derive(Debug)]
pub struct KeyInfo {
    pub id: Vec<u8>,
    pub attributes: KeyAttributes,
}

/// The mathematical value of a [`KeyInfo`].
pub struct KeyInfoView {
    pub id: Seq<u8>,
    pub attributes: KeyAttributes,
}

impl View for KeyInfo {
    type V = KeyInfoView;

    open spec fn view(&self) -> KeyInfoView {
        KeyInfoView { id: self.id@, attributes: self.attributes }
    }
}

} // verus!
