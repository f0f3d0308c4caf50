//! The attribute translator: maps the abstract key descriptor to the
//! token-native attribute templates used for generation, import and object
//! search, and restricts every object to the one mechanism its key type
//! implies.

use vstd::prelude::*;
use crate::key_types::{KeyAttributes, KeyPairType};

verus! {

pub const CKA_CLASS: u64 = 0x0000;
pub const CKA_TOKEN: u64 = 0x0001;
pub const CKA_PRIVATE: u64 = 0x0002;
pub const CKA_KEY_TYPE: u64 = 0x0100;
pub const CKA_ID: u64 = 0x0102;
pub const CKA_SENSITIVE: u64 = 0x0103;
pub const CKA_ENCRYPT: u64 = 0x0104;
pub const CKA_DECRYPT: u64 = 0x0105;
pub const CKA_SIGN: u64 = 0x0108;
pub const CKA_VERIFY: u64 = 0x010A;
pub const CKA_MODULUS: u64 = 0x0120;
pub const CKA_MODULUS_BITS: u64 = 0x0121;
pub const CKA_PUBLIC_EXPONENT: u64 = 0x0122;
/// Array-valued, so the type code carries the array-attribute flag.
pub const CKA_ALLOWED_MECHANISMS: u64 = 0x40000600;

pub const CKO_PUBLIC_KEY: u64 = 0x0002;
pub const CKO_PRIVATE_KEY: u64 = 0x0003;

pub const CKK_RSA: u64 = 0x0000;

pub const CKM_RSA_PKCS_KEY_PAIR_GEN: u64 = 0x0000;
pub const CKM_RSA_PKCS: u64 = 0x0001;

/// The value carried by one token attribute.
#[derive(Debug)]
pub enum AttrValue {
    Bytes(Vec<u8>),
    Ulong(u64),
    Bool(bool),
    Ulongs(Vec<u64>),
}

/// The mathematical value of an [`AttrValue`].
pub enum AttrValueView {
    Bytes(Seq<u8>),
    Ulong(u64),
    Bool(bool),
    Ulongs(Seq<u64>),
}

impl View for AttrValue {
    type V = AttrValueView;

    open spec fn view(&self) -> AttrValueView {
        match self {
            AttrValue::Bytes(b) => AttrValueView::Bytes(b@),
            AttrValue::Ulong(u) => AttrValueView::Ulong(*u),
            AttrValue::Bool(b) => AttrValueView::Bool(*b),
            AttrValue::Ulongs(u) => AttrValueView::Ulongs(u@),
        }
    }
}

/// One token-native attribute: its type code and its value.
#[derive(Debug)]
pub struct TokenAttribute {
    pub attribute_type: u64,
    pub value: AttrValue,
}

/// The mathematical value of a [`TokenAttribute`].
pub struct TokenAttributeView {
    pub attribute_type: u64,
    pub value: AttrValueView,
}

impl View for TokenAttribute {
    type V = TokenAttributeView;

    open spec fn view(&self) -> TokenAttributeView {
        TokenAttributeView { attribute_type: self.attribute_type, value: self.value@ }
    }
}

/// The views of a template's attributes, in order.
pub open spec fn views_of(s: Seq<TokenAttribute>) -> Seq<TokenAttributeView> {
    s.map_values(|a: TokenAttribute| a@)
}

pub open spec fn spec_attr_bytes(t: u64, b: Seq<u8>) -> TokenAttributeView {
    TokenAttributeView { attribute_type: t, value: AttrValueView::Bytes(b) }
}

pub open spec fn spec_attr_ulong(t: u64, u: u64) -> TokenAttributeView {
    TokenAttributeView { attribute_type: t, value: AttrValueView::Ulong(u) }
}

pub open spec fn spec_attr_bool(t: u64, b: bool) -> TokenAttributeView {
    TokenAttributeView { attribute_type: t, value: AttrValueView::Bool(b) }
}

/// The mechanism allow-list implied by the RSA key types: every object is
/// restricted to the RSA PKCS mechanism, so a key cannot be invoked under a
/// different, possibly weaker, mechanism family.
pub open spec fn spec_allowed_mechanisms_attr() -> TokenAttributeView {
    TokenAttributeView {
        attribute_type: CKA_ALLOWED_MECHANISMS,
        value: AttrValueView::Ulongs(seq![CKM_RSA_PKCS]),
    }
}

/// The search template for an identifier and a key role: the identifier
/// always, the object class only when the role picks one half.
pub open spec fn spec_find_template(id: Seq<u8>, role: KeyPairType) -> Seq<TokenAttributeView> {
    let base = seq![spec_attr_bytes(CKA_ID, id)];
    match role {
        KeyPairType::PublicKey => base.push(spec_attr_ulong(CKA_CLASS, CKO_PUBLIC_KEY)),
        KeyPairType::PrivateKey => base.push(spec_attr_ulong(CKA_CLASS, CKO_PRIVATE_KEY)),
        KeyPairType::Any => base,
    }
}

/// The public-half template for key-pair generation.
pub open spec fn spec_generate_pub_template(attrs: KeyAttributes, id: Seq<u8>) -> Seq<
    TokenAttributeView,
> {
    seq![
        spec_attr_ulong(CKA_CLASS, CKO_PUBLIC_KEY),
        spec_attr_ulong(CKA_KEY_TYPE, CKK_RSA),
        spec_attr_bytes(CKA_ID, id),
        spec_attr_bool(CKA_TOKEN, true),
        spec_attr_bool(CKA_PRIVATE, false),
        spec_attr_ulong(CKA_MODULUS_BITS, attrs.bits as u64),
        spec_attr_bytes(CKA_PUBLIC_EXPONENT, seq![0x01u8, 0x00u8, 0x01u8]),
        spec_attr_bool(CKA_VERIFY, attrs.usage.verify),
        spec_attr_bool(CKA_ENCRYPT, attrs.usage.encrypt),
        spec_allowed_mechanisms_attr(),
    ]
}

/// The private-half template for key-pair generation.
pub open spec fn spec_generate_priv_template(attrs: KeyAttributes, id: Seq<u8>) -> Seq<
    TokenAttributeView,
> {
    seq![
        spec_attr_ulong(CKA_CLASS, CKO_PRIVATE_KEY),
        spec_attr_ulong(CKA_KEY_TYPE, CKK_RSA),
        spec_attr_bytes(CKA_ID, id),
        spec_attr_bool(CKA_TOKEN, true),
        spec_attr_bool(CKA_PRIVATE, true),
        spec_attr_bool(CKA_SENSITIVE, true),
        spec_attr_bool(CKA_SIGN, attrs.usage.sign),
        spec_attr_bool(CKA_DECRYPT, attrs.usage.decrypt),
        spec_allowed_mechanisms_attr(),
    ]
}

/// The fixed template that an imported public key is created with.
pub open spec fn spec_import_template(modulus: Seq<u8>, public_exponent: Seq<u8>, id: Seq<u8>)
    -> Seq<TokenAttributeView> {
    seq![
        spec_attr_ulong(CKA_CLASS, CKO_PUBLIC_KEY),
        spec_attr_ulong(CKA_KEY_TYPE, CKK_RSA),
        spec_attr_bool(CKA_TOKEN, true),
        spec_attr_bytes(CKA_MODULUS, modulus),
        spec_attr_bytes(CKA_PUBLIC_EXPONENT, public_exponent),
        spec_attr_bool(CKA_VERIFY, true),
        spec_attr_bool(CKA_ENCRYPT, true),
        spec_attr_bytes(CKA_ID, id),
        spec_attr_bool(CKA_PRIVATE, false),
        spec_allowed_mechanisms_attr(),
    ]
}

fn id_bytes(id: &[u8; 4]) -> (r: Vec<u8>)
    ensures
        r@ == id@,
{
    let mut r: Vec<u8> = Vec::new();
    r.push(id[0]);
    r.push(id[1]);
    r.push(id[2]);
    r.push(id[3]);
    proof {
        assert(r@ =~= id@);
    }
    r
}

fn allowed_mechanisms_value() -> (r: AttrValue)
    ensures
        r@ == (spec_allowed_mechanisms_attr().value),
{
    let mut mechs: Vec<u64> = Vec::new();
    mechs.push(CKM_RSA_PKCS);
    proof {
        assert(mechs@ =~= seq![CKM_RSA_PKCS]);
    }
    AttrValue::Ulongs(mechs)
}

/// The attribute restricting an object to the RSA mechanism allow-list.
pub fn mech_type_to_allowed_mech_attribute() -> (r: TokenAttribute)
    ensures
        r@ == spec_allowed_mechanisms_attr(),
{
    TokenAttribute { attribute_type: CKA_ALLOWED_MECHANISMS, value: allowed_mechanisms_value() }
}

/// The search template for the token objects carrying `key_id`, narrowed to
/// one object class unless either half is wanted.
pub fn find_key_template(key_id: &[u8; 4], key_type: KeyPairType) -> (r: Vec<TokenAttribute>)
    ensures
        views_of(r@) == spec_find_template(key_id@, key_type),
{
    let mut r: Vec<TokenAttribute> = Vec::new();
    r.push(TokenAttribute { attribute_type: CKA_ID, value: AttrValue::Bytes(id_bytes(key_id)) });
    match key_type {
        KeyPairType::PublicKey => {
            r.push(TokenAttribute { attribute_type: CKA_CLASS, value: AttrValue::Ulong(CKO_PUBLIC_KEY) });
        },
        KeyPairType::PrivateKey => {
            r.push(TokenAttribute { attribute_type: CKA_CLASS, value: AttrValue::Ulong(CKO_PRIVATE_KEY) });
        },
        KeyPairType::Any => {},
    }
    proof {
        assert(views_of(r@) =~= spec_find_template(key_id@, key_type));
    }
    r
}

/// Translates the abstract key-pair descriptor into the token templates:
/// the mechanism to invoke, and the public and private object templates,
/// both already carrying the object class, key type, identifier and the
/// mechanism allow-list.
pub fn to_token_template(attrs: &KeyAttributes, key_id: &[u8; 4]) -> (r: (
    u64,
    Vec<TokenAttribute>,
    Vec<TokenAttribute>,
))
    ensures
        r.0 == CKM_RSA_PKCS_KEY_PAIR_GEN,
        views_of(r.1@) == spec_generate_pub_template(*attrs, key_id@),
        views_of(r.2@) == spec_generate_priv_template(*attrs, key_id@),
{
    let mut pub_template: Vec<TokenAttribute> = Vec::new();
    pub_template.push(TokenAttribute { attribute_type: CKA_CLASS, value: AttrValue::Ulong(CKO_PUBLIC_KEY) });
    pub_template.push(TokenAttribute { attribute_type: CKA_KEY_TYPE, value: AttrValue::Ulong(CKK_RSA) });
    pub_template.push(TokenAttribute { attribute_type: CKA_ID, value: AttrValue::Bytes(id_bytes(key_id)) });
    pub_template.push(TokenAttribute { attribute_type: CKA_TOKEN, value: AttrValue::Bool(true) });
    pub_template.push(TokenAttribute { attribute_type: CKA_PRIVATE, value: AttrValue::Bool(false) });
    pub_template.push(TokenAttribute { attribute_type: CKA_MODULUS_BITS, value: AttrValue::Ulong(attrs.bits as u64) });
    let mut exponent: Vec<u8> = Vec::new();
    exponent.push(0x01);
    exponent.push(0x00);
    exponent.push(0x01);
    proof {
        assert(exponent@ =~= seq![0x01u8, 0x00u8, 0x01u8]);
    }
    pub_template.push(TokenAttribute { attribute_type: CKA_PUBLIC_EXPONENT, value: AttrValue::Bytes(exponent) });
    pub_template.push(TokenAttribute { attribute_type: CKA_VERIFY, value: AttrValue::Bool(attrs.usage.verify) });
    pub_template.push(TokenAttribute { attribute_type: CKA_ENCRYPT, value: AttrValue::Bool(attrs.usage.encrypt) });
    pub_template.push(mech_type_to_allowed_mech_attribute());

    let mut priv_template: Vec<TokenAttribute> = Vec::new();
    priv_template.push(TokenAttribute { attribute_type: CKA_CLASS, value: AttrValue::Ulong(CKO_PRIVATE_KEY) });
    priv_template.push(TokenAttribute { attribute_type: CKA_KEY_TYPE, value: AttrValue::Ulong(CKK_RSA) });
    priv_template.push(TokenAttribute { attribute_type: CKA_ID, value: AttrValue::Bytes(id_bytes(key_id)) });
    priv_template.push(TokenAttribute { attribute_type: CKA_TOKEN, value: AttrValue::Bool(true) });
    priv_template.push(TokenAttribute { attribute_type: CKA_PRIVATE, value: AttrValue::Bool(true) });
    priv_template.push(TokenAttribute { attribute_type: CKA_SENSITIVE, value: AttrValue::Bool(true) });
    priv_template.push(TokenAttribute { attribute_type: CKA_SIGN, value: AttrValue::Bool(attrs.usage.sign) });
    priv_template.push(TokenAttribute { attribute_type: CKA_DECRYPT, value: AttrValue::Bool(attrs.usage.decrypt) });
    priv_template.push(mech_type_to_allowed_mech_attribute());

    proof {
        assert(views_of(pub_template@) =~= spec_generate_pub_template(*attrs, key_id@));
        assert(views_of(priv_template@) =~= spec_generate_priv_template(*attrs, key_id@));
    }
    (CKM_RSA_PKCS_KEY_PAIR_GEN, pub_template, priv_template)
}

/// Builds the fixed template an imported public key is created with: public
/// RSA object, persistent, usable for verify and encrypt, correlated to the
/// record by the identifier, and restricted to the RSA mechanism.
pub fn to_import_template(modulus: Vec<u8>, public_exponent: Vec<u8>, key_id: &[u8; 4]) -> (r: Vec<
    TokenAttribute,
>)
    ensures
        views_of(r@) == spec_import_template(modulus@, public_exponent@, key_id@),
{
    let mut r: Vec<TokenAttribute> = Vec::new();
    r.push(TokenAttribute { attribute_type: CKA_CLASS, value: AttrValue::Ulong(CKO_PUBLIC_KEY) });
    r.push(TokenAttribute { attribute_type: CKA_KEY_TYPE, value: AttrValue::Ulong(CKK_RSA) });
    r.push(TokenAttribute { attribute_type: CKA_TOKEN, value: AttrValue::Bool(true) });
    r.push(TokenAttribute { attribute_type: CKA_MODULUS, value: AttrValue::Bytes(modulus) });
    r.push(TokenAttribute { attribute_type: CKA_PUBLIC_EXPONENT, value: AttrValue::Bytes(public_exponent) });
    r.push(TokenAttribute { attribute_type: CKA_VERIFY, value: AttrValue::Bool(true) });
    r.push(TokenAttribute { attribute_type: CKA_ENCRYPT, value: AttrValue::Bool(true) });
    r.push(TokenAttribute { attribute_type: CKA_ID, value: AttrValue::Bytes(id_bytes(key_id)) });
    r.push(TokenAttribute { attribute_type: CKA_PRIVATE, value: AttrValue::Bool(false) });
    r.push(mech_type_to_allowed_mech_attribute());
    proof {
        assert(views_of(r@) =~= spec_import_template(modulus@, public_exponent@, key_id@));
    }
    r
}

} // verus!
