use pkcs11_keys::attributes::{
    find_key_template, mech_type_to_allowed_mech_attribute, to_token_template,
    to_import_template, AttrValue, TokenAttribute, CKA_ALLOWED_MECHANISMS, CKA_CLASS, CKA_ID,
    CKA_KEY_TYPE, CKA_MODULUS, CKA_MODULUS_BITS, CKA_PRIVATE, CKA_PUBLIC_EXPONENT, CKA_SIGN,
    CKA_TOKEN, CKA_VERIFY, CKK_RSA, CKM_RSA_PKCS, CKM_RSA_PKCS_KEY_PAIR_GEN, CKO_PRIVATE_KEY,
    CKO_PUBLIC_KEY,
};
use pkcs11_keys::key_types::{KeyAttributes, KeyPairType, KeyType, UsageFlags};

fn value_of(template: &[TokenAttribute], kind: u64) -> &AttrValue {
    for attr in template {
        if attr.attribute_type == kind {
            return &attr.value;
        }
    }
    panic!("attribute not in template");
}

fn has_attribute(template: &[TokenAttribute], kind: u64) -> bool {
    template.iter().any(|a| a.attribute_type == kind)
}

#[test]
fn allowed_mechanisms_restrict_to_rsa_pkcs() {
    let attr = mech_type_to_allowed_mech_attribute();
    assert_eq!(attr.attribute_type, CKA_ALLOWED_MECHANISMS);
    assert!(matches!(&attr.value, AttrValue::Ulongs(v) if *v == vec![CKM_RSA_PKCS]));
}

#[test]
fn generate_templates_carry_identifier_usage_and_restriction() {
    let attrs = KeyAttributes {
        key_type: KeyType::RsaKeyPair,
        bits: 2048,
        usage: UsageFlags { export: true, sign: true, verify: true, encrypt: false, decrypt: true },
    };
    let key_id = [1, 2, 3, 4];
    let (mechanism, pub_template, priv_template) = to_token_template(&attrs, &key_id);
    assert_eq!(mechanism, CKM_RSA_PKCS_KEY_PAIR_GEN);
    assert!(matches!(value_of(&pub_template, CKA_CLASS), AttrValue::Ulong(c) if *c == CKO_PUBLIC_KEY));
    assert!(matches!(value_of(&pub_template, CKA_KEY_TYPE), AttrValue::Ulong(k) if *k == CKK_RSA));
    assert!(matches!(value_of(&pub_template, CKA_ID), AttrValue::Bytes(b) if *b == vec![1, 2, 3, 4]));
    assert!(matches!(value_of(&pub_template, CKA_MODULUS_BITS), AttrValue::Ulong(2048)));
    assert!(matches!(value_of(&pub_template, CKA_TOKEN), AttrValue::Bool(true)));
    assert!(matches!(value_of(&pub_template, CKA_VERIFY), AttrValue::Bool(true)));
    assert!(
        matches!(value_of(&pub_template, CKA_PUBLIC_EXPONENT), AttrValue::Bytes(b) if *b == vec![0x01, 0x00, 0x01])
    );
    assert!(
        matches!(value_of(&pub_template, CKA_ALLOWED_MECHANISMS), AttrValue::Ulongs(v) if *v == vec![CKM_RSA_PKCS])
    );
    assert!(matches!(value_of(&priv_template, CKA_CLASS), AttrValue::Ulong(c) if *c == CKO_PRIVATE_KEY));
    assert!(matches!(value_of(&priv_template, CKA_KEY_TYPE), AttrValue::Ulong(k) if *k == CKK_RSA));
    assert!(matches!(value_of(&priv_template, CKA_ID), AttrValue::Bytes(b) if *b == vec![1, 2, 3, 4]));
    assert!(matches!(value_of(&priv_template, CKA_PRIVATE), AttrValue::Bool(true)));
    assert!(matches!(value_of(&priv_template, CKA_SIGN), AttrValue::Bool(true)));
    assert!(
        matches!(value_of(&priv_template, CKA_ALLOWED_MECHANISMS), AttrValue::Ulongs(v) if *v == vec![CKM_RSA_PKCS])
    );
}

#[test]
fn import_template_is_a_public_persistent_rsa_object() {
    let key_id = [9, 8, 7, 6];
    let template = to_import_template(vec![0x81, 0x02], vec![0x01, 0x00, 0x01], &key_id);
    assert!(matches!(value_of(&template, CKA_CLASS), AttrValue::Ulong(c) if *c == CKO_PUBLIC_KEY));
    assert!(matches!(value_of(&template, CKA_TOKEN), AttrValue::Bool(true)));
    assert!(matches!(value_of(&template, CKA_PRIVATE), AttrValue::Bool(false)));
    assert!(matches!(value_of(&template, CKA_MODULUS), AttrValue::Bytes(b) if *b == vec![0x81, 0x02]));
    assert!(
        matches!(value_of(&template, CKA_PUBLIC_EXPONENT), AttrValue::Bytes(b) if *b == vec![0x01, 0x00, 0x01])
    );
    assert!(matches!(value_of(&template, CKA_ID), AttrValue::Bytes(b) if *b == vec![9, 8, 7, 6]));
    assert!(
        matches!(value_of(&template, CKA_ALLOWED_MECHANISMS), AttrValue::Ulongs(v) if *v == vec![CKM_RSA_PKCS])
    );
}

#[test]
fn find_template_includes_class_only_for_one_half() {
    let key_id = [1, 1, 2, 2];
    let public = find_key_template(&key_id, KeyPairType::PublicKey);
    assert_eq!(public.len(), 2);
    assert!(matches!(value_of(&public, CKA_ID), AttrValue::Bytes(b) if *b == vec![1, 1, 2, 2]));
    assert!(matches!(value_of(&public, CKA_CLASS), AttrValue::Ulong(c) if *c == CKO_PUBLIC_KEY));
    let private = find_key_template(&key_id, KeyPairType::PrivateKey);
    assert!(matches!(value_of(&private, CKA_CLASS), AttrValue::Ulong(c) if *c == CKO_PRIVATE_KEY));
    let any = find_key_template(&key_id, KeyPairType::Any);
    assert_eq!(any.len(), 1);
    assert!(!has_attribute(&any, CKA_CLASS));
}
