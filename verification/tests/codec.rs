use pkcs11_keys::asn1::{
    from_token_attributes, is_negative_bytes, parse_rsa_public_key, to_unsigned_bytes,
};
use pkcs11_keys::attributes::{AttrValue, CKA_MODULUS, CKA_PUBLIC_EXPONENT};
use pkcs11_keys::error::Error;
use pkcs11_keys::key_management::Pkcs11Provider;
use pkcs11_keys::key_types::{KeyAttributes, KeyType, UsageFlags};

fn import_attrs(bits: usize) -> KeyAttributes {
    KeyAttributes {
        key_type: KeyType::RsaPublicKey,
        bits,
        usage: UsageFlags { export: true, sign: false, verify: true, encrypt: true, decrypt: false },
    }
}

fn template_value(template: &[pkcs11_keys::attributes::TokenAttribute], kind: u64) -> Vec<u8> {
    for attr in template {
        if attr.attribute_type == kind {
            if let AttrValue::Bytes(b) = &attr.value {
                return b.clone();
            }
        }
    }
    panic!("attribute not in template");
}

#[test]
fn encode_produces_exact_bytes() {
    // Modulus 0x8102 needs a sign-padding byte; 65537 does not.
    let encoded = from_token_attributes(&vec![0x81, 0x02], &vec![0x01, 0x00, 0x01]).unwrap();
    assert_eq!(
        encoded,
        vec![0x30, 0x0A, 0x02, 0x03, 0x00, 0x81, 0x02, 0x02, 0x03, 0x01, 0x00, 0x01]
    );
}

#[test]
fn encode_strips_redundant_leading_zeros() {
    let a = from_token_attributes(&vec![0x00, 0x00, 0x23], &vec![0x03]).unwrap();
    let b = from_token_attributes(&vec![0x23], &vec![0x03]).unwrap();
    assert_eq!(a, b);
    assert_eq!(a, vec![0x30, 0x06, 0x02, 0x01, 0x23, 0x02, 0x01, 0x03]);
}

#[test]
fn encode_uses_long_length_form_for_large_modulus() {
    let mut modulus = vec![0u8; 256];
    modulus[0] = 0x80;
    let encoded = from_token_attributes(&modulus, &vec![0x01, 0x00, 0x01]).unwrap();
    // 0x80-led modulus gains a sign byte: integer content is 257 bytes.
    assert_eq!(encoded[0], 0x30);
    assert_eq!(&encoded[1..4], &[0x82, 0x01, 0x0A]);
    assert_eq!(&encoded[4..8], &[0x02, 0x82, 0x01, 0x01]);
    assert_eq!(encoded[8], 0x00);
    assert_eq!(encoded[9], 0x80);
    let parsed = parse_rsa_public_key(&encoded).unwrap();
    assert_eq!(to_unsigned_bytes(&parsed.modulus), modulus);
}

#[test]
fn encode_rejects_oversized_modulus() {
    let modulus = vec![0x01u8; 0x10001];
    let r = from_token_attributes(&modulus, &vec![0x01, 0x00, 0x01]);
    assert_eq!(r, Err(Error::CommunicationFailure));
}

#[test]
fn parse_accepts_exact_element_only() {
    let good = vec![0x30, 0x0A, 0x02, 0x03, 0x00, 0x81, 0x02, 0x02, 0x03, 0x01, 0x00, 0x01];
    let parsed = parse_rsa_public_key(&good).unwrap();
    assert_eq!(parsed.modulus, vec![0x00, 0x81, 0x02]);
    assert_eq!(parsed.public_exponent, vec![0x01, 0x00, 0x01]);

    let mut trailing = good.clone();
    trailing.push(0x00);
    assert!(parse_rsa_public_key(&trailing).is_err());

    let truncated = good[..good.len() - 1].to_vec();
    assert!(parse_rsa_public_key(&truncated).is_err());

    let mut wrong_tag = good.clone();
    wrong_tag[0] = 0x31;
    assert!(parse_rsa_public_key(&wrong_tag).is_err());

    assert!(parse_rsa_public_key(&vec![]).is_err());
}

#[test]
fn parse_rejects_non_minimal_length() {
    // Same element, but the sequence length written in long form needlessly.
    let non_minimal = vec![
        0x30, 0x81, 0x0A, 0x02, 0x03, 0x00, 0x81, 0x02, 0x02, 0x03, 0x01, 0x00, 0x01,
    ];
    assert!(parse_rsa_public_key(&non_minimal).is_err());
}

#[test]
fn negative_detection_follows_sign_bit() {
    assert!(is_negative_bytes(&vec![0x81, 0x02]));
    assert!(!is_negative_bytes(&vec![0x00, 0x81, 0x02]));
    assert!(!is_negative_bytes(&vec![0x7F]));
    assert!(is_negative_bytes(&vec![0x80]));
}

#[test]
fn to_unsigned_drops_single_sign_byte() {
    assert_eq!(to_unsigned_bytes(&vec![0x00, 0x81, 0x02]), vec![0x81, 0x02]);
    assert_eq!(to_unsigned_bytes(&vec![0x23]), vec![0x23]);
    assert_eq!(to_unsigned_bytes(&vec![]), vec![0x00]);
}

#[test]
fn import_then_export_round_trips_key_value() {
    let der = vec![0x30, 0x0A, 0x02, 0x03, 0x00, 0x81, 0x02, 0x02, 0x03, 0x01, 0x00, 0x01];
    let mut provider = Pkcs11Provider::new();
    let prepared = provider
        .prepare_import_key("app".to_string(), "key".to_string(), import_attrs(16), &der)
        .unwrap();
    let modulus = template_value(&prepared.template, CKA_MODULUS);
    let public_exponent = template_value(&prepared.template, CKA_PUBLIC_EXPONENT);
    assert_eq!(modulus, vec![0x81, 0x02]);
    assert_eq!(public_exponent, vec![0x01, 0x00, 0x01]);
    let exported = from_token_attributes(&modulus, &public_exponent).unwrap();
    assert_eq!(exported, der);
}

#[test]
fn non_minimal_import_exports_equal_value() {
    // The modulus content carries a redundant leading zero; export re-encodes
    // minimally, equal in value, differing only in padding bytes.
    let der = vec![0x30, 0x08, 0x02, 0x03, 0x00, 0x00, 0x23, 0x02, 0x01, 0x03];
    let mut provider = Pkcs11Provider::new();
    let prepared = provider
        .prepare_import_key("app".to_string(), "key".to_string(), import_attrs(0), &der)
        .unwrap();
    let modulus = template_value(&prepared.template, CKA_MODULUS);
    let exponent = template_value(&prepared.template, CKA_PUBLIC_EXPONENT);
    assert_eq!(modulus, vec![0x00, 0x23]);
    let exported = from_token_attributes(&modulus, &exponent).unwrap();
    assert_eq!(exported, vec![0x30, 0x06, 0x02, 0x01, 0x23, 0x02, 0x01, 0x03]);
}

#[test]
fn import_rejects_negative_modulus() {
    // The same modulus bytes without the sign padding read as negative.
    let der = vec![0x30, 0x09, 0x02, 0x02, 0x81, 0x02, 0x02, 0x03, 0x01, 0x00, 0x01];
    let mut provider = Pkcs11Provider::new();
    let r = provider.prepare_import_key("app".to_string(), "key".to_string(), import_attrs(0), &der);
    assert!(matches!(r, Err(Error::InvalidArgument)));
    assert!(!provider.key_exists(&pkcs11_keys::key_types::KeyTriple::new(
        "app".to_string(),
        pkcs11_keys::key_types::ProviderId::Pkcs11,
        "key".to_string(),
    )));
}

#[test]
fn import_rejects_malformed_data() {
    let mut provider = Pkcs11Provider::new();
    let r = provider.prepare_import_key(
        "app".to_string(),
        "key".to_string(),
        import_attrs(0),
        &vec![0x01, 0x02, 0x03],
    );
    assert!(matches!(r, Err(Error::InvalidArgument)));
}

#[test]
fn import_rejects_bits_mismatch() {
    // A 1024-bit modulus against a requested 2048 bits.
    let mut modulus_content = vec![0u8; 128];
    modulus_content[0] = 0x01;
    let mut der: Vec<u8> = vec![0x30, 0x81, 0x88, 0x02, 0x81, 0x80];
    der.extend_from_slice(&modulus_content);
    der.extend_from_slice(&[0x02, 0x03, 0x01, 0x00, 0x01]);
    let mut provider = Pkcs11Provider::new();
    let r = provider.prepare_import_key(
        "app".to_string(),
        "key".to_string(),
        import_attrs(2048),
        &der,
    );
    assert!(matches!(r, Err(Error::InvalidArgument)));
    // The same data with a matching request, and with no request, is accepted.
    let r = provider.prepare_import_key(
        "app".to_string(),
        "key1024".to_string(),
        import_attrs(1024),
        &der,
    );
    assert!(r.is_ok());
    let mut provider2 = Pkcs11Provider::new();
    let r = provider2.prepare_import_key("app".to_string(), "key0".to_string(), import_attrs(0), &der);
    assert!(r.is_ok());
}
