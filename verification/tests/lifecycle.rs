use pkcs11_keys::error::Error;
use pkcs11_keys::key_management::{
    create_key_id, get_key_info, key_info_exists, remove_key_id, select_found_object,
    Pkcs11Provider,
};
use pkcs11_keys::key_types::{KeyAttributes, KeyInfo, KeyTriple, KeyType, ProviderId, UsageFlags};
use pkcs11_keys::local_ids::LocalIdStore;
use pkcs11_keys::store::KeyInfoStore;

fn usage() -> UsageFlags {
    UsageFlags { export: true, sign: true, verify: true, encrypt: true, decrypt: true }
}

fn pair_attrs(bits: usize) -> KeyAttributes {
    KeyAttributes { key_type: KeyType::RsaKeyPair, bits, usage: usage() }
}

fn import_attrs(bits: usize) -> KeyAttributes {
    KeyAttributes { key_type: KeyType::RsaPublicKey, bits, usage: usage() }
}

fn triple(name: &str) -> KeyTriple {
    KeyTriple::new("app".to_string(), ProviderId::Pkcs11, name.to_string())
}

/// A small well-formed key: modulus 0x8102 (sign-padded), exponent 65537.
fn small_key_der() -> Vec<u8> {
    vec![
        0x30, 0x0A, 0x02, 0x03, 0x00, 0x81, 0x02, 0x02, 0x03, 0x01, 0x00, 0x01,
    ]
}

#[test]
fn identifier_uniqueness_across_creates() {
    let mut provider = Pkcs11Provider::new();
    let first = provider
        .prepare_generate_key("app".to_string(), "first".to_string(), pair_attrs(2048))
        .unwrap();
    provider.finish_key_creation(&first.key_triple, first.key_id, Ok(())).unwrap();
    let second = provider
        .prepare_generate_key("app".to_string(), "second".to_string(), pair_attrs(2048))
        .unwrap();
    provider.finish_key_creation(&second.key_triple, second.key_id, Ok(())).unwrap();
    assert_ne!(first.key_id, second.key_id);
    let (id1, _) = provider.key_info(&triple("first")).unwrap();
    let (id2, _) = provider.key_info(&triple("second")).unwrap();
    assert_eq!(id1, first.key_id);
    assert_eq!(id2, second.key_id);
}

#[test]
fn generate_token_failure_leaves_no_record() {
    let mut provider = Pkcs11Provider::new();
    let prepared = provider
        .prepare_generate_key("app".to_string(), "key".to_string(), pair_attrs(2048))
        .unwrap();
    assert!(provider.key_exists(&triple("key")));
    let r = provider.finish_key_creation(&prepared.key_triple, prepared.key_id, Err(
        Error::TokenError(5),
    ));
    assert_eq!(r, Err(Error::TokenError(5)));
    assert!(!provider.key_exists(&triple("key")));
}

#[test]
fn import_session_failure_leaves_no_record() {
    let mut provider = Pkcs11Provider::new();
    let der = small_key_der();
    let prepared = provider
        .prepare_import_key("app".to_string(), "key".to_string(), import_attrs(0), &der)
        .unwrap();
    assert!(provider.key_exists(&triple("key")));
    let r = provider.finish_key_creation(&prepared.key_triple, prepared.key_id, Err(
        Error::TokenError(0x44),
    ));
    assert_eq!(r, Err(Error::TokenError(0x44)));
    assert!(!provider.key_exists(&triple("key")));
}

#[test]
fn removal_is_idempotent() {
    let mut store = KeyInfoStore::new();
    let mut ids = LocalIdStore::new();
    let key_id = create_key_id(triple("key"), pair_attrs(1024), &mut store, &mut ids).unwrap();
    assert_eq!(key_info_exists(&triple("key"), &store), Ok(true));
    assert_eq!(remove_key_id(&triple("key"), key_id, &mut store, &mut ids), Ok(()));
    assert_eq!(key_info_exists(&triple("key"), &store), Ok(false));
    assert_eq!(remove_key_id(&triple("key"), key_id, &mut store, &mut ids), Ok(()));
    assert_eq!(key_info_exists(&triple("key"), &store), Ok(false));
}

#[test]
fn create_key_id_tolerates_overwriting() {
    let mut store = KeyInfoStore::new();
    let mut ids = LocalIdStore::new();
    let first = create_key_id(triple("key"), pair_attrs(1024), &mut store, &mut ids).unwrap();
    let second = create_key_id(triple("key"), pair_attrs(2048), &mut store, &mut ids).unwrap();
    assert_ne!(first, second);
    let (id, attrs) = get_key_info(&triple("key"), &store).unwrap();
    assert_eq!(id, second);
    assert_eq!(attrs, pair_attrs(2048));
}

#[test]
fn duplicate_generate_fails_with_already_exists() {
    let mut provider = Pkcs11Provider::new();
    let prepared = provider
        .prepare_generate_key("app".to_string(), "key".to_string(), pair_attrs(2048))
        .unwrap();
    provider.finish_key_creation(&prepared.key_triple, prepared.key_id, Ok(())).unwrap();
    let r = provider.prepare_generate_key("app".to_string(), "key".to_string(), pair_attrs(2048));
    assert!(matches!(r, Err(Error::AlreadyExists)));
    assert!(provider.key_exists(&triple("key")));
}

#[test]
fn destroy_tolerates_missing_second_object() {
    let mut provider = Pkcs11Provider::new();
    let der = small_key_der();
    let prepared = provider
        .prepare_import_key("app".to_string(), "key".to_string(), import_attrs(0), &der)
        .unwrap();
    provider.finish_key_creation(&prepared.key_triple, prepared.key_id, Ok(())).unwrap();
    let (key_id, _) = provider.key_info(&triple("key")).unwrap();
    let r = provider.finish_destroy_key(&triple("key"), key_id, Ok(()), Err(Error::NotFound));
    assert_eq!(r, Ok(()));
    assert!(!provider.key_exists(&triple("key")));
}

#[test]
fn destroy_second_object_token_error_is_fatal() {
    let mut provider = Pkcs11Provider::new();
    let prepared = provider
        .prepare_generate_key("app".to_string(), "key".to_string(), pair_attrs(2048))
        .unwrap();
    provider.finish_key_creation(&prepared.key_triple, prepared.key_id, Ok(())).unwrap();
    let (key_id, _) = provider.key_info(&triple("key")).unwrap();
    let r = provider.finish_destroy_key(
        &triple("key"),
        key_id,
        Ok(()),
        Err(Error::TokenError(7)),
    );
    assert_eq!(r, Err(Error::TokenError(7)));
    assert!(provider.key_exists(&triple("key")));
}

#[test]
fn destroy_first_object_failure_keeps_record() {
    let mut provider = Pkcs11Provider::new();
    let prepared = provider
        .prepare_generate_key("app".to_string(), "key".to_string(), pair_attrs(2048))
        .unwrap();
    provider.finish_key_creation(&prepared.key_triple, prepared.key_id, Ok(())).unwrap();
    let (key_id, _) = provider.key_info(&triple("key")).unwrap();
    let r = provider.finish_destroy_key(&triple("key"), key_id, Err(Error::NotFound), Ok(()));
    assert_eq!(r, Err(Error::NotFound));
    assert!(provider.key_exists(&triple("key")));
}

#[test]
fn generate_rejects_non_rsa_key_pair() {
    let mut provider = Pkcs11Provider::new();
    let r = provider.prepare_generate_key("app".to_string(), "key".to_string(), import_attrs(2048));
    assert!(matches!(r, Err(Error::NotSupported)));
    let r = provider.prepare_generate_key(
        "app".to_string(),
        "key".to_string(),
        KeyAttributes { key_type: KeyType::Aes, bits: 256, usage: usage() },
    );
    assert!(matches!(r, Err(Error::NotSupported)));
}

#[test]
fn import_rejects_non_rsa_public_key() {
    let mut provider = Pkcs11Provider::new();
    let der = small_key_der();
    let r = provider.prepare_import_key("app".to_string(), "key".to_string(), pair_attrs(0), &der);
    assert!(matches!(r, Err(Error::NotSupported)));
}

#[test]
fn export_of_missing_key_is_not_found() {
    let provider = Pkcs11Provider::new();
    let r = provider.key_info(&triple("missing"));
    assert!(matches!(r, Err(Error::NotFound)));
}

#[test]
fn get_key_info_flags_corrupt_record() {
    let mut store = KeyInfoStore::new();
    let info = KeyInfo { id: vec![1, 2, 3], attributes: pair_attrs(2048) };
    store.insert(triple("bad"), info);
    let r = get_key_info(&triple("bad"), &store);
    assert!(matches!(r, Err(Error::CorruptRecord)));
}

#[test]
fn get_key_info_reads_back_record() {
    let mut store = KeyInfoStore::new();
    let mut ids = LocalIdStore::new();
    let key_id = create_key_id(triple("key"), pair_attrs(512), &mut store, &mut ids).unwrap();
    let (id, attrs) = get_key_info(&triple("key"), &store).unwrap();
    assert_eq!(id, key_id);
    assert_eq!(attrs, pair_attrs(512));
}

#[test]
fn select_found_object_picks_first_handle() {
    assert_eq!(select_found_object(&vec![]), Err(Error::NotFound));
    assert_eq!(select_found_object(&vec![9, 4]), Ok(9));
}
