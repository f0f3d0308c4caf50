//! Key lifecycle management: the identifier allocator, the metadata store
//! adapter, and the four lifecycle operations over the durable store and the
//! in-memory identifier index.
//!
//! Each mutating operation is a saga: the record is reserved first, and every
//! later failure removes the reservation again before the error is returned.
//! The token commands themselves are issued by the caller between the
//! `prepare_*` and `finish_*` halves; the decisions — what to reserve, which
//! templates to hand the token, and what each token outcome means for the
//! store — all stand here.

use vstd::prelude::*;
use crate::asn1::{
    is_negative_bytes, parse_rsa_public_key, spec_is_negative, spec_parse_rsa_public_key,
    spec_to_unsigned, to_unsigned_bytes,
};
use crate::attributes::{
    to_token_template, spec_generate_priv_template,
    spec_generate_pub_template, spec_import_template, to_import_template, views_of,
    TokenAttribute, CKM_RSA_PKCS_KEY_PAIR_GEN,
};
use crate::error::Error;
use crate::key_types::{
    KeyAttributes, KeyInfo, KeyInfoView, KeyTriple, KeyTripleView, KeyType, ProviderId,
};
use crate::store::KeyInfoStore;
use crate::local_ids::LocalIdStore;

verus! {

/// How many random draws the allocator makes before giving up. At 32-bit
/// identifiers the chance of exhausting this against any realistic live set
/// is negligible; the cap only turns an adversarially filled identifier
/// space into a typed error instead of an endless loop.
pub const MAX_ID_ATTEMPTS: usize = 64;

/// Relies on rand::random: draws a uniformly distributed 4-byte value from
/// the thread-local generator. Nothing is promised of the value; every
/// caller must cope with any outcome.
#[verifier::external_body]
fn random_id() -> (r: [u8; 4]) {
    rand::random::<[u8; 4]>()
}

/// The triple under which this provider stores a key of an application.
pub open spec fn spec_pkcs11_triple(app_name: Seq<char>, key_name: Seq<char>) -> KeyTripleView {
    KeyTripleView { app_name, provider: ProviderId::Pkcs11, key_name }
}

/// No two live records hold the same identifier.
pub open spec fn identifiers_unique(m: Map<KeyTripleView, KeyInfoView>) -> bool {
    forall|t1: KeyTripleView, t2: KeyTripleView|
        m.contains_key(t1) && m.contains_key(t2) && t1 != t2 ==> m[t1].id != m[t2].id
}

/// Gets a key identifier and key attributes from the store.
///
/// Succeeds exactly on the triples that hold a record with a 4-byte
/// identifier; a record with any other identifier length is unusable.
pub fn get_key_info(key_triple: &KeyTriple, store_handle: &KeyInfoStore) -> (r: Result<
    ([u8; 4], KeyAttributes),
    Error,
>)
    requires
        store_handle.wf(),
    ensures
        r is Ok <==> (store_handle@.contains_key(key_triple@)
            && store_handle@[key_triple@].id.len() == 4),
        r matches Ok((id, attrs)) ==> {
            &&& id@ == store_handle@[key_triple@].id
            &&& attrs == store_handle@[key_triple@].attributes
        },
        r matches Err(e) ==> {
            ||| (e == Error::NotFound && !store_handle@.contains_key(key_triple@))
            ||| (e == Error::CorruptRecord && store_handle@.contains_key(key_triple@)
                && store_handle@[key_triple@].id.len() != 4)
        },
{
    match store_handle.get(key_triple) {
        Some(key_info) => {
            if key_info.id.len() == 4 {
                let dst: [u8; 4] = [key_info.id[0], key_info.id[1], key_info.id[2], key_info.id[3]];
                proof {
                    assert(dst@ =~= key_info.id@);
                }
                Ok((dst, key_info.attributes))
            } else {
                Err(Error::CorruptRecord)
            }
        },
        None => Err(Error::NotFound),
    }
}

/// Whether the store holds a record for the triple.
pub fn key_info_exists(key_triple: &KeyTriple, store_handle: &KeyInfoStore) -> (r: Result<
    bool,
    Error,
>)
    ensures
        r matches Ok(b) && b == store_handle@.contains_key(key_triple@),
{
    Ok(store_handle.contains(key_triple))
}

/// Allocates a fresh identifier and reserves a record under it: draws random
/// 4-byte values until one misses the live index, stores `{identifier,
/// attributes}` under the triple, and records the identifier in the index.
///
/// Overwriting an existing record for the triple is tolerated, not an
/// error. Only the exhaustion of the retry cap fails, and then nothing has
/// changed; exhaustion needs live identifiers to collide with, so against an
/// empty index allocation always succeeds.
pub fn create_key_id(
    key_triple: KeyTriple,
    key_attributes: KeyAttributes,
    store_handle: &mut KeyInfoStore,
    local_ids_handle: &mut LocalIdStore,
) -> (r: Result<[u8; 4], Error>)
    requires
        old(store_handle).wf(),
        old(local_ids_handle).wf(),
    ensures
        final(store_handle).wf(),
        final(local_ids_handle).wf(),
        r matches Ok(key_id) ==> {
            &&& !old(local_ids_handle)@.contains(key_id@)
            &&& final(store_handle)@ =~= old(store_handle)@.insert(
                key_triple@,
                KeyInfoView { id: key_id@, attributes: key_attributes },
            )
            &&& final(local_ids_handle)@ =~= old(local_ids_handle)@.insert(key_id@)
        },
        r matches Err(e) ==> {
            &&& e == Error::AllocationExhausted
            &&& final(store_handle)@ =~= old(store_handle)@
            &&& final(local_ids_handle)@ =~= old(local_ids_handle)@
            &&& exists|x: Seq<u8>| old(local_ids_handle)@.contains(x)
        },
{
    let mut key_id = random_id();
    let mut attempts: usize = 0;
    while attempts < MAX_ID_ATTEMPTS && local_ids_handle.contains(&key_id)
        invariant
            store_handle.wf(),
            local_ids_handle.wf(),
            *store_handle == *old(store_handle),
            *local_ids_handle == *old(local_ids_handle),
            attempts <= MAX_ID_ATTEMPTS,
        decreases MAX_ID_ATTEMPTS - attempts,
    {
        key_id = random_id();
        attempts += 1;
    }
    if local_ids_handle.contains(&key_id) {
        proof {
            assert(old(local_ids_handle)@.contains(key_id@));
        }
        return Err(Error::AllocationExhausted);
    }
    let mut id_vec: Vec<u8> = Vec::new();
    id_vec.push(key_id[0]);
    id_vec.push(key_id[1]);
    id_vec.push(key_id[2]);
    id_vec.push(key_id[3]);
    proof {
        assert(id_vec@ =~= key_id@);
    }
    let _ = store_handle.insert(key_triple, KeyInfo { id: id_vec, attributes: key_attributes });
    local_ids_handle.insert(key_id);
    Ok(key_id)
}

/// Removes the record for the triple and evicts the identifier from the
/// index. Neither step can fail: removing an absent record or evicting an
/// absent identifier is a no-op, so removal is idempotent.
pub fn remove_key_id(
    key_triple: &KeyTriple,
    key_id: [u8; 4],
    store_handle: &mut KeyInfoStore,
    local_ids_handle: &mut LocalIdStore,
) -> (r: Result<(), Error>)
    requires
        old(store_handle).wf(),
        old(local_ids_handle).wf(),
    ensures
        final(store_handle).wf(),
        final(local_ids_handle).wf(),
        r is Ok,
        final(store_handle)@ =~= old(store_handle)@.remove(key_triple@),
        final(local_ids_handle)@ =~= old(local_ids_handle)@.remove(key_id@),
{
    let _ = store_handle.remove(key_triple);
    local_ids_handle.remove(&key_id);
    Ok(())
}

/// Picks the object a search returned: the first handle, or nothing found.
pub fn select_found_object(objects: &Vec<u64>) -> (r: Result<u64, Error>)
    ensures
        objects@.len() == 0 ==> (r matches Err(e) && e == Error::NotFound),
        objects@.len() > 0 ==> (r matches Ok(h) && h == objects@[0]),
{
    if objects.len() == 0 {
        Err(Error::NotFound)
    } else {
        Ok(objects[0])
    }
}

/// Everything a caller needs to issue the key-pair generation command: the
/// reserved triple and identifier, the mechanism, and the two templates.
pub struct PreparedGenerate {
    pub key_triple: KeyTriple,
    pub key_id: [u8; 4],
    pub mechanism: u64,
    pub pub_template: Vec<TokenAttribute>,
    pub priv_template: Vec<TokenAttribute>,
}

/// Everything a caller needs to issue the object-creation command for an
/// imported public key: the reserved triple and identifier and the template.
pub struct PreparedImport {
    pub key_triple: KeyTriple,
    pub key_id: [u8; 4],
    pub template: Vec<TokenAttribute>,
}

/// Whether the supplied bytes parse to a usable public key: one well-formed
/// element whose modulus and exponent are both non-negative.
pub open spec fn spec_import_parts_ok(data: Seq<u8>) -> bool {
    match spec_parse_rsa_public_key(data) {
        Some((m, e)) => !spec_is_negative(m) && !spec_is_negative(e),
        None => false,
    }
}

/// Whether the requested bit length is consistent with the parsed modulus:
/// zero delegates to the data, anything else must match exactly.
pub open spec fn spec_import_bits_ok(attrs: KeyAttributes, data: Seq<u8>) -> bool {
    match spec_parse_rsa_public_key(data) {
        Some((m, e)) => attrs.bits == 0 || attrs.bits as int == 8 * spec_to_unsigned(m).len(),
        None => false,
    }
}

/// Whether the supplied key material is accepted for import.
pub open spec fn spec_import_data_valid(attrs: KeyAttributes, data: Seq<u8>) -> bool {
    spec_import_parts_ok(data) && spec_import_bits_ok(attrs, data)
}

/// The key store and identifier index of one provider instance.
///
/// The caller is expected to hold this behind a lock for the whole duration
/// of a lifecycle operation, never per access: compensation must not race
/// with another thread observing a reserved-but-unbacked identifier. Rust's
/// exclusive borrow of the whole provider enforces exactly that scope here.
pub struct Pkcs11Provider {
    key_info_store: KeyInfoStore,
    local_ids: LocalIdStore,
}

impl Pkcs11Provider {
    /// The durable mapping this provider maintains.
    pub closed spec fn store(&self) -> Map<KeyTripleView, KeyInfoView> {
        self.key_info_store@
    }

    /// The identifiers currently held live by the index.
    pub closed spec fn ids(&self) -> Set<Seq<u8>> {
        self.local_ids@
    }

    /// The provider invariant: the store and the index are internally
    /// well-formed, every record's identifier is 4 bytes and is held in the
    /// index, and no two records share an identifier.
    pub closed spec fn wf(&self) -> bool {
        &&& self.key_info_store.wf()
        &&& self.local_ids.wf()
        &&& forall|t: KeyTripleView| #[trigger] self.key_info_store@.contains_key(t) ==> {
            &&& self.key_info_store@[t].id.len() == 4
            &&& self.local_ids@.contains(self.key_info_store@[t].id)
        }
        &&& identifiers_unique(self.key_info_store@)
    }

    /// A provider with an empty store and a cold identifier index.
    pub fn new() -> (r: Pkcs11Provider)
        ensures
            r.wf(),
            r.store() =~= Map::<KeyTripleView, KeyInfoView>::empty(),
            r.ids() =~= Set::<Seq<u8>>::empty(),
    {
        Pkcs11Provider { key_info_store: KeyInfoStore::new(), local_ids: LocalIdStore::new() }
    }

    /// Looks up the identifier and attributes recorded for the triple.
    pub fn key_info(&self, key_triple: &KeyTriple) -> (r: Result<([u8; 4], KeyAttributes), Error>)
        requires
            self.wf(),
        ensures
            r is Ok <==> self.store().contains_key(key_triple@),
            r matches Ok((id, attrs)) ==> {
                &&& id@ == self.store()[key_triple@].id
                &&& attrs == self.store()[key_triple@].attributes
            },
            r matches Err(e) ==> e == Error::NotFound,
    {
        let r = get_key_info(key_triple, &self.key_info_store);
        proof {
            if self.store().contains_key(key_triple@) {
                assert(self.store()[key_triple@].id.len() == 4);
            }
        }
        r
    }

    /// Whether a record exists for the triple.
    pub fn key_exists(&self, key_triple: &KeyTriple) -> (r: bool)
        ensures
            r == self.store().contains_key(key_triple@),
    {
        self.key_info_store.contains(key_triple)
    }

    /// The first, mutating half of key-pair generation: rejects anything but
    /// an RSA key pair, fails if the triple already has a record, reserves a
    /// record under a fresh identifier, and builds the token templates.
    ///
    /// On success the caller issues the generation command and reports its
    /// outcome to [`Self::finish_key_creation`]. On any failure nothing has
    /// changed — in particular, a duplicate triple fails with
    /// [`Error::AlreadyExists`] before anything is reserved.
    pub fn prepare_generate_key(
        &mut self,
        app_name: String,
        key_name: String,
        attrs: KeyAttributes,
    ) -> (r: Result<PreparedGenerate, Error>)
        requires
            old(self).wf(),
        ensures
            final(self).wf(),
            identifiers_unique(final(self).store()),
            ({
                let t = spec_pkcs11_triple(app_name@, key_name@);
                match r {
                    Ok(p) => {
                        &&& attrs.key_type == KeyType::RsaKeyPair
                        &&& !old(self).store().contains_key(t)
                        &&& p.key_triple@ == t
                        &&& !old(self).ids().contains(p.key_id@)
                        &&& final(self).store() =~= old(self).store().insert(
                            t,
                            KeyInfoView { id: p.key_id@, attributes: attrs },
                        )
                        &&& final(self).ids() =~= old(self).ids().insert(p.key_id@)
                        &&& p.mechanism == CKM_RSA_PKCS_KEY_PAIR_GEN
                        &&& views_of(p.pub_template@) == spec_generate_pub_template(attrs, p.key_id@)
                        &&& views_of(p.priv_template@) == spec_generate_priv_template(
                            attrs,
                            p.key_id@,
                        )
                    },
                    Err(e) => {
                        &&& final(self).store() =~= old(self).store()
                        &&& final(self).ids() =~= old(self).ids()
                        &&& (e == Error::NotSupported <==> attrs.key_type != KeyType::RsaKeyPair)
                        &&& (e == Error::AlreadyExists <==> (attrs.key_type == KeyType::RsaKeyPair
                            && old(self).store().contains_key(t)))
                        &&& (e == Error::AllocationExhausted ==> exists|x: Seq<u8>|
                            old(self).ids().contains(x))
                        &&& (e == Error::NotSupported || e == Error::AlreadyExists
                            || e == Error::AllocationExhausted)
                    },
                }
            }),
    {
        if !matches!(attrs.key_type, KeyType::RsaKeyPair) {
            return Err(Error::NotSupported);
        }
        let key_triple = KeyTriple::new(app_name, ProviderId::Pkcs11, key_name);
        if self.key_info_store.contains(&key_triple) {
            return Err(Error::AlreadyExists);
        }
        let key_id = match create_key_id(
            key_triple.clone_triple(),
            attrs,
            &mut self.key_info_store,
            &mut self.local_ids,
        ) {
            Ok(id) => id,
            Err(e) => {
                return Err(e);
            },
        };
        proof {
            lemma_wf_after_reserve(*old(self), *self, key_triple@, key_id@, attrs);
        }
        let (mechanism, pub_template, priv_template) = to_token_template(&attrs, &key_id);
        Ok(PreparedGenerate { key_triple, key_id, mechanism, pub_template, priv_template })
    }

    /// The first, mutating half of a public-key import: rejects anything but
    /// an RSA public key, fails if the triple already has a record, reserves
    /// a record, then parses and validates the supplied key bytes and builds
    /// the import template.
    ///
    /// Any parse or validation failure — a malformed element, a negative
    /// modulus or exponent, or a requested bit length that does not match the
    /// modulus — removes the reservation again and fails with
    /// [`Error::InvalidArgument`]: no failure leaves a residual record.
    pub fn prepare_import_key(
        &mut self,
        app_name: String,
        key_name: String,
        attrs: KeyAttributes,
        data: &Vec<u8>,
    ) -> (r: Result<PreparedImport, Error>)
        requires
            old(self).wf(),
        ensures
            final(self).wf(),
            identifiers_unique(final(self).store()),
            ({
                let t = spec_pkcs11_triple(app_name@, key_name@);
                match r {
                    Ok(p) => {
                        &&& attrs.key_type == KeyType::RsaPublicKey
                        &&& !old(self).store().contains_key(t)
                        &&& spec_import_data_valid(attrs, data@)
                        &&& p.key_triple@ == t
                        &&& !old(self).ids().contains(p.key_id@)
                        &&& final(self).store() =~= old(self).store().insert(
                            t,
                            KeyInfoView { id: p.key_id@, attributes: attrs },
                        )
                        &&& final(self).ids() =~= old(self).ids().insert(p.key_id@)
                        &&& ({
                            let parts = spec_parse_rsa_public_key(data@)->Some_0;
                            views_of(p.template@) == spec_import_template(
                                spec_to_unsigned(parts.0),
                                spec_to_unsigned(parts.1),
                                p.key_id@,
                            )
                        })
                    },
                    Err(e) => {
                        &&& final(self).store() =~= old(self).store()
                        &&& final(self).ids() =~= old(self).ids()
                        &&& (e == Error::NotSupported <==> attrs.key_type != KeyType::RsaPublicKey)
                        &&& (e == Error::AlreadyExists <==> (attrs.key_type == KeyType::RsaPublicKey
                            && old(self).store().contains_key(t)))
                        &&& (e == Error::InvalidArgument ==> !spec_import_data_valid(attrs, data@))
                        &&& (e == Error::AllocationExhausted ==> exists|x: Seq<u8>|
                            old(self).ids().contains(x))
                        &&& ((attrs.key_type == KeyType::RsaPublicKey
                            && !old(self).store().contains_key(t)
                            && !spec_import_data_valid(attrs, data@)) ==> (e
                            == Error::InvalidArgument || e == Error::AllocationExhausted))
                        &&& (e == Error::NotSupported || e == Error::AlreadyExists
                            || e == Error::InvalidArgument || e == Error::AllocationExhausted)
                    },
                }
            }),
    {
        if !matches!(attrs.key_type, KeyType::RsaPublicKey) {
            return Err(Error::NotSupported);
        }
        let key_triple = KeyTriple::new(app_name, ProviderId::Pkcs11, key_name);
        if self.key_info_store.contains(&key_triple) {
            return Err(Error::AlreadyExists);
        }
        let key_id = match create_key_id(
            key_triple.clone_triple(),
            attrs,
            &mut self.key_info_store,
            &mut self.local_ids,
        ) {
            Ok(id) => id,
            Err(e) => {
                return Err(e);
            },
        };
        proof {
            lemma_wf_after_reserve(*old(self), *self, key_triple@, key_id@, attrs);
        }
        let parts = match parse_rsa_public_key(data) {
            Ok(parts) => parts,
            Err(_) => {
                let _ = remove_key_id(
                    &key_triple,
                    key_id,
                    &mut self.key_info_store,
                    &mut self.local_ids,
                );
                proof {
                    lemma_compensation_restores(*old(self), *self, key_triple@, key_id@, attrs);
                }
                return Err(Error::InvalidArgument);
            },
        };
        if is_negative_bytes(&parts.modulus) || is_negative_bytes(&parts.public_exponent) {
            let _ = remove_key_id(
                &key_triple,
                key_id,
                &mut self.key_info_store,
                &mut self.local_ids,
            );
            proof {
                lemma_compensation_restores(*old(self), *self, key_triple@, key_id@, attrs);
            }
            return Err(Error::InvalidArgument);
        }
        let modulus = to_unsigned_bytes(&parts.modulus);
        let public_exponent = to_unsigned_bytes(&parts.public_exponent);
        proof {
            assert(modulus@.len() <= 0xFFFF);
        }
        if attrs.bits != 0 && attrs.bits != 8 * modulus.len() {
            let _ = remove_key_id(
                &key_triple,
                key_id,
                &mut self.key_info_store,
                &mut self.local_ids,
            );
            proof {
                lemma_compensation_restores(*old(self), *self, key_triple@, key_id@, attrs);
            }
            return Err(Error::InvalidArgument);
        }
        let template = to_import_template(modulus, public_exponent, &key_id);
        Ok(PreparedImport { key_triple, key_id, template })
    }

    /// The closing half of generate and import: takes the outcome of the
    /// session acquisition and token command the caller issued for the
    /// reserved record. Success confirms the record; any failure removes the
    /// reservation again — the compensating delete — and hands the error
    /// back, so a failed saga leaves the store exactly as it found it.
    pub fn finish_key_creation(
        &mut self,
        key_triple: &KeyTriple,
        key_id: [u8; 4],
        token_outcome: Result<(), Error>,
    ) -> (r: Result<(), Error>)
        requires
            old(self).wf(),
            old(self).store().contains_key(key_triple@),
            old(self).store()[key_triple@].id == key_id@,
        ensures
            final(self).wf(),
            identifiers_unique(final(self).store()),
            token_outcome is Ok ==> {
                &&& r is Ok
                &&& final(self).store() =~= old(self).store()
                &&& final(self).ids() =~= old(self).ids()
            },
            token_outcome matches Err(e) ==> {
                &&& r == Err::<(), Error>(e)
                &&& final(self).store() =~= old(self).store().remove(key_triple@)
                &&& final(self).ids() =~= old(self).ids().remove(key_id@)
            },
    {
        match token_outcome {
            Ok(()) => Ok(()),
            Err(e) => {
                let _ = remove_key_id(
                    key_triple,
                    key_id,
                    &mut self.key_info_store,
                    &mut self.local_ids,
                );
                proof {
                    lemma_wf_after_unreserve(*old(self), *self, key_triple@, key_id@);
                }
                Err(e)
            },
        }
    }

    /// The closing half of destroy: takes the outcomes of the two
    /// destroy-object attempts the caller made under the identifier. The
    /// first object is mandatory; the second is the other half of a pair,
    /// and its absence — [`Error::NotFound`] — is tolerated by design, since
    /// an imported key has only one object. Only after both attempts pass is
    /// the record removed and the identifier evicted.
    pub fn finish_destroy_key(
        &mut self,
        key_triple: &KeyTriple,
        key_id: [u8; 4],
        first_destroy: Result<(), Error>,
        second_destroy: Result<(), Error>,
    ) -> (r: Result<(), Error>)
        requires
            old(self).wf(),
            old(self).store().contains_key(key_triple@),
            old(self).store()[key_triple@].id == key_id@,
        ensures
            final(self).wf(),
            identifiers_unique(final(self).store()),
            first_destroy matches Err(e) ==> {
                &&& r == Err::<(), Error>(e)
                &&& final(self).store() =~= old(self).store()
                &&& final(self).ids() =~= old(self).ids()
            },
            (first_destroy is Ok && (second_destroy matches Err(e) && e != Error::NotFound))
                ==> {
                &&& r == second_destroy
                &&& final(self).store() =~= old(self).store()
                &&& final(self).ids() =~= old(self).ids()
            },
            (first_destroy is Ok && (second_destroy is Ok || second_destroy == Err::<(), Error>(
                Error::NotFound,
            ))) ==> {
                &&& r is Ok
                &&& final(self).store() =~= old(self).store().remove(key_triple@)
                &&& final(self).ids() =~= old(self).ids().remove(key_id@)
            },
    {
        if let Err(e) = first_destroy {
            return Err(e);
        }
        match second_destroy {
            Ok(()) => {},
            Err(e) => {
                if !matches!(e, Error::NotFound) {
                    return Err(e);
                }
            },
        }
        let _ = remove_key_id(key_triple, key_id, &mut self.key_info_store, &mut self.local_ids);
        proof {
            lemma_wf_after_unreserve(*old(self), *self, key_triple@, key_id@);
        }
        Ok(())
    }
}

/// Reserving a fresh identifier preserves the provider invariant: the new
/// record's identifier was not live, so it collides with no existing record.
proof fn lemma_wf_after_reserve(
    pre: Pkcs11Provider,
    post: Pkcs11Provider,
    t: KeyTripleView,
    id: Seq<u8>,
    attrs: KeyAttributes,
)
    requires
        pre.wf(),
        id.len() == 4,
        !pre.ids().contains(id),
        post.key_info_store.wf(),
        post.local_ids.wf(),
        post.store() =~= pre.store().insert(t, KeyInfoView { id, attributes: attrs }),
        post.ids() =~= pre.ids().insert(id),
    ensures
        post.wf(),
{
    assert forall|t2: KeyTripleView| #[trigger] post.store().contains_key(t2) implies {
        &&& post.store()[t2].id.len() == 4
        &&& post.ids().contains(post.store()[t2].id)
    } by {
        if t2 != t {
            assert(pre.store().contains_key(t2));
        }
    }
    assert forall|t1: KeyTripleView, t2: KeyTripleView|
        post.store().contains_key(t1) && post.store().contains_key(t2) && t1 != t2 implies
        post.store()[t1].id != post.store()[t2].id by {
        if t1 != t && t2 != t {
            assert(pre.store().contains_key(t1) && pre.store().contains_key(t2));
        } else if t1 == t {
            assert(pre.store().contains_key(t2));
            assert(pre.ids().contains(pre.store()[t2].id));
        } else {
            assert(pre.store().contains_key(t1));
            assert(pre.ids().contains(pre.store()[t1].id));
        }
    }
}

/// Removing a record together with its identifier preserves the provider
/// invariant: by uniqueness no other record held that identifier.
proof fn lemma_wf_after_unreserve(
    pre: Pkcs11Provider,
    post: Pkcs11Provider,
    t: KeyTripleView,
    id: Seq<u8>,
)
    requires
        pre.wf(),
        pre.store().contains_key(t),
        pre.store()[t].id == id,
        post.key_info_store.wf(),
        post.local_ids.wf(),
        post.store() =~= pre.store().remove(t),
        post.ids() =~= pre.ids().remove(id),
    ensures
        post.wf(),
{
    assert forall|t2: KeyTripleView| #[trigger] post.store().contains_key(t2) implies {
        &&& post.store()[t2].id.len() == 4
        &&& post.ids().contains(post.store()[t2].id)
    } by {
        assert(pre.store().contains_key(t2));
        assert(t2 != t);
        assert(pre.store()[t2].id != id);
    }
}

/// A compensating delete right after a reservation restores the provider to
/// exactly its state before the reservation.
proof fn lemma_compensation_restores(
    pre: Pkcs11Provider,
    post: Pkcs11Provider,
    t: KeyTripleView,
    id: Seq<u8>,
    attrs: KeyAttributes,
)
    requires
        pre.wf(),
        id.len() == 4,
        !pre.ids().contains(id),
        !pre.store().contains_key(t),
        post.key_info_store.wf(),
        post.local_ids.wf(),
        post.store() =~= pre.store().insert(t, KeyInfoView { id, attributes: attrs }).remove(t),
        post.ids() =~= pre.ids().insert(id).remove(id),
    ensures
        post.wf(),
        post.store() =~= pre.store(),
        post.ids() =~= pre.ids(),
{
    assert(post.store() =~= pre.store());
    assert(post.ids() =~= pre.ids());
}

/// Reservation atomicity: when a saga fails after its reservation, the
/// compensating delete leaves neither a record for the triple nor a live
/// identifier behind — store and index end exactly where they began.
/// Composing the `Ok` contract of a `prepare_*` operation with the failure
/// contract of [`Pkcs11Provider::finish_key_creation`] instantiates this.
pub proof fn lemma_reservation_atomicity(
    store: Map<KeyTripleView, KeyInfoView>,
    ids: Set<Seq<u8>>,
    t: KeyTripleView,
    rec: KeyInfoView,
)
    requires
        !store.contains_key(t),
        !ids.contains(rec.id),
    ensures
        store.insert(t, rec).remove(t) =~= store,
        ids.insert(rec.id).remove(rec.id) =~= ids,
{
}

/// Idempotent removal: removing a record and evicting an identifier a
/// second time changes nothing — the second call is a no-op, and
/// [`remove_key_id`] never fails either way.
pub proof fn lemma_removal_idempotent(
    store: Map<KeyTripleView, KeyInfoView>,
    ids: Set<Seq<u8>>,
    t: KeyTripleView,
    id: Seq<u8>,
)
    ensures
        store.remove(t).remove(t) =~= store.remove(t),
        ids.remove(id).remove(id) =~= ids.remove(id),
{
}

} // verus!
