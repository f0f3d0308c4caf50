//! Encoding and parsing of the structured binary public-key format: a
//! sequence holding two signed-magnitude big-endian integers, the modulus
//! and the public exponent.
//!
//! Values are carried in two forms. The *signed* form is the integer content
//! as it stands in the encoding: a leading zero byte marks a value whose top
//! bit would otherwise read as a sign. The *unsigned* form is the raw
//! big-endian magnitude, as the token stores it.

use vstd::prelude::*;
use crate::error::Error;

verus! {

/// The minimal length encoding for a content length below 0x10000.
pub open spec fn spec_len_encoding(n: nat) -> Seq<u8> {
    if n < 0x80 {
        seq![n as u8]
    } else if n < 0x100 {
        seq![0x81u8, n as u8]
    } else {
        seq![0x82u8, (n / 0x100) as u8, (n % 0x100) as u8]
    }
}

/// A complete integer element: tag, length, content.
pub open spec fn spec_der_integer(content: Seq<u8>) -> Seq<u8> {
    seq![0x02u8] + spec_len_encoding(content.len()) + content
}

/// A complete public-key element: a sequence of the two integers, each in
/// signed form.
pub open spec fn spec_rsa_public_key_der(modulus: Seq<u8>, public_exponent: Seq<u8>) -> Seq<u8> {
    let body = spec_der_integer(modulus) + spec_der_integer(public_exponent);
    seq![0x30u8] + spec_len_encoding(body.len()) + body
}

/// Drops leading zero bytes, keeping at least one byte of a non-empty value.
pub open spec fn spec_strip_zeros(u: Seq<u8>) -> Seq<u8>
    decreases u.len(),
{
    if u.len() > 1 && u[0] == 0 {
        spec_strip_zeros(u.skip(1))
    } else {
        u
    }
}

/// The signed form of an unsigned magnitude: a zero byte is put in front
/// when the most significant bit is set, so the value cannot read as
/// negative.
pub open spec fn spec_to_signed(u: Seq<u8>) -> Seq<u8> {
    let s = spec_strip_zeros(u);
    if s.len() > 0 && s[0] >= 0x80 {
        seq![0u8] + s
    } else {
        s
    }
}

/// The unsigned magnitude of a signed form: one leading zero sign byte is
/// dropped.
pub open spec fn spec_to_unsigned(s: Seq<u8>) -> Seq<u8> {
    if s.len() > 1 && s[0] == 0 {
        s.skip(1)
    } else if s.len() == 0 {
        seq![0u8]
    } else {
        s
    }
}

/// Whether a signed form denotes a negative value.
pub open spec fn spec_is_negative(s: Seq<u8>) -> bool {
    if s.len() > 1 && s[0] == 0 {
        false
    } else if s.len() == 0 {
        true
    } else {
        s[0] >= 0x80
    }
}

/// Parses a length field at the front of `s`: the length value and the
/// count of bytes the field took. Only minimal encodings are accepted.
pub open spec fn spec_parse_len(s: Seq<u8>) -> Option<(nat, nat)> {
    if s.len() == 0 {
        None
    } else if s[0] < 0x80 {
        Some((s[0] as nat, 1))
    } else if s[0] == 0x81 {
        if s.len() >= 2 && s[1] >= 0x80 {
            Some((s[1] as nat, 2))
        } else {
            None
        }
    } else if s[0] == 0x82 {
        if s.len() >= 3 && s[1] as nat * 0x100 + s[2] as nat >= 0x100 {
            Some((s[1] as nat * 0x100 + s[2] as nat, 3))
        } else {
            None
        }
    } else {
        None
    }
}

/// Parses an integer element at the front of `s`: its signed content and
/// the count of bytes the whole element took.
pub open spec fn spec_parse_integer(s: Seq<u8>) -> Option<(Seq<u8>, nat)> {
    if s.len() >= 1 && s[0] == 0x02 {
        match spec_parse_len(s.skip(1)) {
            Some((l, c)) => if l >= 1 && s.len() >= 1 + c + l {
                Some((s.subrange(1 + c as int, (1 + c + l) as int), (1 + c + l) as nat))
            } else {
                None
            },
            None => None,
        }
    } else {
        None
    }
}

/// Parses a complete public-key element: the signed contents of the modulus
/// and the public exponent. The element must fill `s` exactly.
pub open spec fn spec_parse_rsa_public_key(s: Seq<u8>) -> Option<(Seq<u8>, Seq<u8>)> {
    if s.len() >= 1 && s[0] == 0x30 {
        match spec_parse_len(s.skip(1)) {
            Some((l, c)) => if s.len() == 1 + c + l {
                let body = s.skip(1 + c as int);
                match spec_parse_integer(body) {
                    Some((m, cm)) => match spec_parse_integer(body.skip(cm as int)) {
                        Some((e, ce)) => if cm + ce == l {
                            Some((m, e))
                        } else {
                            None
                        },
                        None => None,
                    },
                    None => None,
                }
            } else {
                None
            },
            None => None,
        }
    } else {
        None
    }
}

/// The two signed integer contents of a parsed public key.
pub struct RsaPublicKeyParts {
    pub modulus: Vec<u8>,
    pub public_exponent: Vec<u8>,
}

/// Whether the pair of signed contents fits the length fields of the format.
pub open spec fn spec_encodable(m_signed: Seq<u8>, e_signed: Seq<u8>) -> bool {
    &&& m_signed.len() <= 0xFFFF
    &&& e_signed.len() <= 0xFFFF
    &&& spec_der_integer(m_signed).len() + spec_der_integer(e_signed).len() <= 0xFFFF
}

/// A fresh vector holding `data[start..end]`.
fn copy_range(data: &Vec<u8>, start: usize, end: usize) -> (r: Vec<u8>)
    requires
        start <= end <= data@.len(),
    ensures
        r@ == data@.subrange(start as int, end as int),
{
    let mut r: Vec<u8> = Vec::new();
    let mut i: usize = start;
    while i < end
        invariant
            start <= i <= end <= data@.len(),
            r@ == data@.subrange(start as int, i as int),
        decreases end - i,
    {
        r.push(data[i]);
        proof {
            assert(r@ =~= data@.subrange(start as int, i + 1 as int));
        }
        i += 1;
    }
    r
}

fn parse_len(data: &Vec<u8>, pos: usize) -> (r: Option<(usize, usize)>)
    requires
        pos <= data@.len(),
    ensures
        match r {
            Some((l, c)) => {
                &&& spec_parse_len(data@.skip(pos as int)) == Some((l as nat, c as nat))
                &&& l <= 0xFFFF
                &&& 1 <= c <= 3
                &&& pos + c <= data@.len()
            },
            None => spec_parse_len(data@.skip(pos as int)) is None,
        },
{
    let ghost s = data@.skip(pos as int);
    let n = data.len();
    if pos >= n {
        return None;
    }
    let b0 = data[pos];
    proof {
        assert(s[0] == data@[pos as int]);
    }
    if b0 < 0x80 {
        Some((b0 as usize, 1))
    } else if b0 == 0x81 {
        if pos + 1 < n && data[pos + 1] >= 0x80 {
            proof {
                assert(s[1] == data@[pos + 1 as int]);
            }
            Some((data[pos + 1] as usize, 2))
        } else {
            proof {
                if pos + 1 < n {
                    assert(s[1] == data@[pos + 1 as int]);
                }
            }
            None
        }
    } else if b0 == 0x82 {
        if n - pos >= 3 {
            proof {
                assert(s[1] == data@[pos + 1 as int]);
                assert(s[2] == data@[pos + 2 as int]);
            }
            let l = (data[pos + 1] as usize) * 0x100 + (data[pos + 2] as usize);
            if l >= 0x100 {
                Some((l, 3))
            } else {
                None
            }
        } else {
            None
        }
    } else {
        None
    }
}

fn parse_integer(data: &Vec<u8>, pos: usize) -> (r: Option<(Vec<u8>, usize)>)
    requires
        pos <= data@.len(),
    ensures
        match r {
            Some((content, c)) => {
                &&& spec_parse_integer(data@.skip(pos as int)) == Some((content@, c as nat))
                &&& pos + c <= data@.len()
                &&& 1 <= content@.len() <= 0xFFFF
            },
            None => spec_parse_integer(data@.skip(pos as int)) is None,
        },
{
    let ghost s = data@.skip(pos as int);
    let n = data.len();
    if pos >= n {
        return None;
    }
    proof {
        assert(s[0] == data@[pos as int]);
    }
    if data[pos] != 0x02 {
        return None;
    }
    proof {
        assert(s.skip(1) =~= data@.skip(pos + 1 as int));
    }
    match parse_len(data, pos + 1) {
        Some((l, c)) => {
            if l >= 1 && l <= n - (pos + 1 + c) {
                let start = pos + 1 + c;
                let content = copy_range(data, start, start + l);
                proof {
                    assert(content@ =~= s.subrange(1 + c as int, 1 + c + l as int));
                }
                Some((content, 1 + c + l))
            } else {
                None
            }
        },
        None => None,
    }
}

/// Parses the supplied public-key bytes into the two signed integer
/// contents, rejecting anything that is not exactly one well-formed
/// public-key element.
pub fn parse_rsa_public_key(data: &Vec<u8>) -> (r: Result<RsaPublicKeyParts, Error>)
    ensures
        match r {
            Ok(p) => {
                &&& spec_parse_rsa_public_key(data@) == Some((p.modulus@, p.public_exponent@))
                &&& 1 <= p.modulus@.len() <= 0xFFFF
                &&& 1 <= p.public_exponent@.len() <= 0xFFFF
            },
            Err(e) => {
                &&& e == Error::InvalidArgument
                &&& spec_parse_rsa_public_key(data@) is None
            },
        },
{
    let n = data.len();
    if n == 0 {
        return Err(Error::InvalidArgument);
    }
    if data[0] != 0x30 {
        return Err(Error::InvalidArgument);
    }
    proof {
        assert(data@.skip(0) =~= data@);
        assert(data@.skip(1) =~= data@.skip(0).skip(1));
    }
    match parse_len(data, 1) {
        Some((l, c)) => {
            if n != 1 + c + l {
                return Err(Error::InvalidArgument);
            }
            let body_pos = 1 + c;
            let ghost body = data@.skip(body_pos as int);
            match parse_integer(data, body_pos) {
                Some((modulus, cm)) => {
                    proof {
                        assert(body.skip(cm as int) =~= data@.skip(body_pos + cm as int));
                    }
                    match parse_integer(data, body_pos + cm) {
                        Some((public_exponent, ce)) => {
                            if cm + ce == l {
                                Ok(RsaPublicKeyParts { modulus, public_exponent })
                            } else {
                                Err(Error::InvalidArgument)
                            }
                        },
                        None => Err(Error::InvalidArgument),
                    }
                },
                None => Err(Error::InvalidArgument),
            }
        },
        None => Err(Error::InvalidArgument),
    }
}

/// Whether a signed content reads as negative; only non-negative values are
/// accepted for import.
pub fn is_negative_bytes(s: &Vec<u8>) -> (r: bool)
    ensures
        r == spec_is_negative(s@),
{
    if s.len() > 1 && s[0] == 0 {
        false
    } else if s.len() == 0 {
        true
    } else {
        s[0] >= 0x80
    }
}

/// The unsigned magnitude of a signed content: the sign byte, when present,
/// is dropped.
pub fn to_unsigned_bytes(s: &Vec<u8>) -> (r: Vec<u8>)
    ensures
        r@ == spec_to_unsigned(s@),
{
    if s.len() > 1 && s[0] == 0 {
        let r = copy_range(s, 1, s.len());
        proof {
            assert(r@ =~= s@.skip(1));
        }
        r
    } else if s.len() == 0 {
        let mut r: Vec<u8> = Vec::new();
        r.push(0);
        proof {
            assert(r@ =~= seq![0u8]);
        }
        r
    } else {
        copy_range(s, 0, s.len())
    }
}

/// The signed form of an unsigned magnitude.
fn to_signed_bytes(u: &Vec<u8>) -> (r: Vec<u8>)
    ensures
        r@ == spec_to_signed(u@),
{
    let n = u.len();
    let mut start: usize = 0;
    proof {
        assert(u@.skip(0) =~= u@);
    }
    while start + 1 < n && u[start] == 0
        invariant
            n == u@.len(),
            start < n || (start == 0 && n == 0),
            spec_strip_zeros(u@.skip(start as int)) == spec_strip_zeros(u@),
        decreases n - start,
    {
        proof {
            assert(u@.skip(start as int)[0] == u@[start as int]);
            assert(u@.skip(start as int).skip(1) =~= u@.skip(start + 1 as int));
        }
        start += 1;
    }
    proof {
        let t = u@.skip(start as int);
        if t.len() > 1 && t[0] == 0 {
            assert(t[0] == u@[start as int]);
            assert(false);
        }
        assert(spec_strip_zeros(u@) == t);
    }
    if n == 0 {
        let r: Vec<u8> = Vec::new();
        proof {
            assert(u@.skip(0) =~= u@);
        }
        r
    } else if u[start] >= 0x80 {
        let mut r: Vec<u8> = Vec::new();
        r.push(0);
        let tail = copy_range(u, start, n);
        let ghost tail_snap = tail@;
        let mut tail = tail;
        r.append(&mut tail);
        proof {
            assert(u@.skip(start as int)[0] == u@[start as int]);
            assert(r@ =~= seq![0u8] + u@.skip(start as int));
        }
        r
    } else {
        let r = copy_range(u, start, n);
        proof {
            assert(r@ =~= u@.skip(start as int));
            if u@.skip(start as int).len() > 0 {
                assert(u@.skip(start as int)[0] == u@[start as int]);
            }
        }
        r
    }
}

fn push_len(out: &mut Vec<u8>, n: usize)
    requires
        n <= 0xFFFF,
    ensures
        final(out)@ == old(out)@ + spec_len_encoding(n as nat),
{
    if n < 0x80 {
        out.push(n as u8);
        proof {
            assert(final(out)@ =~= old(out)@ + spec_len_encoding(n as nat));
        }
    } else if n < 0x100 {
        out.push(0x81);
        out.push(n as u8);
        proof {
            assert(final(out)@ =~= old(out)@ + spec_len_encoding(n as nat));
        }
    } else {
        out.push(0x82);
        out.push((n / 0x100) as u8);
        out.push((n % 0x100) as u8);
        proof {
            assert(final(out)@ =~= old(out)@ + spec_len_encoding(n as nat));
        }
    }
}

fn push_der_integer(out: &mut Vec<u8>, content: &Vec<u8>)
    requires
        content@.len() <= 0xFFFF,
    ensures
        final(out)@ == old(out)@ + spec_der_integer(content@),
{
    out.push(0x02);
    push_len(out, content.len());
    let mut rest = copy_range(content, 0, content.len());
    proof {
        assert(rest@ =~= content@);
    }
    out.append(&mut rest);
    proof {
        assert(final(out)@ =~= old(out)@ + spec_der_integer(content@));
    }
}

/// Re-encodes two token-returned unsigned magnitudes as a public-key
/// element, adding a leading zero to either value whose most significant
/// bit is set. Failure to fit the format's length fields is an unexpected
/// token value, reported as a communication failure.
pub fn from_token_attributes(modulus: &Vec<u8>, public_exponent: &Vec<u8>) -> (r: Result<
    Vec<u8>,
    Error,
>)
    ensures
        match r {
            Ok(v) => {
                &&& spec_encodable(spec_to_signed(modulus@), spec_to_signed(public_exponent@))
                &&& v@ == spec_rsa_public_key_der(
                    spec_to_signed(modulus@),
                    spec_to_signed(public_exponent@),
                )
            },
            Err(e) => {
                &&& e == Error::CommunicationFailure
                &&& !spec_encodable(spec_to_signed(modulus@), spec_to_signed(public_exponent@))
            },
        },
{
    let ms = to_signed_bytes(modulus);
    let es = to_signed_bytes(public_exponent);
    if ms.len() > 0xFFFF || es.len() > 0xFFFF {
        return Err(Error::CommunicationFailure);
    }
    let mut body: Vec<u8> = Vec::new();
    push_der_integer(&mut body, &ms);
    push_der_integer(&mut body, &es);
    if body.len() > 0xFFFF {
        return Err(Error::CommunicationFailure);
    }
    let mut out: Vec<u8> = Vec::new();
    out.push(0x30);
    push_len(&mut out, body.len());
    let ghost body_snap = body@;
    out.append(&mut body);
    proof {
        assert(out@ =~= spec_rsa_public_key_der(ms@, es@));
    }
    Ok(out)
}

proof fn lemma_parse_len_prefix(n: nat, rest: Seq<u8>)
    requires
        n <= 0xFFFF,
    ensures
        spec_parse_len(spec_len_encoding(n) + rest) == Some((n, spec_len_encoding(n).len())),
{
    let s = spec_len_encoding(n) + rest;
    if n < 0x80 {
        assert(s[0] == n as u8);
    } else if n < 0x100 {
        assert(s[0] == 0x81);
        assert(s[1] == n as u8);
    } else {
        assert(s[0] == 0x82);
        assert(s[1] == (n / 0x100) as u8);
        assert(s[2] == (n % 0x100) as u8);
        assert(n / 0x100 <= 0xFF && n % 0x100 <= 0xFF);
        assert(n == 0x100 * (n / 0x100) + n % 0x100) by (nonlinear_arith);
    }
}

proof fn lemma_parse_integer_prefix(c: Seq<u8>, rest: Seq<u8>)
    requires
        1 <= c.len() <= 0xFFFF,
    ensures
        spec_parse_integer(spec_der_integer(c) + rest) == Some(
            (c, (1 + spec_len_encoding(c.len()).len() + c.len()) as nat),
        ),
{
    let s = spec_der_integer(c) + rest;
    let le = spec_len_encoding(c.len());
    assert(s[0] == 0x02);
    assert(s.skip(1) =~= le + (c + rest));
    lemma_parse_len_prefix(c.len(), c + rest);
    let ll = le.len() as int;
    assert(s.subrange(1 + ll, 1 + ll + c.len() as int) =~= c);
}

/// The signed form of a non-empty magnitude without leading zeros is its own
/// minimal form: stripping is a no-op, and the sign byte is recovered by
/// [`spec_to_unsigned`].
proof fn lemma_signed_unsigned_inverse(u: Seq<u8>)
    requires
        u.len() >= 1,
        u[0] != 0,
    ensures
        spec_to_signed(u).len() >= 1,
        spec_to_unsigned(spec_to_signed(u)) == u,
        !spec_is_negative(spec_to_signed(u)),
{
    assert(spec_strip_zeros(u) == u);
    if u[0] >= 0x80 {
        assert((seq![0u8] + u).skip(1) =~= u);
    }
}

/// Re-encoding two well-sized signed contents yields an element that parses
/// back to exactly those contents.
proof fn lemma_encode_parses_back(ms: Seq<u8>, es: Seq<u8>)
    requires
        1 <= ms.len() <= 0xFFFF,
        1 <= es.len() <= 0xFFFF,
        spec_der_integer(ms).len() + spec_der_integer(es).len() <= 0xFFFF,
    ensures
        spec_parse_rsa_public_key(spec_rsa_public_key_der(ms, es)) == Some((ms, es)),
{
    let im = spec_der_integer(ms);
    let ie = spec_der_integer(es);
    let body = im + ie;
    let s = spec_rsa_public_key_der(ms, es);
    let bl = body.len();
    assert(s[0] == 0x30);
    assert(s.skip(1) =~= spec_len_encoding(bl) + body);
    lemma_parse_len_prefix(bl, body);
    let c = spec_len_encoding(bl).len() as int;
    assert(s.len() == 1 + c + bl);
    assert(s.skip(1 + c) =~= body);
    assert(body =~= im + ie);
    lemma_parse_integer_prefix(ms, ie);
    let cm = spec_parse_integer(body)->Some_0.1;
    assert(cm == 1 + spec_len_encoding(ms.len()).len() + ms.len());
    assert(body.skip(cm as int) =~= ie + Seq::<u8>::empty());
    assert(ie + Seq::<u8>::empty() =~= ie);
    lemma_parse_integer_prefix(es, Seq::<u8>::empty());
    assert(ie =~= spec_der_integer(es) + Seq::<u8>::empty());
    let ce = spec_parse_integer(body.skip(cm as int))->Some_0.1;
    assert(ce == 1 + spec_len_encoding(es.len()).len() + es.len());
    assert(cm + ce == bl);
}

/// Exporting what was imported gives back the same key bytes, for a
/// magnitude in minimal form: parsing the re-encoded element recovers
/// exactly the signed forms that re-encoding was given, and their unsigned
/// magnitudes are the original ones.
pub proof fn lemma_export_import_round_trip(m: Seq<u8>, e: Seq<u8>)
    requires
        m.len() >= 1,
        m[0] != 0,
        e.len() >= 1,
        e[0] != 0,
        spec_encodable(spec_to_signed(m), spec_to_signed(e)),
    ensures
        spec_parse_rsa_public_key(spec_rsa_public_key_der(spec_to_signed(m), spec_to_signed(e)))
            == Some((spec_to_signed(m), spec_to_signed(e))),
        spec_to_unsigned(spec_to_signed(m)) == m,
        spec_to_unsigned(spec_to_signed(e)) == e,
        !spec_is_negative(spec_to_signed(m)),
        !spec_is_negative(spec_to_signed(e)),
{
    lemma_signed_unsigned_inverse(m);
    lemma_signed_unsigned_inverse(e);
    lemma_encode_parses_back(spec_to_signed(m), spec_to_signed(e));
}

/// The numeric value a big-endian magnitude denotes.
pub open spec fn spec_be_nat(s: Seq<u8>) -> nat
    decreases s.len(),
{
    if s.len() == 0 {
        0
    } else {
        spec_be_nat(s.drop_last()) * 256 + s.last() as nat
    }
}

proof fn lemma_be_nat_prepend_zero(s: Seq<u8>)
    ensures
        spec_be_nat(seq![0u8] + s) == spec_be_nat(s),
    decreases s.len(),
{
    if s.len() == 0 {
        assert((seq![0u8] + s) =~= seq![0u8]);
        assert(seq![0u8].drop_last() =~= Seq::<u8>::empty());
        assert(spec_be_nat(Seq::<u8>::empty()) == 0);
        assert(seq![0u8].last() == 0u8);
        assert(spec_be_nat(seq![0u8]) == spec_be_nat(seq![0u8].drop_last()) * 256 + seq![0u8].last() as nat);
    } else {
        assert((seq![0u8] + s).drop_last() =~= seq![0u8] + s.drop_last());
        assert((seq![0u8] + s).last() == s.last());
        lemma_be_nat_prepend_zero(s.drop_last());
        assert(spec_be_nat(seq![0u8] + s) == spec_be_nat((seq![0u8] + s).drop_last()) * 256 + (
        seq![0u8] + s).last() as nat);
        assert(spec_be_nat(s) == spec_be_nat(s.drop_last()) * 256 + s.last() as nat);
    }
}

proof fn lemma_strip_zeros_value(u: Seq<u8>)
    ensures
        spec_be_nat(spec_strip_zeros(u)) == spec_be_nat(u),
        u.len() > 0 ==> spec_strip_zeros(u).len() > 0,
    decreases u.len(),
{
    if u.len() > 1 && u[0] == 0 {
        assert(u =~= seq![0u8] + u.skip(1));
        lemma_be_nat_prepend_zero(u.skip(1));
        lemma_strip_zeros_value(u.skip(1));
    }
}

/// Taking the signed form keeps the numeric value: stripping leading zeros
/// and adding a sign-padding zero both leave the magnitude unchanged.
proof fn lemma_to_signed_value(u: Seq<u8>)
    ensures
        spec_be_nat(spec_to_signed(u)) == spec_be_nat(u),
        u.len() > 0 ==> spec_to_signed(u).len() > 0,
        u.len() > 0 ==> !spec_is_negative(spec_to_signed(u)),
{
    lemma_strip_zeros_value(u);
    let s = spec_strip_zeros(u);
    if s.len() > 0 && s[0] >= 0x80 {
        lemma_be_nat_prepend_zero(s);
    }
}

/// Taking the unsigned magnitude keeps the numeric value: only a leading
/// zero sign byte is dropped.
proof fn lemma_to_unsigned_value(s: Seq<u8>)
    ensures
        spec_be_nat(spec_to_unsigned(s)) == spec_be_nat(s),
        spec_to_unsigned(s).len() > 0,
{
    if s.len() > 1 && s[0] == 0 {
        assert(s =~= seq![0u8] + s.skip(1));
        lemma_be_nat_prepend_zero(s.skip(1));
    } else if s.len() == 0 {
        assert(seq![0u8].drop_last() =~= Seq::<u8>::empty());
        assert(spec_be_nat(Seq::<u8>::empty()) == 0);
        assert(seq![0u8].last() == 0u8);
        assert(spec_be_nat(seq![0u8]) == spec_be_nat(seq![0u8].drop_last()) * 256 + seq![0u8].last() as nat);
    }
}

/// Export-after-import round trip in general: for any signed contents an
/// accepted import yields — non-empty, non-negative, as the parser's
/// contract guarantees — re-encoding their unsigned magnitudes gives an
/// element that parses back to non-negative values numerically equal to the
/// originals. The byte encodings can differ only in sign-padding zeros.
///
/// The one hypothesis beyond what the parser gives is that the re-signed
/// contents fit the encoder's length fields, exactly the condition under
/// which [`from_token_attributes`] succeeds.
pub proof fn lemma_import_export_numeric_round_trip(ms: Seq<u8>, es: Seq<u8>)
    requires
        ms.len() >= 1,
        es.len() >= 1,
        !spec_is_negative(ms),
        !spec_is_negative(es),
        spec_encodable(
            spec_to_signed(spec_to_unsigned(ms)),
            spec_to_signed(spec_to_unsigned(es)),
        ),
    ensures
        ({
            let k = spec_rsa_public_key_der(
                spec_to_signed(spec_to_unsigned(ms)),
                spec_to_signed(spec_to_unsigned(es)),
            );
            let parsed = spec_parse_rsa_public_key(k);
            &&& parsed is Some
            &&& spec_be_nat(parsed->Some_0.0) == spec_be_nat(ms)
            &&& spec_be_nat(parsed->Some_0.1) == spec_be_nat(es)
            &&& !spec_is_negative(parsed->Some_0.0)
            &&& !spec_is_negative(parsed->Some_0.1)
        }),
{
    let mu = spec_to_unsigned(ms);
    let eu = spec_to_unsigned(es);
    lemma_to_unsigned_value(ms);
    lemma_to_unsigned_value(es);
    lemma_to_signed_value(mu);
    lemma_to_signed_value(eu);
    lemma_encode_parses_back(spec_to_signed(mu), spec_to_signed(eu));
}

} // verus!
