//! Verification of the signatures that the Xingyi payment gateway puts on its notices.
//!
//! The signature covers every parameter but `sign`, in ascending name order, written as
//! `name=value` and joined by `&`; the lowercase hexadecimal SHA-256 of that text is what
//! the gateway's public key must give back from the Base64-decoded signature: raised to
//! the public exponent modulo the modulus, the signature is a PKCS#1 v1.5 block of type 1
//! that carries the digest.
//!
//! The gateway's algorithm says only that the public key "decrypts" the signature, without
//! naming a padding. Taking off type-1 padding (`00 01 FF..FF 00`) is this library's
//! choice: it is the block that an RSA signature made with the private key carries, and
//! the only one that the public key can give back. Random-padded encryption with the
//! public key (type 2, what `Signer` makes) cannot be undone without the private key.
use vstd::prelude::*;
use vstd::utf8::*;

use vstd::arithmetic::power::pow;

use crate::crypto::{
    public_key_from_pem, rsa_public_key, sha256, sha256_digest, standard_base64_decode,
    base64_decoding, utf8_error_text, utf8_string, RsaKey,
};
use crate::error::{concat_text, owned, SignError};
use crate::octets::{be_bytes, be_less, be_value, left_pad, lemma_be_bytes_of_value};
use crate::padding::{ff_bytes, lemma_type1_message_of_block, strip_type1, type1_message};
use crate::params::{
    canonical_text, drop_key, lemma_canonical_text_ignores_sign, lemma_drop_key_push, lookup,
    joined, sign_key, Entry, Params,
};
use crate::pem::{normalize_public_key_pem, normalized_pem};
use crate::text::{encode_lower_hex, lower_hex, push_char};
use crate::order::{key_order, KeyOrder};

verus! {

/// The lowercase hexadecimal SHA-256 of the UTF-8 bytes of a text.
pub open spec fn digest_text(t: Seq<char>) -> Seq<char> {
    lower_hex(sha256_digest(encode_utf8(t)))
}

/// The digest that a valid signature on these parameters gives back.
pub open spec fn expected_digest(s: Seq<Entry>) -> Seq<char> {
    digest_text(canonical_text(s))
}

/// The prefix of the message when the recovered bytes are not UTF-8.
pub open spec fn not_utf8_prefix() -> Seq<char> {
    "解密结果不是有效UTF8字符串: "@
}

/// What the bytes recovered by the RSA step read as: their text when they are UTF-8, or
/// the error that says they are not.
pub open spec fn recovered_outcome(c: Seq<u8>, r: Result<String, SignError>) -> bool {
    if valid_utf8(c) {
        r matches Ok(t) && t@ == decode_utf8(c)
    } else {
        r matches Err(SignError::RsaDecryptError(m)) && m@ == not_utf8_prefix() + utf8_error_text(c)
    }
}

/// Joins the parameters as `name=value` pairs with `&`, in their (ascending name) order,
/// leaving out `sign`.
pub fn concat_params(params: &Params) -> (r: Result<String, SignError>)
    ensures
        r matches Ok(t) && t@ == canonical_text(params@),
{
    let n = params.len();
    let mut r = String::new();
    let mut first = true;
    let mut i: usize = 0;
    assert(params@.take(0) =~= Seq::<Entry>::empty());
    while i < n
        invariant
            n == params@.len(),
            i <= n,
            r@ == joined(drop_key(params@.take(i as int), sign_key())),
            first <==> drop_key(params@.take(i as int), sign_key()).len() == 0,
        decreases n - i,
    {
        let (key, value) = params.entry(i);
        let ghost e = params@[i as int];
        let ghost d = drop_key(params@.take(i as int), sign_key());
        proof {
            assert(params@.take(i + 1) =~= params@.take(i as int).push(e));
            lemma_drop_key_push(params@.take(i as int), e, sign_key());
        }
        match key_order(key.as_str(), "sign") {
            KeyOrder::Same => {
                assert(d + Seq::<Entry>::empty() =~= d);
            },
            _ => {
                if !first {
                    push_char(&mut r, '&');
                }
                r.append(key.as_str());
                push_char(&mut r, '=');
                r.append(value.as_str());
                proof {
                    let d2 = d + seq![e];
                    assert(d2.drop_last() =~= d);
                    assert(d2.last() == e);
                    if d.len() == 0 {
                        assert(d2 =~= seq![e]);
                    }
                }
                first = false;
            },
        }
        i = i + 1;
    }
    assert(params@.take(n as int) =~= params@);
    Ok(r)
}

/// The lowercase hexadecimal SHA-256 of the UTF-8 bytes of `input`.
pub fn calculate_sha256_hex(input: &str) -> (r: Result<String, SignError>)
    ensures
        r matches Ok(h) && h@ == digest_text(input@) && h@.len() == 64,
{
    let digest = sha256(input.as_bytes());
    proof {
        crate::text::lemma_lower_hex_ascii(digest@);
    }
    Ok(encode_lower_hex(digest.as_slice()))
}

/// Decodes a standard Base64 text; a failure is a `Base64DecodeError` with the decoder's
/// message.
pub fn base64_decode(encoded: &str) -> (r: Result<Vec<u8>, SignError>)
    ensures
        match base64_decoding(encoded@) {
            Ok(d) => r matches Ok(v) && v@ == d,
            Err(m) => r matches Err(SignError::Base64DecodeError(e)) && e@ == m,
        },
{
    match standard_base64_decode(encoded) {
        Ok(v) => Ok(v),
        Err(m) => Err(SignError::Base64DecodeError(m)),
    }
}

/// Reads the bytes recovered by the RSA step as text.
pub fn recovered_text(recovered: Vec<u8>) -> (r: Result<String, SignError>)
    ensures
        recovered_outcome(recovered@, r),
{
    match utf8_string(recovered) {
        Ok(s) => Ok(s),
        Err(m) => Err(SignError::RsaDecryptError(concat_text("解密结果不是有效UTF8字符串: ", m.as_str()))),
    }
}

/// The block that the public key (`n`, `e`) gives from the signature `d`: the value of
/// `d` raised to `e` modulo `n`, written in as many bytes as the modulus.
pub open spec fn public_block(n: Seq<u8>, e: Seq<u8>, d: Seq<u8>) -> Seq<u8> {
    be_bytes((pow(be_value(d) as int, be_value(e)) % (be_value(n) as int)) as nat, n.len())
}

/// What the public key (`n`, `e`) recovers from the signature `d`: the message of the
/// type-1 block that it gives. `None` when `d` is not as long as the modulus, is not below
/// it, or gives a block that is not padded as type 1.
pub open spec fn recovered_message(n: Seq<u8>, e: Seq<u8>, d: Seq<u8>) -> Option<Seq<u8>> {
    if d.len() == n.len() && be_value(d) < be_value(n) {
        type1_message(public_block(n, e, d))
    } else {
        None
    }
}

/// The message of a failed recovery.
pub open spec fn decryption_error() -> Seq<char> {
    "decryption error"@
}

/// The RSA step of verification: the public key applied to the decoded signature, the
/// PKCS#1 v1.5 padding taken off, and what is left read as text.
pub fn rsa_decrypt_to_string(public_key: &RsaKey, data: &[u8]) -> (r: Result<String, SignError>)
    ensures
        match recovered_message(public_key.modulus(), public_key.exponent(), data@) {
            None => r matches Err(SignError::RsaDecryptError(m)) && m@ == decryption_error(),
            Some(m) => recovered_outcome(m, r),
        },
{
    let k = public_key.modulus_bytes().len();
    if data.len() != k || !be_less(data, public_key.modulus_bytes().as_slice()) {
        return Err(SignError::RsaDecryptError(owned("decryption error")));
    }
    let raw = public_key.apply_public(data);
    let block = left_pad(&raw, k);
    proof {
        lemma_be_bytes_of_value(block@);
    }
    assert(block@ == public_block(public_key.modulus(), public_key.exponent(), data@));
    match strip_type1(block.as_slice()) {
        Some(m) => recovered_text(m),
        None => Err(SignError::RsaDecryptError(owned("decryption error"))),
    }
}

/// Verifies the signatures of the gateway with its RSA public key.
pub struct Verifier {
    public_key: RsaKey,
}

impl Verifier {
    #[verifier::type_invariant]
    spec fn key_admitted(&self) -> bool {
        rsa_public_key(self.public_key.modulus(), self.public_key.exponent())
    }

    /// The modulus of the key, in minimal big-endian form.
    pub closed spec fn modulus(&self) -> Seq<u8> {
        self.public_key.modulus()
    }

    /// The public exponent of the key, in minimal big-endian form.
    pub closed spec fn exponent(&self) -> Seq<u8> {
        self.public_key.exponent()
    }

    /// A verifier for the configured key: either a PEM document or its bare Base64 body.
    /// It holds the key that the normalized document gives.
    pub fn new(public_key_pem: &str) -> (r: Result<Verifier, SignError>)
        ensures
            match public_key_from_pem(normalized_pem(public_key_pem@)) {
                Ok(key) => r matches Ok(v) && (v.modulus(), v.exponent()) == key,
                Err(m) => r matches Err(SignError::RsaPublicKeyError(e)) && e@ == m,
            },
            r matches Ok(v) ==> rsa_public_key(v.modulus(), v.exponent()),
    {
        let pem = normalize_public_key_pem(public_key_pem);
        match RsaKey::from_pem(pem.as_str()) {
            Ok(public_key) => Ok(Verifier { public_key }),
            Err(m) => Err(SignError::RsaPublicKeyError(m)),
        }
    }

    /// The text that the signature covers: the parameters other than `sign`, joined.
    pub fn get_verify_string(params: &Params) -> (r: Result<String, SignError>)
        ensures
            r matches Ok(t) && t@ == canonical_text(params@),
    {
        let unsigned = params.without("sign");
        proof {
            lemma_canonical_text_ignores_sign(params@, Seq::empty());
        }
        concat_params(&unsigned)
    }

    /// Checks the `sign` parameter against the others.
    ///
    /// A missing or empty `sign`, a `sign` that is not Base64, a signature from which the
    /// public key recovers no padded message, and a message that is not UTF-8 are errors.
    /// Otherwise the result says whether the message is the lowercase hexadecimal SHA-256
    /// of the other parameters joined.
    pub fn verify(&self, params: &Params) -> (r: Result<bool, SignError>)
        ensures
            verification_result(self.modulus(), self.exponent(), params@, r),
    {
        let sign = match params.get("sign") {
            Some(s) => s,
            None => {
                return Err(SignError::missing_param("sign"));
            },
        };
        if sign.as_str().is_empty() {
            return Err(SignError::missing_param("sign"));
        }
        let unsigned = params.without("sign");
        proof {
            lemma_canonical_text_ignores_sign(params@, Seq::empty());
        }
        let concatenated = match concat_params(&unsigned) {
            Ok(t) => t,
            Err(e) => {
                return Err(e);
            },
        };
        let calculated = match calculate_sha256_hex(concatenated.as_str()) {
            Ok(h) => h,
            Err(e) => {
                return Err(e);
            },
        };
        let encrypted = match base64_decode(sign.as_str()) {
            Ok(v) => v,
            Err(e) => {
                return Err(e);
            },
        };
        let decrypted = match rsa_decrypt_to_string(&self.public_key, encrypted.as_slice()) {
            Ok(t) => t,
            Err(e) => {
                return Err(e);
            },
        };
        Ok(calculated == decrypted)
    }
}

/// What verification with the public key (`n`, `e`) gives for these parameters: an error
/// for a missing or empty `sign`, for a `sign` that is not Base64, for a signature from
/// which the key recovers no message, and for a message that is not UTF-8; otherwise
/// whether the message reads as the expected digest.
pub open spec fn verification_result(
    n: Seq<u8>,
    e: Seq<u8>,
    s: Seq<Entry>,
    r: Result<bool, SignError>,
) -> bool {
    match lookup(s, sign_key()) {
        None => r matches Err(SignError::MissingParameter(m)) && m@ == sign_key(),
        Some(sig) => if sig.len() == 0 {
            r matches Err(SignError::MissingParameter(m)) && m@ == sign_key()
        } else {
            match base64_decoding(sig) {
                Err(m) => r matches Err(SignError::Base64DecodeError(e)) && e@ == m,
                Ok(d) => match recovered_message(n, e, d) {
                    None => r matches Err(SignError::RsaDecryptError(m)) && m@ == decryption_error(),
                    Some(m) => verify_outcome(s, m, r),
                },
            }
        },
    }
}

/// The outcome of verification for the message `c` recovered from the signature: when it
/// is UTF-8, whether its text is the expected digest; otherwise the error that says it is
/// not UTF-8.
pub open spec fn verify_outcome(s: Seq<Entry>, c: Seq<u8>, r: Result<bool, SignError>) -> bool {
    if valid_utf8(c) {
        r == Ok::<bool, SignError>(decode_utf8(c) == expected_digest(s))
    } else {
        r matches Err(SignError::RsaDecryptError(m)) && m@ == not_utf8_prefix() + utf8_error_text(c)
    }
}

/// A signature that verifies for one set of parameters verifies, for any other set that
/// carries the same `sign`, exactly when the two sets have the same digest: a notice
/// altered after signing is reported invalid.
pub proof fn lemma_altered_notice_fails(
    n: Seq<u8>,
    e: Seq<u8>,
    signed: Seq<Entry>,
    altered: Seq<Entry>,
    r: Result<bool, SignError>,
)
    requires
        verification_result(n, e, signed, Ok::<bool, SignError>(true)),
        verification_result(n, e, altered, r),
        lookup(signed, sign_key()) == lookup(altered, sign_key()),
    ensures
        r == Ok::<bool, SignError>(expected_digest(altered) == expected_digest(signed)),
{
}

/// A signature from which the key recovers the UTF-8 bytes of the parameters' digest is
/// reported valid.
pub proof fn lemma_genuine_signature_verifies(
    n: Seq<u8>,
    e: Seq<u8>,
    s: Seq<Entry>,
    sig: Seq<char>,
    d: Seq<u8>,
    r: Result<bool, SignError>,
)
    requires
        lookup(s, sign_key()) == Some(sig),
        sig.len() > 0,
        base64_decoding(sig) == Ok::<Seq<u8>, Seq<char>>(d),
        recovered_message(n, e, d) == Some(encode_utf8(expected_digest(s))),
        verification_result(n, e, s, r),
    ensures
        r == Ok::<bool, SignError>(true),
{
    encode_utf8_valid_utf8(expected_digest(s));
    encode_utf8_decode_utf8(expected_digest(s));
}

/// For every admitted key, whatever its length, a signature as long as the modulus and
/// below it whose public block is a type-1 block gives back the message that block
/// carries.
pub proof fn lemma_type1_block_recovers(
    n: Seq<u8>,
    e: Seq<u8>,
    d: Seq<u8>,
    p: nat,
    m: Seq<u8>,
)
    requires
        d.len() == n.len(),
        be_value(d) < be_value(n),
        p >= 8,
        public_block(n, e, d) == seq![0u8, 1u8] + ff_bytes(p) + seq![0u8] + m,
    ensures
        recovered_message(n, e, d) == Some(m),
{
    lemma_type1_message_of_block(p, m);
}

/// A genuine notice verifies, whatever the length of the key: when the public key turns the
/// decoded `sign` into a type-1 block that carries the lowercase hexadecimal SHA-256 of the
/// joined parameters, the result is `Ok(true)`.
pub proof fn lemma_genuine_notice_verifies(
    n: Seq<u8>,
    e: Seq<u8>,
    s: Seq<Entry>,
    sig: Seq<char>,
    d: Seq<u8>,
    p: nat,
    r: Result<bool, SignError>,
)
    requires
        lookup(s, sign_key()) == Some(sig),
        sig.len() > 0,
        base64_decoding(sig) == Ok::<Seq<u8>, Seq<char>>(d),
        d.len() == n.len(),
        be_value(d) < be_value(n),
        p >= 8,
        public_block(n, e, d) == seq![0u8, 1u8] + ff_bytes(p) + seq![0u8] + encode_utf8(
            lower_hex(sha256_digest(encode_utf8(canonical_text(s)))),
        ),
        verification_result(n, e, s, r),
    ensures
        r == Ok::<bool, SignError>(true),
{
    let t = lower_hex(sha256_digest(encode_utf8(canonical_text(s))));
    lemma_type1_message_of_block(p, encode_utf8(t));
    encode_utf8_valid_utf8(t);
    encode_utf8_decode_utf8(t);
}

} // verus!
