//! Signing of requests to the Xingyi payment gateway, the counterpart of verification: the
//! lowercase hexadecimal SHA-256 of the canonical text is encrypted with the gateway's RSA
//! public key (PKCS#1 v1.5 padding) and the result Base64-encoded.
use vstd::prelude::*;
use vstd::utf8::*;

use crate::crypto::{
    base64_encoding, public_key_from_pem, rsa_public_key, standard_base64_encode, thread_rng,
    RsaKey,
};
use crate::error::SignError;
use crate::padding::pkcs1v15_ciphertext;
use crate::params::{canonical_text, Entry, Params};
use crate::pem::{normalize_public_key_pem, normalized_pem};
use crate::crypto::sha256_digest;
use crate::text::{lemma_hex_char_code, lemma_lower_hex_ascii, lemma_lower_hex_at, lower_hex};
use crate::verification::{calculate_sha256_hex, concat_params, expected_digest};

verus! {

/// What signing the parameters `s` with the public key (`n`, `e`) gives: the 64-byte
/// digest does not fit a key of fewer than 75 bytes; otherwise the signature is the Base64
/// encoding of a PKCS#1 v1.5 encryption of the digest's UTF-8 bytes under the key (the
/// padding is random).
pub open spec fn signing_result(n: Seq<u8>, e: Seq<u8>, s: Seq<Entry>, r: Result<String, SignError>) -> bool {
    if n.len() < 75 {
        r matches Err(SignError::RsaEncryptError(m)) && m@ == "message too long"@
    } else {
        r matches Ok(sig) && exists|c: Seq<u8>|
            #[trigger] base64_encoding(c) == sig@ && pkcs1v15_ciphertext(
                n,
                e,
                encode_utf8(expected_digest(s)),
                c,
            )
    }
}

/// Signs requests with the gateway's RSA public key.
pub struct Signer {
    public_key: RsaKey,
}

impl Signer {
    #[verifier::type_invariant]
    spec fn key_admitted(&self) -> bool {
        rsa_public_key(self.public_key.modulus(), self.public_key.exponent())
    }

    /// The modulus of the key, in minimal big-endian form.
    pub closed spec fn modulus(&self) -> Seq<u8> {
        self.public_key.modulus()
    }

    /// The public exponent of the key, in minimal big-endian form.
    pub closed spec fn exponent(&self) -> Seq<u8> {
        self.public_key.exponent()
    }

    /// A signer for the configured key: either a PEM document or its bare Base64 body. It
    /// holds the key that the normalized document gives.
    pub fn new(public_key_pem: &str) -> (r: Result<Signer, SignError>)
        ensures
            match public_key_from_pem(normalized_pem(public_key_pem@)) {
                Ok(key) => r matches Ok(s) && (s.modulus(), s.exponent()) == key,
                Err(m) => r matches Err(SignError::RsaPublicKeyError(e)) && e@ == m,
            },
            r matches Ok(s) ==> rsa_public_key(s.modulus(), s.exponent()),
    {
        let pem = normalize_public_key_pem(public_key_pem);
        match RsaKey::from_pem(pem.as_str()) {
            Ok(public_key) => Ok(Signer { public_key }),
            Err(m) => Err(SignError::RsaPublicKeyError(m)),
        }
    }

    /// The text that is signed: the parameters other than `sign`, joined.
    pub fn get_sign_string(params: &Params) -> (r: Result<String, SignError>)
        ensures
            r matches Ok(t) && t@ == canonical_text(params@),
    {
        concat_params(params)
    }

    /// The lowercase hexadecimal SHA-256 of the text that is signed.
    pub fn get_hash_hex(params: &Params) -> (r: Result<String, SignError>)
        ensures
            r matches Ok(h) && h@ == expected_digest(params@) && h@.len() == 64,
    {
        let t = match concat_params(params) {
            Ok(t) => t,
            Err(e) => {
                return Err(e);
            },
        };
        calculate_sha256_hex(t.as_str())
    }

    /// Signs the parameters. The digest is 64 bytes of text, so a key of fewer than 75
    /// bytes cannot encrypt it; otherwise the signature is the Base64 encoding of the
    /// digest encrypted with PKCS#1 v1.5 padding (the padding is random).
    pub fn sign(&self, params: &Params) -> (r: Result<String, SignError>)
        ensures
            signing_result(self.modulus(), self.exponent(), params@, r),
    {
        proof {
            use_type_invariant(self);
        }
        let hash_hex = match Self::get_hash_hex(params) {
            Ok(h) => h,
            Err(e) => {
                return Err(e);
            },
        };
        let bytes = hash_hex.as_str().as_bytes();
        proof {
            lemma_lower_hex_ascii(crate::crypto::sha256_digest(
                encode_utf8(canonical_text(params@)),
            ));
            is_ascii_chars_encode_utf8(hash_hex@);
            assert(bytes@.len() == 64);
        }
        let mut rng = thread_rng();
        match self.public_key.encrypt_pkcs1v15(&mut rng, bytes) {
            Ok(c) => {
                let s = standard_base64_encode(c.as_slice());
                assert(base64_encoding(c@) == s@);
                Ok(s)
            },
            Err(m) => Err(SignError::RsaEncryptError(m)),
        }
    }
}

/// What a signature carries is the digest written as text: the encrypted message has two
/// bytes per byte of the SHA-256 of the signed text, the ASCII codes of its lowercase
/// hexadecimal digits, high half first (`0`-`9` are 48-57, `a`-`f` are 97-102), not the
/// raw digest bytes.
pub proof fn lemma_signature_carries_hex_digest(
    n: Seq<u8>,
    e: Seq<u8>,
    s: Seq<Entry>,
    sig: String,
)
    requires
        signing_result(n, e, s, Ok::<String, SignError>(sig)),
    ensures
        exists|c: Seq<u8>, m: Seq<u8>|
            #![trigger pkcs1v15_ciphertext(n, e, m, c)]
            base64_encoding(c) == sig@ && pkcs1v15_ciphertext(n, e, m, c) && m.len() == 2
                * sha256_digest(encode_utf8(canonical_text(s))).len() && forall|i: int|
                0 <= i < sha256_digest(encode_utf8(canonical_text(s))).len() ==> ({
                    let b = #[trigger] sha256_digest(encode_utf8(canonical_text(s)))[i] as int;
                    &&& m[2 * i] as int == if b / 16 < 10 {
                        48 + b / 16
                    } else {
                        87 + b / 16
                    }
                    &&& m[2 * i + 1] as int == if b % 16 < 10 {
                        48 + b % 16
                    } else {
                        87 + b % 16
                    }
                }),
{
    let b = sha256_digest(encode_utf8(canonical_text(s)));
    let t = lower_hex(b);
    let m = encode_utf8(t);
    let c = choose|c: Seq<u8>|
        #[trigger] base64_encoding(c) == sig@ && pkcs1v15_ciphertext(n, e, m, c);
    lemma_lower_hex_ascii(b);
    lemma_lower_hex_at(b);
    is_ascii_chars_encode_utf8(t);
    assert forall|i: int| 0 <= i < b.len() implies ({
        let x = #[trigger] b[i] as int;
        &&& m[2 * i] as int == if x / 16 < 10 {
            48 + x / 16
        } else {
            87 + x / 16
        }
        &&& m[2 * i + 1] as int == if x % 16 < 10 {
            48 + x % 16
        } else {
            87 + x % 16
        }
    }) by {
        lemma_hex_char_code((b[i] / 16) as nat);
        lemma_hex_char_code((b[i] % 16) as nat);
        assert(m[2 * i] == t[2 * i] as u8);
        assert(m[2 * i + 1] == t[2 * i + 1] as u8);
    }
}

} // verus!
