//! The cryptographic and encoding primitives that come from outside crates: SHA-256,
//! Base64, RSA with PKCS#1 v1.5 padding, and UTF-8 decoding.
use vstd::prelude::*;
use vstd::utf8::*;
use vstd::arithmetic::power::pow;

use base64::engine::general_purpose::STANDARD;
use base64::Engine;
use rand::rngs::ThreadRng;
use rsa::pkcs8::DecodePublicKey;
use rsa::traits::PublicKeyParts;
use rsa::{BigUint, Pkcs1v15Encrypt, RsaPublicKey};
use sha2::{Digest, Sha256};

use crate::octets::be_value;
use crate::padding::pkcs1v15_ciphertext;

verus! {

#[verifier::external_type_specification]
#[verifier::external_body]
pub struct ExRsaPublicKey(RsaPublicKey);

#[verifier::external_type_specification]
#[verifier::external_body]
pub struct ExThreadRng(ThreadRng);

/// The SHA-256 digest of a byte string.
pub uninterp spec fn sha256_digest(data: Seq<u8>) -> Seq<u8>;

/// What the standard Base64 alphabet (with padding) decodes a text to: the bytes, or the
/// text of the decoding error.
pub uninterp spec fn base64_decoding(text: Seq<char>) -> Result<Seq<u8>, Seq<char>>;

/// The standard Base64 encoding (with padding) of a byte string.
pub uninterp spec fn base64_encoding(data: Seq<u8>) -> Seq<char>;

/// What reading an RSA public key from a PEM document (SubjectPublicKeyInfo) gives: the
/// key's modulus and public exponent, each in minimal big-endian form, or the text of the
/// parse error.
pub uninterp spec fn public_key_from_pem(pem: Seq<char>) -> Result<(Seq<u8>, Seq<u8>), Seq<char>>;

/// What `RsaPublicKey::new` admits of a modulus `n` and an exponent `e` (minimal
/// big-endian bytes): at most 4096 bits, an odd modulus, and `2 <= e < n`.
pub open spec fn rsa_public_key(n: Seq<u8>, e: Seq<u8>) -> bool {
    &&& 1 <= n.len() <= 512
    &&& n[0] != 0u8
    &&& be_value(n) % 2 == 1
    &&& 2 <= be_value(e) < be_value(n)
}

/// The text of the error that UTF-8 decoding reports for an invalid byte string.
pub uninterp spec fn utf8_error_text(bytes: Seq<u8>) -> Seq<char>;

/// SHA-256 of `data` (`sha2::Sha256::digest`); the digest is 32 bytes long, as the
/// algorithm's output size fixes.
#[verifier::external_body]
pub fn sha256(data: &[u8]) -> (r: Vec<u8>)
    ensures
        r@ == sha256_digest(data@),
        r@.len() == 32,
{
    Sha256::digest(data).to_vec()
}

/// Decodes standard Base64 (`base64::engine::general_purpose::STANDARD.decode`); an error
/// is reported by its text.
#[verifier::external_body]
pub fn standard_base64_decode(text: &str) -> (r: Result<Vec<u8>, String>)
    ensures
        match r {
            Ok(v) => base64_decoding(text@) == Ok::<Seq<u8>, Seq<char>>(v@),
            Err(m) => base64_decoding(text@) == Err::<Seq<u8>, Seq<char>>(m@),
        },
{
    STANDARD.decode(text).map_err(|e| e.to_string())
}

/// Encodes bytes as standard Base64 (`STANDARD.encode`), which panics only when the length
/// of the encoding does not fit in `usize`. Decoding the result with the same engine gives
/// the bytes back.
#[verifier::external_body]
pub fn standard_base64_encode(data: &[u8]) -> (r: String)
    requires
        4 * ((data@.len() + 2) / 3) <= usize::MAX,
    ensures
        r@ == base64_encoding(data@),
        base64_decoding(r@) is Ok && base64_decoding(r@)->Ok_0 == data@,
{
    STANDARD.encode(data)
}

/// Decodes UTF-8 (`String::from_utf8`): it succeeds exactly on valid UTF-8, with the
/// characters that the bytes encode; an error is reported by its text.
#[verifier::external_body]
pub fn utf8_string(bytes: Vec<u8>) -> (r: Result<String, String>)
    ensures
        r is Ok <==> valid_utf8(bytes@),
        r matches Ok(s) ==> s@ == decode_utf8(bytes@),
        r matches Err(m) ==> m@ == utf8_error_text(bytes@),
{
    String::from_utf8(bytes).map_err(|e| e.to_string())
}

/// Decodes UTF-8 in place (`std::str::from_utf8`): it succeeds exactly on valid UTF-8,
/// with the characters that the bytes encode.
#[verifier::external_body]
pub fn utf8_str(bytes: &[u8]) -> (r: Option<&str>)
    ensures
        r is Some <==> valid_utf8(bytes@),
        r matches Some(s) ==> s@ == decode_utf8(bytes@),
{
    std::str::from_utf8(bytes).ok()
}

/// A fresh handle on the thread-local random number generator (`rand::thread_rng`).
#[verifier::external_body]
pub fn thread_rng() -> ThreadRng {
    rand::thread_rng()
}

/// An RSA public key, with its modulus and public exponent as big-endian bytes. Only
/// `from_pem` makes one, and it takes both from the key itself.
pub struct RsaKey {
    key: RsaPublicKey,
    n: Vec<u8>,
    e: Vec<u8>,
}

impl RsaKey {
    /// The modulus, in minimal big-endian form.
    pub closed spec fn modulus(&self) -> Seq<u8> {
        self.n@
    }

    /// The public exponent, in minimal big-endian form.
    pub closed spec fn exponent(&self) -> Seq<u8> {
        self.e@
    }

    /// The length of the modulus in bytes.
    pub open spec fn modulus_len(&self) -> nat {
        self.modulus().len()
    }

    /// The modulus bytes themselves.
    pub fn modulus_bytes(&self) -> (r: &Vec<u8>)
        ensures
            r@ == self.modulus(),
    {
        &self.n
    }

    /// Reads a public key from a PEM document (`RsaPublicKey::from_public_key_pem`), with
    /// its modulus and exponent (`n`, `e`, then `BigUint::to_bytes_be`); an error is
    /// reported by its text. `RsaPublicKey::new` refuses a key that `rsa_public_key` does
    /// not admit.
    #[verifier::external_body]
    pub fn from_pem(pem: &str) -> (r: Result<RsaKey, String>)
        ensures
            match r {
                Ok(k) => public_key_from_pem(pem@) == Ok::<(Seq<u8>, Seq<u8>), Seq<char>>(
                    (k.modulus(), k.exponent()),
                ),
                Err(m) => public_key_from_pem(pem@) == Err::<(Seq<u8>, Seq<u8>), Seq<char>>(m@),
            },
            r matches Ok(k) ==> rsa_public_key(k.modulus(), k.exponent()),
    {
        match RsaPublicKey::from_public_key_pem(pem) {
            Ok(key) => Ok(RsaKey { n: key.n().to_bytes_be(), e: key.e().to_bytes_be(), key }),
            Err(e) => Err(e.to_string()),
        }
    }

    /// Raises `data`, read as a big-endian integer, to the public exponent modulo the
    /// modulus (`BigUint::modpow`, the computation of `rsa::hazmat::rsa_encrypt`), and
    /// writes the result in minimal big-endian form (`to_bytes_be`: one zero byte for
    /// zero). Its Montgomery reduction is exact for a base below the modulus, which is
    /// what `requires` asks.
    #[verifier::external_body]
    pub fn apply_public(&self, data: &[u8]) -> (r: Vec<u8>)
        requires
            be_value(data@) < be_value(self.modulus()),
        ensures
            be_value(r@) as int == pow(be_value(data@) as int, be_value(self.exponent()))
                % (be_value(self.modulus()) as int),
            1 <= r@.len() <= self.modulus_len(),
    {
        BigUint::from_bytes_be(data).modpow(self.key.e(), self.key.n()).to_bytes_be()
    }

    /// Encrypts `data` with PKCS#1 v1.5 padding (`RsaPublicKey::encrypt` with
    /// `Pkcs1v15Encrypt`). The call fails, with the text "message too long", exactly when
    /// `data` is longer than the modulus less eleven bytes. Otherwise the ciphertext is a
    /// type-2 block that carries `data`, raised to the public exponent modulo the modulus
    /// and written in as many bytes as the modulus; which block it is rests on the random
    /// padding bytes, of which only that they are nonzero is stated.
    #[verifier::external_body]
    pub fn encrypt_pkcs1v15(&self, rng: &mut ThreadRng, data: &[u8]) -> (r: Result<Vec<u8>, String>)
        ensures
            r is Err <==> data@.len() + 11 > self.modulus_len(),
            r matches Ok(c) ==> pkcs1v15_ciphertext(self.modulus(), self.exponent(), data@, c@),
            r matches Err(m) ==> m@ == "message too long"@,
    {
        self.key.encrypt(rng, Pkcs1v15Encrypt, data).map_err(|e| e.to_string())
    }
}

} // verus!
