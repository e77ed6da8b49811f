use base64::engine::general_purpose::STANDARD;
use base64::Engine;
use xy_sign_relay::error::SignError;
use xy_sign_relay::params::Params;
use xy_sign_relay::pem::normalize_public_key_pem;
use xy_sign_relay::signer::Signer;
use xy_sign_relay::crypto::{standard_base64_encode, RsaKey};
use xy_sign_relay::verification::{
    base64_decode, calculate_sha256_hex, recovered_text, rsa_decrypt_to_string, Verifier,
};

const KEY_2048_BODY: &str = "MIIBIjANBgkqhkiG9w0BAQEFAAOCAQ8AMIIBCgKCAQEAtsQsUV8QpqrygsY+2+JCQ6Fw8/omM71IM2N/R8pPbzbgOl0p78MZGsgPOQ2HSznjD0FPzsH8oO2B5Uftws04LHb2HJAYlz25+lN5cqfHAfa3fgmC38FfwBkn7l582UtPWZ/wcBOnyCgb3yLcvJrXyrt8QxHJgvWO23ITrUVYszImbXQ67YGS0YhMrbixRzmo2tpm3JcIBtnHrEUMsT0NfFdfsZhTT8YbxBvA8FdODgEwx7u/vf3J9qbi4+Kv8cvqyJuleIRSjVXPsIMnoejIn04APPKIjpMyQdnWlby7rNyQtE4+CV+jcFjqJbE/Xilcvqxt6DirjFCvYeKYl1uHLwIDAQAB";

const KEY_512_PEM: &str = "-----BEGIN PUBLIC KEY-----
MFwwDQYJKoZIhvcNAQEBBQADSwAwSAJBAMLa4V1uObWOrkz6ayUbH8QTSObgJcYd
pYPCJ0urLlBPovZmFcJgtEp1k+ZTiQ+t+YqTwF0SuJUXTpsXGI2yABECAwEAAQ==
-----END PUBLIC KEY-----";

const KEY_1024_PEM: &str = "-----BEGIN PUBLIC KEY-----
MIGfMA0GCSqGSIb3DQEBAQUAA4GNADCBiQKBgQCnoXywRjLb4b5ZdOfzRQqB11Lp
q3SBWcwFRvN5wpujZZpIqUeNYBtrD9YcyKqsNQIYQLJHvikLu+eSb6PQUBt7E8HR
aUcKQ3Q18a1JbZZgWasySci7TOhKgKci2aJggRZWZx+wTliY1Dsgv9ALzngu+yRF
S+bzPwfRy4zo9W8J3wIDAQAB
-----END PUBLIC KEY-----";

/// The 1024-bit key's signature (PKCS#1 v1.5, type 1) on the digest of `agetId=A&txamt=100`.
const SIGN_1024: &str = "OKawLxuEAt8PQftQssuYl4YQeN6c/2wkDr7MNDMZgp96CVUTWII7ImYMYj7ThMubCHvWZ/zGMl/8Q7/77Oj4JUKjoLKabRGWCXgATibG4HRsoFgpBrLsqGZngWhAmxSEemP7hDF56+DVAqanGGn6XXKHGf0YN4g2UGyM1sZh5Bc=";

/// The same key's signature on the bytes `ff fe`, which are not UTF-8.
const SIGN_NOT_UTF8_1024: &str = "OpvVvQSdrPAam0jNCsk9ZxroI9thHSnXeHz+64zsHKrOHipyqblUEJOFGJ2DuGFKSUmVCJATfTW+mptl9qfphzuoe1YLKqNlTLAfxJgXTyZ33I7YzxcGlcxcBOc/0tDy7q/Dw02nIHCbwnvuQbxysojTkG/GyQc3gL6fnriBvMk=";

fn params(pairs: &[(&str, &str)]) -> Params {
    Params::from_pairs(pairs.iter().map(|(k, v)| (k.to_string(), v.to_string())).collect())
}

fn b64(bytes: &[u8]) -> String {
    STANDARD.encode(bytes)
}

#[test]
fn sha256_hex_of_known_texts() {
    assert_eq!(
        calculate_sha256_hex("abc").unwrap(),
        "ba7816bf8f01cfea414140de5dae2223b00361a396177a9cb410ff61f20015ad"
    );
    assert_eq!(
        calculate_sha256_hex("").unwrap(),
        "e3b0c44298fc1c149afbf4c8996fb92427ae41e4649b934ca495991b7852b855"
    );
}

#[test]
fn base64_decoding() {
    assert_eq!(base64_decode("aGVsbG8=").unwrap(), b"hello".to_vec());
    assert!(matches!(base64_decode("!!!!"), Err(SignError::Base64DecodeError(_))));
    assert!(matches!(base64_decode("%%"), Err(SignError::Base64DecodeError(_))));
}

#[test]
fn bare_key_body_is_wrapped_in_lines_of_64() {
    let pem = normalize_public_key_pem(&format!("  {}\n", KEY_2048_BODY));
    let lines: Vec<&str> = pem.lines().collect();
    assert_eq!(lines[0], "-----BEGIN PUBLIC KEY-----");
    assert_eq!(*lines.last().unwrap(), "-----END PUBLIC KEY-----");
    let body: Vec<&str> = lines[1..lines.len() - 1].to_vec();
    assert_eq!(body.concat(), KEY_2048_BODY);
    assert!(body[..body.len() - 1].iter().all(|l| l.len() == 64));
}

#[test]
fn pem_key_is_only_trimmed() {
    let pem = normalize_public_key_pem(&format!("\n{}\n\n", KEY_512_PEM));
    assert_eq!(pem, KEY_512_PEM);
}

#[test]
fn chunks_that_split_a_character_are_dropped() {
    // 63 ASCII bytes and the first byte of "é" form the first chunk, the second byte of
    // "é" and ten more the second: neither is valid UTF-8.
    let text = format!("{}é{}", "a".repeat(63), "b".repeat(10));
    let pem = normalize_public_key_pem(&text);
    assert_eq!(pem, "-----BEGIN PUBLIC KEY-----\n\n\n-----END PUBLIC KEY-----");
    let text = format!("{}é{}", "a".repeat(62), "b".repeat(3));
    let pem = normalize_public_key_pem(&text);
    assert_eq!(pem, format!("-----BEGIN PUBLIC KEY-----\n{}é\nbbb\n-----END PUBLIC KEY-----", "a".repeat(62)));
}

#[test]
fn unreadable_keys_are_rejected() {
    assert!(matches!(Verifier::new("not a key"), Err(SignError::RsaPublicKeyError(_))));
    assert!(matches!(Signer::new(""), Err(SignError::RsaPublicKeyError(_))));
}

#[test]
fn both_key_forms_are_accepted() {
    assert!(Verifier::new(KEY_2048_BODY).is_ok());
    assert!(Verifier::new(KEY_512_PEM).is_ok());
    assert!(Signer::new(KEY_2048_BODY).is_ok());
}

#[test]
fn missing_or_empty_sign_is_an_error() {
    let v = Verifier::new(KEY_2048_BODY).unwrap();
    match v.verify(&params(&[("a", "1")])) {
        Err(SignError::MissingParameter(m)) => assert_eq!(m, "sign"),
        _ => panic!("expected a missing parameter"),
    }
    match v.verify(&params(&[("a", "1"), ("sign", "")])) {
        Err(SignError::MissingParameter(m)) => assert_eq!(m, "sign"),
        _ => panic!("expected a missing parameter"),
    }
}

#[test]
fn sign_that_is_not_base64_is_an_error() {
    let v = Verifier::new(KEY_2048_BODY).unwrap();
    assert!(matches!(
        v.verify(&params(&[("a", "1"), ("sign", "***")])),
        Err(SignError::Base64DecodeError(_))
    ));
}

#[test]
fn genuine_notice_verifies() {
    let v = Verifier::new(KEY_1024_PEM).unwrap();
    let p = params(&[("txamt", "100"), ("agetId", "A"), ("sign", SIGN_1024)]);
    assert_eq!(v.verify(&p).unwrap(), true);
    let body: String = KEY_1024_PEM.lines().filter(|l| !l.starts_with("-----")).collect();
    let bare = Verifier::new(&format!(" \n{}\t\n", body)).unwrap();
    assert_eq!(bare.verify(&p).unwrap(), true);
}

#[test]
fn altered_notice_fails() {
    let v = Verifier::new(KEY_1024_PEM).unwrap();
    let changed = params(&[("txamt", "101"), ("agetId", "A"), ("sign", SIGN_1024)]);
    assert_eq!(v.verify(&changed).unwrap(), false);
    let added = params(&[("txamt", "100"), ("agetId", "A"), ("extra", ""), ("sign", SIGN_1024)]);
    assert_eq!(v.verify(&added).unwrap(), false);
}

#[test]
fn public_key_recovers_the_digest() {
    let key = RsaKey::from_pem(KEY_1024_PEM).unwrap();
    let sig = base64_decode(SIGN_1024).unwrap();
    assert_eq!(
        rsa_decrypt_to_string(&key, &sig).unwrap(),
        "5d87dedbd401d5b4586d15d24f2ec722827e38c156f01b79aac8815cf32b5828"
    );
}

fn assert_decryption_error(r: Result<bool, SignError>) {
    match r {
        Err(SignError::RsaDecryptError(m)) => assert_eq!(m, "decryption error"),
        _ => panic!("expected the recovery to fail"),
    }
}

#[test]
fn sign_of_another_length_is_a_decryption_error() {
    let v = Verifier::new(KEY_1024_PEM).unwrap();
    assert_decryption_error(v.verify(&params(&[("a", "1"), ("sign", &b64(&[7u8; 127]))])));
    assert_decryption_error(v.verify(&params(&[("a", "1"), ("sign", &b64(&[7u8; 129]))])));
}

#[test]
fn sign_not_below_the_modulus_is_a_decryption_error() {
    let v = Verifier::new(KEY_1024_PEM).unwrap();
    assert_decryption_error(v.verify(&params(&[("a", "1"), ("sign", &b64(&[0xffu8; 128]))])));
}

#[test]
fn unpadded_block_is_a_decryption_error() {
    let v = Verifier::new(KEY_1024_PEM).unwrap();
    assert_decryption_error(v.verify(&params(&[("a", "1"), ("sign", &b64(&[1u8; 128]))])));
}

#[test]
fn recovered_message_that_is_not_utf8_is_an_error() {
    let v = Verifier::new(KEY_1024_PEM).unwrap();
    match v.verify(&params(&[("a", "1"), ("sign", SIGN_NOT_UTF8_1024)])) {
        Err(SignError::RsaDecryptError(m)) => {
            assert_eq!(m, "解密结果不是有效UTF8字符串: invalid utf-8 sequence of 1 bytes from index 0")
        }
        _ => panic!("expected a UTF-8 error"),
    }
}

#[test]
fn base64_round_trip() {
    let bytes: Vec<u8> = (0u8..=255).collect();
    let text = standard_base64_encode(&bytes);
    assert_eq!(text, b64(&bytes));
    assert_eq!(base64_decode(&text).unwrap(), bytes);
    assert_eq!(base64_decode(&standard_base64_encode(&[])).unwrap(), Vec::<u8>::new());
}

#[test]
fn recovered_bytes_are_read_as_utf8() {
    assert_eq!(recovered_text(b"abc".to_vec()).unwrap(), "abc");
    match recovered_text(vec![0x61, 0xff]) {
        Err(SignError::RsaDecryptError(m)) => {
            assert_eq!(m, "解密结果不是有效UTF8字符串: invalid utf-8 sequence of 1 bytes from index 1")
        }
        _ => panic!("expected an error"),
    }
}

#[test]
fn signature_is_a_fresh_encryption_of_the_digest() {
    let s = Signer::new(KEY_1024_PEM).unwrap();
    let p = params(&[("txamt", "100"), ("agetId", "A")]);
    let first = base64_decode(&s.sign(&p).unwrap()).unwrap();
    let second = base64_decode(&s.sign(&p).unwrap()).unwrap();
    assert_eq!(first.len(), 128);
    assert_eq!(second.len(), 128);
    assert_ne!(first, second);
    let digest = Signer::get_hash_hex(&p).unwrap();
    assert_ne!(first, digest.as_bytes().to_vec());
}

#[test]
fn signature_is_as_long_as_the_key() {
    let s = Signer::new(KEY_2048_BODY).unwrap();
    let p = params(&[("agetId", "A"), ("txamt", "100")]);
    let sig = s.sign(&p).unwrap();
    let raw = base64_decode(&sig).unwrap();
    assert_eq!(raw.len(), 256);
}

#[test]
fn small_key_cannot_sign() {
    let s = Signer::new(KEY_512_PEM).unwrap();
    match s.sign(&params(&[("a", "1")])) {
        Err(SignError::RsaEncryptError(m)) => assert_eq!(m, "message too long"),
        _ => panic!("expected the key to be too small"),
    }
}

#[test]
fn hash_of_the_signed_text() {
    let p = params(&[("b", "2"), ("a", "1")]);
    assert_eq!(Signer::get_hash_hex(&p).unwrap(), calculate_sha256_hex("a=1&b=2").unwrap());
}

#[test]
fn error_messages() {
    assert_eq!(SignError::missing_param("sign").message(), "必要参数缺失: sign");
    assert_eq!(SignError::RsaPublicKeyError("x".into()).message(), "RSA公钥解析失败: x");
    assert_eq!(SignError::RsaEncryptError("x".into()).message(), "RSA加密失败: x");
    assert_eq!(SignError::RsaDecryptError("x".into()).message(), "RSA解密失败: x");
    assert_eq!(SignError::Base64DecodeError("x".into()).message(), "Base64解码失败: x");
    assert_eq!(SignError::JsonParseError("x".into()).message(), "JSON解析失败: x");
    assert_eq!(SignError::Other("x".into()).message(), "x");
}
