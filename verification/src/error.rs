//! The errors of signing, verification and configuration, and their messages.
use vstd::prelude::*;

verus! {

/// What can go wrong while signing or verifying.
#[derive(Debug)]
pub enum SignError {
    /// The RSA public key could not be read.
    RsaPublicKeyError(String),
    /// RSA encryption failed.
    RsaEncryptError(String),
    /// The RSA step of verification failed.
    RsaDecryptError(String),
    /// A Base64 text could not be decoded.
    Base64DecodeError(String),
    /// A required parameter is missing or empty.
    MissingParameter(String),
    /// A JSON document could not be read.
    JsonParseError(String),
    /// Any other failure.
    Other(String),
}

/// The message of an error: a fixed prefix for its kind, then its detail.
pub open spec fn sign_error_text(e: SignError) -> Seq<char> {
    match e {
        SignError::RsaPublicKeyError(s) => "RSA公钥解析失败: "@ + s@,
        SignError::RsaEncryptError(s) => "RSA加密失败: "@ + s@,
        SignError::RsaDecryptError(s) => "RSA解密失败: "@ + s@,
        SignError::Base64DecodeError(s) => "Base64解码失败: "@ + s@,
        SignError::MissingParameter(s) => "必要参数缺失: "@ + s@,
        SignError::JsonParseError(s) => "JSON解析失败: "@ + s@,
        SignError::Other(s) => s@,
    }
}

/// A copy of a string slice.
pub fn owned(s: &str) -> (r: String)
    ensures
        r@ == s@,
{
    s.to_owned()
}

/// `prefix` followed by `rest`.
pub fn concat_text(prefix: &str, rest: &str) -> (r: String)
    ensures
        r@ == prefix@ + rest@,
{
    let mut r = prefix.to_owned();
    r.append(rest);
    r
}

impl SignError {
    /// The error for a missing parameter called `param_name`.
    pub fn missing_param(param_name: &str) -> (r: SignError)
        ensures
            r matches SignError::MissingParameter(s) && s@ == param_name@,
    {
        SignError::MissingParameter(owned(param_name))
    }

    /// The error's message.
    pub fn message(&self) -> (r: String)
        ensures
            r@ == sign_error_text(*self),
    {
        match self {
            SignError::RsaPublicKeyError(s) => concat_text("RSA公钥解析失败: ", s.as_str()),
            SignError::RsaEncryptError(s) => concat_text("RSA加密失败: ", s.as_str()),
            SignError::RsaDecryptError(s) => concat_text("RSA解密失败: ", s.as_str()),
            SignError::Base64DecodeError(s) => concat_text("Base64解码失败: ", s.as_str()),
            SignError::MissingParameter(s) => concat_text("必要参数缺失: ", s.as_str()),
            SignError::JsonParseError(s) => concat_text("JSON解析失败: ", s.as_str()),
            SignError::Other(s) => owned(s.as_str()),
        }
    }
}

#[verifier::external_type_specification]
#[verifier::external_body]
pub struct ExIoError(std::io::Error);

#[verifier::external_type_specification]
#[verifier::external_body]
pub struct ExJsonError(serde_json::Error);

/// The text of an I/O error (its `Display`, through `to_string`). Nothing is stated of the
/// text: it rests on the operating system, and the error is opaque here.
#[verifier::external_body]
fn io_error_text(err: &std::io::Error) -> String {
    err.to_string()
}

/// The text of a JSON error (`serde_json::Error`'s `Display`, through `to_string`).
/// Nothing is stated of the text: the error is opaque here.
#[verifier::external_body]
fn json_error_text(err: &serde_json::Error) -> String {
    err.to_string()
}

/// An I/O error becomes `Other` with the error's text.
impl From<std::io::Error> for SignError {
    fn from(err: std::io::Error) -> (r: SignError)
        ensures
            r matches SignError::Other(_),
    {
        SignError::Other(io_error_text(&err))
    }
}

/// No `from_spec` is claimed for the conversion: its text comes from an opaque error, so
/// `from` itself states only the variant it gives.
impl vstd::std_specs::convert::FromSpecImpl<std::io::Error> for SignError {
    open spec fn obeys_from_spec() -> bool {
        false
    }

    open spec fn from_spec(v: std::io::Error) -> SignError {
        vstd::pervasive::arbitrary()
    }
}

/// A JSON error becomes `JsonParseError` with the error's text.
impl From<serde_json::Error> for SignError {
    fn from(err: serde_json::Error) -> (r: SignError)
        ensures
            r matches SignError::JsonParseError(_),
    {
        SignError::JsonParseError(json_error_text(&err))
    }
}

/// No `from_spec` is claimed for the conversion: its text comes from an opaque error, so
/// `from` itself states only the variant it gives.
impl vstd::std_specs::convert::FromSpecImpl<serde_json::Error> for SignError {
    open spec fn obeys_from_spec() -> bool {
        false
    }

    open spec fn from_spec(v: serde_json::Error) -> SignError {
        vstd::pervasive::arbitrary()
    }
}

/// What can go wrong while reading the configuration.
#[derive(Debug, Clone, Copy, PartialEq, Eq, Structural)]
pub enum ConfigError {
    /// `RSA_PUBLIC_KEY` is not set.
    RsaPublicKeyMissing,
    /// `MONITOR_PASSWORD` is not set.
    MonitorPasswordMissing,
}

/// The message of a configuration error.
pub open spec fn config_error_text(e: ConfigError) -> Seq<char> {
    match e {
        ConfigError::RsaPublicKeyMissing => "RSA公钥未配置，请在.env文件中设置RSA_PUBLIC_KEY"@,
        ConfigError::MonitorPasswordMissing => "监控密码未配置，请在.env文件中设置MONITOR_PASSWORD"@,
    }
}

impl ConfigError {
    /// The error's message.
    pub fn message(&self) -> (r: String)
        ensures
            r@ == config_error_text(*self),
    {
        match self {
            ConfigError::RsaPublicKeyMissing => owned("RSA公钥未配置，请在.env文件中设置RSA_PUBLIC_KEY"),
            ConfigError::MonitorPasswordMissing => owned(
                "监控密码未配置，请在.env文件中设置MONITOR_PASSWORD",
            ),
        }
    }
}

} // verus!
