//! Response bodies.
use vstd::prelude::*;

use crate::error::owned;

verus! {

/// The envelope of every API response: code 0 and message `success` with data, or an
/// error code and message without data.
pub struct ApiResponse<T> {
    /// 0 on success, otherwise an error code.
    pub code: i32,
    /// `success`, or what went wrong.
    pub message: String,
    /// The data of a success.
    pub data: Option<T>,
}

/// The data of a signing response.
pub struct SignData {
    /// The signature to send to the gateway.
    pub sign: String,
    /// The text that was signed.
    pub sign_string: Option<String>,
    /// The lowercase hexadecimal SHA-256 of that text.
    pub hash_hex: Option<String>,
}

/// The data of a verification response.
pub struct VerifyData {
    /// Whether the signature is valid.
    pub valid: bool,
    /// The text that the signature covers.
    pub verify_string: Option<String>,
}

impl<T> ApiResponse<T> {
    /// A success carrying `data`.
    pub fn success(data: T) -> (r: Self)
        ensures
            r.code == 0,
            r.message@ == "success"@,
            r.data == Some(data),
    {
        ApiResponse { code: 0, message: owned("success"), data: Some(data) }
    }

    /// A failure with an error code and message, without data.
    pub fn error(code: i32, message: String) -> (r: Self)
        ensures
            r.code == code,
            r.message == message,
            r.data is None,
    {
        ApiResponse { code, message, data: None }
    }
}

} // verus!
