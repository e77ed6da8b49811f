//! What the signing, verification and health endpoints answer, and what they log.
use vstd::prelude::*;

use crate::error::{concat_text, owned, sign_error_text, SignError};
use crate::models::response::{ApiResponse, SignData, VerifyData};
use crate::params::{canonical_text, Entry, Params};
use crate::signer::{signing_result, Signer};
use crate::verification::{expected_digest, verification_result, Verifier};

verus! {

/// The kind of a logged request.
#[derive(Debug, Clone, Copy, PartialEq, Eq, Structural)]
pub enum RequestKind {
    Sign,
    Verify,
}

/// How a logged request ended.
#[derive(Debug, Clone, Copy, PartialEq, Eq, Structural)]
pub enum RequestOutcome {
    Success,
    Failed,
}

impl RequestKind {
    /// The name stored in the log: `sign` or `verify`.
    pub fn label(&self) -> (r: String)
        ensures
            r@ == match *self {
                RequestKind::Sign => "sign"@,
                RequestKind::Verify => "verify"@,
            },
    {
        match self {
            RequestKind::Sign => owned("sign"),
            RequestKind::Verify => owned("verify"),
        }
    }
}

impl RequestOutcome {
    /// The name stored in the log: `success` or `failed`.
    pub fn label(&self) -> (r: String)
        ensures
            r@ == match *self {
                RequestOutcome::Success => "success"@,
                RequestOutcome::Failed => "failed"@,
            },
    {
        match self {
            RequestOutcome::Success => owned("success"),
            RequestOutcome::Failed => owned("failed"),
        }
    }
}

/// The answer to a request, with what goes into the request log.
pub struct Handled<T> {
    /// The response body.
    pub response: ApiResponse<T>,
    /// The kind of request, for the log.
    pub kind: RequestKind,
    /// How it ended, for the log.
    pub outcome: RequestOutcome,
    /// The number of parameters, for the log.
    pub param_count: i32,
}

/// The answer to a signing request whose signing gave `signed`: on success the signature
/// with the signed text and its digest, on failure error code 1 and the reason.
pub open spec fn sign_answer(
    params: Seq<Entry>,
    signed: Result<String, SignError>,
    r: Handled<SignData>,
) -> bool {
    &&& r.kind == RequestKind::Sign
    &&& r.param_count == params.len() as i32
    &&& match signed {
        Ok(sig) => {
            &&& r.outcome == RequestOutcome::Success
            &&& r.response.code == 0
            &&& r.response.message@ == "success"@
            &&& r.response.data matches Some(d) && d.sign == sig && (d.sign_string matches Some(
                t,
            ) && t@ == canonical_text(params)) && (d.hash_hex matches Some(h) && h@
                == expected_digest(params))
        },
        Err(e) => {
            &&& r.outcome == RequestOutcome::Failed
            &&& r.response.code == 1
            &&& r.response.message@ == "签名失败: "@ + sign_error_text(e)
            &&& r.response.data is None
        },
    }
}

/// The answer to a verification request whose check gave `verified`: on success whether
/// the signature is valid, with the covered text; on failure error code 1 and the reason.
pub open spec fn verify_answer(
    params: Seq<Entry>,
    verified: Result<bool, SignError>,
    r: Handled<VerifyData>,
) -> bool {
    &&& r.kind == RequestKind::Verify
    &&& r.param_count == params.len() as i32
    &&& match verified {
        Ok(valid) => {
            &&& r.outcome == RequestOutcome::Success
            &&& r.response.code == 0
            &&& r.response.message@ == "success"@
            &&& r.response.data matches Some(d) && d.valid == valid && (d.verify_string matches Some(
                t,
            ) && t@ == canonical_text(params))
        },
        Err(e) => {
            &&& r.outcome == RequestOutcome::Failed
            &&& r.response.code == 1
            &&& r.response.message@ == "验签失败: "@ + sign_error_text(e)
            &&& r.response.data is None
        },
    }
}

/// The answer to a signing request, given what signing gave.
pub fn sign_reply(params: &Params, signed: Result<String, SignError>) -> (r: Handled<SignData>)
    ensures
        sign_answer(params@, signed, r),
{
    let param_count = params.len() as i32;
    match signed {
        Ok(sign) => {
            let sign_string = match Signer::get_sign_string(params) {
                Ok(t) => Some(t),
                Err(_) => None,
            };
            let hash_hex = match Signer::get_hash_hex(params) {
                Ok(h) => Some(h),
                Err(_) => None,
            };
            Handled {
                response: ApiResponse::success(SignData { sign, sign_string, hash_hex }),
                kind: RequestKind::Sign,
                outcome: RequestOutcome::Success,
                param_count,
            }
        },
        Err(e) => {
            let reason = e.message();
            Handled {
                response: ApiResponse::error(1, concat_text("签名失败: ", reason.as_str())),
                kind: RequestKind::Sign,
                outcome: RequestOutcome::Failed,
                param_count,
            }
        },
    }
}

/// Signs the parameters of a request and answers it; the answer is that of `sign_reply`
/// for what `Signer::sign` gave.
pub fn handle_sign(signer: &Signer, params: &Params) -> (r: Handled<SignData>)
    ensures
        exists|signed: Result<String, SignError>|
            #![trigger sign_answer(params@, signed, r)]
            signing_result(signer.modulus(), signer.exponent(), params@, signed) && sign_answer(params@, signed, r),
{
    let signed = signer.sign(params);
    let ghost s = signed;
    let r = sign_reply(params, signed);
    assert(sign_answer(params@, s, r));
    r
}

/// The answer to a verification request, given what the check gave.
pub fn verify_reply(params: &Params, verified: Result<bool, SignError>) -> (r: Handled<VerifyData>)
    ensures
        verify_answer(params@, verified, r),
{
    let param_count = params.len() as i32;
    match verified {
        Ok(valid) => {
            let verify_string = match Verifier::get_verify_string(params) {
                Ok(t) => Some(t),
                Err(_) => None,
            };
            Handled {
                response: ApiResponse::success(VerifyData { valid, verify_string }),
                kind: RequestKind::Verify,
                outcome: RequestOutcome::Success,
                param_count,
            }
        },
        Err(e) => {
            let reason = e.message();
            Handled {
                response: ApiResponse::error(1, concat_text("验签失败: ", reason.as_str())),
                kind: RequestKind::Verify,
                outcome: RequestOutcome::Failed,
                param_count,
            }
        },
    }
}

/// Checks the signature of a notice and answers the request; the answer is that of
/// `verify_reply` for what `Verifier::verify` gave.
pub fn handle_verify(verifier: &Verifier, params: &Params) -> (r: Handled<VerifyData>)
    ensures
        exists|v: Result<bool, SignError>|
            #![trigger verify_answer(params@, v, r)]
            verification_result(verifier.modulus(), verifier.exponent(), params@, v) && verify_answer(params@, v, r),
{
    let verified = verifier.verify(params);
    let ghost v = verified;
    let r = verify_reply(params, verified);
    assert(verify_answer(params@, v, r));
    r
}

/// A check that completes is a successful request, whether the signature is valid or not:
/// code 0, message `success`, logged as a success, with the verdict and the covered text;
/// only a check that fails is answered with code 1.
pub proof fn lemma_completed_check_is_success(
    params: Seq<Entry>,
    valid: bool,
    r: Handled<VerifyData>,
)
    requires
        verify_answer(params, Ok::<bool, SignError>(valid), r),
    ensures
        r.response.code == 0,
        r.response.message@ == "success"@,
        r.outcome == RequestOutcome::Success,
        r.kind == RequestKind::Verify,
        r.response.data matches Some(d) && d.valid == valid && (d.verify_string matches Some(t)
            && t@ == canonical_text(params)),
{
}

/// A failed check is answered with code 1, no data, and `验签失败: ` before the error's
/// message, and is logged as failed.
pub proof fn lemma_failed_check_is_error(
    params: Seq<Entry>,
    e: SignError,
    r: Handled<VerifyData>,
)
    requires
        verify_answer(params, Err::<bool, SignError>(e), r),
    ensures
        r.response.code == 1,
        r.response.data is None,
        r.outcome == RequestOutcome::Failed,
        r.response.message@ == "验签失败: "@ + sign_error_text(e),
{
}

/// A signature that was made is a successful request: code 0, message `success`, with the
/// signature, the signed text and its digest.
pub proof fn lemma_made_signature_is_success(
    params: Seq<Entry>,
    sig: String,
    r: Handled<SignData>,
)
    requires
        sign_answer(params, Ok::<String, SignError>(sig), r),
    ensures
        r.response.code == 0,
        r.response.message@ == "success"@,
        r.outcome == RequestOutcome::Success,
        r.kind == RequestKind::Sign,
        r.response.data matches Some(d) && d.sign == sig && (d.sign_string matches Some(t)
            && t@ == canonical_text(params)),
{
}

/// The answer to a health check: success with the data `ok`.
pub fn health_reply() -> (r: ApiResponse<String>)
    ensures
        r.code == 0,
        r.message@ == "success"@,
        r.data matches Some(d) && d@ == "ok"@,
{
    ApiResponse::success(owned("ok"))
}

} // verus!
