//! The CDC request/response model shared by the node, the hub and the
//! control tool, and the frame of its JSON replies.

use vstd::prelude::*;

use crate::common::types::{text, utf8_len, CommandName, RequestId, TextError, REQUEST_ID_CAPACITY};

verus! {

#[derive(Debug, PartialEq, Eq)]
pub struct CdcRequest<P> {
    pub version: u8,
    pub request_id: RequestId,
    pub command: CommandName,
    pub params: P,
}

#[derive(Clone, Copy, Debug, PartialEq, Eq, Structural)]
pub enum CdcStatus {
    OK,
    Error,
}

#[derive(Clone, Copy, Debug, PartialEq, Eq, Structural)]
pub enum CdcErrorCode {
    InvalidJson,
    UnsupportedVersion,
    InvalidCommand,
    InvalidParameter,
    InvalidConfig,
    SaveFailed,
    OperationFailed,
    NotSupported,
}

/// The wire name of an error code.
pub open spec fn spec_error_code_name(code: CdcErrorCode) -> Seq<char> {
    match code {
        CdcErrorCode::InvalidJson => "INVALID_JSON"@,
        CdcErrorCode::UnsupportedVersion => "UNSUPPORTED_VERSION"@,
        CdcErrorCode::InvalidCommand => "INVALID_COMMAND"@,
        CdcErrorCode::InvalidParameter => "INVALID_PARAMETER"@,
        CdcErrorCode::InvalidConfig => "INVALID_CONFIG"@,
        CdcErrorCode::SaveFailed => "SAVE_FAILED"@,
        CdcErrorCode::OperationFailed => "OPERATION_FAILED"@,
        CdcErrorCode::NotSupported => "NOT_SUPPORTED"@,
    }
}

pub fn error_code_name(code: CdcErrorCode) -> (r: &'static str)
    ensures
        r@ == spec_error_code_name(code),
{
    match code {
        CdcErrorCode::InvalidJson => "INVALID_JSON",
        CdcErrorCode::UnsupportedVersion => "UNSUPPORTED_VERSION",
        CdcErrorCode::InvalidCommand => "INVALID_COMMAND",
        CdcErrorCode::InvalidParameter => "INVALID_PARAMETER",
        CdcErrorCode::InvalidConfig => "INVALID_CONFIG",
        CdcErrorCode::SaveFailed => "SAVE_FAILED",
        CdcErrorCode::OperationFailed => "OPERATION_FAILED",
        CdcErrorCode::NotSupported => "NOT_SUPPORTED",
    }
}

/// An error reply's code and message; the message is bounded by
/// `ERROR_MESSAGE_CAPACITY`.
#[derive(Debug, PartialEq, Eq)]
pub struct CdcError {
    pub code: CdcErrorCode,
    pub message: String,
}

#[derive(Debug, PartialEq, Eq)]
pub struct CdcResponse<D> {
    pub version: u8,
    pub request_id: RequestId,
    pub status: CdcStatus,
    pub data: Option<D>,
    pub error: Option<CdcError>,
}

impl<D> CdcResponse<D> {
    pub fn success(version: u8, request_id: RequestId, data: D) -> (r: Self)
        ensures
            r.version == version,
            r.request_id == request_id,
            r.status == CdcStatus::OK,
            r.data == Some(data),
            r.error is None,
    {
        CdcResponse { version, request_id, status: CdcStatus::OK, data: Some(data), error: None }
    }

    pub fn error(version: u8, request_id: RequestId, code: CdcErrorCode, message: String) -> (r:
        Self)
        ensures
            r.version == version,
            r.request_id == request_id,
            r.status == CdcStatus::Error,
            r.data is None,
            r.error == Some(CdcError { code, message }),
    {
        CdcResponse {
            version,
            request_id,
            status: CdcStatus::Error,
            data: None,
            error: Some(CdcError { code, message }),
        }
    }
}

/// A request identifier, provided it fits `REQUEST_ID_CAPACITY` bytes.
pub fn request_id(value: &str) -> (r: Result<RequestId, TextError>)
    ensures
        match r {
            Ok(s) => s@ == value@ && utf8_len(value@) <= REQUEST_ID_CAPACITY,
            Err(e) => e == TextError::TooLong && utf8_len(value@) > REQUEST_ID_CAPACITY,
        },
{
    text::<REQUEST_ID_CAPACITY>(value)
}

/// The JSON of a success reply, given the encoded request ID and data.
pub open spec fn cdc_ok_json(version: u8, id_json: Seq<char>, data_json: Seq<char>) -> Seq<char> {
    "{\"version\":"@ + crate::common::json::json_unsigned(version as nat) + ",\"request_id\":"@
        + id_json + ",\"status\":\"ok\",\"data\":"@ + data_json + "}"@
}

/// The JSON of an error reply, given the encoded request ID and message.
pub open spec fn cdc_error_json(
    version: u8,
    id_json: Seq<char>,
    code: CdcErrorCode,
    message_json: Seq<char>,
) -> Seq<char> {
    "{\"version\":"@ + crate::common::json::json_unsigned(version as nat) + ",\"request_id\":"@
        + id_json + ",\"status\":\"error\",\"error\":{\"code\":\""@ + spec_error_code_name(code)
        + "\",\"message\":"@ + message_json + "}}"@
}

pub fn cdc_ok_text(version: u8, id_json: &str, data_json: &str) -> (r: String)
    ensures
        r@ == cdc_ok_json(version, id_json@, data_json@),
{
    let mut out = String::new();
    out.append("{\"version\":");
    crate::common::json::push_unsigned(&mut out, version as u64);
    out.append(",\"request_id\":");
    out.append(id_json);
    out.append(",\"status\":\"ok\",\"data\":");
    out.append(data_json);
    out.append("}");
    out
}

pub fn cdc_error_text(version: u8, id_json: &str, code: CdcErrorCode, message_json: &str) -> (r:
    String)
    ensures
        r@ == cdc_error_json(version, id_json@, code, message_json@),
{
    let mut out = String::new();
    out.append("{\"version\":");
    crate::common::json::push_unsigned(&mut out, version as u64);
    out.append(",\"request_id\":");
    out.append(id_json);
    out.append(",\"status\":\"error\",\"error\":{\"code\":\"");
    out.append(error_code_name(code));
    out.append("\",\"message\":");
    out.append(message_json);
    out.append("}}");
    out
}

/// A reply assembled from parts without a line feed holds none.
pub proof fn lemma_lf_free_reply(version: u8, id_json: Seq<char>, data_json: Seq<char>, code: CdcErrorCode)
    requires
        crate::common::json::lf_free(id_json),
        crate::common::json::lf_free(data_json),
    ensures
        crate::common::json::lf_free(cdc_ok_json(version, id_json, data_json)),
        crate::common::json::lf_free(cdc_error_json(version, id_json, code, data_json)),
{
    broadcast use crate::common::json::group_lf_free;

    reveal_strlit("{\"version\":");
    reveal_strlit(",\"request_id\":");
    reveal_strlit(",\"status\":\"ok\",\"data\":");
    reveal_strlit("}");
    reveal_strlit(",\"status\":\"error\",\"error\":{\"code\":\"");
    reveal_strlit("\",\"message\":");
    reveal_strlit("}}");
    reveal_strlit("INVALID_JSON");
    reveal_strlit("UNSUPPORTED_VERSION");
    reveal_strlit("INVALID_COMMAND");
    reveal_strlit("INVALID_PARAMETER");
    reveal_strlit("INVALID_CONFIG");
    reveal_strlit("SAVE_FAILED");
    reveal_strlit("OPERATION_FAILED");
    reveal_strlit("NOT_SUPPORTED");
    reveal_with_fuel(crate::common::json::lf_free_by_char, 40);
    crate::common::json::lemma_lf_free_by_char("{\"version\":"@);
    crate::common::json::lemma_lf_free_by_char(",\"request_id\":"@);
    crate::common::json::lemma_lf_free_by_char(",\"status\":\"ok\",\"data\":"@);
    crate::common::json::lemma_lf_free_by_char("}"@);
    crate::common::json::lemma_lf_free_by_char(",\"status\":\"error\",\"error\":{\"code\":\""@);
    crate::common::json::lemma_lf_free_by_char("\",\"message\":"@);
    crate::common::json::lemma_lf_free_by_char("}}"@);
    crate::common::json::lemma_lf_free_by_char(spec_error_code_name(code));
    crate::common::json::lemma_lf_free_decimal(version as nat);
}

} // verus!
