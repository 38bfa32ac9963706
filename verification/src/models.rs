//! Data model of the relay: the client-facing and upstream wire records and
//! the configuration enums.

use vstd::prelude::*;

verus! {

/// Which keyed transform the signer applies to an upstream challenge token.
#[derive(Clone, Copy, Debug, PartialEq, Eq, Structural)]
pub enum DigestMod {
    Md5,
    Sha256,
    HmacSha256,
}

/// The kind of client the end user reached the relay from, passed through to
/// the upstream provider unchanged.
#[derive(Clone, Copy, Debug, PartialEq, Eq, Structural)]
pub enum ClientType {
    Web,
    Mobile,
    Native,
    Unknown,
}

/// Optional end-user context forwarded to upstream register/validate calls.
/// The address travels as its textual form; the relay never reads into it.
#[derive(Clone, Debug)]
pub struct UserInfo {
    pub user_id: Option<String>,
    pub client_type: Option<ClientType>,
    pub ip_address: Option<String>,
}

impl UserInfo {
    /// An empty context: no user id, no client type, no address.
    pub fn empty() -> (r: UserInfo)
        ensures
            r.user_id is None,
            r.client_type is None,
            r.ip_address is None,
    {
        UserInfo { user_id: None, client_type: None, ip_address: None }
    }
}

/// Query carried by the upstream bypass-status check.
#[derive(Clone, Debug)]
pub struct StatusRequest {
    pub captcha_id: String,
}

/// Upstream bypass-status reply: `true` when verification is healthy.
#[derive(Clone, Debug)]
pub struct StatusResponse {
    pub status: bool,
}

/// The reply this relay sends for an issuance request.
#[derive(Clone, Debug)]
pub struct ClientRegisterResponse {
    pub success: bool,
    pub new_captcha: bool,
    pub challenge: String,
    pub captcha_id: String,
}

/// The reply this relay sends for a validation request.
#[derive(Clone, Debug)]
pub struct ClientValidateResponse {
    pub result: bool,
    pub version: String,
    pub msg: Option<String>,
}

/// The version tag carried by every validate reply.
pub open spec fn spec_version() -> Seq<char> {
    "1.0"@
}

/// A validate reply that rejects with the given reason.
pub open spec fn spec_rejected_with(r: ClientValidateResponse, reason: Seq<char>) -> bool {
    &&& !r.result
    &&& r.msg matches Some(m) && m@ == reason
}

impl ClientValidateResponse {
    /// An accepting reply: no message.
    pub fn success() -> (r: ClientValidateResponse)
        ensures
            r.result,
            r.msg is None,
            r.version@ == spec_version(),
    {
        ClientValidateResponse { result: true, version: "1.0".to_owned(), msg: None }
    }

    /// A rejecting reply carrying the reason.
    pub fn error(msg: &str) -> (r: ClientValidateResponse)
        ensures
            !r.result,
            r.msg matches Some(m) && m@ == msg@,
            r.version@ == spec_version(),
    {
        ClientValidateResponse {
            result: false,
            version: "1.0".to_owned(),
            msg: Some(msg.to_owned()),
        }
    }
}

/// A validation request as submitted by the end client.
#[derive(Clone, Debug)]
pub struct ClientValidateRequest {
    pub challenge: String,
    pub validate: String,
    pub seccode: String,
}

/// Query carried by the upstream register call.
#[derive(Clone, Debug)]
pub struct ServerRegisterRequest {
    pub user_info: UserInfo,
    pub digestmod: DigestMod,
    pub json_format: u32,
    pub sdk: String,
    pub captcha_id: String,
}

/// Upstream register reply: the raw challenge token.
#[derive(Clone, Debug)]
pub struct ServerRegisterResponse {
    pub challenge: String,
}

/// Body of the upstream validate call.
#[derive(Clone, Debug)]
pub struct ServerValidateRequest {
    pub user_info: UserInfo,
    pub digestmod: DigestMod,
    pub json_format: u32,
    pub sdk: String,
    pub captcha_id: String,
    pub seccode: String,
    pub challenge: String,
}

/// Upstream validate reply: `Some(confirmation)` on acceptance, `None` when
/// the provider rejected the security code.
#[derive(Clone, Debug)]
pub struct ServerValidateResponse {
    pub seccode: Option<String>,
}

} // verus!
