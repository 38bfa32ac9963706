//! The upstream side of the relay: the configuration the three upstream
//! operations are keyed by, the encoders that build their query strings and
//! bodies, and the decoders for the vendor's sentinel-laden reply fields.
//! The HTTP exchange itself happens outside the library; it sends what these
//! encoders build and hands the decoders the fields it read back.

use vstd::prelude::*;
use vstd::string::StrSliceExecFns;
use crate::codec::{dec_digits, json_string, pct_str, push_json_string, push_pct_str, push_u32_dec};
use crate::error::Error;
use crate::models::{
    ClientType,
    DigestMod,
    ServerRegisterRequest,
    ServerValidateRequest,
    ServerValidateResponse,
    StatusRequest,
    StatusResponse,
    UserInfo,
};
use crate::text::str_eq;

verus! {

/// Configuration of the upstream client: the account's captcha id and the
/// digest algorithm the relay signs challenge tokens with.
pub struct Client {
    pub captcha_id: String,
    pub digestmod: DigestMod,
}

/// The characters of an optional string, when it is there.
pub open spec fn spec_opt_chars(v: Option<String>) -> Option<Seq<char>> {
    match v {
        None => None,
        Some(s) => Some(s@),
    }
}

/// An optional query field: nothing when absent, `<prefix><value>&` when
/// present, the value form-urlencoded.
pub open spec fn spec_opt_field(prefix: Seq<char>, v: Option<Seq<char>>) -> Seq<char> {
    match v {
        None => Seq::empty(),
        Some(s) => prefix + pct_str(s) + "&"@,
    }
}

/// The client-type query field, under the names the upstream wire format
/// uses.
pub open spec fn spec_client_type_field(ct: Option<ClientType>) -> Seq<char> {
    match ct {
        None => Seq::empty(),
        Some(ClientType::Web) => "client_type=web&"@,
        Some(ClientType::Mobile) => "client_type=h5&"@,
        Some(ClientType::Native) => "client_type=native&"@,
        Some(ClientType::Unknown) => "client_type=unknown&"@,
    }
}

/// The wire name of a digest algorithm.
pub open spec fn spec_digestmod_name(alg: DigestMod) -> Seq<char> {
    match alg {
        DigestMod::Md5 => "md5"@,
        DigestMod::Sha256 => "sha256"@,
        DigestMod::HmacSha256 => "hmac-sha256"@,
    }
}

/// The query of the bypass-status check, keyed by the captcha id alone.
pub open spec fn spec_status_query(captcha_id: Seq<char>) -> Seq<char> {
    "gt="@ + pct_str(captcha_id)
}

/// The query of the register call: the optional user context first, then the
/// digest algorithm, the JSON-format flag, the SDK identifier and the
/// captcha id.
pub open spec fn spec_register_query(req: ServerRegisterRequest) -> Seq<char> {
    spec_opt_field("user_id="@, spec_opt_chars(req.user_info.user_id)) + spec_client_type_field(
        req.user_info.client_type,
    ) + spec_opt_field("ip_address="@, spec_opt_chars(req.user_info.ip_address)) + "digestmod="@
        + spec_digestmod_name(req.digestmod) + "&json_format="@ + dec_digits(req.json_format as nat)
        + "&sdk="@ + pct_str(req.sdk@) + "&gt="@ + pct_str(req.captcha_id@)
}

/// An optional JSON value: `null` when absent, a string literal when present.
pub open spec fn spec_opt_json(v: Option<Seq<char>>) -> Seq<char> {
    match v {
        None => "null"@,
        Some(s) => json_string(s),
    }
}

/// The client type as a JSON value.
pub open spec fn spec_client_type_json(ct: Option<ClientType>) -> Seq<char> {
    match ct {
        None => "null"@,
        Some(ClientType::Web) => "\"web\""@,
        Some(ClientType::Mobile) => "\"h5\""@,
        Some(ClientType::Native) => "\"native\""@,
        Some(ClientType::Unknown) => "\"unknown\""@,
    }
}

/// The digest algorithm as a JSON value.
pub open spec fn spec_digestmod_json(alg: DigestMod) -> Seq<char> {
    match alg {
        DigestMod::Md5 => "\"md5\""@,
        DigestMod::Sha256 => "\"sha256\""@,
        DigestMod::HmacSha256 => "\"hmac-sha256\""@,
    }
}

/// The JSON body of the validate call.
pub open spec fn spec_validate_body(req: ServerValidateRequest) -> Seq<char> {
    "{\"user_id\":"@ + spec_opt_json(spec_opt_chars(req.user_info.user_id)) + ",\"client_type\":"@
        + spec_client_type_json(req.user_info.client_type) + ",\"ip_address\":"@ + spec_opt_json(
        spec_opt_chars(req.user_info.ip_address),
    ) + ",\"digestmod\":"@ + spec_digestmod_json(req.digestmod) + ",\"json_format\":"@
        + dec_digits(req.json_format as nat) + ",\"sdk\":"@ + json_string(req.sdk@)
        + ",\"captchaid\":"@ + json_string(req.captcha_id@) + ",\"seccode\":"@ + json_string(
        req.seccode@,
    ) + ",\"challenge\":"@ + json_string(req.challenge@) + "}"@
}

impl Client {
    pub fn new(captcha_id: String, digestmod: DigestMod) -> (r: Client)
        ensures
            r.captcha_id == captcha_id,
            r.digestmod == digestmod,
    {
        Client { captcha_id, digestmod }
    }

    /// Builds the record behind the bypass-status query.
    pub fn status_request(&self) -> (r: StatusRequest)
        ensures
            r.captcha_id == self.captcha_id,
    {
        StatusRequest { captcha_id: self.captcha_id.clone() }
    }

    /// Builds the record behind the register query: the caller's user
    /// context under this client's configuration and the fixed SDK
    /// identifier.
    pub fn register_request(&self, user_info: UserInfo) -> (r: ServerRegisterRequest)
        ensures
            r.user_info == user_info,
            r.digestmod == self.digestmod,
            r.json_format == 1,
            r.sdk@ == "geetest rust sdk 1.0"@,
            r.captcha_id == self.captcha_id,
    {
        ServerRegisterRequest {
            user_info,
            digestmod: self.digestmod,
            json_format: 1,
            sdk: "geetest rust sdk 1.0".to_owned(),
            captcha_id: self.captcha_id.clone(),
        }
    }

    /// Builds the record behind the validate call's body.
    pub fn validate_request(
        &self,
        seccode: String,
        challenge: String,
        user_info: UserInfo,
    ) -> (r: ServerValidateRequest)
        ensures
            r.user_info == user_info,
            r.digestmod == self.digestmod,
            r.json_format == 1,
            r.sdk@ == "geetest rust sdk 1.0"@,
            r.captcha_id == self.captcha_id,
            r.seccode == seccode,
            r.challenge == challenge,
    {
        ServerValidateRequest {
            user_info,
            digestmod: self.digestmod,
            json_format: 1,
            sdk: "geetest rust sdk 1.0".to_owned(),
            captcha_id: self.captcha_id.clone(),
            seccode,
            challenge,
        }
    }
}

/// Encodes the query string of the bypass-status check.
pub fn encode_status_query(req: &StatusRequest) -> (r: String)
    ensures
        r@ == spec_status_query(req.captcha_id@),
{
    let mut out = String::new();
    out.append("gt=");
    push_pct_str(&mut out, req.captcha_id.as_str());
    proof {
        assert(out@ =~= spec_status_query(req.captcha_id@));
    }
    out
}

/// Encodes the query string of the register call.
#[verifier::rlimit(50)]
pub fn encode_register_query(req: &ServerRegisterRequest) -> (r: String)
    ensures
        r@ == spec_register_query(*req),
{
    let mut out = String::new();
    match &req.user_info.user_id {
        Some(v) => {
            out.append("user_id=");
            push_pct_str(&mut out, v.as_str());
            out.append("&");
        },
        None => {},
    }
    proof {
        assert(out@ =~= spec_opt_field("user_id="@, spec_opt_chars(req.user_info.user_id)));
    }
    match &req.user_info.client_type {
        Some(ClientType::Web) => out.append("client_type=web&"),
        Some(ClientType::Mobile) => out.append("client_type=h5&"),
        Some(ClientType::Native) => out.append("client_type=native&"),
        Some(ClientType::Unknown) => out.append("client_type=unknown&"),
        None => {},
    }
    match &req.user_info.ip_address {
        Some(v) => {
            out.append("ip_address=");
            push_pct_str(&mut out, v.as_str());
            out.append("&");
        },
        None => {},
    }
    out.append("digestmod=");
    match req.digestmod {
        DigestMod::Md5 => out.append("md5"),
        DigestMod::Sha256 => out.append("sha256"),
        DigestMod::HmacSha256 => out.append("hmac-sha256"),
    }
    out.append("&json_format=");
    push_u32_dec(&mut out, req.json_format);
    out.append("&sdk=");
    push_pct_str(&mut out, req.sdk.as_str());
    out.append("&gt=");
    push_pct_str(&mut out, req.captcha_id.as_str());
    proof {
        assert(out@ =~= spec_register_query(*req));
    }
    out
}

/// Encodes the JSON body of the validate call.
pub fn encode_validate_body(req: &ServerValidateRequest) -> (r: String)
    ensures
        r@ == spec_validate_body(*req),
{
    let mut out = String::new();
    out.append("{\"user_id\":");
    match &req.user_info.user_id {
        Some(v) => push_json_string(&mut out, v.as_str()),
        None => out.append("null"),
    }
    out.append(",\"client_type\":");
    match &req.user_info.client_type {
        Some(ClientType::Web) => out.append("\"web\""),
        Some(ClientType::Mobile) => out.append("\"h5\""),
        Some(ClientType::Native) => out.append("\"native\""),
        Some(ClientType::Unknown) => out.append("\"unknown\""),
        None => out.append("null"),
    }
    out.append(",\"ip_address\":");
    match &req.user_info.ip_address {
        Some(v) => push_json_string(&mut out, v.as_str()),
        None => out.append("null"),
    }
    out.append(",\"digestmod\":");
    match req.digestmod {
        DigestMod::Md5 => out.append("\"md5\""),
        DigestMod::Sha256 => out.append("\"sha256\""),
        DigestMod::HmacSha256 => out.append("\"hmac-sha256\""),
    }
    out.append(",\"json_format\":");
    push_u32_dec(&mut out, req.json_format);
    out.append(",\"sdk\":");
    push_json_string(&mut out, req.sdk.as_str());
    out.append(",\"captchaid\":");
    push_json_string(&mut out, req.captcha_id.as_str());
    out.append(",\"seccode\":");
    push_json_string(&mut out, req.seccode.as_str());
    out.append(",\"challenge\":");
    push_json_string(&mut out, req.challenge.as_str());
    out.append("}");
    proof {
        assert(out@ =~= spec_validate_body(*req));
    }
    out
}

/// Decodes the upstream status field: `"success"` means verification is
/// healthy, `"fail"` that the provider is degraded; anything else is a
/// malformed reply.
pub fn decode_status(s: &str) -> (r: Result<StatusResponse, Error>)
    ensures
        s@ == "success"@ ==> (r matches Ok(sr) && sr.status),
        s@ == "fail"@ ==> (r matches Ok(sr) && !sr.status),
        r is Err <==> (s@ != "success"@ && s@ != "fail"@),
        r matches Err(e) ==> e is Json,
{
    proof {
        reveal_strlit("success");
        reveal_strlit("fail");
        assert("success"@.len() != "fail"@.len());
    }
    if str_eq(s, "success") {
        Ok(StatusResponse { status: true })
    } else if str_eq(s, "fail") {
        Ok(StatusResponse { status: false })
    } else {
        Err(Error::Json("status is neither success nor fail".to_owned()))
    }
}

/// Decodes the upstream validate reply's seccode field: the sentinel
/// `"false"` means the provider rejected the security code; any other value
/// is the confirmation code.
pub fn decode_seccode(s: String) -> (r: ServerValidateResponse)
    ensures
        r.seccode is None <==> s@ == "false"@,
        r.seccode matches Some(v) ==> v == s,
{
    if str_eq(s.as_str(), "false") {
        ServerValidateResponse { seccode: None }
    } else {
        ServerValidateResponse { seccode: Some(s) }
    }
}

} // verus!
