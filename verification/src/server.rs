//! The verification handler: the decisions of the register and validate
//! flows. Each flow makes at most two upstream exchanges (the bypass-status
//! check, then register or validate); the transport performs the exchanges
//! and feeds their results to the functions here, which shape the
//! client-facing reply.
//!
//! Register: when the bypass check reported healthy and the upstream token
//! does not decline, the reply carries the signed token; otherwise the relay
//! is degraded and the reply carries a fresh fallback token. Validate: blank
//! fields are rejected before any upstream call; under a healthy bypass the
//! upstream verdict decides; under a degraded one the client is accepted
//! unconditionally, by design of the vendor protocol.

use vstd::prelude::*;
use crate::client::Client;
use crate::digest::{sign, spec_sign};
use crate::fallback::{generate_challenge, is_challenge_char};
use crate::models::{
    spec_rejected_with,
    ClientRegisterResponse,
    ClientValidateRequest,
    ClientValidateResponse,
};
use crate::text::{is_blank, spec_blank, str_eq};

verus! {

/// Whether an upstream register token declines the request: empty or the
/// sentinel "0". A declining token puts the flow on the degraded path, the
/// same as an unhealthy bypass status.
pub open spec fn spec_token_declined(t: Seq<char>) -> bool {
    t.len() == 0 || t == "0"@
}

/// Whether a register token declines (empty or the sentinel "0").
pub fn token_declined(t: &str) -> (r: bool)
    ensures
        r == spec_token_declined(t@),
{
    t.is_empty() || str_eq(t, "0")
}

/// A degraded-mode register reply: not a success, and its challenge is a
/// fallback token of 32 lowercase-alphanumeric characters.
pub open spec fn spec_degraded_register(r: ClientRegisterResponse) -> bool {
    !r.success && r.challenge@.len() == 32 && (forall|i: int|
        0 <= i < r.challenge@.len() ==> is_challenge_char(#[trigger] r.challenge@[i]))
}

/// The relay itself: the upstream client configuration and the server-held
/// secret the challenge tokens are signed with. The secret never appears in
/// any reply; a challenge sent to the client under normal mode is always the
/// signed transform of the upstream token, never the raw token.
pub struct Server {
    pub client: Client,
    pub captcha_secret: String,
}

impl Server {
    pub fn new(client: Client, captcha_secret: String) -> (r: Server)
        ensures
            r.client == client,
            r.captcha_secret == captcha_secret,
    {
        Server { client, captcha_secret }
    }

    /// Shapes the register reply from what upstream said: `None` when the
    /// bypass check reported degraded (so no register call was made),
    /// `Some(token)` with the raw upstream token otherwise.
    pub fn register_response(&self, upstream_token: Option<String>) -> (r: ClientRegisterResponse)
        ensures
            r.new_captcha,
            r.captcha_id@ == self.client.captcha_id@,
            upstream_token matches Some(t) ==> {
                &&& !spec_token_declined(t@) ==> (r.success && r.challenge@ == spec_sign(
                    self.client.digestmod,
                    t@,
                    self.captcha_secret@,
                ))
                &&& spec_token_declined(t@) ==> spec_degraded_register(r)
            },
            upstream_token is None ==> spec_degraded_register(r),
    {
        match upstream_token {
            Some(t) => {
                if !token_declined(t.as_str()) {
                    let challenge = sign(
                        self.client.digestmod,
                        t.as_str(),
                        self.captcha_secret.as_str(),
                    );
                    ClientRegisterResponse {
                        success: true,
                        new_captcha: true,
                        challenge,
                        captcha_id: self.client.captcha_id.clone(),
                    }
                } else {
                    self.degraded_register()
                }
            },
            None => self.degraded_register(),
        }
    }

    fn degraded_register(&self) -> (r: ClientRegisterResponse)
        ensures
            r.new_captcha,
            r.captcha_id@ == self.client.captcha_id@,
            spec_degraded_register(r),
    {
        ClientRegisterResponse {
            success: false,
            new_captcha: true,
            challenge: generate_challenge(),
            captcha_id: self.client.captcha_id.clone(),
        }
    }

    /// Rejects a validation request whose challenge, user solution or
    /// security code is blank, before any upstream call; accepts the request
    /// for further handling otherwise.
    pub fn validate_precheck(req: &ClientValidateRequest) -> (r: Option<ClientValidateResponse>)
        ensures
            r is Some <==> (spec_blank(req.challenge@) || spec_blank(req.validate@) || spec_blank(
                req.seccode@,
            )),
            r matches Some(resp) ==> spec_rejected_with(resp, "Invalid request fields"@),
    {
        if is_blank(req.challenge.as_str()) || is_blank(req.validate.as_str()) || is_blank(
            req.seccode.as_str(),
        ) {
            Some(ClientValidateResponse::error("Invalid request fields"))
        } else {
            None
        }
    }

    /// Shapes the validate reply from the bypass status and, when it was
    /// healthy, the upstream verdict. Under a degraded bypass the reply is
    /// always an acceptance, whatever the client submitted: the provider
    /// cannot be consulted, and the vendor protocol trusts the client in
    /// this mode.
    pub fn validate_response(bypass_healthy: bool, upstream_seccode: Option<String>) -> (r:
        ClientValidateResponse)
        ensures
            !bypass_healthy ==> r.result,
            (bypass_healthy && upstream_seccode is Some) ==> r.result,
            (bypass_healthy && upstream_seccode is None) ==> spec_rejected_with(
                r,
                "Invalid security code"@,
            ),
            r.result ==> r.msg is None,
    {
        if bypass_healthy {
            match upstream_seccode {
                Some(_) => ClientValidateResponse::success(),
                None => ClientValidateResponse::error("Invalid security code"),
            }
        } else {
            ClientValidateResponse::success()
        }
    }
}

} // verus!
