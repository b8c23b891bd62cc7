//! The Authorization Code Grant flow: a state machine that builds the
//! authorization URL, validates the anti-forgery state of the redirect,
//! and exchanges the code for tokens.  The exchange never begins before
//! the redirect's state matched the CSRF token exactly.

use vstd::prelude::*;

use crate::pkce::PkceMaterial;
use crate::pkce::alphabet_seq;
use crate::pkce::is_alphabet_char;
use crate::pkce::random_token;
use crate::redirect::RedirectResult;
use crate::redirect::RedirectResultV;
use crate::token::TokenPair;
use crate::token::parse_token_response;
use crate::token::exchange_error_cause;
use crate::token::spec_exchange_cause;
use crate::token::spec_token_pair;
use crate::urls::OAuth2Endpoint;
use crate::urls::authorization_url;
use crate::urls::spec_auth_url;
use crate::urls::spec_token_body;
use crate::urls::token_request_body;

verus! {

/// Why a flow attempt failed.
#[derive(Debug)]
pub enum FlowError {
    UserAborted,
    BindError,
    RedirectTimeout,
    AuthorizationDenied { reason: String },
    CsrfMismatch,
    TokenExchangeError { cause: String },
}

/// How the redirect listener ended without delivering a redirect.
pub enum ListenFailure {
    Bind,
    Timeout,
    Aborted,
}

/// Where the flow stands.
pub enum FlowState {
    AwaitingRedirect,
    Exchanging,
    Complete,
    Failed,
}

/// The token-exchange request the caller must send: one POST of `body` to
/// `token_url`.
pub struct ExchangeRequest {
    pub token_url: String,
    pub body: String,
}

/// One authorization attempt.  The endpoint, the CSRF token and the PKCE
/// material are fixed when the attempt starts and never change.
pub struct Flow {
    pub endpoint: OAuth2Endpoint,
    pub csrf: String,
    pub pkce: Option<PkceMaterial>,
    pub state: FlowState,
}

impl Flow {
    /// The attempt's invariant: a well-formed endpoint, a 32-character
    /// URL-safe CSRF token, and PKCE material exactly when the endpoint
    /// asks for it.
    pub open spec fn wf(self) -> bool {
        &&& self.endpoint.wf()
        &&& self.csrf@.len() == 32
        &&& alphabet_seq(self.csrf@)
        &&& (self.pkce is Some <==> self.endpoint.pkce_enabled)
        &&& (self.pkce is Some ==> self.pkce->0.wf())
    }

    /// The verifier of the attempt's PKCE material, when there is one.
    pub open spec fn spec_verifier(self) -> Option<Seq<char>> {
        match self.pkce {
            Some(m) => Some(m.verifier@),
            None => None,
        }
    }

    /// Starts an attempt: draws a fresh CSRF token and, when the endpoint
    /// enables PKCE, fresh PKCE material, and returns the flow awaiting
    /// the redirect together with the authorization URL to surface to the
    /// user.  `None` only when the system's random source fails.
    pub fn start(endpoint: OAuth2Endpoint) -> (r: Option<(Flow, String)>)
        requires
            endpoint.wf(),
        ensures
            r is Some ==> {
                let flow = (r->0).0;
                let url = (r->0).1;
                &&& flow.wf()
                &&& flow.state is AwaitingRedirect
                &&& flow.endpoint == endpoint
                &&& (endpoint.pkce_enabled ==> flow.pkce is Some && url@ == spec_auth_url(
                    endpoint,
                    Some(flow.pkce->0.challenge@),
                    flow.csrf@,
                ))
                &&& (!endpoint.pkce_enabled ==> flow.pkce is None && url@ == spec_auth_url(
                    endpoint,
                    None,
                    flow.csrf@,
                ))
            },
    {
        let csrf = match random_token(32) {
            Some(t) => t,
            None => {
                return None;
            },
        };
        proof {
            assert forall|i: int| 0 <= i < csrf@.len() implies '\0' <= #[trigger] csrf@[i]
                <= '\u{7f}' by {
                assert(is_alphabet_char(csrf@[i]));
            }
        }
        let pkce: Option<PkceMaterial> = if endpoint.pkce_enabled {
            match PkceMaterial::generate() {
                Some(m) => Some(m),
                None => {
                    return None;
                },
            }
        } else {
            Option::None
        };
        let url = match &pkce {
            Some(m) => authorization_url(&endpoint, Some(m), &csrf),
            None => authorization_url(&endpoint, Option::None, &csrf),
        };
        Some((Flow { endpoint, csrf, pkce, state: FlowState::AwaitingRedirect }, url))
    }

    /// Takes the redirect listener's outcome.  A denial fails the attempt
    /// with the provider's reason.  A success whose `state` differs from
    /// the CSRF token — by even one character — fails it as `CsrfMismatch`
    /// and no exchange request is produced; only an exact match moves the
    /// flow to `Exchanging` and yields the one token-exchange request.
    pub fn on_redirect(&mut self, r: &RedirectResult) -> (res: Result<ExchangeRequest, FlowError>)
        requires
            old(self).wf(),
            old(self).state is AwaitingRedirect,
            r.wf(),
        ensures
            final(self).wf(),
            final(self).endpoint == old(self).endpoint,
            final(self).csrf == old(self).csrf,
            final(self).pkce == old(self).pkce,
            res is Ok <==> (r@ matches RedirectResultV::Success { code, state } && state == old(
                self,
            ).csrf@),
            (r@ matches RedirectResultV::Denied { error, error_description } ==> (
            res matches Err(FlowError::AuthorizationDenied { reason }) && reason@ == error
                && final(self).state is Failed)),
            (r@ matches RedirectResultV::Success { code, state } ==> (state != old(self).csrf@
                ==> ((res matches Err(FlowError::CsrfMismatch)) && final(self).state is Failed))),
            (r@ matches RedirectResultV::Success { code, state } ==> (state == old(self).csrf@
                ==> (final(self).state is Exchanging && (res matches Ok(req) && req.token_url@
                == old(self).endpoint.token_url@ && req.body@ == spec_token_body(
                old(self).endpoint,
                code,
                old(self).spec_verifier(),
            ))))),
    {
        match r {
            RedirectResult::Denied { error, error_description: _ } => {
                self.state = FlowState::Failed;
                Err(FlowError::AuthorizationDenied { reason: error.clone() })
            },
            RedirectResult::Success { code, state } => {
                if *state == self.csrf {
                    let body = match &self.pkce {
                        Some(m) => token_request_body(&self.endpoint, code, Some(m)),
                        None => token_request_body(&self.endpoint, code, Option::None),
                    };
                    let req = ExchangeRequest { token_url: self.endpoint.token_url.clone(), body };
                    self.state = FlowState::Exchanging;
                    Ok(req)
                } else {
                    self.state = FlowState::Failed;
                    Err(FlowError::CsrfMismatch)
                }
            },
        }
    }

    /// Takes the listener's failure instead of a redirect: the attempt is
    /// failed with the matching error.
    pub fn on_listener_failure(&mut self, f: ListenFailure) -> (e: FlowError)
        requires
            old(self).state is AwaitingRedirect,
        ensures
            final(self).state is Failed,
            final(self).endpoint == old(self).endpoint,
            final(self).csrf == old(self).csrf,
            final(self).pkce == old(self).pkce,
            f is Bind ==> e is BindError,
            f is Timeout ==> e is RedirectTimeout,
            f is Aborted ==> e is UserAborted,
    {
        self.state = FlowState::Failed;
        match f {
            ListenFailure::Bind => FlowError::BindError,
            ListenFailure::Timeout => FlowError::RedirectTimeout,
            ListenFailure::Aborted => FlowError::UserAborted,
        }
    }

    /// Takes the token endpoint's response body.  The attempt completes
    /// with the parsed pair exactly when the body is a well-formed token
    /// response carrying an access token; anything else fails it as
    /// `TokenExchangeError`, with no retry.
    pub fn on_token_response(&mut self, body: &str) -> (res: Result<TokenPair, FlowError>)
        requires
            old(self).wf(),
            old(self).state is Exchanging,
        ensures
            final(self).wf(),
            final(self).endpoint == old(self).endpoint,
            final(self).csrf == old(self).csrf,
            final(self).pkce == old(self).pkce,
            res is Ok <==> spec_token_pair(body@) is Some,
            (res matches Ok(t) ==> t@ == spec_token_pair(body@)->0
                && final(self).state is Complete),
            res is Err ==> final(self).state is Failed && (res matches Err(
                FlowError::TokenExchangeError { cause },
            ) && cause@ == spec_exchange_cause(body@)),
    {
        match parse_token_response(body) {
            Some(t) => {
                self.state = FlowState::Complete;
                Ok(t)
            },
            None => {
                self.state = FlowState::Failed;
                Err(FlowError::TokenExchangeError { cause: exchange_error_cause(body) })
            },
        }
    }

    /// Takes the failure of sending the exchange request itself (the
    /// network, not the provider): the attempt is failed as
    /// `TokenExchangeError` with the given cause, with no retry.
    pub fn on_exchange_failure(&mut self, cause: String) -> (e: FlowError)
        requires
            old(self).state is Exchanging,
        ensures
            final(self).state is Failed,
            final(self).endpoint == old(self).endpoint,
            final(self).csrf == old(self).csrf,
            final(self).pkce == old(self).pkce,
            (e matches FlowError::TokenExchangeError { cause: c } && c@ == cause@),
    {
        self.state = FlowState::Failed;
        FlowError::TokenExchangeError { cause }
    }
}

} // verus!
