//! The immutable endpoint configuration of one authorization attempt, the
//! authorization URL built from it, and the token-exchange request body.

use vstd::prelude::*;

use crate::text::ascii_seq;
use crate::text::chars_of_str;
use crate::text::dec_rep;
use crate::text::join_scopes;
use crate::text::pct_encode;
use crate::text::push_dec;
use crate::text::push_pct_encoded;
use crate::text::push_str_chars;
use crate::text::string_of_chars;
use crate::pkce::PkceMaterial;

verus! {

/// The SASL mechanism the resulting tokens will be used with.
#[derive(Clone, Copy, PartialEq, Eq, Structural, Debug)]
pub enum OAuth2Method {
    XOAuth2,
    OAuthBearer,
}

/// Everything fixed before an authorization attempt starts.
pub struct OAuth2Endpoint {
    pub client_id: String,
    pub client_secret: String,
    pub authorization_url: String,
    pub token_url: String,
    pub redirect_host: String,
    pub redirect_port: u16,
    pub scopes: Vec<String>,
    pub pkce_enabled: bool,
    pub method: OAuth2Method,
}

impl OAuth2Endpoint {
    /// The configuration's text fields are ASCII, as URLs, client
    /// identifiers and scope names on the wire are, and at least the
    /// mandatory main scope is present.
    pub open spec fn wf(self) -> bool {
        &&& self.scopes@.len() >= 1
        &&& ascii_seq(self.client_id@)
        &&& ascii_seq(self.client_secret@)
        &&& ascii_seq(self.authorization_url@)
        &&& ascii_seq(self.token_url@)
        &&& ascii_seq(self.redirect_host@)
        &&& forall|i: int|
            0 <= i < self.scopes@.len() ==> ascii_seq(#[trigger] self.scopes@[i]@)
    }
}

/// The redirect URI the browser is sent back to.
pub open spec fn spec_redirect_uri(host: Seq<char>, port: u16) -> Seq<char> {
    "http://"@ + host + ":"@ + dec_rep(port as int)
}

/// The authorization URL: the provider's authorization endpoint followed by
/// the query holding response type, client id, redirect URI, the scopes
/// joined by spaces, the anti-forgery state and, when PKCE is on, the
/// challenge with its method.
pub open spec fn spec_auth_url(
    ep: OAuth2Endpoint,
    challenge: Option<Seq<char>>,
    state: Seq<char>,
) -> Seq<char> {
    ep.authorization_url@ + "?response_type=code&client_id="@ + pct_encode(ep.client_id@)
        + "&redirect_uri="@ + pct_encode(spec_redirect_uri(ep.redirect_host@, ep.redirect_port))
        + "&scope="@ + pct_encode(join_scopes(ep.scopes.deep_view())) + "&state="@ + pct_encode(
        state,
    ) + (match challenge {
        Some(c) => "&code_challenge="@ + c + "&code_challenge_method=S256"@,
        None => Seq::<char>::empty(),
    })
}

/// The form-encoded body of the token-exchange request: the grant type, the
/// received code, the redirect URI, the client credentials and, when PKCE
/// was used, the original verifier (never the challenge).
pub open spec fn spec_token_body(
    ep: OAuth2Endpoint,
    code: Seq<char>,
    verifier: Option<Seq<char>>,
) -> Seq<char> {
    "grant_type=authorization_code&code="@ + pct_encode(code) + "&redirect_uri="@ + pct_encode(
        spec_redirect_uri(ep.redirect_host@, ep.redirect_port),
    ) + "&client_id="@ + pct_encode(ep.client_id@) + "&client_secret="@ + pct_encode(
        ep.client_secret@,
    ) + (match verifier {
        Some(v) => "&code_verifier="@ + v,
        None => Seq::<char>::empty(),
    })
}

/// Disabling PKCE changes nothing but dropping the PKCE parameters: the URL
/// and the body with PKCE on are exactly the PKCE-free ones with the
/// challenge (respectively the verifier) parameters appended, so with
/// `pkce_enabled = false` neither carries a `code_challenge`,
/// `code_challenge_method` or `code_verifier` parameter.
pub proof fn lemma_pkce_off_omits_pkce_params(
    ep: OAuth2Endpoint,
    challenge: Seq<char>,
    verifier: Seq<char>,
    state: Seq<char>,
    code: Seq<char>,
)
    ensures
        spec_auth_url(ep, Some(challenge), state) == spec_auth_url(ep, None, state)
            + "&code_challenge="@ + challenge + "&code_challenge_method=S256"@,
        spec_token_body(ep, code, Some(verifier)) == spec_token_body(ep, code, None)
            + "&code_verifier="@ + verifier,
{
    assert(spec_auth_url(ep, Some(challenge), state) =~= spec_auth_url(ep, None, state)
        + "&code_challenge="@ + challenge + "&code_challenge_method=S256"@);
    assert(spec_token_body(ep, code, Some(verifier)) =~= spec_token_body(ep, code, None)
        + "&code_verifier="@ + verifier);
}

/// The decimal digits of a number are ASCII.
proof fn lemma_dec_rep_ascii(n: int)
    requires
        n >= 0,
    ensures
        ascii_seq(dec_rep(n)),
    decreases n,
{
    if n >= 10 {
        lemma_dec_rep_ascii(n / 10);
    }
}

/// Builds the redirect URI for the listener's host and port.
pub fn redirect_uri_chars(host: &String, port: u16) -> (r: Vec<char>)
    requires
        ascii_seq(host@),
    ensures
        r@ == spec_redirect_uri(host@, port),
        ascii_seq(r@),
{
    let mut out: Vec<char> = Vec::new();
    push_str_chars(&mut out, "http://");
    push_str_chars(&mut out, host.as_str());
    push_str_chars(&mut out, ":");
    push_dec(&mut out, port);
    proof {
        reveal_strlit("http://");
        reveal_strlit(":");
        lemma_dec_rep_ascii(port as int);
        assert(out@ =~= spec_redirect_uri(host@, port));
    }
    out
}

/// Joins the scopes with single spaces, in order.
pub fn join_scopes_chars(scopes: &Vec<String>) -> (r: Vec<char>)
    requires
        forall|i: int| 0 <= i < scopes@.len() ==> ascii_seq(#[trigger] scopes@[i]@),
    ensures
        r@ == join_scopes(scopes.deep_view()),
        ascii_seq(r@),
{
    let mut out: Vec<char> = Vec::new();
    let mut i: usize = 0;
    while i < scopes.len()
        invariant
            forall|k: int| 0 <= k < scopes@.len() ==> ascii_seq(#[trigger] scopes@[k]@),
            i <= scopes@.len(),
            out@ == join_scopes(scopes.deep_view().take(i as int)),
            ascii_seq(out@),
        decreases scopes@.len() - i,
    {
        if i > 0 {
            out.push(' ');
        }
        push_str_chars(&mut out, scopes[i].as_str());
        proof {
            let dv = scopes.deep_view();
            assert(dv.take(i as int + 1).drop_last() =~= dv.take(i as int));
            assert(dv.take(i as int + 1).last() == dv[i as int]);
            assert(dv[i as int] == scopes@[i as int]@);
            if i == 0 {
                assert(out@ =~= join_scopes(dv.take(1)));
            } else {
                assert(out@ =~= join_scopes(dv.take(i as int)) + seq![' '] + dv[i as int]);
            }
        }
        i = i + 1;
    }
    proof {
        assert(scopes.deep_view().take(scopes@.len() as int) =~= scopes.deep_view());
    }
    out
}

/// Builds the authorization URL for this endpoint, the given anti-forgery
/// state and, when present, the PKCE challenge.
pub fn authorization_url(
    ep: &OAuth2Endpoint,
    pkce: Option<&PkceMaterial>,
    state: &String,
) -> (r: String)
    requires
        ep.wf(),
        ascii_seq(state@),
    ensures
        pkce is Some ==> r@ == spec_auth_url(*ep, Some(pkce->0.challenge@), state@),
        pkce is None ==> r@ == spec_auth_url(*ep, None, state@),
{
    let mut out: Vec<char> = Vec::new();
    push_str_chars(&mut out, ep.authorization_url.as_str());
    push_str_chars(&mut out, "?response_type=code&client_id=");
    let cid = chars_of_str(ep.client_id.as_str());
    push_pct_encoded(&mut out, &cid);
    push_str_chars(&mut out, "&redirect_uri=");
    let ruri = redirect_uri_chars(&ep.redirect_host, ep.redirect_port);
    push_pct_encoded(&mut out, &ruri);
    push_str_chars(&mut out, "&scope=");
    let joined = join_scopes_chars(&ep.scopes);
    push_pct_encoded(&mut out, &joined);
    push_str_chars(&mut out, "&state=");
    let st = chars_of_str(state.as_str());
    push_pct_encoded(&mut out, &st);
    match pkce {
        Some(m) => {
            push_str_chars(&mut out, "&code_challenge=");
            push_str_chars(&mut out, m.challenge.as_str());
            push_str_chars(&mut out, "&code_challenge_method=S256");
            proof {
                assert(out@ =~= spec_auth_url(*ep, Some(m.challenge@), state@));
            }
        },
        None => {
            proof {
                assert(out@ =~= spec_auth_url(*ep, None, state@));
            }
        },
    }
    string_of_chars(&out)
}

/// Builds the token-exchange request body for the received code and, when
/// PKCE was used, the verifier.
pub fn token_request_body(
    ep: &OAuth2Endpoint,
    code: &String,
    pkce: Option<&PkceMaterial>,
) -> (r: String)
    requires
        ep.wf(),
        ascii_seq(code@),
    ensures
        pkce is Some ==> r@ == spec_token_body(*ep, code@, Some(pkce->0.verifier@)),
        pkce is None ==> r@ == spec_token_body(*ep, code@, None),
{
    let mut out: Vec<char> = Vec::new();
    push_str_chars(&mut out, "grant_type=authorization_code&code=");
    let cd = chars_of_str(code.as_str());
    push_pct_encoded(&mut out, &cd);
    push_str_chars(&mut out, "&redirect_uri=");
    let ruri = redirect_uri_chars(&ep.redirect_host, ep.redirect_port);
    push_pct_encoded(&mut out, &ruri);
    push_str_chars(&mut out, "&client_id=");
    let cid = chars_of_str(ep.client_id.as_str());
    push_pct_encoded(&mut out, &cid);
    push_str_chars(&mut out, "&client_secret=");
    let cs = chars_of_str(ep.client_secret.as_str());
    push_pct_encoded(&mut out, &cs);
    match pkce {
        Some(m) => {
            push_str_chars(&mut out, "&code_verifier=");
            push_str_chars(&mut out, m.verifier.as_str());
            proof {
                assert(out@ =~= spec_token_body(*ep, code@, Some(m.verifier@)));
            }
        },
        None => {
            proof {
                assert(out@ =~= spec_token_body(*ep, code@, None));
            }
        },
    }
    string_of_chars(&out)
}

} // verus!
