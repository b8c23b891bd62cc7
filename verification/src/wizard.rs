//! The account wizard's decisions: the protocol choice and its default
//! port, the key every secret is filed under, the accumulated scopes, and
//! the persistence of a completed flow's tokens.

use vstd::prelude::*;

use crate::flow::FlowError;
use crate::store::SecretDescriptor;
use crate::store::SecretError;
use crate::store::StoredSecret;
use crate::text::push_str_chars;
use crate::text::string_of_chars;
use crate::token::TokenPair;
use crate::urls::OAuth2Endpoint;

verus! {

/// The transport security choice.
#[derive(Clone, Copy, PartialEq, Eq, Structural, Debug)]
pub enum Protocol {
    SslTls,
    StartTls,
    Plain,
}

/// The default port of a protocol choice: 465 for SSL/TLS, 587 for
/// STARTTLS, 25 for an unencrypted connection.
pub open spec fn spec_default_port(p: Protocol) -> u16 {
    match p {
        Protocol::SslTls => 465,
        Protocol::StartTls => 587,
        Protocol::Plain => 25,
    }
}

/// The default port for the chosen protocol.
pub fn default_port(p: Protocol) -> (r: u16)
    ensures
        r == spec_default_port(p),
{
    match p {
        Protocol::SslTls => 465,
        Protocol::StartTls => 587,
        Protocol::Plain => 25,
    }
}

/// The finished sender authentication configuration.
pub enum AuthConfig {
    PasswordAuth { passwd: SecretDescriptor },
    OAuth2Auth { endpoint: OAuth2Endpoint, access: StoredSecret, refresh: Option<StoredSecret> },
}

/// The finished sender configuration.
pub struct SmtpConfig {
    pub host: String,
    pub port: u16,
    pub ssl: Option<bool>,
    pub starttls: Option<bool>,
    pub login: String,
    pub auth: AuthConfig,
}

/// Builds the sender configuration from the wizard's collected choices:
/// the port is the override when one was given, else the protocol's
/// default; `ssl` is set only for SSL/TLS and `starttls` only for
/// STARTTLS.
pub fn build_smtp_config(
    host: String,
    protocol: Protocol,
    port_override: Option<u16>,
    login: String,
    auth: AuthConfig,
) -> (r: SmtpConfig)
    ensures
        r.host == host,
        r.login == login,
        r.auth == auth,
        r.port == (match port_override {
            Some(p) => p,
            None => spec_default_port(protocol),
        }),
        r.ssl == (if protocol is SslTls {
            Some(true)
        } else {
            None::<bool>
        }),
        r.starttls == (if protocol is StartTls {
            Some(true)
        } else {
            None::<bool>
        }),
{
    let port = match port_override {
        Some(p) => p,
        None => default_port(protocol),
    };
    let ssl: Option<bool> = if matches!(protocol, Protocol::SslTls) {
        Some(true)
    } else {
        Option::None
    };
    let starttls: Option<bool> = if matches!(protocol, Protocol::StartTls) {
        Some(true)
    } else {
        Option::None
    };
    SmtpConfig { host, port, ssl, starttls, login, auth }
}

/// Appends one more scope, as the repeat-until-declined collection does.
pub fn add_scope(scopes: &mut Vec<String>, scope: String)
    ensures
        final(scopes)@ == old(scopes)@.push(scope),
{
    scopes.push(scope);
}

/// A cancelled selection aborts the wizard: it never silently picks a
/// default entry.
pub fn require_selection(choice: Option<usize>) -> (r: Result<usize, FlowError>)
    ensures
        (choice matches Some(i) ==> r matches Ok(j) && j == i),
        choice is None ==> r matches Err(FlowError::UserAborted),
{
    match choice {
        Some(i) => Ok(i),
        None => Err(FlowError::UserAborted),
    }
}

/// A cancelled confirmation aborts the wizard: it never silently answers
/// for the user.
pub fn require_confirmation(choice: Option<bool>) -> (r: Result<bool, FlowError>)
    ensures
        (choice matches Some(b) ==> r matches Ok(x) && x == b),
        choice is None ==> r matches Err(FlowError::UserAborted),
{
    match choice {
        Some(b) => Ok(b),
        None => Err(FlowError::UserAborted),
    }
}

/// The key a secret is filed under: `{account}-{service}-{purpose}`.
pub open spec fn spec_secret_key(
    account: Seq<char>,
    service: Seq<char>,
    purpose: Seq<char>,
) -> Seq<char> {
    account + "-"@ + service + "-"@ + purpose
}

/// Builds the key a secret is filed under.
pub fn secret_key(account: &str, service: &str, purpose: &str) -> (r: String)
    ensures
        r@ == spec_secret_key(account@, service@, purpose@),
{
    let mut out: Vec<char> = Vec::new();
    push_str_chars(&mut out, account);
    push_str_chars(&mut out, "-");
    push_str_chars(&mut out, service);
    push_str_chars(&mut out, "-");
    push_str_chars(&mut out, purpose);
    string_of_chars(&out)
}

/// Where a completed flow's tokens are placed.
#[derive(Clone, Copy, PartialEq, Eq, Structural, Debug)]
pub enum TokenStoreBackend {
    Keyring,
    Raw,
}

/// Persists a completed flow's tokens under
/// `{account}-{service}-oauth2-access-token` and, when a refresh token
/// came back, `{account}-{service}-oauth2-refresh-token`.  The raw backend
/// cannot fail; the keyring fails only as `BackendUnavailable`, and then
/// nothing is considered persisted.  A missing refresh token is accepted;
/// the access token is always stored.
pub fn persist_tokens(
    backend: TokenStoreBackend,
    account: &str,
    service: &str,
    tokens: &TokenPair,
) -> (r: Result<(StoredSecret, Option<StoredSecret>), SecretError>)
    ensures
        backend is Raw ==> r is Ok,
        r is Err ==> backend is Keyring && (r matches Err(SecretError::BackendUnavailable)),
        (r matches Ok(p) ==> {
            &&& p.0.key@ == spec_secret_key(account@, service@, "oauth2-access-token"@)
            &&& (backend is Raw ==> (p.0.descriptor matches SecretDescriptor::Raw { value }
                && value@ == tokens.access_token@))
            &&& (backend is Keyring ==> (p.0.descriptor matches SecretDescriptor::Keyring {
                entry_key,
            } && entry_key@ == p.0.key@))
            &&& (p.1 is Some <==> tokens.refresh_token is Some)
            &&& (p.1 matches Some(rs) ==> {
                &&& rs.key@ == spec_secret_key(account@, service@, "oauth2-refresh-token"@)
                &&& (backend is Raw ==> (rs.descriptor matches SecretDescriptor::Raw { value }
                    && value@ == tokens.refresh_token->0@))
                &&& (backend is Keyring ==> (rs.descriptor
                    matches SecretDescriptor::Keyring { entry_key } && entry_key@ == rs.key@))
            })
        }),
{
    let access_key = secret_key(account, service, "oauth2-access-token");
    let access = match backend {
        TokenStoreBackend::Raw => StoredSecret {
            key: access_key,
            descriptor: SecretDescriptor::Raw { value: tokens.access_token.clone() },
        },
        TokenStoreBackend::Keyring => {
            let key2 = access_key.clone();
            match SecretDescriptor::store_keyring(key2, &tokens.access_token) {
                Ok(d) => StoredSecret { key: access_key, descriptor: d },
                Err(e) => {
                    return Err(e);
                },
            }
        },
    };
    let refresh = match &tokens.refresh_token {
        Some(rt) => {
            let refresh_key = secret_key(account, service, "oauth2-refresh-token");
            match backend {
                TokenStoreBackend::Raw => Some(
                    StoredSecret {
                        key: refresh_key,
                        descriptor: SecretDescriptor::Raw { value: rt.clone() },
                    },
                ),
                TokenStoreBackend::Keyring => {
                    let key2 = refresh_key.clone();
                    match SecretDescriptor::store_keyring(key2, rt) {
                        Ok(d) => Some(StoredSecret { key: refresh_key, descriptor: d }),
                        Err(e) => {
                            return Err(e);
                        },
                    }
                },
            }
        },
        None => Option::None,
    };
    Ok((access, refresh))
}

} // verus!
