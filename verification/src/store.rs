//! The pluggable secret storage: a sensitive string lives in the
//! operating-system keyring, verbatim in the configuration, or behind a
//! shell command that prints it on demand.

use vstd::prelude::*;

verus! {

/// How a secret is obtained or where it was placed.  For the keyring and
/// command variants the configuration never holds the literal secret.
pub enum SecretDescriptor {
    Keyring { entry_key: String },
    Raw { value: String },
    Command { shell: String },
}

/// Why a secret backend failed.
#[derive(Debug)]
pub enum SecretError {
    BackendUnavailable,
    CommandFailed { exit_code: Option<i32> },
}

/// Relies on `keyring::Entry::new` and `keyring::Entry::set_password`:
/// writes the secret under the given key in the platform's credential
/// vault.  The vault is external state, so nothing is promised beyond the
/// call having succeeded or not.
#[verifier::external_body]
fn keyring_set(entry_key: &String, value: &String) -> (r: Result<(), ()>)
{
    match keyring::Entry::new("account_setup", entry_key.as_str()) {
        Ok(e) => match e.set_password(value.as_str()) {
            Ok(()) => Ok(()),
            Err(_) => Err(()),
        },
        Err(_) => Err(()),
    }
}

/// Relies on `keyring::Entry::new` and `keyring::Entry::get_password`:
/// reads the secret stored under the given key.  The vault is external
/// state, so nothing is promised of the value.
#[verifier::external_body]
fn keyring_get(entry_key: &String) -> (r: Result<String, ()>)
{
    match keyring::Entry::new("account_setup", entry_key.as_str()) {
        Ok(e) => match e.get_password() {
            Ok(s) => Ok(s),
            Err(_) => Err(()),
        },
        Err(_) => Err(()),
    }
}

/// Relies on `duct::cmd` running `sh -c` with the given command line:
/// captures standard output, and reports a non-zero exit (its code, when
/// there is one) or a spawn failure as the error.
#[verifier::external_body]
fn run_shell(shell: &String) -> (r: Result<Vec<u8>, Option<i32>>)
{
    match duct::cmd("sh", ["-c", shell.as_str()]).stdout_capture().unchecked().run() {
        Ok(o) => {
            if o.status.success() {
                Ok(o.stdout)
            } else {
                Err(o.status.code())
            }
        },
        Err(_) => Err(None),
    }
}

/// Relies on `String::from_utf8`: succeeds exactly on valid UTF-8, and the
/// returned string's UTF-8 encoding is the input.
#[verifier::external_body]
fn bytes_to_string(b: Vec<u8>) -> (r: Option<String>)
    ensures
        r is Some <==> vstd::utf8::valid_utf8(b@),
        r is Some ==> vstd::utf8::encode_utf8((r->0)@) == b@,
{
    match String::from_utf8(b) {
        Ok(s) => Some(s),
        Err(_) => None,
    }
}

/// The bytes with every trailing newline or carriage return removed.
pub open spec fn trim_newlines(b: Seq<u8>) -> Seq<u8>
    decreases b.len(),
{
    if b.len() > 0 && (b.last() == 10 || b.last() == 13) {
        trim_newlines(b.drop_last())
    } else {
        b
    }
}

/// Removes trailing newlines and carriage returns.
pub fn trim_trailing_newlines(b: Vec<u8>) -> (r: Vec<u8>)
    ensures
        r@ == trim_newlines(b@),
{
    let mut v = b;
    while v.len() > 0 && (v[v.len() - 1] == 10 || v[v.len() - 1] == 13)
        invariant
            trim_newlines(v@) == trim_newlines(b@),
        decreases v@.len(),
    {
        v.pop();
    }
    v
}

/// Decodes what a secret command printed: trailing newlines dropped, the
/// rest read as UTF-8.  Succeeds exactly when the trimmed bytes are valid
/// UTF-8.
pub fn decode_secret_output(b: Vec<u8>) -> (r: Option<String>)
    ensures
        r is Some <==> vstd::utf8::valid_utf8(trim_newlines(b@)),
        r is Some ==> vstd::utf8::encode_utf8((r->0)@) == trim_newlines(b@),
{
    let t = trim_trailing_newlines(b);
    bytes_to_string(t)
}

impl SecretDescriptor {
    /// Fetches the secret this descriptor names.  A raw descriptor is a
    /// pure projection and always succeeds with exactly its value; the
    /// keyring fails only as `BackendUnavailable`; a command fails only as
    /// `CommandFailed`, and on success its output comes back with trailing
    /// newlines trimmed.
    pub fn resolve(&self) -> (r: Result<String, SecretError>)
        ensures
            (self matches SecretDescriptor::Raw { value } ==> (r matches Ok(v) && v@
                == value@)),
            self is Keyring ==> (r is Err ==> r matches Err(SecretError::BackendUnavailable)),
            self is Command ==> (r is Err ==> r matches Err(
                SecretError::CommandFailed { .. },
            )),
    {
        match self {
            SecretDescriptor::Raw { value } => Ok(value.clone()),
            SecretDescriptor::Keyring { entry_key } => match keyring_get(entry_key) {
                Ok(s) => Ok(s),
                Err(_) => Err(SecretError::BackendUnavailable),
            },
            SecretDescriptor::Command { shell } => match run_shell(shell) {
                Ok(out) => match decode_secret_output(out) {
                    Some(s) => Ok(s),
                    None => Err(SecretError::CommandFailed { exit_code: None }),
                },
                Err(code) => Err(SecretError::CommandFailed { exit_code: code }),
            },
        }
    }

    /// Stores `value` in the keyring under `entry_key` and returns the
    /// descriptor naming that entry; the literal secret is not kept.
    pub fn store_keyring(entry_key: String, value: &String) -> (r: Result<
        SecretDescriptor,
        SecretError,
    >)
        ensures
            (r matches Ok(d) ==> d matches SecretDescriptor::Keyring { entry_key: k } && k@
                == entry_key@),
            r is Err ==> r matches Err(SecretError::BackendUnavailable),
    {
        match keyring_set(&entry_key, value) {
            Ok(()) => Ok(SecretDescriptor::Keyring { entry_key }),
            Err(_) => Err(SecretError::BackendUnavailable),
        }
    }
}

/// A secret together with the key it is filed under.
pub struct StoredSecret {
    pub key: String,
    pub descriptor: SecretDescriptor,
}

} // verus!
