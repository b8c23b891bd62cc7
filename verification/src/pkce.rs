//! PKCE material and CSRF tokens: cryptographically random strings over a
//! URL-safe alphabet, and the S256 challenge derived from the verifier.

use vstd::prelude::*;
use vstd::string::StrSliceExecFns;

use base64::Engine;
use sha2::Digest;

use crate::text::ascii_seq;
use crate::text::string_of_chars;

verus! {

/// The SHA-256 digest of a byte sequence.
pub uninterp spec fn sha256_of(b: Seq<u8>) -> Seq<u8>;

/// The base64url encoding, without padding, of a byte sequence.
pub uninterp spec fn base64url_nopad_of(b: Seq<u8>) -> Seq<char>;

/// The bytes of an ASCII character sequence, character by character.
pub open spec fn ascii_bytes(s: Seq<char>) -> Seq<u8> {
    Seq::new(s.len(), |i: int| s[i] as u8)
}

/// Relies on `getrandom::getrandom`: fills the buffer from the operating
/// system's cryptographically secure random source.  Nothing is promised of
/// the values, only that `n` bytes come back on success.
#[verifier::external_body]
fn random_bytes(n: usize) -> (r: Option<Vec<u8>>)
    ensures
        r is Some ==> r->0@.len() == n,
{
    let mut v = vec![0u8; n];
    match getrandom::getrandom(&mut v) {
        Ok(()) => Some(v),
        Err(_) => None,
    }
}

/// Relies on `sha2::Sha256::digest`: the 32-byte SHA-256 digest, a function
/// of the input bytes alone.
#[verifier::external_body]
fn sha256(b: &Vec<u8>) -> (r: Vec<u8>)
    ensures
        r@ == sha256_of(b@),
        r@.len() == 32,
{
    sha2::Sha256::digest(b.as_slice()).to_vec()
}

/// Relies on `base64::engine::general_purpose::URL_SAFE_NO_PAD.encode`:
/// the base64url encoding without padding, a function of the input bytes
/// alone, over the URL-safe alphabet (`A`-`Z`, `a`-`z`, `0`-`9`, `-`, `_`).
#[verifier::external_body]
fn base64url_nopad(b: &Vec<u8>) -> (r: String)
    ensures
        r@ == base64url_nopad_of(b@),
        ascii_seq(r@),
{
    base64::engine::general_purpose::URL_SAFE_NO_PAD.encode(b.as_slice())
}

/// The character standing at position `i` of the URL-safe random-material
/// alphabet: `A`-`Z`, then `a`-`z`, then `0`-`9`, then `-` and `_`.
pub open spec fn alphabet_char(i: int) -> char
    recommends
        0 <= i < 64,
{
    if 0 <= i < 26 {
        ((('A' as u8) + i) as u8) as char
    } else if 26 <= i < 52 {
        ((('a' as u8) + (i - 26)) as u8) as char
    } else if 52 <= i < 62 {
        ((('0' as u8) + (i - 52)) as u8) as char
    } else if i == 62 {
        '-'
    } else {
        '_'
    }
}

/// Whether a character belongs to the URL-safe random-material alphabet.
pub open spec fn is_alphabet_char(c: char) -> bool {
    ('A' <= c && c <= 'Z') || ('a' <= c && c <= 'z') || ('0' <= c && c <= '9') || c == '-'
        || c == '_'
}

/// A character sequence made only of URL-safe alphabet characters.
pub open spec fn alphabet_seq(s: Seq<char>) -> bool {
    forall|i: int| 0 <= i < s.len() ==> is_alphabet_char(#[trigger] s[i])
}

proof fn lemma_alphabet_char_ok(i: int)
    requires
        0 <= i < 64,
    ensures
        is_alphabet_char(alphabet_char(i)),
        alphabet_char(i) <= '\u{7f}',
{
}

/// Maps drawn bytes to alphabet characters: the character at `i` is the
/// alphabet character indexed by `bytes[i]` reduced modulo the alphabet's
/// size.
pub fn token_chars(bytes: &Vec<u8>) -> (r: Vec<char>)
    ensures
        r@ == Seq::new(bytes@.len(), |i: int| alphabet_char(bytes@[i] as int % 64)),
{
    let mut chars: Vec<char> = Vec::new();
    let mut i: usize = 0;
    while i < bytes.len()
        invariant
            i <= bytes@.len(),
            chars@.len() == i,
            forall|k: int|
                0 <= k < i ==> #[trigger] chars@[k] == alphabet_char(bytes@[k] as int % 64),
        decreases bytes@.len() - i,
    {
        let idx = bytes[i] % 64;
        let c: char = if idx < 26 {
            (('A' as u8) + idx) as char
        } else if idx < 52 {
            (('a' as u8) + idx - 26) as char
        } else if idx < 62 {
            (('0' as u8) + idx - 52) as char
        } else if idx == 62 {
            '-'
        } else {
            '_'
        };
        proof {
            assert(c == alphabet_char(idx as int));
        }
        chars.push(c);
        i = i + 1;
    }
    proof {
        assert(chars@ =~= Seq::new(bytes@.len(), |i: int| alphabet_char(bytes@[i] as int % 64)));
    }
    chars
}

/// Draws `n` fresh random characters from the URL-safe alphabet: `n` random
/// bytes, each mapped by `token_chars`.  `None` only when the system's
/// random source fails.
pub fn random_token(n: usize) -> (r: Option<String>)
    ensures
        r is Some ==> r->0@.len() == n && alphabet_seq(r->0@),
{
    let bytes = match random_bytes(n) {
        Some(b) => b,
        None => {
            return None;
        },
    };
    let chars = token_chars(&bytes);
    proof {
        assert forall|i: int| 0 <= i < chars@.len() implies is_alphabet_char(
            #[trigger] chars@[i],
        ) by {
            lemma_alphabet_char_ok(bytes@[i] as int % 64);
        }
    }
    Some(string_of_chars(&chars))
}

/// PKCE material for one authorization attempt: a fresh random verifier and
/// the challenge derived from it by SHA-256 and unpadded base64url (the
/// `S256` method).  The verifier never leaves the client until the token
/// exchange; only the challenge is put in the authorization URL.
pub struct PkceMaterial {
    pub verifier: String,
    pub challenge: String,
}

impl PkceMaterial {
    /// What every well-formed PKCE material satisfies: the verifier is 43
    /// URL-safe characters and the challenge is the unpadded base64url
    /// encoding of the verifier's SHA-256 digest.
    pub open spec fn wf(self) -> bool {
        &&& self.verifier@.len() == 43
        &&& alphabet_seq(self.verifier@)
        &&& self.challenge@ == base64url_nopad_of(sha256_of(ascii_bytes(self.verifier@)))
        &&& ascii_seq(self.challenge@)
    }

    /// Generates fresh material: a random 43-character verifier (within the
    /// 43 to 128 characters the protocol allows) and its derived challenge.
    /// `None` only when the system's random source fails.
    pub fn generate() -> (r: Option<PkceMaterial>)
        ensures
            r is Some ==> r->0.wf(),
    {
        let verifier = match random_token(43) {
            Some(v) => v,
            None => {
                return None;
            },
        };
        proof {
            assert forall|i: int| 0 <= i < verifier@.len() implies '\0' <= #[trigger] verifier@[i]
                <= '\u{7f}' by {
                assert(is_alphabet_char(verifier@[i]));
            }
        }
        let vs = verifier.as_str();
        let vbytes = vs.as_bytes_vec();
        proof {
            vstd::string::is_ascii_spec_bytes(vs);
            assert(vbytes@ =~= ascii_bytes(verifier@));
        }
        let digest = sha256(&vbytes);
        let challenge = base64url_nopad(&digest);
        Some(PkceMaterial { verifier, challenge })
    }
}

} // verus!
