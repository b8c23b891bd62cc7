//! Parsing of the token endpoint's response: a flat JSON object whose
//! members are strings, non-negative integers or the literals `true`,
//! `false` and `null`.  The access token is mandatory, the refresh token
//! and the expiry are optional; anything else — nested values, malformed
//! text — is a failed exchange.

use vstd::prelude::*;

use vstd::string::StringExecFns;

use crate::text::chars_of_str;
use crate::text::string_of_chars;

verus! {

/// JSON insignificant whitespace.
pub open spec fn is_ws(c: char) -> bool {
    c == ' ' || c == '\t' || c == '\r' || c == '\n'
}

/// A decimal digit.
pub open spec fn is_digit(c: char) -> bool {
    '0' <= c && c <= '9'
}

/// The first position at or after `i` holding no whitespace.
pub open spec fn skip_ws(s: Seq<char>, i: int) -> int
    decreases s.len() - i when 0 <= i <= s.len()
{
    if i < s.len() && is_ws(s[i]) {
        skip_ws(s, i + 1)
    } else {
        i
    }
}

pub proof fn lemma_skip_ws_range(s: Seq<char>, i: int)
    requires
        0 <= i <= s.len(),
    ensures
        i <= skip_ws(s, i) <= s.len(),
    decreases s.len() - i,
{
    if i < s.len() && is_ws(s[i]) {
        lemma_skip_ws_range(s, i + 1);
    }
}

/// The character named by a string escape, `None` for an unsupported one.
pub open spec fn escape_char(c: char) -> Option<char> {
    if c == '"' {
        Some('"')
    } else if c == '\\' {
        Some('\\')
    } else if c == '/' {
        Some('/')
    } else if c == 'n' {
        Some('\n')
    } else if c == 't' {
        Some('\t')
    } else if c == 'r' {
        Some('\r')
    } else {
        None
    }
}

/// The body of a JSON string after its opening quote: the decoded content
/// and the position after the closing quote.
pub open spec fn str_body(s: Seq<char>, i: int) -> Option<(Seq<char>, int)>
    decreases s.len() - i when 0 <= i <= s.len()
{
    if i >= s.len() {
        None
    } else if s[i] == '"' {
        Some((Seq::empty(), i + 1))
    } else if s[i] == '\\' {
        if i + 1 < s.len() && escape_char(s[i + 1]) is Some {
            match str_body(s, i + 2) {
                Some(r) => Some((seq![escape_char(s[i + 1])->0] + r.0, r.1)),
                None => None,
            }
        } else {
            None
        }
    } else {
        match str_body(s, i + 1) {
            Some(r) => Some((seq![s[i]] + r.0, r.1)),
            None => None,
        }
    }
}

pub proof fn lemma_str_body_adv(s: Seq<char>, i: int)
    requires
        0 <= i <= s.len(),
        str_body(s, i) is Some,
    ensures
        i < (str_body(s, i)->0).1 <= s.len(),
    decreases s.len() - i,
{
    if i >= s.len() {
    } else if s[i] == '"' {
    } else if s[i] == '\\' {
        lemma_str_body_adv(s, i + 2);
    } else {
        lemma_str_body_adv(s, i + 1);
    }
}

/// The end of the digit run starting at `i`.
pub open spec fn digits_end(s: Seq<char>, i: int) -> int
    decreases s.len() - i when 0 <= i <= s.len()
{
    if i < s.len() && is_digit(s[i]) {
        digits_end(s, i + 1)
    } else {
        i
    }
}

pub proof fn lemma_digits_end_range(s: Seq<char>, i: int)
    requires
        0 <= i <= s.len(),
    ensures
        i <= digits_end(s, i) <= s.len(),
    decreases s.len() - i,
{
    if i < s.len() && is_digit(s[i]) {
        lemma_digits_end_range(s, i + 1);
    }
}

/// The value of a digit sequence read in base ten.
pub open spec fn dec_val(ds: Seq<char>) -> int
    decreases ds.len(),
{
    if ds.len() == 0 {
        0
    } else {
        10 * dec_val(ds.drop_last()) + (ds.last() as int - '0' as int)
    }
}

pub open spec fn pow10(n: nat) -> int
    decreases n,
{
    if n == 0 {
        1
    } else {
        10 * pow10((n - 1) as nat)
    }
}

/// A number: a run of up to eighteen digits (so that its value always fits
/// the machine), with its value and end position.
pub open spec fn parse_num(s: Seq<char>, i: int) -> Option<(int, int)> {
    let j = digits_end(s, i);
    if j == i || j - i > 18 {
        None
    } else {
        Some((dec_val(s.subrange(i, j)), j))
    }
}

/// A flat JSON value: a string, a number, or one of the three literals
/// (whose identity the token response never needs).
pub enum JsonV {
    Str(Seq<char>),
    Num(int),
    Lit,
}

/// One member value starting at `i`: a string, a number or a literal.
/// Nested objects and arrays are rejected.
pub open spec fn parse_value(s: Seq<char>, i: int) -> Option<(JsonV, int)> {
    if i < 0 || i >= s.len() {
        None
    } else if s[i] == '"' {
        match str_body(s, i + 1) {
            Some(r) => Some((JsonV::Str(r.0), r.1)),
            None => None,
        }
    } else if is_digit(s[i]) {
        match parse_num(s, i) {
            Some(r) => Some((JsonV::Num(r.0), r.1)),
            None => None,
        }
    } else if s[i] == 't' {
        if i + 4 <= s.len() && s[i + 1] == 'r' && s[i + 2] == 'u' && s[i + 3] == 'e' {
            Some((JsonV::Lit, i + 4))
        } else {
            None
        }
    } else if s[i] == 'f' {
        if i + 5 <= s.len() && s[i + 1] == 'a' && s[i + 2] == 'l' && s[i + 3] == 's' && s[i + 4]
            == 'e' {
            Some((JsonV::Lit, i + 5))
        } else {
            None
        }
    } else if s[i] == 'n' {
        if i + 4 <= s.len() && s[i + 1] == 'u' && s[i + 2] == 'l' && s[i + 3] == 'l' {
            Some((JsonV::Lit, i + 4))
        } else {
            None
        }
    } else {
        None
    }
}

pub proof fn lemma_value_adv(s: Seq<char>, i: int)
    requires
        0 <= i <= s.len(),
        parse_value(s, i) is Some,
    ensures
        i < (parse_value(s, i)->0).1 <= s.len(),
{
    if i < s.len() && s[i] == '"' {
        lemma_str_body_adv(s, i + 1);
    } else if i < s.len() && is_digit(s[i]) {
        lemma_digits_end_range(s, i);
    }
}

/// One named member of the response object.
pub struct JPairV {
    pub key: Seq<char>,
    pub value: JsonV,
}

/// The members following the object's opening brace (or a comma): each a
/// quoted key, a colon and a value, until the closing brace; the result
/// carries the position after that brace.
pub open spec fn parse_members(s: Seq<char>, i: int) -> Option<(Seq<JPairV>, int)>
    decreases s.len() - i when 0 <= i <= s.len() via parse_members_dec
{
    let k = skip_ws(s, i);
    if k < s.len() && s[k] == '"' {
        match str_body(s, k + 1) {
            Some(kr) => {
                let c = skip_ws(s, kr.1);
                if c < s.len() && s[c] == ':' {
                    match parse_value(s, skip_ws(s, c + 1)) {
                        Some(vr) => {
                            let t = skip_ws(s, vr.1);
                            if t < s.len() && s[t] == ',' {
                                match parse_members(s, t + 1) {
                                    Some(mr) => Some(
                                        (seq![JPairV { key: kr.0, value: vr.0 }] + mr.0, mr.1),
                                    ),
                                    None => None,
                                }
                            } else if t < s.len() && s[t] == '}' {
                                Some((seq![JPairV { key: kr.0, value: vr.0 }], t + 1))
                            } else {
                                None
                            }
                        },
                        None => None,
                    }
                } else {
                    None
                }
            },
            None => None,
        }
    } else {
        None
    }
}

#[via_fn]
proof fn parse_members_dec(s: Seq<char>, i: int) {
    if 0 <= i <= s.len() {
        lemma_skip_ws_range(s, i);
        let k = skip_ws(s, i);
        if k < s.len() && s[k] == '"' {
            if str_body(s, k + 1) is Some {
                lemma_str_body_adv(s, k + 1);
                let kr = str_body(s, k + 1)->0;
                lemma_skip_ws_range(s, kr.1);
                let c = skip_ws(s, kr.1);
                if c < s.len() && s[c] == ':' {
                    lemma_skip_ws_range(s, c + 1);
                    if parse_value(s, skip_ws(s, c + 1)) is Some {
                        lemma_value_adv(s, skip_ws(s, c + 1));
                        let vr = parse_value(s, skip_ws(s, c + 1))->0;
                        lemma_skip_ws_range(s, vr.1);
                    }
                }
            }
        }
    }
}

/// The whole response text as one flat object, with nothing but whitespace
/// around or after it.
pub open spec fn parse_object(s: Seq<char>) -> Option<Seq<JPairV>> {
    let i = skip_ws(s, 0);
    if i < s.len() && s[i] == '{' {
        let k = skip_ws(s, i + 1);
        if k < s.len() && s[k] == '}' {
            if skip_ws(s, k + 1) == s.len() {
                Some(Seq::empty())
            } else {
                None
            }
        } else {
            match parse_members(s, i + 1) {
                Some(mr) => if skip_ws(s, mr.1) == s.len() {
                    Some(mr.0)
                } else {
                    None
                },
                None => None,
            }
        }
    } else {
        None
    }
}

/// The value of the first member named `key`.
pub open spec fn jlookup(ps: Seq<JPairV>, key: Seq<char>) -> Option<JsonV>
    decreases ps.len(),
{
    if ps.len() == 0 {
        None
    } else if ps[0].key == key {
        Some(ps[0].value)
    } else {
        jlookup(ps.drop_first(), key)
    }
}

/// The spec-level token pair.
pub struct TokenPairV {
    pub access_token: Seq<char>,
    pub refresh_token: Option<Seq<char>>,
    pub expires_in: Option<int>,
}

/// What a token-endpoint response means: the object's `access_token`
/// member must be a string; `refresh_token` counts only when it is a
/// string, `expires_in` only when it is a number; everything else about
/// the response is ignored.
pub open spec fn spec_token_pair(s: Seq<char>) -> Option<TokenPairV> {
    match parse_object(s) {
        None => None,
        Some(ps) => match jlookup(ps, "access_token"@) {
            Some(JsonV::Str(a)) => Some(
                TokenPairV {
                    access_token: a,
                    refresh_token: match jlookup(ps, "refresh_token"@) {
                        Some(JsonV::Str(r)) => Some(r),
                        _ => None,
                    },
                    expires_in: match jlookup(ps, "expires_in"@) {
                        Some(JsonV::Num(n)) => Some(n),
                        _ => None,
                    },
                },
            ),
            _ => None,
        },
    }
}

/// The cause a failed exchange is surfaced with: the provider's `error`
/// member when the response carries one as a string, else a fixed wording
/// for an unreadable response.
pub open spec fn spec_exchange_cause(s: Seq<char>) -> Seq<char> {
    match parse_object(s) {
        Some(ps) => match jlookup(ps, "error"@) {
            Some(JsonV::Str(e)) => e,
            _ => "malformed token response"@,
        },
        None => "malformed token response"@,
    }
}

/// The tokens of one successful exchange.  Both tokens are sensitive: they
/// are handed to the secret store, never logged or printed.
pub struct TokenPair {
    pub access_token: String,
    pub refresh_token: Option<String>,
    pub expires_in: Option<u64>,
}

impl View for TokenPair {
    type V = TokenPairV;

    open spec fn view(&self) -> TokenPairV {
        TokenPairV {
            access_token: self.access_token@,
            refresh_token: match &self.refresh_token {
                Some(r) => Some(r@),
                None => None,
            },
            expires_in: match self.expires_in {
                Some(n) => Some(n as int),
                None => None,
            },
        }
    }
}

/// An executable flat JSON value.
pub enum JsonVal {
    Str(Vec<char>),
    Num(u64),
    Lit,
}

impl View for JsonVal {
    type V = JsonV;

    open spec fn view(&self) -> JsonV {
        match self {
            JsonVal::Str(v) => JsonV::Str(v@),
            JsonVal::Num(n) => JsonV::Num(*n as int),
            JsonVal::Lit => JsonV::Lit,
        }
    }
}

/// An executable member.
pub struct JPair {
    pub key: Vec<char>,
    pub value: JsonVal,
}

impl View for JPair {
    type V = JPairV;

    open spec fn view(&self) -> JPairV {
        JPairV { key: self.key@, value: self.value@ }
    }
}

impl DeepView for JPair {
    type V = JPairV;

    open spec fn deep_view(&self) -> JPairV {
        self@
    }
}

/// Skips whitespace.
fn skip_ws_exec(v: &Vec<char>, i: usize) -> (r: usize)
    requires
        i <= v@.len(),
    ensures
        r as int == skip_ws(v@, i as int),
        i <= r <= v@.len(),
{
    let mut j = i;
    while j < v.len() && (v[j] == ' ' || v[j] == '\t' || v[j] == '\r' || v[j] == '\n')
        invariant
            i <= j <= v@.len(),
            skip_ws(v@, i as int) == skip_ws(v@, j as int),
        decreases v@.len() - j,
    {
        j = j + 1;
    }
    j
}

/// Decodes one escape character.
fn escape_exec(c: char) -> (r: Option<char>)
    ensures
        r == escape_char(c),
{
    if c == '"' {
        Some('"')
    } else if c == '\\' {
        Some('\\')
    } else if c == '/' {
        Some('/')
    } else if c == 'n' {
        Some('\n')
    } else if c == 't' {
        Some('\t')
    } else if c == 'r' {
        Some('\r')
    } else {
        None
    }
}

/// Reads a string body from after the opening quote.
fn str_body_exec(v: &Vec<char>, i: usize) -> (r: Option<(Vec<char>, usize)>)
    requires
        i <= v@.len(),
    ensures
        r is Some <==> str_body(v@, i as int) is Some,
        r is Some ==> (r->0).0@ == (str_body(v@, i as int)->0).0 && (r->0).1 as int == (str_body(
            v@,
            i as int,
        )->0).1,
    decreases v@.len() - i,
{
    if i >= v.len() {
        None
    } else {
        let c = v[i];
        if c == '"' {
            Some((Vec::new(), i + 1))
        } else if c == '\\' {
            if i + 1 < v.len() {
                match escape_exec(v[i + 1]) {
                    Some(ec) => match str_body_exec(v, i + 2) {
                        Some((rest, j)) => {
                            let mut out: Vec<char> = Vec::new();
                            out.push(ec);
                            let mut rest2 = rest;
                            out.append(&mut rest2);
                            proof {
                                assert(out@ =~= seq![escape_char(v@[i as int + 1])->0]
                                    + (str_body(v@, i as int + 2)->0).0);
                            }
                            Some((out, j))
                        },
                        None => None,
                    },
                    None => None,
                }
            } else {
                None
            }
        } else {
            match str_body_exec(v, i + 1) {
                Some((rest, j)) => {
                    let mut out: Vec<char> = Vec::new();
                    out.push(c);
                    let mut rest2 = rest;
                    out.append(&mut rest2);
                    proof {
                        assert(out@ =~= seq![v@[i as int]] + (str_body(v@, i as int + 1)->0).0);
                    }
                    Some((out, j))
                },
                None => None,
            }
        }
    }
}

/// Reads a number.
fn parse_num_exec(v: &Vec<char>, i: usize) -> (r: Option<(u64, usize)>)
    requires
        i <= v@.len(),
    ensures
        r is Some <==> parse_num(v@, i as int) is Some,
        r is Some ==> (r->0).0 as int == (parse_num(v@, i as int)->0).0 && (r->0).1 as int == (parse_num(
            v@,
            i as int,
        )->0).1,
{
    let mut j = i;
    while j < v.len() && '0' <= v[j] && v[j] <= '9'
        invariant
            i <= j <= v@.len(),
            digits_end(v@, i as int) == digits_end(v@, j as int),
            forall|k: int| i <= k < j ==> is_digit(#[trigger] v@[k]),
        decreases v@.len() - j,
    {
        j = j + 1;
    }
    proof {
        assert(digits_end(v@, i as int) == j as int);
    }
    if j == i || j - i > 18 {
        return None;
    }
    let ghost ds = v@.subrange(i as int, j as int);
    let mut acc: u64 = 0;
    let mut k = i;
    while k < j
        invariant
            i <= k <= j <= v@.len(),
            j - i <= 18,
            forall|t: int| i <= t < j ==> is_digit(#[trigger] v@[t]),
            acc as int == dec_val(v@.subrange(i as int, k as int)),
            (acc as int) < pow10((k - i) as nat),
        decreases j - k,
    {
        let d = (v[k] as u8) - ('0' as u8);
        proof {
            assert(pow10(18) == 1000000000000000000) by {
                reveal_with_fuel(pow10, 19);
            }
            assert(pow10((k - i) as nat) <= pow10(17)) by {
                lemma_pow10_mono((k - i) as nat, 17);
            }
            assert(10 * (acc as int) + d <= 10 * (pow10(17) - 1) + 9);
            assert(10 * pow10(17) == pow10(18));
        }
        acc = 10 * acc + (d as u64);
        proof {
            assert(v@.subrange(i as int, k as int + 1).drop_last() =~= v@.subrange(
                i as int,
                k as int,
            ));
            assert(v@.subrange(i as int, k as int + 1).last() == v@[k as int]);
        }
        k = k + 1;
    }
    proof {
        assert(v@.subrange(i as int, j as int) == ds);
    }
    Some((acc, j))
}

/// Ten to a larger power is no smaller.
proof fn lemma_pow10_mono(a: nat, b: nat)
    requires
        a <= b,
    ensures
        pow10(a) <= pow10(b),
        pow10(a) >= 1,
    decreases b,
{
    if b > 0 {
        if a == b {
            lemma_pow10_mono((a - 1) as nat, (b - 1) as nat);
        } else {
            lemma_pow10_mono(a, (b - 1) as nat);
        }
        assert(pow10(b) == 10 * pow10((b - 1) as nat));
    }
}

/// Reads one member value.
fn parse_value_exec(v: &Vec<char>, i: usize) -> (r: Option<(JsonVal, usize)>)
    requires
        i <= v@.len(),
    ensures
        r is Some <==> parse_value(v@, i as int) is Some,
        r is Some ==> (r->0).0@ == (parse_value(v@, i as int)->0).0 && (r->0).1 as int == (parse_value(
            v@,
            i as int,
        )->0).1,
{
    if i >= v.len() {
        None
    } else {
        let c = v[i];
        if c == '"' {
            match str_body_exec(v, i + 1) {
                Some((s, j)) => Some((JsonVal::Str(s), j)),
                None => None,
            }
        } else if '0' <= c && c <= '9' {
            match parse_num_exec(v, i) {
                Some((n, j)) => Some((JsonVal::Num(n), j)),
                None => None,
            }
        } else if c == 't' {
            if v.len() - i >= 4 && v[i + 1] == 'r' && v[i + 2] == 'u' && v[i + 3] == 'e' {
                Some((JsonVal::Lit, i + 4))
            } else {
                None
            }
        } else if c == 'f' {
            if v.len() - i >= 5 && v[i + 1] == 'a' && v[i + 2] == 'l' && v[i + 3] == 's' && v[i
                + 4] == 'e' {
                Some((JsonVal::Lit, i + 5))
            } else {
                None
            }
        } else if c == 'n' {
            if v.len() - i >= 4 && v[i + 1] == 'u' && v[i + 2] == 'l' && v[i + 3] == 'l' {
                Some((JsonVal::Lit, i + 4))
            } else {
                None
            }
        } else {
            None
        }
    }
}

/// Reads the members after an opening brace or a comma.
fn parse_members_exec(v: &Vec<char>, i: usize) -> (r: Option<(Vec<JPair>, usize)>)
    requires
        i <= v@.len(),
    ensures
        r is Some <==> parse_members(v@, i as int) is Some,
        r is Some ==> (r->0).0.deep_view() == (parse_members(v@, i as int)->0).0 && (r->0).1 as int
            == (parse_members(v@, i as int)->0).1,
        r is Some ==> (i as int) < ((r->0).1 as int) <= v@.len(),
    decreases v@.len() - i,
{
    let k = skip_ws_exec(v, i);
    if k < v.len() && v[k] == '"' {
        match str_body_exec(v, k + 1) {
            Some((key, kj)) => {
                proof {
                    lemma_str_body_adv(v@, k as int + 1);
                }
                let c = skip_ws_exec(v, kj);
                if c < v.len() && v[c] == ':' {
                    let vstart = skip_ws_exec(v, c + 1);
                    match parse_value_exec(v, vstart) {
                        Some((val, vj)) => {
                            proof {
                                lemma_value_adv(v@, vstart as int);
                            }
                            let t = skip_ws_exec(v, vj);
                            if t < v.len() && v[t] == ',' {
                                match parse_members_exec(v, t + 1) {
                                    Some((rest, mj)) => {
                                        let ghost restd = rest.deep_view();
                                        let mut out: Vec<JPair> = Vec::new();
                                        out.push(JPair { key, value: val });
                                        let mut rest2 = rest;
                                        out.append(&mut rest2);
                                        proof {
                                            let d = out.deep_view();
                                            assert(forall|q: int|
                                                1 <= q < d.len() ==> #[trigger] d[q] == restd[q
                                                    - 1]);
                                            assert(d =~= (parse_members(v@, i as int)->0).0);
                                        }
                                        Some((out, mj))
                                    },
                                    None => None,
                                }
                            } else if t < v.len() && v[t] == '}' {
                                let mut out: Vec<JPair> = Vec::new();
                                out.push(JPair { key, value: val });
                                proof {
                                    assert(out.deep_view() =~= (parse_members(v@, i as int)->0).0);
                                }
                                Some((out, t + 1))
                            } else {
                                None
                            }
                        },
                        None => None,
                    }
                } else {
                    None
                }
            },
            None => None,
        }
    } else {
        None
    }
}

/// Reads the whole response as a flat object.
fn parse_object_exec(v: &Vec<char>) -> (r: Option<Vec<JPair>>)
    ensures
        r is Some <==> parse_object(v@) is Some,
        r is Some ==> r->0.deep_view() == parse_object(v@)->0,
{
    let i = skip_ws_exec(v, 0);
    if i < v.len() && v[i] == '{' {
        let k = skip_ws_exec(v, i + 1);
        if k < v.len() && v[k] == '}' {
            let e = skip_ws_exec(v, k + 1);
            if e == v.len() {
                let out: Vec<JPair> = Vec::new();
                proof {
                    assert(out.deep_view() =~= Seq::<JPairV>::empty());
                }
                Some(out)
            } else {
                None
            }
        } else {
            match parse_members_exec(v, i + 1) {
                Some((ps, j)) => {
                    let e = skip_ws_exec(v, j);
                    if e == v.len() {
                        Some(ps)
                    } else {
                        None
                    }
                },
                None => None,
            }
        }
    } else {
        None
    }
}

/// The member named `key` when it is a string.
fn jlookup_str(ps: &Vec<JPair>, i: usize, key: &Vec<char>) -> (r: Option<String>)
    requires
        i <= ps@.len(),
    ensures
        (match jlookup(ps.deep_view().skip(i as int), key@) {
            Some(JsonV::Str(a)) => r is Some && r->0@ == a,
            _ => r is None,
        }),
    decreases ps@.len() - i,
{
    proof {
        assert(ps.deep_view().len() == ps@.len());
    }
    if i == ps.len() {
        proof {
            assert(ps.deep_view().skip(i as int) =~= Seq::<JPairV>::empty());
        }
        None
    } else {
        let ghost rem = ps.deep_view().skip(i as int);
        proof {
            assert(rem[0] == ps.deep_view()[i as int]);
            assert(rem.drop_first() =~= ps.deep_view().skip(i as int + 1));
        }
        if crate::redirect::vec_eq(&ps[i].key, key) {
            match &ps[i].value {
                JsonVal::Str(s) => Some(string_of_chars(s)),
                _ => None,
            }
        } else {
            jlookup_str(ps, i + 1, key)
        }
    }
}

/// The member named `key` when it is a number.
fn jlookup_num(ps: &Vec<JPair>, i: usize, key: &Vec<char>) -> (r: Option<u64>)
    requires
        i <= ps@.len(),
    ensures
        (match jlookup(ps.deep_view().skip(i as int), key@) {
            Some(JsonV::Num(n)) => r is Some && r->0 as int == n,
            _ => r is None,
        }),
    decreases ps@.len() - i,
{
    proof {
        assert(ps.deep_view().len() == ps@.len());
    }
    if i == ps.len() {
        proof {
            assert(ps.deep_view().skip(i as int) =~= Seq::<JPairV>::empty());
        }
        None
    } else {
        let ghost rem = ps.deep_view().skip(i as int);
        proof {
            assert(rem[0] == ps.deep_view()[i as int]);
            assert(rem.drop_first() =~= ps.deep_view().skip(i as int + 1));
        }
        if crate::redirect::vec_eq(&ps[i].key, key) {
            match &ps[i].value {
                JsonVal::Num(n) => Some(*n),
                _ => None,
            }
        } else {
            jlookup_num(ps, i + 1, key)
        }
    }
}

/// Parses a token-endpoint response body.  Returns the token pair exactly
/// when the spec-level reading accepts the body and its `access_token`
/// member is a string.
/// Reads the cause a failed exchange is surfaced with, per
/// `spec_exchange_cause`.
pub fn exchange_error_cause(body: &str) -> (r: String)
    ensures
        r@ == spec_exchange_cause(body@),
{
    let chars = chars_of_str(body);
    match parse_object_exec(&chars) {
        Some(ps) => {
            proof {
                assert(ps.deep_view().skip(0) =~= ps.deep_view());
            }
            let key_error = chars_of_str("error");
            match jlookup_str(&ps, 0, &key_error) {
                Some(e) => e,
                None => String::from_str("malformed token response"),
            }
        },
        None => String::from_str("malformed token response"),
    }
}

pub fn parse_token_response(body: &str) -> (r: Option<TokenPair>)
    ensures
        r is Some <==> spec_token_pair(body@) is Some,
        r is Some ==> r->0@ == spec_token_pair(body@)->0,
{
    let chars = chars_of_str(body);
    let ps = match parse_object_exec(&chars) {
        Some(p) => p,
        None => {
            return None;
        },
    };
    proof {
        assert(ps.deep_view().skip(0) =~= ps.deep_view());
    }
    let key_access = chars_of_str("access_token");
    let key_refresh = chars_of_str("refresh_token");
    let key_expires = chars_of_str("expires_in");
    let access = match jlookup_str(&ps, 0, &key_access) {
        Some(a) => a,
        None => {
            return None;
        },
    };
    let refresh = jlookup_str(&ps, 0, &key_refresh);
    let expires = jlookup_num(&ps, 0, &key_expires);
    Some(TokenPair { access_token: access, refresh_token: refresh, expires_in: expires })
}

} // verus!
