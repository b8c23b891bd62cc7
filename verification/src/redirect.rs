//! Parsing of the single browser redirect that carries the authorization
//! response: `GET /?code=...&state=...` on success, or
//! `GET /?error=...&error_description=...` on denial.

use vstd::prelude::*;
use vstd::string::StringExecFnsIsAscii;

use crate::text::ascii_seq;
use crate::text::chars_of_str;
use crate::text::find_char;
use crate::text::find_in;
use crate::text::lemma_find_char_range;
use crate::text::lemma_pct_decode_ascii;
use crate::text::pct_decode;
use crate::text::pct_decode_vec;
use crate::text::string_of_chars;
use crate::text::subvec;

verus! {

/// One decoded `key=value` pair of the redirect query.
pub struct QueryPairV {
    pub key: Seq<char>,
    pub value: Seq<char>,
}

/// The segments of `s` between occurrences of `c`, in order.
pub open spec fn split_on(s: Seq<char>, c: char) -> Seq<Seq<char>>
    decreases s.len(),
    via split_on_dec
{
    let j = find_char(s, c, 0);
    if j >= s.len() {
        seq![s]
    } else {
        seq![s.take(j)] + split_on(s.skip(j + 1), c)
    }
}

#[via_fn]
proof fn split_on_dec(s: Seq<char>, c: char) {
    lemma_find_char_range(s, c, 0);
}

/// A segment split at its first `=`: everything before it is the key,
/// everything after it the value; a segment without `=` is all key.
pub open spec fn split_pair(seg: Seq<char>) -> QueryPairV {
    let j = find_char(seg, '=', 0);
    if j >= seg.len() {
        QueryPairV { key: seg, value: Seq::empty() }
    } else {
        QueryPairV { key: seg.take(j), value: seg.skip(j + 1) }
    }
}

/// All segments split into pairs and percent-decoded; `None` as soon as one
/// side of one pair fails to decode.
pub open spec fn decode_pairs(segs: Seq<Seq<char>>) -> Option<Seq<QueryPairV>>
    decreases segs.len(),
{
    if segs.len() == 0 {
        Some(Seq::empty())
    } else {
        let p = split_pair(segs[0]);
        match (pct_decode(p.key), pct_decode(p.value)) {
            (Some(k), Some(v)) => match decode_pairs(segs.drop_first()) {
                Some(r) => Some(seq![QueryPairV { key: k, value: v }] + r),
                None => None,
            },
            _ => None,
        }
    }
}

/// The value of the first pair whose key is `key`.
pub open spec fn lookup(ps: Seq<QueryPairV>, key: Seq<char>) -> Option<Seq<char>>
    decreases ps.len(),
{
    if ps.len() == 0 {
        None
    } else if ps[0].key == key {
        Some(ps[0].value)
    } else {
        lookup(ps.drop_first(), key)
    }
}

/// Everything after the first `?` of the request target; empty when there
/// is no query.
pub open spec fn query_of(target: Seq<char>) -> Seq<char> {
    let q = find_char(target, '?', 0);
    if q >= target.len() {
        Seq::empty()
    } else {
        target.skip(q + 1)
    }
}

/// The parsed authorization response: exactly one of the two variants is
/// populated, as the wire contract has it.
pub enum RedirectResultV {
    Success { code: Seq<char>, state: Seq<char> },
    Denied { error: Seq<char>, error_description: Option<Seq<char>> },
}

/// What the redirect request target means.  HTTP request targets are ASCII,
/// so a non-ASCII target is malformed; a query whose `error` key is present
/// is a denial; otherwise both `code` and `state` must be present; anything
/// else is malformed (`None`).
pub open spec fn spec_parse_redirect(target: Seq<char>) -> Option<RedirectResultV> {
    if !ascii_seq(target) {
        None
    } else {
        match decode_pairs(split_on(query_of(target), '&')) {
            None => None,
            Some(ps) => match lookup(ps, "error"@) {
                Some(e) => Some(
                    RedirectResultV::Denied {
                        error: e,
                        error_description: lookup(ps, "error_description"@),
                    },
                ),
                None => match (lookup(ps, "code"@), lookup(ps, "state"@)) {
                    (Some(c), Some(s)) => Some(RedirectResultV::Success { code: c, state: s }),
                    _ => None,
                },
            },
        }
    }
}

/// The parsed authorization response, as handed to the flow.
pub enum RedirectResult {
    Success { code: String, state: String },
    Denied { error: String, error_description: Option<String> },
}

impl View for RedirectResult {
    type V = RedirectResultV;

    open spec fn view(&self) -> RedirectResultV {
        match self {
            RedirectResult::Success { code, state } => RedirectResultV::Success {
                code: code@,
                state: state@,
            },
            RedirectResult::Denied { error, error_description } => RedirectResultV::Denied {
                error: error@,
                error_description: match error_description {
                    Some(d) => Some(d@),
                    None => None,
                },
            },
        }
    }
}

impl RedirectResult {
    /// All carried text is ASCII.
    pub open spec fn wf(self) -> bool {
        match self {
            RedirectResult::Success { code, state } => ascii_seq(code@) && ascii_seq(state@),
            RedirectResult::Denied { error, error_description } => ascii_seq(error@) && (match error_description {
                Some(d) => ascii_seq(d@),
                None => true,
            }),
        }
    }
}

/// Splitting an ASCII sequence yields ASCII segments.
proof fn lemma_split_on_ascii(s: Seq<char>, c: char)
    requires
        ascii_seq(s),
    ensures
        forall|i: int|
            0 <= i < split_on(s, c).len() ==> ascii_seq(#[trigger] split_on(s, c)[i]),
    decreases s.len(),
{
    lemma_find_char_range(s, c, 0);
    let j = find_char(s, c, 0);
    if j >= s.len() {
    } else {
        assert(ascii_seq(s.skip(j + 1))) by {
            assert(forall|i: int|
                0 <= i < s.skip(j + 1).len() ==> #[trigger] s.skip(j + 1)[i] == s[i + j + 1]);
        }
        lemma_split_on_ascii(s.skip(j + 1), c);
        assert forall|i: int| 0 <= i < split_on(s, c).len() implies ascii_seq(
            #[trigger] split_on(s, c)[i],
        ) by {
            if i == 0 {
                assert(forall|k: int| 0 <= k < s.take(j).len() ==> #[trigger] s.take(j)[k] == s[k]);
            } else {
                assert(split_on(s, c)[i] == split_on(s.skip(j + 1), c)[i - 1]);
            }
        }
    }
}

/// All keys and values of the pairs are ASCII.
pub open spec fn pairs_ascii(ps: Seq<QueryPairV>) -> bool {
    forall|i: int|
        0 <= i < ps.len() ==> ascii_seq(#[trigger] ps[i].key) && ascii_seq(ps[i].value)
}

/// Decoding ASCII segments yields ASCII pairs.
proof fn lemma_decode_pairs_ascii(segs: Seq<Seq<char>>)
    requires
        forall|i: int| 0 <= i < segs.len() ==> ascii_seq(#[trigger] segs[i]),
        decode_pairs(segs) is Some,
    ensures
        pairs_ascii(decode_pairs(segs)->0),
    decreases segs.len(),
{
    if segs.len() == 0 {
    } else {
        let p = split_pair(segs[0]);
        lemma_find_char_range(segs[0], '=', 0);
        let j = find_char(segs[0], '=', 0);
        assert(ascii_seq(p.key)) by {
            if j < segs[0].len() {
                assert(forall|k: int|
                    0 <= k < segs[0].take(j).len() ==> #[trigger] segs[0].take(j)[k] == segs[0][k]);
            }
        }
        assert(ascii_seq(p.value)) by {
            if j < segs[0].len() {
                assert(forall|k: int|
                    0 <= k < segs[0].skip(j + 1).len() ==> #[trigger] segs[0].skip(j + 1)[k]
                        == segs[0][k + j + 1]);
            }
        }
        lemma_pct_decode_ascii(p.key);
        lemma_pct_decode_ascii(p.value);
        assert(forall|i: int|
            0 <= i < segs.drop_first().len() ==> ascii_seq(#[trigger] segs.drop_first()[i]));
        lemma_decode_pairs_ascii(segs.drop_first());
        let ps = decode_pairs(segs)->0;
        let rest = decode_pairs(segs.drop_first())->0;
        assert forall|i: int| 0 <= i < ps.len() implies ascii_seq(#[trigger] ps[i].key)
            && ascii_seq(ps[i].value) by {
            if i > 0 {
                assert(ps[i] == rest[i - 1]);
                assert(ascii_seq(rest[i - 1].key) && ascii_seq(rest[i - 1].value));
            }
        }
    }
}

/// A found value in ASCII pairs is ASCII.
proof fn lemma_lookup_ascii(ps: Seq<QueryPairV>, key: Seq<char>)
    requires
        pairs_ascii(ps),
    ensures
        lookup(ps, key) is Some ==> ascii_seq(lookup(ps, key)->0),
    decreases ps.len(),
{
    if ps.len() == 0 {
    } else if ps[0].key == key {
        assert(ascii_seq(ps[0].value));
    } else {
        assert(pairs_ascii(ps.drop_first())) by {
            assert forall|i: int| 0 <= i < ps.drop_first().len() implies ascii_seq(
                #[trigger] ps.drop_first()[i].key,
            ) && ascii_seq(ps.drop_first()[i].value) by {
                assert(ps.drop_first()[i] == ps[i + 1]);
                assert(ascii_seq(ps[i + 1].key) && ascii_seq(ps[i + 1].value));
            }
        }
        lemma_lookup_ascii(ps.drop_first(), key);
    }
}

/// Splits `s` at every `c`.
fn split_on_exec(s: Vec<char>, c: char) -> (r: Vec<Vec<char>>)
    ensures
        r.deep_view() == split_on(s@, c),
    decreases s@.len(),
{
    let j = find_in(&s, c, 0);
    if j >= s.len() {
        let ghost sv = s@;
        let mut r: Vec<Vec<char>> = Vec::new();
        r.push(s);
        proof {
            assert(r.deep_view()[0] =~= sv);
            assert(r.deep_view() =~= seq![sv]);
        }
        r
    } else {
        let head = subvec(&s, 0, j);
        let tail = subvec(&s, j + 1, s.len());
        proof {
            assert(head@ =~= s@.take(j as int));
            assert(tail@ =~= s@.skip(j as int + 1));
        }
        let mut rest = split_on_exec(tail, c);
        let ghost restd = rest.deep_view();
        let mut r: Vec<Vec<char>> = Vec::new();
        r.push(head);
        r.append(&mut rest);
        proof {
            let d = r.deep_view();
            assert(d[0] =~= s@.take(j as int));
            assert(forall|k: int| 1 <= k < d.len() ==> #[trigger] d[k] == restd[k - 1]);
            assert(d =~= seq![s@.take(j as int)] + split_on(s@.skip(j as int + 1), c));
        }
        r
    }
}

/// One decoded pair, executably.
pub struct QueryPair {
    pub key: Vec<char>,
    pub value: Vec<char>,
}

impl View for QueryPair {
    type V = QueryPairV;

    open spec fn view(&self) -> QueryPairV {
        QueryPairV { key: self.key@, value: self.value@ }
    }
}

impl DeepView for QueryPair {
    type V = QueryPairV;

    open spec fn deep_view(&self) -> QueryPairV {
        self@
    }
}

/// Splits every segment from `i` on into a pair and decodes both sides.
fn decode_pairs_exec(segs: &Vec<Vec<char>>, i: usize) -> (r: Option<Vec<QueryPair>>)
    requires
        i <= segs@.len(),
    ensures
        r is Some <==> decode_pairs(segs.deep_view().skip(i as int)) is Some,
        r is Some ==> r->0.deep_view() == decode_pairs(segs.deep_view().skip(i as int))->0,
    decreases segs@.len() - i,
{
    proof {
        assert(segs.deep_view().len() == segs@.len());
    }
    if i == segs.len() {
        proof {
            assert(segs.deep_view().skip(i as int) =~= Seq::<Seq<char>>::empty());
        }
        Some(Vec::new())
    } else {
        let ghost rem = segs.deep_view().skip(i as int);
        proof {
            assert(rem[0] == segs.deep_view()[i as int]);
            assert(rem.drop_first() =~= segs.deep_view().skip(i as int + 1));
        }
        let seg = &segs[i];
        proof {
            assert(rem[0] =~= seg@);
        }
        let j = find_in(seg, '=', 0);
        let kraw;
        let vraw;
        if j >= seg.len() {
            kraw = subvec(seg, 0, seg.len());
            vraw = Vec::<char>::new();
            proof {
                assert(kraw@ =~= split_pair(rem[0]).key);
                assert(vraw@ =~= split_pair(rem[0]).value);
            }
        } else {
            kraw = subvec(seg, 0, j);
            vraw = subvec(seg, j + 1, seg.len());
            proof {
                assert(kraw@ =~= split_pair(rem[0]).key);
                assert(vraw@ =~= split_pair(rem[0]).value);
            }
        }
        let dk = pct_decode_vec(&kraw);
        let dv = pct_decode_vec(&vraw);
        match (dk, dv) {
            (Some(k), Some(v)) => {
                match decode_pairs_exec(segs, i + 1) {
                    Some(mut rest) => {
                        let ghost restd = rest.deep_view();
                        let mut out: Vec<QueryPair> = Vec::new();
                        out.push(QueryPair { key: k, value: v });
                        out.append(&mut rest);
                        proof {
                            let d = out.deep_view();
                            assert(d[0] == QueryPairV { key: k@, value: v@ });
                            assert(forall|t: int| 1 <= t < d.len() ==> #[trigger] d[t] == restd[t - 1]);
                            assert(d =~= decode_pairs(rem)->0);
                        }
                        Some(out)
                    },
                    None => None,
                }
            },
            _ => None,
        }
    }
}

/// Whether two character vectors hold the same characters.
pub fn vec_eq(a: &Vec<char>, b: &Vec<char>) -> (r: bool)
    ensures
        r == (a@ == b@),
{
    if a.len() != b.len() {
        proof {
            assert(a@ != b@);
        }
        return false;
    }
    let mut i: usize = 0;
    while i < a.len()
        invariant
            a@.len() == b@.len(),
            i <= a@.len(),
            forall|k: int| 0 <= k < i ==> a@[k] == b@[k],
        decreases a@.len() - i,
    {
        if a[i] != b[i] {
            proof {
                assert(a@ != b@);
            }
            return false;
        }
        i = i + 1;
    }
    proof {
        assert(a@ =~= b@);
    }
    true
}

/// The decoded value of the first pair at or after `i` whose key is `key`.
fn lookup_exec(ps: &Vec<QueryPair>, i: usize, key: &Vec<char>) -> (r: Option<String>)
    requires
        i <= ps@.len(),
    ensures
        r is Some <==> lookup(ps.deep_view().skip(i as int), key@) is Some,
        r is Some ==> r->0@ == lookup(ps.deep_view().skip(i as int), key@)->0,
    decreases ps@.len() - i,
{
    proof {
        assert(ps.deep_view().len() == ps@.len());
    }
    if i == ps.len() {
        proof {
            assert(ps.deep_view().skip(i as int) =~= Seq::<QueryPairV>::empty());
        }
        None
    } else {
        let ghost rem = ps.deep_view().skip(i as int);
        proof {
            assert(rem[0] == ps.deep_view()[i as int]);
            assert(rem.drop_first() =~= ps.deep_view().skip(i as int + 1));
        }
        if vec_eq(&ps[i].key, key) {
            Some(string_of_chars(&ps[i].value))
        } else {
            lookup_exec(ps, i + 1, key)
        }
    }
}

/// Parses the redirect request target.  Returns the authorization response
/// exactly when the spec-level parse accepts the target; `None` means the
/// request was not a well-formed authorization response.
pub fn parse_redirect_target(target: &str) -> (r: Option<RedirectResult>)
    ensures
        r is Some <==> spec_parse_redirect(target@) is Some,
        r is Some ==> r->0@ == spec_parse_redirect(target@)->0,
        r is Some ==> r->0.wf(),
{
    if !target.is_ascii() {
        return None;
    }
    let chars = chars_of_str(target);
    let q = find_in(&chars, '?', 0);
    let query: Vec<char> = if q >= chars.len() {
        Vec::new()
    } else {
        subvec(&chars, q + 1, chars.len())
    };
    proof {
        assert(query@ =~= query_of(target@));
        assert(ascii_seq(query_of(target@)));
    }
    let segs = split_on_exec(query, '&');
    let pairs = match decode_pairs_exec(&segs, 0) {
        Some(p) => p,
        None => {
            proof {
                assert(segs.deep_view().skip(0) =~= segs.deep_view());
            }
            return None;
        },
    };
    let ghost ps = decode_pairs(segs.deep_view())->0;
    proof {
        assert(segs.deep_view().skip(0) =~= segs.deep_view());
        assert(pairs.deep_view().skip(0) =~= pairs.deep_view());
        lemma_split_on_ascii(query_of(target@), '&');
        lemma_decode_pairs_ascii(segs.deep_view());
        lemma_lookup_ascii(ps, "error"@);
        lemma_lookup_ascii(ps, "error_description"@);
        lemma_lookup_ascii(ps, "code"@);
        lemma_lookup_ascii(ps, "state"@);
    }
    let key_error = chars_of_str("error");
    let key_desc = chars_of_str("error_description");
    let key_code = chars_of_str("code");
    let key_state = chars_of_str("state");
    match lookup_exec(&pairs, 0, &key_error) {
        Some(e) => {
            let desc = lookup_exec(&pairs, 0, &key_desc);
            Some(RedirectResult::Denied { error: e, error_description: desc })
        },
        None => {
            let code = match lookup_exec(&pairs, 0, &key_code) {
                Some(c) => c,
                None => {
                    return None;
                },
            };
            let state = match lookup_exec(&pairs, 0, &key_state) {
                Some(s) => s,
                None => {
                    return None;
                },
            };
            Some(RedirectResult::Success { code, state })
        },
    }
}

} // verus!
