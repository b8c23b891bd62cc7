//! Character-level utilities shared by the protocol modules: percent
//! encoding and decoding, decimal rendering of port numbers, and plumbing
//! between `String` and `Vec<char>`.

use vstd::prelude::*;
use vstd::string::StrSliceExecFns;

verus! {

/// A sequence of characters that all fit in seven bits.
pub open spec fn ascii_seq(s: Seq<char>) -> bool {
    forall|i: int| 0 <= i < s.len() ==> '\0' <= #[trigger] s[i] <= '\u{7f}'
}

/// Characters that percent-encoding passes through unchanged
/// (the RFC 3986 unreserved set).
pub open spec fn is_unreserved(c: char) -> bool {
    ('A' <= c && c <= 'Z') || ('a' <= c && c <= 'z') || ('0' <= c && c <= '9')
        || c == '-' || c == '.' || c == '_' || c == '~'
}

/// The uppercase hexadecimal digit for a value below sixteen.
pub open spec fn hex_digit(v: int) -> char
    recommends
        0 <= v < 16,
{
    if v < 10 {
        ((('0' as u8) + v) as u8) as char
    } else {
        ((('A' as u8) + (v - 10)) as u8) as char
    }
}

/// Percent-encoding of a single ASCII character.
pub open spec fn pct_char(c: char) -> Seq<char>
    recommends
        c <= '\u{7f}',
{
    if is_unreserved(c) {
        seq![c]
    } else {
        seq!['%', hex_digit((c as u8 / 16) as int), hex_digit((c as u8 % 16) as int)]
    }
}

/// Percent-encoding of an ASCII character sequence.
pub open spec fn pct_encode(s: Seq<char>) -> Seq<char>
    decreases s.len(),
{
    if s.len() == 0 {
        Seq::empty()
    } else {
        pct_encode(s.drop_last()) + pct_char(s.last())
    }
}

/// Whether a character is a hexadecimal digit.
pub open spec fn is_hex(c: char) -> bool {
    ('0' <= c && c <= '9') || ('A' <= c && c <= 'F') || ('a' <= c && c <= 'f')
}

/// The value of a hexadecimal digit.
pub open spec fn hex_val(c: char) -> int
    recommends
        is_hex(c),
{
    if '0' <= c && c <= '9' {
        c as int - '0' as int
    } else if 'A' <= c && c <= 'F' {
        c as int - 'A' as int + 10
    } else {
        c as int - 'a' as int + 10
    }
}

/// Percent-decoding of a query component: `%XY` becomes the ASCII character
/// with code `XY`, `+` becomes a space, anything else stands for itself.
/// `None` when an escape is malformed or names a non-ASCII byte.
pub open spec fn pct_decode(s: Seq<char>) -> Option<Seq<char>>
    decreases s.len(),
{
    if s.len() == 0 {
        Some(Seq::empty())
    } else if s[0] == '%' {
        if s.len() >= 3 && is_hex(s[1]) && is_hex(s[2]) && 16 * hex_val(s[1]) + hex_val(s[2])
            < 128 {
            match pct_decode(s.skip(3)) {
                Some(r) => Some(
                    seq![(((16 * hex_val(s[1]) + hex_val(s[2])) as u8) as char)] + r,
                ),
                None => None,
            }
        } else {
            None
        }
    } else {
        let c = if s[0] == '+' {
            ' '
        } else {
            s[0]
        };
        match pct_decode(s.skip(1)) {
            Some(r) => Some(seq![c] + r),
            None => None,
        }
    }
}

/// The decimal digit sequence of a non-negative integer.
pub open spec fn dec_rep(n: int) -> Seq<char>
    recommends
        n >= 0,
    decreases n,
{
    if n < 10 {
        seq![((('0' as u8) + n) as u8) as char]
    } else {
        dec_rep(n / 10).push(((('0' as u8) + n % 10) as u8) as char)
    }
}

/// Scopes joined by single spaces, in order.
pub open spec fn join_scopes(ss: Seq<Seq<char>>) -> Seq<char>
    decreases ss.len(),
{
    if ss.len() == 0 {
        Seq::empty()
    } else if ss.len() == 1 {
        ss[0]
    } else {
        join_scopes(ss.drop_last()) + seq![' '] + ss.last()
    }
}

/// Relies on `String::push`: appends exactly the given character.
#[verifier::external_body]
pub fn push_char(s: &mut String, c: char)
    ensures
        final(s)@ == old(s)@.push(c),
{
    s.push(c)
}

/// Builds the string holding exactly the given characters.
pub fn string_of_chars(v: &Vec<char>) -> (r: String)
    ensures
        r@ == v@,
{
    let mut s = String::new();
    let mut i: usize = 0;
    while i < v.len()
        invariant
            i <= v@.len(),
            s@ == v@.take(i as int),
        decreases v@.len() - i,
    {
        push_char(&mut s, v[i]);
        proof {
            assert(v@.take(i as int).push(v@[i as int]) =~= v@.take(i as int + 1));
        }
        i = i + 1;
    }
    proof {
        assert(v@.take(v@.len() as int) =~= v@);
    }
    s
}

/// Collects the characters of a string slice into a vector.
pub fn chars_of_str(s: &str) -> (r: Vec<char>)
    ensures
        r@ == s@,
{
    let n = s.unicode_len();
    let mut v: Vec<char> = Vec::new();
    let mut i: usize = 0;
    while i < n
        invariant
            n == s@.len(),
            i <= n,
            v@ == s@.take(i as int),
        decreases n - i,
    {
        v.push(s.get_char(i));
        proof {
            assert(s@.take(i as int).push(s@[i as int]) =~= s@.take(i as int + 1));
        }
        i = i + 1;
    }
    proof {
        assert(s@.take(n as int) =~= s@);
    }
    v
}

/// Appends the characters of a string slice to a character vector.
pub fn push_str_chars(out: &mut Vec<char>, s: &str)
    ensures
        final(out)@ == old(out)@ + s@,
{
    let n = s.unicode_len();
    let mut i: usize = 0;
    while i < n
        invariant
            n == s@.len(),
            i <= n,
            out@ == old(out)@ + s@.take(i as int),
        decreases n - i,
    {
        out.push(s.get_char(i));
        proof {
            assert((old(out)@ + s@.take(i as int)).push(s@[i as int]) =~= old(out)@ + s@.take(
                i as int + 1,
            ));
        }
        i = i + 1;
    }
    proof {
        assert(s@.take(n as int) =~= s@);
    }
}

/// Appends the percent-encoding of `s` to `out`.
pub fn push_pct_encoded(out: &mut Vec<char>, s: &Vec<char>)
    requires
        ascii_seq(s@),
    ensures
        final(out)@ == old(out)@ + pct_encode(s@),
{
    let mut i: usize = 0;
    while i < s.len()
        invariant
            ascii_seq(s@),
            i <= s@.len(),
            out@ == old(out)@ + pct_encode(s@.take(i as int)),
        decreases s@.len() - i,
    {
        let c = s[i];
        if ('A' <= c && c <= 'Z') || ('a' <= c && c <= 'z') || ('0' <= c && c <= '9') || c == '-'
            || c == '.' || c == '_' || c == '~' {
            out.push(c);
        } else {
            assert(c <= '\u{7f}');
            let b = c as u8;
            out.push('%');
            let hi = b / 16;
            let lo = b % 16;
            out.push(if hi < 10 { (('0' as u8) + hi) as char } else { (('A' as u8) + hi - 10) as char });
            out.push(if lo < 10 { (('0' as u8) + lo) as char } else { (('A' as u8) + lo - 10) as char });
        }
        proof {
            assert(s@.take(i as int + 1).drop_last() =~= s@.take(i as int));
            assert(s@.take(i as int + 1).last() == s@[i as int]);
            assert(old(out)@ + pct_encode(s@.take(i as int)) + pct_char(s@[i as int]) =~= old(
                out,
            )@ + (pct_encode(s@.take(i as int)) + pct_char(s@[i as int])));
        }
        i = i + 1;
    }
    proof {
        assert(s@.take(s@.len() as int) =~= s@);
    }
}

/// Appends the decimal digits of `n` to `out`.
pub fn push_dec(out: &mut Vec<char>, n: u16)
    ensures
        final(out)@ == old(out)@ + dec_rep(n as int),
    decreases n,
{
    if n < 10 {
        out.push((('0' as u8) + (n as u8)) as char);
        proof {
            assert(old(out)@.push(((('0' as u8) + n) as u8) as char) =~= old(out)@ + dec_rep(
                n as int,
            ));
        }
    } else {
        push_dec(out, n / 10);
        out.push((('0' as u8) + ((n % 10) as u8)) as char);
        proof {
            assert((old(out)@ + dec_rep(n as int / 10)).push(
                ((('0' as u8) + n as int % 10) as u8) as char,
            ) =~= old(out)@ + dec_rep(n as int));
        }
    }
}


/// The first position at or after `i` holding `c`, or the length when none
/// does.
pub open spec fn find_char(s: Seq<char>, c: char, i: int) -> int
    decreases s.len() - i when 0 <= i <= s.len()
{
    if i >= s.len() {
        i
    } else if s[i] == c {
        i
    } else {
        find_char(s, c, i + 1)
    }
}

pub proof fn lemma_find_char_range(s: Seq<char>, c: char, i: int)
    requires
        0 <= i <= s.len(),
    ensures
        i <= find_char(s, c, i) <= s.len(),
    decreases s.len() - i,
{
    if i < s.len() && s[i] != c {
        lemma_find_char_range(s, c, i + 1);
    }
}

/// A scan that saw no `c` in `[a, i)` and stops at `i` computes `find_char`.
pub proof fn lemma_find_char_at(s: Seq<char>, c: char, a: int, i: int)
    requires
        0 <= a <= i <= s.len(),
        forall|k: int| a <= k < i ==> s[k] != c,
        i == s.len() || s[i] == c,
    ensures
        find_char(s, c, a) == i,
    decreases i - a,
{
    if a < i {
        lemma_find_char_at(s, c, a + 1, i);
    }
}

/// The copy of `v[a..b]`.
pub fn subvec(v: &Vec<char>, a: usize, b: usize) -> (r: Vec<char>)
    requires
        a <= b <= v@.len(),
    ensures
        r@ == v@.subrange(a as int, b as int),
{
    let mut r: Vec<char> = Vec::new();
    let mut i: usize = a;
    while i < b
        invariant
            a <= i <= b <= v@.len(),
            r@ == v@.subrange(a as int, i as int),
        decreases b - i,
    {
        r.push(v[i]);
        proof {
            assert(v@.subrange(a as int, i as int).push(v@[i as int]) =~= v@.subrange(
                a as int,
                i as int + 1,
            ));
        }
        i = i + 1;
    }
    r
}

/// Finds the first `c` at or after `from`.
pub fn find_in(v: &Vec<char>, c: char, from: usize) -> (r: usize)
    requires
        from <= v@.len(),
    ensures
        r == find_char(v@, c, from as int),
        from <= r <= v@.len(),
{
    let mut i: usize = from;
    while i < v.len()
        invariant
            from <= i <= v@.len(),
            forall|k: int| from <= k < i ==> v@[k] != c,
        decreases v@.len() - i,
    {
        if v[i] == c {
            proof {
                lemma_find_char_at(v@, c, from as int, i as int);
            }
            return i;
        }
        i = i + 1;
    }
    proof {
        lemma_find_char_at(v@, c, from as int, v@.len() as int);
    }
    i
}

/// Percent-decoded output of ASCII input is ASCII.
pub proof fn lemma_pct_decode_ascii(s: Seq<char>)
    requires
        ascii_seq(s),
        pct_decode(s) is Some,
    ensures
        ascii_seq(pct_decode(s)->0),
    decreases s.len(),
{
    if s.len() == 0 {
    } else if s[0] == '%' {
        assert(ascii_seq(s.skip(3))) by {
            assert(forall|i: int| 0 <= i < s.skip(3).len() ==> s.skip(3)[i] == s[i + 3]);
        }
        lemma_pct_decode_ascii(s.skip(3));
    } else {
        assert(ascii_seq(s.skip(1))) by {
            assert(forall|i: int| 0 <= i < s.skip(1).len() ==> s.skip(1)[i] == s[i + 1]);
        }
        lemma_pct_decode_ascii(s.skip(1));
    }
}

/// Percent-decodes `s`; `None` exactly when the spec-level decoding fails.
pub fn pct_decode_vec(s: &Vec<char>) -> (r: Option<Vec<char>>)
    ensures
        r is Some <==> pct_decode(s@) is Some,
        r is Some ==> r->0@ == pct_decode(s@)->0,
{
    let mut out: Vec<char> = Vec::new();
    let mut i: usize = 0;
    proof {
        assert(s@.skip(0) =~= s@);
    }
    while i < s.len()
        invariant
            i <= s@.len(),
            pct_decode(s@) is Some <==> pct_decode(s@.skip(i as int)) is Some,
            pct_decode(s@.skip(i as int)) is Some ==> pct_decode(s@) is Some && pct_decode(
                s@,
            )->0 == out@ + pct_decode(s@.skip(i as int))->0,
        decreases s@.len() - i,
    {
        let ghost rem = s@.skip(i as int);
        proof {
            assert(rem[0] == s@[i as int]);
        }
        let c = s[i];
        if c == '%' {
            if s.len() - i >= 3 {
                let h1 = s[i + 1];
                let h2 = s[i + 2];
                proof {
                    assert(rem.len() >= 3);
                    assert(rem[1] == s@[i as int + 1]);
                    assert(rem[2] == s@[i as int + 2]);
                }
                let v1 = hex_val_exec(h1);
                let v2 = hex_val_exec(h2);
                match (v1, v2) {
                    (Some(a), Some(b)) => {
                        if 16 * a + b < 128 {
                            out.push(((16 * a + b) as u8) as char);
                            proof {
                                assert(rem.skip(3) =~= s@.skip(i as int + 3));
                                assert(pct_decode(rem) is Some <==> pct_decode(
                                    s@.skip(i as int + 3),
                                ) is Some);
                                if pct_decode(rem) is Some {
                                    assert(out@ + pct_decode(rem.skip(3))->0 =~= out@.drop_last()
                                        + (seq![(((16 * hex_val(rem[1]) + hex_val(rem[2])) as u8) as char)]
                                        + pct_decode(rem.skip(3))->0));
                                }
                            }
                            i = i + 3;
                        } else {
                            proof {
                                assert(pct_decode(rem) is None);
                            }
                            return None;
                        }
                    },
                    _ => {
                        proof {
                            assert(pct_decode(rem) is None);
                        }
                        return None;
                    },
                }
            } else {
                proof {
                    assert(rem.len() < 3);
                    assert(pct_decode(rem) is None);
                }
                return None;
            }
        } else {
            let d = if c == '+' {
                ' '
            } else {
                c
            };
            out.push(d);
            proof {
                assert(rem.skip(1) =~= s@.skip(i as int + 1));
                if pct_decode(rem) is Some {
                    assert(out@ + pct_decode(rem.skip(1))->0 =~= out@.drop_last() + (seq![d]
                        + pct_decode(rem.skip(1))->0));
                }
            }
            i = i + 1;
        }
    }
    proof {
        assert(s@.skip(s@.len() as int) =~= Seq::<char>::empty());
        assert(out@ + Seq::<char>::empty() =~= out@);
    }
    Some(out)
}

/// The value of a hexadecimal digit character, `None` for any other.
pub fn hex_val_exec(c: char) -> (r: Option<u8>)
    ensures
        r is Some <==> is_hex(c),
        r is Some ==> r->0 as int == hex_val(c),
{
    if '0' <= c && c <= '9' {
        Some((c as u8) - ('0' as u8))
    } else if 'A' <= c && c <= 'F' {
        Some((c as u8) - ('A' as u8) + 10)
    } else if 'a' <= c && c <= 'f' {
        Some((c as u8) - ('a' as u8) + 10)
    } else {
        None
    }
}

} // verus!
