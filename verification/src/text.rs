//! Character-sequence utilities: substring containment, prefix/suffix
//! tests, whitespace trimming, and decimal rendering of counters.
use vstd::prelude::*;

verus! {

/// Whitespace for the purpose of trimming matched content: the
/// characters with the Unicode White_Space property.
pub open spec fn spec_is_space(c: char) -> bool {
    ||| c == '\u{9}' || c == '\u{a}' || c == '\u{b}' || c == '\u{c}' || c == '\u{d}'
    ||| c == ' ' || c == '\u{85}' || c == '\u{a0}' || c == '\u{1680}'
    ||| ('\u{2000}' as u32) <= (c as u32) && (c as u32) <= ('\u{200a}' as u32)
    ||| c == '\u{2028}' || c == '\u{2029}' || c == '\u{202f}' || c == '\u{205f}'
    ||| c == '\u{3000}'
}

pub fn is_space(c: char) -> (r: bool)
    ensures
        r == spec_is_space(c),
{
    c == '\u{9}' || c == '\u{a}' || c == '\u{b}' || c == '\u{c}' || c == '\u{d}' || c == ' '
        || c == '\u{85}' || c == '\u{a0}' || c == '\u{1680}' || (('\u{2000}' as u32) <= (c
        as u32) && (c as u32) <= ('\u{200a}' as u32)) || c == '\u{2028}' || c == '\u{2029}'
        || c == '\u{202f}' || c == '\u{205f}' || c == '\u{3000}'
}

/// `q` occurs as a contiguous subsequence of `t`.
pub open spec fn spec_contains(t: Seq<char>, q: Seq<char>) -> bool {
    exists|i: int| 0 <= i <= t.len() - q.len() && #[trigger] t.subrange(i, i + q.len() as int)
        == q
}

/// `t` starts with `q`.
pub open spec fn spec_starts_with(t: Seq<char>, q: Seq<char>) -> bool {
    q.len() <= t.len() && t.subrange(0, q.len() as int) == q
}

/// `t` ends with `q`.
pub open spec fn spec_ends_with(t: Seq<char>, q: Seq<char>) -> bool {
    q.len() <= t.len() && t.subrange(t.len() - q.len(), t.len() as int) == q
}

/// Turn a string slice into its character vector.
pub fn str_chars(s: &str) -> (v: Vec<char>)
    ensures
        v@ == s@,
{
    let n = s.unicode_len();
    let mut v: Vec<char> = Vec::new();
    let mut i: usize = 0;
    while i < n
        invariant
            i <= n,
            n == s@.len(),
            v@ == s@.subrange(0, i as int),
        decreases n - i,
    {
        v.push(s.get_char(i));
        i += 1;
        proof {
            assert(v@ =~= s@.subrange(0, i as int));
        }
    }
    proof {
        assert(v@ =~= s@);
    }
    v
}

/// Relies on `String: FromIterator<char>` (`collect`): the resulting
/// string holds exactly the given characters in order.
#[verifier::external_body]
pub(crate) fn chars_to_string(v: &Vec<char>) -> (s: String)
    ensures
        s@ == v@,
{
    v.iter().collect()
}

/// Whether the characters `t[i..i+q.len()]` equal `q`.
fn match_at(t: &Vec<char>, q: &Vec<char>, i: usize) -> (r: bool)
    requires
        i + q@.len() <= t@.len(),
    ensures
        r == (t@.subrange(i as int, i + q@.len()) == q@),
{
    let tlen = t.len();
    let qlen = q.len();
    let mut j: usize = 0;
    while j < qlen
        invariant
            j <= qlen,
            qlen == q@.len(),
            tlen == t@.len(),
            i + q@.len() <= t@.len(),
            forall|k: int| 0 <= k < j ==> t@[i + k] == q@[k],
        decreases qlen - j,
    {
        if t[i + j] != q[j] {
            proof {
                assert(t@.subrange(i as int, i + q@.len())[j as int] != q@[j as int]);
            }
            return false;
        }
        j += 1;
    }
    proof {
        assert(t@.subrange(i as int, i + q@.len()) =~= q@);
    }
    true
}

/// Equality of two character vectors.
pub fn chars_eq(a: &Vec<char>, b: &Vec<char>) -> (r: bool)
    ensures
        r == (a@ == b@),
{
    if a.len() != b.len() {
        proof {
            assert(a@ != b@);
        }
        return false;
    }
    let r = match_at(a, b, 0);
    proof {
        assert(a@.subrange(0, 0 + b@.len() as int) =~= a@);
    }
    r
}

/// Substring containment over character vectors.
pub fn contains_chars(t: &Vec<char>, q: &Vec<char>) -> (r: bool)
    ensures
        r == spec_contains(t@, q@),
{
    if q.len() > t.len() {
        return false;
    }
    if q.len() == 0 {
        proof {
            assert(t@.subrange(0, 0 + q@.len() as int) =~= q@);
        }
        return true;
    }
    let tlen = t.len();
    let qlen = q.len();
    let mut i: usize = 0;
    while i <= tlen - qlen
        invariant
            1 <= qlen <= tlen,
            qlen == q@.len(),
            tlen == t@.len(),
            i <= tlen - qlen + 1,
            forall|k: int| 0 <= k < i ==> #[trigger] t@.subrange(k, k + q@.len()) != q@,
        decreases tlen - qlen - i + 1,
    {
        if match_at(t, q, i) {
            return true;
        }
        i += 1;
    }
    false
}

/// Substring containment over string slices.
pub fn str_contains(t: &str, q: &str) -> (r: bool)
    ensures
        r == spec_contains(t@, q@),
{
    let tv = str_chars(t);
    let qv = str_chars(q);
    contains_chars(&tv, &qv)
}

/// Prefix test over character vectors.
pub fn starts_with_chars(t: &Vec<char>, q: &Vec<char>) -> (r: bool)
    ensures
        r == spec_starts_with(t@, q@),
{
    if q.len() > t.len() {
        return false;
    }
    match_at(t, q, 0)
}

/// Suffix test over character vectors.
pub fn ends_with_chars(t: &Vec<char>, q: &Vec<char>) -> (r: bool)
    ensures
        r == spec_ends_with(t@, q@),
{
    if q.len() > t.len() {
        return false;
    }
    let i = t.len() - q.len();
    match_at(t, q, i)
}

/// Trimmed form of a character sequence: the subrange from the first
/// non-space character to the last one; empty when all are spaces.
pub open spec fn spec_trim(s: Seq<char>) -> Seq<char>
    decreases s.len(),
{
    if s.len() == 0 {
        s
    } else if spec_is_space(s[0]) {
        spec_trim(s.subrange(1, s.len() as int))
    } else if spec_is_space(s[s.len() - 1]) {
        spec_trim(s.subrange(0, s.len() - 1))
    } else {
        s
    }
}

#[verifier::rlimit(50)]
pub fn trim_chars(s: &Vec<char>) -> (r: Vec<char>)
    ensures
        r@ == spec_trim(s@),
{
    let mut a: usize = 0;
    let mut b: usize = s.len();
    proof {
        assert(s@.subrange(0, s@.len() as int) =~= s@);
    }
    while a < b && is_space(s[a as usize])
        invariant
            a <= b <= s@.len(),
            spec_trim(s@) == spec_trim(s@.subrange(a as int, b as int)),
        decreases b - a,
    {
        proof {
            let t = s@.subrange(a as int, b as int);
            assert(t.subrange(1, t.len() as int) =~= s@.subrange(a + 1, b as int));
        }
        a += 1;
    }
    while a < b && is_space(s[b - 1])
        invariant
            a <= b <= s@.len(),
            spec_trim(s@) == spec_trim(s@.subrange(a as int, b as int)),
            a < b ==> !spec_is_space(s@[a as int]),
        decreases b,
    {
        proof {
            let t = s@.subrange(a as int, b as int);
            assert(t.subrange(0, t.len() - 1) =~= s@.subrange(a as int, b - 1));
        }
        b -= 1;
    }
    let mut r: Vec<char> = Vec::new();
    let mut i: usize = a;
    while i < b
        invariant
            a <= i <= b <= s@.len(),
            r@ == s@.subrange(a as int, i as int),
        decreases b - i,
    {
        r.push(s[i as usize]);
        i += 1;
        proof {
            assert(r@ =~= s@.subrange(a as int, i as int));
        }
    }
    proof {
        let t = s@.subrange(a as int, b as int);
        assert(r@ =~= t);
        if a < b {
            assert(!spec_is_space(t[0]));
            assert(!spec_is_space(t[t.len() - 1]));
        }
    }
    r
}

/// The decimal digit character for a value below ten.
pub open spec fn spec_digit_char(d: int) -> char {
    if d == 0 { '0' }
    else if d == 1 { '1' }
    else if d == 2 { '2' }
    else if d == 3 { '3' }
    else if d == 4 { '4' }
    else if d == 5 { '5' }
    else if d == 6 { '6' }
    else if d == 7 { '7' }
    else if d == 8 { '8' }
    else { '9' }
}

/// Decimal rendering of a number, most significant digit first.
pub open spec fn spec_decimal(n: int) -> Seq<char>
    decreases n,
{
    if n < 10 {
        seq![spec_digit_char(n)]
    } else {
        spec_decimal(n / 10).push(spec_digit_char(n % 10))
    }
}

fn digit_char(d: u64) -> (c: char)
    requires
        d < 10,
    ensures
        c == spec_digit_char(d as int),
{
    if d == 0 { '0' }
    else if d == 1 { '1' }
    else if d == 2 { '2' }
    else if d == 3 { '3' }
    else if d == 4 { '4' }
    else if d == 5 { '5' }
    else if d == 6 { '6' }
    else if d == 7 { '7' }
    else if d == 8 { '8' }
    else { '9' }
}

/// Render a number as its decimal character sequence.
pub fn decimal_chars(n: u64) -> (r: Vec<char>)
    ensures
        r@ == spec_decimal(n as int),
    decreases n,
{
    if n < 10 {
        let mut r: Vec<char> = Vec::new();
        r.push(digit_char(n));
        proof {
            assert(r@ =~= spec_decimal(n as int));
        }
        r
    } else {
        let mut r = decimal_chars(n / 10);
        r.push(digit_char(n % 10));
        r
    }
}

} // verus!
