//! Digit strings: writing natural numbers and reading them back.
use vstd::prelude::*;
use vstd::utf8::{decode_utf8, valid_utf8};
use crate::scaled_number::{pow10, lemma_pow10_add, lemma_pow10_positive};

verus! {

pub open spec fn is_digit(c: char) -> bool {
    '0' <= c && c <= '9'
}

pub open spec fn digit_value(c: char) -> nat {
    ((c as u32) - ('0' as u32)) as nat
}

pub open spec fn digit_char(n: nat) -> char {
    ((n + ('0' as u32)) as u32) as char
}

pub open spec fn all_digits(s: Seq<char>) -> bool {
    forall|i: int| 0 <= i < s.len() ==> is_digit(#[trigger] s[i])
}

/// The decimal digits of `n`, most significant first, without leading zeros.
pub open spec fn digits_of(n: nat) -> Seq<char>
    decreases n,
{
    if n < 10 {
        seq![digit_char(n)]
    } else {
        digits_of(n / 10).push(digit_char(n % 10))
    }
}

/// The number that the digits `s` continue after `init`.
pub open spec fn value_from(init: nat, s: Seq<char>) -> nat
    decreases s.len(),
{
    if s.len() == 0 {
        init
    } else {
        value_from(init, s.drop_last()) * 10 + digit_value(s.last())
    }
}

/// The number the digit string `s` denotes (zero when empty).
pub open spec fn value_of(s: Seq<char>) -> nat {
    value_from(0, s)
}

/// `n` copies of `'0'`.
pub open spec fn zeros(n: nat) -> Seq<char> {
    Seq::new(n, |i: int| '0')
}

pub proof fn lemma_digit_char(n: nat)
    requires
        n < 10,
    ensures
        is_digit(digit_char(n)),
        digit_value(digit_char(n)) == n,
{
}

pub proof fn lemma_digits_of(n: nat)
    ensures
        all_digits(digits_of(n)),
        value_of(digits_of(n)) == n,
        digits_of(n).len() >= 1,
        n > 0 ==> digits_of(n)[0] != '0',
    decreases n,
{
    lemma_digit_char(n % 10);
    let s = digits_of(n);
    if n >= 10 {
        lemma_digits_of(n / 10);
        assert(s.drop_last() == digits_of(n / 10));
        assert(s.last() == digit_char(n % 10));
        assert(value_of(s) == value_of(digits_of(n / 10)) * 10 + n % 10);
        assert(all_digits(s)) by {
            assert forall|i: int| 0 <= i < s.len() implies is_digit(#[trigger] s[i]) by {
                if i < s.len() - 1 {
                    assert(s[i] == digits_of(n / 10)[i]);
                }
            }
        }
    } else {
        lemma_digit_char(n);
        assert(s.drop_last() == Seq::<char>::empty());
        assert(value_from(0, Seq::<char>::empty()) == 0);
    }
}

pub proof fn lemma_value_from_concat(init: nat, a: Seq<char>, b: Seq<char>)
    ensures
        value_from(init, a + b) == value_from(value_from(init, a), b),
    decreases b.len(),
{
    if b.len() == 0 {
        assert(a + b == a);
    } else {
        lemma_value_from_concat(init, a, b.drop_last());
        assert((a + b).drop_last() == a + b.drop_last());
        assert((a + b).last() == b.last());
    }
}

pub proof fn lemma_value_from_grows(init: nat, s: Seq<char>)
    ensures
        value_from(init, s) >= init,
        value_from(init, s) >= init * pow10(s.len()),
    decreases s.len(),
{
    if s.len() == 0 {
        assert(pow10(0) == 1);
        assert(init * pow10(0) == init);
    } else {
        lemma_value_from_grows(init, s.drop_last());
        lemma_pow10_positive((s.len() - 1) as nat);
        let v = value_from(init, s.drop_last());
        let p = pow10((s.len() - 1) as nat);
        assert(v * 10 >= init * p * 10) by (nonlinear_arith)
            requires
                v >= init * p,
        ;
        assert(init * p * 10 == init * pow10(s.len())) by (nonlinear_arith)
            requires
                pow10(s.len()) == 10 * p,
        ;
    }
}

pub proof fn lemma_value_of_zeros_prefix(k: nat, s: Seq<char>)
    ensures
        value_of(zeros(k) + s) == value_of(s),
    decreases k,
{
    lemma_value_from_concat(0, zeros(k), s);
    lemma_value_from_zeros(k);
}

pub proof fn lemma_value_from_zeros(k: nat)
    ensures
        value_from(0, zeros(k)) == 0,
    decreases k,
{
    if k > 0 {
        assert(zeros(k).drop_last() == zeros((k - 1) as nat));
        lemma_value_from_zeros((k - 1) as nat);
    }
}

pub proof fn lemma_digits_times_pow10(n: nat, k: nat)
    requires
        n > 0,
    ensures
        digits_of(n * pow10(k)) == digits_of(n) + zeros(k),
    decreases k,
{
    assert(digit_char(0) == '0');
    if k == 0 {
        assert(pow10(0) == 1);
        assert(n * pow10(0) == n) by (nonlinear_arith)
            requires
                pow10(0) == 1,
        ;
        assert(digits_of(n) + zeros(0) == digits_of(n));
    } else {
        let k1 = (k - 1) as nat;
        lemma_digits_times_pow10(n, k1);
        lemma_pow10_positive(k1);
        let m = n * pow10(k1);
        assert(m >= 1) by (nonlinear_arith)
            requires
                n > 0,
                pow10(k1) >= 1,
                m == n * pow10(k1),
        ;
        assert(n * pow10(k) == m * 10) by (nonlinear_arith)
            requires
                pow10(k) == 10 * pow10(k1),
                m == n * pow10(k1),
        ;
        let t = m * 10;
        assert(t / 10 == m && t % 10 == 0);
        assert(digits_of(t) == digits_of(m).push(digit_char(0)));
        assert(digits_of(n) + zeros(k) == (digits_of(n) + zeros(k1)).push('0'));
    }
}

/// Appends the digits of `n`.
pub fn push_digits(n: u64, out: &mut Vec<char>)
    ensures
        final(out)@ == old(out)@ + digits_of(n as nat),
    decreases n,
{
    if n >= 10 {
        push_digits(n / 10, out);
    }
    let d: u8 = (n % 10) as u8;
    let c: char = (d + 48) as char;
    out.push(c);
    proof {
        assert(digits_of(n as nat) == (if n >= 10 { digits_of((n / 10) as nat) } else {
            Seq::empty()
        }).push(digit_char((n % 10) as nat)));
    }
}


/// Appends `k` zeros.
pub fn push_zeros(k: usize, out: &mut Vec<char>)
    ensures
        final(out)@ == old(out)@ + zeros(k as nat),
{
    let ghost start = out@;
    let mut i: usize = 0;
    while i < k
        invariant
            i <= k,
            out@ == start + zeros(i as nat),
        decreases k - i,
    {
        out.push('0');
        i = i + 1;
        assert(zeros(i as nat) == zeros((i - 1) as nat).push('0'));
    }
}

/// Appends `src[lo..hi]`.
pub fn push_range(src: &Vec<char>, lo: usize, hi: usize, out: &mut Vec<char>)
    requires
        lo <= hi <= src@.len(),
    ensures
        final(out)@ == old(out)@ + src@.subrange(lo as int, hi as int),
{
    let ghost start = out@;
    let mut i: usize = lo;
    while i < hi
        invariant
            lo <= i <= hi <= src@.len(),
            out@ == start + src@.subrange(lo as int, i as int),
        decreases hi - i,
    {
        out.push(src[i]);
        i = i + 1;
        assert(src@.subrange(lo as int, i as int) == src@.subrange(lo as int, i - 1).push(
            src@[i - 1],
        ));
    }
}

/// Appends the characters of `s`.
pub fn push_str(s: &str, out: &mut Vec<char>)
    ensures
        final(out)@ == old(out)@ + s@,
{
    let ghost start = out@;
    let n = s.unicode_len();
    let mut i: usize = 0;
    while i < n
        invariant
            i <= n == s@.len(),
            out@ == start + s@.subrange(0, i as int),
        decreases n - i,
    {
        out.push(s.get_char(i));
        i = i + 1;
        assert(s@.subrange(0, i as int) == s@.subrange(0, i - 1).push(s@[i - 1]));
    }
    assert(s@.subrange(0, n as int) == s@);
}

/// The characters of `s`.
pub fn chars_of(s: &str) -> (r: Vec<char>)
    ensures
        r@ == s@,
{
    let mut r: Vec<char> = Vec::new();
    push_str(s, &mut r);
    assert(r@ == Seq::<char>::empty() + s@);
    r
}

/// Relies on `std::str::from_utf8`: it succeeds exactly on valid UTF-8, and
/// the text holds the characters the bytes encode.
#[verifier::external_body]
pub fn utf8_text(b: &[u8]) -> (r: Option<String>)
    ensures
        r is Some == valid_utf8(b@),
        r matches Some(t) ==> t@ == decode_utf8(b@),
{
    std::str::from_utf8(b).ok().map(|t| t.to_string())
}

/// Relies on `String`'s `FromIterator<char>`: the string holds the
/// characters in the order given.
#[verifier::external_body]
pub fn string_from_chars(cs: &Vec<char>) -> (r: String)
    ensures
        r@ == cs@,
{
    cs.iter().collect()
}


/// Index of the first character of `s` that is `a` or `b` (`s.len()` when none is).
pub open spec fn find2(s: Seq<char>, a: char, b: char) -> nat
    decreases s.len(),
{
    if s.len() == 0 {
        0
    } else if s[0] == a || s[0] == b {
        0
    } else {
        1 + find2(s.skip(1), a, b)
    }
}

pub proof fn lemma_find2(s: Seq<char>, a: char, b: char, i: int)
    requires
        0 <= i <= s.len(),
        forall|j: int| 0 <= j < i ==> s[j] != a && s[j] != b,
        i == s.len() || s[i] == a || s[i] == b,
    ensures
        find2(s, a, b) == i,
    decreases i,
{
    if i > 0 {
        let t = s.skip(1);
        assert forall|j: int| 0 <= j < i - 1 implies t[j] != a && t[j] != b by {
            assert(t[j] == s[j + 1]);
        }
        if i < s.len() {
            assert(t[i - 1] == s[i]);
        }
        lemma_find2(t, a, b, i - 1);
    }
}

/// The first index in `v[lo..hi]` that holds `a` or `b`, or `hi`.
pub fn find2_in(v: &Vec<char>, lo: usize, hi: usize, a: char, b: char) -> (j: usize)
    requires
        lo <= hi <= v@.len(),
    ensures
        lo <= j <= hi,
        j - lo == find2(v@.subrange(lo as int, hi as int), a, b),
{
    let ghost s = v@.subrange(lo as int, hi as int);
    let mut j: usize = lo;
    while j < hi && v[j] != a && v[j] != b
        invariant
            lo <= j <= hi <= v@.len(),
            s == v@.subrange(lo as int, hi as int),
            forall|k: int| 0 <= k < j - lo ==> s[k] != a && s[k] != b,
        decreases hi - j,
    {
        j = j + 1;
    }
    proof {
        lemma_find2(s, a, b, j - lo);
    }
    j
}

/// The value of the digits `s` continuing `init`, when all of `s` are digits
/// and the value stays within `cap`.
pub open spec fn digits_within(init: nat, s: Seq<char>, cap: nat) -> Option<nat> {
    if all_digits(s) && value_from(init, s) <= cap {
        Some(value_from(init, s))
    } else {
        None
    }
}

/// Reads the digits `v[lo..hi]` after `init`.
pub fn digits_value(v: &Vec<char>, lo: usize, hi: usize, init: u64, cap: u64) -> (r: Option<u64>)
    requires
        lo <= hi <= v@.len(),
        init <= cap <= 1000000000000000000,
    ensures
        r matches Some(x) ==> digits_within(init as nat, v@.subrange(lo as int, hi as int), cap as nat)
            == Some(x as nat),
        r is None ==> digits_within(init as nat, v@.subrange(lo as int, hi as int), cap as nat) is None,
{
    let ghost s = v@.subrange(lo as int, hi as int);
    let mut acc: u64 = init;
    let mut j: usize = lo;
    while j < hi
        invariant
            lo <= j <= hi <= v@.len(),
            s == v@.subrange(lo as int, hi as int),
            init <= cap <= 1000000000000000000,
            acc <= cap,
            acc == value_from(init as nat, s.take(j - lo)),
            all_digits(s.take(j - lo)),
        decreases hi - j,
    {
        let c = v[j];
        if !('0' <= c && c <= '9') {
            assert(s[j - lo] == c);
            return None;
        }
        let d: u64 = (c as u32 - '0' as u32) as u64;
        let next = acc * 10 + d;
        proof {
            let t = s.take(j - lo + 1);
            assert(t.drop_last() == s.take(j - lo));
            assert(t.last() == c);
            assert(value_from(init as nat, t) == next);
        }
        if next > cap {
            proof {
                let t = s.take(j - lo + 1);
                assert(s == t + s.skip(j - lo + 1));
                lemma_value_from_concat(init as nat, t, s.skip(j - lo + 1));
                lemma_value_from_grows(value_from(init as nat, t), s.skip(j - lo + 1));
            }
            return None;
        }
        acc = next;
        j = j + 1;
        proof {
            let t = s.take(j - lo);
            assert forall|i: int| 0 <= i < t.len() implies is_digit(#[trigger] t[i]) by {
                if i < t.len() - 1 {
                    assert(t[i] == s.take(j - lo - 1)[i]);
                }
            }
        }
    }
    assert(s.take(j - lo) == s);
    Some(acc)
}

/// Unicode white space, as `char::is_whitespace` defines it.
pub open spec fn is_whitespace(c: char) -> bool {
    let u = c as u32;
    (0x9 <= u <= 0xd) || u == 0x20 || u == 0x85 || u == 0xa0 || u == 0x1680 || (0x2000 <= u
        <= 0x200a) || u == 0x2028 || u == 0x2029 || u == 0x202f || u == 0x205f || u == 0x3000
}

pub fn is_whitespace_char(c: char) -> (r: bool)
    ensures
        r == is_whitespace(c),
{
    let u = c as u32;
    (0x9 <= u && u <= 0xd) || u == 0x20 || u == 0x85 || u == 0xa0 || u == 0x1680 || (0x2000 <= u
        && u <= 0x200a) || u == 0x2028 || u == 0x2029 || u == 0x202f || u == 0x205f || u == 0x3000
}

/// ASCII white space, as `u8::is_ascii_whitespace` defines it.
pub open spec fn is_ascii_whitespace(c: char) -> bool {
    c == ' ' || c == '\t' || c == '\n' || c == '\x0C' || c == '\r'
}

/// Length of `s` once white space (Unicode, or ASCII only) is cut from its end.
pub open spec fn trim_end_len(s: Seq<char>, ascii: bool) -> nat
    decreases s.len(),
{
    if s.len() > 0 && (if ascii {
        is_ascii_whitespace(s.last())
    } else {
        is_whitespace(s.last())
    }) {
        trim_end_len(s.drop_last(), ascii)
    } else {
        s.len()
    }
}

/// Number of white space characters (Unicode, or ASCII only) that start `s`.
pub open spec fn trim_start_len(s: Seq<char>, ascii: bool) -> nat
    decreases s.len(),
{
    if s.len() > 0 && (if ascii {
        is_ascii_whitespace(s[0])
    } else {
        is_whitespace(s[0])
    }) {
        1 + trim_start_len(s.skip(1), ascii)
    } else {
        0
    }
}

/// `s` without white space at its end.
pub open spec fn trim_end(s: Seq<char>, ascii: bool) -> Seq<char> {
    s.take(trim_end_len(s, ascii) as int)
}

/// `s` without white space at either end.
pub open spec fn trim(s: Seq<char>, ascii: bool) -> Seq<char> {
    let t = trim_end(s, ascii);
    t.skip(trim_start_len(t, ascii) as int)
}

fn is_space(c: char, ascii: bool) -> (r: bool)
    ensures
        r == (if ascii {
            is_ascii_whitespace(c)
        } else {
            is_whitespace(c)
        }),
{
    if ascii {
        c == ' ' || c == '\t' || c == '\n' || c == '\x0C' || c == '\r'
    } else {
        is_whitespace_char(c)
    }
}

/// The end of `v[lo..hi]` once trailing white space is cut.
pub fn trim_end_in(v: &Vec<char>, lo: usize, hi: usize, ascii: bool) -> (j: usize)
    requires
        lo <= hi <= v@.len(),
    ensures
        lo <= j <= hi,
        j - lo == trim_end_len(v@.subrange(lo as int, hi as int), ascii),
{
    let mut j: usize = hi;
    while j > lo && is_space(v[j - 1], ascii)
        invariant
            lo <= j <= hi <= v@.len(),
            trim_end_len(v@.subrange(lo as int, hi as int), ascii) == trim_end_len(
                v@.subrange(lo as int, j as int),
                ascii,
            ),
        decreases j - lo,
    {
        assert(v@.subrange(lo as int, j as int).drop_last() == v@.subrange(lo as int, j - 1));
        j = j - 1;
    }
    j
}

/// The start of `v[lo..hi]` once leading white space is cut.
pub fn trim_start_in(v: &Vec<char>, lo: usize, hi: usize, ascii: bool) -> (j: usize)
    requires
        lo <= hi <= v@.len(),
    ensures
        lo <= j <= hi,
        j - lo == trim_start_len(v@.subrange(lo as int, hi as int), ascii),
{
    let mut j: usize = lo;
    while j < hi && is_space(v[j], ascii)
        invariant
            lo <= j <= hi <= v@.len(),
            trim_start_len(v@.subrange(lo as int, hi as int), ascii) == (j - lo)
                + trim_start_len(v@.subrange(j as int, hi as int), ascii),
        decreases hi - j,
    {
        assert(v@.subrange(j as int, hi as int).skip(1) == v@.subrange(j + 1, hi as int));
        j = j + 1;
    }
    j
}

/// Bounds of `v[lo..hi]` once white space is cut from both ends.
pub fn trim_in(v: &Vec<char>, lo: usize, hi: usize, ascii: bool) -> (r: (usize, usize))
    requires
        lo <= hi <= v@.len(),
    ensures
        lo <= r.0 <= r.1 <= hi,
        v@.subrange(r.0 as int, r.1 as int) == trim(v@.subrange(lo as int, hi as int), ascii),
{
    let e = trim_end_in(v, lo, hi, ascii);
    let b = trim_start_in(v, lo, e, ascii);
    assert(v@.subrange(lo as int, e as int) == trim_end(v@.subrange(lo as int, hi as int), ascii));
    assert(v@.subrange(b as int, e as int) == v@.subrange(lo as int, e as int).skip(b - lo));
    (b, e)
}


/// Whether `a` and `b` hold the same characters.
pub fn text_is(a: &str, b: &str) -> (r: bool)
    ensures
        r == (a@ == b@),
{
    let n = a.unicode_len();
    if n != b.unicode_len() {
        return false;
    }
    let mut i: usize = 0;
    while i < n
        invariant
            n == a@.len() == b@.len(),
            i <= n,
            forall|j: int| 0 <= j < i ==> a@[j] == b@[j],
        decreases n - i,
    {
        if a.get_char(i) != b.get_char(i) {
            return false;
        }
        i = i + 1;
    }
    assert(a@ =~= b@);
    true
}


/// `s` with `prefix` cut from its start, if it starts so.
pub open spec fn strip_prefix(s: Seq<char>, prefix: Seq<char>) -> Option<Seq<char>> {
    if s.len() >= prefix.len() && s.take(prefix.len() as int) == prefix {
        Some(s.skip(prefix.len() as int))
    } else {
        None
    }
}

/// `s` with `suffix` cut from its end, if it ends so.
pub open spec fn strip_suffix(s: Seq<char>, suffix: Seq<char>) -> Option<Seq<char>> {
    if s.len() >= suffix.len() && s.skip(s.len() - suffix.len()) == suffix {
        Some(s.take(s.len() - suffix.len()))
    } else {
        None
    }
}

/// Whether `lit` stands in `v` from index `at` on.
pub fn matches_at(v: &Vec<char>, at: usize, lit: &str) -> (r: bool)
    ensures
        r == (at + lit@.len() <= v@.len() && v@.subrange(at as int, at + lit@.len()) == lit@),
{
    let n = lit.unicode_len();
    if at > v.len() || v.len() - at < n {
        return false;
    }
    let mut i: usize = 0;
    while i < n
        invariant
            n == lit@.len(),
            at + n <= v@.len(),
            at + n <= v.len(),
            i <= n,
            forall|j: int| 0 <= j < i ==> v@[at + j] == lit@[j],
        decreases n - i,
    {
        if v[at + i] != lit.get_char(i) {
            assert(v@.subrange(at as int, at + n)[i as int] != lit@[i as int]);
            return false;
        }
        i = i + 1;
    }
    assert(v@.subrange(at as int, at + n) =~= lit@);
    true
}

/// Whether `v[lo..hi]` ends with `lit`.
pub fn ends_with_in(v: &Vec<char>, lo: usize, hi: usize, lit: &str) -> (r: bool)
    requires
        lo <= hi <= v@.len(),
    ensures
        r == (strip_suffix(v@.subrange(lo as int, hi as int), lit@) is Some),
{
    let n = lit.unicode_len();
    if hi - lo < n {
        return false;
    }
    let r = matches_at(v, hi - n, lit);
    assert(v@.subrange(lo as int, hi as int).skip(hi - n - lo) == v@.subrange(hi - n, hi as int));
    r
}

} // verus!
