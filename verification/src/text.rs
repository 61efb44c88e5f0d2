//! Character classes, decimal numbers and small string utilities shared by
//! the lexer, the parser and the editor helpers.
use vstd::prelude::*;

verus! {

broadcast use vstd::string::group_string_axioms;

/// `'0'..='9'`
pub open spec fn is_digit(c: char) -> bool {
    '0' <= c && c <= '9'
}

/// `'a'..='z'` or `'A'..='Z'`
pub open spec fn is_alpha(c: char) -> bool {
    ('a' <= c && c <= 'z') || ('A' <= c && c <= 'Z')
}

pub open spec fn is_alnum(c: char) -> bool {
    is_alpha(c) || is_digit(c)
}

/// The characters that carry the Unicode `White_Space` property.
pub open spec fn is_white(c: char) -> bool {
    ||| ('\u{9}' <= c && c <= '\u{d}')
    ||| c == ' '
    ||| c == '\u{85}'
    ||| c == '\u{a0}'
    ||| c == '\u{1680}'
    ||| ('\u{2000}' <= c && c <= '\u{200a}')
    ||| c == '\u{2028}'
    ||| c == '\u{2029}'
    ||| c == '\u{202f}'
    ||| c == '\u{205f}'
    ||| c == '\u{3000}'
}

pub fn char_is_digit(c: char) -> (b: bool)
    ensures
        b == is_digit(c),
{
    '0' <= c && c <= '9'
}

pub fn char_is_alpha(c: char) -> (b: bool)
    ensures
        b == is_alpha(c),
{
    ('a' <= c && c <= 'z') || ('A' <= c && c <= 'Z')
}

pub fn char_is_alnum(c: char) -> (b: bool)
    ensures
        b == is_alnum(c),
{
    char_is_alpha(c) || char_is_digit(c)
}

pub fn char_is_white(c: char) -> (b: bool)
    ensures
        b == is_white(c),
{
    ('\u{9}' <= c && c <= '\u{d}') || c == ' ' || c == '\u{85}' || c == '\u{a0}' || c
        == '\u{1680}' || ('\u{2000}' <= c && c <= '\u{200a}') || c == '\u{2028}' || c
        == '\u{2029}' || c == '\u{202f}' || c == '\u{205f}' || c == '\u{3000}'
}

/// Appends one character to a `String` by `String::push`, which, as std
/// documents, leaves the old characters in place with `c` after them; that is
/// all this contract claims, and it is taken on trust.
#[verifier::external_body]
pub(crate) fn push_char(s: &mut String, c: char)
    ensures
        final(s)@ == old(s)@.push(c),
{
    s.push(c);
}

/// The characters of `s`, in order.
pub fn str_to_chars(s: &str) -> (v: Vec<char>)
    ensures
        v@ == s@,
{
    let mut v: Vec<char> = Vec::new();
    for c in it: s.chars()
        invariant
            v@ == it.seq().take(it.index() as int),
            it.seq() == s@,
    {
        v.push(c);
    }
    v
}

/// The string made of `cs[start..end]`.
pub fn string_from_chars(cs: &[char], start: usize, end: usize) -> (s: String)
    requires
        start <= end <= cs@.len(),
    ensures
        s@ == cs@.subrange(start as int, end as int),
{
    let mut s = String::new();
    let mut k = start;
    while k < end
        invariant
            start <= k <= end <= cs@.len(),
            s@ == cs@.subrange(start as int, k as int),
        decreases end - k,
    {
        push_char(&mut s, cs[k]);
        assert(s@ =~= cs@.subrange(start as int, k + 1));
        k += 1;
    }
    s
}

/// `a == b` on string slices.
pub fn str_eq(a: &str, b: &str) -> (r: bool)
    ensures
        r == (a@ == b@),
{
    let n = a.unicode_len();
    if n != b.unicode_len() {
        return false;
    }
    let mut k: usize = 0;
    while k < n
        invariant
            n == a@.len(),
            n == b@.len(),
            k <= n,
            forall|j: int| 0 <= j < k ==> a@[j] == b@[j],
        decreases n - k,
    {
        if a.get_char(k) != b.get_char(k) {
            return false;
        }
        k += 1;
    }
    assert(a@ =~= b@);
    true
}

/// `s` begins with `p`.
pub open spec fn has_prefix(s: Seq<char>, p: Seq<char>) -> bool {
    p.len() <= s.len() && s.subrange(0, p.len() as int) == p
}

/// `p` occurs in `s` starting at index `k`.
pub open spec fn occurs_at(s: Seq<char>, p: Seq<char>, k: int) -> bool {
    0 <= k && k + p.len() <= s.len() && s.subrange(k, k + p.len()) == p
}

/// `p` occurs somewhere in `s` (an empty `p` always does).
pub open spec fn contains_seq(s: Seq<char>, p: Seq<char>) -> bool {
    exists|k: int| occurs_at(s, p, k)
}

/// Whether `p` occurs in `s` at index `k`.
pub fn chars_occur_at(s: &[char], p: &[char], k: usize) -> (b: bool)
    ensures
        b == occurs_at(s@, p@, k as int),
{
    if p.len() > s.len() || k > s.len() - p.len() {
        return false;
    }
    let mut j: usize = 0;
    while j < p.len()
        invariant
            k + p@.len() <= s@.len(),
            s@.len() == s.len(),
            j <= p@.len(),
            forall|m: int| 0 <= m < j ==> s@[k + m] == p@[m],
        decreases p@.len() - j,
    {
        if s[k + j] != p[j] {
            assert(s@.subrange(k as int, k + p@.len())[j as int] != p@[j as int]);
            return false;
        }
        j += 1;
    }
    assert(s@.subrange(k as int, k + p@.len()) =~= p@);
    true
}

/// Whether `p` occurs anywhere in `s`.
pub fn chars_contain(s: &[char], p: &[char]) -> (b: bool)
    ensures
        b == contains_seq(s@, p@),
{
    if p.len() > s.len() {
        assert forall|k: int| !occurs_at(s@, p@, k) by {}
        return false;
    }
    let last = s.len() - p.len();
    let mut k: usize = 0;
    while k < last
        invariant
            last + p@.len() == s@.len(),
            k <= last,
            forall|m: int| 0 <= m < k ==> !occurs_at(s@, p@, m),
        decreases last - k,
    {
        if chars_occur_at(s, p, k) {
            return true;
        }
        k += 1;
    }
    if chars_occur_at(s, p, last) {
        return true;
    }
    assert forall|m: int| !occurs_at(s@, p@, m) by {
        if 0 <= m < last {
        } else if m == last {
        }
    }
    false
}

/// The character of the decimal digit `d`.
pub open spec fn digit_char(d: int) -> char {
    ('0' as int + d) as char
}

/// The decimal notation of `n`, without sign or leading zeros.
pub open spec fn decimal(n: nat) -> Seq<char>
    decreases n,
{
    if n < 10 {
        seq![digit_char(n as int)]
    } else {
        decimal(n / 10).push(digit_char((n % 10) as int))
    }
}

/// The decimal notation of `n`.
pub fn usize_to_decimal(n: usize) -> (s: String)
    ensures
        s@ == decimal(n as nat),
    decreases n,
{
    if n < 10 {
        let mut s = String::new();
        push_char(&mut s, char_of_digit(n));
        assert(s@ =~= decimal(n as nat));
        s
    } else {
        let mut s = usize_to_decimal(n / 10);
        push_char(&mut s, char_of_digit(n % 10));
        s
    }
}

fn char_of_digit(d: usize) -> (c: char)
    requires
        d < 10,
    ensures
        c == digit_char(d as int),
{
    if d == 0 {
        '0'
    } else if d == 1 {
        '1'
    } else if d == 2 {
        '2'
    } else if d == 3 {
        '3'
    } else if d == 4 {
        '4'
    } else if d == 5 {
        '5'
    } else if d == 6 {
        '6'
    } else if d == 7 {
        '7'
    } else if d == 8 {
        '8'
    } else {
        '9'
    }
}

/// Every character of `s` is a decimal digit.
pub open spec fn all_digits(s: Seq<char>) -> bool {
    forall|k: int| 0 <= k < s.len() ==> is_digit(#[trigger] s[k])
}

/// The number that the digits `s` denote.
pub open spec fn digits_value(s: Seq<char>) -> nat
    decreases s.len(),
{
    if s.len() == 0 {
        0
    } else {
        digits_value(s.drop_last()) * 10 + (s.last() as int - '0' as int) as nat
    }
}

/// What `str::parse::<usize>` gives: an optional `+`, then at least one
/// decimal digit, and a value that fits in `usize`.
pub open spec fn parse_usize(s: Seq<char>) -> Option<usize> {
    let d = if s.len() > 0 && s[0] == '+' {
        s.drop_first()
    } else {
        s
    };
    if d.len() > 0 && all_digits(d) && digits_value(d) <= usize::MAX {
        Some(digits_value(d) as usize)
    } else {
        None
    }
}

/// `s[start..end].parse::<usize>().ok()`
pub fn parse_usize_chars(s: &[char], start: usize, end: usize) -> (r: Option<usize>)
    requires
        start <= end <= s@.len(),
    ensures
        r == parse_usize(s@.subrange(start as int, end as int)),
{
    let ghost whole = s@.subrange(start as int, end as int);
    let mut k = start;
    if k < end && s[k] == '+' {
        k += 1;
    }
    let ghost d = s@.subrange(k as int, end as int);
    assert(d =~= (if whole.len() > 0 && whole[0] == '+' {
        whole.drop_first()
    } else {
        whole
    }));
    if k == end {
        assert(d.len() == 0);
        return None;
    }
    let first = k;
    let mut value: usize = 0;
    while k < end
        invariant
            first <= k <= end <= s@.len(),
            start <= end,
            whole == s@.subrange(start as int, end as int),
            d == s@.subrange(first as int, end as int),
            d == (if whole.len() > 0 && whole[0] == '+' {
                whole.drop_first()
            } else {
                whole
            }),
            all_digits(s@.subrange(first as int, k as int)),
            value as nat == digits_value(s@.subrange(first as int, k as int)),
        decreases end - k,
    {
        let c = s[k];
        let ghost pre = s@.subrange(first as int, k as int);
        let ghost next = s@.subrange(first as int, k + 1);
        assert(next.drop_last() =~= pre);
        if !char_is_digit(c) {
            assert(d[k - first] == c);
            assert(!all_digits(d));
            return None;
        }
        let dv = (c as u32 - '0' as u32) as usize;
        match value.checked_mul(10) {
            Some(v10) => match v10.checked_add(dv) {
                Some(v) => {
                    value = v;
                },
                None => {
                    proof {
                        lemma_overflow_rejected(s@, first as int, k as int, end as int, c);
                    }
                    return None;
                },
            },
            None => {
                proof {
                    lemma_overflow_rejected(s@, first as int, k as int, end as int, c);
                }
                return None;
            },
        }
        k += 1;
        assert forall|m: int| 0 <= m < next.len() implies is_digit(#[trigger] next[m]) by {
            if m < pre.len() {
                assert(next[m] == pre[m]);
            }
        }
    }
    assert(s@.subrange(first as int, k as int) =~= d);
    Some(value)
}

/// Once the digits read so far exceed `usize::MAX`, no digit string that
/// extends them parses.
proof fn lemma_overflow_rejected(s: Seq<char>, first: int, k: int, end: int, c: char)
    requires
        0 <= first <= k < end <= s.len(),
        s[k] == c,
        is_digit(c),
        digits_value(s.subrange(first, k)) * 10 + (c as int - '0' as int) > usize::MAX,
    ensures
        !(all_digits(s.subrange(first, end)) && digits_value(s.subrange(first, end))
            <= usize::MAX),
{
    let d = s.subrange(first, end);
    let next = s.subrange(first, k + 1);
    assert(next.drop_last() =~= s.subrange(first, k));
    assert(d.subrange(0, k + 1 - first) =~= next);
    if all_digits(d) {
        lemma_digits_value_prefix_le(d, k + 1 - first);
    }
}

/// A prefix of a digit string never denotes more than the whole string.
pub proof fn lemma_digits_value_prefix_le(s: Seq<char>, n: int)
    requires
        0 <= n <= s.len(),
        all_digits(s),
    ensures
        digits_value(s.subrange(0, n)) <= digits_value(s),
    decreases s.len() - n,
{
    if n < s.len() {
        lemma_digits_value_prefix_le(s, n + 1);
        let p = s.subrange(0, n + 1);
        assert(p.drop_last() =~= s.subrange(0, n));
        assert(is_digit(s[n]));
        assert(p.last() == s[n]);
    } else {
        assert(s.subrange(0, n) =~= s);
    }
}

/// `s` without its leading whitespace.
pub open spec fn trim_start(s: Seq<char>) -> Seq<char>
    decreases s.len(),
{
    if s.len() > 0 && is_white(s[0]) {
        trim_start(s.drop_first())
    } else {
        s
    }
}

/// `s` without its trailing whitespace.
pub open spec fn trim_end(s: Seq<char>) -> Seq<char>
    decreases s.len(),
{
    if s.len() > 0 && is_white(s.last()) {
        trim_end(s.drop_last())
    } else {
        s
    }
}

/// `s` without leading and trailing whitespace (`str::trim`).
pub open spec fn trim(s: Seq<char>) -> Seq<char> {
    trim_end(trim_start(s))
}

/// The index of the first `c` in `s`, or -1.
pub open spec fn first_index(s: Seq<char>, c: char) -> int
    decreases s.len(),
{
    if s.len() == 0 {
        -1
    } else if s[0] == c {
        0
    } else {
        let k = first_index(s.drop_first(), c);
        if k < 0 {
            -1
        } else {
            k + 1
        }
    }
}

/// The index of the last `c` in `s`, or -1.
pub open spec fn last_index(s: Seq<char>, c: char) -> int
    decreases s.len(),
{
    if s.len() == 0 {
        -1
    } else if s.last() == c {
        s.len() - 1
    } else {
        last_index(s.drop_last(), c)
    }
}

/// `first_index` is -1 or the index of the first `c`.
pub proof fn lemma_first_index(s: Seq<char>, c: char)
    ensures
        -1 <= first_index(s, c) < s.len(),
        first_index(s, c) >= 0 ==> s[first_index(s, c)] == c,
        forall|j: int|
            0 <= j < s.len() && (first_index(s, c) < 0 || j < first_index(s, c)) ==> s[j] != c,
    decreases s.len(),
{
    if s.len() > 0 && s[0] != c {
        let t = s.drop_first();
        lemma_first_index(t, c);
        let k = first_index(t, c);
        if k >= 0 {
            assert(s[k + 1] == t[k]);
        }
        assert forall|j: int|
            0 <= j < s.len() && (first_index(s, c) < 0 || j < first_index(s, c)) implies s[j]
            != c by {
            if j > 0 {
                assert(s[j] == t[j - 1]);
            }
        }
    }
}

pub proof fn lemma_last_index(s: Seq<char>, c: char)
    ensures
        -1 <= last_index(s, c) < s.len(),
        last_index(s, c) >= 0 ==> s[last_index(s, c)] == c,
        forall|j: int| 0 <= j < s.len() && last_index(s, c) < j ==> s[j] != c,
    decreases s.len(),
{
    if s.len() > 0 && s.last() != c {
        let t = s.drop_last();
        lemma_last_index(t, c);
        assert forall|j: int| 0 <= j < s.len() && last_index(s, c) < j implies s[j] != c by {
            if j < t.len() {
                assert(s[j] == t[j]);
            }
        }
    }
}

/// The first `c` in `s` is at `k` when `s[k] == c` and no `c` comes before.
pub proof fn lemma_first_index_at(s: Seq<char>, c: char, k: int)
    requires
        0 <= k < s.len(),
        s[k] == c,
        forall|j: int| 0 <= j < k ==> s[j] != c,
    ensures
        first_index(s, c) == k,
    decreases s.len(),
{
    if k > 0 {
        lemma_first_index_at(s.drop_first(), c, k - 1);
    }
}

/// No `c` in `s`.
pub proof fn lemma_first_index_none(s: Seq<char>, c: char)
    requires
        forall|j: int| 0 <= j < s.len() ==> s[j] != c,
    ensures
        first_index(s, c) == -1,
    decreases s.len(),
{
    if s.len() > 0 {
        lemma_first_index_none(s.drop_first(), c);
    }
}

/// The last `c` in `s` is at `k` when `s[k] == c` and no `c` comes after.
pub proof fn lemma_last_index_at(s: Seq<char>, c: char, k: int)
    requires
        0 <= k < s.len(),
        s[k] == c,
        forall|j: int| k < j < s.len() ==> s[j] != c,
    ensures
        last_index(s, c) == k,
    decreases s.len(),
{
    if k < s.len() - 1 {
        lemma_last_index_at(s.drop_last(), c, k);
    }
}

pub proof fn lemma_last_index_none(s: Seq<char>, c: char)
    requires
        forall|j: int| 0 <= j < s.len() ==> s[j] != c,
    ensures
        last_index(s, c) == -1,
    decreases s.len(),
{
    if s.len() > 0 {
        lemma_last_index_none(s.drop_last(), c);
    }
}

/// Trimming the front of `s` stops at its first non-whitespace character `i`.
pub proof fn lemma_trim_start_at(s: Seq<char>, i: int)
    requires
        0 <= i <= s.len(),
        forall|j: int| 0 <= j < i ==> is_white(#[trigger] s[j]),
        i == s.len() || !is_white(s[i]),
    ensures
        trim_start(s) == s.skip(i),
    decreases i,
{
    if i > 0 {
        let t = s.drop_first();
        assert forall|j: int| 0 <= j < i - 1 implies is_white(#[trigger] t[j]) by {
            assert(t[j] == s[j + 1]);
        }
        if i < s.len() {
            assert(t[i - 1] == s[i]);
        }
        lemma_trim_start_at(t, i - 1);
        assert(t.skip(i - 1) =~= s.skip(i));
    } else {
        assert(s.skip(0) =~= s);
    }
}

/// Trimming the back of `s` stops after its last non-whitespace character.
pub proof fn lemma_trim_end_at(s: Seq<char>, j: int)
    requires
        0 <= j <= s.len(),
        forall|k: int| j <= k < s.len() ==> is_white(#[trigger] s[k]),
        j == 0 || !is_white(s[j - 1]),
    ensures
        trim_end(s) == s.take(j),
    decreases s.len() - j,
{
    if j < s.len() {
        let t = s.drop_last();
        assert forall|k: int| j <= k < t.len() implies is_white(#[trigger] t[k]) by {
            assert(t[k] == s[k]);
        }
        if j > 0 {
            assert(t[j - 1] == s[j - 1]);
        }
        assert(is_white(s[s.len() - 1]));
        lemma_trim_end_at(t, j);
        assert(t.take(j) =~= s.take(j));
    } else {
        assert(s.take(j) =~= s);
    }
}

/// `trim(s)` is `s[i..j]` when `i` and `j` bound its non-whitespace part.
pub proof fn lemma_trim_bounds(s: Seq<char>, i: int, j: int)
    requires
        0 <= i <= j <= s.len(),
        forall|k: int| 0 <= k < i ==> is_white(#[trigger] s[k]),
        forall|k: int| j <= k < s.len() ==> is_white(#[trigger] s[k]),
        i == j ==> forall|k: int| 0 <= k < s.len() ==> is_white(#[trigger] s[k]),
        i < j ==> !is_white(s[i]) && !is_white(s[j - 1]),
    ensures
        trim(s) == s.subrange(i, j),
{
    if i < j {
        lemma_trim_start_at(s, i);
        let t = s.skip(i);
        assert forall|k: int| j - i <= k < t.len() implies is_white(#[trigger] t[k]) by {
            assert(t[k] == s[k + i]);
        }
        assert(t[j - i - 1] == s[j - 1]);
        lemma_trim_end_at(t, j - i);
        assert(t.take(j - i) =~= s.subrange(i, j));
    } else {
        lemma_trim_start_at(s, s.len() as int);
        assert(s.skip(s.len() as int).len() == 0);
        assert(s.subrange(i, j).len() == 0);
    }
}

/// Decimal notation is digits only, and parses back to its number.
pub proof fn lemma_decimal(n: nat)
    ensures
        decimal(n).len() > 0,
        all_digits(decimal(n)),
        digits_value(decimal(n)) == n,
    decreases n,
{
    if n >= 10 {
        lemma_decimal(n / 10);
        let d = decimal(n);
        assert(d.drop_last() == decimal(n / 10));
        let r = (n % 10) as int;
        assert(digit_char(r) as int == '0' as int + r);
        assert(d.last() as int - '0' as int == r);
        assert(digits_value(d) == digits_value(decimal(n / 10)) * 10 + r);
        assert((n / 10) * 10 + r == n);
        assert forall|k: int| 0 <= k < d.len() implies is_digit(#[trigger] d[k]) by {
            if k < d.len() - 1 {
                assert(d[k] == decimal(n / 10)[k]);
            }
        }
    } else {
        let d = decimal(n);
        assert(digit_char(n as int) as int == '0' as int + n);
        assert(d.drop_last() =~= Seq::<char>::empty());
        assert(digits_value(Seq::<char>::empty()) == 0);
        assert(d.last() == digit_char(n as int));
    }
}

/// `parse_usize` reads back the decimal notation of any `usize`.
pub proof fn lemma_parse_decimal(n: usize)
    ensures
        parse_usize(decimal(n as nat)) == Some(n),
        !is_white(decimal(n as nat)[0]),
        !is_white(decimal(n as nat).last()),
{
    lemma_decimal(n as nat);
    let d = decimal(n as nat);
    assert(is_digit(d[0]));
    assert(is_digit(d[d.len() - 1]));
}



/// The index of the last `c` in `s[lo..hi]`, counted in `s`.
pub fn find_last_in(s: &[char], lo: usize, hi: usize, c: char) -> (r: Option<usize>)
    requires
        lo <= hi <= s@.len(),
    ensures
        match r {
            Some(k) => lo <= k < hi && last_index(s@.subrange(lo as int, hi as int), c) == k - lo,
            None => last_index(s@.subrange(lo as int, hi as int), c) == -1,
        },
{
    let ghost sub = s@.subrange(lo as int, hi as int);
    let mut k = hi;
    while k > lo
        invariant
            lo <= k <= hi <= s@.len(),
            sub == s@.subrange(lo as int, hi as int),
            forall|j: int| k <= j < hi ==> s@[j] != c,
        decreases k - lo,
    {
        if s[k - 1] == c {
            proof {
                assert(sub[k - 1 - lo] == c);
                assert forall|j: int| k - 1 - lo < j < sub.len() implies sub[j] != c by {
                    assert(sub[j] == s@[j + lo]);
                }
                lemma_last_index_at(sub, c, k - 1 - lo);
            }
            return Some(k - 1);
        }
        k -= 1;
    }
    proof {
        assert forall|j: int| 0 <= j < sub.len() implies sub[j] != c by {
            assert(sub[j] == s@[j + lo]);
        }
        lemma_last_index_none(sub, c);
    }
    None
}

/// The index of the first `c` in `s[lo..hi]`, counted in `s`.
pub fn find_first_in(s: &[char], lo: usize, hi: usize, c: char) -> (r: Option<usize>)
    requires
        lo <= hi <= s@.len(),
    ensures
        match r {
            Some(k) => lo <= k < hi && first_index(s@.subrange(lo as int, hi as int), c) == k
                - lo,
            None => first_index(s@.subrange(lo as int, hi as int), c) == -1,
        },
{
    let ghost sub = s@.subrange(lo as int, hi as int);
    let mut k = lo;
    while k < hi
        invariant
            lo <= k <= hi <= s@.len(),
            sub == s@.subrange(lo as int, hi as int),
            forall|j: int| lo <= j < k ==> s@[j] != c,
        decreases hi - k,
    {
        if s[k] == c {
            proof {
                assert(sub[k - lo] == c);
                assert forall|j: int| 0 <= j < k - lo implies sub[j] != c by {
                    assert(sub[j] == s@[j + lo]);
                }
                lemma_first_index_at(sub, c, k - lo);
            }
            return Some(k);
        }
        k += 1;
    }
    proof {
        assert forall|j: int| 0 <= j < sub.len() implies sub[j] != c by {
            assert(sub[j] == s@[j + lo]);
        }
        lemma_first_index_none(sub, c);
    }
    None
}

/// The bounds `(i, j)` of `s[lo..hi]` without its leading and trailing
/// whitespace: `trim(s[lo..hi]) == s[i..j]`.
pub fn trim_bounds(s: &[char], lo: usize, hi: usize) -> (r: (usize, usize))
    requires
        lo <= hi <= s@.len(),
    ensures
        lo <= r.0 <= r.1 <= hi,
        trim(s@.subrange(lo as int, hi as int)) == s@.subrange(r.0 as int, r.1 as int),
        r.0 < r.1 ==> !is_white(s@[r.0 as int]) && !is_white(s@[r.1 - 1]),
{
    let ghost sub = s@.subrange(lo as int, hi as int);
    let mut i = lo;
    while i < hi && char_is_white(s[i])
        invariant
            lo <= i <= hi <= s@.len(),
            forall|k: int| lo <= k < i ==> is_white(#[trigger] s@[k]),
        decreases hi - i,
    {
        i += 1;
    }
    if i == hi {
        proof {
            assert forall|k: int| 0 <= k < sub.len() implies is_white(#[trigger] sub[k]) by {
                assert(sub[k] == s@[k + lo]);
            }
            lemma_trim_bounds(sub, sub.len() as int, sub.len() as int);
            assert(s@.subrange(i as int, i as int) =~= sub.subrange(
                sub.len() as int,
                sub.len() as int,
            ));
        }
        return (i, i);
    }
    let mut j = hi;
    while char_is_white(s[j - 1])
        invariant
            i < j <= hi <= s@.len(),
            !is_white(s@[i as int]),
            forall|k: int| j <= k < hi ==> is_white(#[trigger] s@[k]),
        decreases j,
    {
        j -= 1;
    }
    proof {
        assert forall|k: int| 0 <= k < i - lo implies is_white(#[trigger] sub[k]) by {
            assert(sub[k] == s@[k + lo]);
        }
        assert forall|k: int| j - lo <= k < sub.len() implies is_white(#[trigger] sub[k]) by {
            assert(sub[k] == s@[k + lo]);
        }
        assert(sub[i - lo] == s@[i as int]);
        assert(sub[j - lo - 1] == s@[j - 1]);
        lemma_trim_bounds(sub, i - lo, j - lo);
        assert(sub.subrange(i - lo, j - lo) =~= s@.subrange(i as int, j as int));
    }
    (i, j)
}

} // verus!
