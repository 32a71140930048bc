//! Plain-text building blocks: whitespace splitting, trimming, decimal
//! parsing and rendering, and substring search over character sequences.
//!
//! The user counts shown on store pages are short decimal strings such as
//! `"3021 users"`. The rules here are exact and deliberately narrow: tokens
//! are separated by Unicode whitespace, and a count is an optional `'+'`
//! sign followed by one or more ASCII digits whose value fits in a `u32`.

use vstd::prelude::*;
use vstd::string::{StrSliceExecFns, StringExecFns};

verus! {

/// Unicode whitespace: the characters with the `White_Space` property,
/// the separators recognised between tokens.
pub open spec fn is_ws(c: char) -> bool {
    ||| c == ' '
    ||| c == '\t'
    ||| c == '\n'
    ||| c == '\u{0b}'
    ||| c == '\u{0c}'
    ||| c == '\r'
    ||| c == '\u{85}'
    ||| c == '\u{a0}'
    ||| c == '\u{1680}'
    ||| (0x2000 <= c as int && c as int <= 0x200a)
    ||| c == '\u{2028}'
    ||| c == '\u{2029}'
    ||| c == '\u{202f}'
    ||| c == '\u{205f}'
    ||| c == '\u{3000}'
}

/// One step of the whitespace splitter: fold the next character into the
/// finished tokens (`acc.0`) and the token being built (`acc.1`).
pub open spec fn tokens_step(acc: (Seq<Seq<char>>, Seq<char>), c: char) -> (Seq<Seq<char>>, Seq<char>) {
    if is_ws(c) {
        if acc.1.len() == 0 {
            acc
        } else {
            (acc.0.push(acc.1), Seq::empty())
        }
    } else {
        (acc.0, acc.1.push(c))
    }
}

/// The splitter state after folding all of `s`.
pub open spec fn tokens_partial(s: Seq<char>) -> (Seq<Seq<char>>, Seq<char>)
    decreases s.len(),
{
    if s.len() == 0 {
        (Seq::empty(), Seq::empty())
    } else {
        tokens_step(tokens_partial(s.drop_last()), s.last())
    }
}

/// The maximal whitespace-free, non-empty tokens of `s`, in order.
pub open spec fn ws_tokens(s: Seq<char>) -> Seq<Seq<char>> {
    let acc = tokens_partial(s);
    if acc.1.len() == 0 {
        acc.0
    } else {
        acc.0.push(acc.1)
    }
}

/// Exec test for [`is_ws`].
pub fn is_ws_char(c: char) -> (r: bool)
    ensures
        r == is_ws(c),
{
    c == ' ' || c == '\t' || c == '\n' || c == '\u{0b}' || c == '\u{0c}' || c == '\r'
        || c == '\u{85}' || c == '\u{a0}' || c == '\u{1680}'
        || (c >= '\u{2000}' && c <= '\u{200a}')
        || c == '\u{2028}' || c == '\u{2029}' || c == '\u{202f}' || c == '\u{205f}'
        || c == '\u{3000}'
}

/// The Unicode code point of `c`.
pub fn char_code(c: char) -> (u: u32)
    ensures
        u as int == c as int,
{
    c as u32
}

fn push_token(toks: &mut Vec<Vec<char>>, cur: Vec<char>)
    ensures
        final(toks).deep_view() == old(toks).deep_view().push(cur@),
{
    let ghost old_dv = toks.deep_view();
    let ghost cur_v = cur@;
    toks.push(cur);
    proof {
        assert forall|k: int| 0 <= k < toks@.len() implies #[trigger] toks.deep_view()[k]
            == old_dv.push(cur_v)[k] by {
            if k < old_dv.len() {
                assert(toks@[k] == old(toks)@[k]);
            }
        }
        assert(toks.deep_view() =~= old_dv.push(cur_v));
    }
}

/// Splits `s` on runs of whitespace into its non-empty tokens.
pub fn split_ws_tokens(s: &str) -> (r: Vec<Vec<char>>)
    ensures
        r.deep_view() == ws_tokens(s@),
{
    let n = s.unicode_len();
    let mut toks: Vec<Vec<char>> = Vec::new();
    let mut cur: Vec<char> = Vec::new();
    let mut i: usize = 0;
    while i < n
        invariant
            n == s@.len(),
            i <= n,
            toks.deep_view() == tokens_partial(s@.take(i as int)).0,
            cur@ == tokens_partial(s@.take(i as int)).1,
        decreases n - i,
    {
        let ghost pre = tokens_partial(s@.take(i as int));
        let c = s.get_char(i);
        proof {
            assert(s@.take(i + 1).drop_last() =~= s@.take(i as int));
            assert(s@.take(i + 1).last() == s@[i as int]);
            assert(tokens_partial(s@.take(i + 1)) == tokens_step(pre, s@[i as int]));
        }
        if is_ws_char(c) {
            if cur.len() > 0 {
                push_token(&mut toks, cur);
                cur = Vec::new();
            }
        } else {
            cur.push(c);
        }
        proof {
            assert(toks.deep_view() =~= tokens_partial(s@.take(i + 1)).0);
            assert(cur@ =~= tokens_partial(s@.take(i + 1)).1);
        }
        i += 1;
    }
    proof {
        assert(s@.take(n as int) =~= s@);
    }
    if cur.len() > 0 {
        push_token(&mut toks, cur);
    }
    toks
}

/// An ASCII decimal digit.
pub open spec fn is_digit(c: char) -> bool {
    48 <= c as int && c as int <= 57
}

/// The numeric value of a digit character.
pub open spec fn digit_val(c: char) -> int {
    c as int - 48
}

/// The value of a digit string, most significant digit first.
pub open spec fn digits_val(s: Seq<char>) -> int
    decreases s.len(),
{
    if s.len() == 0 {
        0
    } else {
        digits_val(s.drop_last()) * 10 + digit_val(s.last())
    }
}

pub open spec fn all_digits(s: Seq<char>) -> bool {
    forall|i: int| 0 <= i < s.len() ==> is_digit(s[i])
}

/// A non-empty, all-digit string whose value fits in a `u32` parses to that
/// value; anything else is rejected.
pub open spec fn parse_digits(s: Seq<char>) -> Option<u32> {
    if s.len() > 0 && all_digits(s) && digits_val(s) <= u32::MAX {
        Some(digits_val(s) as u32)
    } else {
        None
    }
}

/// Decimal `u32` parsing: an optional leading `'+'`, then digits.
pub open spec fn parse_u32(s: Seq<char>) -> Option<u32> {
    if s.len() > 0 && s[0] == '+' {
        parse_digits(s.drop_first())
    } else {
        parse_digits(s)
    }
}

proof fn lemma_digits_val_nonneg(s: Seq<char>)
    requires
        all_digits(s),
    ensures
        digits_val(s) >= 0,
    decreases s.len(),
{
    if s.len() > 0 {
        assert(all_digits(s.drop_last()));
        lemma_digits_val_nonneg(s.drop_last());
    }
}

proof fn lemma_digits_val_mono(s: Seq<char>, k: int)
    requires
        all_digits(s),
        0 <= k <= s.len(),
    ensures
        digits_val(s.take(k)) <= digits_val(s),
    decreases s.len() - k,
{
    if k < s.len() {
        assert(s.take(k + 1).drop_last() =~= s.take(k));
        assert(all_digits(s.take(k)));
        lemma_digits_val_nonneg(s.take(k));
        assert(digits_val(s.take(k + 1)) == digits_val(s.take(k)) * 10 + digit_val(s.take(k + 1).last()));
        lemma_digits_val_mono(s, k + 1);
    } else {
        assert(s.take(k) =~= s);
    }
}

/// Parses a token as a `u32`, exactly as [`parse_u32`] describes.
pub fn parse_u32_chars(v: &Vec<char>) -> (r: Option<u32>)
    ensures
        r == parse_u32(v@),
{
    let len = v.len();
    let start: usize = if len > 0 && v[0] == '+' {
        1
    } else {
        0
    };
    let ghost sub = v@.skip(start as int);
    proof {
        assert(parse_u32(v@) == parse_digits(sub)) by {
            if len > 0 && v@[0] == '+' {
                assert(v@.drop_first() =~= sub);
            } else {
                assert(v@.skip(0) =~= v@);
            }
        }
    }
    if start == len {
        return None;
    }
    let mut val: u32 = 0;
    let mut i: usize = start;
    while i < len
        invariant
            start <= i <= len,
            len == v@.len(),
            start <= 1,
            sub == v@.skip(start as int),
            parse_u32(v@) == parse_digits(sub),
            all_digits(sub.take(i - start)),
            val == digits_val(sub.take(i - start)),
        decreases len - i,
    {
        let c = v[i];
        let u = char_code(c);
        proof {
            assert(sub[i - start] == v@[i as int]);
        }
        if u < 48 || u > 57 {
            proof {
                assert(!is_digit(sub[i - start]));
                assert(!all_digits(sub));
            }
            return None;
        }
        let d = u - 48;
        proof {
            assert(sub.take(i - start + 1).drop_last() =~= sub.take(i - start));
            assert(sub.take(i - start + 1).last() == sub[i - start]);
            assert(digit_val(sub[i - start]) == d);
            assert(digits_val(sub.take(i - start + 1)) == val * 10 + d);
            assert(all_digits(sub.take(i - start + 1)));
        }
        if val > 429496729 || (val == 429496729 && d > 5) {
            proof {
                if all_digits(sub) {
                    lemma_digits_val_mono(sub, i - start + 1);
                    assert(digits_val(sub) > u32::MAX);
                }
            }
            return None;
        }
        val = val * 10 + d;
        i += 1;
    }
    proof {
        assert(sub.take(len - start) =~= sub);
        assert(sub.len() > 0);
    }
    Some(val)
}

/// The digit character for a value in `0 ..= 9`.
pub open spec fn dec_digit(d: int) -> char {
    if d == 0 {
        '0'
    } else if d == 1 {
        '1'
    } else if d == 2 {
        '2'
    } else if d == 3 {
        '3'
    } else if d == 4 {
        '4'
    } else if d == 5 {
        '5'
    } else if d == 6 {
        '6'
    } else if d == 7 {
        '7'
    } else if d == 8 {
        '8'
    } else {
        '9'
    }
}

/// The decimal rendering of a non-negative integer, without sign or padding.
pub open spec fn dec_str(n: int) -> Seq<char>
    decreases n,
{
    if n <= 0 {
        seq!['0']
    } else if n < 10 {
        seq![dec_digit(n)]
    } else {
        dec_str(n / 10).push(dec_digit(n % 10))
    }
}

fn push_dec_str(out: &mut String, n: u64)
    ensures
        final(out)@ == old(out)@ + dec_str(n as int),
    decreases n,
{
    let table = "0123456789";
    proof {
        reveal_strlit("0123456789");
        assert forall|j: int| 0 <= j < 10 implies table@[j] == dec_digit(j) by {}
    }
    if n >= 10 {
        push_dec_str(out, n / 10);
    }
    let ghost mid = out@;
    let d = (n % 10) as usize;
    let ds = table.substring_char(d, d + 1);
    proof {
        assert(ds@ =~= seq![dec_digit(n as int % 10)]);
    }
    out.append(ds);
    proof {
        if n >= 10 {
            assert(out@ =~= old(out)@ + dec_str(n as int));
        } else {
            assert(mid == old(out)@);
            assert(dec_str(n as int) =~= seq![dec_digit(n as int % 10)]);
            assert(out@ =~= old(out)@ + dec_str(n as int));
        }
    }
}

/// The `k`-th power of ten.
pub open spec fn pow10(k: nat) -> int
    decreases k,
{
    if k == 0 {
        1
    } else {
        10 * pow10((k - 1) as nat)
    }
}

proof fn lemma_pow10_pos(k: nat)
    ensures
        pow10(k) >= 1,
    decreases k,
{
    if k > 0 {
        lemma_pow10_pos((k - 1) as nat);
    }
}

/// A value below the `k`-th power of ten has at most `k` decimal digits.
pub proof fn lemma_dec_str_len(n: int, k: nat)
    requires
        0 <= n,
        1 <= k,
        n < pow10(k),
    ensures
        dec_str(n).len() <= k,
    decreases k,
{
    if n >= 10 {
        assert(pow10(0) == 1);
        assert(pow10(1) == 10);
        assert(k != 1);
        let p = pow10((k - 1) as nat);
        lemma_pow10_pos((k - 1) as nat);
        vstd::arithmetic::div_mod::lemma_fundamental_div_mod(n, 10);
        vstd::arithmetic::div_mod::lemma_mod_bound(n, 10);
        assert(10 * (n / 10) < 10 * p);
        assert(n / 10 < p);
        lemma_dec_str_len(n / 10, (k - 1) as nat);
    }
}

/// The decimal rendering of a `u64` has at most twenty digits.
pub proof fn lemma_dec_str_len_u64(n: u64)
    ensures
        dec_str(n as int).len() <= 20,
{
    reveal_with_fuel(pow10, 21);
    assert(pow10(20) == 100000000000000000000int);
    lemma_dec_str_len(n as int, 20);
}

/// Renders `n` in decimal, exactly as [`dec_str`] describes.
pub fn u64_to_dec_string(n: u64) -> (s: String)
    ensures
        s@ == dec_str(n as int),
{
    let mut s = String::new();
    push_dec_str(&mut s, n);
    proof {
        assert(s@ =~= dec_str(n as int));
    }
    s
}

/// The characters of a string, in order.
pub fn str_chars(s: &str) -> (v: Vec<char>)
    ensures
        v@ == s@,
{
    let n = s.unicode_len();
    let mut v: Vec<char> = Vec::new();
    let mut i: usize = 0;
    while i < n
        invariant
            i <= n,
            n == s@.len(),
            v@ == s@.take(i as int),
        decreases n - i,
    {
        let c = s.get_char(i);
        v.push(c);
        proof {
            assert(s@.take(i + 1) =~= s@.take(i as int).push(s@[i as int]));
        }
        i += 1;
    }
    proof {
        assert(s@.take(n as int) =~= s@);
    }
    v
}

/// Character-for-character string equality.
pub fn str_eq(a: &str, b: &str) -> (r: bool)
    ensures
        r == (a@ == b@),
{
    let n = a.unicode_len();
    let m = b.unicode_len();
    if n != m {
        return false;
    }
    let mut i: usize = 0;
    while i < n
        invariant
            i <= n,
            n == a@.len(),
            n == b@.len(),
            forall|j: int| 0 <= j < i ==> a@[j] == b@[j],
        decreases n - i,
    {
        if a.get_char(i) != b.get_char(i) {
            return false;
        }
        i += 1;
    }
    proof {
        assert(a@ =~= b@);
    }
    true
}

/// `s` without leading whitespace.
pub open spec fn trim_front(s: Seq<char>) -> Seq<char>
    decreases s.len(),
{
    if s.len() > 0 && is_ws(s.first()) {
        trim_front(s.drop_first())
    } else {
        s
    }
}

/// `s` without trailing whitespace.
pub open spec fn trim_back(s: Seq<char>) -> Seq<char>
    decreases s.len(),
{
    if s.len() > 0 && is_ws(s.last()) {
        trim_back(s.drop_last())
    } else {
        s
    }
}

/// `s` without leading and trailing whitespace.
pub open spec fn trim_ws(s: Seq<char>) -> Seq<char> {
    trim_back(trim_front(s))
}

/// Whether `s`, trimmed of surrounding whitespace, equals `t` exactly.
pub fn trimmed_eq(s: &str, t: &str) -> (r: bool)
    ensures
        r == (trim_ws(s@) == t@),
{
    let n = s.unicode_len();
    let mut start: usize = 0;
    proof {
        assert(s@.skip(0) =~= s@);
    }
    while start < n && is_ws_char(s.get_char(start))
        invariant
            start <= n,
            n == s@.len(),
            trim_front(s@) == trim_front(s@.skip(start as int)),
        decreases n - start,
    {
        proof {
            assert(s@.skip(start as int).first() == s@[start as int]);
            assert(s@.skip(start as int).drop_first() =~= s@.skip(start + 1));
        }
        start += 1;
    }
    proof {
        if start < n {
            assert(s@.skip(start as int).first() == s@[start as int]);
            assert(trim_front(s@.skip(start as int)) == s@.skip(start as int));
        } else {
            assert(s@.skip(start as int) =~= Seq::<char>::empty());
        }
        assert(trim_front(s@) == s@.skip(start as int));
    }
    let mut end: usize = n;
    proof {
        assert(s@.skip(start as int) =~= s@.subrange(start as int, n as int));
    }
    while end > start && is_ws_char(s.get_char(end - 1))
        invariant
            start <= end <= n,
            n == s@.len(),
            trim_front(s@) == s@.skip(start as int),
            trim_back(s@.skip(start as int)) == trim_back(s@.subrange(start as int, end as int)),
        decreases end,
    {
        proof {
            assert(s@.subrange(start as int, end as int).drop_last() =~= s@.subrange(start as int, end - 1));
            assert(s@.subrange(start as int, end as int).last() == s@[end - 1]);
        }
        end -= 1;
    }
    let ghost trimmed = trim_ws(s@);
    proof {
        if end > start {
            assert(s@.subrange(start as int, end as int).last() == s@[end - 1]);
            assert(trim_back(s@.subrange(start as int, end as int)) == s@.subrange(start as int, end as int));
        } else {
            assert(s@.subrange(start as int, end as int) =~= Seq::<char>::empty());
        }
        assert(trimmed =~= s@.subrange(start as int, end as int));
    }
    let m = t.unicode_len();
    if m != end - start {
        return false;
    }
    let mut k: usize = 0;
    while k < m
        invariant
            k <= m,
            m == t@.len(),
            n == s@.len(),
            start <= end <= n,
            m == end - start,
            trimmed == s@.subrange(start as int, end as int),
            trimmed == trim_ws(s@),
            forall|j: int| 0 <= j < k ==> trimmed[j] == t@[j],
        decreases m - k,
    {
        if s.get_char(start + k) != t.get_char(k) {
            proof {
                assert(trimmed[k as int] == s@[start + k]);
            }
            return false;
        }
        k += 1;
    }
    proof {
        assert(trimmed =~= t@);
    }
    true
}

/// `pat` occurs in `s` at position `i`.
pub open spec fn match_at(s: Seq<char>, pat: Seq<char>, i: int) -> bool {
    0 <= i && i + pat.len() <= s.len() && s.subrange(i, i + pat.len()) == pat
}

/// `pat` occurs somewhere in `s`.
pub open spec fn has_match(s: Seq<char>, pat: Seq<char>) -> bool {
    exists|i: int| match_at(s, pat, i)
}

/// `i` is the first occurrence of `pat` in `s`.
pub open spec fn is_first_match(s: Seq<char>, pat: Seq<char>, i: int) -> bool {
    match_at(s, pat, i) && forall|j: int| 0 <= j < i ==> !match_at(s, pat, j)
}

/// `i` is the last occurrence of `pat` in `s`.
pub open spec fn is_last_match(s: Seq<char>, pat: Seq<char>, i: int) -> bool {
    match_at(s, pat, i) && forall|j: int| j > i ==> !match_at(s, pat, j)
}

/// Whether `pat` occurs in `s` at position `i`.
pub fn match_at_str(s: &str, pat: &str, i: usize) -> (r: bool)
    ensures
        r == match_at(s@, pat@, i as int),
{
    let n = s.unicode_len();
    let m = pat.unicode_len();
    if i > n || m > n - i {
        return false;
    }
    let mut j: usize = 0;
    while j < m
        invariant
            j <= m,
            n == s@.len(),
            m == pat@.len(),
            i + m <= n,
            forall|k: int| 0 <= k < j ==> s@[i + k] == pat@[k],
        decreases m - j,
    {
        if s.get_char(i + j) != pat.get_char(j) {
            proof {
                if match_at(s@, pat@, i as int) {
                    assert(s@.subrange(i as int, i + pat@.len())[j as int] == s@[i + j]);
                }
            }
            return false;
        }
        j += 1;
    }
    proof {
        assert(s@.subrange(i as int, i + pat@.len()) =~= pat@);
    }
    true
}

/// The position of the first occurrence of `pat` in `s`, if any.
pub fn find_first(s: &str, pat: &str) -> (r: Option<usize>)
    ensures
        (r matches Some(i) ==> is_first_match(s@, pat@, i as int)),
        (r is None ==> !has_match(s@, pat@)),
{
    let n = s.unicode_len();
    let m = pat.unicode_len();
    if m > n {
        return None;
    }
    if m == 0 {
        proof {
            assert(s@.subrange(0, 0) =~= pat@);
        }
        return Some(0);
    }
    let mut i: usize = 0;
    while i <= n - m
        invariant
            1 <= m <= n,
            n == s@.len(),
            m == pat@.len(),
            i <= n - m + 1,
            forall|j: int| 0 <= j < i ==> !match_at(s@, pat@, j),
        decreases n - m - i + 1,
    {
        if match_at_str(s, pat, i) {
            return Some(i);
        }
        i += 1;
    }
    None
}

/// The position of the last occurrence of `pat` in `s`, if any.
pub fn find_last(s: &str, pat: &str) -> (r: Option<usize>)
    ensures
        (r matches Some(i) ==> is_last_match(s@, pat@, i as int)),
        (r is None ==> !has_match(s@, pat@)),
{
    let n = s.unicode_len();
    let m = pat.unicode_len();
    if m > n {
        return None;
    }
    if m == 0 {
        proof {
            assert(s@.subrange(n as int, n as int) =~= pat@);
        }
        return Some(n);
    }
    let mut i: usize = n - m + 1;
    while i > 0
        invariant
            1 <= m <= n,
            n == s@.len(),
            m == pat@.len(),
            i <= n - m + 1,
            forall|j: int| j >= i ==> !match_at(s@, pat@, j),
        decreases i,
    {
        i -= 1;
        if match_at_str(s, pat, i) {
            return Some(i);
        }
    }
    None
}

} // verus!
