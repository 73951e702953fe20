//! Character-level helpers shared by the option parser, the row codec and the
//! formatting functions: decimal numerals, whitespace trimming, splitting and
//! ASCII case folding, all specified over `Seq<char>` views.

use vstd::prelude::*;
use vstd::string::StrSliceExecFns;
use vstd::string::StringExecFns;

verus! {

// ---------------------------------------------------------------------------
// character classes
// ---------------------------------------------------------------------------

/// Whitespace recognised by the trimming functions (the ASCII set).
pub open spec fn is_space(c: char) -> bool {
    c == ' ' || c == '\t' || c == '\n' || c == '\r' || c == '\u{b}' || c == '\u{c}'
}

pub fn char_is_space(c: char) -> (r: bool)
    ensures
        r == is_space(c),
{
    c == ' ' || c == '\t' || c == '\n' || c == '\r' || c == '\u{b}' || c == '\u{c}'
}

/// Numeric value of a decimal digit; `10` marks every other character.
pub open spec fn digit_val(c: char) -> nat {
    if c == '0' { 0 } else if c == '1' { 1 } else if c == '2' { 2 } else if c == '3' { 3 }
    else if c == '4' { 4 } else if c == '5' { 5 } else if c == '6' { 6 } else if c == '7' { 7 }
    else if c == '8' { 8 } else if c == '9' { 9 } else { 10 }
}

pub open spec fn is_digit(c: char) -> bool {
    digit_val(c) < 10
}

pub fn char_digit_val(c: char) -> (r: u32)
    ensures
        r == digit_val(c),
{
    if c == '0' { 0 } else if c == '1' { 1 } else if c == '2' { 2 } else if c == '3' { 3 }
    else if c == '4' { 4 } else if c == '5' { 5 } else if c == '6' { 6 } else if c == '7' { 7 }
    else if c == '8' { 8 } else if c == '9' { 9 } else { 10 }
}

pub open spec fn digit_char(d: nat) -> char {
    if d == 0 { '0' } else if d == 1 { '1' } else if d == 2 { '2' } else if d == 3 { '3' }
    else if d == 4 { '4' } else if d == 5 { '5' } else if d == 6 { '6' } else if d == 7 { '7' }
    else if d == 8 { '8' } else { '9' }
}

/// ASCII lower-case image of one character.
pub open spec fn lower_char(c: char) -> char {
    if c == 'A' { 'a' } else if c == 'B' { 'b' } else if c == 'C' { 'c' } else if c == 'D' { 'd' }
    else if c == 'E' { 'e' } else if c == 'F' { 'f' } else if c == 'G' { 'g' } else if c == 'H' { 'h' }
    else if c == 'I' { 'i' } else if c == 'J' { 'j' } else if c == 'K' { 'k' } else if c == 'L' { 'l' }
    else if c == 'M' { 'm' } else if c == 'N' { 'n' } else if c == 'O' { 'o' } else if c == 'P' { 'p' }
    else if c == 'Q' { 'q' } else if c == 'R' { 'r' } else if c == 'S' { 's' } else if c == 'T' { 't' }
    else if c == 'U' { 'u' } else if c == 'V' { 'v' } else if c == 'W' { 'w' } else if c == 'X' { 'x' }
    else if c == 'Y' { 'y' } else if c == 'Z' { 'z' } else { c }
}

pub fn char_lower(c: char) -> (r: char)
    ensures
        r == lower_char(c),
{
    if c == 'A' { 'a' } else if c == 'B' { 'b' } else if c == 'C' { 'c' } else if c == 'D' { 'd' }
    else if c == 'E' { 'e' } else if c == 'F' { 'f' } else if c == 'G' { 'g' } else if c == 'H' { 'h' }
    else if c == 'I' { 'i' } else if c == 'J' { 'j' } else if c == 'K' { 'k' } else if c == 'L' { 'l' }
    else if c == 'M' { 'm' } else if c == 'N' { 'n' } else if c == 'O' { 'o' } else if c == 'P' { 'p' }
    else if c == 'Q' { 'q' } else if c == 'R' { 'r' } else if c == 'S' { 's' } else if c == 'T' { 't' }
    else if c == 'U' { 'u' } else if c == 'V' { 'v' } else if c == 'W' { 'w' } else if c == 'X' { 'x' }
    else if c == 'Y' { 'y' } else if c == 'Z' { 'z' } else { c }
}

/// ASCII lower-case image of a character sequence.
pub open spec fn lower_seq(s: Seq<char>) -> Seq<char> {
    s.map_values(|c: char| lower_char(c))
}

// ---------------------------------------------------------------------------
// decimal numerals
// ---------------------------------------------------------------------------

pub open spec fn all_digits(s: Seq<char>) -> bool {
    forall|i: int| 0 <= i < s.len() ==> is_digit(#[trigger] s[i])
}

/// Value of a digit string, most significant digit first.
pub open spec fn dec_val(s: Seq<char>) -> nat
    decreases s.len(),
{
    if s.len() == 0 {
        0
    } else {
        dec_val(s.drop_last()) * 10 + digit_val(s.last())
    }
}

/// The text accepted by `parse_u64`: the numeral after an optional leading
/// plus sign, as `u64::from_str` accepts it.
pub open spec fn numeral_body(s: Seq<char>) -> Seq<char> {
    if s.len() >= 1 && s[0] == '+' {
        s.subrange(1, s.len() as int)
    } else {
        s
    }
}

pub open spec fn is_u64_numeral(s: Seq<char>) -> bool {
    s.len() >= 1 && all_digits(s) && dec_val(s) <= u64::MAX
}

pub proof fn lemma_dec_val_prefix(s: Seq<char>, k: int)
    requires
        0 <= k <= s.len(),
        all_digits(s),
    ensures
        dec_val(s) >= dec_val(s.take(k)),
    decreases s.len() - k,
{
    if k < s.len() {
        assert(s.take(k + 1).drop_last() =~= s.take(k));
        assert(s.take(k + 1).last() == s[k]);
        lemma_dec_val_prefix(s, k + 1);
    } else {
        assert(s.take(k) =~= s);
    }
}

/// Decimal parse of a whole string, accepting an optional leading `+`,
/// exactly where `u64::from_str` succeeds.
pub fn parse_u64(s: &str) -> (r: Option<u64>)
    ensures
        r is Some <==> is_u64_numeral(numeral_body(s@)),
        r is Some ==> r->Some_0 == dec_val(numeral_body(s@)),
{
    let n = s.unicode_len();
    let mut start: usize = 0;
    if n >= 1 && s.get_char(0) == '+' {
        start = 1;
    }
    let ghost body = numeral_body(s@);
    proof {
        assert(body =~= s@.subrange(start as int, n as int));
    }
    if start >= n {
        return None;
    }
    let mut i: usize = start;
    let mut acc: u64 = 0;
    while i < n
        invariant
            start <= i <= n,
            n == s@.len(),
            1 <= n,
            body == numeral_body(s@),
            body =~= s@.subrange(start as int, n as int),
            all_digits(s@.subrange(start as int, i as int)),
            acc == dec_val(s@.subrange(start as int, i as int)),
        decreases n - i,
    {
        let c = s.get_char(i);
        let d = char_digit_val(c);
        if d >= 10 {
            proof {
                assert(c == s@[i as int]);
                assert(body[i - start] == s@[i as int]);
                assert(!is_digit(body[i - start]));
                assert(!all_digits(body));
            }
            return None;
        }
        if acc > (u64::MAX - d as u64) / 10 {
            proof {
                let pre = s@.subrange(start as int, i as int + 1);
                assert(pre.drop_last() =~= s@.subrange(start as int, i as int));
                assert(pre.last() == s@[i as int]);
                assert(dec_val(pre) == acc * 10 + d);
                assert(acc * 10 + d > u64::MAX) by (nonlinear_arith)
                    requires
                        acc > (u64::MAX - d as u64) / 10,
                        d < 10,
                ;
                if all_digits(body) {
                    assert(pre =~= body.take(i - start + 1));
                    lemma_dec_val_prefix(body, i - start + 1);
                    assert(dec_val(body) > u64::MAX);
                }
                assert(!is_u64_numeral(body));
            }
            return None;
        }
        proof {
            let pre = s@.subrange(start as int, i as int + 1);
            assert(pre.drop_last() =~= s@.subrange(start as int, i as int));
            assert(pre.last() == s@[i as int]);
            assert(acc * 10 + d <= u64::MAX) by (nonlinear_arith)
                requires
                    acc <= (u64::MAX - d as u64) / 10,
                    d < 10,
            ;
        }
        acc = acc * 10 + d as u64;
        i += 1;
    }
    proof {
        assert(s@.subrange(start as int, n as int) =~= body);
    }
    Some(acc)
}

/// Canonical decimal numeral of a number, most significant digit first.
pub open spec fn dec_str(n: nat) -> Seq<char>
    decreases n,
{
    if n < 10 {
        seq![digit_char(n)]
    } else {
        dec_str(n / 10).push(digit_char(n % 10))
    }
}

pub proof fn lemma_dec_str_val(n: nat)
    ensures
        dec_str(n).len() >= 1,
        all_digits(dec_str(n)),
        dec_val(dec_str(n)) == n,
    decreases n,
{
    if n < 10 {
        assert(seq![digit_char(n)].drop_last() =~= Seq::<char>::empty());
        assert(digit_val(digit_char(n)) == n);
        assert(dec_val(dec_str(n)) == dec_val(Seq::<char>::empty()) * 10 + n);
    } else {
        lemma_dec_str_val(n / 10);
        assert(dec_str(n).drop_last() =~= dec_str(n / 10));
        assert(dec_str(n).last() == digit_char(n % 10));
        assert(digit_val(digit_char(n % 10)) == n % 10);
        assert(dec_val(dec_str(n)) == dec_val(dec_str(n / 10)) * 10 + n % 10);
        assert(n / 10 * 10 + n % 10 == n) by (nonlinear_arith);
        assert(forall|i: int| 0 <= i < dec_str(n).len() ==> is_digit(#[trigger] dec_str(n)[i]));
    }
}

fn digit_to_str(d: u32) -> (r: &'static str)
    requires
        d < 10,
    ensures
        r@ =~= seq![digit_char(d as nat)],
{
    proof {
        reveal_strlit("0");
        reveal_strlit("1");
        reveal_strlit("2");
        reveal_strlit("3");
        reveal_strlit("4");
        reveal_strlit("5");
        reveal_strlit("6");
        reveal_strlit("7");
        reveal_strlit("8");
        reveal_strlit("9");
    }
    if d == 0 { "0" } else if d == 1 { "1" } else if d == 2 { "2" } else if d == 3 { "3" }
    else if d == 4 { "4" } else if d == 5 { "5" } else if d == 6 { "6" } else if d == 7 { "7" }
    else if d == 8 { "8" } else { "9" }
}

// ---------------------------------------------------------------------------
// decimal-number text
// ---------------------------------------------------------------------------

/// Occurrences of one character in a sequence.
pub open spec fn count_char(s: Seq<char>, c: char) -> nat
    decreases s.len(),
{
    if s.len() == 0 {
        0
    } else if s.last() == c {
        count_char(s.drop_last(), c) + 1
    } else {
        count_char(s.drop_last(), c)
    }
}

/// The text after one optional leading sign.
pub open spec fn signed_body(s: Seq<char>) -> Seq<char> {
    if s.len() >= 1 && (s[0] == '+' || s[0] == '-') {
        s.subrange(1, s.len() as int)
    } else {
        s
    }
}

/// The digits-and-dot part of a number: at least one digit, at most one
/// decimal point, nothing else.
pub open spec fn is_mantissa(m: Seq<char>) -> bool {
    &&& m.len() > 0
    &&& forall|i: int| 0 <= i < m.len() ==> is_digit(#[trigger] m[i]) || m[i] == '.'
    &&& count_char(m, '.') <= 1
    &&& exists|i: int| 0 <= i < m.len() && is_digit(#[trigger] m[i])
}

/// An exponent part: an optional sign, then one or more digits.
pub open spec fn is_exponent(x: Seq<char>) -> bool {
    signed_body(x).len() > 0 && all_digits(signed_body(x))
}

/// First index of an exponent marker (`e` or `E`), or `-1`.
pub open spec fn find_exp_marker(s: Seq<char>) -> int
    decreases s.len(),
{
    if s.len() == 0 {
        -1
    } else if s[0] == 'e' || s[0] == 'E' {
        0
    } else if find_exp_marker(s.drop_first()) == -1 {
        -1
    } else {
        find_exp_marker(s.drop_first()) + 1
    }
}

pub proof fn lemma_find_exp_marker_at(s: Seq<char>, i: int)
    requires
        0 <= i < s.len(),
        s[i] == 'e' || s[i] == 'E',
        forall|k: int| 0 <= k < i ==> s[k] != 'e' && s[k] != 'E',
    ensures
        find_exp_marker(s) == i,
    decreases s.len(),
{
    if i > 0 {
        lemma_find_exp_marker_at(s.drop_first(), i - 1);
    }
}

pub proof fn lemma_find_exp_marker_none(s: Seq<char>)
    requires
        forall|k: int| 0 <= k < s.len() ==> s[k] != 'e' && s[k] != 'E',
    ensures
        find_exp_marker(s) == -1,
    decreases s.len(),
{
    if s.len() > 0 {
        lemma_find_exp_marker_none(s.drop_first());
    }
}

/// The texts `f64::from_str` accepts: an optional sign, then `inf`,
/// `infinity` or `nan` in any case, or a mantissa with an optional
/// exponent.  The engine parses seed ratios with exactly this grammar.
pub open spec fn is_float_text(s: Seq<char>) -> bool {
    let b = signed_body(s);
    ||| lower_seq(b) == "inf"@
    ||| lower_seq(b) == "infinity"@
    ||| lower_seq(b) == "nan"@
    ||| ({
        let k = find_exp_marker(b);
        if k < 0 || k >= b.len() {
            is_mantissa(b)
        } else {
            is_mantissa(b.take(k)) && is_exponent(b.subrange(k + 1, b.len() as int))
        }
    })
}

fn mantissa_ok(m: &str) -> (r: bool)
    ensures
        r == is_mantissa(m@),
{
    let n = m.unicode_len();
    let mut all_ok = true;
    let mut seen_digit = false;
    let mut dots: usize = 0;
    let mut j: usize = 0;
    while j < n
        invariant
            0 <= j <= n,
            n == m@.len(),
            all_ok == (forall|k: int| 0 <= k < j ==> is_digit(#[trigger] m@[k]) || m@[k] == '.'),
            seen_digit == (exists|k: int| 0 <= k < j && is_digit(#[trigger] m@[k])),
            dots == count_char(m@.take(j as int), '.'),
            dots <= j,
        decreases n - j,
    {
        let c = m.get_char(j);
        proof {
            assert(m@.take(j as int + 1).drop_last() =~= m@.take(j as int));
            assert(m@.take(j as int + 1).last() == m@[j as int]);
        }
        let d = char_digit_val(c);
        if d < 10 {
            seen_digit = true;
        } else if c == '.' {
            dots = dots + 1;
        } else {
            all_ok = false;
        }
        j += 1;
    }
    proof {
        assert(m@.take(n as int) =~= m@);
    }
    n > 0 && all_ok && dots <= 1 && seen_digit
}

fn exponent_ok(x: &str) -> (r: bool)
    ensures
        r == is_exponent(x@),
{
    let n = x.unicode_len();
    let start: usize = if n >= 1 && (x.get_char(0) == '+' || x.get_char(0) == '-') {
        1
    } else {
        0
    };
    proof {
        assert(signed_body(x@) =~= x@.subrange(start as int, n as int));
    }
    if start >= n {
        return false;
    }
    let mut j: usize = start;
    while j < n
        invariant
            start <= j <= n,
            n == x@.len(),
            signed_body(x@) =~= x@.subrange(start as int, n as int),
            forall|k: int| start <= k < j ==> is_digit(#[trigger] x@[k]),
        decreases n - j,
    {
        let d = char_digit_val(x.get_char(j));
        if d >= 10 {
            proof {
                assert(!is_digit(signed_body(x@)[j - start]));
            }
            return false;
        }
        j += 1;
    }
    proof {
        assert forall|i: int| 0 <= i < signed_body(x@).len() implies is_digit(
            #[trigger] signed_body(x@)[i],
        ) by {
            assert(signed_body(x@)[i] == x@[start + i]);
        }
    }
    true
}

/// Whether `f64::from_str` would accept this text.
pub fn is_float_str(s: &str) -> (r: bool)
    ensures
        r == is_float_text(s@),
{
    let n = s.unicode_len();
    let start: usize = if n >= 1 && (s.get_char(0) == '+' || s.get_char(0) == '-') {
        1
    } else {
        0
    };
    let b = s.substring_char(start, n);
    proof {
        assert(b@ =~= signed_body(s@));
    }
    if eq_lower(b, "inf") || eq_lower(b, "infinity") || eq_lower(b, "nan") {
        return true;
    }
    let m = b.unicode_len();
    let mut i: usize = 0;
    while i < m
        invariant
            0 <= i <= m,
            m == b@.len(),
            b@ == signed_body(s@),
            lower_seq(b@) != "inf"@,
            lower_seq(b@) != "infinity"@,
            lower_seq(b@) != "nan"@,
            forall|k: int| 0 <= k < i ==> b@[k] != 'e' && b@[k] != 'E',
        decreases m - i,
    {
        let c = b.get_char(i);
        if c == 'e' || c == 'E' {
            proof {
                lemma_find_exp_marker_at(b@, i as int);
            }
            let mant = b.substring_char(0, i);
            let exp = b.substring_char(i + 1, m);
            proof {
                assert(mant@ =~= b@.take(i as int));
                assert(exp@ =~= b@.subrange(i as int + 1, b@.len() as int));
            }
            return mantissa_ok(mant) && exponent_ok(exp);
        }
        i += 1;
    }
    proof {
        lemma_find_exp_marker_none(b@);
    }
    mantissa_ok(b)
}

// ---------------------------------------------------------------------------
// prefix, suffix and substring tests
// ---------------------------------------------------------------------------

/// `p` occurs in `s` as a contiguous run.
pub open spec fn contains_sub(s: Seq<char>, p: Seq<char>) -> bool {
    exists|i: int|
        0 <= i && i + p.len() <= s.len() && #[trigger] s.subrange(i, i + p.len() as int) == p
}

/// Whether `p` is a prefix of `s` taken case-insensitively (`p` itself is
/// expected in lower case).
pub fn starts_with_lower(s: &str, p: &str) -> (r: bool)
    ensures
        r == p@.is_prefix_of(lower_seq(s@)),
{
    let n = s.unicode_len();
    let m = p.unicode_len();
    if m > n {
        return false;
    }
    let mut j: usize = 0;
    while j < m
        invariant
            0 <= j <= m <= n,
            n == s@.len(),
            m == p@.len(),
            forall|k: int| 0 <= k < j ==> lower_seq(s@)[k] == p@[k],
        decreases m - j,
    {
        let c = char_lower(s.get_char(j));
        if c != p.get_char(j) {
            assert(lower_seq(s@)[j as int] != p@[j as int]);
            assert(!p@.is_prefix_of(lower_seq(s@)));
            return false;
        }
        j += 1;
    }
    proof {
        assert(p@ =~= lower_seq(s@).take(m as int));
    }
    true
}

/// Whether `p` is a suffix of `s` taken case-insensitively.
pub fn ends_with_lower(s: &str, p: &str) -> (r: bool)
    ensures
        r == p@.is_suffix_of(lower_seq(s@)),
{
    let n = s.unicode_len();
    let m = p.unicode_len();
    if m > n {
        return false;
    }
    let off = n - m;
    let mut j: usize = 0;
    while j < m
        invariant
            0 <= j <= m <= n,
            off == n - m,
            n == s@.len(),
            m == p@.len(),
            forall|k: int| 0 <= k < j ==> lower_seq(s@)[off + k] == p@[k],
        decreases m - j,
    {
        let c = char_lower(s.get_char(off + j));
        if c != p.get_char(j) {
            assert(lower_seq(s@)[off + j] != p@[j as int]);
            assert(!p@.is_suffix_of(lower_seq(s@)));
            return false;
        }
        j += 1;
    }
    proof {
        assert(p@ =~= lower_seq(s@).skip(off as int));
    }
    true
}

/// Whether `p` occurs anywhere in `s` taken case-insensitively.
pub fn contains_lower(s: &str, p: &str) -> (r: bool)
    ensures
        r == contains_sub(lower_seq(s@), p@),
{
    let n = s.unicode_len();
    let m = p.unicode_len();
    if m > n {
        assert(!contains_sub(lower_seq(s@), p@));
        return false;
    }
    if m == 0 {
        proof {
            assert(lower_seq(s@).subrange(0, 0 + p@.len() as int) =~= p@);
            assert(contains_sub(lower_seq(s@), p@));
        }
        return true;
    }
    let mut i: usize = 0;
    while i <= n - m
        invariant
            0 <= i <= n - m + 1,
            1 <= m <= n,
            n == s@.len(),
            m == p@.len(),
            forall|ii: int|
                0 <= ii < i ==> #[trigger] lower_seq(s@).subrange(ii, ii + p@.len() as int)
                    != p@,
        decreases n - i,
    {
        let mut j: usize = 0;
        let mut matches = true;
        while j < m
            invariant
                0 <= j <= m,
                i + m <= n,
                n == s@.len(),
                m == p@.len(),
                matches ==> forall|k: int| 0 <= k < j ==> lower_seq(s@)[i + k] == p@[k],
                !matches ==> lower_seq(s@).subrange(i as int, i + p@.len() as int) != p@,
            decreases m - j,
        {
            let c = char_lower(s.get_char(i + j));
            if c != p.get_char(j) {
                proof {
                    assert(lower_seq(s@).subrange(i as int, i + p@.len() as int)[j as int]
                        == lower_seq(s@)[i + j]);
                }
                matches = false;
                j = m;
            } else {
                j += 1;
            }
        }
        if matches {
            proof {
                assert(lower_seq(s@).subrange(i as int, i + p@.len() as int) =~= p@);
            }
            return true;
        }
        i += 1;
    }
    proof {
        assert forall|ii: int|
            0 <= ii && ii + p@.len() <= lower_seq(s@).len() implies #[trigger] lower_seq(
            s@,
        ).subrange(ii, ii + p@.len() as int) != p@ by {
            assert(0 <= ii < i);
        }
    }
    false
}

/// Case-insensitive whole-string comparison against a lower-case pattern.
pub fn eq_lower(s: &str, p: &str) -> (r: bool)
    ensures
        r == (lower_seq(s@) == p@),
{
    let n = s.unicode_len();
    let m = p.unicode_len();
    if m != n {
        return false;
    }
    let mut j: usize = 0;
    while j < m
        invariant
            0 <= j <= m,
            n == s@.len(),
            m == p@.len(),
            m == n,
            forall|k: int| 0 <= k < j ==> lower_seq(s@)[k] == p@[k],
        decreases m - j,
    {
        let c = char_lower(s.get_char(j));
        if c != p.get_char(j) {
            assert(lower_seq(s@)[j as int] != p@[j as int]);
            return false;
        }
        j += 1;
    }
    proof {
        assert(lower_seq(s@) =~= p@);
    }
    true
}

/// Plain, case-sensitive string equality, decided character by character.
pub fn eq_str(a: &str, b: &str) -> (r: bool)
    ensures
        r == (a@ == b@),
{
    let n = a.unicode_len();
    let m = b.unicode_len();
    if m != n {
        return false;
    }
    let mut j: usize = 0;
    while j < n
        invariant
            0 <= j <= n,
            n == a@.len(),
            n == b@.len(),
            forall|k: int| 0 <= k < j ==> a@[k] == b@[k],
        decreases n - j,
    {
        if a.get_char(j) != b.get_char(j) {
            return false;
        }
        j += 1;
    }
    proof {
        assert(a@ =~= b@);
    }
    true
}

/// Plain, case-sensitive prefix test.
pub fn starts_with_str(s: &str, p: &str) -> (r: bool)
    ensures
        r == p@.is_prefix_of(s@),
{
    let n = s.unicode_len();
    let m = p.unicode_len();
    if m > n {
        return false;
    }
    let mut j: usize = 0;
    while j < m
        invariant
            0 <= j <= m <= n,
            n == s@.len(),
            m == p@.len(),
            forall|k: int| 0 <= k < j ==> s@[k] == p@[k],
        decreases m - j,
    {
        if s.get_char(j) != p.get_char(j) {
            assert(!p@.is_prefix_of(s@));
            return false;
        }
        j += 1;
    }
    proof {
        assert(p@ =~= s@.take(m as int));
    }
    true
}

// ---------------------------------------------------------------------------
// trimming
// ---------------------------------------------------------------------------

pub open spec fn trim_front(s: Seq<char>) -> Seq<char>
    decreases s.len(),
{
    if s.len() > 0 && is_space(s[0]) {
        trim_front(s.drop_first())
    } else {
        s
    }
}

pub open spec fn trim_back(s: Seq<char>) -> Seq<char>
    decreases s.len(),
{
    if s.len() > 0 && is_space(s.last()) {
        trim_back(s.drop_last())
    } else {
        s
    }
}

/// What `str::trim` leaves, restricted to ASCII whitespace.
pub open spec fn trim_seq(s: Seq<char>) -> Seq<char> {
    trim_back(trim_front(s))
}

pub fn trim_str<'a>(s: &'a str) -> (r: &'a str)
    ensures
        r@ == trim_seq(s@),
{
    let n = s.unicode_len();
    proof {
        assert(s@.subrange(0, n as int) =~= s@);
    }
    let mut i: usize = 0;
    while i < n && char_is_space(s.get_char(i))
        invariant
            0 <= i <= n,
            n == s@.len(),
            trim_front(s@) == trim_front(s@.subrange(i as int, n as int)),
        decreases n - i,
    {
        proof {
            let cur = s@.subrange(i as int, n as int);
            assert(cur.drop_first() =~= s@.subrange(i as int + 1, n as int));
        }
        i += 1;
    }
    proof {
        let cur = s@.subrange(i as int, n as int);
        assert(trim_front(cur) == cur);
    }
    let mut j: usize = n;
    while j > i && char_is_space(s.get_char(j - 1))
        invariant
            0 <= i <= j <= n,
            n == s@.len(),
            trim_front(s@) == trim_front(s@.subrange(i as int, n as int)),
            trim_back(s@.subrange(i as int, n as int)) == trim_back(s@.subrange(i as int, j as int)),
        decreases j,
    {
        proof {
            let cur = s@.subrange(i as int, j as int);
            assert(cur.drop_last() =~= s@.subrange(i as int, j as int - 1));
            assert(cur.last() == s@[j as int - 1]);
        }
        j -= 1;
    }
    proof {
        let cur = s@.subrange(i as int, j as int);
        assert(trim_back(cur) == cur);
    }
    s.substring_char(i, j)
}

// ---------------------------------------------------------------------------
// searching and splitting
// ---------------------------------------------------------------------------

/// First index of `sep` in `s`, or `-1` where it does not occur.
pub open spec fn find_char(s: Seq<char>, sep: char) -> int
    decreases s.len(),
{
    if s.len() == 0 {
        -1
    } else if s[0] == sep {
        0
    } else if find_char(s.drop_first(), sep) == -1 {
        -1
    } else {
        find_char(s.drop_first(), sep) + 1
    }
}

pub proof fn lemma_find_char_at(s: Seq<char>, sep: char, i: int)
    requires
        0 <= i < s.len(),
        s[i] == sep,
        forall|k: int| 0 <= k < i ==> s[k] != sep,
    ensures
        find_char(s, sep) == i,
    decreases s.len(),
{
    if i > 0 {
        lemma_find_char_at(s.drop_first(), sep, i - 1);
    }
}

pub proof fn lemma_find_char_none(s: Seq<char>, sep: char)
    requires
        forall|k: int| 0 <= k < s.len() ==> s[k] != sep,
    ensures
        find_char(s, sep) == -1,
    decreases s.len(),
{
    if s.len() > 0 {
        lemma_find_char_none(s.drop_first(), sep);
    }
}

pub proof fn lemma_find_char_bounds(s: Seq<char>, sep: char)
    ensures
        -1 <= find_char(s, sep) < s.len(),
        find_char(s, sep) >= 0 ==> s[find_char(s, sep)] == sep,
    decreases s.len(),
{
    if s.len() > 0 && s[0] != sep {
        lemma_find_char_bounds(s.drop_first(), sep);
    }
}

/// What `str::split(sep)` yields: empty segments are kept, and the empty
/// string gives one empty segment.
pub open spec fn split_seq(s: Seq<char>, sep: char) -> Seq<Seq<char>>
    decreases s.len(),
{
    let k = find_char(s, sep);
    if k < 0 || k >= s.len() {
        seq![s]
    } else {
        seq![s.take(k)] + split_seq(s.subrange(k + 1, s.len() as int), sep)
    }
}

pub fn split_string(s: &str, sep: char) -> (r: Vec<String>)
    ensures
        r@.map_values(|t: String| t@) == split_seq(s@, sep),
{
    let n = s.unicode_len();
    let mut out: Vec<String> = Vec::new();
    proof {
        assert(s@.subrange(0, n as int) =~= s@);
        assert(out@.map_values(|t: String| t@) =~= Seq::<Seq<char>>::empty());
    }
    let mut start: usize = 0;
    let mut i: usize = 0;
    while i < n
        invariant
            0 <= start <= i <= n,
            n == s@.len(),
            forall|k: int| start <= k < i ==> s@[k] != sep,
            split_seq(s@, sep) =~= out@.map_values(|t: String| t@) + split_seq(
                s@.subrange(start as int, n as int),
                sep,
            ),
        decreases n - i,
    {
        let c = s.get_char(i);
        if c == sep {
            let piece = String::from_str(s.substring_char(start, i));
            proof {
                let rest = s@.subrange(start as int, n as int);
                assert(rest[i - start] == sep);
                assert(forall|k: int| 0 <= k < i - start ==> rest[k] != sep);
                lemma_find_char_at(rest, sep, i - start);
                assert(rest.take(i - start) =~= s@.subrange(start as int, i as int));
                assert(rest.subrange(i - start + 1, rest.len() as int) =~= s@.subrange(
                    i as int + 1,
                    n as int,
                ));
                assert((out@ + seq![piece]).map_values(|t: String| t@) =~= out@.map_values(
                    |t: String| t@,
                ) + seq![piece@]);
            }
            out.push(piece);
            start = i + 1;
        }
        i += 1;
    }
    let last = String::from_str(s.substring_char(start, n));
    proof {
        let rest = s@.subrange(start as int, n as int);
        lemma_find_char_none(rest, sep);
        assert(rest =~= last@);
        assert((out@ + seq![last]).map_values(|t: String| t@) =~= out@.map_values(|t: String| t@)
            + seq![last@]);
    }
    out.push(last);
    out
}

/// Key and value of a header line: the text before and after the first
/// `sep`, as `str::split_once` returns them.
pub fn split_once_char(s: &str, sep: char) -> (r: Option<(String, String)>)
    ensures
        ({
            let k = find_char(s@, sep);
            &&& r is Some <==> k >= 0
            &&& r is Some ==> r->Some_0.0@ == s@.take(k) && r->Some_0.1@ == s@.subrange(
                k + 1,
                s@.len() as int,
            )
        }),
{
    let n = s.unicode_len();
    let mut i: usize = 0;
    while i < n
        invariant
            0 <= i <= n,
            n == s@.len(),
            forall|k: int| 0 <= k < i ==> s@[k] != sep,
        decreases n - i,
    {
        let c = s.get_char(i);
        if c == sep {
            proof {
                lemma_find_char_at(s@, sep, i as int);
            }
            let key = String::from_str(s.substring_char(0, i));
            let val = String::from_str(s.substring_char(i + 1, n));
            proof {
                assert(key@ =~= s@.take(i as int));
            }
            return Some((key, val));
        }
        i += 1;
    }
    proof {
        lemma_find_char_none(s@, sep);
    }
    None
}

/// The trimmed, non-empty members of a list of segments, in order.
pub open spec fn kept_segments(parts: Seq<Seq<char>>) -> Seq<Seq<char>>
    decreases parts.len(),
{
    if parts.len() == 0 {
        Seq::empty()
    } else if trim_seq(parts.last()).len() > 0 {
        kept_segments(parts.drop_last()).push(trim_seq(parts.last()))
    } else {
        kept_segments(parts.drop_last())
    }
}

/// Segments of `s` between occurrences of `sep`, trimmed, empty ones dropped.
pub open spec fn split_trim_nonempty(s: Seq<char>, sep: char) -> Seq<Seq<char>> {
    kept_segments(split_seq(s, sep))
}

pub fn split_trim_nonempty_string(s: &str, sep: char) -> (r: Vec<String>)
    ensures
        r@.map_values(|t: String| t@) == split_trim_nonempty(s@, sep),
{
    let parts = split_string(s, sep);
    let ghost pv = parts@.map_values(|t: String| t@);
    let mut out: Vec<String> = Vec::new();
    proof {
        assert(out@.map_values(|t: String| t@) =~= kept_segments(pv.take(0)));
    }
    let mut i: usize = 0;
    while i < parts.len()
        invariant
            0 <= i <= parts@.len(),
            pv == parts@.map_values(|t: String| t@),
            out@.map_values(|t: String| t@) == kept_segments(pv.take(i as int)),
        decreases parts@.len() - i,
    {
        let t = trim_str(parts[i].as_str());
        proof {
            assert(pv.take(i as int + 1).drop_last() =~= pv.take(i as int));
            assert(pv.take(i as int + 1).last() == pv[i as int]);
        }
        if t.unicode_len() > 0 {
            let ghost old_out = out@;
            out.push(String::from_str(t));
            proof {
                assert(out@.map_values(|u: String| u@) =~= old_out.map_values(|u: String| u@)
                    .push(t@));
            }
        }
        i += 1;
    }
    proof {
        assert(pv.take(pv.len() as int) =~= pv);
    }
    out
}

/// Comma-separated decimal rendering of an index list.
pub open spec fn join_dec(xs: Seq<usize>) -> Seq<char>
    decreases xs.len(),
{
    if xs.len() == 0 {
        Seq::empty()
    } else if xs.len() == 1 {
        dec_str(xs[0] as nat)
    } else {
        dec_str(xs[0] as nat) + seq![','] + join_dec(xs.drop_first())
    }
}

pub proof fn lemma_join_dec_push(xs: Seq<usize>, x: usize)
    ensures
        xs.len() == 0 ==> join_dec(xs.push(x)) == dec_str(x as nat),
        xs.len() > 0 ==> join_dec(xs.push(x)) == join_dec(xs) + seq![','] + dec_str(x as nat),
    decreases xs.len(),
{
    if xs.len() == 0 {
        assert(xs.push(x) =~= seq![x]);
    } else {
        lemma_join_dec_push(xs.drop_first(), x);
        assert(xs.push(x).drop_first() =~= xs.drop_first().push(x));
        if xs.len() == 1 {
            assert(join_dec(xs.push(x)) =~= join_dec(xs) + seq![','] + dec_str(x as nat));
        } else {
            assert(join_dec(xs.push(x)) =~= join_dec(xs) + seq![','] + dec_str(x as nat));
        }
    }
}

pub fn join_dec_string(xs: &Vec<usize>) -> (r: String)
    ensures
        r@ == join_dec(xs@),
{
    let mut out = String::new();
    let mut i: usize = 0;
    while i < xs.len()
        invariant
            0 <= i <= xs@.len(),
            out@ == join_dec(xs@.take(i as int)),
        decreases xs@.len() - i,
    {
        if i > 0 {
            out.append(",");
        }
        let d = u64_to_string(xs[i] as u64);
        out.append(d.as_str());
        proof {
            reveal_strlit(",");
            lemma_join_dec_push(xs@.take(i as int), xs@[i as int]);
            assert(xs@.take(i as int).push(xs@[i as int]) =~= xs@.take(i as int + 1));
            assert(out@ =~= join_dec(xs@.take(i as int + 1)));
        }
        i += 1;
    }
    proof {
        assert(xs@.take(xs@.len() as int) =~= xs@);
    }
    out
}

/// Canonical decimal rendering, as `u64`'s display writes it.
pub fn u64_to_string(n: u64) -> (r: String)
    ensures
        r@ == dec_str(n as nat),
    decreases n,
{
    if n < 10 {
        let r = String::from_str(digit_to_str(n as u32));
        proof {
            assert(r@ =~= dec_str(n as nat));
        }
        r
    } else {
        let mut s = u64_to_string(n / 10);
        s.append(digit_to_str((n % 10) as u32));
        proof {
            assert(s@ =~= dec_str(n as nat));
        }
        s
    }
}

} // verus!
