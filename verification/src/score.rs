//! Fixed-point scores and their decimal text form.
//!
//! A score is a `u64` counting hundredths of a point: `1490` stands
//! for `14.90`. A score cell is written in the shortest decimal form
//! (`"14.9"`, and `"14"` for a whole value); on input the fraction is
//! optional and may have one or two digits (`"14"`, `"14.9"`,
//! `"14.90"`).

use vstd::prelude::*;

verus! {

pub open spec fn is_digit(c: char) -> bool {
    '0' <= c <= '9'
}

/// Numeric value of a digit character.
pub open spec fn digit_val(c: char) -> int
    recommends
        is_digit(c),
{
    c as int - '0' as int
}

/// Digit character for a value below ten.
pub open spec fn digit_char(d: int) -> char
    recommends
        0 <= d < 10,
{
    if d == 0 {
        '0'
    } else if d == 1 {
        '1'
    } else if d == 2 {
        '2'
    } else if d == 3 {
        '3'
    } else if d == 4 {
        '4'
    } else if d == 5 {
        '5'
    } else if d == 6 {
        '6'
    } else if d == 7 {
        '7'
    } else if d == 8 {
        '8'
    } else {
        '9'
    }
}

pub open spec fn all_digits(s: Seq<char>) -> bool {
    forall|i: int| 0 <= i < s.len() ==> is_digit(#[trigger] s[i])
}

/// Value of a digit string, most significant digit first.
pub open spec fn digits_val(s: Seq<char>) -> int
    decreases s.len(),
{
    if s.len() == 0 {
        0
    } else {
        digits_val(s.drop_last()) * 10 + digit_val(s.last())
    }
}

/// Decimal digit string of a non-negative integer, without leading
/// zeros (a single `'0'` for zero).
pub open spec fn spec_dec(n: int) -> Seq<char>
    recommends
        n >= 0,
    decreases n,
{
    if n < 10 {
        seq![digit_char(n)]
    } else {
        spec_dec(n / 10).push(digit_char(n % 10))
    }
}

/// Text form of a score, in the shortest shape: no fraction for a
/// whole value, one fraction digit where the second would be zero,
/// two otherwise.
pub open spec fn spec_render_score(v: u64) -> Seq<char> {
    let ip = spec_dec(v as int / 100);
    let frac = v as int % 100;
    if frac == 0 {
        ip
    } else if frac % 10 == 0 {
        ip + seq!['.', digit_char(frac / 10)]
    } else {
        ip + seq!['.', digit_char(frac / 10), digit_char(frac % 10)]
    }
}

/// Score value of a cell: one or more integer digits, optionally
/// followed by a dot and one or two fraction digits; `None` when the
/// cell has another shape or the value does not fit in a `u64`.
pub open spec fn spec_parse_score(s: Seq<char>) -> Option<u64> {
    if s.len() > 0 && all_digits(s) {
        clip_u64(digits_val(s) * 100)
    } else if s.len() >= 3 && s[s.len() - 2] == '.' && all_digits(s.subrange(0, s.len() - 2))
        && s.len() - 2 > 0 && is_digit(s[s.len() - 1]) {
        clip_u64(digits_val(s.subrange(0, s.len() - 2)) * 100 + digit_val(s[s.len() - 1]) * 10)
    } else if s.len() >= 4 && s[s.len() - 3] == '.' && all_digits(s.subrange(0, s.len() - 3))
        && s.len() - 3 > 0 && is_digit(s[s.len() - 2]) && is_digit(s[s.len() - 1]) {
        clip_u64(
            digits_val(s.subrange(0, s.len() - 3)) * 100 + digit_val(s[s.len() - 2]) * 10
                + digit_val(s[s.len() - 1]),
        )
    } else {
        None
    }
}

pub open spec fn clip_u64(v: int) -> Option<u64> {
    if 0 <= v <= u64::MAX {
        Some(v as u64)
    } else {
        None
    }
}

/// Value of an identifier cell: an optional plus sign, then one or
/// more decimal digits whose value fits in a `usize`.
pub open spec fn spec_parse_index(s: Seq<char>) -> Option<usize> {
    let t = if s.len() > 0 && s[0] == '+' {
        s.subrange(1, s.len() as int)
    } else {
        s
    };
    if t.len() > 0 && all_digits(t) && digits_val(t) <= usize::MAX {
        Some(digits_val(t) as usize)
    } else {
        None
    }
}

/// Text form of an identifier.
pub open spec fn spec_render_index(n: usize) -> Seq<char> {
    spec_dec(n as int)
}

pub proof fn lemma_digits_val_nonneg(s: Seq<char>)
    requires
        all_digits(s),
    ensures
        digits_val(s) >= 0,
    decreases s.len(),
{
    if s.len() > 0 {
        assert(is_digit(s[s.len() - 1]));
        lemma_digits_val_nonneg(s.drop_last());
    }
}

/// Extending a digit string to the right multiplies its value by ten
/// and adds the new digit.
pub proof fn lemma_digits_val_snoc(s: Seq<char>, i: int)
    requires
        0 <= i < s.len(),
    ensures
        digits_val(s.subrange(0, i + 1)) == digits_val(s.subrange(0, i)) * 10 + digit_val(s[i]),
{
    let t = s.subrange(0, i + 1);
    assert(t.drop_last() =~= s.subrange(0, i));
    assert(t.last() == s[i]);
}

/// The value of a prefix of a digit string never exceeds the whole.
pub proof fn lemma_digits_val_prefix_le(s: Seq<char>, i: int)
    requires
        all_digits(s),
        0 <= i <= s.len(),
    ensures
        digits_val(s.subrange(0, i)) <= digits_val(s),
    decreases s.len() - i,
{
    if i == s.len() {
        assert(s.subrange(0, i) =~= s);
    } else {
        lemma_digits_val_snoc(s, i);
        lemma_digits_val_nonneg(s.subrange(0, i));
        assert(is_digit(s[i]));
        lemma_digits_val_prefix_le(s, i + 1);
    }
}

/// The decimal digit string of `n` is made of digits and reads back as
/// `n`.
pub proof fn lemma_dec_digits(n: int)
    requires
        n >= 0,
    ensures
        spec_dec(n).len() >= 1,
        all_digits(spec_dec(n)),
        digits_val(spec_dec(n)) == n,
    decreases n,
{
    if n < 10 {
        let s = spec_dec(n);
        assert(s =~= seq![digit_char(n)]);
        assert(is_digit(digit_char(n)));
        assert(s.len() == 1 && s.last() == digit_char(n));
        assert(s.drop_last() =~= Seq::<char>::empty());
        assert(digits_val(Seq::<char>::empty()) == 0);
        assert(digits_val(s) == digit_val(digit_char(n)));
    } else {
        lemma_dec_digits(n / 10);
        let s = spec_dec(n);
        assert(s == spec_dec(n / 10).push(digit_char(n % 10)));
        assert(s.drop_last() =~= spec_dec(n / 10));
        assert(s.last() == digit_char(n % 10));
        assert(is_digit(digit_char(n % 10)));
        assert forall|i: int| 0 <= i < s.len() implies is_digit(#[trigger] s[i]) by {
            if i < s.len() - 1 {
                assert(s[i] == spec_dec(n / 10)[i]);
            }
        }
        assert(digit_val(digit_char(n % 10)) == n % 10);
        assert(digits_val(s) == (n / 10) * 10 + n % 10);
    }
}

/// A cell that does not start with a digit is not a score.
pub proof fn lemma_nondigit_start_no_score(s: Seq<char>)
    requires
        s.len() == 0 || !is_digit(s[0]),
    ensures
        spec_parse_score(s) is None,
{
    if s.len() > 0 {
        if s.len() >= 3 && s[s.len() - 2] == '.' {
            assert(s.subrange(0, s.len() - 2)[0] == s[0]);
        }
        if s.len() >= 4 && s[s.len() - 3] == '.' {
            assert(s.subrange(0, s.len() - 3)[0] == s[0]);
        }
    }
}

/// Every rendered score reads back as itself.
pub proof fn lemma_score_round_trip(v: u64)
    ensures
        spec_parse_score(spec_render_score(v)) == Some(v),
{
    let ip = spec_dec(v as int / 100);
    let frac = v as int % 100;
    let s = spec_render_score(v);
    lemma_dec_digits(v as int / 100);
    vstd::arithmetic::div_mod::lemma_fundamental_div_mod(v as int, 100);
    vstd::arithmetic::div_mod::lemma_fundamental_div_mod(frac, 10);
    let n = s.len() as int;
    assert(!is_digit('.'));
    if frac == 0 {
        // a whole value: digit cells only, read by the all-digit branch
        assert(s == ip);
        assert(digits_val(s) * 100 == v);
    } else if frac % 10 == 0 {
        // one fraction digit
        assert(n == ip.len() + 2);
        assert(s[n - 2] == '.');
        assert(s[n - 1] == digit_char(frac / 10));
        assert(!all_digits(s));
        assert(s.subrange(0, n - 2) =~= ip);
        assert(0 <= frac / 10 < 10);
        assert(digit_val(s[n - 1]) == frac / 10);
        assert(digits_val(ip) * 100 + (frac / 10) * 10 == v);
    } else {
        // two fraction digits; the one-digit branch does not apply,
        // since position n - 2 holds a digit, not the dot
        assert(n == ip.len() + 3);
        assert(s[n - 3] == '.');
        assert(s[n - 2] == digit_char(frac / 10));
        assert(s[n - 1] == digit_char(frac % 10));
        assert(!all_digits(s));
        assert(is_digit(s[n - 2]));
        assert(s.subrange(0, n - 3) =~= ip);
        assert(0 <= frac / 10 < 10);
        assert(0 <= frac % 10 < 10);
        assert(digit_val(s[n - 2]) == frac / 10);
        assert(digit_val(s[n - 1]) == frac % 10);
        assert(digits_val(ip) * 100 + (frac / 10) * 10 + frac % 10 == v);
    }
}

/// Every rendered identifier reads back as itself.
pub proof fn lemma_index_round_trip(n: usize)
    ensures
        spec_parse_index(spec_render_index(n)) == Some(n),
{
    lemma_dec_digits(n as int);
    assert(is_digit(spec_dec(n as int)[0]));
    assert(!is_digit('+'));
}

/// Digit character of a digit value below ten, as a one-character
/// string slice.
pub fn digit_str(d: u64) -> (r: &'static str)
    requires
        d < 10,
    ensures
        r@ =~= seq![digit_char(d as int)],
{
    proof {
        reveal_strlit("0");
        reveal_strlit("1");
        reveal_strlit("2");
        reveal_strlit("3");
        reveal_strlit("4");
        reveal_strlit("5");
        reveal_strlit("6");
        reveal_strlit("7");
        reveal_strlit("8");
        reveal_strlit("9");
    }
    if d == 0 {
        "0"
    } else if d == 1 {
        "1"
    } else if d == 2 {
        "2"
    } else if d == 3 {
        "3"
    } else if d == 4 {
        "4"
    } else if d == 5 {
        "5"
    } else if d == 6 {
        "6"
    } else if d == 7 {
        "7"
    } else if d == 8 {
        "8"
    } else {
        "9"
    }
}

fn is_digit_ex(c: char) -> (b: bool)
    ensures
        b == is_digit(c),
{
    let u = c as u32;
    48 <= u && u <= 57
}

fn digit_val_ex(c: char) -> (d: u64)
    requires
        is_digit(c),
    ensures
        d == digit_val(c),
{
    (c as u32 - 48) as u64
}

/// Characters of a digit sequence, least significant digit first.
spec fn chars_of_rev(ds: Seq<u64>) -> Seq<char> {
    Seq::new(ds.len(), |i: int| digit_char(ds[ds.len() - 1 - i] as int))
}

/// Decimal text of an unsigned integer.
pub fn u64_to_dec(n: u64) -> (r: String)
    ensures
        r@ == spec_dec(n as int),
{
    if n == 0 {
        let r = String::from_str("0");
        proof {
            reveal_strlit("0");
            assert(r@ =~= spec_dec(0));
        }
        return r;
    }
    let mut digits: Vec<u64> = Vec::new();
    let mut m = n;
    while m > 0
        invariant
            forall|k: int| 0 <= k < digits@.len() ==> #[trigger] digits@[k] < 10,
            m > 0 ==> spec_dec(n as int) == spec_dec(m as int) + chars_of_rev(digits@),
            m == 0 ==> spec_dec(n as int) == chars_of_rev(digits@),
        decreases m,
    {
        let d = m % 10;
        let ghost old_digits = digits@;
        digits.push(d);
        proof {
            assert(chars_of_rev(digits@) =~= seq![digit_char(d as int)] + chars_of_rev(
                old_digits,
            ));
            if m >= 10 {
                assert(spec_dec(m as int) == spec_dec(m as int / 10).push(
                    digit_char(m as int % 10),
                ));
                assert(spec_dec(m as int / 10).push(digit_char(m as int % 10)) + chars_of_rev(
                    old_digits,
                ) =~= spec_dec(m as int / 10) + chars_of_rev(digits@));
            } else {
                assert(spec_dec(m as int) =~= seq![digit_char(m as int)]);
                assert(spec_dec(m as int) + chars_of_rev(old_digits) =~= chars_of_rev(digits@));
            }
        }
        m = m / 10;
    }
    let mut r = String::new();
    let mut j = digits.len();
    while j > 0
        invariant
            j <= digits@.len(),
            forall|k: int| 0 <= k < digits@.len() ==> #[trigger] digits@[k] < 10,
            spec_dec(n as int) == chars_of_rev(digits@),
            r@ == chars_of_rev(digits@).subrange(0, digits@.len() - j),
        decreases j,
    {
        j = j - 1;
        let ghost before = r@;
        r.append(digit_str(digits[j]));
        proof {
            let cs = chars_of_rev(digits@);
            assert(cs[digits@.len() - 1 - j] == digit_char(digits@[j as int] as int));
            assert(r@ =~= cs.subrange(0, digits@.len() - j));
        }
    }
    proof {
        assert(r@ =~= chars_of_rev(digits@));
    }
    r
}

/// Text form of a score, e.g. `"14.9"` for `1490` and `"14"` for
/// `1400`.
pub fn render_score(v: u64) -> (r: String)
    ensures
        r@ == spec_render_score(v),
{
    let mut r = u64_to_dec(v / 100);
    let frac = v % 100;
    if frac != 0 {
        r.append(".");
        r.append(digit_str(frac / 10));
        if frac % 10 != 0 {
            r.append(digit_str(frac % 10));
        }
    }
    proof {
        reveal_strlit(".");
        assert(r@ =~= spec_render_score(v));
    }
    r
}

/// Text form of an identifier, e.g. `"12"` for `12`.
pub fn render_index(n: usize) -> (r: String)
    ensures
        r@ == spec_render_index(n),
{
    u64_to_dec(n as u64)
}

/// First position at or after `from` that does not hold a digit.
fn digit_prefix_end(s: &str, from: usize) -> (r: usize)
    requires
        from <= s@.len(),
    ensures
        from <= r <= s@.len(),
        forall|k: int| from <= k < r ==> is_digit(#[trigger] s@[k]),
        r < s@.len() ==> !is_digit(s@[r as int]),
{
    let n = s.unicode_len();
    let mut i = from;
    while i < n
        invariant
            from <= i <= n,
            n == s@.len(),
            forall|k: int| from <= k < i ==> is_digit(#[trigger] s@[k]),
        decreases n - i,
    {
        if !is_digit_ex(s.get_char(i)) {
            return i;
        }
        i = i + 1;
    }
    i
}

/// Value of the digit run `s[from..to]`, or `None` when it does not
/// fit in a `u64`.
fn digits_value(s: &str, from: usize, to: usize) -> (r: Option<u64>)
    requires
        from <= to <= s@.len(),
        forall|k: int| from <= k < to ==> is_digit(#[trigger] s@[k]),
    ensures
        r == clip_u64(digits_val(s@.subrange(from as int, to as int))),
{
    let ghost t = s@.subrange(from as int, to as int);
    let mut val: u64 = 0;
    let mut i = from;
    while i < to
        invariant
            from <= i <= to <= s@.len(),
            t == s@.subrange(from as int, to as int),
            forall|k: int| from <= k < to ==> is_digit(#[trigger] s@[k]),
            val == digits_val(t.subrange(0, i - from)),
        decreases to - i,
    {
        let c = s.get_char(i);
        let d = digit_val_ex(c);
        proof {
            assert(t[i - from] == c);
            assert(forall|k: int| 0 <= k < t.len() ==> is_digit(#[trigger] t[k]));
            lemma_digits_val_snoc(t, i - from);
            lemma_digits_val_prefix_le(t, i - from + 1);
            assert(t.subrange(0, t.len() as int) =~= t);
        }
        let v10 = match val.checked_mul(10) {
            Some(v10) => v10,
            None => {
                return None;
            },
        };
        let v = match v10.checked_add(d) {
            Some(v) => v,
            None => {
                return None;
            },
        };
        val = v;
        i = i + 1;
    }
    proof {
        assert(t.subrange(0, i - from) =~= t);
        lemma_digits_val_nonneg(t);
    }
    Some(val)
}

/// Reads a score cell; `None` when the cell is not a score.
pub fn parse_score(s: &str) -> (r: Option<u64>)
    ensures
        r == spec_parse_score(s@),
{
    let n = s.unicode_len();
    let e = digit_prefix_end(s, 0);
    if e == 0 {
        proof {
            lemma_nondigit_start_no_score(s@);
        }
        return None;
    }
    if e == n {
        proof {
            assert(s@.subrange(0, n as int) =~= s@);
            lemma_digits_val_nonneg(s@);
        }
        let v = match digits_value(s, 0, n) {
            Some(v) => v,
            None => {
                proof {
                    assert(digits_val(s@) > u64::MAX);
                    assert(digits_val(s@) * 100 >= digits_val(s@)) by (nonlinear_arith)
                        requires
                            digits_val(s@) > 0,
                    ;
                }
                return None;
            },
        };
        return match v.checked_mul(100) {
            Some(r) => Some(r),
            None => None,
        };
    }
    // s@[e] is the first non-digit
    let c = s.get_char(e);
    if !(c == '.') {
        proof {
            lemma_parse_fails_without_dot(s@, e as int);
        }
        return None;
    }
    let ghost ip = s@.subrange(0, e as int);
    proof {
        lemma_digits_val_nonneg(ip);
    }
    if n - e - 1 == 1 {
        let c1 = s.get_char(e + 1);
        if !is_digit_ex(c1) {
            return None;
        }
        let d1 = digit_val_ex(c1);
        let v = match digits_value(s, 0, e) {
            Some(v) => v,
            None => {
                proof {
                    lemma_big_int_part(digits_val(ip), digit_val(c1) * 10);
                }
                return None;
            },
        };
        let v100 = match v.checked_mul(100) {
            Some(v100) => v100,
            None => {
                return None;
            },
        };
        return match v100.checked_add(d1 * 10) {
            Some(r) => Some(r),
            None => None,
        };
    }
    if n - e - 1 == 2 {
        let c1 = s.get_char(e + 1);
        let c2 = s.get_char(e + 2);
        proof {
            assert(s@.subrange(0, n - 2).contains('.')) by {
                assert(s@.subrange(0, n - 2)[e as int] == '.');
            }
        }
        if !is_digit_ex(c1) || !is_digit_ex(c2) {
            return None;
        }
        let d1 = digit_val_ex(c1);
        let d2 = digit_val_ex(c2);
        let v = match digits_value(s, 0, e) {
            Some(v) => v,
            None => {
                proof {
                    lemma_big_int_part(digits_val(ip), digit_val(c1) * 10 + digit_val(c2));
                }
                return None;
            },
        };
        let v100 = match v.checked_mul(100) {
            Some(v100) => v100,
            None => {
                return None;
            },
        };
        return match v100.checked_add(d1 * 10 + d2) {
            Some(r) => Some(r),
            None => None,
        };
    }
    proof {
        lemma_parse_fails_bad_fraction(s@, e as int);
    }
    None
}

/// A value above `u64::MAX` stays above it after taking a hundredfold
/// and adding a fraction.
proof fn lemma_big_int_part(v: int, f: int)
    requires
        v > u64::MAX,
        f >= 0,
    ensures
        v * 100 + f > u64::MAX,
{
    assert(v * 100 >= v) by (nonlinear_arith)
        requires
            v > 0,
    ;
}

/// No score branch applies when the first non-digit is not a dot.
proof fn lemma_parse_fails_without_dot(s: Seq<char>, e: int)
    requires
        0 < e < s.len(),
        forall|k: int| 0 <= k < e ==> is_digit(#[trigger] s[k]),
        !is_digit(s[e]),
        s[e] != '.',
    ensures
        spec_parse_score(s) is None,
{
    let n = s.len() as int;
    assert(!all_digits(s));
    if n >= 3 && s[n - 2] == '.' && all_digits(s.subrange(0, n - 2)) {
        if e < n - 2 {
            assert(s.subrange(0, n - 2)[e] == s[e]);
        }
        assert(e >= n - 2);
        assert(e == n - 1);
        assert(!is_digit(s[n - 1]));
    }
    if n >= 4 && s[n - 3] == '.' && all_digits(s.subrange(0, n - 3)) {
        if e < n - 3 {
            assert(s.subrange(0, n - 3)[e] == s[e]);
        }
        assert(e >= n - 2);
        if e == n - 2 {
            assert(!is_digit(s[n - 2]));
        } else {
            assert(!is_digit(s[n - 1]));
        }
    }
}

/// No score branch applies when the dot is not followed by one or two
/// characters.
proof fn lemma_parse_fails_bad_fraction(s: Seq<char>, e: int)
    requires
        0 < e < s.len(),
        forall|k: int| 0 <= k < e ==> is_digit(#[trigger] s[k]),
        s[e] == '.',
        !is_digit(s[e]),
        s.len() - e - 1 != 1,
        s.len() - e - 1 != 2,
    ensures
        spec_parse_score(s) is None,
{
    let n = s.len() as int;
    assert(!all_digits(s));
    if n >= 3 && s[n - 2] == '.' && all_digits(s.subrange(0, n - 2)) {
        if e < n - 2 {
            assert(s.subrange(0, n - 2)[e] == s[e]);
        }
        assert(e >= n - 2);
        assert(e != n - 2);
        assert(s[n - 2] != '.');
    }
    if n >= 4 && s[n - 3] == '.' && all_digits(s.subrange(0, n - 3)) {
        if e < n - 3 {
            assert(s.subrange(0, n - 3)[e] == s[e]);
        }
        assert(e >= n - 3);
        assert(e != n - 3);
        if e == n - 2 {
            assert(!is_digit(s[n - 2]));
        } else {
            assert(!is_digit(s[n - 1]));
        }
    }
}

/// Reads an identifier cell; `None` when the cell is not a plain
/// decimal number, with an optional leading plus sign, that fits in a
/// `usize`.
pub fn parse_index(s: &str) -> (r: Option<usize>)
    ensures
        r == spec_parse_index(s@),
{
    let n = s.unicode_len();
    let start: usize = if n > 0 && s.get_char(0) == '+' {
        1
    } else {
        0
    };
    let ghost t = if s@.len() > 0 && s@[0] == '+' {
        s@.subrange(1, s@.len() as int)
    } else {
        s@
    };
    proof {
        assert(t =~= s@.subrange(start as int, n as int));
    }
    let e = digit_prefix_end(s, start);
    if e == start || e < n {
        proof {
            if e < n {
                assert(t[e - start] == s@[e as int]);
            }
        }
        return None;
    }
    proof {
        assert(usize::MAX <= u64::MAX);
        lemma_digits_val_nonneg(t);
    }
    match digits_value(s, start, n) {
        Some(v) => {
            assert(v == digits_val(t));
            if v <= usize::MAX as u64 {
                assert(digits_val(t) <= usize::MAX);
                Some(v as usize)
            } else {
                assert(digits_val(t) > usize::MAX);
                None
            }
        },
        None => {
            assert(digits_val(t) > u64::MAX);
            None
        },
    }
}

} // verus!
