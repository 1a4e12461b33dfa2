//! Verified text analysis: decimal integer parsing (with the
//! seconds-versus-milliseconds heuristic of the date rule engine) and the
//! grammar of floating-point literals, used to validate and classify numeric
//! field texts without ever holding a float.

use vstd::prelude::*;
use vstd::string::StrSliceExecFns;

verus! {

pub open spec fn is_digit(c: char) -> bool {
    '0' <= c && c <= '9'
}

pub open spec fn digit_val(c: char) -> int {
    c as int - '0' as int
}

pub open spec fn all_digits(s: Seq<char>) -> bool {
    forall|i: int| 0 <= i < s.len() ==> is_digit(#[trigger] s[i])
}

/// Numeric value of a digit string, most significant digit first.
pub open spec fn digits_val(s: Seq<char>) -> int
    decreases s.len(),
{
    if s.len() == 0 {
        0
    } else {
        digits_val(s.drop_last()) * 10 + digit_val(s.last())
    }
}

/// The value denoted by an optionally signed decimal integer text, or `None`
/// where the text is not one. This is the grammar Rust's integer parsing
/// accepts: an optional `+` or `-` sign, then one or more digits.
pub open spec fn int_text_value(s: Seq<char>) -> Option<int> {
    if s.len() > 0 && (s[0] == '+' || s[0] == '-') {
        let mag = s.subrange(1, s.len() as int);
        if mag.len() > 0 && all_digits(mag) {
            Some(
                if s[0] == '-' {
                    -digits_val(mag)
                } else {
                    digits_val(mag)
                },
            )
        } else {
            None
        }
    } else {
        if s.len() > 0 && all_digits(s) {
            Some(digits_val(s))
        } else {
            None
        }
    }
}

pub open spec fn fits_i64(v: int) -> bool {
    i64::MIN <= v <= i64::MAX
}

proof fn lemma_digits_val_nonneg(s: Seq<char>)
    requires
        all_digits(s),
    ensures
        digits_val(s) >= 0,
    decreases s.len(),
{
    if s.len() > 0 {
        assert(all_digits(s.drop_last()));
        lemma_digits_val_nonneg(s.drop_last());
    }
}

/// A digit string is worth at least any of its prefixes.
proof fn lemma_digits_val_prefix_le(s: Seq<char>, k: int)
    requires
        all_digits(s),
        0 <= k <= s.len(),
    ensures
        digits_val(s.subrange(0, k)) <= digits_val(s),
    decreases s.len() - k,
{
    if k == s.len() {
        assert(s.subrange(0, k) =~= s);
    } else {
        let p = s.subrange(0, k);
        let q = s.subrange(0, k + 1);
        assert(q.drop_last() =~= p);
        assert(all_digits(p));
        lemma_digits_val_nonneg(p);
        assert(digits_val(q) == digits_val(p) * 10 + digit_val(q.last()));
        lemma_digits_val_prefix_le(s, k + 1);
    }
}

/// The characters of a string, as a vector.
pub fn chars_of(s: &str) -> (r: Vec<char>)
    ensures
        r@ == s@,
{
    let n = s.unicode_len();
    let mut r: Vec<char> = Vec::new();
    let mut i: usize = 0;
    while i < n
        invariant
            i <= n,
            n == s@.len(),
            r@ == s@.subrange(0, i as int),
        decreases n - i,
    {
        r.push(s.get_char(i));
        i = i + 1;
        assert(r@ =~= s@.subrange(0, i as int));
    }
    assert(s@.subrange(0, n as int) =~= s@);
    r
}

/// Parse an optionally signed decimal integer, exactly as Rust's own integer
/// parsing does: `None` where the text is not an integer or its value does
/// not fit in an `i64`.
pub fn parse_i64_text(s: &str) -> (r: Option<i64>)
    ensures
        r is Some <==> (int_text_value(s@) is Some && fits_i64(int_text_value(s@)->Some_0)),
        r is Some ==> int_text_value(s@) == Some(r->Some_0 as int),
{
    let v = chars_of(s);
    let n = v.len();
    if n == 0 {
        return None;
    }
    let c0 = v[0];
    let neg = c0 == '-';
    let start: usize = if c0 == '-' || c0 == '+' {
        1
    } else {
        0
    };
    if start == n {
        return None;
    }
    let ghost mag = if start == 1 {
        s@.subrange(1, s@.len() as int)
    } else {
        s@
    };
    assert(mag =~= v@.subrange(start as int, n as int));
    let limit: u64 = if neg {
        9223372036854775808
    } else {
        9223372036854775807
    };
    let mut acc: u64 = 0;
    let mut i: usize = start;
    while i < n
        invariant
            start <= i <= n,
            n == v@.len(),
            v@ == s@,
            start == 0 || start == 1,
            start < n,
            start == 1 ==> (s@[0] == '+' || s@[0] == '-'),
            start == 0 ==> !(s@[0] == '+' || s@[0] == '-'),
            neg <==> (start == 1 && s@[0] == '-'),
            mag == v@.subrange(start as int, n as int),
            all_digits(v@.subrange(start as int, i as int)),
            acc == digits_val(v@.subrange(start as int, i as int)),
            acc <= limit,
            limit == if neg { 9223372036854775808u64 } else { 9223372036854775807u64 },
        decreases n - i,
    {
        let c = v[i];
        if !('0' <= c && c <= '9') {
            assert(!is_digit(mag[i - start]));
            assert(!all_digits(mag));
            return None;
        }
        let d: u64 = (c as u32 - 48) as u64;
        assert(d == digit_val(c));
        let ghost pre = v@.subrange(start as int, i as int);
        let ghost ext = v@.subrange(start as int, i as int + 1);
        assert(ext.drop_last() =~= pre);
        assert(ext.last() == c);
        if acc > (limit - d) / 10 {
            // The value read so far already exceeds the i64 range; if the
            // rest of the text is digits the whole value does too.
            proof {
                assert(acc * 10 + d > limit) by (nonlinear_arith)
                    requires
                        acc > (limit - d) / 10,
                        d <= 9,
                        limit >= 9,
                ;
                if all_digits(mag) {
                    assert(ext =~= mag.subrange(0, i - start + 1));
                    lemma_digits_val_prefix_le(mag, i - start + 1);
                    assert(digits_val(ext) == digits_val(pre) * 10 + digit_val(c));
                    assert(digits_val(mag) > limit);
                    if start == 1 {
                        assert(int_text_value(s@) == Some(
                            if neg {
                                -digits_val(mag)
                            } else {
                                digits_val(mag)
                            },
                        ));
                    } else {
                        assert(s@ =~= mag);
                        assert(int_text_value(s@) == Some(digits_val(mag)));
                    }
                    assert(!fits_i64(int_text_value(s@)->Some_0));
                }
            }
            return None;
        }
        assert(acc * 10 + d <= limit) by (nonlinear_arith)
            requires
                acc <= (limit - d) / 10,
                d <= 9,
        ;
        acc = acc * 10 + d;
        i = i + 1;
        assert(all_digits(v@.subrange(start as int, i as int)));
    }
    assert(v@.subrange(start as int, n as int) =~= mag);
    assert(acc == digits_val(mag));
    assert(all_digits(mag));
    if neg {
        if acc == 9223372036854775808 {
            assert(int_text_value(s@) == Some(-digits_val(mag)));
            Some(i64::MIN)
        } else {
            Some(-(acc as i64))
        }
    } else {
        Some(acc as i64)
    }
}

/// The milliseconds-since-epoch value of a raw numeric date text: the integer
/// it denotes, taken as seconds and scaled by 1000 when its magnitude is
/// below the millisecond-epoch threshold, else taken as milliseconds as-is.
pub open spec fn epoch_text_millis(s: Seq<char>) -> Option<int> {
    match int_text_value(s) {
        Option::None => Option::None,
        Option::Some(v) => {
            if !fits_i64(v) {
                Option::None
            } else if -1000000000000 < v < 1000000000000 {
                Option::Some(v * 1000)
            } else {
                Option::Some(v)
            }
        },
    }
}

/// Parse a raw epoch date text, applying the seconds-versus-milliseconds
/// heuristic.
pub fn parse_epoch_text(s: &str) -> (r: Option<i64>)
    ensures
        match r {
            Option::Some(m) => epoch_text_millis(s@) == Some(m as int),
            Option::None => epoch_text_millis(s@) is None,
        },
{
    match parse_i64_text(s) {
        Option::None => Option::None,
        Option::Some(v) => {
            if -1000000000000 < v && v < 1000000000000 {
                Option::Some(v * 1000)
            } else {
                Option::Some(v)
            }
        },
    }
}

/// First index at or after `i` that does not hold a digit.
pub open spec fn digits_end(s: Seq<char>, i: int) -> int
    decreases s.len() - i,
{
    if 0 <= i < s.len() && is_digit(s[i]) {
        digits_end(s, i + 1)
    } else {
        i
    }
}

proof fn lemma_digits_end_bounds(s: Seq<char>, i: int)
    requires
        0 <= i <= s.len(),
    ensures
        i <= digits_end(s, i) <= s.len(),
    decreases s.len() - i,
{
    if i < s.len() && is_digit(s[i]) {
        lemma_digits_end_bounds(s, i + 1);
    }
}

/// The tail of a float text from index `j` on is a well-formed, possibly
/// absent exponent part: `e` or `E`, an optional sign, one or more digits.
pub open spec fn exp_text_ok(s: Seq<char>, j: int) -> bool {
    if j == s.len() {
        true
    } else if 0 <= j < s.len() && (s[j] == 'e' || s[j] == 'E') {
        let k = if j + 1 < s.len() && (s[j + 1] == '+' || s[j + 1] == '-') {
            j + 2
        } else {
            j + 1
        };
        k < s.len() && digits_end(s, k) == s.len()
    } else {
        false
    }
}

/// Index just past the mantissa of an unsigned float text: the integer
/// digits, and the fraction digits where a dot follows them.
pub open spec fn mantissa_end(s: Seq<char>) -> int {
    let d1 = digits_end(s, 0);
    if d1 > 0 {
        if d1 < s.len() && s[d1] == '.' {
            digits_end(s, d1 + 1)
        } else {
            d1
        }
    } else {
        digits_end(s, 1)
    }
}

/// An unsigned number text: digits, optionally a dot and more digits; or a
/// dot and at least one digit; optionally followed by an exponent part.
pub open spec fn number_text(s: Seq<char>) -> bool {
    let d1 = digits_end(s, 0);
    if d1 > 0 {
        exp_text_ok(s, mantissa_end(s))
    } else if s.len() > 0 && s[0] == '.' {
        digits_end(s, 1) > 1 && exp_text_ok(s, mantissa_end(s))
    } else {
        false
    }
}

/// Case-insensitive match of a character against a lowercase ASCII letter.
pub open spec fn ci_is(c: char, lo: char) -> bool {
    c == lo || c as int == lo as int - 32
}

pub open spec fn inf_word(s: Seq<char>) -> bool {
    s.len() == 3 && ci_is(s[0], 'i') && ci_is(s[1], 'n') && ci_is(s[2], 'f')
}

pub open spec fn infinity_word(s: Seq<char>) -> bool {
    s.len() == 8 && ci_is(s[0], 'i') && ci_is(s[1], 'n') && ci_is(s[2], 'f') && ci_is(s[3], 'i')
        && ci_is(s[4], 'n') && ci_is(s[5], 'i') && ci_is(s[6], 't') && ci_is(s[7], 'y')
}

pub open spec fn nan_word(s: Seq<char>) -> bool {
    s.len() == 3 && ci_is(s[0], 'n') && ci_is(s[1], 'a') && ci_is(s[2], 'n')
}

/// The unsigned part of a possibly signed text.
pub open spec fn unsigned_part(s: Seq<char>) -> Seq<char> {
    if s.len() > 0 && (s[0] == '+' || s[0] == '-') {
        s.subrange(1, s.len() as int)
    } else {
        s
    }
}

/// The grammar of texts Rust's float parsing accepts: an optional sign, then
/// `inf`, `infinity` or `nan` in any letter case, or a number text.
pub open spec fn float_text(s: Seq<char>) -> bool {
    let b = unsigned_part(s);
    ||| inf_word(b)
    ||| infinity_word(b)
    ||| nan_word(b)
    ||| number_text(b)
}

pub open spec fn zeros_in(s: Seq<char>, a: int, b: int) -> bool {
    forall|i: int| a <= i < b ==> #[trigger] s[i] == '0'
}

/// A float text that denotes exactly zero: a number text whose mantissa
/// digits are all `0` (the sign and the exponent are irrelevant).
pub open spec fn zero_float_text(s: Seq<char>) -> bool {
    let b = unsigned_part(s);
    &&& number_text(b)
    &&& zeros_in(b, 0, digits_end(b, 0))
    &&& {
        let d1 = digits_end(b, 0);
        if d1 < b.len() && b[d1] == '.' {
            zeros_in(b, d1 + 1, digits_end(b, d1 + 1))
        } else {
            d1 > 0 || zeros_in(b, 1, digits_end(b, 1))
        }
    }
}

/// First index at or after `from` without a digit, and whether every digit
/// skipped over is `0`.
fn scan_digits(v: &Vec<char>, from: usize) -> (r: (usize, bool))
    requires
        from <= v@.len(),
    ensures
        r.0 == digits_end(v@, from as int),
        from <= r.0 <= v@.len(),
        r.1 == zeros_in(v@, from as int, r.0 as int),
{
    let n = v.len();
    let mut i = from;
    let mut zeros = true;
    while i < n && '0' <= v[i] && v[i] <= '9'
        invariant
            from <= i <= n,
            n == v@.len(),
            digits_end(v@, from as int) == digits_end(v@, i as int),
            all_digits(v@.subrange(from as int, i as int)),
            zeros == zeros_in(v@, from as int, i as int),
        decreases n - i,
    {
        if v[i] != '0' {
            zeros = false;
        }
        i = i + 1;
        assert(all_digits(v@.subrange(from as int, i as int)));
    }
    proof {
        lemma_digits_end_bounds(v@, i as int);
    }
    assert(digits_end(v@, i as int) == i);
    (i, zeros)
}

/// Whether the exponent part starting at `j` is well formed.
fn check_exp(v: &Vec<char>, j: usize) -> (r: bool)
    requires
        j <= v@.len(),
    ensures
        r == exp_text_ok(v@, j as int),
{
    let n = v.len();
    if j == n {
        return true;
    }
    if !(v[j] == 'e' || v[j] == 'E') {
        return false;
    }
    let k: usize = if j + 1 < n && (v[j + 1] == '+' || v[j + 1] == '-') {
        j + 2
    } else {
        j + 1
    };
    if k >= n {
        return false;
    }
    let (e, _) = scan_digits(v, k);
    e == n
}

/// Whether `v` from its start is a signed float text, and whether it denotes
/// exactly zero.
fn classify_float_chars(v: &Vec<char>) -> (r: (bool, bool))
    ensures
        r.0 == float_text(v@),
        r.1 == zero_float_text(v@),
{
    let n = v.len();
    let off: usize = if n > 0 && (v[0] == '+' || v[0] == '-') {
        1
    } else {
        0
    };
    let ghost b = unsigned_part(v@);
    // Work on the unsigned part as its own vector.
    let mut u: Vec<char> = Vec::new();
    let mut i = off;
    while i < n
        invariant
            off <= i <= n,
            n == v@.len(),
            off as int + u@.len() == i as int,
            u@ == v@.subrange(off as int, i as int),
        decreases n - i,
    {
        u.push(v[i]);
        i = i + 1;
        assert(u@ =~= v@.subrange(off as int, i as int));
    }
    assert(u@ =~= b);
    let m = u.len();
    // Named constants: inf / infinity / nan, case-insensitively.
    let word_ok: bool = if m == 3 {
        (ci_char(u[0], 'i') && ci_char(u[1], 'n') && ci_char(u[2], 'f')) || (ci_char(u[0], 'n')
            && ci_char(u[1], 'a') && ci_char(u[2], 'n'))
    } else if m == 8 {
        ci_char(u[0], 'i') && ci_char(u[1], 'n') && ci_char(u[2], 'f') && ci_char(u[3], 'i')
            && ci_char(u[4], 'n') && ci_char(u[5], 'i') && ci_char(u[6], 't') && ci_char(u[7], 'y')
    } else {
        false
    };
    assert(word_ok == (inf_word(b) || infinity_word(b) || nan_word(b)));
    // Number form.
    let (d1, z1) = scan_digits(&u, 0);
    let is_num: bool;
    let zero_mantissa: bool;
    if d1 > 0 {
        if d1 < m && u[d1] == '.' {
            let (d2, z2) = scan_digits(&u, d1 + 1);
            is_num = check_exp(&u, d2);
            zero_mantissa = z1 && z2;
        } else {
            is_num = check_exp(&u, d1);
            zero_mantissa = z1;
        }
    } else if m > 0 && u[0] == '.' {
        let (d2, z2) = scan_digits(&u, 1);
        is_num = d2 > 1 && check_exp(&u, d2);
        zero_mantissa = z2;
    } else {
        is_num = false;
        zero_mantissa = false;
    }
    assert(is_num == number_text(b));
    (word_ok || is_num, is_num && zero_mantissa)
}

/// Case-insensitive comparison against a lowercase ASCII letter.
fn ci_char(c: char, lo: char) -> (r: bool)
    requires
        'a' <= lo <= 'z',
    ensures
        r == ci_is(c, lo),
{
    let cu = c as u32;
    let lu = lo as u32;
    c == lo || cu + 32 == lu
}

/// Whether the text would be accepted by a float parser.
pub fn is_float_text(s: &str) -> (r: bool)
    ensures
        r == float_text(s@),
{
    let v = chars_of(s);
    let (f, _) = classify_float_chars(&v);
    f
}

/// Whether the text is a float text denoting exactly zero.
pub fn is_zero_float_text(s: &str) -> (r: bool)
    ensures
        r == zero_float_text(s@),
{
    let v = chars_of(s);
    let (_, z) = classify_float_chars(&v);
    z
}

} // verus!
