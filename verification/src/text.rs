//! Verified text utilities: decimal-literal parsing into fixed-point
//! integers, number-to-string rendering with locale decimal separators,
//! whitespace trimming, string equality and substring search.

use vstd::prelude::*;

verus! {

/// Largest integer part a price literal may carry (exclusive bound),
/// in whole currency units.
pub const MAX_PRICE_INT_PART: i64 = 1_000_000_000_000;

pub open spec fn is_digit(c: char) -> bool {
    '0' as u32 <= c as u32 && c as u32 <= '9' as u32
}

pub open spec fn digit_val(c: char) -> int {
    c as u32 - '0' as u32
}

pub open spec fn digit_char(d: int) -> char {
    if d == 0 {
        '0'
    } else if d == 1 {
        '1'
    } else if d == 2 {
        '2'
    } else if d == 3 {
        '3'
    } else if d == 4 {
        '4'
    } else if d == 5 {
        '5'
    } else if d == 6 {
        '6'
    } else if d == 7 {
        '7'
    } else if d == 8 {
        '8'
    } else {
        '9'
    }
}

pub open spec fn is_space(c: char) -> bool {
    c == ' ' || c == '\t' || c == '\n' || c == '\r'
}

/// The sequence with leading whitespace removed.
pub open spec fn spec_trim_start(s: Seq<char>) -> Seq<char>
    decreases s.len(),
{
    if s.len() > 0 && is_space(s[0]) {
        spec_trim_start(s.drop_first())
    } else {
        s
    }
}

/// The sequence with trailing whitespace removed.
pub open spec fn spec_trim_end(s: Seq<char>) -> Seq<char>
    decreases s.len(),
{
    if s.len() > 0 && is_space(s[s.len() - 1]) {
        spec_trim_end(s.drop_last())
    } else {
        s
    }
}

/// The sequence with whitespace removed from both ends.
pub open spec fn spec_trim(s: Seq<char>) -> Seq<char> {
    spec_trim_end(spec_trim_start(s))
}

fn trim_start<'a>(s: &'a str) -> (r: &'a str)
    ensures
        r@ == spec_trim_start(s@),
    decreases s@.len(),
{
    let n = s.unicode_len();
    if n > 0 {
        let c = s.get_char(0);
        if c == ' ' || c == '\t' || c == '\n' || c == '\r' {
            let rest = s.substring_char(1, n);
            proof {
                assert(rest@ =~= s@.drop_first());
            }
            return trim_start(rest);
        }
    }
    s
}

fn trim_end<'a>(s: &'a str) -> (r: &'a str)
    ensures
        r@ == spec_trim_end(s@),
    decreases s@.len(),
{
    let n = s.unicode_len();
    if n > 0 {
        let c = s.get_char(n - 1);
        if c == ' ' || c == '\t' || c == '\n' || c == '\r' {
            let rest = s.substring_char(0, n - 1);
            proof {
                assert(rest@ =~= s@.drop_last());
            }
            return trim_end(rest);
        }
    }
    s
}

/// Removes leading and trailing ASCII whitespace.
pub fn trim<'a>(s: &'a str) -> (r: &'a str)
    ensures
        r@ == spec_trim(s@),
{
    trim_end(trim_start(s))
}

/// Character-wise string equality, aligned with view equality.
pub fn str_eq(a: &str, b: &str) -> (r: bool)
    ensures
        r == (a@ == b@),
{
    let an = a.unicode_len();
    let bn = b.unicode_len();
    if an != bn {
        return false;
    }
    let mut i: usize = 0;
    while i < an
        invariant
            i <= an,
            an == a@.len(),
            an == b@.len(),
            forall|k: int| 0 <= k < i ==> a@[k] == b@[k],
        decreases an - i,
    {
        if a.get_char(i) != b.get_char(i) {
            return false;
        }
        i = i + 1;
    }
    proof {
        assert(a@ =~= b@);
    }
    true
}

/// `needle` occurs as a contiguous run inside `hay`.
pub open spec fn spec_contains(hay: Seq<char>, needle: Seq<char>) -> bool {
    exists|i: int|
        0 <= i && i + needle.len() <= hay.len() && (#[trigger] hay.subrange(i, i + needle.len()))
            == needle
}

fn match_at(hay: &str, needle: &str, i: usize) -> (r: bool)
    requires
        i + needle@.len() <= hay@.len(),
        hay@.len() <= usize::MAX,
    ensures
        r == (hay@.subrange(i as int, i + needle@.len()) == needle@),
{
    let nm = needle.unicode_len();
    let mut j: usize = 0;
    while j < nm
        invariant
            j <= nm,
            nm == needle@.len(),
            i + nm <= hay@.len(),
            hay@.len() <= usize::MAX,
            forall|k: int| 0 <= k < j ==> hay@[i + k] == needle@[k],
        decreases nm - j,
    {
        if hay.get_char(i + j) != needle.get_char(j) {
            proof {
                assert(hay@.subrange(i as int, i + needle@.len())[j as int] != needle@[j as int]);
            }
            return false;
        }
        j = j + 1;
    }
    proof {
        assert(hay@.subrange(i as int, i + needle@.len()) =~= needle@);
    }
    true
}

/// Substring search: does `hay` contain `needle`?
pub fn str_contains(hay: &str, needle: &str) -> (r: bool)
    ensures
        r == spec_contains(hay@, needle@),
{
    let hn = hay.unicode_len();
    let nm = needle.unicode_len();
    if nm > hn {
        return false;
    }
    if nm == 0 {
        proof {
            assert(hay@.subrange(0, 0 + needle@.len() as int) =~= needle@);
        }
        return true;
    }
    let mut i: usize = 0;
    while i <= hn - nm
        invariant
            1 <= nm <= hn,
            hn == hay@.len(),
            hn <= usize::MAX,
            nm == needle@.len(),
            i <= hn - nm + 1,
            forall|k: int|
                0 <= k < i ==> (#[trigger] hay@.subrange(k, k + needle@.len())) != needle@,
        decreases hn - i,
    {
        if match_at(hay, needle, i) {
            return true;
        }
        i = i + 1;
    }
    false
}

/// Accumulating parse of the integer part of a decimal literal, in
/// thousandths; switches to the fractional part at a dot.  `acc` is the
/// value of the digits already read, `any` whether one was read.
pub open spec fn spec_parse_mag(s: Seq<char>, acc: int, any: bool) -> Option<int>
    decreases s.len(),
{
    if s.len() == 0 {
        if any {
            Some(acc * 1000)
        } else {
            None
        }
    } else if s[0] == '.' {
        spec_parse_frac(s.drop_first(), acc * 1000, any, 100)
    } else if is_digit(s[0]) {
        if acc >= MAX_PRICE_INT_PART as int {
            None
        } else {
            spec_parse_mag(s.drop_first(), acc * 10 + digit_val(s[0]), true)
        }
    } else {
        None
    }
}

/// Accumulating parse of the fractional part: `base` is the value so far in
/// thousandths, `mult` the weight of the next fractional digit (digits past
/// the third carry weight zero and are ignored).
pub open spec fn spec_parse_frac(s: Seq<char>, base: int, any: bool, mult: int) -> Option<int>
    decreases s.len(),
{
    if s.len() == 0 {
        if any {
            Some(base)
        } else {
            None
        }
    } else if is_digit(s[0]) {
        spec_parse_frac(s.drop_first(), base + digit_val(s[0]) * mult, true, mult / 10)
    } else {
        None
    }
}

/// A signed decimal literal (optional `+`/`-`, digits with at most one dot,
/// at least one digit) as a value in thousandths, truncated toward zero past
/// the third fractional digit.  `None` on any other shape, or when the
/// integer part reaches `MAX_PRICE_INT_PART`.
pub open spec fn spec_parse_decimal(s: Seq<char>) -> Option<int> {
    if s.len() > 0 && s[0] == '-' {
        match spec_parse_mag(s.drop_first(), 0, false) {
            Some(v) => Some(-v),
            None => None,
        }
    } else if s.len() > 0 && s[0] == '+' {
        spec_parse_mag(s.drop_first(), 0, false)
    } else {
        spec_parse_mag(s, 0, false)
    }
}

fn parse_mag(s: &str, acc: i64, any: bool) -> (r: Option<i64>)
    requires
        0 <= acc < 2 * MAX_PRICE_INT_PART as int * 10,
    ensures
        r matches Some(v) ==> Some(v as int) == spec_parse_mag(s@, acc as int, any),
        r matches Some(v) ==> v >= 0,
        r is None ==> spec_parse_mag(s@, acc as int, any) is None,
    decreases s@.len(),
{
    let n = s.unicode_len();
    if n == 0 {
        if any {
            Some(acc * 1000)
        } else {
            None
        }
    } else {
        let c = s.get_char(0);
        let rest = s.substring_char(1, n);
        proof {
            assert(rest@ =~= s@.drop_first());
        }
        if c == '.' {
            parse_frac(rest, acc * 1000, any, 100)
        } else {
            let u: u32 = c as u32;
            if 48 <= u && u <= 57 {
                if acc >= MAX_PRICE_INT_PART {
                    None
                } else {
                    let d: i64 = (u - 48) as i64;
                    parse_mag(rest, acc * 10 + d, true)
                }
            } else {
                None
            }
        }
    }
}

fn parse_frac(s: &str, base: i64, any: bool, mult: i64) -> (r: Option<i64>)
    requires
        0 <= base,
        base + 10 * mult <= i64::MAX,
        0 <= mult <= 100,
    ensures
        r matches Some(v) ==> Some(v as int) == spec_parse_frac(s@, base as int, any, mult as int),
        r matches Some(v) ==> v >= 0,
        r is None ==> spec_parse_frac(s@, base as int, any, mult as int) is None,
    decreases s@.len(),
{
    let n = s.unicode_len();
    if n == 0 {
        if any {
            Some(base)
        } else {
            None
        }
    } else {
        let c = s.get_char(0);
        let u: u32 = c as u32;
        if 48 <= u && u <= 57 {
            let rest = s.substring_char(1, n);
            proof {
                assert(rest@ =~= s@.drop_first());
            }
            let d: i64 = (u - 48) as i64;
            proof {
                assert(0 <= d * mult && d * mult <= 9 * mult && 10 * (mult / 10) <= mult)
                    by (nonlinear_arith)
                    requires
                        0 <= d <= 9,
                        0 <= mult <= 100,
                ;
            }
            parse_frac(rest, base + d * mult, true, mult / 10)
        } else {
            None
        }
    }
}

/// Parses a signed decimal literal into thousandths, as
/// [`spec_parse_decimal`] states.
pub fn parse_decimal(s: &str) -> (r: Option<i64>)
    ensures
        r matches Some(v) ==> Some(v as int) == spec_parse_decimal(s@),
        r is None ==> spec_parse_decimal(s@) is None,
{
    let n = s.unicode_len();
    if n > 0 {
        let c = s.get_char(0);
        if c == '-' {
            let rest = s.substring_char(1, n);
            proof {
                assert(rest@ =~= s@.drop_first());
            }
            return match parse_mag(rest, 0, false) {
                Some(v) => Some(-v),
                None => None,
            };
        }
        if c == '+' {
            let rest = s.substring_char(1, n);
            proof {
                assert(rest@ =~= s@.drop_first());
            }
            return parse_mag(rest, 0, false);
        }
    }
    parse_mag(s, 0, false)
}

/// The decimal digits of a nonnegative integer, most significant first.
pub open spec fn spec_uint_str(n: int) -> Seq<char>
    decreases n,
{
    if n < 10 {
        seq![digit_char(n)]
    } else {
        spec_uint_str(n / 10) + seq![digit_char(n % 10)]
    }
}

/// `n` rendered in exactly `w` digits, zero padded (modulo `10^w`).
pub open spec fn spec_padded(n: int, w: nat) -> Seq<char>
    decreases w,
{
    if w == 0 {
        Seq::empty()
    } else {
        spec_padded(n / 10, (w - 1) as nat) + seq![digit_char(n % 10)]
    }
}

fn push_digit(s: &mut String, d: u64)
    requires
        d < 10,
    ensures
        final(s)@ == old(s)@ + seq![digit_char(d as int)],
{
    if d == 0 {
        s.append("0");
        proof { reveal_strlit("0"); assert(s@ =~= old(s)@ + seq![digit_char(d as int)]); }
    } else if d == 1 {
        s.append("1");
        proof { reveal_strlit("1"); assert(s@ =~= old(s)@ + seq![digit_char(d as int)]); }
    } else if d == 2 {
        s.append("2");
        proof { reveal_strlit("2"); assert(s@ =~= old(s)@ + seq![digit_char(d as int)]); }
    } else if d == 3 {
        s.append("3");
        proof { reveal_strlit("3"); assert(s@ =~= old(s)@ + seq![digit_char(d as int)]); }
    } else if d == 4 {
        s.append("4");
        proof { reveal_strlit("4"); assert(s@ =~= old(s)@ + seq![digit_char(d as int)]); }
    } else if d == 5 {
        s.append("5");
        proof { reveal_strlit("5"); assert(s@ =~= old(s)@ + seq![digit_char(d as int)]); }
    } else if d == 6 {
        s.append("6");
        proof { reveal_strlit("6"); assert(s@ =~= old(s)@ + seq![digit_char(d as int)]); }
    } else if d == 7 {
        s.append("7");
        proof { reveal_strlit("7"); assert(s@ =~= old(s)@ + seq![digit_char(d as int)]); }
    } else if d == 8 {
        s.append("8");
        proof { reveal_strlit("8"); assert(s@ =~= old(s)@ + seq![digit_char(d as int)]); }
    } else {
        s.append("9");
        proof { reveal_strlit("9"); assert(s@ =~= old(s)@ + seq![digit_char(d as int)]); }
    }
}

/// Appends the decimal digits of `n`.
pub fn push_uint(s: &mut String, n: u64)
    ensures
        final(s)@ == old(s)@ + spec_uint_str(n as int),
    decreases n,
{
    if n >= 10 {
        push_uint(s, n / 10);
        push_digit(s, n % 10);
        proof {
            assert(s@ =~= old(s)@ + spec_uint_str(n as int));
        }
    } else {
        push_digit(s, n);
    }
}

/// Appends `n` zero padded to `w` digits.
pub fn push_padded(s: &mut String, n: u64, w: u64)
    ensures
        final(s)@ == old(s)@ + spec_padded(n as int, w as nat),
    decreases w,
{
    if w > 0 {
        push_padded(s, n / 10, w - 1);
        push_digit(s, n % 10);
        proof {
            assert(s@ =~= old(s)@ + spec_padded(n as int, w as nat));
        }
    } else {
        proof {
            assert(s@ =~= old(s)@ + spec_padded(n as int, 0));
        }
    }
}

/// Appends the decimal digits of a wide nonnegative integer.
pub fn push_uint_u128(s: &mut String, n: u128)
    ensures
        final(s)@ == old(s)@ + spec_uint_str(n as int),
    decreases n,
{
    if n >= 10 {
        push_uint_u128(s, n / 10);
        push_digit(s, (n % 10) as u64);
        proof {
            assert(s@ =~= old(s)@ + spec_uint_str(n as int));
        }
    } else {
        push_digit(s, n as u64);
    }
}

/// Half-away-from-zero rounding of the rational `n / d` to an integer.
pub open spec fn spec_round_half(n: int, d: int) -> int {
    if n >= 0 {
        (n + d / 2) / d
    } else {
        -((-n + d / 2) / d)
    }
}

/// Rounds `n / d` half away from zero.
pub fn round_half_i128(n: i128, d: i128) -> (r: i128)
    requires
        d > 0,
        i128::MIN + d < n < i128::MAX - d,
    ensures
        r as int == spec_round_half(n as int, d as int),
{
    if n >= 0 {
        let num: i128 = n + d / 2;
        num / d
    } else {
        let m: i128 = -n;
        let num: i128 = m + d / 2;
        -(num / d)
    }
}

/// A fixed-point price value rendered to two decimals with the locale's
/// separator: rounding half away from zero from the converted scale, then
/// sign, whole units, separator, two hundredth digits.
pub open spec fn spec_fixed2(v: int, sep: Seq<char>) -> Seq<char> {
    let h = spec_round_half(v, 10_000_000_000_000);
    if h < 0 {
        seq!['-'] + spec_uint_str(-h / 100) + sep + spec_padded(-h % 100, 2)
    } else {
        spec_uint_str(h / 100) + sep + spec_padded(h % 100, 2)
    }
}

/// Renders a converted-scale value to two decimals, as [`spec_fixed2`]
/// states.
pub fn format_fixed2(v: i128, sep: &str) -> (r: String)
    requires
        -10_000_000_000_000_000_000_000_000_000_000_000_000 < v
            < 10_000_000_000_000_000_000_000_000_000_000_000_000,
    ensures
        r@ == spec_fixed2(v as int, sep@),
{
    let h = round_half_i128(v, 10_000_000_000_000);
    proof {
        if v < 0 {
            vstd::arithmetic::div_mod::lemma_div_nonincreasing(
                -(v as int) + 5_000_000_000_000,
                10_000_000_000_000,
            );
            vstd::arithmetic::div_mod::lemma_div_pos_is_pos(
                -(v as int) + 5_000_000_000_000,
                10_000_000_000_000,
            );
        } else {
            vstd::arithmetic::div_mod::lemma_div_nonincreasing(
                v as int + 5_000_000_000_000,
                10_000_000_000_000,
            );
            vstd::arithmetic::div_mod::lemma_div_pos_is_pos(
                v as int + 5_000_000_000_000,
                10_000_000_000_000,
            );
        }
    }
    let mut s = String::new();
    if h < 0 {
        s.append("-");
        proof {
            reveal_strlit("-");
        }
        let m: i128 = -h;
        proof {
            vstd::arithmetic::div_mod::lemma_div_pos_is_pos(m as int, 100);
            vstd::arithmetic::div_mod::lemma_fundamental_div_mod(m as int, 100);
            vstd::arithmetic::div_mod::lemma_mod_division_less_than_divisor(m as int, 100);
        }
        push_uint_u128(&mut s, (m / 100) as u128);
        s.append(sep);
        push_padded(&mut s, (m % 100) as u64, 2);
        proof {
            assert(s@ =~= spec_fixed2(v as int, sep@));
        }
    } else {
        proof {
            vstd::arithmetic::div_mod::lemma_div_pos_is_pos(h as int, 100);
            vstd::arithmetic::div_mod::lemma_fundamental_div_mod(h as int, 100);
            vstd::arithmetic::div_mod::lemma_mod_division_less_than_divisor(h as int, 100);
        }
        push_uint_u128(&mut s, (h / 100) as u128);
        s.append(sep);
        push_padded(&mut s, (h % 100) as u64, 2);
        proof {
            assert(s@ =~= spec_fixed2(v as int, sep@));
        }
    }
    s
}

/// A nonnegative tenths value rendered to one decimal with the locale's
/// separator: whole part, separator, one tenth digit.
pub open spec fn spec_fixed1(v: int, sep: Seq<char>) -> Seq<char> {
    spec_uint_str(v / 10) + sep + spec_padded(v % 10, 1)
}

/// Renders a tenths value to one decimal, as [`spec_fixed1`] states.
pub fn format_fixed1(v: i64, sep: &str) -> (r: String)
    requires
        0 <= v,
    ensures
        r@ == spec_fixed1(v as int, sep@),
{
    let mut s = String::new();
    push_uint_u128(&mut s, (v / 10) as u128);
    s.append(sep);
    push_padded(&mut s, (v % 10) as u64, 1);
    proof {
        assert(s@ =~= spec_fixed1(v as int, sep@));
    }
    s
}

} // verus!
