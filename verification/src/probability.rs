//! Fixed-point probabilities.
//!
//! The verification service reports each signal's probability as a decimal
//! numeral in a header, and the pipeline re-emits it rounded to two decimal
//! places. Values are held in basis points (ten-thousandths), which keeps the
//! inclusive one-half block threshold and the two-place output exact. A
//! numeral is accepted when it consists of digits with at most one point and
//! at most four integer digits; digits beyond the fourth fractional place are
//! ignored, which cannot move a value across the block threshold.

use vstd::prelude::*;
use vstd::string::{StrSliceExecFns, StringExecFns};

verus! {

/// Basis points in the inclusive block threshold of one half.
pub const PROB_HALF: u32 = 5000;

pub open spec fn is_digit(c: char) -> bool {
    '0' as u32 <= c as u32 <= '9' as u32
}

pub open spec fn digit_val(c: char) -> int {
    c as u32 - '0' as u32
}

pub open spec fn all_digits(s: Seq<char>) -> bool {
    forall|i: int| 0 <= i < s.len() ==> is_digit(#[trigger] s[i])
}

/// Numeric value of a digit string, most significant digit first.
pub open spec fn digits_val(s: Seq<char>) -> int
    decreases s.len(),
{
    if s.len() == 0 {
        0
    } else {
        digits_val(s.drop_last()) * 10 + digit_val(s.last())
    }
}

pub open spec fn pow10(k: nat) -> int
    decreases k,
{
    if k == 0 {
        1
    } else {
        10 * pow10((k - 1) as nat)
    }
}

pub proof fn lemma_digits_val_bound(s: Seq<char>)
    requires
        all_digits(s),
    ensures
        0 <= digits_val(s) < pow10(s.len()),
    decreases s.len(),
{
    if s.len() > 0 {
        assert(all_digits(s.drop_last()));
        lemma_digits_val_bound(s.drop_last());
    }
}

pub proof fn lemma_pow10_pos(k: nat)
    ensures
        pow10(k) >= 1,
    decreases k,
{
    if k > 0 {
        lemma_pow10_pos((k - 1) as nat);
    }
}

pub proof fn lemma_pow10_mono(a: nat, b: nat)
    requires
        a <= b,
    ensures
        pow10(a) <= pow10(b),
    decreases b,
{
    if a < b {
        lemma_pow10_mono(a, (b - 1) as nat);
        lemma_pow10_pos((b - 1) as nat);
    }
}

/// Position of the first decimal point at or after `i`.
pub open spec fn dot_pos(s: Seq<char>, i: int) -> Option<int>
    decreases s.len() - i + 1,
{
    if !(0 <= i < s.len()) {
        None
    } else if s[i] == '.' {
        Some(i)
    } else {
        dot_pos(s, i + 1)
    }
}

pub proof fn lemma_dot_pos(s: Seq<char>, i: int)
    requires
        0 <= i,
    ensures
        dot_pos(s, i) is Some ==> {
            let d = dot_pos(s, i)->0;
            &&& i <= d < s.len()
            &&& s[d] == '.'
            &&& forall|j: int| i <= j < d ==> s[j] != '.'
        },
        dot_pos(s, i) is None ==> forall|j: int| i <= j < s.len() ==> s[j] != '.',
    decreases s.len() - i + 1,
{
    if 0 <= i < s.len() && s[i] != '.' {
        lemma_dot_pos(s, i + 1);
    }
}

/// The integer-part digits of a numeral: everything before the first point.
pub open spec fn int_part(s: Seq<char>) -> Seq<char> {
    match dot_pos(s, 0) {
        Some(d) => s.subrange(0, d),
        None => s,
    }
}

/// The fraction digits of a numeral: everything after the first point.
pub open spec fn frac_part(s: Seq<char>) -> Seq<char> {
    match dot_pos(s, 0) {
        Some(d) => s.subrange(d + 1, s.len() as int),
        None => Seq::empty(),
    }
}

/// A numeral this module accepts: digits around at most one point, at least
/// one digit in all, and at most four integer digits.
pub open spec fn valid_numeral(s: Seq<char>) -> bool {
    &&& all_digits(int_part(s))
    &&& all_digits(frac_part(s))
    &&& int_part(s).len() + frac_part(s).len() > 0
    &&& int_part(s).len() <= 4
}

/// Basis points contributed by the fraction digits; places beyond the fourth
/// are ignored.
pub open spec fn frac_bp(fp: Seq<char>) -> int {
    if fp.len() <= 4 {
        digits_val(fp) * pow10((4 - fp.len()) as nat)
    } else {
        digits_val(fp.subrange(0, 4))
    }
}

/// The basis-point value of an accepted numeral, or nothing.
pub open spec fn parse_prob_spec(s: Seq<char>) -> Option<u32> {
    if valid_numeral(s) {
        Some((digits_val(int_part(s)) * 10000 + frac_bp(frac_part(s))) as u32)
    } else {
        None
    }
}

/// Position of the first decimal point in `s`.
fn find_dot(s: &str) -> (r: Option<usize>)
    ensures
        r is Some <==> dot_pos(s@, 0) is Some,
        r is Some ==> dot_pos(s@, 0) == Some(r->0 as int),
{
    let len = s.unicode_len();
    let mut i: usize = 0;
    while i < len
        invariant
            len == s@.len(),
            i <= len,
            dot_pos(s@, 0) == dot_pos(s@, i as int),
        decreases len - i,
    {
        if s.get_char(i) == '.' {
            return Some(i);
        }
        assert(dot_pos(s@, i as int) == dot_pos(s@, i + 1));
        i = i + 1;
    }
    None
}

/// Reads a probability numeral into basis points.
#[verifier::loop_isolation(false)]
pub fn parse_probability(s: &str) -> (r: Option<u32>)
    ensures
        r == parse_prob_spec(s@),
{
    let len = s.unicode_len();
    let dot = find_dot(s);
    proof {
        lemma_dot_pos(s@, 0);
    }
    let (ip_len, fp_start): (usize, usize) = match dot {
        Some(d) => (d, d + 1),
        None => (len, len),
    };
    assert(int_part(s@) =~= s@.subrange(0, ip_len as int));
    assert(frac_part(s@) =~= s@.subrange(fp_start as int, len as int));

    if ip_len > 4 {
        return None;
    }
    if ip_len == 0 && fp_start >= len {
        return None;
    }

    // Integer digits.
    let ghost ip: Seq<char> = int_part(s@);
    let mut acc: u32 = 0;
    let mut k: usize = 0;
    while k < ip_len
        invariant
            len == s@.len(),
            ip_len <= 4,
            ip_len <= len,
            k <= ip_len,
            ip =~= s@.subrange(0, ip_len as int),
            all_digits(ip.subrange(0, k as int)),
            acc == digits_val(ip.subrange(0, k as int)),
            acc < 10000,
            k < ip_len ==> acc < 1000,
        decreases ip_len - k,
    {
        let c = s.get_char(k);
        let u = c as u32;
        if u < '0' as u32 || u > '9' as u32 {
            assert(!is_digit(ip[k as int]));
            return None;
        }
        acc = acc * 10 + (u - '0' as u32);
        k = k + 1;
        proof {
            assert(ip.subrange(0, k as int).drop_last() =~= ip.subrange(0, k - 1));
            lemma_digits_val_bound(ip.subrange(0, k as int));
            reveal_with_fuel(pow10, 5);
            lemma_pow10_mono(k as nat, 4);
            if k < ip_len {
                lemma_pow10_mono(k as nat, 3);
            }
        }
    }
    assert(ip.subrange(0, ip_len as int) =~= ip);
    proof {
        lemma_digits_val_bound(ip);
        lemma_pow10_mono(ip.len(), 4);
        reveal_with_fuel(pow10, 5);
    }

    // Fraction digits: validate all, accumulate the first four.
    let ghost fp: Seq<char> = frac_part(s@);
    let mut facc: u32 = 0;
    let mut count: usize = 0;
    let mut j: usize = fp_start;
    while j < len
        invariant
            len == s@.len(),
            fp_start <= j <= len,
            fp =~= s@.subrange(fp_start as int, len as int),
            count == if j - fp_start <= 4 { j - fp_start } else { 4int },
            all_digits(fp.subrange(0, j - fp_start)),
            facc == digits_val(fp.subrange(0, count as int)),
            facc < 10000,
        decreases len - j,
    {
        let c = s.get_char(j);
        let u = c as u32;
        if u < '0' as u32 || u > '9' as u32 {
            assert(!is_digit(fp[j - fp_start]));
            return None;
        }
        let took: bool = count < 4;
        if took {
            proof {
                lemma_digits_val_bound(fp.subrange(0, count as int));
                lemma_pow10_mono(count as nat, 3);
                reveal_with_fuel(pow10, 4);
            }
            facc = facc * 10 + (u - '0' as u32);
            count = count + 1;
        }
        j = j + 1;
        proof {
            assert(fp.subrange(0, j - fp_start).drop_last() =~= fp.subrange(
                0,
                j - fp_start - 1,
            ));
            if took {
                assert(fp.subrange(0, count as int).drop_last() =~= fp.subrange(0, count - 1));
            }
        }
    }
    assert(fp.subrange(0, fp.len() as int) =~= fp);

    // Scale the fraction out to four places.
    let multiplier: u32 = if count == 0 {
        10000
    } else if count == 1 {
        1000
    } else if count == 2 {
        100
    } else if count == 3 {
        10
    } else {
        1
    };
    proof {
        reveal_with_fuel(pow10, 5);
        lemma_digits_val_bound(fp.subrange(0, count as int));
        if fp.len() <= 4 {
            assert(fp.subrange(0, count as int) =~= fp);
        } else {
            assert(fp.subrange(0, count as int) =~= fp.subrange(0, 4));
        }
        assert(valid_numeral(s@));
        assert(multiplier == pow10((4 - count) as nat));
        if count == 0 {
            assert(facc == 0);
            assert(facc * multiplier <= 9999);
        } else if count == 1 {
            assert(facc <= 9);
            assert(facc * multiplier <= 9999);
        } else if count == 2 {
            assert(facc <= 99);
            assert(facc * multiplier <= 9999);
        } else if count == 3 {
            assert(facc <= 999);
            assert(facc * multiplier <= 9999);
        } else {
            assert(facc <= 9999);
            assert(facc * multiplier <= 9999);
        }
    }
    Some(acc * 10000 + facc * multiplier)
}

/// Decimal digits of `n`, most significant first.
pub open spec fn dec_digits(n: int) -> Seq<char>
    decreases n,
{
    if n < 10 {
        seq![digit_char(n)]
    } else {
        dec_digits(n / 10).push(digit_char(n % 10))
    }
}

pub open spec fn digit_char(d: int) -> char {
    if d == 0 {
        '0'
    } else if d == 1 {
        '1'
    } else if d == 2 {
        '2'
    } else if d == 3 {
        '3'
    } else if d == 4 {
        '4'
    } else if d == 5 {
        '5'
    } else if d == 6 {
        '6'
    } else if d == 7 {
        '7'
    } else if d == 8 {
        '8'
    } else {
        '9'
    }
}

/// Two decimal places, rounded half up from basis points: the hundredths.
pub open spec fn rounded_hundredths(bp: u32) -> int {
    (bp + 50) / 100
}

/// The two-place rendering of a basis-point probability: integer digits, a
/// point, then exactly two fraction digits.
pub open spec fn format_prob_spec(bp: u32) -> Seq<char> {
    let h = rounded_hundredths(bp);
    dec_digits(h / 100) + seq!['.', digit_char(h / 10 % 10), digit_char(h % 10)]
}

/// One digit as a string.
fn digit_str(d: u32) -> (r: &'static str)
    requires
        d < 10,
    ensures
        r@ =~= seq![digit_char(d as int)],
        r@.len() == 1,
{
    proof {
        reveal_strlit("0");
        reveal_strlit("1");
        reveal_strlit("2");
        reveal_strlit("3");
        reveal_strlit("4");
        reveal_strlit("5");
        reveal_strlit("6");
        reveal_strlit("7");
        reveal_strlit("8");
        reveal_strlit("9");
    }
    if d == 0 {
        "0"
    } else if d == 1 {
        "1"
    } else if d == 2 {
        "2"
    } else if d == 3 {
        "3"
    } else if d == 4 {
        "4"
    } else if d == 5 {
        "5"
    } else if d == 6 {
        "6"
    } else if d == 7 {
        "7"
    } else if d == 8 {
        "8"
    } else {
        "9"
    }
}

/// Decimal rendering of `n`.
fn u32_digits(n: u32) -> (r: String)
    ensures
        r@ == dec_digits(n as int),
    decreases n,
{
    if n < 10 {
        let s = digit_str(n);
        s.to_owned()
    } else {
        let mut r = u32_digits(n / 10);
        r.append(digit_str(n % 10));
        assert(r@ =~= dec_digits(n as int));
        r
    }
}

pub proof fn lemma_dec_digits(n: int)
    requires
        n >= 0,
    ensures
        dec_digits(n).len() >= 1,
        all_digits(dec_digits(n)),
        digits_val(dec_digits(n)) == n,
    decreases n,
{
    reveal_with_fuel(digits_val, 3);
    if n < 10 {
        assert(digit_val(digit_char(n)) == n);
        assert(is_digit(digit_char(n)));
        assert(dec_digits(n).drop_last() =~= Seq::<char>::empty());
        assert(digits_val(dec_digits(n)) == digits_val(Seq::<char>::empty()) * 10
            + digit_val(digit_char(n)));
    } else {
        lemma_dec_digits(n / 10);
        assert(dec_digits(n).drop_last() =~= dec_digits(n / 10));
        assert(dec_digits(n).last() == digit_char(n % 10));
        assert(digit_val(digit_char(n % 10)) == n % 10);
        assert(is_digit(digit_char(n % 10)));
    }
}

pub proof fn lemma_dec_digits_len(n: int, k: nat)
    requires
        k >= 1,
        0 <= n < pow10(k),
    ensures
        dec_digits(n).len() <= k,
    decreases n,
{
    reveal_with_fuel(pow10, 2);
    if n >= 10 {
        if k == 1 {
            assert(false);
        }
        assert(n < 10 * pow10((k - 1) as nat));
        lemma_dec_digits_len(n / 10, (k - 1) as nat);
    }
}

/// Dot search finds exactly a known first decimal point.
proof fn lemma_dot_pos_at(s: Seq<char>, d: int)
    requires
        0 <= d < s.len(),
        s[d] == '.',
        forall|j: int| 0 <= j < d ==> s[j] != '.',
    ensures
        dot_pos(s, 0) == Some(d),
{
    lemma_dot_pos_at_from(s, d, 0);
}

proof fn lemma_dot_pos_at_from(s: Seq<char>, d: int, i: int)
    requires
        0 <= i <= d < s.len(),
        s[d] == '.',
        forall|j: int| i <= j < d ==> s[j] != '.',
    ensures
        dot_pos(s, i) == Some(d),
    decreases d - i,
{
    if i < d {
        lemma_dot_pos_at_from(s, d, i + 1);
    }
}

/// The two-place rendering of a whole-hundredths probability reads back to
/// the same basis points.
pub proof fn lemma_prob_codec_round_trip(bp: u32)
    requires
        bp % 100 == 0,
        bp <= 99_999_999,
    ensures
        parse_prob_spec(format_prob_spec(bp)) == Some(bp),
{
    reveal_with_fuel(pow10, 5);
    let h = rounded_hundredths(bp);
    assert(h == bp / 100);
    let q = h / 100;
    let d1 = h / 10 % 10;
    let d0 = h % 10;
    let s = format_prob_spec(bp);
    lemma_dec_digits(q);
    lemma_dec_digits_len(q, 4);
    let ds = dec_digits(q);
    let dlen = ds.len() as int;
    assert(s[dlen] == '.');
    assert forall|j: int| 0 <= j < dlen implies s[j] != '.' by {
        assert(is_digit(ds[j]));
    }
    lemma_dot_pos_at(s, dlen);
    assert(int_part(s) =~= ds);
    let fp = frac_part(s);
    assert(fp =~= seq![digit_char(d1), digit_char(d0)]);
    assert(fp.drop_last() =~= seq![digit_char(d1)]);
    assert(fp.drop_last().drop_last() =~= Seq::<char>::empty());
    reveal_with_fuel(digits_val, 4);
    assert(digits_val(fp) == d1 * 10 + d0);
    assert(frac_bp(fp) == (d1 * 10 + d0) * 100);
    assert(valid_numeral(s));
    assert(h == q * 100 + d1 * 10 + d0) by {
        assert(h == (h / 100) * 100 + h % 100);
        assert(h % 100 == (h % 100) / 10 * 10 + (h % 100) % 10);
        assert((h % 100) / 10 == h / 10 % 10) by (nonlinear_arith);
        assert((h % 100) % 10 == h % 10) by (nonlinear_arith);
    }
    assert(bp == h * 100);
    assert(h * 100 == (q * 100 + d1 * 10 + d0) * 100);
    assert((q * 100 + d1 * 10 + d0) * 100 == q * 10000 + d1 * 1000 + d0 * 100)
        by (nonlinear_arith);
    assert((d1 * 10 + d0) * 100 == d1 * 1000 + d0 * 100) by (nonlinear_arith);
    assert(digits_val(int_part(s)) * 10000 + frac_bp(frac_part(s)) == bp);
}

/// Renders basis points with two decimal places, rounding half up.
pub fn format_probability(bp: u32) -> (r: String)
    ensures
        r@ == format_prob_spec(bp),
{
    let h = (((bp as u64) + 50) / 100) as u32;
    assert(h == rounded_hundredths(bp));
    let mut r = u32_digits(h / 100);
    proof {
        reveal_strlit(".");
    }
    r.append(".");
    r.append(digit_str(h / 10 % 10));
    r.append(digit_str(h % 10));
    assert(r@ =~= format_prob_spec(bp));
    r
}

} // verus!
