//! Decimal text: parsing of signed integers and fixed-point decimals, and
//! rendering of integers, all proved against a model over `Seq<char>`.

use vstd::prelude::*;
use vstd::string::*;

verus! {

pub open spec fn is_digit(c: char) -> bool {
    '0' <= c && c <= '9'
}

pub open spec fn digit_value(c: char) -> int {
    c as int - '0' as int
}

pub open spec fn all_digits(s: Seq<char>) -> bool {
    forall|i: int| 0 <= i < s.len() ==> is_digit(#[trigger] s[i])
}

/// The number that the digits `s` add to an accumulator `acc` read first.
pub open spec fn digits_from(acc: int, s: Seq<char>) -> int
    decreases s.len(),
{
    if s.len() == 0 {
        acc
    } else {
        10 * digits_from(acc, s.drop_last()) + digit_value(s.last())
    }
}

/// The number written by the decimal digits `s` (0 for no digits).
pub open spec fn digits_value(s: Seq<char>) -> int {
    digits_from(0, s)
}

pub open spec fn has_sign(s: Seq<char>) -> bool {
    s.len() > 0 && (s[0] == '-' || s[0] == '+')
}

pub open spec fn is_negative(s: Seq<char>) -> bool {
    s.len() > 0 && s[0] == '-'
}

/// The text after an optional leading sign.
pub open spec fn unsigned_part(s: Seq<char>) -> Seq<char> {
    if has_sign(s) {
        s.drop_first()
    } else {
        s
    }
}

pub open spec fn apply_sign(negative: bool, v: int) -> int {
    if negative {
        -v
    } else {
        v
    }
}

/// An optional sign followed by one or more decimal digits, and its value.
pub open spec fn integer_value(s: Seq<char>) -> Option<int> {
    let b = unsigned_part(s);
    if b.len() > 0 && all_digits(b) {
        Some(apply_sign(is_negative(s), digits_value(b)))
    } else {
        None
    }
}

/// A fixed-point number: `mantissa / 10^scale`.
#[derive(Clone, Copy, Debug, PartialEq, Eq, Structural)]
pub struct Decimal {
    pub mantissa: i64,
    pub scale: usize,
}

/// `b` has a point at `k` with digits alone on either side.
pub open spec fn point_at(b: Seq<char>, k: int) -> bool {
    0 <= k < b.len() && b[k] == '.' && all_digits(b.take(k)) && all_digits(b.skip(k + 1))
}

/// The digits before and after the point of an unsigned decimal body, if it
/// is digits with at most one point.
pub open spec fn decimal_split(b: Seq<char>) -> Option<(Seq<char>, Seq<char>)> {
    if all_digits(b) {
        Some((b, Seq::empty()))
    } else if exists|k: int| point_at(b, k) {
        let k = choose|k: int| point_at(b, k);
        Some((b.take(k), b.skip(k + 1)))
    } else {
        None
    }
}

/// An optional sign, then digits with at most one point and at least one
/// digit (`12`, `-0.5`, `7.`, `.25`); its value as mantissa and scale.
pub open spec fn decimal_value(s: Seq<char>) -> Option<(int, nat)> {
    match decimal_split(unsigned_part(s)) {
        Some((w, f)) => if w.len() + f.len() > 0 {
            Some((apply_sign(is_negative(s), digits_value(w + f)), f.len()))
        } else {
            None
        },
        None => None,
    }
}

pub proof fn lemma_digits_from_ge(acc: int, s: Seq<char>)
    requires
        acc >= 0,
        all_digits(s),
    ensures
        digits_from(acc, s) >= acc,
    decreases s.len(),
{
    if s.len() > 0 {
        lemma_digits_from_ge(acc, s.drop_last());
    }
}

pub proof fn lemma_digits_from_concat(acc: int, a: Seq<char>, b: Seq<char>)
    ensures
        digits_from(acc, a + b) == digits_from(digits_from(acc, a), b),
    decreases b.len(),
{
    if b.len() == 0 {
        assert(a + b =~= a);
    } else {
        assert((a + b).drop_last() =~= a + b.drop_last());
        lemma_digits_from_concat(acc, a, b.drop_last());
    }
}

/// Reading more digits never lowers the number.
pub proof fn lemma_digits_prefix_le(acc: int, s: Seq<char>, i: int)
    requires
        acc >= 0,
        all_digits(s),
        0 <= i <= s.len(),
    ensures
        0 <= digits_from(acc, s.take(i)) <= digits_from(acc, s),
{
    assert(s =~= s.take(i) + s.skip(i));
    lemma_digits_from_concat(acc, s.take(i), s.skip(i));
    lemma_digits_from_ge(acc, s.take(i));
    lemma_digits_from_ge(digits_from(acc, s.take(i)), s.skip(i));
}

/// Adds the digits `s[lo..hi]` to `acc`, failing once the number passes `cap`.
fn fold_digits(s: &str, lo: usize, hi: usize, acc: u64, cap: u64) -> (r: Option<u64>)
    requires
        lo <= hi <= s@.len(),
        all_digits(s@.subrange(lo as int, hi as int)),
        acc <= cap,
        9 <= cap,
    ensures
        r is Some <==> digits_from(acc as int, s@.subrange(lo as int, hi as int)) <= cap,
        r is Some ==> r->0 == digits_from(acc as int, s@.subrange(lo as int, hi as int)),
{
    let ghost d = s@.subrange(lo as int, hi as int);
    let mut v: u64 = acc;
    let mut i: usize = lo;
    while i < hi
        invariant
            lo <= i <= hi <= s@.len(),
            d == s@.subrange(lo as int, hi as int),
            all_digits(d),
            v <= cap,
            9 <= cap,
            v == digits_from(acc as int, d.take(i - lo)),
        decreases hi - i,
    {
        let c = s.get_char(i);
        assert(c == d[i - lo]);
        assert(is_digit(d[i - lo]));
        assert(48 <= c as u32 <= 57);
        let dv: u64 = (c as u32 - '0' as u32) as u64;
        assert(dv <= 9);
        assert(d.take(i - lo + 1).drop_last() =~= d.take(i - lo));
        if v > (cap - dv) / 10 {
            proof {
                lemma_digits_prefix_le(acc as int, d, i - lo + 1);
            }
            return None;
        }
        v = v * 10 + dv;
        i = i + 1;
    }
    assert(d.take(i - lo) =~= d);
    Some(v)
}

/// Scans `s[lo..]` for the first character that is not a digit.
fn first_non_digit(s: &str, lo: usize, n: usize) -> (k: usize)
    requires
        n == s@.len(),
        lo <= n,
    ensures
        lo <= k <= n,
        all_digits(s@.subrange(lo as int, k as int)),
        k < n ==> !is_digit(s@[k as int]),
{
    let mut k: usize = lo;
    while k < n
        invariant
            lo <= k <= n,
            n == s@.len(),
            all_digits(s@.subrange(lo as int, k as int)),
        decreases n - k,
    {
        let c = s.get_char(k);
        if !('0' <= c && c <= '9') {
            return k;
        }
        assert(s@.subrange(lo as int, k + 1) =~= s@.subrange(lo as int, k as int).push(c));
        k = k + 1;
    }
    k
}

/// Parses an optional sign and one or more digits, accepting values in
/// `min..=max`.
pub fn parse_integer(s: &str, min: i64, max: i64) -> (r: Option<i64>)
    ensures
        r is Some <==> (integer_value(s@) is Some && min <= integer_value(s@)->0 <= max),
        r is Some ==> r->0 == integer_value(s@)->0,
{
    let n = s.unicode_len();
    let negative = n > 0 && s.get_char(0) == '-';
    let start: usize = if n > 0 && (s.get_char(0) == '-' || s.get_char(0) == '+') { 1 } else { 0 };
    let ghost b = unsigned_part(s@);
    assert(b =~= s@.subrange(start as int, n as int));
    if start == n {
        return None;
    }
    let k = first_non_digit(s, start, n);
    if k < n {
        assert(b[k - start] == s@[k as int]);
        return None;
    }
    let cap: u64 = 0x8000_0000_0000_0000;
    match fold_digits(s, start, n, 0, cap) {
        None => None,
        Some(m) => {
            if !negative && m == cap {
                return None;
            }
            let v: i64 = if negative {
                if m == cap { i64::MIN } else { -(m as i64) }
            } else {
                m as i64
            };
            if min <= v && v <= max {
                Some(v)
            } else {
                None
            }
        },
    }
}

/// Finds, in the unsigned body `s[start..]`, the end of the whole digits
/// and the start of the fraction digits (`s@.len()` where there is no point).
fn split_decimal(s: &str, start: usize, n: usize) -> (r: Option<(usize, usize)>)
    requires
        n == s@.len(),
        start <= n,
    ensures
        r is None <==> decimal_split(s@.subrange(start as int, n as int)) is None,
        r is Some ==> ({
            let (k, fs) = r->0;
            &&& start <= k <= fs <= n
            &&& decimal_split(s@.subrange(start as int, n as int)) == Some(
                (s@.subrange(start as int, k as int), s@.subrange(fs as int, n as int)),
            )
            &&& (k == n ==> fs == n)
        }),
{
    let ghost b = s@.subrange(start as int, n as int);
    let k = first_non_digit(s, start, n);
    if k == n {
        assert(s@.subrange(start as int, k as int) =~= b);
        assert(s@.subrange(n as int, n as int) =~= Seq::<char>::empty());
        return Some((k, n));
    }
    let ghost kk: int = k - start;
    assert(b[kk] == s@[k as int]);
    assert(!all_digits(b)) by {
        assert(!is_digit(b[kk]));
    }
    if s.get_char(k) != '.' {
        assert forall|j: int| !point_at(b, j) by {
            if point_at(b, j) {
                if j < kk {
                    assert(b.take(j)[j] == b[j]);
                } else if j > kk {
                    assert(b.take(j)[kk] == b[kk]);
                }
            }
        }
        return None;
    }
    let e = first_non_digit(s, k + 1, n);
    if e < n {
        assert forall|j: int| !point_at(b, j) by {
            if point_at(b, j) {
                if j < kk {
                    assert(b.take(j)[j] == b[j]);
                } else if j > kk {
                    assert(b.take(j)[kk] == b[kk]);
                } else {
                    assert(b.skip(j + 1)[e - k - 1] == s@[e as int]);
                }
            }
        }
        return None;
    }
    assert(b.take(kk) =~= s@.subrange(start as int, k as int));
    assert(b.skip(kk + 1) =~= s@.subrange(k + 1, n as int));
    assert(point_at(b, kk));
    proof {
        let j = choose|j: int| point_at(b, j);
        if j < kk {
            assert(b.take(kk)[j] == b[j]);
        } else if j > kk {
            assert(b.take(j)[kk] == b[kk]);
        }
    }
    Some((k, k + 1))
}

/// Parses an optional sign and digits with at most one point into a
/// fixed-point value; fails where the digits pass `i64::MAX`.
pub fn parse_decimal(s: &str) -> (r: Option<Decimal>)
    ensures
        r is Some <==> (decimal_value(s@) is Some && (decimal_value(s@)->0).0 <= i64::MAX
            && (decimal_value(s@)->0).0 >= -i64::MAX),
        r is Some ==> (r->0.mantissa == (decimal_value(s@)->0).0 && r->0.scale
            == (decimal_value(s@)->0).1),
{
    let n = s.unicode_len();
    let negative = n > 0 && s.get_char(0) == '-';
    let start: usize = if n > 0 && (s.get_char(0) == '-' || s.get_char(0) == '+') { 1 } else { 0 };
    let ghost b = unsigned_part(s@);
    assert(b =~= s@.subrange(start as int, n as int));
    let cap: u64 = 0x7fff_ffff_ffff_ffff;
    match split_decimal(s, start, n) {
        None => None,
        Some((k, frac_start)) => {
            let ghost w = s@.subrange(start as int, k as int);
            let ghost f = s@.subrange(frac_start as int, n as int);
            if k == start && frac_start == n {
                return None;
            }
            proof {
                lemma_digits_from_concat(0, w, f);
            }
            match fold_digits(s, start, k, 0, cap) {
                None => {
                    proof {
                        lemma_digits_from_ge(digits_from(0, w), f);
                    }
                    None
                },
                Some(a) => match fold_digits(s, frac_start, n, a, cap) {
                    None => None,
                    Some(m) => {
                        let mantissa: i64 = if negative { -(m as i64) } else { m as i64 };
                        Some(Decimal { mantissa, scale: n - frac_start })
                    },
                },
            }
        },
    }
}

/// The text of one decimal digit.
pub open spec fn digit_text(d: int) -> Seq<char> {
    seq![('0' as int + d) as char]
}

/// Decimal digits of `n`, with no leading zeros.
pub open spec fn decimal_text(n: nat) -> Seq<char>
    decreases n,
{
    if n < 10 {
        digit_text(n as int)
    } else {
        decimal_text(n / 10) + digit_text((n % 10) as int)
    }
}

/// Decimal text of a signed integer, with `-` before a negative one.
pub open spec fn signed_text(v: int) -> Seq<char> {
    if v < 0 {
        seq!['-'] + decimal_text((-v) as nat)
    } else {
        decimal_text(v as nat)
    }
}

fn digit_str(d: u64) -> (r: &'static str)
    requires
        d < 10,
    ensures
        r@ == digit_text(d as int),
{
    proof {
        reveal_strlit("0");
        reveal_strlit("1");
        reveal_strlit("2");
        reveal_strlit("3");
        reveal_strlit("4");
        reveal_strlit("5");
        reveal_strlit("6");
        reveal_strlit("7");
        reveal_strlit("8");
        reveal_strlit("9");
    }
    let r = if d == 0 {
        "0"
    } else if d == 1 {
        "1"
    } else if d == 2 {
        "2"
    } else if d == 3 {
        "3"
    } else if d == 4 {
        "4"
    } else if d == 5 {
        "5"
    } else if d == 6 {
        "6"
    } else if d == 7 {
        "7"
    } else if d == 8 {
        "8"
    } else {
        "9"
    };
    assert(r@ =~= digit_text(d as int));
    r
}

/// Appends the decimal digits of `n` to `out`.
pub fn push_decimal(out: &mut String, n: u64)
    ensures
        final(out)@ == old(out)@ + decimal_text(n as nat),
    decreases n,
{
    if n >= 10 {
        push_decimal(out, n / 10);
    }
    out.append(digit_str(n % 10));
    proof {
        if n >= 10 {
            assert(old(out)@ + decimal_text(n as nat) =~= old(out)@ + decimal_text((n / 10) as nat)
                + digit_text((n % 10) as int));
        } else {
            assert(old(out)@ + decimal_text(n as nat) =~= old(out)@ + digit_text((n % 10) as int));
        }
    }
}

/// Appends the decimal text of `v` to `out`.
pub fn push_signed(out: &mut String, v: i64)
    ensures
        final(out)@ == old(out)@ + signed_text(v as int),
{
    if v < 0 {
        proof {
            reveal_strlit("-");
        }
        out.append("-");
        let m: u64 = if v == i64::MIN { 0x8000_0000_0000_0000 } else { (-v) as u64 };
        push_decimal(out, m);
        assert(final(out)@ =~= old(out)@ + signed_text(v as int));
    } else {
        push_decimal(out, v as u64);
    }
}

/// The decimal text of `n`.
pub fn decimal_string(n: u64) -> (r: String)
    ensures
        r@ == decimal_text(n as nat),
{
    let mut out = String::new();
    push_decimal(&mut out, n);
    assert(out@ =~= decimal_text(n as nat));
    out
}

/// `n` written with at least `width` digits, zeros in front.
pub open spec fn padded_text(n: nat, width: nat) -> Seq<char> {
    let t = decimal_text(n);
    if t.len() >= width {
        t
    } else {
        Seq::new((width - t.len()) as nat, |i: int| '0') + t
    }
}

/// Appends `n` to `out` with at least `width` digits, zeros in front.
pub fn push_padded(out: &mut String, n: u64, width: usize)
    ensures
        final(out)@ == old(out)@ + padded_text(n as nat, width as nat),
{
    let t = decimal_string(n);
    let len = t.as_str().unicode_len();
    let ghost start = out@;
    if len < width {
        let mut k: usize = 0;
        assert(out@ =~= start + Seq::new(0, |i: int| '0'));
        while k < width - len
            invariant
                k <= width - len,
                len < width,
                out@ == start + Seq::new(k as nat, |i: int| '0'),
            decreases width - len - k,
        {
            proof {
                reveal_strlit("0");
            }
            out.append("0");
            k = k + 1;
            assert(out@ =~= start + Seq::new(k as nat, |i: int| '0'));
        }
    }
    out.append(t.as_str());
    assert(final(out)@ =~= old(out)@ + padded_text(n as nat, width as nat));
}

} // verus!
