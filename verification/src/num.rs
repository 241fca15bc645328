//! Fixed-point decimal numbers for the running-distance totals.
//!
//! A quantity is held as a signed count of thousandths (milli-units), so the
//! accumulator's arithmetic is exact. Text in and out of the store uses plain
//! decimal notation: an optional sign, up to thirteen integer digits, and an
//! optional fraction of one to three digits.

use vstd::prelude::*;
use vstd::string::StrSliceExecFns;

verus! {

/// Largest magnitude, in milli-units, a running total may hold.
pub const TOTAL_CAP_MILLI: i64 = 1_000_000_000_000_000;

pub open spec fn is_digit(c: char) -> bool {
    '0' <= c <= '9'
}

pub open spec fn digit_val(c: char) -> int {
    c as int - 48
}

pub open spec fn all_digits(s: Seq<char>) -> bool {
    forall|i: int| 0 <= i < s.len() ==> is_digit(#[trigger] s[i])
}

/// Value of a digit string read left to right.
pub open spec fn digits_val(s: Seq<char>) -> int
    decreases s,
{
    if s.len() == 0 {
        0
    } else {
        digits_val(s.drop_last()) * 10 + digit_val(s.last())
    }
}

pub open spec fn pow10(k: nat) -> int
    decreases k,
{
    if k == 0 {
        1
    } else {
        10 * pow10((k - 1) as nat)
    }
}

/// How many leading characters of `s` are decimal digits.
pub open spec fn digits_prefix_len(s: Seq<char>) -> int
    decreases s,
{
    if s.len() == 0 || !is_digit(s[0]) {
        0
    } else {
        1 + digits_prefix_len(s.drop_first())
    }
}

/// Milli-unit value of a fraction written with one to three digits.
pub open spec fn frac_milli(f: Seq<char>) -> int {
    digits_val(f) * pow10((3 - f.len()) as nat)
}

/// The unsigned part of the grammar: either all digits, or digits, a dot and
/// one to three fraction digits. At most thirteen integer digits are read, so
/// every accepted value fits comfortably in an `i64`.
pub open spec fn parse_unsigned_milli(b: Seq<char>) -> Option<int> {
    let k = digits_prefix_len(b);
    if 1 <= k <= 13 {
        if k == b.len() {
            Some(digits_val(b) * 1000)
        } else if b[k] == '.' && all_digits(b.skip(k + 1)) && 1 <= b.len() - k - 1 <= 3 {
            Some(digits_val(b.take(k)) * 1000 + frac_milli(b.skip(k + 1)))
        } else {
            None
        }
    } else {
        None
    }
}

/// What a piece of text means as a milli-unit quantity: an optional sign
/// followed by the unsigned grammar, or nothing.
pub open spec fn parse_milli(s: Seq<char>) -> Option<int> {
    if s.len() > 0 && (s[0] == '-' || s[0] == '+') {
        match parse_unsigned_milli(s.skip(1)) {
            Some(v) => Some(if s[0] == '-' { -v } else { v }),
            None => None,
        }
    } else {
        parse_unsigned_milli(s)
    }
}

/// A digit string's value is bounded by a power of ten in its length.
pub proof fn lemma_digits_val_bound(s: Seq<char>)
    requires
        all_digits(s),
    ensures
        0 <= digits_val(s) < pow10(s.len()),
    decreases s,
{
    if s.len() > 0 {
        assert(all_digits(s.drop_last())) by {
            assert(forall|i: int| 0 <= i < s.len() - 1 ==> s.drop_last()[i] == s[i]);
        }
        lemma_digits_val_bound(s.drop_last());
        assert(is_digit(s.last()));
    }
}

pub open spec fn digit_char(d: int) -> char {
    ((48 + d) as u8) as char
}

/// Decimal digits of a non-negative number, most significant first.
pub open spec fn dec_digits(n: int) -> Seq<char>
    recommends
        n >= 0,
    decreases n,
{
    if n < 10 {
        seq![digit_char(n)]
    } else {
        dec_digits(n / 10) + seq![digit_char(n % 10)]
    }
}

/// A fraction of a unit, in milli-units, written with trailing zeros trimmed.
pub open spec fn frac_digits(fr: int) -> Seq<char>
    recommends
        1 <= fr <= 999,
{
    if fr % 10 != 0 {
        seq![digit_char(fr / 100), digit_char((fr / 10) % 10), digit_char(fr % 10)]
    } else if fr % 100 != 0 {
        seq![digit_char(fr / 100), digit_char((fr / 10) % 10)]
    } else {
        seq![digit_char(fr / 100)]
    }
}

/// How a milli-unit quantity is written: a sign where negative, the whole
/// units, and the non-zero fraction after a dot.
pub open spec fn fmt_milli(n: int) -> Seq<char> {
    let a = if n < 0 {
        -n
    } else {
        n
    };
    let sign: Seq<char> = if n < 0 {
        seq!['-']
    } else {
        Seq::empty()
    };
    if a % 1000 == 0 {
        sign + dec_digits(a / 1000)
    } else {
        sign + dec_digits(a / 1000) + seq!['.'] + frac_digits(a % 1000)
    }
}

/// The digit prefix is never negative nor longer than the text.
pub proof fn lemma_digits_prefix_len_in_range(s: Seq<char>)
    ensures
        0 <= digits_prefix_len(s) <= s.len(),
    decreases s,
{
    if s.len() > 0 && is_digit(s[0]) {
        lemma_digits_prefix_len_in_range(s.drop_first());
    }
}

/// A prefix made of digits bounds `digits_prefix_len` from below.
pub proof fn lemma_digits_prefix_len_at_least(s: Seq<char>, m: int)
    requires
        0 <= m <= s.len(),
        forall|j: int| 0 <= j < m ==> is_digit(#[trigger] s[j]),
    ensures
        digits_prefix_len(s) >= m,
    decreases s,
{
    lemma_digits_prefix_len_in_range(s);
    if m > 0 {
        assert(is_digit(s[0]));
        assert(forall|j: int| 0 <= j < m - 1 ==> is_digit(#[trigger] s.drop_first()[j]));
        lemma_digits_prefix_len_at_least(s.drop_first(), m - 1);
    }
}

/// `digits_prefix_len` is pinned down by a digit prefix that a non-digit (or
/// the end of the text) closes.
pub proof fn lemma_digits_prefix_len_exact(s: Seq<char>, k: int)
    requires
        0 <= k <= s.len(),
        forall|j: int| 0 <= j < k ==> is_digit(#[trigger] s[j]),
        k == s.len() || !is_digit(s[k]),
    ensures
        digits_prefix_len(s) == k,
    decreases s,
{
    if s.len() == 0 || !is_digit(s[0]) {
        assert(k == 0);
    } else {
        assert(forall|j: int| 0 <= j < k - 1 ==> is_digit(#[trigger] s.drop_first()[j]));
        lemma_digits_prefix_len_exact(s.drop_first(), k - 1);
    }
}

pub proof fn lemma_pow10_pos(k: nat)
    ensures
        pow10(k) >= 1,
    decreases k,
{
    if k > 0 {
        lemma_pow10_pos((k - 1) as nat);
    }
}

pub proof fn lemma_pow10_monotone(k: nat, m: nat)
    requires
        k <= m,
    ensures
        pow10(k) <= pow10(m),
    decreases m,
{
    if k < m {
        lemma_pow10_monotone(k, (m - 1) as nat);
        lemma_pow10_pos((m - 1) as nat);
    }
}

/// Reading one more digit multiplies the prefix value by ten and adds it.
pub proof fn lemma_digits_val_step(s: Seq<char>, i: int)
    requires
        0 <= i < s.len(),
    ensures
        digits_val(s.take(i + 1)) == digits_val(s.take(i)) * 10 + digit_val(s[i]),
{
    assert(s.take(i + 1).drop_last() =~= s.take(i));
    assert(s.take(i + 1).last() == s[i]);
}

/// Parses decimal text as a milli-unit quantity, exactly as `parse_milli`
/// reads it; every accepted value fits in an `i64`.
#[verifier::loop_isolation(false)]
#[verifier::rlimit(60)]
pub fn parse_milli_text(s: &str) -> (r: Option<i64>)
    ensures
        r matches Some(v) ==> parse_milli(s@) == Some(v as int) && -10_000_000_000_000_000 < v
            < 10_000_000_000_000_000,
        r is None ==> parse_milli(s@) is None,
{
    let n = s.unicode_len();
    let mut idx: usize = 0;
    let mut neg = false;
    if n > 0 {
        let c0 = s.get_char(0);
        if c0 == '-' || c0 == '+' {
            neg = c0 == '-';
            idx = 1;
        }
    }
    let start = idx;
    let ghost b = s@.skip(start as int);
    proof {
        assert(s@.skip(0int) =~= s@);
    }
    // Integer digits.
    let mut acc: i64 = 0;
    let mut stop = false;
    while idx < n && !stop
        invariant
            start <= idx <= n,
            idx - start <= 13,
            forall|j: int| 0 <= j < idx - start ==> is_digit(#[trigger] b[j]),
            acc == digits_val(b.take(idx - start)),
            0 <= acc < pow10((idx - start) as nat),
            stop ==> idx < n && !is_digit(b[idx - start]),
        decreases n - idx + (if stop { 0int } else { 1int }),
    {
        let c = s.get_char(idx);
        assert(b[idx - start] == c);
        let cv = c as u32;
        if cv < 48 || cv > 57 {
            stop = true;
        } else {
            if idx - start == 13 {
                // A fourteenth digit: the grammar reads at most thirteen.
                proof {
                    lemma_digits_prefix_len_at_least(b, 14);
                }
                return None;
            }
            let d = (cv - 48) as i64;
            proof {
                lemma_pow10_monotone((idx - start) as nat, 13);
                assert(pow10(13) == 10_000_000_000_000) by {
                    reveal_with_fuel(pow10, 14);
                }
                lemma_digits_val_step(b, idx - start);
                assert(b.take(idx - start + 1).drop_last() =~= b.take(idx - start));
                lemma_digits_val_bound(b.take(idx - start + 1));
            }
            acc = acc * 10 + d;
            idx = idx + 1;
        }
    }
    let k = idx - start;
    proof {
        lemma_digits_prefix_len_exact(b, k as int);
        assert(all_digits(b.take(k as int)));
    }
    if k == 0 {
        return None;
    }
    if idx == n {
        proof {
            assert(b.take(k as int) =~= b);
            lemma_pow10_monotone(k as nat, 13);
            assert(pow10(13) == 10_000_000_000_000) by {
                reveal_with_fuel(pow10, 14);
            }
        }
        let v = acc * 1000;
        return Some(if neg { -v } else { v });
    }
    // A fraction must follow: a dot, then one to three digits to the end.
    let c = s.get_char(idx);
    assert(b[k as int] == c);
    if c != '.' {
        return None;
    }
    let fstart = idx + 1;
    let ghost f = b.skip(k + 1);
    assert(f =~= s@.skip(fstart as int));
    if n - fstart < 1 || n - fstart > 3 {
        return None;
    }
    let mut fi = fstart;
    let mut fval: i64 = 0;
    while fi < n
        invariant
            fstart <= fi <= n,
            n == s@.len(),
            1 <= n - fstart <= 3,
            f == s@.skip(fstart as int),
            f.len() == n - fstart,
            forall|j: int| 0 <= j < fi - fstart ==> is_digit(#[trigger] f[j]),
            fval == digits_val(f.take(fi - fstart)),
            0 <= fval < pow10((fi - fstart) as nat),
        decreases n - fi,
    {
        let c2 = s.get_char(fi);
        assert(f[fi - fstart] == c2);
        let cv = c2 as u32;
        if cv < 48 || cv > 57 {
            return None;
        }
        let d = (cv - 48) as i64;
        proof {
            assert(pow10(3) == 1000 && pow10(2) == 100 && pow10(1) == 10) by {
                reveal_with_fuel(pow10, 4);
            }
            lemma_pow10_monotone((fi - fstart) as nat, 3);
            lemma_digits_val_step(f, fi - fstart);
            assert(f.take(fi - fstart + 1).drop_last() =~= f.take(fi - fstart));
            lemma_digits_val_bound(f.take(fi - fstart + 1));
        }
        fval = fval * 10 + d;
        fi = fi + 1;
    }
    proof {
        assert(f.take(f.len() as int) =~= f);
        assert(pow10(0) == 1 && pow10(1) == 10 && pow10(2) == 100 && pow10(3) == 1000) by {
            reveal_with_fuel(pow10, 4);
        }
        lemma_pow10_monotone(k as nat, 13);
        assert(pow10(13) == 10_000_000_000_000) by {
            reveal_with_fuel(pow10, 14);
        }
    }
    let flen = n - fstart;
    let fv: i64 = if flen == 1 {
        fval * 100
    } else if flen == 2 {
        fval * 10
    } else {
        fval
    };
    assert(fv == frac_milli(f));
    let v = acc * 1000 + fv;
    assert(v == digits_val(b.take(k as int)) * 1000 + frac_milli(f));
    Some(if neg { -v } else { v })
}

/// The written digits of a number read back as that number, and their count
/// measures its size.
pub proof fn lemma_dec_digits_val(x: int)
    requires
        x >= 0,
    ensures
        all_digits(dec_digits(x)),
        digits_val(dec_digits(x)) == x,
        dec_digits(x).len() >= 1,
        x < pow10(dec_digits(x).len() as nat),
        dec_digits(x).len() == 1 || x >= pow10((dec_digits(x).len() - 1) as nat),
    decreases x,
{
    if x < 10 {
        let s1 = dec_digits(x);
        assert(s1 == seq![digit_char(x)]);
        assert(s1.len() == 1);
        assert(s1.last() == digit_char(x));
        assert(s1.drop_last() =~= Seq::<char>::empty());
        assert(digits_val(Seq::<char>::empty()) == 0);
        assert(digits_val(s1) == digits_val(s1.drop_last()) * 10 + digit_val(s1.last()));
        assert(digit_val(digit_char(x)) == x);
        assert(pow10(1) == 10) by {
            reveal_with_fuel(pow10, 2);
        }
    } else {
        lemma_dec_digits_val(x / 10);
        let d = dec_digits(x);
        let h = dec_digits(x / 10);
        assert(d == h + seq![digit_char(x % 10)]);
        assert(d.drop_last() =~= h);
        assert(d.last() == digit_char(x % 10));
        assert(forall|i: int| 0 <= i < d.len() - 1 ==> d[i] == h[i]);
        assert(is_digit(digit_char(x % 10)));
        assert(digits_val(d) == digits_val(h) * 10 + digit_val(d.last()));
        assert(digit_val(digit_char(x % 10)) == x % 10);
        assert(x < pow10(d.len() as nat));
        if h.len() == 1 {
            assert(pow10(1) == 10) by {
                reveal_with_fuel(pow10, 2);
            }
        } else {
            assert(x / 10 >= pow10((h.len() - 1) as nat));
        }
    }
}

/// The trimmed fraction digits read back as the fraction they were made from.
pub proof fn lemma_frac_digits(fr: int)
    requires
        1 <= fr <= 999,
    ensures
        all_digits(frac_digits(fr)),
        1 <= frac_digits(fr).len() <= 3,
        frac_milli(frac_digits(fr)) == fr,
{
    let d1 = digit_char(fr / 100);
    let d2 = digit_char((fr / 10) % 10);
    let d3 = digit_char(fr % 10);
    assert(pow10(0) == 1 && pow10(1) == 10 && pow10(2) == 100) by {
        reveal_with_fuel(pow10, 3);
    }
    reveal_with_fuel(digits_val, 5);
    assert(digits_val(Seq::<char>::empty()) == 0);
    assert(seq![d1].drop_last() =~= Seq::<char>::empty());
    assert(digits_val(seq![d1]) == digit_val(d1));
    assert(seq![d1, d2].drop_last() =~= seq![d1]);
    assert(digits_val(seq![d1, d2]) == digit_val(d1) * 10 + digit_val(d2));
    if fr % 10 != 0 {
        let s = seq![d1, d2, d3];
        assert(s.drop_last() =~= seq![d1, d2]);
        assert(digits_val(s) == (digit_val(d1) * 10 + digit_val(d2)) * 10 + digit_val(d3));
        assert(digits_val(s) == ((fr / 100) * 10 + (fr / 10) % 10) * 10 + fr % 10);
        assert(((fr / 100) * 10 + (fr / 10) % 10) * 10 + fr % 10 == fr);
    } else if fr % 100 != 0 {
        assert(digits_val(seq![d1, d2]) == (fr / 100) * 10 + (fr / 10) % 10);
        assert(((fr / 100) * 10 + (fr / 10) % 10) * 10 == fr);
    } else {
        assert(digits_val(seq![d1]) == fr / 100);
        assert((fr / 100) * 100 == fr);
    }
}

/// The unsigned written form of a capped quantity reads back as itself.
proof fn lemma_parse_unsigned_of_fmt(a: int)
    requires
        0 <= a <= TOTAL_CAP_MILLI,
    ensures
        parse_unsigned_milli(fmt_milli(a).skip(0)) == Some(a),
        fmt_milli(a).len() > 0,
        is_digit(fmt_milli(a)[0]),
{
    let ip = a / 1000;
    let fr = a % 1000;
    let d = dec_digits(ip);
    lemma_dec_digits_val(ip);
    assert(pow10(13) == 10_000_000_000_000) by {
        reveal_with_fuel(pow10, 14);
    }
    if d.len() > 13 {
        lemma_pow10_monotone(13, (d.len() - 1) as nat);
        assert(false);
    }
    assert(fmt_milli(a).skip(0) =~= fmt_milli(a));
    if fr == 0 {
        assert(fmt_milli(a) =~= d);
        lemma_digits_prefix_len_exact(d, d.len() as int);
        assert(parse_unsigned_milli(d) == Some(digits_val(d) * 1000));
        assert(ip * 1000 == a);
    } else {
        lemma_frac_digits(fr);
        let fd = frac_digits(fr);
        let u = fmt_milli(a);
        assert(u =~= d + seq!['.'] + fd);
        let k = d.len() as int;
        assert(forall|j: int| 0 <= j < k ==> u[j] == d[j]);
        assert(u[k] == '.');
        assert(!is_digit('.'));
        lemma_digits_prefix_len_exact(u, k);
        assert(u.take(k) =~= d);
        assert(u.skip(k + 1) =~= fd);
        assert(parse_unsigned_milli(u) == Some(digits_val(d) * 1000 + frac_milli(fd)));
        assert(ip * 1000 + fr == a);
    }
}

/// Writing a capped quantity and reading the text back gives it unchanged.
pub proof fn lemma_parse_fmt_milli(n: int)
    requires
        -TOTAL_CAP_MILLI <= n <= TOTAL_CAP_MILLI,
    ensures
        parse_milli(fmt_milli(n)) == Some(n),
{
    if n >= 0 {
        lemma_parse_unsigned_of_fmt(n);
        let u = fmt_milli(n);
        assert(u =~= Seq::empty() + u);
        assert(u.skip(0) =~= u);
        assert(!(u[0] == '-' || u[0] == '+'));
    } else {
        let a = -n;
        lemma_parse_unsigned_of_fmt(a);
        let u = fmt_milli(a);
        let s = fmt_milli(n);
        assert(s =~= seq!['-'] + u);
        assert(s[0] == '-');
        assert(s.skip(1) =~= u);
        assert(u.skip(0) =~= u);
        assert(parse_unsigned_milli(s.skip(1)) == Some(a));
    }
}

/// Writes a milli-unit quantity exactly as `fmt_milli` spells it.
pub fn fmt_milli_text(n: i64) -> (r: String)
    requires
        n > i64::MIN,
    ensures
        r@ == fmt_milli(n as int),
{
    let neg = n < 0;
    let a = if neg {
        -n
    } else {
        n
    };
    let ip = (a / 1000) as u64;
    let fr = a % 1000;
    let mut out = String::new();
    if neg {
        out.push('-');
    }
    push_decimal(&mut out, ip);
    if fr != 0 {
        out.push('.');
        let d1 = ((48 + fr / 100) as u8) as char;
        let d2 = ((48 + (fr / 10) % 10) as u8) as char;
        let d3 = ((48 + fr % 10) as u8) as char;
        if fr % 10 != 0 {
            out.push(d1);
            out.push(d2);
            out.push(d3);
        } else if fr % 100 != 0 {
            out.push(d1);
            out.push(d2);
        } else {
            out.push(d1);
        }
    }
    proof {
        assert(out@ =~= fmt_milli(n as int));
    }
    out
}

/// Appends the decimal digits of `x`, most significant first.
fn push_decimal(out: &mut String, x: u64)
    ensures
        final(out)@ == old(out)@ + dec_digits(x as int),
    decreases x,
{
    if x >= 10 {
        push_decimal(out, x / 10);
    }
    out.push((48 + (x % 10) as u8) as char);
    proof {
        assert(out@ =~= old(out)@ + dec_digits(x as int));
    }
}

} // verus!
