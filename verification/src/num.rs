//! Decimal numerals: parsing of unsigned integers and of fixed-point
//! decimals into thousandths ("milli" units), and the inverse formatting
//! into minimal decimal strings.
//!
//! Durations, frame rates, speed multipliers and percentages are all
//! carried as milli units (one unit is a thousandth), so a token such as
//! `2.5` parses to `2500` and formats back to `2.5`.

use vstd::prelude::*;

verus! {

use vstd::string::StrSliceExecFns;
use vstd::string::StringExecFns;
use crate::text::first_char_from;
use crate::text::find_char_from;

/// Is `c` a decimal digit?
pub open spec fn is_digit_char(c: char) -> bool {
    '0' <= c && c <= '9'
}

/// Numeric value of a digit character.
pub open spec fn digit_val(c: char) -> int {
    c as int - 48
}

/// Every character of `s` is a decimal digit.
pub open spec fn all_digits(s: Seq<char>) -> bool {
    forall|i: int| 0 <= i < s.len() ==> is_digit_char(#[trigger] s[i])
}

/// The integer a digit string denotes (most significant digit first).
pub open spec fn digits_val(s: Seq<char>) -> int
    decreases s.len(),
{
    if s.len() == 0 {
        0
    } else {
        digits_val(s.drop_last()) * 10 + digit_val(s.last())
    }
}

/// What `"…".parse::<u64>()` yields on a plain digit string: the value,
/// unless the string is empty, holds a non-digit, or exceeds `u64::MAX`.
pub open spec fn parse_u64_spec(s: Seq<char>) -> Option<u64> {
    if s.len() > 0 && all_digits(s) && digits_val(s) <= u64::MAX {
        Some(digits_val(s) as u64)
    } else {
        None
    }
}

/// As `parse_u64_spec`, against the `u32` bound.
pub open spec fn parse_u32_spec(s: Seq<char>) -> Option<u32> {
    if s.len() > 0 && all_digits(s) && digits_val(s) <= u32::MAX {
        Some(digits_val(s) as u32)
    } else {
        None
    }
}

/// `s` denotes an 8-bit unsigned integer: an optional leading `+`,
/// then at least one digit, value at most 255.
pub open spec fn u8_numeral(s: Seq<char>) -> bool {
    let t = if s.len() > 0 && s[0] == '+' {
        s.subrange(1, s.len() as int)
    } else {
        s
    };
    t.len() > 0 && all_digits(t) && digits_val(t) <= 255
}

proof fn lemma_digits_val_nonneg(s: Seq<char>)
    requires
        all_digits(s),
    ensures
        digits_val(s) >= 0,
    decreases s.len(),
{
    if s.len() > 0 {
        assert(all_digits(s.drop_last())) by {
            assert(forall|i: int|
                0 <= i < s.len() - 1 ==> s.drop_last()[i] == #[trigger] s[i]);
        }
        lemma_digits_val_nonneg(s.drop_last());
    }
}

/// A digit string is worth at least any of its prefixes.
proof fn lemma_digits_val_prefix_le(s: Seq<char>, k: int)
    requires
        all_digits(s),
        0 <= k <= s.len(),
    ensures
        digits_val(s.subrange(0, k)) <= digits_val(s),
    decreases s.len() - k,
{
    if k == s.len() {
        assert(s.subrange(0, k) =~= s);
    } else {
        lemma_digits_val_prefix_le(s, k + 1);
        let p = s.subrange(0, k);
        let q = s.subrange(0, k + 1);
        assert(q.drop_last() =~= p);
        assert(all_digits(p));
        lemma_digits_val_nonneg(p);
        assert(digits_val(q) == digits_val(p) * 10 + digit_val(s[k]));
    }
}

/// Parse the digits of `s` between `from` and `to` as a `u64`.
pub fn parse_u64_range(s: &str, from: usize, to: usize) -> (r: Option<u64>)
    requires
        from <= to <= s@.len(),
    ensures
        r == parse_u64_spec(s@.subrange(from as int, to as int)),
{
    let ghost sub = s@.subrange(from as int, to as int);
    if from == to {
        return None;
    }
    let mut acc: u64 = 0;
    let mut i: usize = from;
    while i < to
        invariant
            from <= i <= to <= s@.len(),
            sub == s@.subrange(from as int, to as int),
            all_digits(sub.subrange(0, i - from)),
            acc == digits_val(sub.subrange(0, i - from)),
        decreases to - i,
    {
        let c = s.get_char(i);
        assert(sub[i - from] == c);
        if c < '0' || c > '9' {
            assert(!all_digits(sub));
            return None;
        }
        let d: u64 = (c as u32 as u64) - 48;
        let wide: u128 = (acc as u128) * 10 + (d as u128);
        proof {
            let p = sub.subrange(0, i - from);
            let q = sub.subrange(0, i + 1 - from);
            assert(q.drop_last() =~= p);
            assert(digits_val(q) == acc * 10 + d);
        }
        if wide > u64::MAX as u128 {
            proof {
                if all_digits(sub) {
                    lemma_digits_val_prefix_le(sub, i + 1 - from);
                }
            }
            return None;
        }
        acc = wide as u64;
        i += 1;
    }
    proof {
        assert(sub.subrange(0, to - from) =~= sub);
    }
    Some(acc)
}

/// Parse all of `s` as a `u64` digit string.
pub fn parse_u64(s: &str) -> (r: Option<u64>)
    ensures
        r == parse_u64_spec(s@),
{
    let n = s.unicode_len();
    let r = parse_u64_range(s, 0, n);
    proof {
        assert(s@.subrange(0, n as int) =~= s@);
    }
    r
}

/// Parse all of `s` as a `u32` digit string.
pub fn parse_u32(s: &str) -> (r: Option<u32>)
    ensures
        r == parse_u32_spec(s@),
{
    proof {
        if s@.len() > 0 && all_digits(s@) {
            lemma_digits_val_nonneg(s@);
        }
    }
    match parse_u64(s) {
        Some(v) => {
            if v <= u32::MAX as u64 {
                Some(v as u32)
            } else {
                None
            }
        },
        None => {
            proof {
                if s@.len() > 0 && all_digits(s@) {
                    // the value must exceed u64::MAX, so also u32::MAX
                    lemma_digits_val_nonneg(s@);
                }
            }
            None
        },
    }
}

/// Does `s` denote an 8-bit unsigned integer, as `parse::<u8>` accepts?
#[verifier::loop_isolation(false)]
pub fn is_u8_numeral(s: &str) -> (r: bool)
    ensures
        r == u8_numeral(s@),
{
    let n = s.unicode_len();
    let start: usize = if n > 0 && s.get_char(0) == '+' {
        1
    } else {
        0
    };
    let ghost t = if s@.len() > 0 && s@[0] == '+' {
        s@.subrange(1, s@.len() as int)
    } else {
        s@
    };
    assert(t.len() == n - start);
    assert(forall|j: int| 0 <= j < t.len() ==> t[j] == s@[j + start]);
    if start == n {
        return false;
    }
    let mut acc: u64 = 0;
    let mut i: usize = start;
    while i < n
        invariant
            start <= i <= n,
            n == s@.len(),
            t.len() == n - start,
            forall|j: int| 0 <= j < t.len() ==> t[j] == s@[j + start],
            all_digits(t.subrange(0, i - start)),
            digits_val(t.subrange(0, i - start)) <= 255 ==> acc == digits_val(
                t.subrange(0, i - start),
            ),
            digits_val(t.subrange(0, i - start)) > 255 ==> acc > 255,
            acc <= 2569,
        decreases n - i,
    {
        let c = s.get_char(i);
        assert(t[i - start] == c);
        if c < '0' || c > '9' {
            assert(!all_digits(t));
            return false;
        }
        let d: u64 = (c as u32 as u64) - 48;
        proof {
            let p = t.subrange(0, i - start);
            let q = t.subrange(0, i + 1 - start);
            assert(q.drop_last() =~= p);
            assert(digits_val(q) == digits_val(p) * 10 + d);
            lemma_digits_val_nonneg(p);
        }
        acc = if acc > 255 {
            256
        } else {
            acc * 10 + d
        };
        i += 1;
    }
    proof {
        assert(t.subrange(0, n - start) =~= t);
    }
    acc <= 255
}

/// The milli value of up to three leading fraction digits: `5` is five
/// tenths, `05` five hundredths, and digits past the third are dropped.
pub open spec fn frac_milli(f: Seq<char>) -> int {
    if f.len() == 0 {
        0
    } else if f.len() == 1 {
        digit_val(f[0]) * 100
    } else if f.len() == 2 {
        digit_val(f[0]) * 100 + digit_val(f[1]) * 10
    } else {
        digit_val(f[0]) * 100 + digit_val(f[1]) * 10 + digit_val(f[2])
    }
}

/// What an unsigned decimal token (`D*[.D*]`, at least one digit in all)
/// denotes in milli units, fraction truncated to thousandths.
pub open spec fn parse_milli_spec(s: Seq<char>) -> Option<u64> {
    match first_char_from(s, '.', 0) {
        None => if s.len() > 0 && all_digits(s) && digits_val(s) * 1000 <= u64::MAX {
            Some((digits_val(s) * 1000) as u64)
        } else {
            None
        },
        Some(i) => {
            let ip = s.subrange(0, i);
            let fp = s.subrange(i + 1, s.len() as int);
            if ip.len() + fp.len() > 0 && all_digits(ip) && all_digits(fp) && digits_val(ip)
                * 1000 + frac_milli(fp) <= u64::MAX {
                Some((digits_val(ip) * 1000 + frac_milli(fp)) as u64)
            } else {
                None
            }
        },
    }
}

/// Parse an unsigned decimal token into milli units.
#[verifier::loop_isolation(false)]
pub fn parse_milli(s: &str) -> (r: Option<u64>)
    ensures
        r == parse_milli_spec(s@),
{
    let n = s.unicode_len();
    match find_char_from(s, '.', 0) {
        None => {
            proof {
                if s@.len() > 0 && all_digits(s@) {
                    lemma_digits_val_nonneg(s@);
                }
            }
            match parse_u64(s) {
                Some(v) => {
                    let wide: u128 = (v as u128) * 1000;
                    if wide <= u64::MAX as u128 {
                        Some(wide as u64)
                    } else {
                        None
                    }
                },
                None => None,
            }
        },
        Some(i) => {
            let ghost ip = s@.subrange(0, i as int);
            let ghost fp = s@.subrange(i + 1, s@.len() as int);
            proof {
                if all_digits(ip) {
                    lemma_digits_val_nonneg(ip);
                }
                if all_digits(fp) {
                    assert(fp.len() > 0 ==> is_digit_char(fp[0]));
                    assert(fp.len() > 1 ==> is_digit_char(fp[1]));
                    assert(fp.len() > 2 ==> is_digit_char(fp[2]));
                }
            }
            // integer part
            let iv: u64 = if i == 0 {
                0
            } else {
                match parse_u64_range(s, 0, i) {
                    Some(v) => v,
                    None => {
                        return None;
                    },
                }
            };
            // fraction part must be all digits
            let mut j: usize = i + 1;
            while j < n
                invariant
                    i < j <= n,
                    all_digits(fp.subrange(0, j - i - 1)),
                decreases n - j,
            {
                let c = s.get_char(j);
                assert(fp[j - i - 1] == c);
                if c < '0' || c > '9' {
                    assert(!all_digits(fp));
                    return None;
                }
                j += 1;
            }
            proof {
                assert(fp.subrange(0, n - i - 1) =~= fp);
            }
            if i == 0 && i + 1 == n {
                return None;
            }
            // milli value of the first fraction digits
            let fl = n - (i + 1);
            let mut fm: u64 = 0;
            if fl >= 1 {
                let c1 = s.get_char(i + 1);
                assert(fp[0] == c1);
                fm = fm + (c1 as u32 as u64 - 48) * 100;
            }
            if fl >= 2 {
                let c2 = s.get_char(i + 2);
                assert(fp[1] == c2);
                fm = fm + (c2 as u32 as u64 - 48) * 10;
            }
            if fl >= 3 {
                let c3 = s.get_char(i + 3);
                assert(fp[2] == c3);
                fm = fm + (c3 as u32 as u64 - 48);
            }
            assert(fm == frac_milli(fp));
            let wide: u128 = (iv as u128) * 1000 + (fm as u128);
            if wide <= u64::MAX as u128 {
                Some(wide as u64)
            } else {
                None
            }
        },
    }
}

/// The digit character for value `d` (zero through nine).
pub open spec fn digit_char(d: int) -> char {
    ((48 + d) as u8) as char
}

/// The decimal numeral of `n`, most significant digit first.
pub open spec fn u64_digits(n: int) -> Seq<char>
    decreases n,
{
    if n < 10 {
        seq![digit_char(if n < 0 { 0 } else { n })]
    } else {
        u64_digits(n / 10) + seq![digit_char(n % 10)]
    }
}

fn digit_str(d: u64) -> (r: &'static str)
    requires
        d < 10,
    ensures
        r@ =~= seq![digit_char(d as int)],
{
    if d == 0 {
        proof { reveal_strlit("0"); }
        "0"
    } else if d == 1 {
        proof { reveal_strlit("1"); }
        "1"
    } else if d == 2 {
        proof { reveal_strlit("2"); }
        "2"
    } else if d == 3 {
        proof { reveal_strlit("3"); }
        "3"
    } else if d == 4 {
        proof { reveal_strlit("4"); }
        "4"
    } else if d == 5 {
        proof { reveal_strlit("5"); }
        "5"
    } else if d == 6 {
        proof { reveal_strlit("6"); }
        "6"
    } else if d == 7 {
        proof { reveal_strlit("7"); }
        "7"
    } else if d == 8 {
        proof { reveal_strlit("8"); }
        "8"
    } else {
        proof { reveal_strlit("9"); }
        "9"
    }
}

/// The digit characters named by `v` read back to front.
spec fn chars_of_rev_digits(v: Seq<u64>) -> Seq<char> {
    Seq::new(v.len(), |k: int| digit_char(v[v.len() - 1 - k] as int))
}

/// Format `n` as its decimal numeral.
pub fn u64_to_string(n: u64) -> (r: String)
    ensures
        r@ == u64_digits(n as int),
{
    let mut v: Vec<u64> = Vec::new();
    let mut m: u64 = n;
    v.push(m % 10);
    m = m / 10;
    proof {
        if m == 0 {
            assert(u64_digits(n as int) =~= chars_of_rev_digits(v@));
        } else {
            assert(u64_digits(n as int) =~= u64_digits(m as int) + chars_of_rev_digits(v@));
        }
    }
    while m > 0
        invariant
            v.len() >= 1,
            forall|k: int| 0 <= k < v.len() ==> #[trigger] v@[k] < 10,
            m > 0 ==> u64_digits(n as int) == u64_digits(m as int) + chars_of_rev_digits(v@),
            m == 0 ==> u64_digits(n as int) == chars_of_rev_digits(v@),
        decreases m,
    {
        let d = m % 10;
        let ghost oldv = v@;
        v.push(d);
        let m2 = m / 10;
        proof {
            assert(chars_of_rev_digits(v@) =~= seq![digit_char(d as int)] + chars_of_rev_digits(
                oldv,
            ));
            if m2 == 0 {
                assert(u64_digits(m as int) =~= seq![digit_char(d as int)]);
                assert(u64_digits(n as int) =~= chars_of_rev_digits(v@));
            } else {
                assert(u64_digits(m as int) =~= u64_digits(m2 as int) + seq![
                    digit_char(d as int),
                ]);
                assert(u64_digits(n as int) =~= u64_digits(m2 as int) + chars_of_rev_digits(v@));
            }
        }
        m = m2;
    }
    let mut r = String::new();
    let mut k: usize = v.len();
    while k > 0
        invariant
            k <= v.len(),
            forall|j: int| 0 <= j < v.len() ==> #[trigger] v@[j] < 10,
            u64_digits(n as int) == chars_of_rev_digits(v@),
            r@ == chars_of_rev_digits(v@).subrange(0, v.len() - k),
        decreases k,
    {
        k = k - 1;
        let ghost oldr = r@;
        r.append(digit_str(v[k]));
        proof {
            assert(r@ =~= chars_of_rev_digits(v@).subrange(0, v.len() - k)) by {
                assert(chars_of_rev_digits(v@)[v.len() - 1 - k] == digit_char(
                    v@[k as int] as int,
                ));
                assert(r@ =~= oldr + seq![digit_char(v@[k as int] as int)]);
            }
        }
    }
    proof {
        assert(chars_of_rev_digits(v@).subrange(0, v.len() as int) =~= chars_of_rev_digits(v@));
    }
    r
}

/// The minimal decimal numeral of a milli value: no fraction when it is
/// whole, otherwise one to three fraction digits without trailing zeros.
/// `2000` reads `2`, `2500` reads `2.5`, `2005` reads `2.005`.
pub open spec fn milli_str(m: int) -> Seq<char> {
    let whole = u64_digits(m / 1000);
    let f = m % 1000;
    if f == 0 {
        whole
    } else if f % 100 == 0 {
        whole + seq!['.', digit_char(f / 100)]
    } else if f % 10 == 0 {
        whole + seq!['.', digit_char(f / 100), digit_char((f / 10) % 10)]
    } else {
        whole + seq!['.', digit_char(f / 100), digit_char((f / 10) % 10), digit_char(f % 10)]
    }
}

/// Format a milli value as its minimal decimal numeral.
pub fn format_milli(m: u64) -> (r: String)
    ensures
        r@ == milli_str(m as int),
{
    let mut r = u64_to_string(m / 1000);
    let f = m % 1000;
    if f == 0 {
        return r;
    }
    proof {
        reveal_strlit(".");
    }
    r.append(".");
    r.append(digit_str(f / 100));
    if f % 100 == 0 {
        assert(r@ =~= milli_str(m as int));
        return r;
    }
    r.append(digit_str((f / 10) % 10));
    if f % 10 == 0 {
        assert(r@ =~= milli_str(m as int));
        return r;
    }
    r.append(digit_str(f % 10));
    assert(r@ =~= milli_str(m as int));
    r
}

} // verus!
