//! Unit-aware numeric extraction and formatting. Values carry two decimal
//! places exactly, as a whole count of hundredths, so `"142 min"` becomes
//! 14200 and `"$1,234,567"` becomes 123456700.

use crate::text::dec_spec;
use crate::text::digit_char;
use crate::text::u64_dec;
use vstd::prelude::*;

verus! {

/// A decimal digit character.
pub open spec fn is_digit(c: char) -> bool {
    48 <= c as u32 <= 57
}

/// The value of a decimal digit character.
pub open spec fn digit_val(c: char) -> nat {
    (c as u32 - 48) as nat
}

/// Whether every character is a decimal digit.
pub open spec fn all_digits(s: Seq<char>) -> bool {
    forall|i: int| 0 <= i < s.len() ==> is_digit(s[i])
}

/// The value of a digit string, most significant digit first.
pub open spec fn digits_val(s: Seq<char>) -> nat
    decreases s.len(),
{
    if s.len() == 0 {
        0
    } else {
        digits_val(s.drop_last()) * 10 + digit_val(s.last())
    }
}

/// A digit string's value only grows as digits are appended.
pub proof fn lemma_digits_val_prefix(s: Seq<char>, k: int)
    requires
        0 <= k <= s.len(),
    ensures
        digits_val(s.take(k)) <= digits_val(s),
    decreases s.len(),
{
    if k < s.len() {
        assert(s.drop_last().take(k) =~= s.take(k));
        lemma_digits_val_prefix(s.drop_last(), k);
    } else {
        assert(s.take(k) =~= s);
    }
}

/// The input with currency symbols and thousands separators removed.
pub open spec fn strip_spec(s: Seq<char>) -> Seq<char>
    decreases s.len(),
{
    if s.len() == 0 {
        Seq::empty()
    } else if s[0] == '$' || s[0] == ',' {
        strip_spec(s.skip(1))
    } else {
        seq![s[0]] + strip_spec(s.skip(1))
    }
}

/// Removes `'$'` and `','` from the text, keeping everything else in order.
pub fn strip_units(s: &str) -> (r: String)
    ensures
        r@ == strip_spec(s@),
{
    let n = s.unicode_len();
    let mut r = String::new();
    let mut i: usize = 0;
    proof {
        assert(s@.skip(0) =~= s@);
        assert(r@ + strip_spec(s@) =~= strip_spec(s@));
    }
    while i < n
        invariant
            i <= n,
            n == s@.len(),
            strip_spec(s@) == r@ + strip_spec(s@.skip(i as int)),
        decreases n - i,
    {
        let c = s.get_char(i);
        proof {
            let rest = s@.skip(i as int);
            assert(rest[0] == s@[i as int]);
            assert(rest.skip(1) =~= s@.skip(i as int + 1));
        }
        if c != '$' && c != ',' {
            let piece = s.substring_char(i, i + 1);
            proof {
                assert(piece@ =~= seq![s@[i as int]]);
            }
            let ghost prev = r@;
            r.append(piece);
            proof {
                assert(prev + strip_spec(s@.skip(i as int)) =~= r@ + strip_spec(
                    s@.skip(i as int + 1),
                ));
            }
        }
        i = i + 1;
    }
    proof {
        assert(s@.skip(n as int) =~= Seq::<char>::empty());
        assert(r@ + Seq::<char>::empty() =~= r@);
    }
    r
}

/// The position of the first occurrence of `c`, or the length if absent.
pub open spec fn idx_of(s: Seq<char>, c: char) -> nat
    decreases s.len(),
{
    if s.len() == 0 {
        0
    } else if s[0] == c {
        0
    } else {
        1 + idx_of(s.skip(1), c)
    }
}

/// What `idx_of` finds: the first occurrence, or the length when none.
pub proof fn lemma_idx_of(s: Seq<char>, c: char)
    ensures
        idx_of(s, c) <= s.len(),
        idx_of(s, c) < s.len() ==> s[idx_of(s, c) as int] == c,
        forall|j: int| 0 <= j < idx_of(s, c) ==> s[j] != c,
    decreases s.len(),
{
    if s.len() > 0 && s[0] != c {
        lemma_idx_of(s.skip(1), c);
        assert forall|j: int| 0 <= j < idx_of(s, c) implies s[j] != c by {
            if j > 0 {
                assert(s.skip(1)[j - 1] == s[j]);
            }
        }
    }
}

fn find_char(s: &str, c: char) -> (i: usize)
    ensures
        i as nat == idx_of(s@, c),
{
    let n = s.unicode_len();
    let mut i: usize = 0;
    while i < n
        invariant
            i <= n,
            n == s@.len(),
            forall|j: int| 0 <= j < i ==> s@[j] != c,
        decreases n - i,
    {
        if s.get_char(i) == c {
            proof {
                lemma_idx_of(s@, c);
                if idx_of(s@, c) < i as nat {
                    assert(s@[idx_of(s@, c) as int] == c);
                }
            }
            return i;
        }
        i = i + 1;
    }
    proof {
        lemma_idx_of(s@, c);
        if idx_of(s@, c) < n as nat {
            assert(s@[idx_of(s@, c) as int] == c);
        }
    }
    n
}

/// The first two fraction digits as hundredths; a missing second digit
/// counts as zero, further digits are dropped.
pub open spec fn frac_hundredths(s: Seq<char>) -> nat {
    if s.len() == 1 {
        digit_val(s[0]) * 10
    } else {
        digit_val(s[0]) * 10 + digit_val(s[1])
    }
}

/// Parses a bare decimal numeral into hundredths: digits, optionally a
/// point with at least one digit behind it. Values that do not fit a
/// 64-bit count of hundredths are refused.
pub open spec fn parse_scaled_spec(s: Seq<char>) -> Option<int> {
    let dot = idx_of(s, '.') as int;
    if dot == s.len() {
        if s.len() > 0 && all_digits(s) && 100 * digits_val(s) <= u64::MAX {
            Some(100 * digits_val(s) as int)
        } else {
            None
        }
    } else {
        let ip = s.take(dot);
        let fp = s.skip(dot + 1);
        if ip.len() > 0 && fp.len() > 0 && all_digits(ip) && all_digits(fp) && 100 * digits_val(ip)
            + frac_hundredths(fp) <= u64::MAX {
            Some(100 * digits_val(ip) as int + frac_hundredths(fp) as int)
        } else {
            None
        }
    }
}

fn digit_of(c: char) -> (d: u64)
    requires
        is_digit(c),
    ensures
        d as nat == digit_val(c),
{
    (c as u32 - 48) as u64
}

fn check_digits(s: &str, from: usize, to: usize) -> (r: bool)
    requires
        from <= to <= s@.len(),
    ensures
        r == all_digits(s@.subrange(from as int, to as int)),
{
    let mut i = from;
    while i < to
        invariant
            from <= i <= to <= s@.len(),
            forall|j: int| from <= j < i ==> is_digit(s@[j]),
        decreases to - i,
    {
        let c = s.get_char(i);
        if !(c as u32 >= 48 && c as u32 <= 57) {
            proof {
                assert(s@.subrange(from as int, to as int)[i - from] == s@[i as int]);
            }
            return false;
        }
        i = i + 1;
    }
    proof {
        assert forall|j: int| 0 <= j < to - from implies is_digit(
            #[trigger] s@.subrange(from as int, to as int)[j],
        ) by {
            assert(s@.subrange(from as int, to as int)[j] == s@[j + from]);
        }
    }
    true
}

fn parse_digits(s: &str, from: usize, to: usize) -> (r: Option<u64>)
    requires
        from <= to <= s@.len(),
    ensures
        ({
            let sub = s@.subrange(from as int, to as int);
            &&& r is Some <==> (all_digits(sub) && digits_val(sub) <= u64::MAX)
            &&& r is Some ==> r.unwrap() as nat == digits_val(sub)
        }),
{
    let ghost sub = s@.subrange(from as int, to as int);
    let mut val: u64 = 0;
    let mut i = from;
    proof {
        assert(sub.take(0) =~= Seq::<char>::empty());
    }
    while i < to
        invariant
            from <= i <= to <= s@.len(),
            sub == s@.subrange(from as int, to as int),
            all_digits(sub.take(i - from)),
            val as nat == digits_val(sub.take(i - from)),
        decreases to - i,
    {
        let c = s.get_char(i);
        proof {
            assert(sub[i - from] == s@[i as int]);
        }
        if !(c as u32 >= 48 && c as u32 <= 57) {
            return None;
        }
        let d = digit_of(c);
        proof {
            assert(sub.take(i - from + 1).drop_last() =~= sub.take(i - from));
            assert(sub.take(i - from + 1).last() == sub[i - from]);
        }
        let wide: u128 = (val as u128) * 10 + (d as u128);
        if wide > u64::MAX as u128 {
            proof {
                lemma_digits_val_prefix(sub, i - from + 1);
            }
            return None;
        }
        val = wide as u64;
        i = i + 1;
    }
    proof {
        assert(sub.take(to - from) =~= sub);
    }
    Some(val)
}

/// Parses a bare numeral into hundredths, exactly as `parse_scaled_spec`.
pub fn parse_scaled(s: &str) -> (r: Option<u64>)
    ensures
        r is Some <==> parse_scaled_spec(s@) is Some,
        r is Some ==> r.unwrap() as int == parse_scaled_spec(s@).unwrap(),
{
    let n = s.unicode_len();
    let dot = find_char(s, '.');
    proof {
        lemma_idx_of(s@, '.');
    }
    if dot == n {
        if n == 0 {
            return None;
        }
        proof {
            assert(s@.subrange(0, n as int) =~= s@);
        }
        match parse_digits(s, 0, n) {
            None => None,
            Some(dv) => {
                let wide: u128 = (dv as u128) * 100;
                if wide > u64::MAX as u128 {
                    None
                } else {
                    Some(wide as u64)
                }
            },
        }
    } else {
        let ghost ip = s@.take(dot as int);
        let ghost fp = s@.skip(dot as int + 1);
        if dot == 0 || dot + 1 == n {
            return None;
        }
        proof {
            assert(s@.subrange(0, dot as int) =~= ip);
            assert(s@.subrange(dot as int + 1, n as int) =~= fp);
        }
        match parse_digits(s, 0, dot) {
            None => {
                proof {
                    if all_digits(ip) {
                        // then the integer part overflows on its own
                        assert(100 * digits_val(ip) >= digits_val(ip));
                    }
                }
                None
            },
            Some(dvi) => {
                if !check_digits(s, dot + 1, n) {
                    return None;
                }
                let d0 = digit_of(s.get_char(dot + 1));
                let frac: u64 = if dot + 2 < n {
                    let d1 = digit_of(s.get_char(dot + 2));
                    d0 * 10 + d1
                } else {
                    d0 * 10
                };
                proof {
                    assert(fp[0] == s@[dot as int + 1]);
                    if fp.len() >= 2 {
                        assert(fp[1] == s@[dot as int + 2]);
                    }
                    assert(frac as nat == frac_hundredths(fp));
                }
                let wide: u128 = (dvi as u128) * 100 + (frac as u128);
                if wide > u64::MAX as u128 {
                    None
                } else {
                    Some(wide as u64)
                }
            },
        }
    }
}

/// The whole extraction: strip currency and separators, cut at the first
/// space (what follows is the unit token), parse the numeral.
pub open spec fn extract_spec(raw: Seq<char>) -> Option<int> {
    let t = strip_spec(raw);
    parse_scaled_spec(t.take(idx_of(t, ' ') as int))
}

/// Extracts the scaled numeric value of a raw field text, exactly as
/// `extract_spec`.
pub fn extract_num(raw: &str) -> (r: Option<u64>)
    ensures
        r is Some <==> extract_spec(raw@) is Some,
        r is Some ==> r.unwrap() as int == extract_spec(raw@).unwrap(),
{
    let t = strip_units(raw);
    let cut = find_char(t.as_str(), ' ');
    proof {
        lemma_idx_of(t@, ' ');
    }
    let num = t.as_str().substring_char(0, cut);
    proof {
        assert(num@ =~= t@.take(cut as int));
    }
    parse_scaled(num)
}

/// The two-decimal rendering of a count of hundredths.
pub open spec fn format_spec(v: nat) -> Seq<char> {
    dec_spec(v / 100) + seq!['.', digit_char((v % 100) / 10), digit_char(v % 10)]
}

/// Formats hundredths with exactly two decimal places.
pub fn format_scaled(v: u64) -> (r: String)
    ensures
        r@ == format_spec(v as nat),
{
    let mut s = u64_dec(v / 100);
    proof {
        reveal_strlit(".");
    }
    s.append(".");
    let tens = u64_dec((v % 100) / 10);
    s.append(tens.as_str());
    let ones = u64_dec(v % 10);
    s.append(ones.as_str());
    proof {
        assert((v as nat % 100) / 10 < 10);
        assert(v as nat % 10 < 10);
        assert(s@ =~= format_spec(v as nat));
    }
    s
}

/// Appends the unit to a formatted value, space-separated; no unit, no
/// trailing space.
pub fn format_with_unit(v: u64, unit: &str) -> (r: String)
    ensures
        unit@.len() == 0 ==> r@ == format_spec(v as nat),
        unit@.len() > 0 ==> r@ == format_spec(v as nat) + seq![' '] + unit@,
{
    let mut s = format_scaled(v);
    if !unit.is_empty() {
        proof {
            reveal_strlit(" ");
        }
        s.append(" ");
        s.append(unit);
    }
    s
}

} // verus!

