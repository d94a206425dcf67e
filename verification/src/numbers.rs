//! Reading numbers written in attribute values: decimal integers as `str::parse` reads them,
//! hexadecimal RGB colors, point sizes in hundredths, and which texts read as floating-point
//! numbers.

use vstd::prelude::*;

use crate::text::{all_digits, ascii_upper, chars_of, decimal_value, digit_value, eq_ignore_ascii_case, is_digit, upper};
use crate::utility::{find_char, first_index_of, lemma_decimal_nonneg};

verus! {

/// The digits of an unsigned number after an optional leading `+`.
pub open spec fn unsigned_digits(s: Seq<char>) -> Seq<char> {
    if s.len() > 0 && s[0] == '+' {
        s.drop_first()
    } else {
        s
    }
}

/// The value `str::parse` reads from `s` for an unsigned integer type of unbounded width: an
/// optional `+` followed by one or more decimal digits, nothing else.
pub open spec fn std_unsigned(s: Seq<char>) -> Option<int> {
    let d = unsigned_digits(s);
    if d.len() > 0 && all_digits(d) {
        Some(decimal_value(d))
    } else {
        None
    }
}

/// The value `str::parse` reads from `s` for a signed integer type of unbounded width: an
/// optional `+` or `-` followed by one or more decimal digits, nothing else.
pub open spec fn std_signed(s: Seq<char>) -> Option<int> {
    if s.len() > 0 && s[0] == '-' {
        let d = s.drop_first();
        if d.len() > 0 && all_digits(d) {
            Some(-decimal_value(d))
        } else {
            None
        }
    } else {
        std_unsigned(s)
    }
}

/// `str::parse` for an unsigned type whose largest value is `max`.
pub open spec fn std_parse_unsigned(s: Seq<char>, max: int) -> Option<int> {
    match std_unsigned(s) {
        Some(v) => if v <= max { Some(v) } else { None },
        None => None,
    }
}

proof fn lemma_decimal_step(s: Seq<char>, i: int)
    requires
        0 <= i < s.len(),
        is_digit(s[i]),
    ensures
        decimal_value(s.take(i + 1)) == decimal_value(s.take(i)) * 10 + digit_value(s[i]),
{
    let t = s.take(i + 1);
    assert(t.len() == i + 1);
    assert(decimal_value(t) == decimal_value(t.drop_last()) * 10 + digit_value(t.last()));
    assert(t.drop_last() =~= s.take(i));
    assert(t.last() == s[i]);
}

/// Reads `cs[lo..hi]` as decimal digits: `None` when a non-digit occurs, else the value they
/// spell, or `cap` when that value is at least `cap`.
pub fn read_digits(cs: &[char], lo: usize, hi: usize, cap: u128) -> (res: Option<u128>)
    requires
        lo <= hi <= cs.len(),
        cap <= 0x1_0000_0000_0000_0000u128,
    ensures
        match res {
            Some(v) => all_digits(cs@.subrange(lo as int, hi as int)) && v == if decimal_value(
                cs@.subrange(lo as int, hi as int),
            ) < cap {
                decimal_value(cs@.subrange(lo as int, hi as int))
            } else {
                cap as int
            },
            None => !all_digits(cs@.subrange(lo as int, hi as int)),
        },
{
    let ghost s = cs@.subrange(lo as int, hi as int);
    let mut n: u128 = 0;
    let mut i: usize = lo;
    while i < hi
        invariant
            lo <= i <= hi <= cs.len(),
            cap <= 0x1_0000_0000_0000_0000u128,
            s == cs@.subrange(lo as int, hi as int),
            all_digits(s.take(i - lo)),
            decimal_value(s.take(i - lo)) >= 0,
            n == if decimal_value(s.take(i - lo)) < cap { decimal_value(s.take(i - lo)) } else { cap as int },
        decreases hi - i,
    {
        let c = cs[i];
        assert(s[i - lo] == c);
        if !('0' <= c && c <= '9') {
            assert(!is_digit(s[i - lo]));
            return None;
        }
        let d = (c as u32 - '0' as u32) as u128;
        proof {
            lemma_decimal_step(s, i - lo);
            assert(s.take(i - lo + 1) == s.take((i + 1 - lo) as int));
            assert(all_digits(s.take(i + 1 - lo))) by {
                assert forall|j: int| 0 <= j < i + 1 - lo implies #[trigger] is_digit(s.take(i + 1 - lo)[j]) by {
                    if j < i - lo {
                        assert(s.take(i + 1 - lo)[j] == s.take(i - lo)[j]);
                    }
                }
            }
        }
        if n < cap {
            n = n * 10 + d;
            if n > cap {
                n = cap;
            }
        }
        i += 1;
    }
    assert(s.take(hi - lo) =~= s);
    Some(n)
}

/// Reads `s` as `str::parse` reads an unsigned integer no greater than `max`.
pub fn parse_unsigned(s: &str, max: u64) -> (res: Option<u64>)
    ensures
        match std_parse_unsigned(s@, max as int) {
            Some(v) => res == Some(v as u64) && 0 <= v <= max,
            None => res is None,
        },
{
    proof {
        if all_digits(unsigned_digits(s@)) {
            lemma_decimal_nonneg(unsigned_digits(s@));
        }
    }
    let cs = chars_of(s);
    let lo: usize = if cs.len() > 0 && cs[0] == '+' { 1 } else { 0 };
    proof {
        assert(cs@.subrange(lo as int, cs.len() as int) =~= unsigned_digits(s@));
    }
    if lo == cs.len() {
        return None;
    }
    let cap: u128 = max as u128 + 1;
    match read_digits(&cs, lo, cs.len(), cap) {
        Some(v) => if v <= max as u128 {
            Some(v as u64)
        } else {
            None
        },
        None => None,
    }
}

/// `str::parse` for a signed type with the given bounds.
pub open spec fn std_parse_signed(s: Seq<char>, min: int, max: int) -> Option<int> {
    match std_signed(s) {
        Some(v) => if min <= v <= max { Some(v) } else { None },
        None => None,
    }
}

/// Reads `s` as `str::parse::<i16>` does.
pub fn parse_i16(s: &str) -> (res: Option<i16>)
    ensures
        match std_parse_signed(s@, i16::MIN as int, i16::MAX as int) {
            Some(v) => res == Some(v as i16),
            None => res is None,
        },
{
    let cs = chars_of(s);
    if cs.len() > 0 && cs[0] == '-' {
        if cs.len() == 1 {
            return None;
        }
        assert(cs@.subrange(1, cs.len() as int) =~= s@.drop_first());
        proof {
            if all_digits(s@.drop_first()) {
                lemma_decimal_nonneg(s@.drop_first());
            }
        }
        match read_digits(&cs, 1, cs.len(), 32769) {
            Some(v) => if v <= 32768 {
                Some((0 - v as i32) as i16)
            } else {
                None
            },
            None => None,
        }
    } else {
        proof {
            if all_digits(unsigned_digits(s@)) {
                lemma_decimal_nonneg(unsigned_digits(s@));
            }
        }
        match parse_unsigned(s, 32767) {
            Some(v) => Some(v as i16),
            None => None,
        }
    }
}

/// Reads `s` as `str::parse::<i32>` does.
pub fn parse_i32(s: &str) -> (res: Option<i32>)
    ensures
        match std_parse_signed(s@, i32::MIN as int, i32::MAX as int) {
            Some(v) => res == Some(v as i32),
            None => res is None,
        },
{
    let cs = chars_of(s);
    if cs.len() > 0 && cs[0] == '-' {
        if cs.len() == 1 {
            return None;
        }
        assert(cs@.subrange(1, cs.len() as int) =~= s@.drop_first());
        proof {
            if all_digits(s@.drop_first()) {
                lemma_decimal_nonneg(s@.drop_first());
            }
        }
        match read_digits(&cs, 1, cs.len(), 2147483649) {
            Some(v) => if v <= 2147483648 {
                Some((0 - v as i64) as i32)
            } else {
                None
            },
            None => None,
        }
    } else {
        proof {
            if all_digits(unsigned_digits(s@)) {
                lemma_decimal_nonneg(unsigned_digits(s@));
            }
        }
        match parse_unsigned(s, 2147483647) {
            Some(v) => Some(v as i32),
            None => None,
        }
    }
}

/// Reads `s` as `str::parse::<i64>` does.
pub fn parse_i64(s: &str) -> (res: Option<i64>)
    ensures
        match std_parse_signed(s@, i64::MIN as int, i64::MAX as int) {
            Some(v) => res == Some(v as i64),
            None => res is None,
        },
{
    let cs = chars_of(s);
    if cs.len() > 0 && cs[0] == '-' {
        if cs.len() == 1 {
            return None;
        }
        assert(cs@.subrange(1, cs.len() as int) =~= s@.drop_first());
        proof {
            if all_digits(s@.drop_first()) {
                lemma_decimal_nonneg(s@.drop_first());
            }
        }
        match read_digits(&cs, 1, cs.len(), 9223372036854775809) {
            Some(v) => if v <= 9223372036854775808 {
                Some((0 - v as i128) as i64)
            } else {
                None
            },
            None => None,
        }
    } else {
        proof {
            if all_digits(unsigned_digits(s@)) {
                lemma_decimal_nonneg(unsigned_digits(s@));
            }
        }
        match parse_unsigned(s, 9223372036854775807) {
            Some(v) => Some(v as i64),
            None => None,
        }
    }
}

/// The value of a hexadecimal digit, or -1.
pub open spec fn hex_value(b: u8) -> int {
    if 48 <= b <= 57 {
        b - 48
    } else if 97 <= b <= 102 {
        b - 87
    } else if 65 <= b <= 70 {
        b - 55
    } else {
        -1
    }
}

/// How `u8::from_str_radix(_, 16)` reads two bytes: an optional `+` and one digit, or two digits.
pub open spec fn hex_pair(a: u8, b: u8) -> Option<u8> {
    if a == 43 {
        if hex_value(b) >= 0 { Some(hex_value(b) as u8) } else { None }
    } else if hex_value(a) >= 0 && hex_value(b) >= 0 {
        Some((hex_value(a) * 16 + hex_value(b)) as u8)
    } else {
        None
    }
}

/// The six bytes of an `rgb` value that hold the color: bytes 2 to 8 of an eight-byte or longer
/// value (after the alpha channel), else the first six.
pub open spec fn rgb_bytes(b: Seq<u8>) -> Option<Seq<u8>> {
    if b.len() >= 8 {
        Some(b.subrange(2, 8))
    } else if b.len() >= 6 {
        Some(b.subrange(0, 6))
    } else {
        None
    }
}

/// The color an `rgb` attribute value gives: each channel read from two of its color bytes, the
/// alpha channel skipped; none when a channel does not read.
pub open spec fn spec_parse_rgb(b: Seq<u8>) -> Option<[u8; 3]> {
    match rgb_bytes(b) {
        Some(h) => match (hex_pair(h[0], h[1]), hex_pair(h[2], h[3]), hex_pair(h[4], h[5])) {
            (Some(r), Some(g), Some(bl)) => Some([r, g, bl]),
            _ => None,
        },
        None => None,
    }
}

fn hex_value_of(b: u8) -> (res: i16)
    ensures
        res == hex_value(b),
{
    if 48 <= b && b <= 57 {
        b as i16 - 48
    } else if 97 <= b && b <= 102 {
        b as i16 - 87
    } else if 65 <= b && b <= 70 {
        b as i16 - 55
    } else {
        -1
    }
}

fn read_hex_pair(a: u8, b: u8) -> (res: Option<u8>)
    ensures
        res == hex_pair(a, b),
{
    let hb = hex_value_of(b);
    if a == 43 {
        if hb >= 0 { Some(hb as u8) } else { None }
    } else {
        let ha = hex_value_of(a);
        if ha >= 0 && hb >= 0 {
            Some((ha * 16 + hb) as u8)
        } else {
            None
        }
    }
}

/// Parse an RGB color from the `rgb` attribute value (`FF000000` → `[0, 0, 0]`): the first two
/// (alpha) hex digits of an eight-digit value are skipped. A value whose six color bytes are not
/// all ASCII gives no color.
pub fn parse_rgb_color(val: &[u8]) -> (res: Option<[u8; 3]>)
    ensures
        res == spec_parse_rgb(val@),
{
    let off: usize = if val.len() >= 8 {
        2
    } else if val.len() >= 6 {
        0
    } else {
        return None;
    };
    let ghost h = val@.subrange(off as int, off + 6);
    assert(rgb_bytes(val@) == Some(h));
    let r = read_hex_pair(val[off], val[off + 1]);
    let g = read_hex_pair(val[off + 2], val[off + 3]);
    let b = read_hex_pair(val[off + 4], val[off + 5]);
    assert(h[0] == val@[off as int] && h[1] == val@[off + 1] && h[2] == val@[off + 2]);
    assert(h[3] == val@[off + 3] && h[4] == val@[off + 4] && h[5] == val@[off + 5]);
    match (r, g, b) {
        (Some(r), Some(g), Some(b)) => Some([r, g, b]),
        _ => None,
    }
}

/// The first two fractional digits of a decimal number, as hundredths.
pub open spec fn hundredths(frac: Seq<char>) -> int {
    (if frac.len() >= 1 { digit_value(frac[0]) * 10 } else { 0 }) + (if frac.len() >= 2 {
        digit_value(frac[1])
    } else {
        0
    })
}

/// A point size written as a decimal number (`11`, `10.5`, an optional sign), in hundredths of a
/// point: digits past the second decimal place are dropped, a negative size is 0, a size beyond
/// the range is the largest value. `None` for anything else.
pub open spec fn spec_size_x100(s: Seq<char>) -> Option<u32> {
    let neg = s.len() > 0 && s[0] == '-';
    let body = if s.len() > 0 && (s[0] == '+' || s[0] == '-') { s.drop_first() } else { s };
    let k = first_index_of(body, '.');
    let int_part = if k >= 0 { body.take(k) } else { body };
    let frac = if k >= 0 { body.skip(k + 1) } else { Seq::<char>::empty() };
    if (int_part.len() == 0 && frac.len() == 0) || !all_digits(int_part) || !all_digits(frac) {
        None
    } else {
        let v = decimal_value(int_part) * 100 + hundredths(frac);
        Some(
            if neg {
                0u32
            } else if v > u32::MAX {
                u32::MAX
            } else {
                v as u32
            },
        )
    }
}

/// Reads a point size into hundredths of a point, as [`spec_size_x100`] describes.
pub fn parse_size_x100(s: &str) -> (res: Option<u32>)
    ensures
        res == spec_size_x100(s@),
{
    let cs = chars_of(s);
    let neg = cs.len() > 0 && cs[0] == '-';
    let lo: usize = if cs.len() > 0 && (cs[0] == '+' || cs[0] == '-') { 1 } else { 0 };
    let ghost body = if s@.len() > 0 && (s@[0] == '+' || s@[0] == '-') {
        s@.drop_first()
    } else {
        s@
    };
    assert(cs@.subrange(lo as int, cs.len() as int) =~= body);
    let rest = crate::utility::sub_chars(&cs, lo, cs.len());
    assert(rest@ =~= body);
    let (int_end, frac_start) = match find_char(&rest, '.') {
        Some(k) => (k, k + 1),
        None => (rest.len(), rest.len()),
    };
    let ghost k = first_index_of(body, '.');
    assert(rest@.subrange(0, int_end as int) =~= (if k >= 0 { body.take(k) } else { body }));
    assert(rest@.subrange(frac_start as int, rest.len() as int) =~= (if k >= 0 {
        body.skip(k + 1)
    } else {
        Seq::<char>::empty()
    }));
    if int_end == 0 && frac_start == rest.len() {
        return None;
    }
    let int_value = match read_digits(&rest, 0, int_end, 42949673) {
        Some(v) => v,
        None => return None,
    };
    let frac_len = rest.len() - frac_start;
    let frac_ok = read_digits(&rest, frac_start, rest.len(), 1);
    if frac_ok.is_none() {
        return None;
    }
    let ghost frac = rest@.subrange(frac_start as int, rest.len() as int);
    let tenths: u128 = if frac_len >= 1 {
        assert(is_digit(frac[0]));
        (rest[frac_start] as u32 - '0' as u32) as u128 * 10
    } else {
        0
    };
    let hundred: u128 = if frac_len >= 2 {
        assert(is_digit(frac[1]));
        (rest[frac_start + 1] as u32 - '0' as u32) as u128
    } else {
        0
    };
    if neg {
        return Some(0);
    }
    proof {
        lemma_decimal_nonneg(rest@.subrange(0, int_end as int));
    }
    let v: u128 = int_value * 100 + tenths + hundred;
    if v > u32::MAX as u128 {
        Some(u32::MAX)
    } else {
        Some(v as u32)
    }
}

} // verus!

verus! {

/// Where the run of decimal digits that starts at `i` ends.
pub open spec fn digits_end(s: Seq<char>, i: int) -> int
    decreases s.len() - i,
{
    if 0 <= i < s.len() && is_digit(s[i]) {
        digits_end(s, i + 1)
    } else {
        i
    }
}

/// Whether `s` from `i` on is empty or an exponent: `e` or `E`, an optional sign and at least
/// one digit, up to the end.
pub open spec fn exponent_from(s: Seq<char>, i: int) -> bool {
    ||| i == s.len()
    ||| {
        &&& 0 <= i < s.len()
        &&& (s[i] == 'e' || s[i] == 'E')
        &&& {
            let j = if i + 1 < s.len() && (s[i + 1] == '+' || s[i + 1] == '-') {
                i + 2
            } else {
                i + 1
            };
            j < s.len() && digits_end(s, j) == s.len()
        }
    }
}

/// Whether `s` from `i` on is a decimal number: digits, an optional `.` and more digits (at
/// least one digit in all), then an optional exponent.
pub open spec fn decimal_from(s: Seq<char>, i: int) -> bool {
    let a = digits_end(s, i);
    if a < s.len() && s[a] == '.' {
        let b = digits_end(s, a + 1);
        (a > i || b > a + 1) && exponent_from(s, b)
    } else {
        a > i && exponent_from(s, a)
    }
}

/// Whether `str::parse::<f64>` accepts `s`: an optional sign, then `inf`, `infinity` or `nan`
/// in any case, or a decimal number.
pub open spec fn float_syntax(s: Seq<char>) -> bool {
    let i: int = if s.len() > 0 && (s[0] == '+' || s[0] == '-') {
        1
    } else {
        0
    };
    let w = s.skip(i);
    ||| eq_ignore_ascii_case(w, "inf"@)
    ||| eq_ignore_ascii_case(w, "infinity"@)
    ||| eq_ignore_ascii_case(w, "nan"@)
    ||| decimal_from(s, i)
}

fn digits_end_at(cs: &[char], i: usize) -> (res: usize)
    requires
        i <= cs.len(),
    ensures
        res as int == digits_end(cs@, i as int),
        i <= res <= cs.len(),
{
    let mut j = i;
    while j < cs.len() && '0' <= cs[j] && cs[j] <= '9'
        invariant
            i <= j <= cs.len(),
            digits_end(cs@, i as int) == digits_end(cs@, j as int),
        decreases cs.len() - j,
    {
        j += 1;
    }
    j
}

fn exponent_at(cs: &[char], i: usize) -> (res: bool)
    requires
        i <= cs.len(),
    ensures
        res == exponent_from(cs@, i as int),
{
    if i == cs.len() {
        return true;
    }
    if cs[i] != 'e' && cs[i] != 'E' {
        return false;
    }
    let j = if i + 1 < cs.len() && (cs[i + 1] == '+' || cs[i + 1] == '-') {
        i + 2
    } else {
        i + 1
    };
    j < cs.len() && digits_end_at(cs, j) == cs.len()
}

fn decimal_at(cs: &[char], i: usize) -> (res: bool)
    requires
        i <= cs.len(),
    ensures
        res == decimal_from(cs@, i as int),
{
    let a = digits_end_at(cs, i);
    if a < cs.len() && cs[a] == '.' {
        let b = digits_end_at(cs, a + 1);
        (a > i || b > a + 1) && exponent_at(cs, b)
    } else {
        a > i && exponent_at(cs, a)
    }
}

fn tail_is_word(cs: &[char], i: usize, w: &str) -> (res: bool)
    requires
        i <= cs.len(),
    ensures
        res == eq_ignore_ascii_case(cs@.skip(i as int), w@),
{
    let wc = chars_of(w);
    if cs.len() - i != wc.len() {
        return false;
    }
    let mut k: usize = 0;
    while k < wc.len()
        invariant
            0 <= k <= wc.len(),
            i + wc.len() == cs.len(),
            wc@ == w@,
            forall|m: int| 0 <= m < k ==> #[trigger] ascii_upper(cs@.skip(i as int)[m]) == ascii_upper(wc@[m]),
        decreases wc.len() - k,
    {
        if upper(cs[i + k]) != upper(wc[k]) {
            assert(ascii_upper(cs@.skip(i as int)[k as int]) != ascii_upper(wc@[k as int]));
            return false;
        }
        k += 1;
    }
    true
}

/// Whether `str::parse::<f64>` accepts `s`.
pub fn reads_as_float(s: &str) -> (res: bool)
    ensures
        res == float_syntax(s@),
{
    proof {
        reveal_strlit("inf");
        reveal_strlit("infinity");
        reveal_strlit("nan");
    }
    let cs = chars_of(s);
    let i: usize = if cs.len() > 0 && (cs[0] == '+' || cs[0] == '-') {
        1
    } else {
        0
    };
    tail_is_word(cs.as_slice(), i, "inf") || tail_is_word(cs.as_slice(), i, "infinity") || tail_is_word(
        cs.as_slice(),
        i,
        "nan",
    ) || decimal_at(cs.as_slice(), i)
}

} // verus!
