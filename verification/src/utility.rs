//! Cell and column references in A1 notation.

use vstd::prelude::*;

use crate::error::Error;
use crate::text::{is_unicode_whitespace, trim_start, trim_end, 
    all_digits, chars_of, decimal_digits, decimal_value, digit_value, is_alpha, is_digit, push_decimal,
    push_str, trim,
    string_from_chars, to_string,
};

verus! {

/// 0-based row index. Row 0 = Excel row 1.
pub type RowNum = u32;

/// 0-based column index. Col 0 = column A. Max 16383 (XFD).
pub type ColNum = u16;

/// The highest 0-based column index (XFD).
pub const MAX_COL: u32 = 16383;

/// The highest 0-based row index.
pub const MAX_ROW: u32 = 1_048_575;

/// The value of one column letter, `A`/`a` = 1 through `Z`/`z` = 26.
pub open spec fn letter_value(c: char) -> int {
    if 'a' <= c && c <= 'z' {
        (c as int) - ('a' as int) + 1
    } else {
        (c as int) - ('A' as int) + 1
    }
}

/// The bijective base-26 number that a run of column letters spells ("A" = 1, "AA" = 27).
pub open spec fn col_value(s: Seq<char>) -> int
    decreases s.len(),
{
    if s.len() == 0 {
        0
    } else {
        col_value(s.drop_last()) * 26 + letter_value(s.last())
    }
}

/// Every character of `s` is an ASCII letter.
pub open spec fn all_alpha(s: Seq<char>) -> bool {
    forall|i: int| 0 <= i < s.len() ==> #[trigger] is_alpha(s[i])
}

/// The 0-based column that a run of letters names, if it names one (A..XFD, either case).
pub open spec fn spec_col_from_letter(s: Seq<char>) -> Option<ColNum> {
    if s.len() > 0 && all_alpha(s) && col_value(s) - 1 <= MAX_COL {
        Some((col_value(s) - 1) as ColNum)
    } else {
        None
    }
}

/// The upper-case letter for a digit `k` (0..25) of the bijective base-26 form.
pub open spec fn letter_char(k: nat) -> char {
    (('A' as nat) + k) as char
}

/// The column letters of the 1-based column number `n` ("A" for 1, "AA" for 27, "" for 0).
pub open spec fn col_letters(n: nat) -> Seq<char>
    decreases n,
{
    if n == 0 {
        Seq::empty()
    } else {
        col_letters(((n - 1) / 26) as nat).push(letter_char(((n - 1) % 26) as nat))
    }
}

/// A1 notation for a 0-based (row, col).
pub open spec fn spec_to_a1(row: RowNum, col: ColNum) -> Seq<char> {
    col_letters(col as nat + 1) + decimal_digits(row as nat + 1)
}

proof fn lemma_col_value_nonneg(s: Seq<char>)
    requires
        all_alpha(s),
    ensures
        col_value(s) >= 0,
        s.len() > 0 ==> col_value(s) >= 1,
    decreases s.len(),
{
    if s.len() > 0 {
        let t = s.drop_last();
        assert(all_alpha(t)) by {
            assert forall|i: int| 0 <= i < t.len() implies #[trigger] is_alpha(t[i]) by {
                assert(t[i] == s[i]);
            }
        }
        assert(is_alpha(s[s.len() - 1]));
        lemma_col_value_nonneg(t);
    }
}

/// Column letters spell back the number they were made from, and are all upper-case letters.
pub proof fn lemma_col_letters(n: nat)
    ensures
        col_value(col_letters(n)) == n,
        all_alpha(col_letters(n)),
        n > 0 ==> col_letters(n).len() > 0,
        forall|i: int| 0 <= i < col_letters(n).len() ==> 'A' <= #[trigger] col_letters(n)[i] <= 'Z',
    decreases n,
{
    if n > 0 {
        let m = ((n - 1) / 26) as nat;
        let k = ((n - 1) % 26) as nat;
        lemma_col_letters(m);
        let s = col_letters(n);
        assert(s.drop_last() =~= col_letters(m));
        assert(s.last() == letter_char(k));
        assert((letter_char(k) as int) == 65 + k);
        assert forall|i: int| 0 <= i < s.len() implies 'A' <= #[trigger] s[i] <= 'Z' by {
            if i < s.len() - 1 {
                assert(s[i] == col_letters(m)[i]);
            }
        }
    }
}

/// Converting a column to its letters and reading them back gives the same column.
pub proof fn lemma_col_roundtrip(col: ColNum)
    requires
        col <= MAX_COL,
    ensures
        spec_col_from_letter(col_letters(col as nat + 1)) == Some(col),
{
    lemma_col_letters(col as nat + 1);
}

fn letter_value_of(c: char) -> (v: u32)
    requires
        is_alpha(c),
    ensures
        v == letter_value(c),
        1 <= v <= 26,
{
    if 'a' <= c && c <= 'z' {
        (c as u32) - ('a' as u32) + 1
    } else {
        (c as u32) - ('A' as u32) + 1
    }
}

/// Whether `c` is an ASCII letter.
pub fn is_ascii_alpha(c: char) -> (res: bool)
    ensures
        res == is_alpha(c),
{
    ('A' <= c && c <= 'Z') || ('a' <= c && c <= 'z')
}

/// Whether `c` is an ASCII digit.
pub fn is_ascii_digit(c: char) -> (res: bool)
    ensures
        res == is_digit(c),
{
    '0' <= c && c <= '9'
}

/// Why a run of letters names no column.
pub enum ColumnFault {
    /// There are no letters at all.
    Empty,
    /// Something other than an ASCII letter occurs.
    NotALetter,
    /// The letters go past XFD.
    PastLastColumn,
}

/// The column a run of letters names, or why it names none.
pub fn col_index(cs: &[char]) -> (res: Result<ColNum, ColumnFault>)
    ensures
        match res {
            Ok(c) => spec_col_from_letter(cs@) == Some(c),
            Err(ColumnFault::Empty) => cs@.len() == 0,
            Err(ColumnFault::NotALetter) => cs@.len() > 0 && !all_alpha(cs@),
            Err(ColumnFault::PastLastColumn) => cs@.len() > 0 && all_alpha(cs@) && col_value(cs@) - 1 > MAX_COL,
        },
{
    if cs.len() == 0 {
        return Err(ColumnFault::Empty);
    }
    let cap: u32 = MAX_COL + 2;
    let mut n: u32 = 0;
    let mut i: usize = 0;
    while i < cs.len()
        invariant
            0 <= i <= cs.len(),
            all_alpha(cs@.take(i as int)),
            col_value(cs@.take(i as int)) >= 0,
            n == if col_value(cs@.take(i as int)) < cap { col_value(cs@.take(i as int)) } else { cap as int },
            cap == MAX_COL + 2,
        decreases cs.len() - i,
    {
        let c = cs[i];
        if !is_ascii_alpha(c) {
            assert(!is_alpha(cs@[i as int]));
            return Err(ColumnFault::NotALetter);
        }
        let d = letter_value_of(c);
        let ghost prev = cs@.take(i as int);
        let ghost next = cs@.take(i + 1);
        assert(next.drop_last() =~= prev);
        assert(next.last() == c);
        assert(col_value(next) == col_value(prev) * 26 + d);
        if n < cap {
            n = n * 26 + d;
            if n > cap {
                n = cap;
            }
        }
        assert(all_alpha(next)) by {
            assert forall|j: int| 0 <= j < next.len() implies #[trigger] is_alpha(next[j]) by {
                if j < i {
                    assert(next[j] == prev[j]);
                }
            }
        }
        i += 1;
    }
    assert(cs@.take(cs.len() as int) =~= cs@);
    proof {
        lemma_col_value_nonneg(cs@);
    }
    if n - 1 > MAX_COL {
        return Err(ColumnFault::PastLastColumn);
    }
    Ok((n - 1) as ColNum)
}

/// The message of the error for column letters `s` that name no column.
pub open spec fn col_error_message(s: Seq<char>) -> Seq<char> {
    if s.len() == 0 {
        "empty column"@
    } else if !all_alpha(s) {
        "invalid column char in '"@ + s + "'"@
    } else {
        "column '"@ + s + "' exceeds XFD"@
    }
}

/// `prefix`, then `s`, then `suffix`, as one `String`.
fn quoted(prefix: &str, s: &str, suffix: &str) -> (res: String)
    ensures
        res@ == prefix@ + s@ + suffix@,
{
    let mut m = to_string(prefix);
    push_str(&mut m, s);
    push_str(&mut m, suffix);
    m
}

/// Convert column letters (e.g. "A", "AA", "XFD") to 0-based index.
pub fn col_from_letter(s: &str) -> (res: Result<ColNum, Error>)
    ensures
        res is Ok <==> spec_col_from_letter(s@) is Some,
        res matches Ok(c) ==> spec_col_from_letter(s@) == Some(c),
        res matches Err(e) ==> (e matches Error::InvalidCellRef(m) && m@ == col_error_message(s@)),
{
    proof {
        reveal_strlit("empty column");
    }
    let cs = chars_of(s);
    match col_index(&cs) {
        Ok(c) => Ok(c),
        Err(ColumnFault::Empty) => Err(Error::InvalidCellRef(to_string("empty column"))),
        Err(ColumnFault::NotALetter) => Err(Error::InvalidCellRef(quoted("invalid column char in '", s, "'"))),
        Err(ColumnFault::PastLastColumn) => Err(Error::InvalidCellRef(quoted("column '", s, "' exceeds XFD"))),
    }
}

fn push_col_letters(out: &mut Vec<char>, n: u32)
    ensures
        final(out)@ == old(out)@ + col_letters(n as nat),
    decreases n,
{
    if n > 0 {
        push_col_letters(out, (n - 1) / 26);
        let k = ((n - 1) % 26) as u8;
        let c = (65u8 + k) as char;
        assert(c == letter_char(k as nat));
        out.push(c);
    } else {
        assert(col_letters(0) =~= Seq::<char>::empty());
        assert(old(out)@ + Seq::<char>::empty() =~= old(out)@);
    }
}

/// Convert 0-based column index to letters (e.g. 0 → "A", 26 → "AA").
pub fn col_to_letter(col: ColNum) -> (res: String)
    ensures
        res@ == col_letters(col as nat + 1),
{
    let mut v: Vec<char> = Vec::new();
    push_col_letters(&mut v, col as u32 + 1);
    assert(Seq::<char>::empty() + col_letters(col as nat + 1) =~= col_letters(col as nat + 1));
    string_from_chars(&v)
}

/// Format (row, col) as A1 notation.
pub fn to_a1(row: RowNum, col: ColNum) -> (res: String)
    ensures
        res@ == spec_to_a1(row, col),
{
    let mut s = col_to_letter(col);
    push_decimal(&mut s, row as u64 + 1);
    s
}


/// `s` with every `$` (absolute-reference marker) removed.
pub open spec fn without_dollar(s: Seq<char>) -> Seq<char>
    decreases s.len(),
{
    if s.len() == 0 {
        s
    } else if s.last() == '$' {
        without_dollar(s.drop_last())
    } else {
        without_dollar(s.drop_last()).push(s.last())
    }
}

/// The index of the first character of `s` equal to `ch`, or -1 when there is none.
pub open spec fn first_index_of(s: Seq<char>, ch: char) -> int
    decreases s.len(),
{
    if s.len() == 0 {
        -1
    } else if s[0] == ch {
        0
    } else {
        let r = first_index_of(s.drop_first(), ch);
        if r < 0 { -1 } else { r + 1 }
    }
}

/// The index of the first ASCII digit of `s`, or -1 when there is none.
pub open spec fn first_digit(s: Seq<char>) -> int
    decreases s.len(),
{
    if s.len() == 0 {
        -1
    } else if is_digit(s[0]) {
        0
    } else {
        let r = first_digit(s.drop_first());
        if r < 0 { -1 } else { r + 1 }
    }
}

/// The text a cell reference is read from: trimmed, with the `$` markers removed.
pub open spec fn cell_ref_text(s: Seq<char>) -> Seq<char> {
    without_dollar(trim(s))
}

/// What `parse_cell_ref` gives for `s`: letters naming a column, then a 1-based row number
/// no greater than 1048576, after trimming and dropping `$` markers.
pub open spec fn spec_parse_cell_ref(s: Seq<char>) -> Option<(RowNum, ColNum)> {
    let c = cell_ref_text(s);
    let k = first_digit(c);
    let digits = c.skip(k);
    if k >= 1 && spec_col_from_letter(c.take(k)) is Some && all_digits(digits) && 1
        <= decimal_value(digits) <= MAX_ROW + 1 {
        Some(((decimal_value(digits) - 1) as RowNum, spec_col_from_letter(c.take(k))->0))
    } else {
        None
    }
}

/// What `parse_range_ref` gives for `s`: exactly one `:` between two cell references.
pub open spec fn spec_parse_range_ref(s: Seq<char>) -> Option<(RowNum, ColNum, RowNum, ColNum)> {
    let p = first_index_of(s, ':');
    if p >= 0 && first_index_of(s.skip(p + 1), ':') < 0 {
        match (spec_parse_cell_ref(s.take(p)), spec_parse_cell_ref(s.skip(p + 1))) {
            (Some((r1, c1)), Some((r2, c2))) => Some((r1, c1, r2, c2)),
            _ => None,
        }
    } else {
        None
    }
}

proof fn lemma_first_digit_at(s: Seq<char>, i: int)
    requires
        0 <= i <= s.len(),
        forall|k: int| 0 <= k < i ==> !#[trigger] is_digit(s[k]),
    ensures
        i < s.len() && is_digit(s[i]) ==> first_digit(s) == i,
        i == s.len() ==> first_digit(s) == -1,
    decreases i,
{
    if i > 0 {
        let t = s.drop_first();
        assert forall|k: int| 0 <= k < i - 1 implies !#[trigger] is_digit(t[k]) by {
            assert(t[k] == s[k + 1]);
        }
        assert(!is_digit(s[0]));
        if i < s.len() {
            assert(t[i - 1] == s[i]);
        }
        lemma_first_digit_at(t, i - 1);
    }
}

proof fn lemma_first_index_at(s: Seq<char>, ch: char, i: int)
    requires
        0 <= i <= s.len(),
        forall|k: int| 0 <= k < i ==> #[trigger] s[k] != ch,
    ensures
        i < s.len() && s[i] == ch ==> first_index_of(s, ch) == i,
        i == s.len() ==> first_index_of(s, ch) == -1,
    decreases i,
{
    if i > 0 {
        let t = s.drop_first();
        assert forall|k: int| 0 <= k < i - 1 implies #[trigger] t[k] != ch by {
            assert(t[k] == s[k + 1]);
        }
        assert(s[0] != ch);
        if i < s.len() {
            assert(t[i - 1] == s[i]);
        }
        lemma_first_index_at(t, ch, i - 1);
    }
}

/// The characters of `s` without the `$` markers.
fn remove_dollars(s: &[char]) -> (res: Vec<char>)
    ensures
        res@ == without_dollar(s@),
{
    let mut res: Vec<char> = Vec::new();
    let mut i: usize = 0;
    while i < s.len()
        invariant
            0 <= i <= s.len(),
            res@ == without_dollar(s@.take(i as int)),
        decreases s.len() - i,
    {
        let ghost next = s@.take(i + 1);
        assert(next.drop_last() =~= s@.take(i as int));
        if s[i] != '$' {
            res.push(s[i]);
        }
        i += 1;
    }
    assert(s@.take(s.len() as int) =~= s@);
    res
}

/// The characters `s[from..to]`.
pub fn sub_chars(s: &[char], from: usize, to: usize) -> (res: Vec<char>)
    requires
        from <= to <= s.len(),
    ensures
        res@ == s@.subrange(from as int, to as int),
{
    let mut res: Vec<char> = Vec::new();
    let mut i: usize = from;
    while i < to
        invariant
            from <= i <= to <= s.len(),
            res@ == s@.subrange(from as int, i as int),
        decreases to - i,
    {
        res.push(s[i]);
        i += 1;
    }
    res
}

/// The index of the first ASCII digit of `s`, if any.
fn find_digit(s: &[char]) -> (res: Option<usize>)
    ensures
        match res {
            Some(k) => k < s.len() && first_digit(s@) == k,
            None => first_digit(s@) == -1,
        },
{
    let mut i: usize = 0;
    while i < s.len()
        invariant
            0 <= i <= s.len(),
            forall|k: int| 0 <= k < i ==> !#[trigger] is_digit(s@[k]),
        decreases s.len() - i,
    {
        if is_ascii_digit(s[i]) {
            proof {
                lemma_first_digit_at(s@, i as int);
            }
            return Some(i);
        }
        i += 1;
    }
    proof {
        lemma_first_digit_at(s@, i as int);
    }
    None
}

/// The index of the first `ch` in `s`, if any.
pub fn find_char(s: &[char], ch: char) -> (res: Option<usize>)
    ensures
        match res {
            Some(k) => k < s.len() && first_index_of(s@, ch) == k,
            None => first_index_of(s@, ch) == -1,
        },
{
    let mut i: usize = 0;
    while i < s.len()
        invariant
            0 <= i <= s.len(),
            forall|k: int| 0 <= k < i ==> #[trigger] s@[k] != ch,
        decreases s.len() - i,
    {
        if s[i] == ch {
            proof {
                lemma_first_index_at(s@, ch, i as int);
            }
            return Some(i);
        }
        i += 1;
    }
    proof {
        lemma_first_index_at(s@, ch, i as int);
    }
    None
}

proof fn lemma_decimal_value_grows(s: Seq<char>, d: char)
    requires
        all_digits(s),
        is_digit(d),
    ensures
        decimal_value(s.push(d)) == decimal_value(s) * 10 + digit_value(d),
        decimal_value(s) >= 0,
    decreases s.len(),
{
    assert(s.push(d).drop_last() =~= s);
    lemma_decimal_nonneg(s);
}

pub proof fn lemma_decimal_nonneg(s: Seq<char>)
    requires
        all_digits(s),
    ensures
        decimal_value(s) >= 0,
    decreases s.len(),
{
    if s.len() > 0 {
        let t = s.drop_last();
        assert(all_digits(t)) by {
            assert forall|i: int| 0 <= i < t.len() implies #[trigger] is_digit(t[i]) by {
                assert(t[i] == s[i]);
            }
        }
        assert(is_digit(s[s.len() - 1]));
        lemma_decimal_nonneg(t);
    }
}

/// How a run of characters reads as an unsigned decimal number.
pub enum DecimalRead {
    /// All digits, and the number they spell.
    Value(u64),
    /// All digits, but the number is greater than `limit`.
    TooLarge,
    /// Empty, or something other than a digit occurs.
    NotDigits,
}

/// Reads `s` as a decimal number no greater than `limit`.
pub fn read_decimal(s: &[char], limit: u64) -> (res: DecimalRead)
    requires
        limit < u64::MAX / 16,
    ensures
        match res {
            DecimalRead::Value(v) => s@.len() > 0 && all_digits(s@) && v == decimal_value(s@) && v <= limit,
            DecimalRead::TooLarge => s@.len() > 0 && all_digits(s@) && decimal_value(s@) > limit,
            DecimalRead::NotDigits => s@.len() == 0 || !all_digits(s@),
        },
{
    if s.len() == 0 {
        return DecimalRead::NotDigits;
    }
    let cap: u64 = limit + 1;
    let mut n: u64 = 0;
    let mut i: usize = 0;
    while i < s.len()
        invariant
            0 <= i <= s.len(),
            cap == limit + 1,
            limit < u64::MAX / 16,
            all_digits(s@.take(i as int)),
            decimal_value(s@.take(i as int)) >= 0,
            n == if decimal_value(s@.take(i as int)) < cap { decimal_value(s@.take(i as int)) } else { cap as int },
        decreases s.len() - i,
    {
        let c = s[i];
        if !is_ascii_digit(c) {
            assert(!is_digit(s@[i as int]));
            return DecimalRead::NotDigits;
        }
        let d = (c as u32 - '0' as u32) as u64;
        proof {
            lemma_decimal_value_grows(s@.take(i as int), c);
            assert(s@.take(i as int).push(c) =~= s@.take(i + 1));
        }
        if n < cap {
            n = n * 10 + d;
            if n > cap {
                n = cap;
            }
        }
        assert(all_digits(s@.take(i + 1))) by {
            assert forall|j: int| 0 <= j < i + 1 implies #[trigger] is_digit(s@.take(i + 1)[j]) by {
                if j < i {
                    assert(s@.take(i + 1)[j] == s@.take(i as int)[j]);
                }
            }
        }
        i += 1;
    }
    assert(s@.take(s.len() as int) =~= s@);
    if n > limit {
        DecimalRead::TooLarge
    } else {
        DecimalRead::Value(n)
    }
}

/// The message of the error for a text `s` that is no cell reference.
pub open spec fn cell_ref_error_message(s: Seq<char>) -> Seq<char> {
    let c = cell_ref_text(s);
    let k = first_digit(c);
    let digits = c.skip(k);
    if k < 0 {
        "no row in '"@ + c + "'"@
    } else if k == 0 {
        "no column in '"@ + c + "'"@
    } else if spec_col_from_letter(c.take(k)) is None {
        col_error_message(c.take(k))
    } else if !(all_digits(digits) && decimal_value(digits) <= u32::MAX) {
        "bad row '"@ + digits + "'"@
    } else {
        "row "@ + decimal_digits(decimal_value(digits) as nat) + " out of range"@
    }
}

/// Parse "B3" → (row=2, col=1).
pub fn parse_cell_ref(s: &str) -> (res: Result<(RowNum, ColNum), Error>)
    ensures
        res is Ok <==> spec_parse_cell_ref(s@) is Some,
        res matches Ok(rc) ==> spec_parse_cell_ref(s@) == Some(rc),
        res matches Err(e) ==> (e matches Error::InvalidCellRef(m) && m@ == cell_ref_error_message(s@)),
{
    let all = chars_of(s);
    let t = crate::text::trim_chars(&all);
    let c = remove_dollars(&t);
    let clean = string_from_chars(&c);
    let split = match find_digit(&c) {
        Some(k) => k,
        None => {
            return Err(Error::InvalidCellRef(quoted("no row in '", clean.as_str(), "'")));
        },
    };
    if split == 0 {
        return Err(Error::InvalidCellRef(quoted("no column in '", clean.as_str(), "'")));
    }
    let col_chars = sub_chars(&c, 0, split);
    let row_chars = sub_chars(&c, split, c.len());
    assert(col_chars@ =~= c@.take(split as int));
    assert(row_chars@ =~= c@.skip(split as int));
    let col_str = string_from_chars(&col_chars);
    let col = match col_from_letter(col_str.as_str()) {
        Ok(col) => col,
        Err(e) => {
            return Err(e);
        },
    };
    let row_str = string_from_chars(&row_chars);
    match read_decimal(&row_chars, u32::MAX as u64) {
        DecimalRead::Value(row_1) => {
            if row_1 == 0 || row_1 - 1 > MAX_ROW as u64 {
                let mut m = to_string("row ");
                push_decimal(&mut m, row_1);
                push_str(&mut m, " out of range");
                return Err(Error::InvalidCellRef(m));
            }
            Ok(((row_1 - 1) as RowNum, col))
        },
        _ => Err(Error::InvalidCellRef(quoted("bad row '", row_str.as_str(), "'"))),
    }
}

/// Parse "A1:C3" → (start_row, start_col, end_row, end_col).
pub fn parse_range_ref(s: &str) -> (res: Result<(RowNum, ColNum, RowNum, ColNum), Error>)
    ensures
        res is Ok <==> spec_parse_range_ref(s@) is Some,
        res matches Ok(r) ==> spec_parse_range_ref(s@) == Some(r),
        res matches Err(e) ==> (e is InvalidRange <==> !(first_index_of(s@, ':') >= 0
            && first_index_of(s@.skip(first_index_of(s@, ':') + 1), ':') < 0)),
        res matches Err(e) ==> match e {
            Error::InvalidRange(m) => m@ == "expected ':' in '"@ + s@ + "'"@,
            Error::InvalidCellRef(m) => {
                let p = first_index_of(s@, ':');
                m@ == if spec_parse_cell_ref(s@.take(p)) is None {
                    cell_ref_error_message(s@.take(p))
                } else {
                    cell_ref_error_message(s@.skip(p + 1))
                }
            },
            _ => false,
        },
{
    let cs = chars_of(s);
    let p = match find_char(&cs, ':') {
        Some(p) => p,
        None => {
            return Err(Error::InvalidRange(quoted("expected ':' in '", s, "'")));
        },
    };
    let rest = sub_chars(&cs, p + 1, cs.len());
    assert(rest@ =~= s@.skip(p + 1));
    if find_char(&rest, ':').is_some() {
        return Err(Error::InvalidRange(quoted("expected ':' in '", s, "'")));
    }
    let first = sub_chars(&cs, 0, p);
    assert(first@ =~= s@.take(p as int));
    let first_str = string_from_chars(&first);
    let second_str = string_from_chars(&rest);
    let (r1, c1) = match parse_cell_ref(first_str.as_str()) {
        Ok(rc) => rc,
        Err(e) => {
            return Err(e);
        },
    };
    let (r2, c2) = match parse_cell_ref(second_str.as_str()) {
        Ok(rc) => rc,
        Err(e) => {
            return Err(e);
        },
    };
    Ok((r1, c1, r2, c2))
}


/// Reading the letters of an upper-case column name and writing them back gives the same text.
pub proof fn lemma_letters_roundtrip(s: Seq<char>)
    requires
        forall|i: int| 0 <= i < s.len() ==> 'A' <= #[trigger] s[i] <= 'Z',
    ensures
        col_letters(col_value(s) as nat) == s,
        col_value(s) >= 0,
    decreases s.len(),
{
    if s.len() > 0 {
        let t = s.drop_last();
        assert forall|i: int| 0 <= i < t.len() implies 'A' <= #[trigger] t[i] <= 'Z' by {
            assert(t[i] == s[i]);
        }
        lemma_letters_roundtrip(t);
        let c = s.last();
        assert('A' <= c <= 'Z');
        let n = col_value(s);
        assert(n == col_value(t) * 26 + ((c as int) - 65 + 1));
        assert((n - 1) / 26 == col_value(t));
        assert((n - 1) % 26 == (c as int) - 65);
        assert(letter_char(((n - 1) % 26) as nat) == c);
        assert(col_letters(n as nat) =~= t.push(c));
        assert(s =~= t.push(c));
    } else {
        assert(s =~= Seq::<char>::empty());
    }
}

/// An upper-case column name read by `col_from_letter` and written by `col_to_letter` comes back
/// unchanged.
pub proof fn lemma_col_text_roundtrip(s: Seq<char>)
    requires
        forall|i: int| 0 <= i < s.len() ==> 'A' <= #[trigger] s[i] <= 'Z',
        spec_col_from_letter(s) is Some,
    ensures
        col_letters(spec_col_from_letter(s)->0 as nat + 1) == s,
{
    lemma_letters_roundtrip(s);
}

/// The decimal form of a number is a non-empty run of digits that spells the number.
pub proof fn lemma_decimal_digits(n: nat)
    ensures
        decimal_digits(n).len() > 0,
        all_digits(decimal_digits(n)),
        decimal_value(decimal_digits(n)) == n,
    decreases n,
{
    let s = decimal_digits(n);
    let last = (n % 10) as int;
    assert(0 <= last < 10);
    let c = ((last as nat) + '0' as nat) as char;
    assert(c as u32 == last + 48);
    assert(digit_value(c) == last);
    assert(decimal_value(s) == decimal_value(s.drop_last()) * 10 + digit_value(s.last()));
    if n < 10 {
        assert(s.drop_last() =~= Seq::<char>::empty());
        assert(decimal_value(Seq::<char>::empty()) == 0);
        assert(s.last() == c);
    } else {
        assert(s.last() == c);
        lemma_decimal_digits(n / 10);
        assert(s.drop_last() =~= decimal_digits(n / 10));
        assert forall|i: int| 0 <= i < s.len() implies #[trigger] is_digit(s[i]) by {
            if i < s.len() - 1 {
                assert(s[i] == decimal_digits(n / 10)[i]);
            }
        }
    }
}

proof fn lemma_without_dollar_none(s: Seq<char>)
    requires
        forall|i: int| 0 <= i < s.len() ==> #[trigger] s[i] != '$',
    ensures
        without_dollar(s) == s,
    decreases s.len(),
{
    if s.len() > 0 {
        let t = s.drop_last();
        assert forall|i: int| 0 <= i < t.len() implies #[trigger] t[i] != '$' by {
            assert(t[i] == s[i]);
        }
        lemma_without_dollar_none(t);
        assert(s =~= t.push(s.last()));
    }
}

/// Writing a cell in A1 notation and reading it back gives the same cell, for every cell of a
/// sheet.
pub proof fn lemma_a1_roundtrip(row: RowNum, col: ColNum)
    requires
        row <= MAX_ROW,
        col <= MAX_COL,
    ensures
        spec_parse_cell_ref(spec_to_a1(row, col)) == Some((row, col)),
{
    let l = col_letters(col as nat + 1);
    let d = decimal_digits(row as nat + 1);
    let s = spec_to_a1(row, col);
    lemma_col_letters(col as nat + 1);
    lemma_decimal_digits(row as nat + 1);
    lemma_col_roundtrip(col);
    assert(s == l + d);
    assert(forall|i: int| 0 <= i < l.len() ==> s[i] == #[trigger] l[i]);
    assert(forall|i: int| 0 <= i < d.len() ==> s[l.len() + i] == #[trigger] d[i]);
    assert(!is_unicode_whitespace(s[0])) by {
        assert('A' <= l[0] <= 'Z');
    }
    assert(!is_unicode_whitespace(s.last())) by {
        assert(is_digit(d[d.len() - 1]));
        assert(s.last() == d[d.len() - 1]);
    }
    assert(trim(s) == s);
    assert forall|i: int| 0 <= i < s.len() implies #[trigger] s[i] != '$' by {
        if i < l.len() {
            assert('A' <= l[i] <= 'Z');
        } else {
            assert(s[i] == d[i - l.len()]);
            assert(is_digit(d[i - l.len()]));
        }
    }
    lemma_without_dollar_none(s);
    assert(cell_ref_text(s) == s);
    assert forall|k: int| 0 <= k < l.len() implies !#[trigger] is_digit(s[k]) by {
        assert('A' <= l[k] <= 'Z');
    }
    assert(is_digit(s[l.len() as int])) by {
        assert(s[l.len() as int] == d[0]);
    }
    lemma_first_digit_at(s, l.len() as int);
    assert(s.take(l.len() as int) =~= l);
    assert(s.skip(l.len() as int) =~= d);
}

proof fn lemma_without_dollar_concat(a: Seq<char>, b: Seq<char>)
    ensures
        without_dollar(a + b) == without_dollar(a) + without_dollar(b),
    decreases b.len(),
{
    if b.len() == 0 {
        assert(a + b =~= a);
        assert(without_dollar(a) + without_dollar(b) =~= without_dollar(a));
    } else {
        lemma_without_dollar_concat(a, b.drop_last());
        assert((a + b).drop_last() =~= a + b.drop_last());
        assert((a + b).last() == b.last());
        if b.last() != '$' {
            assert(without_dollar(a) + without_dollar(b.drop_last()).push(b.last()) =~= (without_dollar(a)
                + without_dollar(b.drop_last())).push(b.last()));
        }
    }
}

/// The `$` markers of an absolute reference and whitespace around a reference do not change the
/// cell it names: `$B$3` and ` B3 ` read as `B3`, for every cell of a sheet.
pub proof fn lemma_absolute_and_padded_refs(row: RowNum, col: ColNum)
    requires
        row <= MAX_ROW,
        col <= MAX_COL,
    ensures
        spec_parse_cell_ref(seq!['$'] + col_letters(col as nat + 1) + seq!['$'] + decimal_digits(row as nat + 1))
            == Some((row, col)),
        spec_parse_cell_ref(seq![' '] + spec_to_a1(row, col) + seq![' ']) == Some((row, col)),
{
    let l = col_letters(col as nat + 1);
    let d = decimal_digits(row as nat + 1);
    let a1 = spec_to_a1(row, col);
    lemma_a1_roundtrip(row, col);
    lemma_col_letters(col as nat + 1);
    lemma_decimal_digits(row as nat + 1);
    assert(a1 == l + d);
    assert(cell_ref_text(a1) == a1) by {
        assert('A' <= l[0] <= 'Z');
        assert(a1[0] == l[0]);
        assert(a1.last() == d.last());
        assert(!is_unicode_whitespace(a1[0]));
        assert(!is_unicode_whitespace(a1.last()));
        assert forall|i: int| 0 <= i < a1.len() implies #[trigger] a1[i] != '$' by {
            if i < l.len() {
                assert(a1[i] == l[i]);
                assert('A' <= l[i] <= 'Z');
            } else {
                assert(a1[i] == d[i - l.len()]);
                assert(is_digit(d[i - l.len()]));
            }
        }
        lemma_without_dollar_none(a1);
    }
    // `$B$3`
    let dollar = seq!['$'];
    let s1 = dollar + l + dollar + d;
    assert(!is_unicode_whitespace(s1[0]));
    assert(s1.last() == d.last());
    assert(!is_unicode_whitespace(s1.last()));
    assert(trim(s1) == s1);
    assert(without_dollar(dollar) =~= Seq::<char>::empty()) by {
        assert(dollar.last() == '$');
        assert(dollar.drop_last() =~= Seq::<char>::empty());
        assert(without_dollar(Seq::<char>::empty()) =~= Seq::<char>::empty());
    }
    lemma_without_dollar_concat(dollar + l + dollar, d);
    lemma_without_dollar_concat(dollar + l, dollar);
    lemma_without_dollar_concat(dollar, l);
    assert forall|i: int| 0 <= i < l.len() implies #[trigger] l[i] != '$' by {
        assert('A' <= l[i] <= 'Z');
    }
    assert forall|i: int| 0 <= i < d.len() implies #[trigger] d[i] != '$' by {
        assert(is_digit(d[i]));
    }
    lemma_without_dollar_none(l);
    lemma_without_dollar_none(d);
    assert(Seq::<char>::empty() + l =~= l);
    assert(l + Seq::<char>::empty() =~= l);
    assert(cell_ref_text(s1) == a1);
    // ` B3 `
    let space = seq![' '];
    let s2 = space + a1 + space;
    assert(s2.drop_first() =~= a1 + space);
    assert((a1 + space)[0] == a1[0]);
    assert(!is_unicode_whitespace((a1 + space)[0])) by {
        assert('A' <= l[0] <= 'Z');
        assert(a1[0] == l[0]);
    }
    assert(trim_start(a1 + space) == a1 + space);
    assert(s2[0] == ' ');
    assert(is_unicode_whitespace(s2[0]));
    assert(trim_start(s2) == a1 + space);
    assert((a1 + space).drop_last() =~= a1);
    assert(trim_end(a1 + space) == trim_end(a1));
    assert(trim(s2) == a1);
    assert(cell_ref_text(s2) == a1);
}

/// The bytes of `b` read as characters (each byte one `char`).
pub open spec fn byte_chars(b: Seq<u8>) -> Seq<char> {
    b.map_values(|x: u8| x as char)
}

/// The number of ASCII letters at the start of `b`.
pub open spec fn leading_letters(b: Seq<u8>) -> int
    decreases b.len(),
{
    if b.len() > 0 && is_alpha(b[0] as char) {
        1 + leading_letters(b.drop_first())
    } else {
        0
    }
}

/// What `atoi_simd::parse::<u32, false, false>` returns for the given bytes (`None` for an error).
pub uninterp spec fn atoi_u32(bytes: Seq<u8>) -> Option<u32>;

/// Calls `atoi_simd::parse::<u32, false, false>`: a success stands for a non-empty run of ASCII
/// digits and carries the number they spell.
#[verifier::external_body]
pub(crate) fn atoi_parse_u32(bytes: &[u8]) -> (res: Option<u32>)
    ensures
        res == atoi_u32(bytes@),
        res matches Some(v) ==> bytes@.len() > 0 && all_digits(byte_chars(bytes@)) && v
            == decimal_value(byte_chars(bytes@)),
{
    atoi_simd::parse::<u32, false, false>(bytes).ok()
}

/// What `parse_cell_attr` gives for the bytes of an `r` attribute.
pub open spec fn spec_parse_cell_attr(b: Seq<u8>) -> Option<(RowNum, ColNum)> {
    let n = leading_letters(b);
    if n == 0 || n == b.len() {
        None
    } else {
        match atoi_u32(b.skip(n)) {
            Some(row) => if row == 0 {
                None
            } else {
                Some(((row - 1) as RowNum, (col_value(byte_chars(b.take(n))) - 1) as ColNum))
            },
            None => None,
        }
    }
}

proof fn lemma_leading_letters_at(b: Seq<u8>, i: int)
    requires
        0 <= i <= b.len(),
        forall|k: int| 0 <= k < i ==> is_alpha(#[trigger] b[k] as char),
        i == b.len() || !is_alpha(b[i] as char),
    ensures
        leading_letters(b) == i,
    decreases i,
{
    if i > 0 {
        let t = b.drop_first();
        assert forall|k: int| 0 <= k < i - 1 implies is_alpha(#[trigger] t[k] as char) by {
            assert(t[k] == b[k + 1]);
        }
        if i < b.len() {
            assert(t[i - 1] == b[i]);
        }
        assert(is_alpha(b[0] as char));
        lemma_leading_letters_at(t, i - 1);
    }
}

/// Parse column+row from raw bytes of an `r` attribute (e.g. b"B3").
/// Returns (row_0based, col_0based).
pub fn parse_cell_attr(bytes: &[u8]) -> (res: Option<(RowNum, ColNum)>)
    requires
        col_value(byte_chars(bytes@.take(leading_letters(bytes@)))) <= u32::MAX,
    ensures
        res == spec_parse_cell_attr(bytes@),
{
    let mut col: u32 = 0;
    let mut i: usize = 0;
    proof {
        let k = leading_letters(bytes@);
        assert(0 <= k) by {
            lemma_leading_letters_nonneg(bytes@);
        }
    }
    while i < bytes.len() && is_ascii_alpha(bytes[i] as char)
        invariant
            0 <= i <= bytes.len(),
            forall|k: int| 0 <= k < i ==> is_alpha(#[trigger] bytes@[k] as char),
            col == col_value(byte_chars(bytes@.take(i as int))),
            col_value(byte_chars(bytes@.take(leading_letters(bytes@)))) <= u32::MAX,
        decreases bytes.len() - i,
    {
        let c = bytes[i] as char;
        let d = letter_value_of(c);
        let ghost prev = byte_chars(bytes@.take(i as int));
        let ghost next = byte_chars(bytes@.take(i + 1));
        assert(next.drop_last() =~= prev);
        assert(next.last() == c);
        proof {
            lemma_leading_letters_ge(bytes@, (i + 1) as int);
            lemma_col_prefix_bound(bytes@, (i + 1) as int);
        }
        col = col * 26 + d;
        i += 1;
    }
    proof {
        lemma_leading_letters_at(bytes@, i as int);
    }
    if i == 0 || i == bytes.len() {
        return None;
    }
    let rest = &bytes[i..bytes.len()];
    assert(rest@ =~= bytes@.skip(i as int));
    let row = match atoi_parse_u32(rest) {
        Some(r) => r,
        None => {
            return None;
        },
    };
    if row == 0 {
        return None;
    }
    proof {
        let s = byte_chars(bytes@.take(i as int));
        assert(all_alpha(s)) by {
            assert forall|k: int| 0 <= k < s.len() implies #[trigger] is_alpha(s[k]) by {
                assert(s[k] == bytes@[k] as char);
            }
        }
        lemma_col_value_nonneg(s);
    }
    Some((row - 1, (col - 1) as ColNum))
}

/// The column letters at the start of an `r` attribute spell a number that `u32` holds (the
/// condition under which [`parse_cell_attr`] can compute the column).
pub open spec fn cell_attr_col_fits(b: Seq<u8>) -> bool {
    col_value(byte_chars(b.take(leading_letters(b)))) <= u32::MAX
}

/// [`parse_cell_attr`] where the column letters fit its arithmetic, and `None` where they do not
/// (more letters than a `u32` column number holds).
pub fn parse_cell_attr_checked(bytes: &[u8]) -> (res: Option<(RowNum, ColNum)>)
    ensures
        res == if cell_attr_col_fits(bytes@) { spec_parse_cell_attr(bytes@) } else { None },
{
    let cap: u64 = 0x1_0000_0000;
    let mut col: u64 = 0;
    let mut i: usize = 0;
    while i < bytes.len() && is_ascii_alpha(bytes[i] as char)
        invariant
            0 <= i <= bytes.len(),
            cap == 0x1_0000_0000,
            forall|k: int| 0 <= k < i ==> is_alpha(#[trigger] bytes@[k] as char),
            col_value(byte_chars(bytes@.take(i as int))) >= 0,
            col == if col_value(byte_chars(bytes@.take(i as int))) < cap {
                col_value(byte_chars(bytes@.take(i as int)))
            } else {
                cap as int
            },
        decreases bytes.len() - i,
    {
        let c = bytes[i] as char;
        let d = letter_value_of(c);
        let ghost prev = byte_chars(bytes@.take(i as int));
        let ghost next = byte_chars(bytes@.take(i + 1));
        assert(next.drop_last() =~= prev);
        assert(next.last() == c);
        if col < cap {
            col = col * 26 + d as u64;
            if col > cap {
                col = cap;
            }
        }
        i += 1;
    }
    proof {
        lemma_leading_letters_at(bytes@, i as int);
    }
    if col >= cap {
        return None;
    }
    parse_cell_attr(bytes)
}

proof fn lemma_leading_letters_ge(b: Seq<u8>, i: int)
    requires
        0 <= i <= b.len(),
        forall|k: int| 0 <= k < i ==> is_alpha(#[trigger] b[k] as char),
    ensures
        leading_letters(b) >= i,
    decreases i,
{
    if i > 0 {
        let t = b.drop_first();
        assert forall|k: int| 0 <= k < i - 1 implies is_alpha(#[trigger] t[k] as char) by {
            assert(t[k] == b[k + 1]);
        }
        assert(is_alpha(b[0] as char));
        lemma_leading_letters_ge(t, i - 1);
    } else {
        lemma_leading_letters_nonneg(b);
    }
}

proof fn lemma_leading_letters_nonneg(b: Seq<u8>)
    ensures
        0 <= leading_letters(b) <= b.len(),
    decreases b.len(),
{
    if b.len() > 0 && is_alpha(b[0] as char) {
        lemma_leading_letters_nonneg(b.drop_first());
    }
}

proof fn lemma_leading_letters_alpha(b: Seq<u8>, k: int)
    requires
        0 <= k < leading_letters(b),
    ensures
        is_alpha(b[k] as char),
    decreases b.len(),
{
    lemma_leading_letters_nonneg(b);
    if k > 0 {
        lemma_leading_letters_alpha(b.drop_first(), k - 1);
    }
}

proof fn lemma_col_value_prefix_mono(s: Seq<char>, j: int)
    requires
        all_alpha(s),
        0 <= j <= s.len(),
    ensures
        col_value(s.take(j)) <= col_value(s),
    decreases s.len(),
{
    if j < s.len() {
        let t = s.drop_last();
        assert(all_alpha(t)) by {
            assert forall|i: int| 0 <= i < t.len() implies #[trigger] is_alpha(t[i]) by {
                assert(t[i] == s[i]);
            }
        }
        lemma_col_value_prefix_mono(t, j);
        assert(t.take(j) =~= s.take(j));
        lemma_col_value_nonneg(t);
        assert(is_alpha(s[s.len() - 1]));
    } else {
        assert(s.take(j) =~= s);
    }
}

proof fn lemma_col_prefix_bound(b: Seq<u8>, j: int)
    requires
        0 <= j <= leading_letters(b),
    ensures
        col_value(byte_chars(b.take(j))) <= col_value(byte_chars(b.take(leading_letters(b)))),
{
    lemma_leading_letters_nonneg(b);
    let n = leading_letters(b);
    let s = byte_chars(b.take(n));
    assert(all_alpha(s)) by {
        assert forall|i: int| 0 <= i < s.len() implies #[trigger] is_alpha(s[i]) by {
            lemma_leading_letters_alpha(b, i);
        }
    }
    lemma_col_value_prefix_mono(s, j);
    assert(s.take(j) =~= byte_chars(b.take(j)));
}


/// What `atoi_simd::parse::<usize, false, false>` returns for the given bytes (`None` for an
/// error).
pub uninterp spec fn atoi_usize(bytes: Seq<u8>) -> Option<usize>;

/// Calls `atoi_simd::parse::<usize, false, false>`: a success stands for a non-empty run of ASCII
/// digits and carries the number they spell.
#[verifier::external_body]
pub(crate) fn atoi_parse_usize(bytes: &[u8]) -> (res: Option<usize>)
    ensures
        res == atoi_usize(bytes@),
        res matches Some(v) ==> bytes@.len() > 0 && all_digits(byte_chars(bytes@)) && v
            == decimal_value(byte_chars(bytes@)),
{
    atoi_simd::parse::<usize, false, false>(bytes).ok()
}

/// What `atoi_simd::parse::<u8, false, false>` returns for the given bytes (`None` for an error).
pub uninterp spec fn atoi_u8(bytes: Seq<u8>) -> Option<u8>;

/// Calls `atoi_simd::parse::<u8, false, false>`: a success stands for a non-empty run of ASCII
/// digits and carries the number they spell.
#[verifier::external_body]
pub(crate) fn atoi_parse_u8(bytes: &[u8]) -> (res: Option<u8>)
    ensures
        res == atoi_u8(bytes@),
        res matches Some(v) ==> bytes@.len() > 0 && all_digits(byte_chars(bytes@)) && v
            == decimal_value(byte_chars(bytes@)),
{
    atoi_simd::parse::<u8, false, false>(bytes).ok()
}

/// What `atoi_simd::parse::<u16, false, false>` returns for the given bytes (`None` for an
/// error).
pub uninterp spec fn atoi_u16(bytes: Seq<u8>) -> Option<u16>;

/// Calls `atoi_simd::parse::<u16, false, false>`: a success stands for a non-empty run of ASCII
/// digits and carries the number they spell.
#[verifier::external_body]
pub(crate) fn atoi_parse_u16(bytes: &[u8]) -> (res: Option<u16>)
    ensures
        res == atoi_u16(bytes@),
        res matches Some(v) ==> bytes@.len() > 0 && all_digits(byte_chars(bytes@)) && v
            == decimal_value(byte_chars(bytes@)),
{
    atoi_simd::parse::<u16, false, false>(bytes).ok()
}

} // verus!
