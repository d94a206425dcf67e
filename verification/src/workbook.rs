//! Workbook-level settings and the reading of defined-name references.

use vstd::prelude::*;

use crate::numbers::{parse_unsigned, std_parse_unsigned};
use crate::text::{chars_of, is_alpha, string_from_chars, to_string};
use crate::utility::{
    all_alpha, col_value, find_char, first_index_of, is_ascii_alpha, sub_chars, without_dollar,
};

verus! {

/// The scope of a defined name: either workbook-global or local to a specific sheet.
#[derive(Debug, Clone, Copy, PartialEq, Eq, Structural)]
pub enum DefinedNameScope {
    /// The name is visible across the entire workbook.
    Workbook,
    /// The name is scoped to a specific sheet (0-based index).
    Sheet(usize),
}

/// A defined name in an Excel workbook, with its scope.
#[derive(Debug, Clone, PartialEq, Eq)]
pub struct DefinedName {
    /// The name identifier (e.g. "TaxRate", "_xlnm.Print_Area").
    pub name: String,
    /// The formula or reference the name resolves to (e.g. "Sheet1!$A$1:$B$10").
    pub formula: String,
    /// Whether this name is workbook-scoped or sheet-scoped.
    pub scope: DefinedNameScope,
}

/// When formulas are recalculated.
#[derive(Debug, Clone, Copy)]
pub enum CalcMode {
    Auto,
    Manual,
    AutoNoTable,
}

/// The content type variant used when saving a workbook.
#[derive(Debug, Clone, Copy, PartialEq, Eq, Structural)]
pub enum WorkbookContentType {
    /// Standard `.xlsx` workbook
    Xlsx,
    /// Macro-enabled `.xlsm` workbook
    Xlsm,
    /// Template `.xltx`
    Template,
    /// Macro-enabled template `.xltm`
    TemplateMacro,
}

/// The index of the last character of `s` equal to `ch`, or -1 when there is none.
pub open spec fn last_index_of_char(s: Seq<char>, ch: char) -> int
    decreases s.len(),
{
    if s.len() == 0 {
        -1
    } else if s.last() == ch {
        s.len() - 1
    } else {
        last_index_of_char(s.drop_last(), ch)
    }
}

/// `s` without its leading quote characters.
pub open spec fn trim_quotes_start(s: Seq<char>) -> Seq<char>
    decreases s.len(),
{
    if s.len() > 0 && s[0] == '\'' {
        trim_quotes_start(s.drop_first())
    } else {
        s
    }
}

/// `s` without its trailing quote characters.
pub open spec fn trim_quotes_end(s: Seq<char>) -> Seq<char>
    decreases s.len(),
{
    if s.len() > 0 && s.last() == '\'' {
        trim_quotes_end(s.drop_last())
    } else {
        s
    }
}

/// `s` with the quote characters at both of its ends removed (`str::trim_matches('\'')`).
pub open spec fn trim_quotes(s: Seq<char>) -> Seq<char> {
    trim_quotes_end(trim_quotes_start(s))
}

/// The text before the first `,` (all of it when there is none).
pub open spec fn first_part(s: Seq<char>) -> Seq<char> {
    let k = first_index_of(s, ',');
    if k >= 0 {
        s.take(k)
    } else {
        s
    }
}

/// The sheet name a defined-name formula refers to: in its first comma-separated part, the text
/// before the last `!`, with surrounding quotes removed (`'My Sheet'!$A:$B` → `My Sheet`).
pub open spec fn spec_extract_sheet_name(formula: Seq<char>) -> Option<Seq<char>> {
    let part = first_part(formula);
    let bang = last_index_of_char(part, '!');
    if bang >= 0 {
        Some(trim_quotes(part.take(bang)))
    } else {
        None
    }
}

proof fn lemma_last_index_of_char(s: Seq<char>, ch: char)
    ensures
        -1 <= last_index_of_char(s, ch) < s.len(),
        last_index_of_char(s, ch) >= 0 ==> s[last_index_of_char(s, ch)] == ch,
    decreases s.len(),
{
    if s.len() > 0 && s.last() != ch {
        lemma_last_index_of_char(s.drop_last(), ch);
    }
}

/// The index of the last `ch` in `s`.
pub fn rfind_char(s: &[char], ch: char) -> (res: Option<usize>)
    ensures
        match res {
            Some(k) => k < s@.len() && last_index_of_char(s@, ch) == k,
            None => last_index_of_char(s@, ch) == -1,
        },
{
    let mut i: usize = s.len();
    assert(s@.take(i as int) =~= s@);
    while i > 0
        invariant
            i <= s@.len(),
            last_index_of_char(s@, ch) == last_index_of_char(s@.take(i as int), ch),
        decreases i,
    {
        let ghost pre = s@.take(i as int);
        assert(pre.drop_last() =~= s@.take(i - 1));
        assert(pre.last() == s@[i - 1]);
        if s[i - 1] == ch {
            return Some(i - 1);
        }
        i -= 1;
    }
    None
}

/// The characters of `s` with the quote characters at both ends removed.
pub fn trim_quote_chars(s: &[char]) -> (res: Vec<char>)
    ensures
        res@ == trim_quotes(s@),
{
    let mut lo: usize = 0;
    assert(s@.skip(0) =~= s@);
    while lo < s.len() && s[lo] == '\''
        invariant
            0 <= lo <= s.len(),
            trim_quotes_start(s@) == trim_quotes_start(s@.skip(lo as int)),
        decreases s.len() - lo,
    {
        assert(s@.skip(lo as int).drop_first() =~= s@.skip(lo + 1));
        lo += 1;
    }
    let ghost start = s@.skip(lo as int);
    assert(trim_quotes_start(start) == start);
    let mut hi: usize = s.len();
    assert(start.take(hi - lo) =~= start);
    while hi > lo && s[hi - 1] == '\''
        invariant
            lo <= hi <= s.len(),
            start == s@.skip(lo as int),
            trim_quotes_end(start) == trim_quotes_end(start.take(hi - lo)),
        decreases hi - lo,
    {
        assert(start.take(hi - lo).drop_last() =~= start.take(hi - 1 - lo));
        hi -= 1;
    }
    let res = sub_chars(s, lo, hi);
    assert(res@ =~= start.take(hi - lo));
    res
}

/// Extract sheet name from a formula reference like "Sheet1!$1:$3" or "'My Sheet'!$A:$B".
pub fn extract_sheet_name(formula: &str) -> (res: Option<String>)
    ensures
        match res {
            Some(n) => spec_extract_sheet_name(formula@) == Some(n@),
            None => spec_extract_sheet_name(formula@) is None,
        },
{
    let cs = chars_of(formula);
    let part = match find_char(&cs, ',') {
        Some(k) => sub_chars(&cs, 0, k),
        None => sub_chars(&cs, 0, cs.len()),
    };
    assert(part@ =~= first_part(formula@));
    match rfind_char(&part, '!') {
        Some(bang) => {
            let name = sub_chars(&part, 0, bang);
            assert(name@ =~= part@.take(bang as int));
            let trimmed = trim_quote_chars(&name);
            Some(string_from_chars(&trimmed))
        },
        None => None,
    }
}

/// The two halves of `s` around its only `:`; none when it has no `:` or more than one.
pub open spec fn split_colon(s: Seq<char>) -> Option<(Seq<char>, Seq<char>)> {
    let k = first_index_of(s, ':');
    if k >= 0 && first_index_of(s.skip(k + 1), ':') < 0 {
        Some((s.take(k), s.skip(k + 1)))
    } else {
        None
    }
}

/// A row range like `$1:$3` as 0-based rows `(0, 2)`: `$` markers removed, exactly one `:`,
/// both ends whole numbers that `u32` holds, neither 0.
pub open spec fn spec_parse_row_range(s: Seq<char>) -> Option<(u32, u32)> {
    match split_colon(without_dollar(s)) {
        Some((a, b)) => match (std_parse_unsigned(a, u32::MAX as int), std_parse_unsigned(b, u32::MAX as int)) {
            (Some(first), Some(last)) => if first == 0 || last == 0 {
                None
            } else {
                Some(((first - 1) as u32, (last - 1) as u32))
            },
            _ => None,
        },
        None => None,
    }
}

fn split_colon_chars(s: &[char]) -> (res: Option<(Vec<char>, Vec<char>)>)
    ensures
        match res {
            Some((a, b)) => split_colon(s@) == Some((a@, b@)),
            None => split_colon(s@) is None,
        },
{
    match find_char(s, ':') {
        Some(k) => {
            let rest = sub_chars(s, k + 1, s.len());
            assert(rest@ =~= s@.skip(k + 1));
            match find_char(&rest, ':') {
                Some(_) => None,
                None => {
                    let first = sub_chars(s, 0, k);
                    assert(first@ =~= s@.take(k as int));
                    Some((first, rest))
                },
            }
        },
        None => None,
    }
}

fn remove_dollar_chars(s: &[char]) -> (res: Vec<char>)
    ensures
        res@ == without_dollar(s@),
{
    let mut res: Vec<char> = Vec::new();
    let mut i: usize = 0;
    while i < s.len()
        invariant
            0 <= i <= s.len(),
            res@ == without_dollar(s@.take(i as int)),
        decreases s.len() - i,
    {
        let ghost next = s@.take(i + 1);
        assert(next.drop_last() =~= s@.take(i as int));
        if s[i] != '$' {
            res.push(s[i]);
        }
        i += 1;
    }
    assert(s@.take(s.len() as int) =~= s@);
    res
}

/// Parse a row range like "$1:$3" → (0, 2) (0-based).
pub fn parse_row_range(s: &str) -> (res: Option<(u32, u32)>)
    ensures
        res == spec_parse_row_range(s@),
{
    let cs = remove_dollar_chars(&chars_of(s));
    match split_colon_chars(&cs) {
        Some((a, b)) => {
            let a_text = string_from_chars(&a);
            let b_text = string_from_chars(&b);
            match (parse_unsigned(a_text.as_str(), u32::MAX as u64), parse_unsigned(b_text.as_str(), u32::MAX as u64)) {
                (Some(first), Some(last)) => if first == 0 || last == 0 {
                    None
                } else {
                    Some(((first - 1) as u32, (last - 1) as u32))
                },
                _ => None,
            }
        },
        None => None,
    }
}

/// The 0-based column that column letters name in a 16-bit column number: none when empty, when
/// a non-letter occurs, or when the number does not fit (`A` → 0, `AA` → 26, either case).
pub open spec fn spec_col_letter_to_num(s: Seq<char>) -> Option<u16> {
    if s.len() > 0 && all_alpha(s) && col_value(s) <= u16::MAX {
        Some((col_value(s) - 1) as u16)
    } else {
        None
    }
}

proof fn lemma_col_value_pos(s: Seq<char>)
    requires
        s.len() > 0,
        all_alpha(s),
    ensures
        col_value(s) >= 1,
    decreases s.len(),
{
    let t = s.drop_last();
    assert(is_alpha(s[s.len() - 1]));
    if t.len() > 0 {
        assert(all_alpha(t)) by {
            assert forall|i: int| 0 <= i < t.len() implies #[trigger] is_alpha(t[i]) by {
                assert(t[i] == s[i]);
            }
        }
        lemma_col_value_pos(t);
    }
}

/// Convert column letter(s) to 0-based column number: "A" → 0, "B" → 1, "AA" → 26.
pub fn col_letter_to_num(s: &str) -> (res: Option<u16>)
    ensures
        res == spec_col_letter_to_num(s@),
{
    let cs = chars_of(s);
    if cs.len() == 0 {
        return None;
    }
    let cap: u32 = 65536;
    let mut n: u32 = 0;
    let mut i: usize = 0;
    while i < cs.len()
        invariant
            0 <= i <= cs.len(),
            cs@ == s@,
            all_alpha(cs@.take(i as int)),
            col_value(cs@.take(i as int)) >= 0,
            n == if col_value(cs@.take(i as int)) < cap { col_value(cs@.take(i as int)) } else { cap as int },
            cap == 65536,
        decreases cs.len() - i,
    {
        let c = cs[i];
        if !is_ascii_alpha(c) {
            assert(!is_alpha(cs@[i as int]));
            return None;
        }
        let d: u32 = if 'a' <= c && c <= 'z' { c as u32 - 'a' as u32 + 1 } else { c as u32 - 'A' as u32 + 1 };
        let ghost prev = cs@.take(i as int);
        let ghost next = cs@.take(i + 1);
        assert(next.drop_last() =~= prev);
        assert(next.last() == c);
        assert(col_value(next) == col_value(prev) * 26 + d);
        if n < cap {
            n = n * 26 + d;
            if n > cap {
                n = cap;
            }
        }
        assert(all_alpha(next)) by {
            assert forall|j: int| 0 <= j < next.len() implies #[trigger] is_alpha(next[j]) by {
                if j < i {
                    assert(next[j] == prev[j]);
                }
            }
        }
        i += 1;
    }
    assert(cs@.take(cs.len() as int) =~= cs@);
    proof {
        lemma_col_value_pos(cs@);
    }
    if n > 65535 {
        return None;
    }
    Some((n - 1) as u16)
}

/// A column range like `$A:$B` as 0-based columns `(0, 1)`: `$` markers removed, exactly one
/// `:`, both ends letters only and naming columns that `u16` holds.
pub open spec fn spec_parse_col_range(s: Seq<char>) -> Option<(u16, u16)> {
    match split_colon(without_dollar(s)) {
        Some((a, b)) => if all_alpha(a) && all_alpha(b) {
            match (spec_col_letter_to_num(a), spec_col_letter_to_num(b)) {
                (Some(first), Some(last)) => Some((first, last)),
                _ => None,
            }
        } else {
            None
        },
        None => None,
    }
}

fn chars_all_alpha(s: &[char]) -> (res: bool)
    ensures
        res == all_alpha(s@),
{
    let mut i: usize = 0;
    while i < s.len()
        invariant
            0 <= i <= s.len(),
            forall|j: int| 0 <= j < i ==> #[trigger] is_alpha(s@[j]),
        decreases s.len() - i,
    {
        if !is_ascii_alpha(s[i]) {
            return false;
        }
        i += 1;
    }
    true
}

/// Parse a column range like "$A:$B" → (0, 1) (0-based).
pub fn parse_col_range(s: &str) -> (res: Option<(u16, u16)>)
    ensures
        res == spec_parse_col_range(s@),
{
    let cs = remove_dollar_chars(&chars_of(s));
    match split_colon_chars(&cs) {
        Some((a, b)) => {
            if !chars_all_alpha(&a) || !chars_all_alpha(&b) {
                return None;
            }
            let a_text = string_from_chars(&a);
            let b_text = string_from_chars(&b);
            match (col_letter_to_num(a_text.as_str()), col_letter_to_num(b_text.as_str())) {
                (Some(first), Some(last)) => Some((first, last)),
                _ => None,
            }
        },
        None => None,
    }
}

/// The sheet and range of a pivot source such as `Sheet1!$A$1:$E$100`: the text before the first
/// `!` (quotes at its ends removed) and the text after it; without a `!`, `Sheet1` and the whole
/// text.
pub open spec fn spec_parse_pivot_source(s: Seq<char>) -> (Seq<char>, Seq<char>) {
    let k = first_index_of(s, '!');
    if k >= 0 {
        (trim_quotes(s.take(k)), s.skip(k + 1))
    } else {
        ("Sheet1"@, s)
    }
}

/// Split a pivot source reference into its sheet and its range.
pub fn parse_pivot_source(source_range: &str) -> (res: (String, String))
    ensures
        (res.0@, res.1@) == spec_parse_pivot_source(source_range@),
{
    let cs = chars_of(source_range);
    match find_char(&cs, '!') {
        Some(pos) => {
            let head = sub_chars(&cs, 0, pos);
            assert(head@ =~= cs@.take(pos as int));
            let sheet = trim_quote_chars(&head);
            let range = sub_chars(&cs, pos + 1, cs.len());
            assert(range@ =~= cs@.skip(pos + 1));
            (string_from_chars(&sheet), string_from_chars(&range))
        },
        None => (to_string("Sheet1"), to_string(source_range)),
    }
}

} // verus!
