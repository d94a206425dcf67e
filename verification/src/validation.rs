//! Reading the data validations of a sheet part (`<dataValidations>`).

use vstd::prelude::*;

use crate::numbers::{parse_i64, parse_unsigned, std_parse_signed, std_parse_unsigned};
use crate::sheet_links::split_on;
use crate::text::{chars_of, is_unicode_whitespace, is_whitespace, str_eq, string_from_chars, to_string, trim_start};
use crate::utility::{parse_cell_ref, parse_range_ref, spec_parse_cell_ref, spec_parse_range_ref, sub_chars, ColNum, RowNum};
use crate::xml::{
    attr_items, attr_value, decode_xml_ref, get_attr, local_name, local_part, scan_xml_with, spec_decode_ref,
    xml_events_in, xml_items, XmlAttr, XmlEvent, XmlItem,
};

verus! {

/// How Excel reacts to a value that breaks a validation.
#[derive(Debug, Clone, Copy, PartialEq, Eq, Structural)]
pub enum ErrorStyle {
    Stop,
    Warning,
    Information,
}

/// What a validation allows. Decimal bounds are kept as their formula text.
#[derive(Debug, Clone, PartialEq)]
pub enum ValidationRule {
    /// An inline list of choices.
    List(Vec<String>),
    /// Choices taken from a range.
    ListRange(String),
    WholeNumber { min: Option<i64>, max: Option<i64> },
    Decimal { min: Option<String>, max: Option<String> },
    DateRange { min: Option<String>, max: Option<String> },
    TextLength { min: Option<u32>, max: Option<u32> },
    Custom(String),
}

/// A data validation read from a sheet part.
#[derive(Debug, Clone)]
pub struct DataValidation {
    pub rule: ValidationRule,
    pub input_title: Option<String>,
    pub input_message: Option<String>,
    pub error_style: ErrorStyle,
    pub error_title: Option<String>,
    pub error_message: Option<String>,
    pub first_row: RowNum,
    pub first_col: ColNum,
    pub last_row: RowNum,
    pub last_col: ColNum,
}

/// The mathematical form of a [`ValidationRule`].
pub ghost enum RuleV {
    List(Seq<Seq<char>>),
    ListRange(Seq<char>),
    WholeNumber(Option<i64>, Option<i64>),
    Decimal(Option<Seq<char>>, Option<Seq<char>>),
    DateRange(Option<Seq<char>>, Option<Seq<char>>),
    TextLength(Option<u32>, Option<u32>),
    Custom(Seq<char>),
}

/// The view of an optional text.
pub open spec fn opt_chars(o: Option<String>) -> Option<Seq<char>> {
    match o {
        Some(s) => Some(s@),
        None => None,
    }
}

/// The view of a rule.
pub open spec fn rule_view(r: ValidationRule) -> RuleV {
    match r {
        ValidationRule::List(items) => RuleV::List(items@.map_values(|s: String| s@)),
        ValidationRule::ListRange(s) => RuleV::ListRange(s@),
        ValidationRule::WholeNumber { min, max } => RuleV::WholeNumber(min, max),
        ValidationRule::Decimal { min, max } => RuleV::Decimal(opt_chars(min), opt_chars(max)),
        ValidationRule::DateRange { min, max } => RuleV::DateRange(opt_chars(min), opt_chars(max)),
        ValidationRule::TextLength { min, max } => RuleV::TextLength(min, max),
        ValidationRule::Custom(s) => RuleV::Custom(s@),
    }
}

/// The mathematical form of a [`DataValidation`].
pub ghost struct ValidationV {
    pub rule: RuleV,
    pub input_title: Option<Seq<char>>,
    pub input_message: Option<Seq<char>>,
    pub error_style: ErrorStyle,
    pub error_title: Option<Seq<char>>,
    pub error_message: Option<Seq<char>>,
    pub range: (RowNum, ColNum, RowNum, ColNum),
}

/// The view of a data validation.
pub open spec fn validation_view(d: DataValidation) -> ValidationV {
    ValidationV {
        rule: rule_view(d.rule),
        input_title: opt_chars(d.input_title),
        input_message: opt_chars(d.input_message),
        error_style: d.error_style,
        error_title: opt_chars(d.error_title),
        error_message: opt_chars(d.error_message),
        range: (d.first_row, d.first_col, d.last_row, d.last_col),
    }
}

/// The attributes of a `<dataValidation>` element as the reader keeps them.
pub ghost struct DvAttrsV {
    pub dv_type: Seq<char>,
    pub operator: Seq<char>,
    pub sqref: Seq<char>,
    pub error_style: ErrorStyle,
    pub input_title: Option<Seq<char>>,
    pub input_message: Option<Seq<char>>,
    pub error_title: Option<Seq<char>>,
    pub error_message: Option<Seq<char>>,
}

/// An attribute's value when present and not empty.
pub open spec fn non_empty_attr(a: Seq<(Seq<char>, Seq<char>)>, key: Seq<char>) -> Option<Seq<char>> {
    match attr_value(a, key) {
        Some(v) => if v.len() > 0 {
            Some(v)
        } else {
            None
        },
        None => None,
    }
}

/// An attribute's value, or `dflt` when it is absent.
pub open spec fn attr_else(a: Seq<(Seq<char>, Seq<char>)>, key: Seq<char>, dflt: Seq<char>) -> Seq<char> {
    match attr_value(a, key) {
        Some(v) => v,
        None => dflt,
    }
}

/// What the reader keeps of a `<dataValidation>` element's attributes: type, operator
/// (`between` when absent), range, error style (stop unless `warning` or `information`), and
/// the prompt and error texts that are not empty.
pub open spec fn dv_attrs_of(a: Seq<(Seq<char>, Seq<char>)>) -> DvAttrsV {
    let style = attr_else(a, "errorStyle"@, "stop"@);
    DvAttrsV {
        dv_type: attr_else(a, "type"@, Seq::empty()),
        operator: attr_else(a, "operator"@, "between"@),
        sqref: attr_else(a, "sqref"@, Seq::empty()),
        error_style: if style == "warning"@ {
            ErrorStyle::Warning
        } else if style == "information"@ {
            ErrorStyle::Information
        } else {
            ErrorStyle::Stop
        },
        input_title: non_empty_attr(a, "promptTitle"@),
        input_message: non_empty_attr(a, "prompt"@),
        error_title: non_empty_attr(a, "errorTitle"@),
        error_message: non_empty_attr(a, "error"@),
    }
}

/// One `<dataValidation>` as read: its attributes and its two formulas when present.
pub type DvRecord = (DvAttrsV, Option<Seq<char>>, Option<Seq<char>>);

/// Where the reader stands: the validations read, and, inside a `<dataValidation>`, its
/// attributes, its formulas so far, which formula element is open, and the text collected.
pub ghost struct DvScan {
    pub records: Seq<DvRecord>,
    pub inside: Option<DvAttrsV>,
    pub f1: Option<Seq<char>>,
    pub f2: Option<Seq<char>>,
    pub in_f1: bool,
    pub in_f2: bool,
    pub text: Seq<char>,
}

/// Nothing read yet.
pub open spec fn dv_scan_start() -> DvScan {
    DvScan { records: Seq::empty(), inside: None, f1: None, f2: None, in_f1: false, in_f2: false, text: Seq::empty() }
}

/// Reading one event of a sheet part.
pub open spec fn dv_step(st: DvScan, ev: XmlItem) -> DvScan {
    match st.inside {
        None => match ev {
            XmlItem::Start { name, attrs } => if local_part(name) == "dataValidation"@ {
                DvScan {
                    inside: Some(dv_attrs_of(attrs)),
                    f1: None,
                    f2: None,
                    in_f1: false,
                    in_f2: false,
                    text: Seq::empty(),
                    ..st
                }
            } else {
                st
            },
            XmlItem::Empty { name, attrs } => if local_part(name) == "dataValidation"@ {
                DvScan { records: st.records.push((dv_attrs_of(attrs), None, None)), ..st }
            } else {
                st
            },
            _ => st,
        },
        Some(a) => match ev {
            XmlItem::Start { name, .. } => {
                let local = local_part(name);
                if local == "formula1"@ {
                    DvScan { in_f1: true, text: Seq::empty(), ..st }
                } else if local == "formula2"@ {
                    DvScan { in_f2: true, text: Seq::empty(), ..st }
                } else {
                    st
                }
            },
            XmlItem::Text(t) => if st.in_f1 || st.in_f2 {
                DvScan { text: st.text + t, ..st }
            } else {
                st
            },
            XmlItem::Ref(r) => if st.in_f1 || st.in_f2 {
                match spec_decode_ref(r) {
                    Some(x) => DvScan { text: st.text + x, ..st },
                    None => st,
                }
            } else {
                st
            },
            XmlItem::End { name } => {
                let local = local_part(name);
                if local == "formula1"@ {
                    DvScan { in_f1: false, f1: Some(st.text), ..st }
                } else if local == "formula2"@ {
                    DvScan { in_f2: false, f2: Some(st.text), ..st }
                } else if local == "dataValidation"@ {
                    DvScan { records: st.records.push((a, st.f1, st.f2)), inside: None, ..st }
                } else {
                    st
                }
            },
            _ => st,
        },
    }
}

/// The reading state after a run of events.
pub open spec fn dv_run(items: Seq<XmlItem>) -> DvScan
    decreases items.len(),
{
    if items.len() == 0 {
        dv_scan_start()
    } else {
        dv_step(dv_run(items.drop_last()), items.last())
    }
}

/// The validations read once the events run out: an open `<dataValidation>` counts with what
/// was read of it.
pub open spec fn dv_finish(st: DvScan) -> Seq<DvRecord> {
    match st.inside {
        Some(a) => st.records.push((a, st.f1, st.f2)),
        None => st.records,
    }
}

/// The `<dataValidation>` records of a sheet part (empty elements kept as they are; everything
/// before the end of input or the first XML error).
pub open spec fn dv_records(data: Seq<u8>) -> Seq<DvRecord> {
    dv_finish(dv_run(xml_events_in(data, false).0))
}

/// The text up to the first whitespace after any leading whitespace (`split_whitespace` first
/// piece, empty when there is none).
pub open spec fn first_token(s: Seq<char>) -> Seq<char> {
    let t = trim_start(s);
    t.take(first_space(t))
}

/// The index of the first whitespace character, or the length.
pub open spec fn first_space(t: Seq<char>) -> int
    decreases t.len(),
{
    if t.len() == 0 {
        0
    } else if is_unicode_whitespace(t[0]) {
        0
    } else {
        1 + first_space(t.drop_first())
    }
}

/// The range a validation applies to: the first piece of its `sqref` read as a range, else as
/// a single cell.
pub open spec fn dv_range(sqref: Seq<char>) -> Option<(RowNum, ColNum, RowNum, ColNum)> {
    let r = first_token(sqref);
    match spec_parse_range_ref(r) {
        Some(rg) => Some(rg),
        None => match spec_parse_cell_ref(r) {
            Some(rc) => Some((rc.0, rc.1, rc.0, rc.1)),
            None => None,
        },
    }
}

/// Which formulas bound a rule under an operator: both for `between` (and unknown operators),
/// the first as minimum for `greaterThan(OrEqual)`, the first as maximum for `lessThan(OrEqual)`,
/// the first as both for `equal`.
pub open spec fn bound_texts(op: Seq<char>, f1: Option<Seq<char>>, f2: Option<Seq<char>>) -> (
    Option<Seq<char>>,
    Option<Seq<char>>,
) {
    if op == "greaterThan"@ || op == "greaterThanOrEqual"@ {
        (f1, None)
    } else if op == "lessThan"@ || op == "lessThanOrEqual"@ {
        (None, f1)
    } else if op == "equal"@ {
        (f1, f1)
    } else {
        (f1, f2)
    }
}

/// A bound read as an `i64`.
pub open spec fn i64_bound(t: Option<Seq<char>>) -> Option<i64> {
    match t {
        Some(s) => match std_parse_signed(s, i64::MIN as int, i64::MAX as int) {
            Some(v) => Some(v as i64),
            None => None,
        },
        None => None,
    }
}

/// A bound read as a `u32`.
pub open spec fn u32_bound(t: Option<Seq<char>>) -> Option<u32> {
    match t {
        Some(s) => match std_parse_unsigned(s, u32::MAX as int) {
            Some(v) => Some(v as u32),
            None => None,
        },
        None => None,
    }
}

/// Whether a list formula is a quoted inline list (`"a,b,c"`).
pub open spec fn is_quoted(s: Seq<char>) -> bool {
    s.len() >= 2 && s[0] == '"' && s.last() == '"'
}

/// The rule a validation's type, operator and formulas give; none for an unknown type, or a
/// list or custom rule without a first formula.
pub open spec fn rule_of(t: Seq<char>, op: Seq<char>, f1: Option<Seq<char>>, f2: Option<Seq<char>>) -> Option<RuleV> {
    let b = bound_texts(op, f1, f2);
    if t == "list"@ {
        match f1 {
            Some(s) => if is_quoted(s) {
                Some(RuleV::List(split_on(s.subrange(1, s.len() - 1), ',')))
            } else {
                Some(RuleV::ListRange(s))
            },
            None => None,
        }
    } else if t == "whole"@ {
        Some(RuleV::WholeNumber(i64_bound(b.0), i64_bound(b.1)))
    } else if t == "decimal"@ {
        Some(RuleV::Decimal(b.0, b.1))
    } else if t == "date"@ || t == "time"@ {
        Some(RuleV::DateRange(b.0, b.1))
    } else if t == "textLength"@ {
        Some(RuleV::TextLength(u32_bound(b.0), u32_bound(b.1)))
    } else if t == "custom"@ {
        match f1 {
            Some(s) => Some(RuleV::Custom(s)),
            None => None,
        }
    } else {
        None
    }
}

/// The validation a record gives, when its range and rule can be read.
pub open spec fn validation_of(r: DvRecord) -> Option<ValidationV> {
    match dv_range(r.0.sqref) {
        Some(rg) => match rule_of(r.0.dv_type, r.0.operator, r.1, r.2) {
            Some(rule) => Some(
                ValidationV {
                    rule,
                    input_title: r.0.input_title,
                    input_message: r.0.input_message,
                    error_style: r.0.error_style,
                    error_title: r.0.error_title,
                    error_message: r.0.error_message,
                    range: rg,
                },
            ),
            None => None,
        },
        None => None,
    }
}

/// The validations of a run of records, those that can be read.
pub open spec fn validations_of(rs: Seq<DvRecord>) -> Seq<ValidationV>
    decreases rs.len(),
{
    if rs.len() == 0 {
        Seq::empty()
    } else {
        match validation_of(rs.last()) {
            Some(v) => validations_of(rs.drop_last()).push(v),
            None => validations_of(rs.drop_last()),
        }
    }
}

/// A list validation over a readable range whose first formula is a lone `"`: the reader cuts
/// that formula between its first and last character, which fails.
pub open spec fn cuts_lone_quote(r: DvRecord) -> bool {
    &&& dv_range(r.0.sqref) is Some
    &&& r.0.dv_type == "list"@
    &&& r.1 == Some(seq!['"'])
}

/// What `parse_data_validations` reads from a sheet part.
pub open spec fn spec_parse_data_validations(data: Seq<u8>) -> Seq<ValidationV> {
    validations_of(dv_records(data))
}

/// The attributes of a `<dataValidation>` element as the reader keeps them.
struct DvAttrs {
    dv_type: String,
    operator: String,
    sqref: String,
    error_style: ErrorStyle,
    input_title: Option<String>,
    input_message: Option<String>,
    error_title: Option<String>,
    error_message: Option<String>,
}

spec fn dv_attrs_view(a: DvAttrs) -> DvAttrsV {
    DvAttrsV {
        dv_type: a.dv_type@,
        operator: a.operator@,
        sqref: a.sqref@,
        error_style: a.error_style,
        input_title: opt_chars(a.input_title),
        input_message: opt_chars(a.input_message),
        error_title: opt_chars(a.error_title),
        error_message: opt_chars(a.error_message),
    }
}

fn attr_else_exec(attrs: &[XmlAttr], key: &str, dflt: &str) -> (res: String)
    ensures
        res@ == attr_else(attr_items(attrs@), key@, dflt@),
{
    match get_attr(attrs, key) {
        Some(v) => to_string(v.as_str()),
        None => to_string(dflt),
    }
}

fn non_empty_attr_exec(attrs: &[XmlAttr], key: &str) -> (res: Option<String>)
    ensures
        opt_chars(res) == non_empty_attr(attr_items(attrs@), key@),
{
    match get_attr(attrs, key) {
        Some(v) => if chars_of(v.as_str()).len() > 0 {
            Some(to_string(v.as_str()))
        } else {
            None
        },
        None => None,
    }
}

impl DvAttrs {
    fn from_event(attrs: &[XmlAttr]) -> (res: Self)
        ensures
            dv_attrs_view(res) == dv_attrs_of(attr_items(attrs@)),
    {
        proof {
            reveal_strlit("");
            assert(""@ =~= Seq::<char>::empty());
        }
        let style = attr_else_exec(attrs, "errorStyle", "stop");
        let error_style = if str_eq(style.as_str(), "warning") {
            ErrorStyle::Warning
        } else if str_eq(style.as_str(), "information") {
            ErrorStyle::Information
        } else {
            ErrorStyle::Stop
        };
        DvAttrs {
            dv_type: attr_else_exec(attrs, "type", ""),
            operator: attr_else_exec(attrs, "operator", "between"),
            sqref: attr_else_exec(attrs, "sqref", ""),
            error_style,
            input_title: non_empty_attr_exec(attrs, "promptTitle"),
            input_message: non_empty_attr_exec(attrs, "prompt"),
            error_title: non_empty_attr_exec(attrs, "errorTitle"),
            error_message: non_empty_attr_exec(attrs, "error"),
        }
    }
}

fn clone_opt(o: &Option<String>) -> (res: Option<String>)
    ensures
        opt_chars(res) == opt_chars(*o),
{
    match o {
        Some(s) => Some(to_string(s.as_str())),
        None => None,
    }
}

/// The formulas that bound a rule under an operator.
fn parse_string_range(operator: &str, formula1: &Option<String>, formula2: &Option<String>) -> (res: (
    Option<String>,
    Option<String>,
))
    ensures
        (opt_chars(res.0), opt_chars(res.1)) == bound_texts(operator@, opt_chars(*formula1), opt_chars(*formula2)),
{
    if str_eq(operator, "greaterThan") || str_eq(operator, "greaterThanOrEqual") {
        (clone_opt(formula1), None)
    } else if str_eq(operator, "lessThan") || str_eq(operator, "lessThanOrEqual") {
        (None, clone_opt(formula1))
    } else if str_eq(operator, "equal") {
        (clone_opt(formula1), clone_opt(formula1))
    } else {
        (clone_opt(formula1), clone_opt(formula2))
    }
}

fn i64_bound_exec(t: &Option<String>) -> (res: Option<i64>)
    ensures
        res == i64_bound(opt_chars(*t)),
{
    match t {
        Some(s) => parse_i64(s.as_str()),
        None => None,
    }
}

fn u32_bound_exec(t: &Option<String>) -> (res: Option<u32>)
    ensures
        res == u32_bound(opt_chars(*t)),
{
    match t {
        Some(s) => match parse_unsigned(s.as_str(), 4294967295) {
            Some(v) => Some(v as u32),
            None => None,
        },
        None => None,
    }
}

fn split_commas(s: &[char]) -> (res: Vec<String>)
    ensures
        res@.map_values(|x: String| x@) == split_on(s@, ','),
{
    let mut parts: Vec<String> = Vec::new();
    let mut start: usize = 0;
    let mut i: usize = 0;
    assert(s@.skip(0) =~= s@);
    assert(parts@.map_values(|x: String| x@) + split_on(s@, ',') =~= split_on(s@, ','));
    while i < s.len()
        invariant
            0 <= start <= i <= s.len(),
            parts@.map_values(|x: String| x@) + split_on(s@.skip(start as int), ',') == split_on(s@, ','),
            forall|k: int| start <= k < i ==> #[trigger] s@[k] != ',',
        decreases s.len() - i,
    {
        if s[i] == ',' {
            let piece = sub_chars(s, start, i);
            let ghost rest = s@.skip(start as int);
            proof {
                lemma_first_comma(rest, (i - start) as int);
            }
            assert(piece@ =~= rest.take((i - start) as int));
            assert(rest.skip((i - start) + 1) =~= s@.skip(i + 1));
            let ghost before = parts@.map_values(|x: String| x@);
            parts.push(string_from_chars(&piece));
            assert(parts@.map_values(|x: String| x@) =~= before.push(piece@));
            assert(before + split_on(rest, ',') =~= before.push(piece@) + split_on(s@.skip(i + 1), ','));
            start = i + 1;
        }
        i += 1;
    }
    let piece = sub_chars(s, start, s.len());
    let ghost rest = s@.skip(start as int);
    proof {
        lemma_no_comma(rest);
    }
    assert(piece@ =~= rest);
    let ghost before = parts@.map_values(|x: String| x@);
    parts.push(string_from_chars(&piece));
    assert(parts@.map_values(|x: String| x@) =~= before + split_on(rest, ','));
    parts
}

proof fn lemma_first_comma(t: Seq<char>, k: int)
    requires
        0 <= k < t.len(),
        t[k] == ',',
        forall|j: int| 0 <= j < k ==> #[trigger] t[j] != ',',
    ensures
        crate::utility::first_index_of(t, ',') == k,
    decreases k,
{
    if k > 0 {
        let u = t.drop_first();
        assert forall|j: int| 0 <= j < k - 1 implies #[trigger] u[j] != ',' by {
            assert(u[j] == t[j + 1]);
        }
        assert(u[k - 1] == t[k]);
        lemma_first_comma(u, k - 1);
        assert(t[0] != ',');
    }
}

proof fn lemma_no_comma(t: Seq<char>)
    requires
        forall|j: int| 0 <= j < t.len() ==> #[trigger] t[j] != ',',
    ensures
        crate::utility::first_index_of(t, ',') == -1,
    decreases t.len(),
{
    if t.len() > 0 {
        let u = t.drop_first();
        assert forall|j: int| 0 <= j < u.len() implies #[trigger] u[j] != ',' by {
            assert(u[j] == t[j + 1]);
        }
        lemma_no_comma(u);
        assert(t[0] != ',');
    }
}

/// The rule a validation's type, operator and formulas give.
fn build_validation_rule(dv_type: &str, operator: &str, formula1: &Option<String>, formula2: &Option<String>) -> (res:
    Option<ValidationRule>)
    requires
        !(dv_type@ == "list"@ && opt_chars(*formula1) == Some(seq!['"'])),
    ensures
        match res {
            Some(r) => rule_of(dv_type@, operator@, opt_chars(*formula1), opt_chars(*formula2)) == Some(rule_view(r)),
            None => rule_of(dv_type@, operator@, opt_chars(*formula1), opt_chars(*formula2)) is None,
        },
{
    if str_eq(dv_type, "list") {
        match formula1 {
            Some(f1) => {
                let cs = chars_of(f1.as_str());
                let n = cs.len();
                if n > 0 && cs[0] == '"' && cs[n - 1] == '"' {
                    assert(n >= 2) by {
                        if n == 1 {
                            assert(cs@ =~= seq!['"']);
                        }
                    }
                    let inner = sub_chars(&cs, 1, n - 1);
                    let items = split_commas(&inner);
                    assert(inner@ =~= f1@.subrange(1, f1@.len() - 1));
                    Some(ValidationRule::List(items))
                } else {
                    Some(ValidationRule::ListRange(to_string(f1.as_str())))
                }
            },
            None => None,
        }
    } else if str_eq(dv_type, "whole") {
        let (lo, hi) = parse_string_range(operator, formula1, formula2);
        Some(ValidationRule::WholeNumber { min: i64_bound_exec(&lo), max: i64_bound_exec(&hi) })
    } else if str_eq(dv_type, "decimal") {
        let (lo, hi) = parse_string_range(operator, formula1, formula2);
        Some(ValidationRule::Decimal { min: lo, max: hi })
    } else if str_eq(dv_type, "date") || str_eq(dv_type, "time") {
        let (lo, hi) = parse_string_range(operator, formula1, formula2);
        Some(ValidationRule::DateRange { min: lo, max: hi })
    } else if str_eq(dv_type, "textLength") {
        let (lo, hi) = parse_string_range(operator, formula1, formula2);
        Some(ValidationRule::TextLength { min: u32_bound_exec(&lo), max: u32_bound_exec(&hi) })
    } else if str_eq(dv_type, "custom") {
        match formula1 {
            Some(f1) => Some(ValidationRule::Custom(to_string(f1.as_str()))),
            None => None,
        }
    } else {
        None
    }
}

fn first_token_exec(s: &str) -> (res: String)
    ensures
        res@ == first_token(s@),
{
    let cs = chars_of(s);
    let mut i: usize = 0;
    assert(cs@.skip(0) =~= cs@);
    while i < cs.len() && is_whitespace(cs[i])
        invariant
            0 <= i <= cs.len(),
            cs@ == s@,
            trim_start(s@) == trim_start(cs@.skip(i as int)),
        decreases cs.len() - i,
    {
        assert(cs@.skip(i as int).drop_first() =~= cs@.skip(i + 1));
        i += 1;
    }
    let ghost t = cs@.skip(i as int);
    assert(trim_start(t) == t) by {
        if t.len() > 0 {
            assert(t[0] == cs@[i as int]);
        }
    }
    let mut j: usize = i;
    while j < cs.len() && !is_whitespace(cs[j])
        invariant
            i <= j <= cs.len(),
            cs@ == s@,
            t == cs@.skip(i as int),
            first_space(t) == (j - i) + first_space(cs@.skip(j as int)),
        decreases cs.len() - j,
    {
        assert(cs@.skip(j as int).drop_first() =~= cs@.skip(j + 1));
        assert(cs@.skip(j as int)[0] == cs@[j as int]);
        j += 1;
    }
    assert(first_space(cs@.skip(j as int)) == 0) by {
        if j < cs.len() {
            assert(cs@.skip(j as int)[0] == cs@[j as int]);
        }
    }
    let tok = sub_chars(&cs, i, j);
    assert(tok@ =~= t.take(first_space(t)));
    string_from_chars(&tok)
}

pub(crate) fn dv_range_exec(sqref: &str) -> (res: Option<(RowNum, ColNum, RowNum, ColNum)>)
    ensures
        res == dv_range(sqref@),
{
    let r = first_token_exec(sqref);
    match parse_range_ref(r.as_str()) {
        Ok(rg) => Some(rg),
        Err(_) => match parse_cell_ref(r.as_str()) {
            Ok((row, col)) => Some((row, col, row, col)),
            Err(_) => None,
        },
    }
}

/// The validation a `<dataValidation>` record gives, when its range and rule can be read.
fn build_dv(attrs: DvAttrs, formula1: Option<String>, formula2: Option<String>) -> (res: Option<DataValidation>)
    requires
        !cuts_lone_quote((dv_attrs_view(attrs), opt_chars(formula1), opt_chars(formula2))),
    ensures
        match res {
            Some(d) => validation_of((dv_attrs_view(attrs), opt_chars(formula1), opt_chars(formula2))) == Some(
                validation_view(d),
            ),
            None => validation_of((dv_attrs_view(attrs), opt_chars(formula1), opt_chars(formula2))) is None,
        },
{
    let (first_row, first_col, last_row, last_col) = match dv_range_exec(attrs.sqref.as_str()) {
        Some(rg) => rg,
        None => {
            return None;
        },
    };
    let rule = match build_validation_rule(attrs.dv_type.as_str(), attrs.operator.as_str(), &formula1, &formula2) {
        Some(r) => r,
        None => {
            return None;
        },
    };
    Some(
        DataValidation {
            rule,
            input_title: attrs.input_title,
            input_message: attrs.input_message,
            error_style: attrs.error_style,
            error_title: attrs.error_title,
            error_message: attrs.error_message,
            first_row,
            first_col,
            last_row,
            last_col,
        },
    )
}

/// The views of a list of exec records.
spec fn record_views(v: Seq<(DvAttrs, Option<String>, Option<String>)>) -> Seq<DvRecord> {
    v.map_values(|r: (DvAttrs, Option<String>, Option<String>)| (dv_attrs_view(r.0), opt_chars(r.1), opt_chars(r.2)))
}

spec fn opt_attrs_view(o: Option<DvAttrs>) -> Option<DvAttrsV> {
    match o {
        Some(a) => Some(dv_attrs_view(a)),
        None => None,
    }
}

/// The `<dataValidation>` records of a sheet part.
fn data_validation_records(data: &[u8]) -> (res: Vec<(DvAttrs, Option<String>, Option<String>)>)
    ensures
        record_views(res@) == dv_records(data@),
{
    let scan = scan_xml_with(data, false);
    let ghost items = xml_items(scan.events@);
    let mut records: Vec<(DvAttrs, Option<String>, Option<String>)> = Vec::new();
    let mut inside: Option<DvAttrs> = None;
    let mut f1: Option<String> = None;
    let mut f2: Option<String> = None;
    let mut in_f1 = false;
    let mut in_f2 = false;
    let mut text = String::new();
    assert(record_views(records@) =~= Seq::<DvRecord>::empty());
    let mut i: usize = 0;
    while i < scan.events.len()
        invariant
            0 <= i <= scan.events.len(),
            items == xml_items(scan.events@),
            dv_run(items.take(i as int)) == (DvScan {
                records: record_views(records@),
                inside: opt_attrs_view(inside),
                f1: opt_chars(f1),
                f2: opt_chars(f2),
                in_f1,
                in_f2,
                text: text@,
            }),
        decreases scan.events.len() - i,
    {
        assert(items.take(i + 1).drop_last() =~= items.take(i as int));
        assert(items.take(i + 1).last() == scan.events@[i as int]@);
        let ghost before = record_views(records@);
        let ghost expected = dv_step(dv_run(items.take(i as int)), scan.events@[i as int]@);
        match inside {
            None => match &scan.events[i] {
                XmlEvent::Start { name, attrs } => {
                    let local = local_name(name.as_str());
                    if str_eq(local.as_str(), "dataValidation") {
                        inside = Some(DvAttrs::from_event(attrs.as_slice()));
                        f1 = None;
                        f2 = None;
                        in_f1 = false;
                        in_f2 = false;
                        text = String::new();
                    }
                },
                XmlEvent::Empty { name, attrs } => {
                    let local = local_name(name.as_str());
                    if str_eq(local.as_str(), "dataValidation") {
                        let a = DvAttrs::from_event(attrs.as_slice());
                        let ghost av = dv_attrs_view(a);
                        records.push((a, None, None));
                        assert(record_views(records@) =~= before.push((av, None, None)));
                    }
                },
                _ => {},
            },
            Some(a) => {
                match &scan.events[i] {
                    XmlEvent::Start { name, .. } => {
                        let local = local_name(name.as_str());
                        if str_eq(local.as_str(), "formula1") {
                            in_f1 = true;
                            text = String::new();
                        } else if str_eq(local.as_str(), "formula2") {
                            in_f2 = true;
                            text = String::new();
                        }
                        inside = Some(a);
                    },
                    XmlEvent::Text(t) => {
                        if in_f1 || in_f2 {
                            crate::text::push_str(&mut text, t.as_str());
                        }
                        inside = Some(a);
                    },
                    XmlEvent::Ref(r) => {
                        if in_f1 || in_f2 {
                            match decode_xml_ref(r.as_str()) {
                                Some(x) => {
                                    crate::text::push_str(&mut text, x.as_str());
                                },
                                None => {},
                            }
                        }
                        inside = Some(a);
                    },
                    XmlEvent::End { name } => {
                        let local = local_name(name.as_str());
                        if str_eq(local.as_str(), "formula1") {
                            in_f1 = false;
                            f1 = Some(to_string(text.as_str()));
                            inside = Some(a);
                        } else if str_eq(local.as_str(), "formula2") {
                            in_f2 = false;
                            f2 = Some(to_string(text.as_str()));
                            inside = Some(a);
                        } else if str_eq(local.as_str(), "dataValidation") {
                            let ghost rv = (dv_attrs_view(a), opt_chars(f1), opt_chars(f2));
                            let g1 = clone_opt(&f1);
                            let g2 = clone_opt(&f2);
                            records.push((a, g1, g2));
                            assert(record_views(records@) =~= before.push(rv));
                            inside = None;
                        } else {
                            inside = Some(a);
                        }
                    },
                    _ => {
                        inside = Some(a);
                    },
                }
            },
        }
        i += 1;
    }
    assert(items.take(scan.events.len() as int) =~= items);
    match inside {
        Some(a) => {
            let ghost before = record_views(records@);
            let ghost rv = (dv_attrs_view(a), opt_chars(f1), opt_chars(f2));
            records.push((a, f1, f2));
            assert(record_views(records@) =~= before.push(rv));
        },
        None => {},
    }
    records
}

/// Whether some record of the part is a list over a readable range whose first formula is a
/// lone `"`.
pub open spec fn has_lone_quote_list(data: Seq<u8>) -> bool {
    exists|k: int| 0 <= k < dv_records(data).len() && cuts_lone_quote(#[trigger] dv_records(data)[k])
}

fn build_all(records: Vec<(DvAttrs, Option<String>, Option<String>)>) -> (res: Vec<DataValidation>)
    requires
        forall|k: int| 0 <= k < records@.len() ==> !cuts_lone_quote(#[trigger] record_views(records@)[k]),
    ensures
        res@.map_values(|d: DataValidation| validation_view(d)) == validations_of(record_views(records@)),
{
    let ghost rv = record_views(records@);
    let mut out: Vec<DataValidation> = Vec::new();
    let mut rest = records;
    let mut k: usize = 0;
    assert(out@.map_values(|d: DataValidation| validation_view(d)) =~= Seq::<ValidationV>::empty());
    assert(rv.take(0) =~= Seq::<DvRecord>::empty());
    assert(record_views(rest@) =~= rv.skip(0));
    let n = rest.len();
    assert(rv.len() == rest@.len());
    assert(rv.len() == n);
    while rest.len() > 0
        invariant
            k <= rv.len(),
            rv.len() <= usize::MAX,
            k + rest@.len() == rv.len(),
            forall|j: int| 0 <= j < rv.len() ==> !cuts_lone_quote(#[trigger] rv[j]),
            record_views(rest@) == rv.skip(k as int),
            out@.map_values(|d: DataValidation| validation_view(d)) == validations_of(rv.take(k as int)),
        decreases rest.len(),
    {
        let ghost before_rest = rest@;
        assert(record_views(before_rest).len() == before_rest.len());
        assert(rv.skip(k as int).len() == before_rest.len());
        assert(record_views(before_rest)[0] == rv.skip(k as int)[0]);
        assert(record_views(before_rest)[0] == rv[k as int]);
        let r = rest.remove(0);
        assert(rest@ =~= before_rest.subrange(1, before_rest.len() as int));
        assert forall|j: int| 0 <= j < rest@.len() implies #[trigger] record_views(rest@)[j] == rv.skip(k + 1)[j] by {
            assert(record_views(rest@)[j] == record_views(before_rest)[j + 1]);
            assert(record_views(before_rest)[j + 1] == rv.skip(k as int)[j + 1]);
        }
        assert(record_views(rest@) =~= rv.skip(k + 1));
        let (a, f1, f2) = r;
        assert(rv.take(k + 1).drop_last() =~= rv.take(k as int));
        assert(rv.take(k + 1).last() == rv[k as int]);
        match build_dv(a, f1, f2) {
            Some(d) => {
                let ghost before = out@.map_values(|d: DataValidation| validation_view(d));
                out.push(d);
                assert(out@.map_values(|d: DataValidation| validation_view(d)) =~= before.push(validation_view(d)));
            },
            None => {},
        }
        k += 1;
    }
    assert(k == rv.len());
    assert(rv.take(k as int) =~= rv);
    out
}

/// Parse the data validations of a sheet part. A validation whose range or rule cannot be read
/// is left out.
pub fn parse_data_validations(data: &[u8]) -> (res: Vec<DataValidation>)
    requires
        !has_lone_quote_list(data@),
    ensures
        res@.map_values(|d: DataValidation| validation_view(d)) == spec_parse_data_validations(data@),
{
    let records = data_validation_records(data);
    assert forall|k: int| 0 <= k < records@.len() implies !cuts_lone_quote(#[trigger] record_views(records@)[k]) by {
        assert(record_views(records@)[k] == dv_records(data@)[k]);
    }
    build_all(records)
}

fn lone_quote_exec(r: &(DvAttrs, Option<String>, Option<String>)) -> (res: bool)
    ensures
        res == cuts_lone_quote((dv_attrs_view(r.0), opt_chars(r.1), opt_chars(r.2))),
{
    if !str_eq(r.0.dv_type.as_str(), "list") {
        return false;
    }
    match &r.1 {
        Some(f) => {
            let cs = chars_of(f.as_str());
            if cs.len() == 1 && cs[0] == '"' {
                assert(cs@ =~= seq!['"']);
                dv_range_exec(r.0.sqref.as_str()).is_some()
            } else {
                assert(cs@ != seq!['"']) by {
                    if cs@ == seq!['"'] {
                        assert(cs@.len() == 1);
                    }
                }
                false
            }
        },
        None => false,
    }
}

/// Parse the data validations of a sheet part, or `None` when one of them is a list whose
/// first formula is a lone `"` (which cannot be cut into an inline list).
pub fn checked_data_validations(data: &[u8]) -> (res: Option<Vec<DataValidation>>)
    ensures
        res is None <==> has_lone_quote_list(data@),
        res matches Some(v) ==> v@.map_values(|d: DataValidation| validation_view(d))
            == spec_parse_data_validations(data@),
{
    let records = data_validation_records(data);
    let ghost rv = record_views(records@);
    let mut k: usize = 0;
    while k < records.len()
        invariant
            0 <= k <= records.len(),
            rv == record_views(records@),
            rv == dv_records(data@),
            forall|j: int| 0 <= j < k ==> !cuts_lone_quote(#[trigger] rv[j]),
        decreases records.len() - k,
    {
        assert(rv[k as int] == (dv_attrs_view(records@[k as int].0), opt_chars(records@[k as int].1), opt_chars(
            records@[k as int].2,
        )));
        if lone_quote_exec(&records[k]) {
            assert(cuts_lone_quote(dv_records(data@)[k as int]));
            return None;
        }
        k += 1;
    }
    Some(parse_data_validations(data))
}

} // verus!

verus! {

fn clone_strings(v: &Vec<String>) -> (res: Vec<String>)
    ensures
        res@ == v@,
{
    let mut res: Vec<String> = Vec::new();
    let mut i: usize = 0;
    while i < v.len()
        invariant
            0 <= i <= v.len(),
            res@ == v@.take(i as int),
        decreases v.len() - i,
    {
        res.push(v[i].clone());
        assert(res@ =~= v@.take(i + 1));
        i += 1;
    }
    assert(v@.take(v.len() as int) =~= v@);
    res
}

fn clone_opt_string(o: &Option<String>) -> (res: Option<String>)
    ensures
        res == *o,
{
    match o {
        Some(s) => Some(s.clone()),
        None => None,
    }
}

impl ValidationRule {
    /// A copy of this rule.
    pub fn duplicate(&self) -> (res: ValidationRule)
        ensures
            rule_view(res) == rule_view(*self),
    {
        match self {
            ValidationRule::List(items) => ValidationRule::List(clone_strings(items)),
            ValidationRule::ListRange(s) => ValidationRule::ListRange(s.clone()),
            ValidationRule::WholeNumber { min, max } => ValidationRule::WholeNumber { min: *min, max: *max },
            ValidationRule::Decimal { min, max } => ValidationRule::Decimal {
                min: clone_opt_string(min),
                max: clone_opt_string(max),
            },
            ValidationRule::DateRange { min, max } => ValidationRule::DateRange {
                min: clone_opt_string(min),
                max: clone_opt_string(max),
            },
            ValidationRule::TextLength { min, max } => ValidationRule::TextLength { min: *min, max: *max },
            ValidationRule::Custom(s) => ValidationRule::Custom(s.clone()),
        }
    }
}

impl DataValidation {
    /// A copy of this validation.
    pub fn duplicate(&self) -> (res: DataValidation)
        ensures
            validation_view(res) == validation_view(*self),
    {
        DataValidation {
            rule: self.rule.duplicate(),
            input_title: clone_opt_string(&self.input_title),
            input_message: clone_opt_string(&self.input_message),
            error_style: self.error_style,
            error_title: clone_opt_string(&self.error_title),
            error_message: clone_opt_string(&self.error_message),
            first_row: self.first_row,
            first_col: self.first_col,
            last_row: self.last_row,
            last_col: self.last_col,
        }
    }
}

} // verus!
