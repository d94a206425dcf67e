//! Reading the conditional formats of a sheet part (`<conditionalFormatting>`), with each
//! rule's differential format resolved from the style part's `dxf` table.

use vstd::prelude::*;
use vstd::utf8::encode_utf8;

use crate::format::{BorderStyle, Format, Pattern, Underline};
use crate::numbers::{float_syntax, parse_rgb_color, parse_unsigned, reads_as_float, spec_parse_rgb, std_parse_unsigned};
use crate::style_parser::{DxfRecord, DxfV, ParsedBorder, ParsedFill};
use crate::text::{str_eq, to_string};
use crate::utility::{ColNum, RowNum};
use crate::validation::{dv_range, dv_range_exec};
use crate::xml::{
    attr_items, attr_value, decode_xml_ref, get_attr, local_name, local_part, scan_xml_with, spec_decode_ref,
    xml_events_in, xml_items, XmlAttr, XmlEvent, XmlItem,
};

verus! {

/// The comparison of a `cellIs` rule.
#[derive(Debug, Clone, Copy, PartialEq, Eq, Structural)]
pub enum CfOperator {
    GreaterThan,
    LessThan,
    Between,
    EqualTo,
    NotEqualTo,
    GreaterThanOrEqual,
    LessThanOrEqual,
}

/// The icons of an icon-set rule.
#[derive(Debug, Clone, Copy, PartialEq, Eq, Structural)]
pub enum IconSetType {
    ThreeArrows,
    ThreeTrafficLights,
    ThreeSymbols,
    FourArrows,
    FiveArrows,
}

/// Which end of the values a top/bottom rule marks.
#[derive(Debug, Clone, Copy, PartialEq, Eq, Structural)]
pub enum TopBottomType {
    Top,
    Bottom,
    TopPercent,
    BottomPercent,
}

/// How a text rule matches.
#[derive(Debug, Clone, Copy, PartialEq, Eq, Structural)]
pub enum TextOperator {
    Contains,
    NotContains,
    BeginsWith,
    EndsWith,
}

/// Which side of the average a rule marks.
#[derive(Debug, Clone, Copy, PartialEq, Eq, Structural)]
pub enum AverageType {
    Above,
    Below,
    AboveOrEqual,
    BelowOrEqual,
}

/// The period of a date rule.
#[derive(Debug, Clone, Copy, PartialEq, Eq, Structural)]
pub enum DateOccurring {
    Yesterday,
    Today,
    Tomorrow,
    Last7Days,
    ThisWeek,
    LastWeek,
    NextWeek,
    ThisMonth,
    LastMonth,
    NextMonth,
}

/// A conditional-format rule. The values of a `cellIs` rule are kept as their formula texts,
/// each one a text that `str::parse::<f64>` accepts.
pub enum CfRule {
    CellIs { operator: CfOperator, value: String, value2: Option<String>, format: Option<Format> },
    TwoColorScale { min_color: [u8; 3], max_color: [u8; 3] },
    ThreeColorScale { min_color: [u8; 3], mid_color: [u8; 3], max_color: [u8; 3] },
    DataBar { color: [u8; 3], gradient: bool },
    IconSet(IconSetType),
    Expression { formula: String, format: Option<Format> },
    TopBottom { kind: TopBottomType, rank: u32, format: Option<Format> },
    Text { operator: TextOperator, text: String, format: Option<Format> },
    Duplicate { format: Option<Format> },
    Unique { format: Option<Format> },
    Average { kind: AverageType, format: Option<Format> },
    Date { period: DateOccurring, format: Option<Format> },
}

/// A conditional format read from a sheet: the range it covers, its rule, and the index of its
/// differential format.
pub struct StoredCf {
    pub range: (RowNum, ColNum, RowNum, ColNum),
    pub rule: CfRule,
    pub dxf_id: Option<u32>,
}

/// The mathematical form of a [`CfRule`]: a rule's differential format is given only by
/// whether it has one.
pub ghost enum CfRuleV {
    CellIs(CfOperator, Seq<char>, Option<Seq<char>>, bool),
    TwoColorScale([u8; 3], [u8; 3]),
    ThreeColorScale([u8; 3], [u8; 3], [u8; 3]),
    DataBar([u8; 3], bool),
    IconSet(IconSetType),
    Expression(Seq<char>, bool),
    TopBottom(TopBottomType, u32, bool),
    Text(TextOperator, Seq<char>, bool),
    Duplicate(bool),
    Unique(bool),
    Average(AverageType, bool),
    Date(DateOccurring, bool),
}

/// The view of a rule.
pub open spec fn cf_rule_view(r: CfRule) -> CfRuleV {
    match r {
        CfRule::CellIs { operator, value, value2, format } => CfRuleV::CellIs(
            operator,
            value@,
            match value2 {
                Some(v) => Some(v@),
                None => None,
            },
            format is Some,
        ),
        CfRule::TwoColorScale { min_color, max_color } => CfRuleV::TwoColorScale(min_color, max_color),
        CfRule::ThreeColorScale { min_color, mid_color, max_color } => CfRuleV::ThreeColorScale(
            min_color,
            mid_color,
            max_color,
        ),
        CfRule::DataBar { color, gradient } => CfRuleV::DataBar(color, gradient),
        CfRule::IconSet(t) => CfRuleV::IconSet(t),
        CfRule::Expression { formula, format } => CfRuleV::Expression(formula@, format is Some),
        CfRule::TopBottom { kind, rank, format } => CfRuleV::TopBottom(kind, rank, format is Some),
        CfRule::Text { operator, text, format } => CfRuleV::Text(operator, text@, format is Some),
        CfRule::Duplicate { format } => CfRuleV::Duplicate(format is Some),
        CfRule::Unique { format } => CfRuleV::Unique(format is Some),
        CfRule::Average { kind, format } => CfRuleV::Average(kind, format is Some),
        CfRule::Date { period, format } => CfRuleV::Date(period, format is Some),
    }
}

/// The differential format a rule carries, if any.
pub open spec fn rule_format(r: CfRule) -> Option<Format> {
    match r {
        CfRule::CellIs { format, .. } => format,
        CfRule::Expression { format, .. } => format,
        CfRule::TopBottom { format, .. } => format,
        CfRule::Text { format, .. } => format,
        CfRule::Duplicate { format } => format,
        CfRule::Unique { format } => format,
        CfRule::Average { format, .. } => format,
        CfRule::Date { format, .. } => format,
        _ => None,
    }
}

/// The mathematical form of a [`StoredCf`].
pub ghost struct StoredCfV {
    pub range: (RowNum, ColNum, RowNum, ColNum),
    pub rule: CfRuleV,
    pub dxf_id: Option<u32>,
}

/// The view of a stored conditional format.
pub open spec fn stored_view(c: StoredCf) -> StoredCfV {
    StoredCfV { range: c.range, rule: cf_rule_view(c.rule), dxf_id: c.dxf_id }
}

/// The views of a run of differential formats.
pub open spec fn dxf_views(v: Seq<DxfRecord>) -> Seq<DxfV> {
    v.map_values(|d: DxfRecord| d@)
}

/// Whether a differential format has anything to give.
pub open spec fn dxf_has_any(d: DxfV) -> bool {
    d.font is Some || d.fill is Some || d.border is Some || d.num_fmt is Some
}

/// Whether `dxf_id` names a differential format with anything to give.
pub open spec fn dxf_resolves(dxf_id: Option<u32>, dxfs: Seq<DxfV>) -> bool {
    match dxf_id {
        Some(id) => id < dxfs.len() && dxf_has_any(dxfs[id as int]),
        None => false,
    }
}

/// Whether `f` is the format a differential format gives: its font, fill, border and number
/// format where it has them, the default format elsewhere.
pub open spec fn is_dxf_format(f: Format, d: DxfV) -> bool {
    &&& match d.font {
        Some(ft) => f.bold == ft.bold && f.italic == ft.italic && f.underline == ft.underline && f.strikethrough
            == ft.strikethrough && f.font_size_x100 == ft.size_x100 && f.font_name@ == ft.name && f.font_color
            == ft.color,
        None => !f.bold && !f.italic && f.underline == Underline::NoUnderline && !f.strikethrough
            && f.font_size_x100 == 1100 && f.font_name@ == "Calibri"@ && f.font_color is None,
    }
    &&& match d.fill {
        Some(fl) => f.fg_color == fl.fg_color && f.bg_color == fl.bg_color && f.pattern == fl.pattern,
        None => f.fg_color is None && f.bg_color is None && f.pattern == Pattern::NoFill,
    }
    &&& match d.border {
        Some(b) => f.border_left == b.left.style && f.border_right == b.right.style && f.border_top == b.top.style
            && f.border_bottom == b.bottom.style && f.border_left_color == b.left.color && f.border_right_color
            == b.right.color && f.border_top_color == b.top.color && f.border_bottom_color == b.bottom.color
            && f.diagonal_border == b.diagonal.style,
        None => f.border_left == BorderStyle::NoBorder && f.border_right == BorderStyle::NoBorder && f.border_top
            == BorderStyle::NoBorder && f.border_bottom == BorderStyle::NoBorder && f.border_left_color is None
            && f.border_right_color is None && f.border_top_color is None && f.border_bottom_color is None
            && f.diagonal_border == BorderStyle::NoBorder,
    }
    &&& match d.num_fmt {
        Some(n) => f.num_format@ == n.1,
        None => f.num_format@.len() == 0,
    }
    &&& f.theme_color is None && !f.shadow && !f.outline && !f.emboss && !f.engrave && f.gradient is None
    &&& f.border_color is None && f.diagonal_type == 0
    &&& f.h_align == 0 && f.v_align == 0 && !f.wrap_text && !f.shrink && f.indent == 0 && f.rotation == 0
    &&& f.cell_style is None && f.locked is None && !f.formula_hidden && !f.quote_prefix
}

/// The attributes of a `<cfRule>` element as the reader keeps them.
pub ghost struct CfAttrsV {
    pub rule_type: Seq<char>,
    pub dxf_id: Option<u32>,
    pub operator: Seq<char>,
    pub text: Seq<char>,
    pub rank: u32,
    pub bottom: bool,
    pub percent: bool,
    pub above_average: bool,
    pub equal_average: bool,
    pub time_period: Seq<char>,
}

/// An attribute's value, or `dflt` when it is absent.
pub open spec fn attr_or_text(a: Seq<(Seq<char>, Seq<char>)>, key: Seq<char>, dflt: Seq<char>) -> Seq<char> {
    match attr_value(a, key) {
        Some(v) => v,
        None => dflt,
    }
}

/// An attribute read as a `u32`, when present and readable.
pub open spec fn attr_u32(a: Seq<(Seq<char>, Seq<char>)>, key: Seq<char>) -> Option<u32> {
    match attr_value(a, key) {
        Some(v) => match std_parse_unsigned(v, u32::MAX as int) {
            Some(n) => Some(n as u32),
            None => None,
        },
        None => None,
    }
}

/// An attribute that is true when it is `1` or `true` (false when absent).
pub open spec fn attr_true(a: Seq<(Seq<char>, Seq<char>)>, key: Seq<char>) -> bool {
    match attr_value(a, key) {
        Some(v) => v == "1"@ || v == "true"@,
        None => false,
    }
}

/// What the reader keeps of a `<cfRule>` element's attributes (rank 10 and above-average when
/// absent).
pub open spec fn cf_attrs_of(a: Seq<(Seq<char>, Seq<char>)>) -> CfAttrsV {
    CfAttrsV {
        rule_type: attr_or_text(a, "type"@, Seq::empty()),
        dxf_id: attr_u32(a, "dxfId"@),
        operator: attr_or_text(a, "operator"@, Seq::empty()),
        text: attr_or_text(a, "text"@, Seq::empty()),
        rank: match attr_u32(a, "rank"@) {
            Some(n) => n,
            None => 10,
        },
        bottom: attr_true(a, "bottom"@),
        percent: attr_true(a, "percent"@),
        above_average: match attr_value(a, "aboveAverage"@) {
            Some(v) => v != "0"@,
            None => true,
        },
        equal_average: attr_true(a, "equalAverage"@),
        time_period: attr_or_text(a, "timePeriod"@, Seq::empty()),
    }
}

/// What a `<cfRule>` element holds: its formulas, its color-scale colors, its data-bar color
/// and its icon-set name.
pub ghost struct KidsV {
    pub formulas: Seq<Seq<char>>,
    pub colors: Seq<[u8; 3]>,
    pub bar: Option<[u8; 3]>,
    pub icon: Option<Seq<char>>,
}

/// No children read.
pub open spec fn no_kids() -> KidsV {
    KidsV { formulas: Seq::empty(), colors: Seq::empty(), bar: None, icon: None }
}

/// The color an element's `rgb` attribute gives.
pub open spec fn rgb_of(a: Seq<(Seq<char>, Seq<char>)>) -> Option<[u8; 3]> {
    match attr_value(a, "rgb"@) {
        Some(v) => spec_parse_rgb(encode_utf8(v)),
        None => None,
    }
}

/// One rule as read: the range of its block, its attributes and its children.
pub type CfRecord = ((RowNum, ColNum, RowNum, ColNum), CfAttrsV, KidsV);

/// Where the reader stands: the rules read, the range of the open `<conditionalFormatting>`
/// block, the attributes of the open `<cfRule>`, its children so far, which child elements are
/// open, and the formula text collected.
pub ghost struct CfScan {
    pub records: Seq<CfRecord>,
    pub block: Option<(RowNum, ColNum, RowNum, ColNum)>,
    pub rule: Option<CfAttrsV>,
    pub kids: KidsV,
    pub in_scale: bool,
    pub in_bar: bool,
    pub in_formula: bool,
    pub text: Seq<char>,
}

/// Nothing read yet.
pub open spec fn cf_scan_start() -> CfScan {
    CfScan {
        records: Seq::empty(),
        block: None,
        rule: None,
        kids: no_kids(),
        in_scale: false,
        in_bar: false,
        in_formula: false,
        text: Seq::empty(),
    }
}

/// Reading one event inside a `<cfRule>`.
pub open spec fn cf_kid_step(st: CfScan, rg: (RowNum, ColNum, RowNum, ColNum), a: CfAttrsV, ev: XmlItem) -> CfScan {
    match ev {
        XmlItem::Start { name, attrs } => {
            let local = local_part(name);
            if local == "formula"@ {
                CfScan { in_formula: true, text: Seq::empty(), ..st }
            } else if local == "colorScale"@ {
                CfScan { in_scale: true, ..st }
            } else if local == "dataBar"@ {
                CfScan { in_bar: true, ..st }
            } else if local == "iconSet"@ {
                CfScan { kids: KidsV { icon: attr_value(attrs, "iconSet"@), ..st.kids }, ..st }
            } else {
                st
            }
        },
        XmlItem::Empty { name, attrs } => {
            if local_part(name) == "color"@ && st.in_scale {
                match rgb_of(attrs) {
                    Some(c) => CfScan { kids: KidsV { colors: st.kids.colors.push(c), ..st.kids }, ..st },
                    None => st,
                }
            } else if local_part(name) == "color"@ && st.in_bar {
                match rgb_of(attrs) {
                    Some(c) => CfScan { kids: KidsV { bar: Some(c), ..st.kids }, ..st },
                    None => st,
                }
            } else {
                st
            }
        },
        XmlItem::Text(t) => if st.in_formula {
            CfScan { text: st.text + t, ..st }
        } else {
            st
        },
        XmlItem::Ref(r) => if st.in_formula {
            match spec_decode_ref(r) {
                Some(x) => CfScan { text: st.text + x, ..st },
                None => st,
            }
        } else {
            st
        },
        XmlItem::End { name } => {
            let local = local_part(name);
            if local == "formula"@ {
                CfScan { in_formula: false, kids: KidsV { formulas: st.kids.formulas.push(st.text), ..st.kids }, ..st }
            } else if local == "colorScale"@ {
                CfScan { in_scale: false, ..st }
            } else if local == "dataBar"@ {
                CfScan { in_bar: false, ..st }
            } else if local == "cfRule"@ {
                CfScan { records: st.records.push((rg, a, st.kids)), rule: None, kids: no_kids(), ..st }
            } else {
                st
            }
        },
        _ => st,
    }
}

/// Reading one event of a sheet part.
pub open spec fn cf_step(st: CfScan, ev: XmlItem) -> CfScan {
    match st.block {
        None => match ev {
            XmlItem::Start { name, attrs } => if local_part(name) == "conditionalFormatting"@ {
                match dv_range(attr_or_text(attrs, "sqref"@, Seq::empty())) {
                    Some(rg) => CfScan { block: Some(rg), ..st },
                    None => st,
                }
            } else {
                st
            },
            _ => st,
        },
        Some(rg) => match st.rule {
            None => match ev {
                XmlItem::Start { name, attrs } => if local_part(name) == "cfRule"@ {
                    CfScan {
                        rule: Some(cf_attrs_of(attrs)),
                        kids: no_kids(),
                        in_scale: false,
                        in_bar: false,
                        in_formula: false,
                        text: Seq::empty(),
                        ..st
                    }
                } else {
                    st
                },
                XmlItem::Empty { name, attrs } => if local_part(name) == "cfRule"@ {
                    CfScan { records: st.records.push((rg, cf_attrs_of(attrs), no_kids())), ..st }
                } else {
                    st
                },
                XmlItem::End { name } => if local_part(name) == "conditionalFormatting"@ {
                    CfScan { block: None, ..st }
                } else {
                    st
                },
                _ => st,
            },
            Some(a) => cf_kid_step(st, rg, a, ev),
        },
    }
}

/// The reading state after a run of events.
pub open spec fn cf_run(items: Seq<XmlItem>) -> CfScan
    decreases items.len(),
{
    if items.len() == 0 {
        cf_scan_start()
    } else {
        cf_step(cf_run(items.drop_last()), items.last())
    }
}

/// The rules read once the events run out: an open `<cfRule>` counts with what was read of it.
pub open spec fn cf_finish(st: CfScan) -> Seq<CfRecord> {
    match (st.block, st.rule) {
        (Some(rg), Some(a)) => st.records.push((rg, a, st.kids)),
        _ => st.records,
    }
}

/// The rule records of a sheet part (empty elements kept as they are; everything before the end
/// of input or the first XML error).
pub open spec fn cf_records(data: Seq<u8>) -> Seq<CfRecord> {
    cf_finish(cf_run(xml_events_in(data, false).0))
}

/// The comparison an operator name gives.
pub open spec fn spec_parse_operator(op: Seq<char>) -> Option<CfOperator> {
    if op == "greaterThan"@ {
        Some(CfOperator::GreaterThan)
    } else if op == "lessThan"@ {
        Some(CfOperator::LessThan)
    } else if op == "between"@ {
        Some(CfOperator::Between)
    } else if op == "equal"@ {
        Some(CfOperator::EqualTo)
    } else if op == "notEqual"@ {
        Some(CfOperator::NotEqualTo)
    } else if op == "greaterThanOrEqual"@ {
        Some(CfOperator::GreaterThanOrEqual)
    } else if op == "lessThanOrEqual"@ {
        Some(CfOperator::LessThanOrEqual)
    } else {
        None
    }
}

/// The icons an icon-set name gives (traffic lights when absent or unknown).
pub open spec fn icon_set_of(name: Option<Seq<char>>) -> IconSetType {
    let n = match name {
        Some(s) => s,
        None => "3TrafficLights"@,
    };
    if n == "3Arrows"@ || n == "3ArrowsGray"@ {
        IconSetType::ThreeArrows
    } else if n == "3Symbols"@ || n == "3Symbols2"@ {
        IconSetType::ThreeSymbols
    } else if n == "4Arrows"@ || n == "4ArrowsGray"@ {
        IconSetType::FourArrows
    } else if n == "5Arrows"@ || n == "5ArrowsGray"@ {
        IconSetType::FiveArrows
    } else {
        IconSetType::ThreeTrafficLights
    }
}

/// The period a `timePeriod` name gives.
pub open spec fn period_of(p: Seq<char>) -> Option<DateOccurring> {
    if p == "yesterday"@ {
        Some(DateOccurring::Yesterday)
    } else if p == "today"@ {
        Some(DateOccurring::Today)
    } else if p == "tomorrow"@ {
        Some(DateOccurring::Tomorrow)
    } else if p == "last7Days"@ {
        Some(DateOccurring::Last7Days)
    } else if p == "thisWeek"@ {
        Some(DateOccurring::ThisWeek)
    } else if p == "lastWeek"@ {
        Some(DateOccurring::LastWeek)
    } else if p == "nextWeek"@ {
        Some(DateOccurring::NextWeek)
    } else if p == "thisMonth"@ {
        Some(DateOccurring::ThisMonth)
    } else if p == "lastMonth"@ {
        Some(DateOccurring::LastMonth)
    } else if p == "nextMonth"@ {
        Some(DateOccurring::NextMonth)
    } else {
        None
    }
}

/// The rule a record gives, with `fmt` telling whether its differential format resolves; none
/// for an unknown type or one whose parts are missing.
pub open spec fn rule_from(a: CfAttrsV, k: KidsV, fmt: bool) -> Option<CfRuleV> {
    let t = a.rule_type;
    if t == "cellIs"@ {
        match spec_parse_operator(a.operator) {
            Some(op) => if k.formulas.len() > 0 && float_syntax(k.formulas[0]) {
                Some(
                    CfRuleV::CellIs(
                        op,
                        k.formulas[0],
                        if k.formulas.len() > 1 && float_syntax(k.formulas[1]) {
                            Some(k.formulas[1])
                        } else {
                            None
                        },
                        fmt,
                    ),
                )
            } else {
                None
            },
            None => None,
        }
    } else if t == "colorScale"@ {
        if k.colors.len() == 2 {
            Some(CfRuleV::TwoColorScale(k.colors[0], k.colors[1]))
        } else if k.colors.len() == 3 {
            Some(CfRuleV::ThreeColorScale(k.colors[0], k.colors[1], k.colors[2]))
        } else {
            None
        }
    } else if t == "dataBar"@ {
        Some(
            CfRuleV::DataBar(
                match k.bar {
                    Some(c) => c,
                    None => [99u8, 142u8, 198u8],
                },
                false,
            ),
        )
    } else if t == "iconSet"@ {
        Some(CfRuleV::IconSet(icon_set_of(k.icon)))
    } else if t == "expression"@ {
        if k.formulas.len() > 0 && k.formulas[0].len() > 0 {
            Some(CfRuleV::Expression(k.formulas[0], fmt))
        } else {
            None
        }
    } else if t == "top10"@ {
        let kind = if !a.bottom && !a.percent {
            TopBottomType::Top
        } else if a.bottom && !a.percent {
            TopBottomType::Bottom
        } else if !a.bottom && a.percent {
            TopBottomType::TopPercent
        } else {
            TopBottomType::BottomPercent
        };
        Some(CfRuleV::TopBottom(kind, a.rank, fmt))
    } else if t == "containsText"@ {
        Some(CfRuleV::Text(TextOperator::Contains, a.text, fmt))
    } else if t == "notContainsText"@ {
        Some(CfRuleV::Text(TextOperator::NotContains, a.text, fmt))
    } else if t == "beginsWith"@ {
        Some(CfRuleV::Text(TextOperator::BeginsWith, a.text, fmt))
    } else if t == "endsWith"@ {
        Some(CfRuleV::Text(TextOperator::EndsWith, a.text, fmt))
    } else if t == "duplicateValues"@ {
        Some(CfRuleV::Duplicate(fmt))
    } else if t == "uniqueValues"@ {
        Some(CfRuleV::Unique(fmt))
    } else if t == "aboveAverage"@ {
        let kind = if a.above_average && !a.equal_average {
            AverageType::Above
        } else if !a.above_average && !a.equal_average {
            AverageType::Below
        } else if a.above_average && a.equal_average {
            AverageType::AboveOrEqual
        } else {
            AverageType::BelowOrEqual
        };
        Some(CfRuleV::Average(kind, fmt))
    } else if t == "timePeriod"@ {
        match period_of(a.time_period) {
            Some(p) => Some(CfRuleV::Date(p, fmt)),
            None => None,
        }
    } else {
        None
    }
}

/// The conditional formats of a run of records, those whose rule can be read.
pub open spec fn cfs_of(rs: Seq<CfRecord>, dxfs: Seq<DxfV>) -> Seq<StoredCfV>
    decreases rs.len(),
{
    if rs.len() == 0 {
        Seq::empty()
    } else {
        let prev = cfs_of(rs.drop_last(), dxfs);
        let r = rs.last();
        match rule_from(r.1, r.2, dxf_resolves(r.1.dxf_id, dxfs)) {
            Some(rule) => prev.push(StoredCfV { range: r.0, rule, dxf_id: r.1.dxf_id }),
            None => prev,
        }
    }
}

/// What `parse_conditional_formats` reads from a sheet part, given the style part's `dxf` table.
pub open spec fn spec_parse_conditional_formats(data: Seq<u8>, dxfs: Seq<DxfV>) -> Seq<StoredCfV> {
    cfs_of(cf_records(data), dxfs)
}

/// The attributes of a `<cfRule>` element as the reader keeps them.
struct CfRuleAttrs {
    rule_type: String,
    dxf_id: Option<u32>,
    operator: String,
    text: String,
    rank: u32,
    bottom: bool,
    percent: bool,
    above_average: bool,
    equal_average: bool,
    time_period: String,
}

spec fn cf_attrs_view(a: CfRuleAttrs) -> CfAttrsV {
    CfAttrsV {
        rule_type: a.rule_type@,
        dxf_id: a.dxf_id,
        operator: a.operator@,
        text: a.text@,
        rank: a.rank,
        bottom: a.bottom,
        percent: a.percent,
        above_average: a.above_average,
        equal_average: a.equal_average,
        time_period: a.time_period@,
    }
}

fn text_attr(attrs: &[XmlAttr], key: &str) -> (res: String)
    ensures
        res@ == attr_or_text(attr_items(attrs@), key@, Seq::empty()),
{
    match get_attr(attrs, key) {
        Some(v) => to_string(v.as_str()),
        None => String::new(),
    }
}

fn u32_attr(attrs: &[XmlAttr], key: &str) -> (res: Option<u32>)
    ensures
        res == attr_u32(attr_items(attrs@), key@),
{
    match get_attr(attrs, key) {
        Some(v) => match parse_unsigned(v.as_str(), 4294967295) {
            Some(n) => Some(n as u32),
            None => None,
        },
        None => None,
    }
}

fn true_attr(attrs: &[XmlAttr], key: &str) -> (res: bool)
    ensures
        res == attr_true(attr_items(attrs@), key@),
{
    match get_attr(attrs, key) {
        Some(v) => str_eq(v.as_str(), "1") || str_eq(v.as_str(), "true"),
        None => false,
    }
}

impl CfRuleAttrs {
    fn from_event(attrs: &[XmlAttr]) -> (res: Self)
        ensures
            cf_attrs_view(res) == cf_attrs_of(attr_items(attrs@)),
    {
        CfRuleAttrs {
            rule_type: text_attr(attrs, "type"),
            dxf_id: u32_attr(attrs, "dxfId"),
            operator: text_attr(attrs, "operator"),
            text: text_attr(attrs, "text"),
            rank: match u32_attr(attrs, "rank") {
                Some(n) => n,
                None => 10,
            },
            bottom: true_attr(attrs, "bottom"),
            percent: true_attr(attrs, "percent"),
            above_average: match get_attr(attrs, "aboveAverage") {
                Some(v) => !str_eq(v.as_str(), "0"),
                None => true,
            },
            equal_average: true_attr(attrs, "equalAverage"),
            time_period: text_attr(attrs, "timePeriod"),
        }
    }
}

/// What a `<cfRule>` element holds.
struct CfRuleChildren {
    formulas: Vec<String>,
    color_scale_colors: Vec<[u8; 3]>,
    data_bar_color: Option<[u8; 3]>,
    icon_set_type: Option<String>,
}

spec fn kids_view(c: CfRuleChildren) -> KidsV {
    KidsV {
        formulas: c.formulas@.map_values(|f: String| f@),
        colors: c.color_scale_colors@,
        bar: c.data_bar_color,
        icon: match c.icon_set_type {
            Some(t) => Some(t@),
            None => None,
        },
    }
}

fn no_children() -> (res: CfRuleChildren)
    ensures
        kids_view(res) == no_kids(),
{
    let res = CfRuleChildren {
        formulas: Vec::new(),
        color_scale_colors: Vec::new(),
        data_bar_color: None,
        icon_set_type: None,
    };
    assert(kids_view(res).formulas =~= Seq::<Seq<char>>::empty());
    assert(kids_view(res).colors =~= Seq::<[u8; 3]>::empty());
    res
}

/// The color of an element's `rgb` attribute.
pub(crate) fn parse_rgb_attr(attrs: &[XmlAttr]) -> (res: Option<[u8; 3]>)
    ensures
        res == rgb_of(attr_items(attrs@)),
{
    match get_attr(attrs, "rgb") {
        Some(v) => parse_rgb_color(v.as_str().as_bytes()),
        None => None,
    }
}

/// The comparison an operator name gives.
fn parse_operator(op: &str) -> (res: Option<CfOperator>)
    ensures
        res == spec_parse_operator(op@),
{
    if str_eq(op, "greaterThan") {
        Some(CfOperator::GreaterThan)
    } else if str_eq(op, "lessThan") {
        Some(CfOperator::LessThan)
    } else if str_eq(op, "between") {
        Some(CfOperator::Between)
    } else if str_eq(op, "equal") {
        Some(CfOperator::EqualTo)
    } else if str_eq(op, "notEqual") {
        Some(CfOperator::NotEqualTo)
    } else if str_eq(op, "greaterThanOrEqual") {
        Some(CfOperator::GreaterThanOrEqual)
    } else if str_eq(op, "lessThanOrEqual") {
        Some(CfOperator::LessThanOrEqual)
    } else {
        None
    }
}

/// The format a differential format gives, when `dxf_id` names one with anything to give.
fn resolve_dxf(dxf_id: u32, dxf_records: &[DxfRecord]) -> (res: Option<Format>)
    ensures
        res is Some <==> dxf_resolves(Some(dxf_id), dxf_views(dxf_records@)),
        res matches Some(f) ==> is_dxf_format(f, dxf_records@[dxf_id as int]@),
{
    proof {
        reveal_strlit("Calibri");
    }
    if dxf_id as usize >= dxf_records.len() {
        return None;
    }
    let dxf = &dxf_records[dxf_id as usize];
    let mut fmt = Format::new();
    let mut has_any = false;
    match &dxf.font {
        Some(font) => {
            fmt.bold = font.bold;
            fmt.italic = font.italic;
            fmt.underline = font.underline;
            fmt.strikethrough = font.strikethrough;
            fmt.font_size_x100 = font.size_x100;
            fmt.font_name = to_string(font.name.as_str());
            fmt.font_color = font.color;
            has_any = true;
        },
        None => {},
    }
    match &dxf.fill {
        Some(fill) => {
            fmt.fg_color = fill.fg_color;
            fmt.bg_color = fill.bg_color;
            fmt.pattern = fill.pattern;
            has_any = true;
        },
        None => {},
    }
    match &dxf.border {
        Some(border) => {
            fmt.border_left = border.left.style;
            fmt.border_right = border.right.style;
            fmt.border_top = border.top.style;
            fmt.border_bottom = border.bottom.style;
            fmt.border_left_color = border.left.color;
            fmt.border_right_color = border.right.color;
            fmt.border_top_color = border.top.color;
            fmt.border_bottom_color = border.bottom.color;
            fmt.diagonal_border = border.diagonal.style;
            has_any = true;
        },
        None => {},
    }
    match &dxf.num_fmt {
        Some((_, code)) => {
            fmt.num_format = to_string(code.as_str());
            has_any = true;
        },
        None => {},
    }
    assert(dxf_views(dxf_records@)[dxf_id as int] == dxf@);
    if has_any {
        Some(fmt)
    } else {
        None
    }
}


fn icon_set_from(name: &Option<String>) -> (res: IconSetType)
    ensures
        res == icon_set_of(match name {
            Some(s) => Some(s@),
            None => None,
        }),
{
    let n: &str = match name {
        Some(s) => s.as_str(),
        None => "3TrafficLights",
    };
    if str_eq(n, "3Arrows") || str_eq(n, "3ArrowsGray") {
        IconSetType::ThreeArrows
    } else if str_eq(n, "3Symbols") || str_eq(n, "3Symbols2") {
        IconSetType::ThreeSymbols
    } else if str_eq(n, "4Arrows") || str_eq(n, "4ArrowsGray") {
        IconSetType::FourArrows
    } else if str_eq(n, "5Arrows") || str_eq(n, "5ArrowsGray") {
        IconSetType::FiveArrows
    } else {
        IconSetType::ThreeTrafficLights
    }
}

fn period_from(p: &str) -> (res: Option<DateOccurring>)
    ensures
        res == period_of(p@),
{
    if str_eq(p, "yesterday") {
        Some(DateOccurring::Yesterday)
    } else if str_eq(p, "today") {
        Some(DateOccurring::Today)
    } else if str_eq(p, "tomorrow") {
        Some(DateOccurring::Tomorrow)
    } else if str_eq(p, "last7Days") {
        Some(DateOccurring::Last7Days)
    } else if str_eq(p, "thisWeek") {
        Some(DateOccurring::ThisWeek)
    } else if str_eq(p, "lastWeek") {
        Some(DateOccurring::LastWeek)
    } else if str_eq(p, "nextWeek") {
        Some(DateOccurring::NextWeek)
    } else if str_eq(p, "thisMonth") {
        Some(DateOccurring::ThisMonth)
    } else if str_eq(p, "lastMonth") {
        Some(DateOccurring::LastMonth)
    } else if str_eq(p, "nextMonth") {
        Some(DateOccurring::NextMonth)
    } else {
        None
    }
}

/// The rule a `<cfRule>` element gives, carrying `fmt` where the rule takes a format.
fn build_rule(attrs: &CfRuleAttrs, children: &CfRuleChildren, fmt: Option<Format>) -> (res: Option<CfRule>)
    ensures
        match res {
            Some(r) => rule_from(cf_attrs_view(*attrs), kids_view(*children), fmt is Some) == Some(cf_rule_view(r))
                && (rule_format(r) == fmt || rule_format(r) is None),
            None => rule_from(cf_attrs_view(*attrs), kids_view(*children), fmt is Some) is None,
        },
{
    let t = attrs.rule_type.as_str();
    let ghost k = kids_view(*children);
    if str_eq(t, "cellIs") {
        match parse_operator(attrs.operator.as_str()) {
            Some(op) => {
                if children.formulas.len() == 0 {
                    return None;
                }
                assert(k.formulas[0] == children.formulas@[0]@);
                if !reads_as_float(children.formulas[0].as_str()) {
                    return None;
                }
                let value = to_string(children.formulas[0].as_str());
                let value2 = if children.formulas.len() > 1 && reads_as_float(children.formulas[1].as_str()) {
                    assert(k.formulas[1] == children.formulas@[1]@);
                    Some(to_string(children.formulas[1].as_str()))
                } else {
                    proof {
                        if children.formulas.len() > 1 {
                            assert(k.formulas[1] == children.formulas@[1]@);
                        }
                    }
                    None
                };
                Some(CfRule::CellIs { operator: op, value, value2, format: fmt })
            },
            None => None,
        }
    } else if str_eq(t, "colorScale") {
        let cs = &children.color_scale_colors;
        if cs.len() == 2 {
            Some(CfRule::TwoColorScale { min_color: cs[0], max_color: cs[1] })
        } else if cs.len() == 3 {
            Some(CfRule::ThreeColorScale { min_color: cs[0], mid_color: cs[1], max_color: cs[2] })
        } else {
            None
        }
    } else if str_eq(t, "dataBar") {
        let color = match children.data_bar_color {
            Some(c) => c,
            None => [99u8, 142u8, 198u8],
        };
        Some(CfRule::DataBar { color, gradient: false })
    } else if str_eq(t, "iconSet") {
        Some(CfRule::IconSet(icon_set_from(&children.icon_set_type)))
    } else if str_eq(t, "expression") {
        if children.formulas.len() == 0 {
            return None;
        }
        assert(k.formulas[0] == children.formulas@[0]@);
        if children.formulas[0].as_str().unicode_len() == 0 {
            return None;
        }
        Some(CfRule::Expression { formula: to_string(children.formulas[0].as_str()), format: fmt })
    } else if str_eq(t, "top10") {
        let kind = if !attrs.bottom && !attrs.percent {
            TopBottomType::Top
        } else if attrs.bottom && !attrs.percent {
            TopBottomType::Bottom
        } else if !attrs.bottom && attrs.percent {
            TopBottomType::TopPercent
        } else {
            TopBottomType::BottomPercent
        };
        Some(CfRule::TopBottom { kind, rank: attrs.rank, format: fmt })
    } else if str_eq(t, "containsText") {
        Some(CfRule::Text { operator: TextOperator::Contains, text: to_string(attrs.text.as_str()), format: fmt })
    } else if str_eq(t, "notContainsText") {
        Some(CfRule::Text { operator: TextOperator::NotContains, text: to_string(attrs.text.as_str()), format: fmt })
    } else if str_eq(t, "beginsWith") {
        Some(CfRule::Text { operator: TextOperator::BeginsWith, text: to_string(attrs.text.as_str()), format: fmt })
    } else if str_eq(t, "endsWith") {
        Some(CfRule::Text { operator: TextOperator::EndsWith, text: to_string(attrs.text.as_str()), format: fmt })
    } else if str_eq(t, "duplicateValues") {
        Some(CfRule::Duplicate { format: fmt })
    } else if str_eq(t, "uniqueValues") {
        Some(CfRule::Unique { format: fmt })
    } else if str_eq(t, "aboveAverage") {
        let kind = if attrs.above_average && !attrs.equal_average {
            AverageType::Above
        } else if !attrs.above_average && !attrs.equal_average {
            AverageType::Below
        } else if attrs.above_average && attrs.equal_average {
            AverageType::AboveOrEqual
        } else {
            AverageType::BelowOrEqual
        };
        Some(CfRule::Average { kind, format: fmt })
    } else if str_eq(t, "timePeriod") {
        match period_from(attrs.time_period.as_str()) {
            Some(period) => Some(CfRule::Date { period, format: fmt }),
            None => None,
        }
    } else {
        None
    }
}


/// A rule as read, before it is built: the range of its block, its attributes and its children.
type RuleRecord = ((RowNum, ColNum, RowNum, ColNum), CfRuleAttrs, CfRuleChildren);

spec fn record_view(r: RuleRecord) -> CfRecord {
    (r.0, cf_attrs_view(r.1), kids_view(r.2))
}

spec fn record_views(v: Seq<RuleRecord>) -> Seq<CfRecord> {
    v.map_values(|r: RuleRecord| record_view(r))
}

/// The reader's state while it walks a sheet part.
struct CfState {
    records: Vec<RuleRecord>,
    block: Option<(RowNum, ColNum, RowNum, ColNum)>,
    rule: Option<CfRuleAttrs>,
    kids: CfRuleChildren,
    in_scale: bool,
    in_bar: bool,
    in_formula: bool,
    text: String,
}

spec fn state_view(st: CfState) -> CfScan {
    CfScan {
        records: record_views(st.records@),
        block: st.block,
        rule: match st.rule {
            Some(a) => Some(cf_attrs_view(a)),
            None => None,
        },
        kids: kids_view(st.kids),
        in_scale: st.in_scale,
        in_bar: st.in_bar,
        in_formula: st.in_formula,
        text: st.text@,
    }
}

/// One event inside an open `<cfRule>`.
fn kid_step(st: &mut CfState, rg: (RowNum, ColNum, RowNum, ColNum), ev: &XmlEvent)
    requires
        old(st).block == Some(rg),
        old(st).rule is Some,
    ensures
        state_view(*final(st)) == cf_kid_step(state_view(*old(st)), rg, cf_attrs_view(old(st).rule->0), ev@),
{
    let ghost before = state_view(*st);
    match ev {
        XmlEvent::Start { name, attrs } => {
            let local = local_name(name.as_str());
            if str_eq(local.as_str(), "formula") {
                st.in_formula = true;
                st.text = String::new();
            } else if str_eq(local.as_str(), "colorScale") {
                st.in_scale = true;
            } else if str_eq(local.as_str(), "dataBar") {
                st.in_bar = true;
            } else if str_eq(local.as_str(), "iconSet") {
                st.kids.icon_set_type = match get_attr(attrs.as_slice(), "iconSet") {
                    Some(v) => Some(to_string(v.as_str())),
                    None => None,
                };
            }
        },
        XmlEvent::Empty { name, attrs } => {
            let local = local_name(name.as_str());
            if str_eq(local.as_str(), "color") && st.in_scale {
                match parse_rgb_attr(attrs.as_slice()) {
                    Some(c) => {
                        st.kids.color_scale_colors.push(c);
                    },
                    None => {},
                }
            } else if str_eq(local.as_str(), "color") && st.in_bar {
                match parse_rgb_attr(attrs.as_slice()) {
                    Some(c) => {
                        st.kids.data_bar_color = Some(c);
                    },
                    None => {},
                }
            }
        },
        XmlEvent::Text(t) => {
            if st.in_formula {
                crate::text::push_str(&mut st.text, t.as_str());
            }
        },
        XmlEvent::Ref(r) => {
            if st.in_formula {
                match decode_xml_ref(r.as_str()) {
                    Some(x) => {
                        crate::text::push_str(&mut st.text, x.as_str());
                    },
                    None => {},
                }
            }
        },
        XmlEvent::End { name } => {
            let local = local_name(name.as_str());
            if str_eq(local.as_str(), "formula") {
                st.in_formula = false;
                let f = to_string(st.text.as_str());
                let ghost fv = f@;
                st.kids.formulas.push(f);
                assert(kids_view(st.kids).formulas =~= before.kids.formulas.push(fv));
            } else if str_eq(local.as_str(), "colorScale") {
                st.in_scale = false;
            } else if str_eq(local.as_str(), "dataBar") {
                st.in_bar = false;
            } else if str_eq(local.as_str(), "cfRule") {
                let a = st.rule.take().unwrap();
                let mut kids = no_children();
                std::mem::swap(&mut kids, &mut st.kids);
                let ghost rv = (rg, cf_attrs_view(a), kids_view(kids));
                st.records.push((rg, a, kids));
                assert(record_views(st.records@) =~= before.records.push(rv));
            }
        },
        XmlEvent::Other => {},
    }
}

/// One event of a sheet part.
fn step(st: &mut CfState, ev: &XmlEvent)
    ensures
        state_view(*final(st)) == cf_step(state_view(*old(st)), ev@),
{
    let ghost before = state_view(*st);
    match st.block {
        None => match ev {
            XmlEvent::Start { name, attrs } => {
                let local = local_name(name.as_str());
                if str_eq(local.as_str(), "conditionalFormatting") {
                    let sqref = text_attr(attrs.as_slice(), "sqref");
                    match dv_range_exec(sqref.as_str()) {
                        Some(rg) => {
                            st.block = Some(rg);
                        },
                        None => {},
                    }
                }
            },
            _ => {},
        },
        Some(rg) => {
            if st.rule.is_some() {
                kid_step(st, rg, ev);
            } else {
                match ev {
                    XmlEvent::Start { name, attrs } => {
                        let local = local_name(name.as_str());
                        if str_eq(local.as_str(), "cfRule") {
                            st.rule = Some(CfRuleAttrs::from_event(attrs.as_slice()));
                            st.kids = no_children();
                            st.in_scale = false;
                            st.in_bar = false;
                            st.in_formula = false;
                            st.text = String::new();
                        }
                    },
                    XmlEvent::Empty { name, attrs } => {
                        let local = local_name(name.as_str());
                        if str_eq(local.as_str(), "cfRule") {
                            let a = CfRuleAttrs::from_event(attrs.as_slice());
                            let kids = no_children();
                            let ghost rv = (rg, cf_attrs_view(a), kids_view(kids));
                            st.records.push((rg, a, kids));
                            assert(record_views(st.records@) =~= before.records.push(rv));
                        }
                    },
                    XmlEvent::End { name } => {
                        let local = local_name(name.as_str());
                        if str_eq(local.as_str(), "conditionalFormatting") {
                            st.block = None;
                        }
                    },
                    _ => {},
                }
            }
        },
    }
}

/// The rule records of a sheet part.
fn rule_records(data: &[u8]) -> (res: Vec<RuleRecord>)
    ensures
        record_views(res@) == cf_records(data@),
{
    let scan = scan_xml_with(data, false);
    let ghost items = xml_items(scan.events@);
    let mut st = CfState {
        records: Vec::new(),
        block: None,
        rule: None,
        kids: no_children(),
        in_scale: false,
        in_bar: false,
        in_formula: false,
        text: String::new(),
    };
    assert(record_views(st.records@) =~= Seq::<CfRecord>::empty());
    assert(state_view(st) == cf_scan_start());
    let mut i: usize = 0;
    while i < scan.events.len()
        invariant
            0 <= i <= scan.events.len(),
            items == xml_items(scan.events@),
            cf_run(items.take(i as int)) == state_view(st),
        decreases scan.events.len() - i,
    {
        assert(items.take(i + 1).drop_last() =~= items.take(i as int));
        assert(items.take(i + 1).last() == scan.events@[i as int]@);
        step(&mut st, &scan.events[i]);
        i += 1;
    }
    assert(items.take(scan.events.len() as int) =~= items);
    let ghost last = state_view(st);
    let mut records = st.records;
    match (st.block, st.rule) {
        (Some(rg), Some(a)) => {
            let ghost rv = (rg, cf_attrs_view(a), kids_view(st.kids));
            records.push((rg, a, st.kids));
            assert(record_views(records@) =~= last.records.push(rv));
        },
        _ => {},
    }
    records
}


/// The format a rule carries resolves its `dxfId`: the index names a differential format, and
/// the format is the one it gives.
pub open spec fn format_from_dxf(c: StoredCf, dxfs: Seq<DxfV>) -> bool {
    match rule_format(c.rule) {
        Some(f) => match c.dxf_id {
            Some(id) => id < dxfs.len() && is_dxf_format(f, dxfs[id as int]),
            None => false,
        },
        None => true,
    }
}

/// Parse the `<conditionalFormatting>` blocks of a sheet part into stored conditional formats.
/// Each block's range is the first range (or cell) of its `sqref`; a block whose range cannot
/// be read is skipped, and so is a rule of an unknown type or with missing parts. A rule's
/// `dxfId` is resolved against `dxf_records`, the differential formats of the style part.
pub fn parse_conditional_formats(data: &[u8], dxf_records: &[DxfRecord]) -> (res: Vec<StoredCf>)
    ensures
        res@.map_values(|c: StoredCf| stored_view(c)) == spec_parse_conditional_formats(
            data@,
            dxf_views(dxf_records@),
        ),
        forall|k: int|
            0 <= k < res@.len() ==> #[trigger] format_from_dxf(res@[k], dxf_views(dxf_records@)),
{
    let ghost dxfs = dxf_views(dxf_records@);
    let records = rule_records(data);
    let ghost rv = record_views(records@);
    let mut out: Vec<StoredCf> = Vec::new();
    assert(out@.map_values(|c: StoredCf| stored_view(c)) =~= Seq::<StoredCfV>::empty());
    assert(rv.take(0) =~= Seq::<CfRecord>::empty());
    let mut k: usize = 0;
    while k < records.len()
        invariant
            0 <= k <= records.len(),
            rv == record_views(records@),
            dxfs == dxf_views(dxf_records@),
            out@.map_values(|c: StoredCf| stored_view(c)) == cfs_of(rv.take(k as int), dxfs),
            forall|j: int| 0 <= j < out@.len() ==> #[trigger] format_from_dxf(out@[j], dxfs),
        decreases records.len() - k,
    {
        let r = &records[k];
        assert(rv[k as int] == record_view(*r));
        assert(rv.take(k + 1).drop_last() =~= rv.take(k as int));
        assert(rv.take(k + 1).last() == rv[k as int]);
        let fmt = match r.1.dxf_id {
            Some(id) => resolve_dxf(id, dxf_records),
            None => None,
        };
        assert(fmt is Some <==> dxf_resolves(r.1.dxf_id, dxfs));
        match build_rule(&r.1, &r.2, fmt) {
            Some(rule) => {
                let c = StoredCf { range: r.0, rule, dxf_id: r.1.dxf_id };
                let ghost before = out@;
                out.push(c);
                assert(out@.map_values(|c: StoredCf| stored_view(c)) =~= before.map_values(
                    |c: StoredCf| stored_view(c),
                ).push(stored_view(c)));
                assert forall|j: int| 0 <= j < out@.len() implies #[trigger] format_from_dxf(out@[j], dxfs) by {
                    if j < before.len() {
                        assert(out@[j] == before[j]);
                    }
                }
            },
            None => {},
        }
        k += 1;
    }
    assert(rv.take(records.len() as int) =~= rv);
    out
}

} // verus!
