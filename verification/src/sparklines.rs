//! Reading the sparkline groups a sheet part keeps in its extension list
//! (`<x14:sparklineGroup>` inside `<extLst>`).

use vstd::prelude::*;

use crate::conditional::{attr_or_text, parse_rgb_attr, rgb_of};
use crate::text::{push_str, str_eq, to_string};
use crate::utility::{parse_cell_ref, spec_parse_cell_ref, ColNum, RowNum};
use crate::xml::{get_attr, local_name, local_part, scan_xml_with, xml_events_in, xml_items, XmlEvent, XmlItem};

verus! {

/// How a sparkline draws its data.
#[derive(Debug, Clone, Copy, PartialEq, Eq, Structural)]
pub enum SparklineType {
    Line,
    Column,
    WinLoss,
}

/// A sparkline read from a sheet part: the range it draws, how it draws it, the cell it sits
/// in, and the color of its group's series.
#[derive(Debug, Clone)]
pub struct Sparkline {
    pub data_range: String,
    pub sparkline_type: SparklineType,
    pub row: RowNum,
    pub col: ColNum,
    pub color: Option<[u8; 3]>,
}

/// The mathematical form of a [`Sparkline`].
pub ghost struct SparklineV {
    pub data_range: Seq<char>,
    pub sparkline_type: SparklineType,
    pub row: RowNum,
    pub col: ColNum,
    pub color: Option<[u8; 3]>,
}

/// The view of a sparkline.
pub open spec fn sparkline_view(s: Sparkline) -> SparklineV {
    SparklineV { data_range: s.data_range@, sparkline_type: s.sparkline_type, row: s.row, col: s.col, color: s.color }
}

/// The type a group's `type` attribute names: `column`, `stacked` (win/loss), else a line.
pub open spec fn sparkline_type_of(t: Seq<char>) -> SparklineType {
    if t == "column"@ {
        SparklineType::Column
    } else if t == "stacked"@ {
        SparklineType::WinLoss
    } else {
        SparklineType::Line
    }
}

/// Where the reader stands: outside any group, inside a group, inside a group's
/// `<colorSeries>`, or inside one `<sparkline>`.
pub ghost enum SpMode {
    Outside,
    Group,
    Series,
    Line,
}

/// The reading state: the sparklines read, where the reader stands, the open group's type and
/// series color, and the open sparkline's range and location texts with which of them is open.
pub ghost struct SpScan {
    pub found: Seq<SparklineV>,
    pub mode: SpMode,
    pub kind: SparklineType,
    pub color: Option<[u8; 3]>,
    pub range: Seq<char>,
    pub loc: Seq<char>,
    pub in_f: bool,
    pub in_sqref: bool,
}

/// Nothing read yet.
pub open spec fn sp_start() -> SpScan {
    SpScan {
        found: Seq::empty(),
        mode: SpMode::Outside,
        kind: SparklineType::Line,
        color: None,
        range: Seq::empty(),
        loc: Seq::empty(),
        in_f: false,
        in_sqref: false,
    }
}

/// The sparkline a closed `<sparkline>` element gives: none when its range or location is
/// empty, or the location is not a cell reference.
pub open spec fn sparkline_of(st: SpScan) -> Option<SparklineV> {
    if st.range.len() == 0 || st.loc.len() == 0 {
        None
    } else {
        match spec_parse_cell_ref(st.loc) {
            Some(rc) => Some(
                SparklineV { data_range: st.range, sparkline_type: st.kind, row: rc.0, col: rc.1, color: st.color },
            ),
            None => None,
        }
    }
}

/// The sparklines read once the open `<sparkline>` element closes.
pub open spec fn close_line(st: SpScan) -> Seq<SparklineV> {
    match sparkline_of(st) {
        Some(s) => st.found.push(s),
        None => st.found,
    }
}

/// Whether an element names a series color.
pub open spec fn is_color_element(local: Seq<char>) -> bool {
    local == "rgbColor"@ || local == "color"@
}

/// Reading one event.
pub open spec fn sp_step(st: SpScan, ev: XmlItem) -> SpScan {
    match st.mode {
        SpMode::Outside => match ev {
            XmlItem::Start { name, attrs } => if local_part(name) == "sparklineGroup"@ {
                SpScan {
                    mode: SpMode::Group,
                    kind: sparkline_type_of(attr_or_text(attrs, "type"@, "line"@)),
                    color: None,
                    ..st
                }
            } else {
                st
            },
            _ => st,
        },
        SpMode::Group => match ev {
            XmlItem::Start { name, .. } => {
                let local = local_part(name);
                if local == "colorSeries"@ {
                    SpScan { mode: SpMode::Series, color: None, ..st }
                } else if local == "sparkline"@ {
                    SpScan {
                        mode: SpMode::Line,
                        range: Seq::empty(),
                        loc: Seq::empty(),
                        in_f: false,
                        in_sqref: false,
                        ..st
                    }
                } else {
                    st
                }
            },
            XmlItem::Empty { name, attrs } => if is_color_element(local_part(name)) {
                match rgb_of(attrs) {
                    Some(c) => SpScan { color: Some(c), ..st },
                    None => st,
                }
            } else {
                st
            },
            XmlItem::End { name } => if local_part(name) == "sparklineGroup"@ {
                SpScan { mode: SpMode::Outside, ..st }
            } else {
                st
            },
            _ => st,
        },
        SpMode::Series => match ev {
            XmlItem::Start { name, attrs } => if is_color_element(local_part(name)) {
                SpScan { color: rgb_of(attrs), ..st }
            } else {
                st
            },
            XmlItem::Empty { name, attrs } => if is_color_element(local_part(name)) {
                SpScan { color: rgb_of(attrs), ..st }
            } else {
                st
            },
            XmlItem::End { name } => if local_part(name) == "colorSeries"@ {
                SpScan { mode: SpMode::Group, ..st }
            } else {
                st
            },
            _ => st,
        },
        SpMode::Line => match ev {
            XmlItem::Start { name, .. } => {
                let local = local_part(name);
                if local == "f"@ {
                    SpScan { in_f: true, range: Seq::empty(), ..st }
                } else if local == "sqref"@ {
                    SpScan { in_sqref: true, loc: Seq::empty(), ..st }
                } else {
                    st
                }
            },
            XmlItem::Text(t) => if st.in_f {
                SpScan { range: st.range + t, ..st }
            } else if st.in_sqref {
                SpScan { loc: st.loc + t, ..st }
            } else {
                st
            },
            XmlItem::End { name } => {
                let local = local_part(name);
                if local == "f"@ {
                    SpScan { in_f: false, ..st }
                } else if local == "sqref"@ {
                    SpScan { in_sqref: false, ..st }
                } else if local == "sparkline"@ {
                    SpScan { found: close_line(st), mode: SpMode::Group, ..st }
                } else {
                    st
                }
            },
            _ => st,
        },
    }
}

/// The reading state after a run of events.
pub open spec fn sp_run(items: Seq<XmlItem>) -> SpScan
    decreases items.len(),
{
    if items.len() == 0 {
        sp_start()
    } else {
        sp_step(sp_run(items.drop_last()), items.last())
    }
}

/// The sparklines read once the events run out: an open `<sparkline>` counts with what was read
/// of it.
pub open spec fn sp_finish(st: SpScan) -> Seq<SparklineV> {
    match st.mode {
        SpMode::Line => close_line(st),
        _ => st.found,
    }
}

/// What `parse_sparklines` reads from a sheet part (everything before the end of input or the
/// first XML error).
pub open spec fn spec_parse_sparklines(data: Seq<u8>) -> Seq<SparklineV> {
    sp_finish(sp_run(xml_events_in(data, false).0))
}

fn sparkline_type_from(t: &str) -> (res: SparklineType)
    ensures
        res == sparkline_type_of(t@),
{
    if str_eq(t, "column") {
        SparklineType::Column
    } else if str_eq(t, "stacked") {
        SparklineType::WinLoss
    } else {
        SparklineType::Line
    }
}

/// The reader's state while it walks a sheet part.
struct SpState {
    found: Vec<Sparkline>,
    mode: u8,
    kind: SparklineType,
    color: Option<[u8; 3]>,
    range: String,
    loc: String,
    in_f: bool,
    in_sqref: bool,
}

spec fn mode_view(m: u8) -> SpMode {
    if m == 0 {
        SpMode::Outside
    } else if m == 1 {
        SpMode::Group
    } else if m == 2 {
        SpMode::Series
    } else {
        SpMode::Line
    }
}

spec fn sp_state_view(st: SpState) -> SpScan {
    SpScan {
        found: st.found@.map_values(|s: Sparkline| sparkline_view(s)),
        mode: mode_view(st.mode),
        kind: st.kind,
        color: st.color,
        range: st.range@,
        loc: st.loc@,
        in_f: st.in_f,
        in_sqref: st.in_sqref,
    }
}

fn color_element(local: &str) -> (res: bool)
    ensures
        res == is_color_element(local@),
{
    str_eq(local, "rgbColor") || str_eq(local, "color")
}

/// Closes the open `<sparkline>` element.
fn close_sparkline(st: &mut SpState)
    ensures
        final(st).found@.map_values(|s: Sparkline| sparkline_view(s)) == close_line(sp_state_view(*old(st))),
        final(st).mode == old(st).mode,
        final(st).kind == old(st).kind,
        final(st).color == old(st).color,
        final(st).range@ == old(st).range@,
        final(st).loc@ == old(st).loc@,
        final(st).in_f == old(st).in_f,
        final(st).in_sqref == old(st).in_sqref,
{
    let ghost before = st.found@.map_values(|s: Sparkline| sparkline_view(s));
    if st.range.as_str().unicode_len() == 0 || st.loc.as_str().unicode_len() == 0 {
        return;
    }
    match parse_cell_ref(st.loc.as_str()) {
        Ok((row, col)) => {
            let s = Sparkline {
                data_range: to_string(st.range.as_str()),
                sparkline_type: st.kind,
                row,
                col,
                color: st.color,
            };
            st.found.push(s);
            assert(st.found@.map_values(|s: Sparkline| sparkline_view(s)) =~= before.push(sparkline_view(s)));
        },
        Err(_) => {},
    }
}

/// One event of a sheet part.
fn sp_step_exec(st: &mut SpState, ev: &XmlEvent)
    requires
        old(st).mode <= 3,
    ensures
        sp_state_view(*final(st)) == sp_step(sp_state_view(*old(st)), ev@),
        final(st).mode <= 3,
{
    proof {
        reveal_strlit("line");
    }
    if st.mode == 0 {
        match ev {
            XmlEvent::Start { name, attrs } => {
                let local = local_name(name.as_str());
                if str_eq(local.as_str(), "sparklineGroup") {
                    let t = match get_attr(attrs.as_slice(), "type") {
                        Some(v) => sparkline_type_from(v.as_str()),
                        None => sparkline_type_from("line"),
                    };
                    st.mode = 1;
                    st.kind = t;
                    st.color = None;
                }
            },
            _ => {},
        }
    } else if st.mode == 1 {
        match ev {
            XmlEvent::Start { name, .. } => {
                let local = local_name(name.as_str());
                if str_eq(local.as_str(), "colorSeries") {
                    st.mode = 2;
                    st.color = None;
                } else if str_eq(local.as_str(), "sparkline") {
                    st.mode = 3;
                    st.range = String::new();
                    st.loc = String::new();
                    st.in_f = false;
                    st.in_sqref = false;
                }
            },
            XmlEvent::Empty { name, attrs } => {
                let local = local_name(name.as_str());
                if color_element(local.as_str()) {
                    match parse_rgb_attr(attrs.as_slice()) {
                        Some(c) => {
                            st.color = Some(c);
                        },
                        None => {},
                    }
                }
            },
            XmlEvent::End { name } => {
                let local = local_name(name.as_str());
                if str_eq(local.as_str(), "sparklineGroup") {
                    st.mode = 0;
                }
            },
            _ => {},
        }
    } else if st.mode == 2 {
        match ev {
            XmlEvent::Start { name, attrs } => {
                let local = local_name(name.as_str());
                if color_element(local.as_str()) {
                    st.color = parse_rgb_attr(attrs.as_slice());
                }
            },
            XmlEvent::Empty { name, attrs } => {
                let local = local_name(name.as_str());
                if color_element(local.as_str()) {
                    st.color = parse_rgb_attr(attrs.as_slice());
                }
            },
            XmlEvent::End { name } => {
                let local = local_name(name.as_str());
                if str_eq(local.as_str(), "colorSeries") {
                    st.mode = 1;
                }
            },
            _ => {},
        }
    } else {
        match ev {
            XmlEvent::Start { name, .. } => {
                let local = local_name(name.as_str());
                if str_eq(local.as_str(), "f") {
                    st.in_f = true;
                    st.range = String::new();
                } else if str_eq(local.as_str(), "sqref") {
                    st.in_sqref = true;
                    st.loc = String::new();
                }
            },
            XmlEvent::Text(t) => {
                if st.in_f {
                    push_str(&mut st.range, t.as_str());
                } else if st.in_sqref {
                    push_str(&mut st.loc, t.as_str());
                }
            },
            XmlEvent::End { name } => {
                let local = local_name(name.as_str());
                if str_eq(local.as_str(), "f") {
                    st.in_f = false;
                } else if str_eq(local.as_str(), "sqref") {
                    st.in_sqref = false;
                } else if str_eq(local.as_str(), "sparkline") {
                    close_sparkline(st);
                    st.mode = 1;
                }
            },
            _ => {},
        }
    }
}

/// Parse the sparklines of a sheet part: every `<sparkline>` inside a `<sparklineGroup>`, with
/// the group's type (`line` when absent) and the series color read so far. A sparkline whose
/// data range or location is empty, or whose location is not a cell reference, is left out.
pub fn parse_sparklines(data: &[u8]) -> (res: Vec<Sparkline>)
    ensures
        res@.map_values(|s: Sparkline| sparkline_view(s)) == spec_parse_sparklines(data@),
{
    let scan = scan_xml_with(data, false);
    let ghost items = xml_items(scan.events@);
    let mut st = SpState {
        found: Vec::new(),
        mode: 0,
        kind: SparklineType::Line,
        color: None,
        range: String::new(),
        loc: String::new(),
        in_f: false,
        in_sqref: false,
    };
    assert(st.found@.map_values(|s: Sparkline| sparkline_view(s)) =~= Seq::<SparklineV>::empty());
    assert(sp_state_view(st) == sp_start());
    let mut i: usize = 0;
    while i < scan.events.len()
        invariant
            0 <= i <= scan.events.len(),
            items == xml_items(scan.events@),
            sp_run(items.take(i as int)) == sp_state_view(st),
            st.mode <= 3,
        decreases scan.events.len() - i,
    {
        assert(items.take(i + 1).drop_last() =~= items.take(i as int));
        assert(items.take(i + 1).last() == scan.events@[i as int]@);
        sp_step_exec(&mut st, &scan.events[i]);
        i += 1;
    }
    assert(items.take(scan.events.len() as int) =~= items);
    if st.mode == 3 {
        close_sparkline(&mut st);
    }
    st.found
}

} // verus!

verus! {

impl Sparkline {
    /// A copy of this sparkline.
    pub fn duplicate(&self) -> (res: Sparkline)
        ensures
            res == *self,
    {
        Sparkline {
            data_range: self.data_range.clone(),
            sparkline_type: self.sparkline_type,
            row: self.row,
            col: self.col,
            color: self.color,
        }
    }
}

} // verus!
