//! Reading slicer and timeline parts (`xl/slicers/slicerN.xml`, `xl/timelines/timelineN.xml`).

use vstd::prelude::*;

use crate::numbers::{parse_unsigned, std_parse_unsigned};
use crate::text::{chars_of, has_prefix, is_prefix, string_from_chars, to_string};
use crate::xml::{attr_items, attr_value, get_attr, local_name, local_part, scan_xml, xml_events, xml_items, XmlAttr, XmlEvent, XmlItem};

verus! {

/// A slicer read from a slicer part. Its anchor and size are the defaults a read slicer gets.
#[derive(Debug, Clone)]
pub struct Slicer {
    pub name: String,
    pub caption: String,
    /// The field the slicer filters: its cache name without `Slicer_` (underscores read as
    /// spaces), else its caption.
    pub source_name: String,
    pub row: u32,
    pub col: u16,
    pub width: u32,
    pub height: u32,
    pub style: String,
    pub pivot_cache_name: Option<String>,
    pub table_id: Option<u32>,
    pub column_index: Option<u32>,
}

/// The grouping a timeline shows.
#[derive(Debug, Clone, Copy, PartialEq, Eq, Structural)]
pub enum TimelineLevel {
    Years,
    Quarters,
    Months,
    Days,
}

/// A timeline read from a timeline part.
#[derive(Debug, Clone)]
pub struct Timeline {
    pub name: String,
    pub caption: String,
    /// The date field: its cache name without `NativeTimeline_` (underscores read as spaces),
    /// else its caption.
    pub source_name: String,
    pub row: u32,
    pub col: u16,
    pub level: TimelineLevel,
}

/// The mathematical form of a [`Slicer`] read from a part.
pub ghost struct SlicerV {
    pub name: Seq<char>,
    pub caption: Seq<char>,
    pub source_name: Seq<char>,
    pub row: u32,
    pub col: u16,
    pub width: u32,
    pub height: u32,
    pub style: Seq<char>,
    pub pivot_cache_name: Option<Seq<char>>,
    pub table_id: Option<u32>,
    pub column_index: Option<u32>,
}

/// The view of a slicer.
pub open spec fn slicer_view(s: Slicer) -> SlicerV {
    SlicerV {
        name: s.name@,
        caption: s.caption@,
        source_name: s.source_name@,
        row: s.row,
        col: s.col,
        width: s.width,
        height: s.height,
        style: s.style@,
        pivot_cache_name: match s.pivot_cache_name {
            Some(p) => Some(p@),
            None => None,
        },
        table_id: s.table_id,
        column_index: s.column_index,
    }
}

/// The mathematical form of a [`Timeline`].
pub ghost struct TimelineV {
    pub name: Seq<char>,
    pub caption: Seq<char>,
    pub source_name: Seq<char>,
    pub row: u32,
    pub col: u16,
    pub level: TimelineLevel,
}

/// The view of a timeline.
pub open spec fn timeline_view(t: Timeline) -> TimelineV {
    TimelineV {
        name: t.name@,
        caption: t.caption@,
        source_name: t.source_name@,
        row: t.row,
        col: t.col,
        level: t.level,
    }
}

/// An attribute's value, or `dflt` when the attribute is absent.
pub open spec fn attr_or(attrs: Seq<(Seq<char>, Seq<char>)>, key: Seq<char>, dflt: Seq<char>) -> Seq<char> {
    match attr_value(attrs, key) {
        Some(v) => v,
        None => dflt,
    }
}

/// `s` with each `_` read as a space.
pub open spec fn underscores_as_spaces(s: Seq<char>) -> Seq<char> {
    s.map_values(|c: char| if c == '_' { ' ' } else { c })
}

/// The source of a slicer or timeline: the cache name after `prefix` with underscores as
/// spaces, or the caption when the cache name does not start with `prefix`.
pub open spec fn source_from_cache(cache: Seq<char>, prefix: Seq<char>, caption: Seq<char>) -> Seq<char> {
    if is_prefix(prefix, cache) {
        underscores_as_spaces(cache.skip(prefix.len() as int))
    } else {
        caption
    }
}

/// The slicer a `<slicer>` element's attributes describe.
pub open spec fn slicer_of(attrs: Seq<(Seq<char>, Seq<char>)>) -> SlicerV {
    let caption = attr_or(attrs, "caption"@, Seq::empty());
    SlicerV {
        name: attr_or(attrs, "name"@, Seq::empty()),
        caption,
        source_name: source_from_cache(attr_or(attrs, "cache"@, Seq::empty()), "Slicer_"@, caption),
        row: 0,
        col: 0,
        width: 200,
        height: 300,
        style: attr_or(attrs, "style"@, "SlicerStyleLight1"@),
        pivot_cache_name: None,
        table_id: None,
        column_index: None,
    }
}

/// The slicers of a run of events: one per `<slicer>` start tag.
pub open spec fn slicers_of(items: Seq<XmlItem>) -> Seq<SlicerV>
    decreases items.len(),
{
    if items.len() == 0 {
        Seq::empty()
    } else {
        let prev = slicers_of(items.drop_last());
        match items.last() {
            XmlItem::Start { name, attrs } => if local_part(name) == "slicer"@ {
                prev.push(slicer_of(attrs))
            } else {
                prev
            },
            _ => prev,
        }
    }
}

/// What `parse_slicers` reads from a slicer part (everything before the end of input or the
/// first XML error).
pub open spec fn spec_parse_slicers(data: Seq<u8>) -> Seq<SlicerV> {
    slicers_of(xml_events(data).0)
}

/// The level a `level` attribute gives: years, quarters, months or days for 0 to 3, months
/// for anything else or when absent.
pub open spec fn level_of(attrs: Seq<(Seq<char>, Seq<char>)>) -> TimelineLevel {
    let n = match attr_value(attrs, "level"@) {
        Some(v) => match std_parse_unsigned(v, 255) {
            Some(n) => n,
            None => 2,
        },
        None => 2,
    };
    if n == 0 {
        TimelineLevel::Years
    } else if n == 1 {
        TimelineLevel::Quarters
    } else if n == 3 {
        TimelineLevel::Days
    } else {
        TimelineLevel::Months
    }
}

/// The timeline a `<timeline>` element's attributes describe.
pub open spec fn timeline_of(attrs: Seq<(Seq<char>, Seq<char>)>) -> TimelineV {
    let caption = attr_or(attrs, "caption"@, Seq::empty());
    TimelineV {
        name: attr_or(attrs, "name"@, Seq::empty()),
        caption,
        source_name: source_from_cache(attr_or(attrs, "cache"@, Seq::empty()), "NativeTimeline_"@, caption),
        row: 0,
        col: 0,
        level: level_of(attrs),
    }
}

/// The timelines of a run of events: one per `<timeline>` start tag.
pub open spec fn timelines_of(items: Seq<XmlItem>) -> Seq<TimelineV>
    decreases items.len(),
{
    if items.len() == 0 {
        Seq::empty()
    } else {
        let prev = timelines_of(items.drop_last());
        match items.last() {
            XmlItem::Start { name, attrs } => if local_part(name) == "timeline"@ {
                prev.push(timeline_of(attrs))
            } else {
                prev
            },
            _ => prev,
        }
    }
}

/// What `parse_timelines` reads from a timeline part (everything before the end of input or
/// the first XML error).
pub open spec fn spec_parse_timelines(data: Seq<u8>) -> Seq<TimelineV> {
    timelines_of(xml_events(data).0)
}

fn attr_or_exec(attrs: &[XmlAttr], key: &str, dflt: &str) -> (res: String)
    ensures
        res@ == attr_or(attr_items(attrs@), key@, dflt@),
{
    match get_attr(attrs, key) {
        Some(v) => to_string(v.as_str()),
        None => to_string(dflt),
    }
}

fn source_from_cache_exec(cache: &str, prefix: &str, caption: &str) -> (res: String)
    ensures
        res@ == source_from_cache(cache@, prefix@, caption@),
{
    let cs = chars_of(cache);
    if !has_prefix(&cs, prefix) {
        return to_string(caption);
    }
    let n = chars_of(prefix).len();
    let ghost rest = cs@.skip(n as int);
    let mut out: Vec<char> = Vec::new();
    let mut i: usize = n;
    while i < cs.len()
        invariant
            n <= i <= cs.len(),
            cs@ == cache@,
            rest == cs@.skip(n as int),
            out@ == underscores_as_spaces(rest.take(i - n)),
        decreases cs.len() - i,
    {
        let c = cs[i];
        out.push(if c == '_' { ' ' } else { c });
        assert(rest.take(i + 1 - n) =~= rest.take(i - n).push(c));
        assert(out@ =~= underscores_as_spaces(rest.take(i + 1 - n)));
        i += 1;
    }
    assert(rest.take(cs.len() - n) =~= rest);
    string_from_chars(&out)
}

fn read_slicer(attrs: &[XmlAttr]) -> (res: Slicer)
    ensures
        slicer_view(res) == slicer_of(attr_items(attrs@)),
{
    proof {
        reveal_strlit("");
        assert(""@ =~= Seq::<char>::empty());
    }
    let name = attr_or_exec(attrs, "name", "");
    let caption = attr_or_exec(attrs, "caption", "");
    let cache = attr_or_exec(attrs, "cache", "");
    let style = attr_or_exec(attrs, "style", "SlicerStyleLight1");
    let source_name = source_from_cache_exec(cache.as_str(), "Slicer_", caption.as_str());
    Slicer {
        name,
        caption,
        source_name,
        row: 0,
        col: 0,
        width: 200,
        height: 300,
        style,
        pivot_cache_name: None,
        table_id: None,
        column_index: None,
    }
}

/// Parse a slicer part into its slicers.
pub fn parse_slicers(data: &[u8]) -> (res: Vec<Slicer>)
    ensures
        res@.map_values(|s: Slicer| slicer_view(s)) == spec_parse_slicers(data@),
{
    let scan = scan_xml(data);
    let ghost items = xml_items(scan.events@);
    let mut out: Vec<Slicer> = Vec::new();
    let mut i: usize = 0;
    while i < scan.events.len()
        invariant
            0 <= i <= scan.events.len(),
            items == xml_items(scan.events@),
            out@.map_values(|s: Slicer| slicer_view(s)) == slicers_of(items.take(i as int)),
        decreases scan.events.len() - i,
    {
        assert(items.take(i + 1).drop_last() =~= items.take(i as int));
        assert(items.take(i + 1).last() == scan.events@[i as int]@);
        match &scan.events[i] {
            XmlEvent::Start { name, attrs } => {
                let local = local_name(name.as_str());
                if crate::text::str_eq(local.as_str(), "slicer") {
                    let s = read_slicer(attrs.as_slice());
                    let ghost before = out@;
                    out.push(s);
                    assert(out@.map_values(|s: Slicer| slicer_view(s)) =~= before.map_values(
                        |s: Slicer| slicer_view(s),
                    ).push(slicer_view(s)));
                }
            },
            _ => {},
        }
        i += 1;
    }
    assert(items.take(scan.events.len() as int) =~= items);
    out
}

fn read_level(attrs: &[XmlAttr]) -> (res: TimelineLevel)
    ensures
        res == level_of(attr_items(attrs@)),
{
    let n: u64 = match get_attr(attrs, "level") {
        Some(v) => match parse_unsigned(v.as_str(), 255) {
            Some(n) => n,
            None => 2,
        },
        None => 2,
    };
    if n == 0 {
        TimelineLevel::Years
    } else if n == 1 {
        TimelineLevel::Quarters
    } else if n == 3 {
        TimelineLevel::Days
    } else {
        TimelineLevel::Months
    }
}

fn read_timeline(attrs: &[XmlAttr]) -> (res: Timeline)
    ensures
        timeline_view(res) == timeline_of(attr_items(attrs@)),
{
    proof {
        reveal_strlit("");
        assert(""@ =~= Seq::<char>::empty());
    }
    let name = attr_or_exec(attrs, "name", "");
    let caption = attr_or_exec(attrs, "caption", "");
    let cache = attr_or_exec(attrs, "cache", "");
    let level = read_level(attrs);
    let source_name = source_from_cache_exec(cache.as_str(), "NativeTimeline_", caption.as_str());
    Timeline { name, caption, source_name, row: 0, col: 0, level }
}

/// Parse a timeline part into its timelines.
pub fn parse_timelines(data: &[u8]) -> (res: Vec<Timeline>)
    ensures
        res@.map_values(|t: Timeline| timeline_view(t)) == spec_parse_timelines(data@),
{
    let scan = scan_xml(data);
    let ghost items = xml_items(scan.events@);
    let mut out: Vec<Timeline> = Vec::new();
    let mut i: usize = 0;
    while i < scan.events.len()
        invariant
            0 <= i <= scan.events.len(),
            items == xml_items(scan.events@),
            out@.map_values(|t: Timeline| timeline_view(t)) == timelines_of(items.take(i as int)),
        decreases scan.events.len() - i,
    {
        assert(items.take(i + 1).drop_last() =~= items.take(i as int));
        assert(items.take(i + 1).last() == scan.events@[i as int]@);
        match &scan.events[i] {
            XmlEvent::Start { name, attrs } => {
                let local = local_name(name.as_str());
                if crate::text::str_eq(local.as_str(), "timeline") {
                    let t = read_timeline(attrs.as_slice());
                    let ghost before = out@;
                    out.push(t);
                    assert(out@.map_values(|t: Timeline| timeline_view(t)) =~= before.map_values(
                        |t: Timeline| timeline_view(t),
                    ).push(timeline_view(t)));
                }
            },
            _ => {},
        }
        i += 1;
    }
    assert(items.take(scan.events.len() as int) =~= items);
    out
}

} // verus!
