//! Package relationships (`_rels/*.rels` parts) and the paths they point to.

use vstd::prelude::*;

use crate::error::Error;
use crate::text::{chars_of, has_prefix, is_prefix, push_chars, push_str, str_eq, to_string};
use crate::numbers::std_parse_unsigned;
use crate::text::trim;
use crate::utility::sub_chars;
use crate::xml::{
    attr_items, attr_value, get_attr, local_name, local_part, scan_xml, xml_events, xml_items,
    XmlEvent, XmlItem,
};

verus! {

/// A relationship: its id, its type URI and its target path.
pub struct Rel {
    pub id: String,
    pub rel_type: String,
    pub target: String,
}

/// The mathematical form of a [`Rel`].
pub ghost struct RelView {
    pub id: Seq<char>,
    pub rel_type: Seq<char>,
    pub target: Seq<char>,
}

impl View for Rel {
    type V = RelView;

    open spec fn view(&self) -> RelView {
        RelView { id: self.id@, rel_type: self.rel_type@, target: self.target@ }
    }
}

/// The views of a run of relationships.
pub open spec fn rel_views(v: Seq<Rel>) -> Seq<RelView> {
    v.map_values(|r: Rel| r@)
}

/// An attribute's value, or empty text when the attribute is absent.
pub open spec fn attr_or_empty(attrs: Seq<(Seq<char>, Seq<char>)>, key: Seq<char>) -> Seq<char> {
    match attr_value(attrs, key) {
        Some(v) => v,
        None => Seq::empty(),
    }
}

/// The relationships that a run of events declares: one per `Relationship` start tag.
pub open spec fn rels_of(items: Seq<XmlItem>) -> Seq<RelView>
    decreases items.len(),
{
    if items.len() == 0 {
        Seq::empty()
    } else {
        let prev = rels_of(items.drop_last());
        match items.last() {
            XmlItem::Start { name, attrs } => if local_part(name) == "Relationship"@ {
                prev.push(
                    RelView {
                        id: attr_or_empty(attrs, "Id"@),
                        rel_type: attr_or_empty(attrs, "Type"@),
                        target: attr_or_empty(attrs, "Target"@),
                    },
                )
            } else {
                prev
            },
            _ => prev,
        }
    }
}

/// What `parse_rels` gives for a part: its relationships, or nothing when the XML is broken.
pub open spec fn spec_parse_rels(data: Seq<u8>) -> Option<Seq<RelView>> {
    if xml_events(data).1 {
        Some(rels_of(xml_events(data).0))
    } else {
        None
    }
}

fn attr_or_empty_exec(attrs: &[crate::xml::XmlAttr], key: &str) -> (res: String)
    ensures
        res@ == attr_or_empty(attr_items(attrs@), key@),
{
    match get_attr(attrs, key) {
        Some(v) => to_string(v.as_str()),
        None => String::new(),
    }
}

/// Parse a relationships part into its relationships, in document order.
pub fn parse_rels(data: &[u8]) -> (res: Result<Vec<Rel>, Error>)
    ensures
        match res {
            Ok(v) => spec_parse_rels(data@) == Some(rel_views(v@)),
            Err(e) => spec_parse_rels(data@) is None && e is Xml,
        },
{
    let scan = scan_xml(data);
    if !scan.complete {
        return Err(Error::Xml(to_string("malformed relationships part")));
    }
    let ghost items = xml_items(scan.events@);
    let mut rels: Vec<Rel> = Vec::new();
    let mut i: usize = 0;
    while i < scan.events.len()
        invariant
            0 <= i <= scan.events.len(),
            items == xml_items(scan.events@),
            rel_views(rels@) == rels_of(items.take(i as int)),
        decreases scan.events.len() - i,
    {
        assert(items.take(i + 1).drop_last() =~= items.take(i as int));
        assert(items.take(i + 1).last() == scan.events@[i as int]@);
        match &scan.events[i] {
            XmlEvent::Start { name, attrs } => {
                let local = local_name(name.as_str());
                if str_eq(local.as_str(), "Relationship") {
                    let r = Rel {
                        id: attr_or_empty_exec(attrs.as_slice(), "Id"),
                        rel_type: attr_or_empty_exec(attrs.as_slice(), "Type"),
                        target: attr_or_empty_exec(attrs.as_slice(), "Target"),
                    };
                    let ghost before = rels@;
                    let ghost rv = r@;
                    rels.push(r);
                    assert(rel_views(rels@) =~= rel_views(before).push(rv));
                }
            },
            _ => {},
        }
        i += 1;
    }
    assert(items.take(scan.events.len() as int) =~= items);
    Ok(rels)
}

/// Where a relationship target sits in the package: `../x` is under `xl/`, `/xl/x` drops its
/// leading `/`, `xl/x` stays, and anything else is taken relative to `base`.
pub open spec fn resolve_target(target: Seq<char>, base: Seq<char>) -> Seq<char> {
    if is_prefix("../"@, target) {
        "xl/"@ + target.skip(3)
    } else if is_prefix("/xl/"@, target) {
        target.skip(4)
    } else if is_prefix("xl/"@, target) {
        target
    } else {
        base + target
    }
}

/// The package path of a relationship target (see [`resolve_target`]).
pub fn resolve_target_path(target: &str, base: &str) -> (res: String)
    ensures
        res@ == resolve_target(target@, base@),
{
    proof {
        reveal_strlit("../");
        reveal_strlit("/xl/");
    }
    let t = chars_of(target);
    if has_prefix(&t, "../") {
        let mut out = to_string("xl/");
        let rest = sub_chars(&t, 3, t.len());
        assert(rest@ =~= target@.skip(3));
        push_chars(&mut out, &rest);
        out
    } else if has_prefix(&t, "/xl/") {
        let rest = sub_chars(&t, 4, t.len());
        assert(rest@ =~= target@.skip(4));
        crate::text::string_from_chars(&rest)
    } else if has_prefix(&t, "xl/") {
        to_string(target)
    } else {
        let mut out = to_string(base);
        push_str(&mut out, target);
        out
    }
}

/// The relationship type of a cell-comments part.
pub open spec fn comments_rel_type() -> Seq<char> {
    "http://schemas.openxmlformats.org/officeDocument/2006/relationships/comments"@
}

/// The first relationship of the given type, if any.
pub open spec fn first_of_type(rels: Seq<RelView>, ty: Seq<char>) -> Option<RelView>
    decreases rels.len(),
{
    if rels.len() == 0 {
        None
    } else if rels[0].rel_type == ty {
        Some(rels[0])
    } else {
        first_of_type(rels.drop_first(), ty)
    }
}

proof fn lemma_first_of_type_at(rels: Seq<RelView>, ty: Seq<char>, i: int)
    requires
        0 <= i <= rels.len(),
        forall|k: int| 0 <= k < i ==> #[trigger] rels[k].rel_type != ty,
    ensures
        i < rels.len() && rels[i].rel_type == ty ==> first_of_type(rels, ty) == Some(rels[i]),
        i == rels.len() ==> first_of_type(rels, ty) is None,
    decreases i,
{
    if i > 0 {
        let t = rels.drop_first();
        assert forall|k: int| 0 <= k < i - 1 implies #[trigger] t[k].rel_type != ty by {
            assert(t[k] == rels[k + 1]);
        }
        if i < rels.len() {
            assert(t[i - 1] == rels[i]);
        }
        assert(rels[0].rel_type != ty);
        lemma_first_of_type_at(t, ty, i - 1);
    }
}

/// What `find_comments_path_from_rels` gives for a sheet's relationships part.
pub open spec fn spec_comments_path(data: Seq<u8>) -> Option<Seq<char>> {
    match spec_parse_rels(data) {
        Some(rels) => match first_of_type(rels, comments_rel_type()) {
            Some(r) => Some(resolve_target(r.target, "xl/"@)),
            None => None,
        },
        None => None,
    }
}

/// Find the comment file path for a sheet by looking at the sheet's relationships.
///
/// Returns `None` if no comment relationship is found (or the part cannot be read).
pub fn find_comments_path_from_rels(sheet_rels_data: &[u8]) -> (res: Option<String>)
    ensures
        match res {
            Some(p) => spec_comments_path(sheet_rels_data@) == Some(p@),
            None => spec_comments_path(sheet_rels_data@) is None,
        },
{
    let rels = match parse_rels(sheet_rels_data) {
        Ok(r) => r,
        Err(_) => {
            return None;
        },
    };
    let ghost rv = rel_views(rels@);
    let mut i: usize = 0;
    while i < rels.len()
        invariant
            0 <= i <= rels.len(),
            rv == rel_views(rels@),
            spec_parse_rels(sheet_rels_data@) == Some(rv),
            forall|k: int| 0 <= k < i ==> #[trigger] rv[k].rel_type != comments_rel_type(),
        decreases rels.len() - i,
    {
        assert(rv[i as int] == rels@[i as int]@);
        if str_eq(
            rels[i].rel_type.as_str(),
            "http://schemas.openxmlformats.org/officeDocument/2006/relationships/comments",
        ) {
            proof {
                lemma_first_of_type_at(rv, comments_rel_type(), i as int);
            }
            let p = resolve_target_path(rels[i].target.as_str(), "xl/");
            assert(first_of_type(rv, comments_rel_type()) == Some(rv[i as int]));
            assert(rv[i as int].target == rels@[i as int].target@);
            assert(spec_parse_rels(sheet_rels_data@) == Some(rv));
            return Some(p);
        }
        i += 1;
    }
    proof {
        lemma_first_of_type_at(rv, comments_rel_type(), i as int);
    }
    None
}

/// The targets of all relationships of type `ty`, resolved against `base`, in order.
pub open spec fn targets_of_type(rels: Seq<RelView>, ty: Seq<char>, base: Seq<char>) -> Seq<Seq<char>>
    decreases rels.len(),
{
    if rels.len() == 0 {
        Seq::empty()
    } else {
        let prev = targets_of_type(rels.drop_last(), ty, base);
        if rels.last().rel_type == ty {
            prev.push(resolve_target(rels.last().target, base))
        } else {
            prev
        }
    }
}

/// The paths of the parts a sheet's relationships part links with type `ty`, resolved against
/// `base`; empty when the part cannot be read.
pub open spec fn spec_linked_paths(data: Seq<u8>, ty: Seq<char>, base: Seq<char>) -> Seq<Seq<char>> {
    match spec_parse_rels(data) {
        Some(rels) => targets_of_type(rels, ty, base),
        None => Seq::empty(),
    }
}

/// The views of a run of strings.
pub open spec fn string_views(v: Seq<String>) -> Seq<Seq<char>> {
    v.map_values(|s: String| s@)
}

/// The resolved targets of every relationship of type `ty` in a relationships part.
pub fn linked_paths(sheet_rels_data: &[u8], ty: &str, base: &str) -> (res: Vec<String>)
    ensures
        string_views(res@) == spec_linked_paths(sheet_rels_data@, ty@, base@),
{
    let rels = match parse_rels(sheet_rels_data) {
        Ok(r) => r,
        Err(_) => {
            let v: Vec<String> = Vec::new();
            assert(string_views(v@) =~= Seq::<Seq<char>>::empty());
            return v;
        },
    };
    let ghost rv = rel_views(rels@);
    let mut out: Vec<String> = Vec::new();
    let mut i: usize = 0;
    while i < rels.len()
        invariant
            0 <= i <= rels.len(),
            rv == rel_views(rels@),
            string_views(out@) == targets_of_type(rv.take(i as int), ty@, base@),
        decreases rels.len() - i,
    {
        assert(rv.take(i + 1).drop_last() =~= rv.take(i as int));
        assert(rv.take(i + 1).last() == rels@[i as int]@);
        if str_eq(rels[i].rel_type.as_str(), ty) {
            let p = resolve_target_path(rels[i].target.as_str(), base);
            let ghost before = out@;
            let ghost pv = p@;
            out.push(p);
            assert(string_views(out@) =~= string_views(before).push(pv));
        }
        i += 1;
    }
    assert(rv.take(rels.len() as int) =~= rv);
    out
}

/// The relationship type of a slicer part.
pub open spec fn slicer_rel_type() -> Seq<char> {
    "http://schemas.microsoft.com/office/2007/relationships/slicer"@
}

/// The relationship type of a timeline part.
pub open spec fn timeline_rel_type() -> Seq<char> {
    "http://schemas.microsoft.com/office/2011/relationships/timeline"@
}

/// Find slicer paths from sheet relationships data.
pub fn find_slicer_paths_from_rels(sheet_rels_data: &[u8]) -> (res: Vec<String>)
    ensures
        string_views(res@) == spec_linked_paths(sheet_rels_data@, slicer_rel_type(), "xl/slicers/"@),
{
    linked_paths(
        sheet_rels_data,
        "http://schemas.microsoft.com/office/2007/relationships/slicer",
        "xl/slicers/",
    )
}

/// Find timeline paths from sheet relationships data.
pub fn find_timeline_paths_from_rels(sheet_rels_data: &[u8]) -> (res: Vec<String>)
    ensures
        string_views(res@) == spec_linked_paths(sheet_rels_data@, timeline_rel_type(), "xl/timelines/"@),
{
    linked_paths(
        sheet_rels_data,
        "http://schemas.microsoft.com/office/2011/relationships/timeline",
        "xl/timelines/",
    )
}

/// The package path of a workbook's sheet target: `/xl/x` drops its leading `/`, `xl/x` stays,
/// anything else is taken relative to `xl/`.
pub open spec fn spec_normalize_sheet_path(target: Seq<char>) -> Seq<char> {
    if is_prefix("/xl/"@, target) {
        target.skip(1)
    } else if is_prefix("xl/"@, target) {
        target
    } else {
        "xl/"@ + target
    }
}

/// The package path of a sheet named by the workbook relationships.
pub fn normalize_sheet_path(target: &str) -> (res: String)
    ensures
        res@ == spec_normalize_sheet_path(target@),
{
    proof {
        reveal_strlit("/xl/");
    }
    let t = chars_of(target);
    if has_prefix(&t, "/xl/") {
        let rest = sub_chars(&t, 1, t.len());
        assert(rest@ =~= target@.skip(1));
        crate::text::string_from_chars(&rest)
    } else if has_prefix(&t, "xl/") {
        to_string(target)
    } else {
        let mut out = to_string("xl/");
        push_str(&mut out, target);
        out
    }
}


/// Discovered chart reference from a drawing XML part.
pub struct DrawingChartRef {
    /// The row of the cell the chart's top-left corner sits over, when the drawing says.
    pub from_row: Option<u32>,
    /// The column of that cell, when the drawing says.
    pub from_col: Option<u16>,
    /// Relationship ID (e.g. "rId1") pointing to the chart part.
    pub r_id: String,
    /// Whether this is a ChartEx reference (`cx:chart`) vs standard (`c:chart`).
    pub is_chartex: bool,
}

/// A chart part, and where on the sheet it sits.
pub struct ResolvedChart {
    pub path: String,
    pub is_chartex: bool,
    pub from_row: Option<u32>,
    pub from_col: Option<u16>,
}

/// The mathematical form of a [`DrawingChartRef`].
pub ghost struct ChartRefView {
    pub from_row: Option<u32>,
    pub from_col: Option<u16>,
    pub r_id: Seq<char>,
    pub is_chartex: bool,
}

/// The mathematical form of a [`ResolvedChart`].
pub ghost struct ResolvedChartView {
    pub path: Seq<char>,
    pub is_chartex: bool,
    pub from_row: Option<u32>,
    pub from_col: Option<u16>,
}

impl View for DrawingChartRef {
    type V = ChartRefView;

    open spec fn view(&self) -> ChartRefView {
        ChartRefView {
            from_row: self.from_row,
            from_col: self.from_col,
            r_id: self.r_id@,
            is_chartex: self.is_chartex,
        }
    }
}

impl View for ResolvedChart {
    type V = ResolvedChartView;

    open spec fn view(&self) -> ResolvedChartView {
        ResolvedChartView {
            path: self.path@,
            is_chartex: self.is_chartex,
            from_row: self.from_row,
            from_col: self.from_col,
        }
    }
}

/// The first relationship with the given id, if any.
pub open spec fn first_with_id(rels: Seq<RelView>, id: Seq<char>) -> Option<RelView>
    decreases rels.len(),
{
    if rels.len() == 0 {
        None
    } else if rels[0].id == id {
        Some(rels[0])
    } else {
        first_with_id(rels.drop_first(), id)
    }
}

proof fn lemma_first_with_id_at(rels: Seq<RelView>, id: Seq<char>, i: int)
    requires
        0 <= i <= rels.len(),
        forall|k: int| 0 <= k < i ==> #[trigger] rels[k].id != id,
    ensures
        i < rels.len() && rels[i].id == id ==> first_with_id(rels, id) == Some(rels[i]),
        i == rels.len() ==> first_with_id(rels, id) is None,
    decreases i,
{
    if i > 0 {
        let t = rels.drop_first();
        assert forall|k: int| 0 <= k < i - 1 implies #[trigger] t[k].id != id by {
            assert(t[k] == rels[k + 1]);
        }
        if i < rels.len() {
            assert(t[i - 1] == rels[i]);
        }
        assert(rels[0].id != id);
        lemma_first_with_id_at(t, id, i - 1);
    }
}

/// The charts that drawing references resolve to through the drawing's relationships: one per
/// reference whose id a relationship carries, in reference order.
pub open spec fn resolve_refs(refs: Seq<ChartRefView>, rels: Seq<RelView>) -> Seq<ResolvedChartView>
    decreases refs.len(),
{
    if refs.len() == 0 {
        Seq::empty()
    } else {
        let prev = resolve_refs(refs.drop_last(), rels);
        let d = refs.last();
        match first_with_id(rels, d.r_id) {
            Some(r) => prev.push(
                ResolvedChartView {
                    path: resolve_target(r.target, "xl/charts/"@),
                    is_chartex: d.is_chartex,
                    from_row: d.from_row,
                    from_col: d.from_col,
                },
            ),
            None => prev,
        }
    }
}

/// What `resolve_chart_paths` gives: the resolved charts, or none when the rels part is broken.
pub open spec fn spec_resolve_chart_paths(refs: Seq<ChartRefView>, rels_data: Seq<u8>) -> Seq<
    ResolvedChartView,
> {
    match spec_parse_rels(rels_data) {
        Some(rels) => resolve_refs(refs, rels),
        None => Seq::empty(),
    }
}

fn find_rel_by_id<'a>(rels: &'a [Rel], id: &str) -> (res: Option<&'a Rel>)
    ensures
        match res {
            Some(r) => first_with_id(rel_views(rels@), id@) == Some(r@),
            None => first_with_id(rel_views(rels@), id@) is None,
        },
{
    let ghost rv = rel_views(rels@);
    let mut i: usize = 0;
    while i < rels.len()
        invariant
            0 <= i <= rels.len(),
            rv == rel_views(rels@),
            forall|k: int| 0 <= k < i ==> #[trigger] rv[k].id != id@,
        decreases rels.len() - i,
    {
        assert(rv[i as int] == rels@[i as int]@);
        if str_eq(rels[i].id.as_str(), id) {
            proof {
                lemma_first_with_id_at(rv, id@, i as int);
            }
            return Some(&rels[i]);
        }
        i += 1;
    }
    proof {
        lemma_first_with_id_at(rv, id@, i as int);
    }
    None
}

/// Resolve drawing relationship IDs to chart part paths using the drawing
/// rels file (`xl/drawings/_rels/drawing{N}.xml.rels`).
///
/// Returns each chart's path, whether it is a chartex, and where it is anchored.
pub fn resolve_chart_paths(drawing_refs: &[DrawingChartRef], rels_data: &[u8]) -> (res: Vec<ResolvedChart>)
    ensures
        res@.map_values(|r: ResolvedChart| r@) == spec_resolve_chart_paths(
            drawing_refs@.map_values(|d: DrawingChartRef| d@),
            rels_data@,
        ),
{
    let ghost refs = drawing_refs@.map_values(|d: DrawingChartRef| d@);
    let rels = match parse_rels(rels_data) {
        Ok(r) => r,
        Err(_) => {
            let v: Vec<ResolvedChart> = Vec::new();
            assert(v@.map_values(|r: ResolvedChart| r@) =~= Seq::<ResolvedChartView>::empty());
            return v;
        },
    };
    let ghost rv = rel_views(rels@);
    let mut paths: Vec<ResolvedChart> = Vec::new();
    let mut i: usize = 0;
    while i < drawing_refs.len()
        invariant
            0 <= i <= drawing_refs.len(),
            refs == drawing_refs@.map_values(|d: DrawingChartRef| d@),
            rv == rel_views(rels@),
            paths@.map_values(|r: ResolvedChart| r@) == resolve_refs(refs.take(i as int), rv),
        decreases drawing_refs.len() - i,
    {
        let d = &drawing_refs[i];
        assert(refs.take(i + 1).drop_last() =~= refs.take(i as int));
        assert(refs.take(i + 1).last() == d@);
        match find_rel_by_id(rels.as_slice(), d.r_id.as_str()) {
            Some(rel) => {
                let c = ResolvedChart {
                    path: resolve_target_path(rel.target.as_str(), "xl/charts/"),
                    is_chartex: d.is_chartex,
                    from_row: d.from_row,
                    from_col: d.from_col,
                };
                let ghost before = paths@;
                let ghost cv = c@;
                paths.push(c);
                assert(paths@.map_values(|r: ResolvedChart| r@) =~= before.map_values(
                    |r: ResolvedChart| r@,
                ).push(cv));
            },
            None => {},
        }
        i += 1;
    }
    assert(refs.take(drawing_refs.len() as int) =~= refs);
    paths
}

/// Where the reader stands in a drawing part.
pub ghost struct DrawingScan {
    pub refs: Seq<ChartRefView>,
    /// Inside an anchor's `<from>`.
    pub in_from: bool,
    /// The `<row>` or `<col>` whose text is awaited.
    pub reading: Option<Seq<char>>,
    pub from_row: Option<u32>,
    pub from_col: Option<u16>,
}

/// The state before the first event.
pub open spec fn drawing_scan_start() -> DrawingScan {
    DrawingScan { refs: Seq::empty(), in_from: false, reading: None, from_row: None, from_col: None }
}

/// How one event moves the reader: an anchor's `<from>` row and column give the position of the
/// next chart; a `<chart r:id>` (qualified `cx:` for a ChartEx) records a reference there and
/// forgets the position.
pub open spec fn drawing_step(st: DrawingScan, ev: XmlItem) -> DrawingScan {
    match ev {
        XmlItem::Start { name, attrs } => {
            let local = local_part(name);
            let st1 = if local == "from"@ {
                DrawingScan { in_from: true, ..st }
            } else if local == "to"@ {
                DrawingScan { in_from: false, ..st }
            } else if (local == "col"@ || local == "row"@) && st.in_from {
                DrawingScan { reading: Some(local), ..st }
            } else {
                st
            };
            if local == "chart"@ {
                match attr_value(attrs, "r:id"@) {
                    Some(rid) => DrawingScan {
                        refs: st1.refs.push(
                            ChartRefView {
                                from_row: st1.from_row,
                                from_col: st1.from_col,
                                r_id: rid,
                                is_chartex: is_prefix("cx:"@, name),
                            },
                        ),
                        from_row: None,
                        from_col: None,
                        ..st1
                    },
                    None => st1,
                }
            } else {
                st1
            }
        },
        XmlItem::Text(t) => match st.reading {
            Some(which) => {
                let number = std_parse_unsigned(trim(t), u32::MAX as int);
                if which == "row"@ {
                    DrawingScan {
                        reading: None,
                        from_row: match number {
                            Some(n) => Some(n as u32),
                            None => None,
                        },
                        ..st
                    }
                } else {
                    DrawingScan {
                        reading: None,
                        from_col: match number {
                            Some(n) => if n <= u16::MAX { Some(n as u16) } else { None },
                            None => None,
                        },
                        ..st
                    }
                }
            },
            None => st,
        },
        XmlItem::End { name } => DrawingScan {
            in_from: if local_part(name) == "from"@ { false } else { st.in_from },
            reading: None,
            ..st
        },
        _ => st,
    }
}

/// The reader's state after a run of events.
pub open spec fn drawing_run(items: Seq<XmlItem>) -> DrawingScan
    decreases items.len(),
{
    if items.len() == 0 {
        drawing_scan_start()
    } else {
        drawing_step(drawing_run(items.drop_last()), items.last())
    }
}

/// What `parse_drawing_chart_refs` gives: the chart references read before the end of the part
/// or its first XML error.
pub open spec fn spec_drawing_chart_refs(data: Seq<u8>) -> Seq<ChartRefView> {
    drawing_run(xml_events(data).0).refs
}

/// Parse a drawing XML (`xl/drawings/drawing{N}.xml`) to discover chart relationship IDs
/// embedded in `<xdr:graphicFrame>` anchors, with the cell each chart is anchored at.
pub fn parse_drawing_chart_refs(data: &[u8]) -> (res: Vec<DrawingChartRef>)
    ensures
        res@.map_values(|d: DrawingChartRef| d@) == spec_drawing_chart_refs(data@),
{
    let scan = scan_xml(data);
    let ghost items = xml_items(scan.events@);
    let mut refs: Vec<DrawingChartRef> = Vec::new();
    let mut in_from = false;
    let mut reading: Option<String> = None;
    let mut from_row: Option<u32> = None;
    let mut from_col: Option<u16> = None;
    let mut i: usize = 0;
    assert(refs@.map_values(|d: DrawingChartRef| d@) =~= Seq::<ChartRefView>::empty());
    while i < scan.events.len()
        invariant
            0 <= i <= scan.events.len(),
            items == xml_items(scan.events@),
            (DrawingScan {
                refs: refs@.map_values(|d: DrawingChartRef| d@),
                in_from,
                reading: match reading { Some(r) => Some(r@), None => None },
                from_row,
                from_col,
            }) == drawing_run(items.take(i as int)),
        decreases scan.events.len() - i,
    {
        assert(items.take(i + 1).drop_last() =~= items.take(i as int));
        assert(items.take(i + 1).last() == scan.events@[i as int]@);
        match &scan.events[i] {
            XmlEvent::Start { name, attrs } => {
                let local = local_name(name.as_str());
                let l = local.as_str();
                if str_eq(l, "from") {
                    in_from = true;
                } else if str_eq(l, "to") {
                    in_from = false;
                } else if (str_eq(l, "col") || str_eq(l, "row")) && in_from {
                    reading = Some(local.clone());
                }
                if str_eq(l, "chart") {
                    match get_attr(attrs.as_slice(), "r:id") {
                        Some(rid) => {
                            let is_cx = has_prefix(&chars_of(name.as_str()), "cx:");
                            let r = DrawingChartRef { from_row, from_col, r_id: rid.clone(), is_chartex: is_cx };
                            let ghost rv = r@;
                            let ghost before = refs@;
                            refs.push(r);
                            assert(refs@.map_values(|d: DrawingChartRef| d@) =~= before.map_values(
                                |d: DrawingChartRef| d@,
                            ).push(rv));
                            from_row = None;
                            from_col = None;
                        },
                        None => {},
                    }
                }
            },
            XmlEvent::Text(t) => {
                match reading {
                    Some(which) => {
                        let trimmed = crate::text::trim_chars(&chars_of(t.as_str()));
                        let text = crate::text::string_from_chars(&trimmed);
                        let number = crate::numbers::parse_unsigned(text.as_str(), u32::MAX as u64);
                        if str_eq(which.as_str(), "row") {
                            from_row = match number {
                                Some(n) => Some(n as u32),
                                None => None,
                            };
                        } else {
                            from_col = match number {
                                Some(n) => if n <= 65535 { Some(n as u16) } else { None },
                                None => None,
                            };
                        }
                        reading = None;
                    },
                    None => {},
                }
            },
            XmlEvent::End { name } => {
                let local = local_name(name.as_str());
                if str_eq(local.as_str(), "from") {
                    in_from = false;
                }
                reading = None;
            },
            _ => {},
        }
        i += 1;
    }
    assert(items.take(scan.events.len() as int) =~= items);
    refs
}

} // verus!
