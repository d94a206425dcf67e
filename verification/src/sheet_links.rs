//! What reading a workbook fills into its sheets besides cells: repeated print titles from the
//! defined names, hyperlinks resolved through the sheet's relationships, and comments.

use vstd::prelude::*;

use crate::comments::{parse_comments, spec_parse_comments, CommentView, ParsedComment};
use crate::rels::{parse_rels, rel_views, spec_parse_rels, Rel, RelView};
use crate::sheet_reader::{
    empty_print, hyperlink_view, opt_text, print_view, HyperlinkV, ParsedHyperlink, PrintSettings, PrintV,
};
use crate::text::{ascii_case_eq, chars_of, eq_ignore_ascii_case, string_from_chars, str_eq, to_string, trim, trim_chars};
use crate::utility::{find_char, first_index_of, parse_cell_ref, spec_parse_cell_ref, sub_chars, ColNum, RowNum};
use crate::workbook::{
    extract_sheet_name, last_index_of_char, parse_col_range, parse_row_range, rfind_char, spec_extract_sheet_name,
    spec_parse_col_range, spec_parse_row_range, DefinedName, DefinedNameScope,
};
use crate::worksheet::{Comment, Hyperlink};
use crate::xlsx_reader::{defined_name_view, find_target, last_target, DefinedNameV};

verus! {

/// `s` cut at every `c`, as `str::split` cuts it (empty pieces kept).
pub open spec fn split_on(s: Seq<char>, c: char) -> Seq<Seq<char>>
    decreases s.len(),
{
    let k = first_index_of(s, c);
    if 0 <= k < s.len() {
        seq![s.take(k)] + split_on(s.skip(k + 1), c)
    } else {
        seq![s]
    }
}

fn split_chars(cs: &Vec<char>, c: char) -> (res: Vec<Vec<char>>)
    ensures
        res@.map_values(|v: Vec<char>| v@) == split_on(cs@, c),
{
    let mut parts: Vec<Vec<char>> = Vec::new();
    let mut rest = sub_chars(cs, 0, cs.len());
    assert(rest@ =~= cs@);
    loop
        invariant
            parts@.map_values(|v: Vec<char>| v@) + split_on(rest@, c) == split_on(cs@, c),
        decreases rest@.len(),
    {
        match find_char(&rest, c) {
            Some(k) => {
                let head = sub_chars(&rest, 0, k);
                let tail = sub_chars(&rest, k + 1, rest.len());
                assert(head@ =~= rest@.take(k as int));
                assert(tail@ =~= rest@.skip(k + 1));
                let ghost before = parts@.map_values(|v: Vec<char>| v@);
                parts.push(head);
                assert(parts@.map_values(|v: Vec<char>| v@) =~= before.push(head@));
                assert(before + split_on(rest@, c) =~= before.push(head@) + split_on(tail@, c));
                rest = tail;
            },
            None => {
                let ghost before = parts@.map_values(|v: Vec<char>| v@);
                parts.push(rest);
                assert(parts@.map_values(|v: Vec<char>| v@) =~= before + split_on(rest@, c));
                return parts;
            },
        }
    }
}

/// The reference after the last `!` of a piece of a formula (the whole piece when it has none).
pub open spec fn ref_after_sheet(part: Seq<char>) -> Seq<char> {
    let k = last_index_of_char(part, '!');
    if k >= 0 {
        part.skip(k + 1)
    } else {
        part
    }
}

/// One piece of a print-titles formula: a row range like `$1:$3` sets the repeated rows, else a
/// column range like `$A:$B` sets the repeated columns, else nothing changes.
pub open spec fn apply_title_part(ps: PrintV, part: Seq<char>) -> PrintV {
    let r = ref_after_sheet(trim(part));
    match spec_parse_row_range(r) {
        Some(rows) => PrintV { repeat_rows: Some(rows), ..ps },
        None => match spec_parse_col_range(r) {
            Some(cols) => PrintV { repeat_cols: Some(cols), ..ps },
            None => ps,
        },
    }
}

/// The pieces of a print-titles formula applied in order.
pub open spec fn apply_title_parts(ps: PrintV, parts: Seq<Seq<char>>) -> PrintV
    decreases parts.len(),
{
    if parts.len() == 0 {
        ps
    } else {
        apply_title_part(apply_title_parts(ps, parts.drop_last()), parts.last())
    }
}

/// The index of the first sheet named `n`, or -1.
pub open spec fn position_of(names: Seq<Seq<char>>, n: Seq<char>) -> int
    decreases names.len(),
{
    if names.len() == 0 {
        -1
    } else if names[0] == n {
        0
    } else {
        let r = position_of(names.drop_first(), n);
        if r < 0 {
            -1
        } else {
            r + 1
        }
    }
}

/// The sheet that a defined name's print titles apply to, or -1 when the name is not
/// `_xlnm.Print_Titles` (in any ASCII case) or names no existing sheet. A workbook-scoped name
/// goes to the first sheet named before the `!` of its formula's first piece.
pub open spec fn print_titles_sheet(dn: DefinedNameV, names: Seq<Seq<char>>) -> int {
    if !eq_ignore_ascii_case(dn.name, "_xlnm.Print_Titles"@) {
        -1
    } else {
        match dn.scope {
            DefinedNameScope::Sheet(i) => if i < names.len() {
                i as int
            } else {
                -1
            },
            DefinedNameScope::Workbook => match spec_extract_sheet_name(dn.formula) {
                Some(n) => position_of(names, n),
                None => -1,
            },
        }
    }
}

/// The optional print settings' views.
pub open spec fn opt_print(o: Option<PrintSettings>) -> Option<PrintV> {
    match o {
        Some(p) => Some(print_view(p)),
        None => None,
    }
}

/// One defined name applied: the sheet it names gets print settings (empty ones when it had
/// none) with the formula's repeated rows and columns.
pub open spec fn apply_print_title(settings: Seq<Option<PrintV>>, dn: DefinedNameV, names: Seq<Seq<char>>) -> Seq<
    Option<PrintV>,
> {
    let i = print_titles_sheet(dn, names);
    if i < 0 {
        settings
    } else {
        let ps = match settings[i] {
            Some(p) => p,
            None => empty_print(),
        };
        settings.update(i, Some(apply_title_parts(ps, split_on(dn.formula, ','))))
    }
}

/// The defined names applied in order.
pub open spec fn apply_print_title_names(
    settings: Seq<Option<PrintV>>,
    dns: Seq<DefinedNameV>,
    names: Seq<Seq<char>>,
) -> Seq<Option<PrintV>>
    decreases dns.len(),
{
    if dns.len() == 0 {
        settings
    } else {
        apply_print_title(apply_print_title_names(settings, dns.drop_last(), names), dns.last(), names)
    }
}

fn position_in(names: &[String], n: &str) -> (res: Option<usize>)
    ensures
        match res {
            Some(k) => k < names@.len() && position_of(names@.map_values(|s: String| s@), n@) == k,
            None => position_of(names@.map_values(|s: String| s@), n@) == -1,
        },
{
    let ghost views = names@.map_values(|s: String| s@);
    let mut i: usize = 0;
    while i < names.len()
        invariant
            0 <= i <= names.len(),
            views == names@.map_values(|s: String| s@),
            forall|k: int| 0 <= k < i ==> #[trigger] views[k] != n@,
        decreases names.len() - i,
    {
        if str_eq(names[i].as_str(), n) {
            proof {
                lemma_position_at(views, n@, i as int);
            }
            return Some(i);
        }
        i += 1;
    }
    proof {
        lemma_position_at(views, n@, i as int);
    }
    None
}

proof fn lemma_position_at(names: Seq<Seq<char>>, n: Seq<char>, i: int)
    requires
        0 <= i <= names.len(),
        forall|k: int| 0 <= k < i ==> #[trigger] names[k] != n,
    ensures
        i < names.len() && names[i] == n ==> position_of(names, n) == i,
        i == names.len() ==> position_of(names, n) == -1,
    decreases i,
{
    if i > 0 {
        let t = names.drop_first();
        assert forall|k: int| 0 <= k < i - 1 implies #[trigger] t[k] != n by {
            assert(t[k] == names[k + 1]);
        }
        if i < names.len() {
            assert(t[i - 1] == names[i]);
        }
        assert(names[0] != n);
        lemma_position_at(t, n, i - 1);
    }
}

fn apply_title_parts_exec(ps: &mut PrintSettings, formula: &str)
    ensures
        print_view(*final(ps)) == apply_title_parts(print_view(*old(ps)), split_on(formula@, ',')),
{
    let cs = chars_of(formula);
    let parts = split_chars(&cs, ',');
    let ghost pv = parts@.map_values(|v: Vec<char>| v@);
    let ghost start = print_view(*ps);
    let mut i: usize = 0;
    while i < parts.len()
        invariant
            0 <= i <= parts.len(),
            pv == parts@.map_values(|v: Vec<char>| v@),
            pv == split_on(cs@, ','),
            cs@ == formula@,
            print_view(*ps) == apply_title_parts(start, pv.take(i as int)),
        decreases parts.len() - i,
    {
        let part = trim_chars(&parts[i]);
        assert(pv[i as int] == parts@[i as int]@);
        let plen = part.len();
        let r = match rfind_char(part.as_slice(), '!') {
            Some(k) => {
                assert(k < plen);
                sub_chars(&part, k + 1, plen)
            },
            None => sub_chars(&part, 0, part.len()),
        };
        assert(r@ =~= ref_after_sheet(trim(pv[i as int])));
        let text = string_from_chars(&r);
        match parse_row_range(text.as_str()) {
            Some(rows) => {
                ps.repeat_rows = Some(rows);
            },
            None => match parse_col_range(text.as_str()) {
                Some(cols) => {
                    ps.repeat_cols = Some(cols);
                },
                None => {},
            },
        }
        assert(pv.take(i + 1).drop_last() =~= pv.take(i as int));
        assert(pv.take(i + 1).last() == pv[i as int]);
        i += 1;
    }
    assert(pv.take(parts.len() as int) =~= pv);
}

/// Reads the `_xlnm.Print_Titles` defined names into the repeated rows and columns of the
/// sheets' print settings. `sheet_names` and `print_settings` hold each sheet's name and print
/// settings, in sheet order.
pub fn apply_print_titles(
    defined_names: &[DefinedName],
    sheet_names: &[String],
    print_settings: &mut Vec<Option<PrintSettings>>,
)
    requires
        old(print_settings)@.len() == sheet_names@.len(),
    ensures
        final(print_settings)@.len() == sheet_names@.len(),
        final(print_settings)@.map_values(|o: Option<PrintSettings>| opt_print(o)) == apply_print_title_names(
            old(print_settings)@.map_values(|o: Option<PrintSettings>| opt_print(o)),
            defined_names@.map_values(|d: DefinedName| defined_name_view(d)),
            sheet_names@.map_values(|s: String| s@),
        ),
{
    let ghost dns = defined_names@.map_values(|d: DefinedName| defined_name_view(d));
    let ghost names = sheet_names@.map_values(|s: String| s@);
    let ghost start = old(print_settings)@.map_values(|o: Option<PrintSettings>| opt_print(o));
    let mut n: usize = 0;
    while n < defined_names.len()
        invariant
            0 <= n <= defined_names.len(),
            dns == defined_names@.map_values(|d: DefinedName| defined_name_view(d)),
            names == sheet_names@.map_values(|s: String| s@),
            print_settings@.len() == sheet_names@.len(),
            print_settings@.map_values(|o: Option<PrintSettings>| opt_print(o)) == apply_print_title_names(
                start,
                dns.take(n as int),
                names,
            ),
        decreases defined_names.len() - n,
    {
        let dn = &defined_names[n];
        assert(dns[n as int] == defined_name_view(*dn));
        assert(dns.take(n + 1).drop_last() =~= dns.take(n as int));
        assert(dns.take(n + 1).last() == dns[n as int]);
        let ghost cur = print_settings@.map_values(|o: Option<PrintSettings>| opt_print(o));
        if ascii_case_eq(dn.name.as_str(), "_xlnm.Print_Titles") {
            let target = match dn.scope {
                DefinedNameScope::Sheet(idx) => if idx < sheet_names.len() {
                    Some(idx)
                } else {
                    None
                },
                DefinedNameScope::Workbook => match extract_sheet_name(dn.formula.as_str()) {
                    Some(name) => position_in(sheet_names, name.as_str()),
                    None => None,
                },
            };
            assert(match target {
                Some(k) => print_titles_sheet(dns[n as int], names) == k,
                None => print_titles_sheet(dns[n as int], names) < 0,
            });
            match target {
                Some(idx) => {
                    let mut ps = match print_settings[idx].take() {
                        Some(p) => p,
                        None => PrintSettings::new(),
                    };
                    assert(print_view(ps) == match cur[idx as int] {
                        Some(p) => p,
                        None => empty_print(),
                    });
                    apply_title_parts_exec(&mut ps, dn.formula.as_str());
                    let ghost newv = print_view(ps);
                    print_settings.set(idx, Some(ps));
                    assert(print_settings@.map_values(|o: Option<PrintSettings>| opt_print(o)) =~= cur.update(
                        idx as int,
                        Some(newv),
                    ));
                },
                None => {},
            }
        }
        n += 1;
    }
    assert(dns.take(defined_names.len() as int) =~= dns);
}

/// The mathematical form of a [`Hyperlink`].
pub ghost struct LinkV {
    pub row: RowNum,
    pub col: ColNum,
    pub url: Seq<char>,
    pub location: Option<Seq<char>>,
    pub tooltip: Option<Seq<char>>,
}

/// The view of a hyperlink.
pub open spec fn link_view(h: Hyperlink) -> LinkV {
    LinkV { row: h.row, col: h.col, url: h.url@, location: opt_text(h.location), tooltip: opt_text(h.tooltip) }
}

/// The views of a list of hyperlinks.
pub open spec fn link_views(v: Seq<Hyperlink>) -> Seq<LinkV> {
    v.map_values(|h: Hyperlink| link_view(h))
}

/// The relationships of a sheet's relationships part: none when the part is absent or its XML
/// is broken.
pub open spec fn rels_given(data: Option<Seq<u8>>) -> Seq<RelView> {
    match data {
        Some(d) => match spec_parse_rels(d) {
            Some(r) => r,
            None => Seq::empty(),
        },
        None => Seq::empty(),
    }
}

/// A parsed hyperlink resolved: its cell, and its URL from the relationship its `r:id` names
/// (empty when it has none or the id is unknown). A hyperlink whose cell reference cannot be
/// read is dropped.
pub open spec fn resolve_link(ph: HyperlinkV, rels: Seq<RelView>) -> Option<LinkV> {
    match spec_parse_cell_ref(ph.cell_ref) {
        Some(rc) => Some(
            LinkV {
                row: rc.0,
                col: rc.1,
                url: match ph.rid {
                    Some(r) => match last_target(rels, r) {
                        Some(t) => t,
                        None => Seq::empty(),
                    },
                    None => Seq::empty(),
                },
                location: ph.location,
                tooltip: ph.tooltip,
            },
        ),
        None => None,
    }
}

/// The parsed hyperlinks resolved in order.
pub open spec fn resolve_links(parsed: Seq<HyperlinkV>, rels: Seq<RelView>) -> Seq<LinkV>
    decreases parsed.len(),
{
    if parsed.len() == 0 {
        Seq::empty()
    } else {
        let prev = resolve_links(parsed.drop_last(), rels);
        match resolve_link(parsed.last(), rels) {
            Some(l) => prev.push(l),
            None => prev,
        }
    }
}

fn clone_opt(o: &Option<String>) -> (res: Option<String>)
    ensures
        opt_text(res) == opt_text(*o),
{
    match o {
        Some(s) => Some(to_string(s.as_str())),
        None => None,
    }
}

/// Adds a sheet's parsed hyperlinks to its hyperlinks, resolved through the sheet's
/// relationships part when there is one.
pub fn resolve_hyperlinks_for_worksheet(
    hyperlinks: &mut Vec<Hyperlink>,
    parsed: &[ParsedHyperlink],
    sheet_rels_data: Option<&[u8]>,
)
    ensures
        link_views(final(hyperlinks)@) == link_views(old(hyperlinks)@) + resolve_links(
            parsed@.map_values(|h: ParsedHyperlink| hyperlink_view(h)),
            rels_given(
                match sheet_rels_data {
                    Some(d) => Some(d@),
                    None => None,
                },
            ),
        ),
{
    let ghost pv = parsed@.map_values(|h: ParsedHyperlink| hyperlink_view(h));
    if parsed.len() == 0 {
        assert(link_views(hyperlinks@) =~= link_views(old(hyperlinks)@) + Seq::<LinkV>::empty());
        return;
    }
    let rels: Vec<Rel> = match sheet_rels_data {
        Some(data) => match parse_rels(data) {
            Ok(r) => r,
            Err(_) => Vec::new(),
        },
        None => Vec::new(),
    };
    let ghost rv = rels_given(
        match sheet_rels_data {
            Some(d) => Some(d@),
            None => None,
        },
    );
    assert(rel_views(rels@) =~= rv);
    let ghost start = link_views(hyperlinks@);
    let mut i: usize = 0;
    while i < parsed.len()
        invariant
            0 <= i <= parsed.len(),
            pv == parsed@.map_values(|h: ParsedHyperlink| hyperlink_view(h)),
            rel_views(rels@) == rv,
            link_views(hyperlinks@) == start + resolve_links(pv.take(i as int), rv),
        decreases parsed.len() - i,
    {
        let ph = &parsed[i];
        assert(pv[i as int] == hyperlink_view(*ph));
        assert(pv.take(i + 1).drop_last() =~= pv.take(i as int));
        assert(pv.take(i + 1).last() == pv[i as int]);
        match parse_cell_ref(ph.cell_ref.as_str()) {
            Ok((row, col)) => {
                let url = match &ph.rid {
                    Some(rid) => match find_target(rels.as_slice(), rid.as_str()) {
                        Some(t) => to_string(t.as_str()),
                        None => String::new(),
                    },
                    None => String::new(),
                };
                let h = Hyperlink {
                    row,
                    col,
                    url,
                    location: clone_opt(&ph.location),
                    tooltip: clone_opt(&ph.tooltip),
                };
                let ghost before = hyperlinks@;
                hyperlinks.push(h);
                assert(link_views(hyperlinks@) =~= link_views(before).push(link_view(h)));
            },
            Err(_) => {},
        }
        i += 1;
    }
    assert(pv.take(parsed.len() as int) =~= pv);
}

/// The mathematical form of a [`Comment`].
pub open spec fn comment_view(c: Comment) -> CommentView {
    CommentView { row: c.row, col: c.col, text: c.text@, author: c.author@ }
}

/// Replaces a sheet's comments with those of its comments part, when the sheet has one.
pub fn read_comments_for_worksheet(comments: &mut Vec<Comment>, comments_data: Option<&[u8]>)
    ensures
        match comments_data {
            Some(d) => final(comments)@.map_values(|c: Comment| comment_view(c)) == spec_parse_comments(d@),
            None => final(comments)@ == old(comments)@,
        },
{
    match comments_data {
        Some(data) => {
            let parsed = parse_comments(data);
            let ghost pv = parsed@.map_values(|c: ParsedComment| c@);
            let mut out: Vec<Comment> = Vec::new();
            let mut i: usize = 0;
            while i < parsed.len()
                invariant
                    0 <= i <= parsed.len(),
                    pv == parsed@.map_values(|c: ParsedComment| c@),
                    out@.map_values(|c: Comment| comment_view(c)) == pv.take(i as int),
                decreases parsed.len() - i,
            {
                let pc = &parsed[i];
                let c = Comment {
                    row: pc.row,
                    col: pc.col,
                    text: to_string(pc.text.as_str()),
                    author: to_string(pc.author.as_str()),
                };
                let ghost before = out@;
                out.push(c);
                assert(out@.map_values(|c: Comment| comment_view(c)) =~= before.map_values(
                    |c: Comment| comment_view(c),
                ).push(comment_view(c)));
                assert(pv.take(i + 1) =~= pv.take(i as int).push(pv[i as int]));
                i += 1;
            }
            assert(pv.take(parsed.len() as int) =~= pv);
            *comments = out;
        },
        None => {},
    }
}

} // verus!
