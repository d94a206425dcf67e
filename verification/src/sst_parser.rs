//! Reading the shared strings part (`xl/sharedStrings.xml`).

use vstd::prelude::*;

use crate::error::Error;
use crate::shared_strings::SharedStringTable;
use crate::text::{push_str, str_eq, to_string};
use crate::utility::first_index_of;
use crate::xml::{local_name, local_part, scan_xml, xml_events, xml_items, XmlEvent, XmlItem};

verus! {

/// Where the reader stands in a shared strings part.
pub ghost struct SstScan {
    /// Whether the `<sst>` element has been opened.
    pub found: bool,
    pub strings: Seq<Seq<char>>,
    pub in_si: bool,
    /// Inside a phonetic run (`<rPh>`), whose text is not part of the string.
    pub in_rph: bool,
    pub current: Seq<char>,
}

/// The state before the first event.
pub open spec fn sst_scan_start() -> SstScan {
    SstScan { found: false, strings: Seq::empty(), in_si: false, in_rph: false, current: Seq::empty() }
}

/// How one event moves the reader: nothing counts before `<sst>` opens; then each `<si>`
/// collects the text outside its phonetic runs, and each `</si>` adds what was collected.
pub open spec fn sst_step(st: SstScan, ev: XmlItem) -> SstScan {
    if !st.found {
        match ev {
            XmlItem::Start { name, .. } => if local_part(name) == "sst"@ {
                SstScan { found: true, ..st }
            } else {
                st
            },
            _ => st,
        }
    } else {
        match ev {
            XmlItem::Start { name, .. } => {
                let local = local_part(name);
                if local == "si"@ {
                    SstScan { in_si: true, current: Seq::empty(), ..st }
                } else if local == "rPh"@ {
                    SstScan { in_rph: true, ..st }
                } else {
                    st
                }
            },
            XmlItem::End { name } => {
                let local = local_part(name);
                if local == "si"@ {
                    SstScan { strings: st.strings.push(st.current), in_si: false, ..st }
                } else if local == "rPh"@ {
                    SstScan { in_rph: false, ..st }
                } else {
                    st
                }
            },
            XmlItem::Text(t) => if st.in_si && !st.in_rph {
                SstScan { current: st.current + t, ..st }
            } else {
                st
            },
            _ => st,
        }
    }
}

/// The reader's state after a run of events.
pub open spec fn sst_run(items: Seq<XmlItem>) -> SstScan
    decreases items.len(),
{
    if items.len() == 0 {
        sst_scan_start()
    } else {
        sst_step(sst_run(items.drop_last()), items.last())
    }
}

/// What `parse_sst` reads from a shared strings part: its strings in order, or nothing when the
/// part is not well-formed XML.
pub open spec fn spec_parse_sst(data: Seq<u8>) -> Option<Seq<Seq<char>>> {
    if xml_events(data).1 {
        Some(sst_run(xml_events(data).0).strings)
    } else {
        None
    }
}

/// Whether an event is a start tag whose local name is `n`.
pub open spec fn opens(ev: XmlItem, n: Seq<char>) -> bool {
    match ev {
        XmlItem::Start { name, .. } => local_part(name) == n,
        _ => false,
    }
}

/// Whether an event is an end tag whose local name is `n`.
pub open spec fn closes(ev: XmlItem, n: Seq<char>) -> bool {
    match ev {
        XmlItem::End { name } => local_part(name) == n,
        _ => false,
    }
}

/// Whether some event of `items` opens the `<sst>` element.
pub open spec fn sst_opened(items: Seq<XmlItem>) -> bool
    decreases items.len(),
{
    items.len() > 0 && (sst_opened(items.drop_last()) || opens(items.last(), "sst"@))
}

/// How many `</si>` end tags `items` holds after `<sst>` has opened.
pub open spec fn si_closed(items: Seq<XmlItem>) -> nat
    decreases items.len(),
{
    if items.len() == 0 {
        0
    } else {
        si_closed(items.drop_last()) + if sst_opened(items.drop_last()) && closes(items.last(), "si"@) {
            1nat
        } else {
            0nat
        }
    }
}

/// The reader keeps one string for every `<si>` element closed inside `<sst>`, an empty one
/// included: the number of strings read is the number of `</si>` tags after `<sst>` opens.
pub proof fn lemma_one_string_per_si(items: Seq<XmlItem>)
    ensures
        sst_run(items).found == sst_opened(items),
        sst_run(items).strings.len() == si_closed(items),
    decreases items.len(),
{
    if items.len() > 0 {
        lemma_one_string_per_si(items.drop_last());
    }
}

/// A well-formed shared strings part gives as many strings as it has `<si>` elements inside
/// `<sst>`.
pub proof fn lemma_parse_sst_counts_si(data: Seq<u8>)
    requires
        xml_events(data).1,
    ensures
        spec_parse_sst(data) matches Some(t) && t.len() == si_closed(xml_events(data).0),
{
    lemma_one_string_per_si(xml_events(data).0);
}

proof fn lemma_plain_local_names()
    ensures
        local_part("si"@) == "si"@,
        local_part("rPh"@) == "rPh"@,
        "si"@ != "rPh"@,
{
    reveal_strlit("si");
    reveal_strlit("rPh");
    let a = "si"@;
    let b = "rPh"@;
    assert(first_index_of(a.drop_first().drop_first(), ':') == -1);
    assert(first_index_of(a.drop_first(), ':') == -1);
    assert(first_index_of(a, ':') == -1);
    assert(first_index_of(b.drop_first().drop_first().drop_first(), ':') == -1);
    assert(first_index_of(b.drop_first().drop_first(), ':') == -1);
    assert(first_index_of(b.drop_first(), ':') == -1);
    assert(first_index_of(b, ':') == -1);
    assert(a.len() != b.len());
}

/// Once `<sst>` is open (and outside a phonetic run), each `<si>` element adds one string, the
/// text it holds outside its phonetic runs: `<si>x</si>` adds `x`, an empty `<si></si>` adds the
/// empty string, and `<si>x<rPh>y</rPh></si>` adds `x` alone.
pub proof fn lemma_si_adds_its_text(items: Seq<XmlItem>, x: Seq<char>, y: Seq<char>)
    requires
        sst_run(items).found,
        !sst_run(items).in_rph,
    ensures
        ({
            let open = XmlItem::Start { name: "si"@, attrs: Seq::empty() };
            let close = XmlItem::End { name: "si"@ };
            let rph_open = XmlItem::Start { name: "rPh"@, attrs: Seq::empty() };
            let rph_close = XmlItem::End { name: "rPh"@ };
            let before = sst_run(items).strings;
            &&& sst_run(items.push(open).push(XmlItem::Text(x)).push(close)).strings == before.push(x)
            &&& sst_run(items.push(open).push(close)).strings == before.push(Seq::empty())
            &&& sst_run(
                items.push(open).push(XmlItem::Text(x)).push(rph_open).push(XmlItem::Text(y)).push(
                    rph_close,
                ).push(close),
            ).strings == before.push(x)
        }),
{
    lemma_plain_local_names();
    let open = XmlItem::Start { name: "si"@, attrs: Seq::empty() };
    let close = XmlItem::End { name: "si"@ };
    let rph_open = XmlItem::Start { name: "rPh"@, attrs: Seq::empty() };
    let rph_close = XmlItem::End { name: "rPh"@ };
    let i1 = items.push(open);
    let i2 = i1.push(XmlItem::Text(x));
    let i3 = i2.push(close);
    assert(i1.drop_last() =~= items);
    assert(i2.drop_last() =~= i1);
    assert(i3.drop_last() =~= i2);
    assert(sst_run(i1).current == Seq::<char>::empty());
    assert(Seq::<char>::empty() + x =~= x);
    let j2 = i1.push(close);
    assert(j2.drop_last() =~= i1);
    let k3 = i2.push(rph_open);
    let k4 = k3.push(XmlItem::Text(y));
    let k5 = k4.push(rph_close);
    let k6 = k5.push(close);
    assert(k3.drop_last() =~= i2);
    assert(k4.drop_last() =~= k3);
    assert(k5.drop_last() =~= k4);
    assert(k6.drop_last() =~= k5);
    let st0 = sst_run(items);
    assert(sst_run(i1) == sst_step(st0, open));
    assert(sst_run(i1).in_si && !sst_run(i1).in_rph && sst_run(i1).strings == st0.strings);
    assert(sst_run(i2).current == x);
    assert(sst_run(i3).strings == st0.strings.push(x));
    assert(sst_run(j2).strings == st0.strings.push(Seq::empty()));
    assert(sst_run(k3).in_rph && sst_run(k3).current == x);
    assert(sst_run(k4).current == x);
    assert(!sst_run(k5).in_rph && sst_run(k5).current == x && sst_run(k5).strings == st0.strings);
    assert(sst_run(k6).strings == st0.strings.push(x));
}

/// Parse the shared strings part into a table, one entry per `<si>`, each counted once.
pub fn parse_sst(data: &[u8]) -> (res: Result<SharedStringTable, Error>)
    ensures
        match res {
            Ok(t) => t.wf() && spec_parse_sst(data@) == Some(t.strings()) && t.counts() == Seq::new(
                t.strings().len(),
                |i: int| 1u32,
            ),
            Err(e) => spec_parse_sst(data@) is None && e is Xml,
        },
{
    let scan = scan_xml(data);
    if !scan.complete {
        return Err(Error::Xml(to_string("malformed shared strings part")));
    }
    let ghost items = xml_items(scan.events@);
    let mut sst = SharedStringTable::new();
    let mut found = false;
    let mut in_si = false;
    let mut in_rph = false;
    let mut current = String::new();
    let mut i: usize = 0;
    while i < scan.events.len()
        invariant
            0 <= i <= scan.events.len(),
            items == xml_items(scan.events@),
            sst.wf(),
            sst.counts() == Seq::new(sst.strings().len(), |k: int| 1u32),
            (SstScan { found, strings: sst.strings(), in_si, in_rph, current: current@ }) == sst_run(
                items.take(i as int),
            ),
        decreases scan.events.len() - i,
    {
        assert(items.take(i + 1).drop_last() =~= items.take(i as int));
        assert(items.take(i + 1).last() == scan.events@[i as int]@);
        let ghost n = sst.strings().len();
        if !found {
            match &scan.events[i] {
                XmlEvent::Start { name, .. } => {
                    let local = local_name(name.as_str());
                    if str_eq(local.as_str(), "sst") {
                        found = true;
                    }
                },
                _ => {},
            }
        } else {
            match &scan.events[i] {
                XmlEvent::Start { name, .. } => {
                    let local = local_name(name.as_str());
                    if str_eq(local.as_str(), "si") {
                        in_si = true;
                        current = String::new();
                    } else if str_eq(local.as_str(), "rPh") {
                        in_rph = true;
                    }
                },
                XmlEvent::End { name } => {
                    let local = local_name(name.as_str());
                    if str_eq(local.as_str(), "si") {
                        sst.push(current.as_str());
                        assert(sst.counts() =~= Seq::new(sst.strings().len(), |k: int| 1u32));
                        in_si = false;
                    } else if str_eq(local.as_str(), "rPh") {
                        in_rph = false;
                    }
                },
                XmlEvent::Text(t) => {
                    if in_si && !in_rph {
                        push_str(&mut current, t.as_str());
                    }
                },
                _ => {},
            }
        }
        i += 1;
    }
    assert(items.take(scan.events.len() as int) =~= items);
    Ok(sst)
}

} // verus!
