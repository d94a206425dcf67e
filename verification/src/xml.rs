//! XML tokenizing (through `quick_xml`) and XML writing.

use quick_xml::events::Event;
use quick_xml::reader::Reader;
use vstd::prelude::*;
use vstd::utf8::{decode_utf8, encode_utf8, valid_utf8};

use crate::text::{chars_of, str_eq};
use crate::utility::{find_char, first_index_of, sub_chars};

verus! {

/// One event of an XML part as `quick_xml` reports it, with its bytes still undecoded.
pub enum RawEvent {
    /// A start tag: its content between `<` and `>`.
    Start(Vec<u8>),
    /// An empty element `<a/>` (only when empty elements are not expanded): its content
    /// between `<` and `/>`.
    Empty(Vec<u8>),
    /// An end tag: its qualified name.
    End(Vec<u8>),
    /// Character data between tags.
    Text(Vec<u8>),
    /// A general reference such as `&amp;`: the text between `&` and `;`.
    Ref(Vec<u8>),
    /// Anything else (declaration, comment, processing instruction, CDATA, doctype).
    Other,
}

/// The mathematical form of a [`RawEvent`].
pub ghost enum RawItem {
    Start(Seq<u8>),
    Empty(Seq<u8>),
    End(Seq<u8>),
    Text(Seq<u8>),
    Ref(Seq<u8>),
    Other,
}

impl View for RawEvent {
    type V = RawItem;

    open spec fn view(&self) -> RawItem {
        match self {
            RawEvent::Start(t) => RawItem::Start(t@),
            RawEvent::Empty(t) => RawItem::Empty(t@),
            RawEvent::End(n) => RawItem::End(n@),
            RawEvent::Text(t) => RawItem::Text(t@),
            RawEvent::Ref(r) => RawItem::Ref(r@),
            RawEvent::Other => RawItem::Other,
        }
    }
}

/// The views of a run of raw events.
pub open spec fn raw_items(v: Seq<RawEvent>) -> Seq<RawItem> {
    v.map_values(|e: RawEvent| e@)
}

/// What `quick_xml` reads from `data` (end names not checked; empty elements expanded into a
/// start and an end event when `expand` holds): the events before the end of input or the first
/// error, and whether the end of input was reached without an error.
pub uninterp spec fn xml_scan(data: Seq<u8>, expand: bool) -> (Seq<RawItem>, bool);

/// Tokenizes `data` with `quick_xml::reader::Reader::read_event`, with the well-formedness
/// checks (end names) off and `expand_empty_elements` set to `expand`. The result is what
/// [`xml_scan`] names; nothing more is claimed of it.
#[verifier::external_body]
fn quick_xml_events(data: &[u8], expand: bool) -> (res: (Vec<RawEvent>, bool))
    ensures
        (raw_items(res.0@), res.1) == xml_scan(data@, expand),
{
    let (mut r, mut events) = (Reader::from_reader(data), Vec::new());
    r.config_mut().enable_all_checks(false);
    r.config_mut().expand_empty_elements = expand;
    loop {
        let Ok(ev) = r.read_event() else { return (events, false) };
        events.push(match ev {
            Event::Start(e) => RawEvent::Start(e.to_vec()),
            Event::Empty(e) => RawEvent::Empty(e.to_vec()),
            Event::End(e) => RawEvent::End(e.to_vec()),
            Event::Text(e) => RawEvent::Text(e.to_vec()),
            Event::GeneralRef(e) => RawEvent::Ref(e.to_vec()),
            Event::Eof => return (events, true),
            _ => RawEvent::Other,
        });
    }
}

/// The attributes `quick_xml` reads from the text of a start tag after its name, as (key, value)
/// byte strings, in order, malformed attributes skipped.
pub uninterp spec fn xml_attributes(tag: Seq<char>, name_len: nat) -> Seq<(Seq<u8>, Seq<u8>)>;

/// Reads the attributes of a start tag with `quick_xml::events::attributes::Attributes::new`,
/// keeping the well-formed ones (`flatten`). The result is what [`xml_attributes`] names.
/// `Attributes::new` slices the tag from byte `n` on, so `n` may not pass the tag's end.
#[verifier::external_body]
fn quick_xml_attributes(tag: &str, n: usize) -> (res: Vec<(Vec<u8>, Vec<u8>)>)
    requires
        n <= encode_utf8(tag@).len(),
    ensures
        res@.map_values(|a: (Vec<u8>, Vec<u8>)| (a.0@, a.1@)) == xml_attributes(tag@, n as nat),
{
    quick_xml::events::attributes::Attributes::new(tag, n).flatten().map(
        |a| (a.key.0.to_vec(), a.value.to_vec()),
    ).collect()
}

/// The text UTF-8 bytes encode, or nothing when they are not UTF-8.
pub open spec fn utf8_text(b: Seq<u8>) -> Seq<char> {
    if valid_utf8(b) {
        decode_utf8(b)
    } else {
        Seq::empty()
    }
}

/// Decodes UTF-8 bytes into a `String` (`String::from_utf8`), `None` when they are not UTF-8.
#[verifier::external_body]
fn utf8_string(b: &[u8]) -> (res: Option<String>)
    ensures
        res is Some <==> valid_utf8(b@),
        res matches Some(s) ==> s@ == decode_utf8(b@),
{
    String::from_utf8(b.to_vec()).ok()
}

/// The text of UTF-8 bytes, empty when they are not UTF-8.
pub fn bytes_text(b: &[u8]) -> (res: String)
    ensures
        res@ == utf8_text(b@),
{
    match utf8_string(b) {
        Some(s) => s,
        None => String::new(),
    }
}

/// An attribute of a start tag.
pub struct XmlAttr {
    /// The qualified key, such as `r:id`.
    pub key: String,
    /// The value as written between the quotes (not unescaped).
    pub value: String,
}

/// One event of an XML part, decoded into text.
pub enum XmlEvent {
    /// A start tag (also the first half of an expanded empty element): qualified name and
    /// attributes.
    Start { name: String, attrs: Vec<XmlAttr> },
    /// An empty element, when empty elements are not expanded: qualified name and attributes.
    Empty { name: String, attrs: Vec<XmlAttr> },
    /// An end tag: qualified name.
    End { name: String },
    /// Character data.
    Text(String),
    /// The name of a general reference (`amp` for `&amp;`, `#x41` for `&#x41;`).
    Ref(String),
    /// Anything else.
    Other,
}

/// The mathematical form of an [`XmlEvent`].
pub ghost enum XmlItem {
    Start { name: Seq<char>, attrs: Seq<(Seq<char>, Seq<char>)> },
    Empty { name: Seq<char>, attrs: Seq<(Seq<char>, Seq<char>)> },
    End { name: Seq<char> },
    Text(Seq<char>),
    Ref(Seq<char>),
    Other,
}

impl View for XmlAttr {
    type V = (Seq<char>, Seq<char>);

    open spec fn view(&self) -> (Seq<char>, Seq<char>) {
        (self.key@, self.value@)
    }
}

/// The views of a run of attributes.
pub open spec fn attr_items(v: Seq<XmlAttr>) -> Seq<(Seq<char>, Seq<char>)> {
    v.map_values(|a: XmlAttr| a@)
}

impl View for XmlEvent {
    type V = XmlItem;

    open spec fn view(&self) -> XmlItem {
        match self {
            XmlEvent::Start { name, attrs } => XmlItem::Start { name: name@, attrs: attr_items(attrs@) },
            XmlEvent::Empty { name, attrs } => XmlItem::Empty { name: name@, attrs: attr_items(attrs@) },
            XmlEvent::End { name } => XmlItem::End { name: name@ },
            XmlEvent::Text(t) => XmlItem::Text(t@),
            XmlEvent::Ref(r) => XmlItem::Ref(r@),
            XmlEvent::Other => XmlItem::Other,
        }
    }
}

/// The views of a run of events.
pub open spec fn xml_items(v: Seq<XmlEvent>) -> Seq<XmlItem> {
    v.map_values(|e: XmlEvent| e@)
}

/// Decoded attributes from their byte form.
pub open spec fn decode_attrs(a: Seq<(Seq<u8>, Seq<u8>)>) -> Seq<(Seq<char>, Seq<char>)> {
    a.map_values(|p: (Seq<u8>, Seq<u8>)| (utf8_text(p.0), utf8_text(p.1)))
}

/// Whether a byte is XML whitespace (space, carriage return, line feed, tab).
pub open spec fn is_xml_space(b: u8) -> bool {
    b == 32 || b == 13 || b == 10 || b == 9
}

/// The byte length of the name at the start of a tag's content: everything up to the first XML
/// whitespace byte (the rule by which `quick_xml` splits a tag into its name and attributes).
pub open spec fn name_len(tag: Seq<u8>) -> nat
    decreases tag.len(),
{
    if tag.len() == 0 || is_xml_space(tag[0]) {
        0
    } else {
        1 + name_len(tag.drop_first())
    }
}

/// The name of a start tag or empty element from its content.
pub open spec fn tag_name(tag: Seq<u8>) -> Seq<char> {
    utf8_text(tag.take(name_len(tag) as int))
}

/// The attributes of a start tag or empty element from its content.
pub open spec fn tag_attrs(tag: Seq<u8>) -> Seq<(Seq<char>, Seq<char>)> {
    if valid_utf8(tag) {
        decode_attrs(xml_attributes(decode_utf8(tag), name_len(tag)))
    } else {
        Seq::empty()
    }
}

proof fn lemma_name_len_at(tag: Seq<u8>, i: int)
    requires
        0 <= i <= tag.len(),
        forall|k: int| 0 <= k < i ==> !is_xml_space(#[trigger] tag[k]),
        i == tag.len() || is_xml_space(tag[i]),
    ensures
        name_len(tag) == i,
    decreases i,
{
    if i > 0 {
        let t = tag.drop_first();
        assert forall|k: int| 0 <= k < i - 1 implies !is_xml_space(#[trigger] t[k]) by {
            assert(t[k] == tag[k + 1]);
        }
        if i < tag.len() {
            assert(t[i - 1] == tag[i]);
        }
        assert(!is_xml_space(tag[0]));
        lemma_name_len_at(t, i - 1);
    }
}

fn tag_name_len(tag: &[u8]) -> (res: usize)
    ensures
        res == name_len(tag@),
        res <= tag.len(),
{
    let mut i: usize = 0;
    while i < tag.len()
        invariant
            0 <= i <= tag.len(),
            forall|k: int| 0 <= k < i ==> !is_xml_space(#[trigger] tag@[k]),
        decreases tag.len() - i,
    {
        let b = tag[i];
        if b == 32 || b == 13 || b == 10 || b == 9 {
            proof {
                lemma_name_len_at(tag@, i as int);
            }
            return i;
        }
        i += 1;
    }
    proof {
        lemma_name_len_at(tag@, i as int);
    }
    i
}

/// The decoded form of one raw event.
pub open spec fn decode_item(r: RawItem) -> XmlItem {
    match r {
        RawItem::Start(tag) => XmlItem::Start { name: tag_name(tag), attrs: tag_attrs(tag) },
        RawItem::Empty(tag) => XmlItem::Empty { name: tag_name(tag), attrs: tag_attrs(tag) },
        RawItem::End(name) => XmlItem::End { name: utf8_text(name) },
        RawItem::Text(t) => XmlItem::Text(utf8_text(t)),
        RawItem::Ref(r) => XmlItem::Ref(utf8_text(r)),
        RawItem::Other => XmlItem::Other,
    }
}

/// The decoded events of an XML part read with empty elements expanded or not, and whether it
/// was read to its end without an error.
pub open spec fn xml_events_in(data: Seq<u8>, expand: bool) -> (Seq<XmlItem>, bool) {
    (xml_scan(data, expand).0.map_values(|r: RawItem| decode_item(r)), xml_scan(data, expand).1)
}

/// The decoded events of an XML part, empty elements expanded into a start and an end, and
/// whether it was read to its end without an error.
pub open spec fn xml_events(data: Seq<u8>) -> (Seq<XmlItem>, bool) {
    xml_events_in(data, true)
}

/// An XML part read into events.
pub struct XmlScan {
    /// The events before the end of input or the first error.
    pub events: Vec<XmlEvent>,
    /// Whether the end of input was reached without an error.
    pub complete: bool,
}

fn decode_attributes(raw: &Vec<(Vec<u8>, Vec<u8>)>) -> (res: Vec<XmlAttr>)
    ensures
        attr_items(res@) == decode_attrs(raw@.map_values(|a: (Vec<u8>, Vec<u8>)| (a.0@, a.1@))),
{
    let ghost bytes = raw@.map_values(|a: (Vec<u8>, Vec<u8>)| (a.0@, a.1@));
    let mut res: Vec<XmlAttr> = Vec::new();
    let mut i: usize = 0;
    while i < raw.len()
        invariant
            0 <= i <= raw.len(),
            bytes == raw@.map_values(|a: (Vec<u8>, Vec<u8>)| (a.0@, a.1@)),
            attr_items(res@) == decode_attrs(bytes).take(i as int),
        decreases raw.len() - i,
    {
        assert(bytes[i as int] == (raw@[i as int].0@, raw@[i as int].1@));
        let key = bytes_text(raw[i].0.as_slice());
        let value = bytes_text(raw[i].1.as_slice());
        let ghost before = res@;
        res.push(XmlAttr { key, value });
        assert(res@ == before.push(XmlAttr { key, value }));
        assert(attr_items(res@) =~= attr_items(before).push((key@, value@)));
        assert(attr_items(res@) =~= decode_attrs(bytes).take(i + 1));
        i += 1;
    }
    assert(decode_attrs(bytes).take(raw.len() as int) =~= decode_attrs(bytes));
    res
}

fn decode_tag(tag: &Vec<u8>) -> (res: (String, Vec<XmlAttr>))
    ensures
        res.0@ == tag_name(tag@),
        attr_items(res.1@) == tag_attrs(tag@),
{
    let n = tag_name_len(tag.as_slice());
    let head = &tag.as_slice()[0..n];
    assert(head@ =~= tag@.take(n as int));
    let name = bytes_text(head);
    let attrs = match utf8_string(tag.as_slice()) {
        Some(text) => {
            proof {
                vstd::utf8::decode_utf8_encode_utf8(tag@);
            }
            let raw_attrs = quick_xml_attributes(text.as_str(), n);
            let a = decode_attributes(&raw_attrs);
            assert(attr_items(a@) == decode_attrs(xml_attributes(decode_utf8(tag@), n as nat)));
            a
        },
        None => {
            let a: Vec<XmlAttr> = Vec::new();
            assert(attr_items(a@) =~= Seq::empty());
            a
        },
    };
    (name, attrs)
}

fn decode_event(r: &RawEvent) -> (res: XmlEvent)
    ensures
        res@ == decode_item(r@),
{
    match r {
        RawEvent::Start(tag) => {
            let (name, attrs) = decode_tag(tag);
            XmlEvent::Start { name, attrs }
        },
        RawEvent::Empty(tag) => {
            let (name, attrs) = decode_tag(tag);
            XmlEvent::Empty { name, attrs }
        },
        RawEvent::End(name) => XmlEvent::End { name: bytes_text(name.as_slice()) },
        RawEvent::Text(t) => XmlEvent::Text(bytes_text(t.as_slice())),
        RawEvent::Ref(t) => XmlEvent::Ref(bytes_text(t.as_slice())),
        RawEvent::Other => XmlEvent::Other,
    }
}

/// Reads an XML part into decoded events, empty elements expanded or not.
pub fn scan_xml_with(data: &[u8], expand: bool) -> (res: XmlScan)
    ensures
        (xml_items(res.events@), res.complete) == xml_events_in(data@, expand),
{
    let (raw, complete) = quick_xml_events(data, expand);
    let ghost items = raw_items(raw@);
    let mut events: Vec<XmlEvent> = Vec::new();
    let mut i: usize = 0;
    while i < raw.len()
        invariant
            0 <= i <= raw.len(),
            items == raw_items(raw@),
            xml_items(events@) == items.take(i as int).map_values(|r: RawItem| decode_item(r)),
        decreases raw.len() - i,
    {
        let e = decode_event(&raw[i]);
        let ghost before = events@;
        let ghost ev = e@;
        events.push(e);
        assert(xml_items(events@) =~= xml_items(before).push(ev));
        assert(items.take(i + 1).map_values(|r: RawItem| decode_item(r)) =~= items.take(
            i as int,
        ).map_values(|r: RawItem| decode_item(r)).push(decode_item(items[i as int])));
        i += 1;
    }
    assert(items.take(raw.len() as int) =~= items);
    XmlScan { events, complete }
}

/// Reads an XML part into decoded events, empty elements expanded into a start and an end.
pub fn scan_xml(data: &[u8]) -> (res: XmlScan)
    ensures
        (xml_items(res.events@), res.complete) == xml_events(data@),
{
    scan_xml_with(data, true)
}

/// The local part of a qualified name: what follows the first `:`, or the whole name.
pub open spec fn local_part(name: Seq<char>) -> Seq<char> {
    let k = first_index_of(name, ':');
    if k >= 0 {
        name.skip(k + 1)
    } else {
        name
    }
}

/// The local part of a qualified name (`c:chart` → `chart`).
pub fn local_name(name: &str) -> (res: String)
    ensures
        res@ == local_part(name@),
{
    let cs = chars_of(name);
    match find_char(&cs, ':') {
        Some(k) => {
            let rest = sub_chars(&cs, k + 1, cs.len());
            assert(rest@ =~= name@.skip(k + 1));
            crate::text::string_from_chars(&rest)
        },
        None => crate::text::string_from_chars(&cs),
    }
}

/// The value of the first attribute whose key is `key`.
pub open spec fn attr_value(attrs: Seq<(Seq<char>, Seq<char>)>, key: Seq<char>) -> Option<Seq<char>>
    decreases attrs.len(),
{
    if attrs.len() == 0 {
        None
    } else if attrs[0].0 == key {
        Some(attrs[0].1)
    } else {
        attr_value(attrs.drop_first(), key)
    }
}

proof fn lemma_attr_value_at(attrs: Seq<(Seq<char>, Seq<char>)>, key: Seq<char>, i: int)
    requires
        0 <= i <= attrs.len(),
        forall|k: int| 0 <= k < i ==> #[trigger] attrs[k].0 != key,
    ensures
        i < attrs.len() && attrs[i].0 == key ==> attr_value(attrs, key) == Some(attrs[i].1),
        i == attrs.len() ==> attr_value(attrs, key) is None,
    decreases i,
{
    if i > 0 {
        let t = attrs.drop_first();
        assert forall|k: int| 0 <= k < i - 1 implies #[trigger] t[k].0 != key by {
            assert(t[k] == attrs[k + 1]);
        }
        if i < attrs.len() {
            assert(t[i - 1] == attrs[i]);
        }
        assert(attrs[0].0 != key);
        lemma_attr_value_at(t, key, i - 1);
    }
}

/// The value of the first attribute whose key is `key`.
pub fn get_attr<'a>(attrs: &'a [XmlAttr], key: &str) -> (res: Option<&'a String>)
    ensures
        match res {
            Some(v) => attr_value(attr_items(attrs@), key@) == Some(v@),
            None => attr_value(attr_items(attrs@), key@) is None,
        },
{
    let ghost items = attr_items(attrs@);
    let mut i: usize = 0;
    while i < attrs.len()
        invariant
            0 <= i <= attrs.len(),
            items == attr_items(attrs@),
            forall|k: int| 0 <= k < i ==> #[trigger] items[k].0 != key@,
        decreases attrs.len() - i,
    {
        assert(items[i as int] == attrs@[i as int]@);
        if str_eq(attrs[i].key.as_str(), key) {
            proof {
                lemma_attr_value_at(items, key@, i as int);
            }
            return Some(&attrs[i].value);
        }
        i += 1;
    }
    proof {
        lemma_attr_value_at(items, key@, i as int);
    }
    None
}


/// The character a numeric character reference names, as `quick_xml` resolves it (`None` when
/// the name is not a character reference or names no character).
pub uninterp spec fn xml_char_ref(name: Seq<char>) -> Option<char>;

/// Resolves a character reference (`#65`, `#x41`) with
/// `quick_xml::events::BytesRef::resolve_char_ref`; errors and non-character references give
/// `None`. The result is what [`xml_char_ref`] names.
#[verifier::external_body]
fn quick_xml_char_ref(name: &str) -> (res: Option<char>)
    ensures
        res == xml_char_ref(name@),
{
    quick_xml::events::BytesRef::new(name).resolve_char_ref().ok().flatten()
}

/// The text a general reference stands for: the five predefined entities, or a character
/// reference; `None` for anything else.
pub open spec fn spec_decode_ref(name: Seq<char>) -> Option<Seq<char>> {
    if name == "amp"@ {
        Some(seq!['&'])
    } else if name == "lt"@ {
        Some(seq!['<'])
    } else if name == "gt"@ {
        Some(seq!['>'])
    } else if name == "quot"@ {
        Some(seq!['"'])
    } else if name == "apos"@ {
        Some(seq!['\''])
    } else {
        match xml_char_ref(name) {
            Some(c) => Some(seq![c]),
            None => None,
        }
    }
}

/// Decodes the name of a general reference into the text it stands for.
pub fn decode_xml_ref(name: &str) -> (res: Option<String>)
    ensures
        match res {
            Some(t) => spec_decode_ref(name@) == Some(t@),
            None => spec_decode_ref(name@) is None,
        },
{
    let c = if str_eq(name, "amp") {
        Some('&')
    } else if str_eq(name, "lt") {
        Some('<')
    } else if str_eq(name, "gt") {
        Some('>')
    } else if str_eq(name, "quot") {
        Some('"')
    } else if str_eq(name, "apos") {
        Some('\'')
    } else {
        quick_xml_char_ref(name)
    };
    match c {
        Some(ch) => {
            let mut s = String::new();
            crate::text::push_char(&mut s, ch);
            assert(s@ =~= seq![ch]);
            Some(s)
        },
        None => None,
    }
}

} // verus!
