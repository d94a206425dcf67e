//! Document properties (`docProps/core.xml` and `docProps/app.xml`).

use vstd::prelude::*;
use vstd::utf8::encode_utf8;

use crate::text::{decimal_digits, push_char, push_decimal, push_str, str_eq, to_string};
use crate::writer::{
    end_markup, pair_views, start_markup, text_markup, xml_declaration, XmlWriter,
};
use crate::numbers::{parse_i32, std_parse_signed};
use crate::xml::{
    attr_items, decode_xml_ref, local_name, local_part, scan_xml, spec_decode_ref, xml_events, xml_items, XmlAttr,
    XmlEvent, XmlItem,
};
use vstd::string::StrSliceExecFns;

verus! {

/// Document properties (docProps/core.xml + app.xml).
pub struct DocProperties {
    pub title: Option<String>,
    pub subject: Option<String>,
    pub author: Option<String>,
    pub description: Option<String>,
    pub keywords: Option<String>,
    pub category: Option<String>,
    pub company: Option<String>,
}

/// The mathematical form of [`DocProperties`].
pub ghost struct PropsView {
    pub title: Option<Seq<char>>,
    pub subject: Option<Seq<char>>,
    pub author: Option<Seq<char>>,
    pub description: Option<Seq<char>>,
    pub keywords: Option<Seq<char>>,
    pub category: Option<Seq<char>>,
    pub company: Option<Seq<char>>,
}

/// The view of an optional string.
pub open spec fn opt_view(o: Option<String>) -> Option<Seq<char>> {
    match o {
        Some(s) => Some(s@),
        None => None,
    }
}

impl View for DocProperties {
    type V = PropsView;

    open spec fn view(&self) -> PropsView {
        PropsView {
            title: opt_view(self.title),
            subject: opt_view(self.subject),
            author: opt_view(self.author),
            description: opt_view(self.description),
            keywords: opt_view(self.keywords),
            category: opt_view(self.category),
            company: opt_view(self.company),
        }
    }
}

/// No property set.
pub open spec fn empty_props() -> PropsView {
    PropsView {
        title: None,
        subject: None,
        author: None,
        description: None,
        keywords: None,
        category: None,
        company: None,
    }
}

impl Default for DocProperties {
    /// No property set.
    fn default() -> (res: Self)
        ensures
            res@ == empty_props(),
    {
        DocProperties::new()
    }
}

impl DocProperties {
    pub fn new() -> (res: Self)
        ensures
            res@ == empty_props(),
    {
        DocProperties {
            title: None,
            subject: None,
            author: None,
            description: None,
            keywords: None,
            category: None,
            company: None,
        }
    }

    pub fn title(self, t: &str) -> (res: Self)
        ensures
            res@ == (PropsView { title: Some(t@), ..self@ }),
    {
        DocProperties { title: Some(to_string(t)), ..self }
    }

    pub fn author(self, a: &str) -> (res: Self)
        ensures
            res@ == (PropsView { author: Some(a@), ..self@ }),
    {
        DocProperties { author: Some(to_string(a)), ..self }
    }

    pub fn subject(self, s: &str) -> (res: Self)
        ensures
            res@ == (PropsView { subject: Some(s@), ..self@ }),
    {
        DocProperties { subject: Some(to_string(s)), ..self }
    }

    pub fn description(self, d: &str) -> (res: Self)
        ensures
            res@ == (PropsView { description: Some(d@), ..self@ }),
    {
        DocProperties { description: Some(to_string(d)), ..self }
    }

    pub fn keywords(self, k: &str) -> (res: Self)
        ensures
            res@ == (PropsView { keywords: Some(k@), ..self@ }),
    {
        DocProperties { keywords: Some(to_string(k)), ..self }
    }

    pub fn category(self, c: &str) -> (res: Self)
        ensures
            res@ == (PropsView { category: Some(c@), ..self@ }),
    {
        DocProperties { category: Some(to_string(c)), ..self }
    }

    pub fn company(self, c: &str) -> (res: Self)
        ensures
            res@ == (PropsView { company: Some(c@), ..self@ }),
    {
        DocProperties { company: Some(to_string(c)), ..self }
    }
}

/// An element holding `text` when it is present, nothing otherwise.
pub open spec fn optional_element(name: Seq<char>, text: Option<Seq<char>>) -> Seq<char> {
    match text {
        Some(t) => text_markup(name, Seq::empty(), t),
        None => Seq::empty(),
    }
}

/// The namespace declarations of the core properties root element.
pub open spec fn core_namespaces() -> Seq<(Seq<char>, Seq<char>)> {
    seq![
        ("xmlns:cp"@, "http://schemas.openxmlformats.org/package/2006/metadata/core-properties"@),
        ("xmlns:dc"@, "http://purl.org/dc/elements/1.1/"@),
        ("xmlns:dcterms"@, "http://purl.org/dc/terms/"@),
    ]
}

/// The text of `docProps/core.xml` for the given properties.
pub open spec fn core_xml_text(p: PropsView) -> Seq<char> {
    xml_declaration() + start_markup("cp:coreProperties"@, core_namespaces())
        + optional_element("dc:title"@, p.title) + optional_element("dc:subject"@, p.subject)
        + optional_element("dc:creator"@, p.author) + optional_element(
        "dc:description"@,
        p.description,
    ) + optional_element("cp:keywords"@, p.keywords) + optional_element("cp:category"@, p.category)
        + end_markup("cp:coreProperties"@)
}

/// The text of `docProps/app.xml` for the given properties.
pub open spec fn app_xml_text(p: PropsView) -> Seq<char> {
    xml_declaration() + start_markup(
        "Properties"@,
        seq![("xmlns"@, "http://schemas.openxmlformats.org/officeDocument/2006/extended-properties"@)],
    ) + text_markup("Application"@, Seq::empty(), "zavora-xlsx"@) + optional_element(
        "Company"@,
        p.company,
    ) + end_markup("Properties"@)
}

fn write_optional(w: &mut XmlWriter, name: &str, text: &Option<String>)
    ensures
        final(w)@ == old(w)@ + optional_element(name@, opt_view(*text)),
{
    match text {
        Some(t) => {
            let no_attrs: [(&str, &str); 0] = [];
            w.text_element(name, &no_attrs, t.as_str());
            assert(pair_views(no_attrs@) =~= Seq::<(Seq<char>, Seq<char>)>::empty());
        },
        None => {
            assert(old(w)@ + Seq::<char>::empty() =~= old(w)@);
        },
    }
}

pub fn write_core_xml(props: &DocProperties) -> (res: Vec<u8>)
    ensures
        res@ == encode_utf8(core_xml_text(props@)),
{
    let mut w = XmlWriter::new();
    w.declaration();
    let ns = [
        ("xmlns:cp", "http://schemas.openxmlformats.org/package/2006/metadata/core-properties"),
        ("xmlns:dc", "http://purl.org/dc/elements/1.1/"),
        ("xmlns:dcterms", "http://purl.org/dc/terms/"),
    ];
    w.start_tag("cp:coreProperties", &ns);
    assert(pair_views(ns@) =~= core_namespaces());
    write_optional(&mut w, "dc:title", &props.title);
    write_optional(&mut w, "dc:subject", &props.subject);
    write_optional(&mut w, "dc:creator", &props.author);
    write_optional(&mut w, "dc:description", &props.description);
    write_optional(&mut w, "cp:keywords", &props.keywords);
    write_optional(&mut w, "cp:category", &props.category);
    w.end_tag("cp:coreProperties");
    assert(w@ =~= core_xml_text(props@));
    w.into_bytes()
}

pub fn write_app_xml(props: &DocProperties) -> (res: Vec<u8>)
    ensures
        res@ == encode_utf8(app_xml_text(props@)),
{
    let mut w = XmlWriter::new();
    w.declaration();
    let ns = [("xmlns", "http://schemas.openxmlformats.org/officeDocument/2006/extended-properties")];
    w.start_tag("Properties", &ns);
    assert(pair_views(ns@) =~= seq![
        ("xmlns"@, "http://schemas.openxmlformats.org/officeDocument/2006/extended-properties"@),
    ]);
    let no_attrs: [(&str, &str); 0] = [];
    w.text_element("Application", &no_attrs, "zavora-xlsx");
    assert(pair_views(no_attrs@) =~= Seq::<(Seq<char>, Seq<char>)>::empty());
    write_optional(&mut w, "Company", &props.company);
    w.end_tag("Properties");
    assert(w@ =~= app_xml_text(props@));
    w.into_bytes()
}

/// `o` with `text` appended, starting from empty text when `o` is absent.
pub open spec fn append_to(o: Option<Seq<char>>, text: Seq<char>) -> Option<Seq<char>> {
    match o {
        Some(s) => Some(s + text),
        None => Some(text),
    }
}

/// The properties after text read inside an element whose local name is `tag`.
pub open spec fn spec_append_core_property(p: PropsView, tag: Seq<char>, text: Seq<char>) -> PropsView {
    if tag == "title"@ {
        PropsView { title: append_to(p.title, text), ..p }
    } else if tag == "subject"@ {
        PropsView { subject: append_to(p.subject, text), ..p }
    } else if tag == "creator"@ {
        PropsView { author: append_to(p.author, text), ..p }
    } else if tag == "description"@ {
        PropsView { description: append_to(p.description, text), ..p }
    } else if tag == "keywords"@ {
        PropsView { keywords: append_to(p.keywords, text), ..p }
    } else if tag == "category"@ {
        PropsView { category: append_to(p.category, text), ..p }
    } else {
        p
    }
}

fn append_opt(field: &mut Option<String>, text: &str)
    ensures
        opt_view(*final(field)) == append_to(opt_view(*old(field)), text@),
{
    match field {
        Some(s) => {
            push_str(s, text);
        },
        None => {
            *field = Some(to_string(text));
        },
    }
}

/// Appends text read inside the core-properties element `tag` to the matching property.
pub fn append_core_property(props: &mut DocProperties, tag: &str, text: &str)
    ensures
        final(props)@ == spec_append_core_property(old(props)@, tag@, text@),
{
    if str_eq(tag, "title") {
        append_opt(&mut props.title, text);
    } else if str_eq(tag, "subject") {
        append_opt(&mut props.subject, text);
    } else if str_eq(tag, "creator") {
        append_opt(&mut props.author, text);
    } else if str_eq(tag, "description") {
        append_opt(&mut props.description, text);
    } else if str_eq(tag, "keywords") {
        append_opt(&mut props.keywords, text);
    } else if str_eq(tag, "category") {
        append_opt(&mut props.category, text);
    }
}

/// The reading state of a core-properties part: the properties so far, and the local name of
/// the element whose text is being read (empty outside elements).
pub open spec fn core_step(st: (PropsView, Seq<char>), ev: XmlItem) -> (PropsView, Seq<char>) {
    match ev {
        XmlItem::Start { name, .. } => (st.0, local_part(name)),
        XmlItem::Text(t) => (spec_append_core_property(st.0, st.1, t), st.1),
        XmlItem::Ref(r) => match spec_decode_ref(r) {
            Some(t) => (spec_append_core_property(st.0, st.1, t), st.1),
            None => st,
        },
        XmlItem::End { .. } => (st.0, Seq::empty()),
        _ => st,
    }
}

/// The reading state after a run of events.
pub open spec fn core_run(items: Seq<XmlItem>) -> (PropsView, Seq<char>)
    decreases items.len(),
{
    if items.len() == 0 {
        (empty_props(), Seq::empty())
    } else {
        core_step(core_run(items.drop_last()), items.last())
    }
}

/// What `parse_core_xml` reads from a core-properties part (everything before the end of input
/// or the first XML error).
pub open spec fn spec_parse_core_xml(data: Seq<u8>) -> PropsView {
    core_run(xml_events(data).0).0
}

/// Read the document properties from `docProps/core.xml`.
pub fn parse_core_xml(data: &[u8]) -> (res: DocProperties)
    ensures
        res@ == spec_parse_core_xml(data@),
{
    let scan = scan_xml(data);
    let ghost items = xml_items(scan.events@);
    let mut props = DocProperties::new();
    let mut current_tag = String::new();
    let mut i: usize = 0;
    while i < scan.events.len()
        invariant
            0 <= i <= scan.events.len(),
            items == xml_items(scan.events@),
            (props@, current_tag@) == core_run(items.take(i as int)),
        decreases scan.events.len() - i,
    {
        assert(items.take(i + 1).drop_last() =~= items.take(i as int));
        assert(items.take(i + 1).last() == scan.events@[i as int]@);
        match &scan.events[i] {
            XmlEvent::Start { name, .. } => {
                current_tag = local_name(name.as_str());
            },
            XmlEvent::Text(t) => {
                append_core_property(&mut props, current_tag.as_str(), t.as_str());
            },
            XmlEvent::Ref(r) => match decode_xml_ref(r.as_str()) {
                Some(t) => {
                    append_core_property(&mut props, current_tag.as_str(), t.as_str());
                },
                None => {},
            },
            XmlEvent::End { .. } => {
                current_tag = String::new();
            },
            _ => {},
        }
        i += 1;
    }
    assert(items.take(scan.events.len() as int) =~= items);
    props
}

} // verus!

verus! {

/// The value of a custom document property. A number is kept as the decimal text it is
/// written with.
#[derive(Debug, Clone, PartialEq)]
pub enum CustomPropertyValue {
    Text(String),
    Number(String),
    Integer(i32),
    Bool(bool),
    DateTime(String),
}

/// The mathematical form of a [`CustomPropertyValue`].
pub ghost enum CustomValueV {
    Text(Seq<char>),
    Number(Seq<char>),
    Integer(i32),
    Bool(bool),
    DateTime(Seq<char>),
}

impl View for CustomPropertyValue {
    type V = CustomValueV;

    open spec fn view(&self) -> CustomValueV {
        match self {
            CustomPropertyValue::Text(s) => CustomValueV::Text(s@),
            CustomPropertyValue::Number(s) => CustomValueV::Number(s@),
            CustomPropertyValue::Integer(n) => CustomValueV::Integer(*n),
            CustomPropertyValue::Bool(b) => CustomValueV::Bool(*b),
            CustomPropertyValue::DateTime(s) => CustomValueV::DateTime(s@),
        }
    }
}

/// A custom document property: a name and a typed value.
#[derive(Debug, Clone)]
pub struct CustomProperty {
    pub name: String,
    pub value: CustomPropertyValue,
}

impl View for CustomProperty {
    type V = (Seq<char>, CustomValueV);

    open spec fn view(&self) -> (Seq<char>, CustomValueV) {
        (self.name@, self.value@)
    }
}

/// The views of a list of custom properties.
pub open spec fn custom_views(v: Seq<CustomProperty>) -> Seq<(Seq<char>, CustomValueV)> {
    v.map_values(|p: CustomProperty| p@)
}

impl CustomProperty {
    /// A text property.
    pub fn text(name: &str, value: &str) -> (res: Self)
        ensures
            res@ == (name@, CustomValueV::Text(value@)),
    {
        CustomProperty { name: to_string(name), value: CustomPropertyValue::Text(to_string(value)) }
    }

    /// A number property, given as the decimal text it is written with.
    pub fn number(name: &str, value: &str) -> (res: Self)
        ensures
            res@ == (name@, CustomValueV::Number(value@)),
    {
        CustomProperty { name: to_string(name), value: CustomPropertyValue::Number(to_string(value)) }
    }

    /// An integer property.
    pub fn integer(name: &str, value: i32) -> (res: Self)
        ensures
            res@ == (name@, CustomValueV::Integer(value)),
    {
        CustomProperty { name: to_string(name), value: CustomPropertyValue::Integer(value) }
    }

    /// A boolean property.
    pub fn bool(name: &str, value: bool) -> (res: Self)
        ensures
            res@ == (name@, CustomValueV::Bool(value)),
    {
        CustomProperty { name: to_string(name), value: CustomPropertyValue::Bool(value) }
    }
}

/// The decimal text of an integer, with a leading `-` when negative.
pub open spec fn int_text(n: int) -> Seq<char> {
    if n < 0 {
        seq!['-'] + decimal_digits((-n) as nat)
    } else {
        decimal_digits(n as nat)
    }
}

/// The element that holds a custom property's value.
pub open spec fn custom_value_markup(v: CustomValueV) -> Seq<char> {
    let no = Seq::<(Seq<char>, Seq<char>)>::empty();
    match v {
        CustomValueV::Text(s) => text_markup("vt:lpwstr"@, no, s),
        CustomValueV::Number(s) => text_markup("vt:r8"@, no, s),
        CustomValueV::Integer(n) => text_markup("vt:i4"@, no, int_text(n as int)),
        CustomValueV::Bool(b) => text_markup("vt:bool"@, no, if b { "true"@ } else { "false"@ }),
        CustomValueV::DateTime(s) => text_markup("vt:filetime"@, no, s),
    }
}

/// The `<property>` element of the custom property at position `i` (its id is `i + 2`).
pub open spec fn custom_property_markup(i: nat, p: (Seq<char>, CustomValueV)) -> Seq<char> {
    start_markup(
        "property"@,
        seq![
            ("fmtid"@, "{D5CDD505-2E9C-101B-9397-08002B2CF9AE}"@),
            ("pid"@, decimal_digits(i + 2)),
            ("name"@, p.0),
        ],
    ) + custom_value_markup(p.1) + end_markup("property"@)
}

/// The `<property>` elements of a list of custom properties, in order.
pub open spec fn custom_property_entries(v: Seq<(Seq<char>, CustomValueV)>) -> Seq<char>
    decreases v.len(),
{
    if v.len() == 0 {
        Seq::empty()
    } else {
        custom_property_entries(v.drop_last()) + custom_property_markup((v.len() - 1) as nat, v.last())
    }
}

/// The namespaces of the custom-properties root element.
pub open spec fn custom_namespaces() -> Seq<(Seq<char>, Seq<char>)> {
    seq![
        ("xmlns"@, "http://schemas.openxmlformats.org/officeDocument/2006/custom-properties"@),
        ("xmlns:vt"@, "http://schemas.openxmlformats.org/officeDocument/2006/docPropsVTypes"@),
    ]
}

/// The text of `docProps/custom.xml` for a list of custom properties.
pub open spec fn custom_xml_text(v: Seq<(Seq<char>, CustomValueV)>) -> Seq<char> {
    xml_declaration() + start_markup("Properties"@, custom_namespaces()) + custom_property_entries(v)
        + end_markup("Properties"@)
}

fn int_string(n: i32) -> (res: String)
    ensures
        res@ == int_text(n as int),
{
    let mut s = String::new();
    if n < 0 {
        push_char(&mut s, '-');
        push_decimal(&mut s, (0 - n as i64) as u64);
    } else {
        push_decimal(&mut s, n as u64);
    }
    assert(s@ =~= int_text(n as int));
    s
}

fn write_custom_value(w: &mut XmlWriter, v: &CustomPropertyValue)
    ensures
        final(w)@ == old(w)@ + custom_value_markup(v@),
{
    let no: [(&str, &str); 0] = [];
    assert(pair_views(no@) =~= Seq::<(Seq<char>, Seq<char>)>::empty());
    match v {
        CustomPropertyValue::Text(s) => w.text_element("vt:lpwstr", &no, s.as_str()),
        CustomPropertyValue::Number(s) => w.text_element("vt:r8", &no, s.as_str()),
        CustomPropertyValue::Integer(n) => {
            let t = int_string(*n);
            w.text_element("vt:i4", &no, t.as_str());
        },
        CustomPropertyValue::Bool(b) => w.text_element("vt:bool", &no, if *b { "true" } else { "false" }),
        CustomPropertyValue::DateTime(s) => w.text_element("vt:filetime", &no, s.as_str()),
    }
}

/// Writes `docProps/custom.xml`: each property in order, with ids from 2.
pub fn write_custom_xml(props: &[CustomProperty]) -> (res: Vec<u8>)
    requires
        props@.len() + 2 <= usize::MAX,
    ensures
        res@ == encode_utf8(custom_xml_text(custom_views(props@))),
{
    let ghost views = custom_views(props@);
    let mut w = XmlWriter::new();
    w.declaration();
    let ns = [
        ("xmlns", "http://schemas.openxmlformats.org/officeDocument/2006/custom-properties"),
        ("xmlns:vt", "http://schemas.openxmlformats.org/officeDocument/2006/docPropsVTypes"),
    ];
    w.start_tag("Properties", &ns);
    assert(pair_views(ns@) =~= custom_namespaces());
    let ghost start = w@;
    let mut i: usize = 0;
    while i < props.len()
        invariant
            0 <= i <= props.len(),
            props@.len() + 2 <= usize::MAX,
            views == custom_views(props@),
            w@ == start + custom_property_entries(views.take(i as int)),
        decreases props.len() - i,
    {
        let prop = &props[i];
        assert(views[i as int] == prop@);
        let pid = decimal_text_of(i as u64 + 2);
        let attrs = [
            ("fmtid", "{D5CDD505-2E9C-101B-9397-08002B2CF9AE}"),
            ("pid", pid.as_str()),
            ("name", prop.name.as_str()),
        ];
        w.start_tag("property", &attrs);
        assert(pair_views(attrs@) =~= seq![
            ("fmtid"@, "{D5CDD505-2E9C-101B-9397-08002B2CF9AE}"@),
            ("pid"@, decimal_digits(i as nat + 2)),
            ("name"@, prop.name@),
        ]);
        write_custom_value(&mut w, &prop.value);
        w.end_tag("property");
        assert(views.take(i + 1).drop_last() =~= views.take(i as int));
        assert(views.take(i + 1).last() == views[i as int]);
        i += 1;
        assert(w@ =~= start + custom_property_entries(views.take(i as int)));
    }
    assert(views.take(props.len() as int) =~= views);
    w.end_tag("Properties");
    assert(w@ =~= custom_xml_text(views));
    w.into_bytes()
}

fn decimal_text_of(n: u64) -> (res: String)
    ensures
        res@ == decimal_digits(n as nat),
{
    let mut s = String::new();
    push_decimal(&mut s, n);
    assert(s@ =~= decimal_digits(n as nat));
    s
}

/// The value of the last attribute whose key is `key`, or `dflt` when there is none.
pub open spec fn last_attr_value(attrs: Seq<(Seq<char>, Seq<char>)>, key: Seq<char>, dflt: Seq<char>) -> Seq<
    char,
>
    decreases attrs.len(),
{
    if attrs.len() == 0 {
        dflt
    } else if attrs.last().0 == key {
        attrs.last().1
    } else {
        last_attr_value(attrs.drop_last(), key, dflt)
    }
}

/// The value read from the text of a value element with local name `tag`: `i4` as an `i32`
/// (0 when it is not one), `bool` true for `true` or `1`, `r8` as its text; unknown kinds are
/// read as text.
pub open spec fn custom_value_of(tag: Seq<char>, text: Seq<char>) -> CustomValueV {
    if tag == "lpwstr"@ {
        CustomValueV::Text(text)
    } else if tag == "r8"@ {
        CustomValueV::Number(text)
    } else if tag == "i4"@ {
        CustomValueV::Integer(
            match std_parse_signed(text, i32::MIN as int, i32::MAX as int) {
                Some(v) => v as i32,
                None => 0,
            },
        )
    } else if tag == "bool"@ {
        CustomValueV::Bool(text == "true"@ || text == "1"@)
    } else if tag == "filetime"@ {
        CustomValueV::DateTime(text)
    } else {
        CustomValueV::Text(text)
    }
}

/// The state of reading a custom-properties part: the properties read, the name of the
/// property being read, the local name of its open value element (empty when none), the text
/// read inside it, and whether a `<property>` is open.
pub ghost struct CustomScan {
    pub props: Seq<(Seq<char>, CustomValueV)>,
    pub name: Seq<char>,
    pub tag: Seq<char>,
    pub text: Seq<char>,
    pub in_property: bool,
}

/// Nothing read yet.
pub open spec fn custom_scan_start() -> CustomScan {
    CustomScan {
        props: Seq::empty(),
        name: Seq::empty(),
        tag: Seq::empty(),
        text: Seq::empty(),
        in_property: false,
    }
}

/// Reading one event of a custom-properties part. A `<property>` start takes its `name`; a
/// start inside it opens a value element; text inside a value element is collected; the end of
/// an element inside a property adds a property with the collected text.
pub open spec fn custom_step(st: CustomScan, ev: XmlItem) -> CustomScan {
    match ev {
        XmlItem::Start { name, attrs } => {
            let local = local_part(name);
            if local == "property"@ {
                CustomScan { in_property: true, name: last_attr_value(attrs, "name"@, Seq::empty()), ..st }
            } else if st.in_property {
                CustomScan { tag: local, text: Seq::empty(), ..st }
            } else {
                st
            }
        },
        XmlItem::Text(t) => if st.in_property && st.tag.len() > 0 {
            CustomScan { text: st.text + t, ..st }
        } else {
            st
        },
        XmlItem::Ref(r) => if st.in_property && st.tag.len() > 0 {
            match spec_decode_ref(r) {
                Some(x) => CustomScan { text: st.text + x, ..st },
                None => st,
            }
        } else {
            st
        },
        XmlItem::End { name } => {
            let local = local_part(name);
            if local == "property"@ {
                CustomScan { in_property: false, tag: Seq::empty(), ..st }
            } else if st.in_property {
                CustomScan {
                    props: st.props.push((st.name, custom_value_of(st.tag, st.text))),
                    tag: Seq::empty(),
                    text: Seq::empty(),
                    ..st
                }
            } else {
                st
            }
        },
        _ => st,
    }
}

/// The reading state after a run of events.
pub open spec fn custom_run(items: Seq<XmlItem>) -> CustomScan
    decreases items.len(),
{
    if items.len() == 0 {
        custom_scan_start()
    } else {
        custom_step(custom_run(items.drop_last()), items.last())
    }
}

/// What `parse_custom_xml` reads from a custom-properties part (everything before the end of
/// input or the first XML error).
pub open spec fn spec_parse_custom_xml(data: Seq<u8>) -> Seq<(Seq<char>, CustomValueV)> {
    custom_run(xml_events(data).0).props
}

fn last_name_attr(attrs: &Vec<XmlAttr>) -> (res: String)
    ensures
        res@ == last_attr_value(attr_items(attrs@), "name"@, Seq::empty()),
{
    let ghost items = attr_items(attrs@);
    let mut name = String::new();
    let mut i: usize = 0;
    while i < attrs.len()
        invariant
            0 <= i <= attrs.len(),
            items == attr_items(attrs@),
            name@ == last_attr_value(items.take(i as int), "name"@, Seq::empty()),
        decreases attrs.len() - i,
    {
        assert(items.take(i + 1).drop_last() =~= items.take(i as int));
        assert(items.take(i + 1).last() == attrs@[i as int]@);
        if str_eq(attrs[i].key.as_str(), "name") {
            name = to_string(attrs[i].value.as_str());
        }
        i += 1;
    }
    assert(items.take(attrs.len() as int) =~= items);
    name
}

fn custom_value_from(tag: &str, text: String) -> (res: CustomPropertyValue)
    ensures
        res@ == custom_value_of(tag@, text@),
{
    if str_eq(tag, "lpwstr") {
        CustomPropertyValue::Text(text)
    } else if str_eq(tag, "r8") {
        CustomPropertyValue::Number(text)
    } else if str_eq(tag, "i4") {
        CustomPropertyValue::Integer(
            match parse_i32(text.as_str()) {
                Some(v) => v,
                None => 0,
            },
        )
    } else if str_eq(tag, "bool") {
        CustomPropertyValue::Bool(str_eq(text.as_str(), "true") || str_eq(text.as_str(), "1"))
    } else if str_eq(tag, "filetime") {
        CustomPropertyValue::DateTime(text)
    } else {
        CustomPropertyValue::Text(text)
    }
}

/// Reads the custom properties from `docProps/custom.xml`.
pub fn parse_custom_xml(data: &[u8]) -> (res: Vec<CustomProperty>)
    ensures
        custom_views(res@) == spec_parse_custom_xml(data@),
{
    let scan = scan_xml(data);
    let ghost items = xml_items(scan.events@);
    let mut props: Vec<CustomProperty> = Vec::new();
    let mut current_name = String::new();
    let mut current_tag = String::new();
    let mut current_text = String::new();
    let mut in_property = false;
    let mut i: usize = 0;
    assert(custom_views(props@) =~= Seq::<(Seq<char>, CustomValueV)>::empty());
    while i < scan.events.len()
        invariant
            0 <= i <= scan.events.len(),
            items == xml_items(scan.events@),
            custom_run(items.take(i as int)) == (CustomScan {
                props: custom_views(props@),
                name: current_name@,
                tag: current_tag@,
                text: current_text@,
                in_property,
            }),
        decreases scan.events.len() - i,
    {
        assert(items.take(i + 1).drop_last() =~= items.take(i as int));
        assert(items.take(i + 1).last() == scan.events@[i as int]@);
        match &scan.events[i] {
            XmlEvent::Start { name, attrs } => {
                let local = local_name(name.as_str());
                if str_eq(local.as_str(), "property") {
                    in_property = true;
                    current_name = last_name_attr(attrs);
                } else if in_property {
                    current_tag = local;
                    current_text = String::new();
                }
            },
            XmlEvent::Text(t) => {
                if in_property && current_tag.as_str().unicode_len() > 0 {
                    push_str(&mut current_text, t.as_str());
                }
            },
            XmlEvent::Ref(r) => {
                if in_property && current_tag.as_str().unicode_len() > 0 {
                    match decode_xml_ref(r.as_str()) {
                        Some(x) => {
                            push_str(&mut current_text, x.as_str());
                        },
                        None => {},
                    }
                }
            },
            XmlEvent::End { name } => {
                let local = local_name(name.as_str());
                if str_eq(local.as_str(), "property") {
                    in_property = false;
                    current_tag = String::new();
                } else if in_property {
                    let text = current_text;
                    current_text = String::new();
                    let value = custom_value_from(current_tag.as_str(), text);
                    let ghost before = props@;
                    let prop = CustomProperty { name: current_name.clone(), value };
                    props.push(prop);
                    assert(custom_views(props@) =~= custom_views(before).push(prop@));
                    current_tag = String::new();
                }
            },
            _ => {},
        }
        i += 1;
    }
    assert(items.take(scan.events.len() as int) =~= items);
    props
}

/// The properties not named `name`, in order.
pub open spec fn without_name(v: Seq<(Seq<char>, CustomValueV)>, name: Seq<char>) -> Seq<(Seq<char>, CustomValueV)>
    decreases v.len(),
{
    if v.len() == 0 {
        Seq::empty()
    } else if v.last().0 == name {
        without_name(v.drop_last(), name)
    } else {
        without_name(v.drop_last(), name).push(v.last())
    }
}

/// How many properties are named `name`.
pub open spec fn count_name(v: Seq<(Seq<char>, CustomValueV)>, name: Seq<char>) -> nat
    decreases v.len(),
{
    if v.len() == 0 {
        0
    } else {
        count_name(v.drop_last(), name) + if v.last().0 == name {
            1nat
        } else {
            0nat
        }
    }
}

fn clone_value(v: &CustomPropertyValue) -> (res: CustomPropertyValue)
    ensures
        res@ == v@,
{
    match v {
        CustomPropertyValue::Text(s) => CustomPropertyValue::Text(to_string(s.as_str())),
        CustomPropertyValue::Number(s) => CustomPropertyValue::Number(to_string(s.as_str())),
        CustomPropertyValue::Integer(n) => CustomPropertyValue::Integer(*n),
        CustomPropertyValue::Bool(b) => CustomPropertyValue::Bool(*b),
        CustomPropertyValue::DateTime(s) => CustomPropertyValue::DateTime(to_string(s.as_str())),
    }
}

/// Sets a custom property: any property of that name is dropped and the new one goes last.
pub fn set_custom_property(custom_properties: &mut Vec<CustomProperty>, name: &str, value: CustomPropertyValue)
    ensures
        custom_views(final(custom_properties)@) == without_name(custom_views(old(custom_properties)@), name@).push(
            (name@, value@),
        ),
{
    let ghost ev = custom_views(custom_properties@);
    let mut kept: Vec<CustomProperty> = Vec::new();
    let mut i: usize = 0;
    while i < custom_properties.len()
        invariant
            0 <= i <= custom_properties.len(),
            ev == custom_views(custom_properties@),
            custom_views(kept@) == without_name(ev.take(i as int), name@),
        decreases custom_properties.len() - i,
    {
        assert(ev.take(i + 1).drop_last() =~= ev.take(i as int));
        assert(ev.take(i + 1).last() == ev[i as int]);
        let p = &custom_properties[i];
        assert(ev[i as int] == p@);
        if !str_eq(p.name.as_str(), name) {
            let ghost before = custom_views(kept@);
            let c = CustomProperty { name: to_string(p.name.as_str()), value: clone_value(&p.value) };
            kept.push(c);
            assert(custom_views(kept@) =~= before.push(p@));
        }
        i += 1;
    }
    assert(ev.take(custom_properties.len() as int) =~= ev);
    let ghost before = custom_views(kept@);
    let np = CustomProperty { name: to_string(name), value };
    kept.push(np);
    assert(custom_views(kept@) =~= before.push((name@, np.value@)));
    *custom_properties = kept;
}

proof fn lemma_without_name_count(v: Seq<(Seq<char>, CustomValueV)>, name: Seq<char>)
    ensures
        count_name(without_name(v, name), name) == 0,
    decreases v.len(),
{
    if v.len() > 0 {
        lemma_without_name_count(v.drop_last(), name);
        let w = without_name(v.drop_last(), name);
        if v.last().0 != name {
            assert(w.push(v.last()).drop_last() =~= w);
        }
    }
}

/// After a custom property is set, exactly one property has its name, and it is the last one,
/// holding the value set.
pub proof fn lemma_set_custom_property_once(v: Seq<(Seq<char>, CustomValueV)>, name: Seq<char>, value: CustomValueV)
    ensures
        count_name(without_name(v, name).push((name, value)), name) == 1,
        without_name(v, name).push((name, value)).last() == (name, value),
{
    let w = without_name(v, name);
    lemma_without_name_count(v, name);
    assert(w.push((name, value)).drop_last() =~= w);
}

} // verus!
