//! Writing XML text.

use vstd::prelude::*;

use crate::text::{chars_of, push_char, push_str};

verus! {

/// The XML declaration every part starts with.
pub open spec fn xml_declaration() -> Seq<char> {
    "<?xml version=\"1.0\" encoding=\"UTF-8\" standalone=\"yes\"?>\n"@
}

/// How one character of character data is written.
pub open spec fn escape_text_char(c: char) -> Seq<char> {
    if c == '&' {
        "&amp;"@
    } else if c == '<' {
        "&lt;"@
    } else if c == '>' {
        "&gt;"@
    } else {
        seq![c]
    }
}

/// How one character of an attribute value is written.
pub open spec fn escape_attr_char(c: char) -> Seq<char> {
    if c == '"' {
        "&quot;"@
    } else {
        escape_text_char(c)
    }
}

/// Character data with `&`, `<` and `>` escaped.
pub open spec fn escape_text(s: Seq<char>) -> Seq<char>
    decreases s.len(),
{
    if s.len() == 0 {
        Seq::empty()
    } else {
        escape_text(s.drop_last()) + escape_text_char(s.last())
    }
}

/// An attribute value with `&`, `<`, `>` and `"` escaped.
pub open spec fn escape_attr(s: Seq<char>) -> Seq<char>
    decreases s.len(),
{
    if s.len() == 0 {
        Seq::empty()
    } else {
        escape_attr(s.drop_last()) + escape_attr_char(s.last())
    }
}

/// The attributes of a tag as written: ` key="value"` for each, in order.
pub open spec fn attrs_markup(attrs: Seq<(Seq<char>, Seq<char>)>) -> Seq<char>
    decreases attrs.len(),
{
    if attrs.len() == 0 {
        Seq::empty()
    } else {
        attrs_markup(attrs.drop_last()) + " "@ + attrs.last().0 + "=\""@ + escape_attr(attrs.last().1)
            + "\""@
    }
}

/// The views of borrowed (key, value) attribute pairs.
pub open spec fn pair_views(attrs: Seq<(&str, &str)>) -> Seq<(Seq<char>, Seq<char>)> {
    attrs.map_values(|p: (&str, &str)| (p.0@, p.1@))
}

/// A start tag.
pub open spec fn start_markup(name: Seq<char>, attrs: Seq<(Seq<char>, Seq<char>)>) -> Seq<char> {
    "<"@ + name + attrs_markup(attrs) + ">"@
}

/// An empty-element tag.
pub open spec fn empty_markup(name: Seq<char>, attrs: Seq<(Seq<char>, Seq<char>)>) -> Seq<char> {
    "<"@ + name + attrs_markup(attrs) + "/>"@
}

/// An end tag.
pub open spec fn end_markup(name: Seq<char>) -> Seq<char> {
    "</"@ + name + ">"@
}

/// An element holding only character data.
pub open spec fn text_markup(
    name: Seq<char>,
    attrs: Seq<(Seq<char>, Seq<char>)>,
    text: Seq<char>,
) -> Seq<char> {
    start_markup(name, attrs) + escape_text(text) + end_markup(name)
}

/// Appends `s` with character-data escaping.
fn push_escaped(out: &mut String, s: &str, attr: bool)
    ensures
        final(out)@ == old(out)@ + if attr { escape_attr(s@) } else { escape_text(s@) },
{
    let cs = chars_of(s);
    let ghost start = out@;
    let mut i: usize = 0;
    while i < cs.len()
        invariant
            0 <= i <= cs.len(),
            cs@ == s@,
            out@ == start + if attr { escape_attr(cs@.take(i as int)) } else { escape_text(cs@.take(i as int)) },
        decreases cs.len() - i,
    {
        let c = cs[i];
        let ghost prev = cs@.take(i as int);
        assert(cs@.take(i + 1).drop_last() =~= prev);
        assert(cs@.take(i + 1).last() == c);
        if c == '&' {
            push_str(out, "&amp;");
        } else if c == '<' {
            push_str(out, "&lt;");
        } else if c == '>' {
            push_str(out, "&gt;");
        } else if attr && c == '"' {
            push_str(out, "&quot;");
        } else {
            push_char(out, c);
        }
        assert(out@ =~= start + if attr { escape_attr(cs@.take(i + 1)) } else { escape_text(cs@.take(i + 1)) });
        i += 1;
    }
    assert(cs@.take(cs.len() as int) =~= s@);
}

/// Encodes text as UTF-8 bytes (`String::into_bytes`).
#[verifier::external_body]
pub fn string_into_bytes(s: String) -> (res: Vec<u8>)
    ensures
        res@ == vstd::utf8::encode_utf8(s@),
{
    s.into_bytes()
}

/// Builds XML text one tag at a time.
pub struct XmlWriter {
    buf: String,
}

impl View for XmlWriter {
    type V = Seq<char>;

    closed spec fn view(&self) -> Seq<char> {
        self.buf@
    }
}

impl XmlWriter {
    /// An empty document.
    pub fn new() -> (w: Self)
        ensures
            w@ == Seq::<char>::empty(),
    {
        XmlWriter { buf: String::new() }
    }

    /// Appends the XML declaration.
    pub fn declaration(&mut self)
        ensures
            final(self)@ == old(self)@ + xml_declaration(),
    {
        push_str(&mut self.buf, "<?xml version=\"1.0\" encoding=\"UTF-8\" standalone=\"yes\"?>\n");
    }

    fn push_attrs(&mut self, attrs: &[(&str, &str)])
        ensures
            final(self)@ == old(self)@ + attrs_markup(pair_views(attrs@)),
    {
        let ghost start = self@;
        let ghost pv = pair_views(attrs@);
        let mut i: usize = 0;
        while i < attrs.len()
            invariant
                0 <= i <= attrs.len(),
                pv == pair_views(attrs@),
                self@ == start + attrs_markup(pv.take(i as int)),
            decreases attrs.len() - i,
        {
            let (k, v) = attrs[i];
            assert(pv.take(i + 1).drop_last() =~= pv.take(i as int));
            assert(pv[i as int] == (k@, v@));
            push_str(&mut self.buf, " ");
            push_str(&mut self.buf, k);
            push_str(&mut self.buf, "=\"");
            push_escaped(&mut self.buf, v, true);
            push_str(&mut self.buf, "\"");
            assert(self@ =~= start + attrs_markup(pv.take(i + 1)));
            i += 1;
        }
        assert(pv.take(attrs.len() as int) =~= pv);
    }

    /// Appends a start tag.
    pub fn start_tag(&mut self, name: &str, attrs: &[(&str, &str)])
        ensures
            final(self)@ == old(self)@ + start_markup(name@, pair_views(attrs@)),
    {
        push_str(&mut self.buf, "<");
        push_str(&mut self.buf, name);
        self.push_attrs(attrs);
        push_str(&mut self.buf, ">");
        assert(self@ =~= old(self)@ + start_markup(name@, pair_views(attrs@)));
    }

    /// Appends an empty-element tag.
    pub fn empty_tag(&mut self, name: &str, attrs: &[(&str, &str)])
        ensures
            final(self)@ == old(self)@ + empty_markup(name@, pair_views(attrs@)),
    {
        push_str(&mut self.buf, "<");
        push_str(&mut self.buf, name);
        self.push_attrs(attrs);
        push_str(&mut self.buf, "/>");
        assert(self@ =~= old(self)@ + empty_markup(name@, pair_views(attrs@)));
    }

    /// Appends an end tag.
    pub fn end_tag(&mut self, name: &str)
        ensures
            final(self)@ == old(self)@ + end_markup(name@),
    {
        push_str(&mut self.buf, "</");
        push_str(&mut self.buf, name);
        push_str(&mut self.buf, ">");
        assert(self@ =~= old(self)@ + end_markup(name@));
    }

    /// Appends an element that holds only (escaped) character data.
    pub fn text_element(&mut self, name: &str, attrs: &[(&str, &str)], text: &str)
        ensures
            final(self)@ == old(self)@ + text_markup(name@, pair_views(attrs@), text@),
    {
        self.start_tag(name, attrs);
        push_escaped(&mut self.buf, text, false);
        self.end_tag(name);
        assert(self@ =~= old(self)@ + text_markup(name@, pair_views(attrs@), text@));
    }

    /// Appends text as it is, without escaping.
    pub fn raw(&mut self, s: &str)
        ensures
            final(self)@ == old(self)@ + s@,
    {
        push_str(&mut self.buf, s);
    }

    /// Appends the text of another document.
    pub fn append(&mut self, other: XmlWriter)
        ensures
            final(self)@ == old(self)@ + other@,
    {
        push_str(&mut self.buf, other.buf.as_str());
    }

    /// A copy of the document so far, as UTF-8 bytes.
    pub fn to_bytes(&self) -> (res: Vec<u8>)
        ensures
            res@ == vstd::utf8::encode_utf8(self@),
    {
        string_into_bytes(self.buf.clone())
    }

    /// The document as UTF-8 bytes.
    pub fn into_bytes(self) -> (res: Vec<u8>)
        ensures
            res@ == vstd::utf8::encode_utf8(self@),
    {
        string_into_bytes(self.buf)
    }
}

} // verus!
