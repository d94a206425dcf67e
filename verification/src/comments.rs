//! Reading the legacy cell comments part (`xl/commentsN.xml`).

use vstd::prelude::*;

use crate::text::{push_str, str_eq, to_string};
use crate::utility::{atoi_parse_usize, atoi_usize, parse_cell_ref, spec_parse_cell_ref, ColNum, RowNum};
use crate::xml::{attr_items, attr_value, get_attr, local_name, local_part, scan_xml, xml_events, xml_items, XmlEvent, XmlItem};

verus! {

/// A comment parsed from the comment XML part.
pub struct ParsedComment {
    pub row: RowNum,
    pub col: ColNum,
    pub text: String,
    pub author: String,
}

/// The mathematical form of a [`ParsedComment`].
pub ghost struct CommentView {
    pub row: RowNum,
    pub col: ColNum,
    pub text: Seq<char>,
    pub author: Seq<char>,
}

impl View for ParsedComment {
    type V = CommentView;

    open spec fn view(&self) -> CommentView {
        CommentView { row: self.row, col: self.col, text: self.text@, author: self.author@ }
    }
}

/// Where the reader stands in a comments part.
pub ghost struct CommentScan {
    pub authors: Seq<Seq<char>>,
    pub comments: Seq<CommentView>,
    pub in_authors: bool,
    pub in_author: bool,
    pub author_text: Seq<char>,
    pub in_comment: bool,
    pub in_text: bool,
    pub in_t: bool,
    pub cur_row: RowNum,
    pub cur_col: ColNum,
    pub cur_author_id: usize,
    pub cur_text: Seq<char>,
}

/// The state before the first event.
pub open spec fn comment_scan_start() -> CommentScan {
    CommentScan {
        authors: Seq::empty(),
        comments: Seq::empty(),
        in_authors: false,
        in_author: false,
        author_text: Seq::empty(),
        in_comment: false,
        in_text: false,
        in_t: false,
        cur_row: 0,
        cur_col: 0,
        cur_author_id: 0,
        cur_text: Seq::empty(),
    }
}

/// The author index an `authorId` attribute gives (0 when absent or not a number).
pub open spec fn author_id_of(attrs: Seq<(Seq<char>, Seq<char>)>) -> usize {
    match attr_value(attrs, "authorId"@) {
        Some(v) => match atoi_usize(vstd::utf8::encode_utf8(v)) {
            Some(n) => n,
            None => 0,
        },
        None => 0,
    }
}

/// How one event moves the reader.
pub open spec fn comment_step(st: CommentScan, ev: XmlItem) -> CommentScan {
    match ev {
        XmlItem::Start { name, attrs } => {
            let local = local_part(name);
            if local == "authors"@ {
                CommentScan { in_authors: true, ..st }
            } else if local == "author"@ && st.in_authors {
                CommentScan { in_author: true, author_text: Seq::empty(), ..st }
            } else if local == "comment"@ {
                let (r, c) = match attr_value(attrs, "ref"@) {
                    Some(v) => match spec_parse_cell_ref(v) {
                        Some(rc) => rc,
                        None => (st.cur_row, st.cur_col),
                    },
                    None => (st.cur_row, st.cur_col),
                };
                CommentScan {
                    in_comment: true,
                    cur_text: Seq::empty(),
                    cur_row: r,
                    cur_col: c,
                    cur_author_id: author_id_of(attrs),
                    ..st
                }
            } else if local == "text"@ && st.in_comment {
                CommentScan { in_text: true, ..st }
            } else if local == "t"@ && st.in_text {
                CommentScan { in_t: true, ..st }
            } else {
                st
            }
        },
        XmlItem::Text(t) => CommentScan {
            author_text: if st.in_author { st.author_text + t } else { st.author_text },
            cur_text: if st.in_t { st.cur_text + t } else { st.cur_text },
            ..st
        },
        XmlItem::End { name } => {
            let local = local_part(name);
            if local == "authors"@ {
                CommentScan { in_authors: false, ..st }
            } else if local == "author"@ {
                if st.in_author {
                    CommentScan { authors: st.authors.push(st.author_text), in_author: false, ..st }
                } else {
                    st
                }
            } else if local == "comment"@ {
                if st.in_comment {
                    let author = if (st.cur_author_id as int) < st.authors.len() {
                        st.authors[st.cur_author_id as int]
                    } else {
                        Seq::empty()
                    };
                    CommentScan {
                        comments: st.comments.push(
                            CommentView {
                                row: st.cur_row,
                                col: st.cur_col,
                                text: st.cur_text,
                                author,
                            },
                        ),
                        in_comment: false,
                        ..st
                    }
                } else {
                    st
                }
            } else if local == "text"@ {
                CommentScan { in_text: false, ..st }
            } else if local == "t"@ {
                CommentScan { in_t: false, ..st }
            } else {
                st
            }
        },
        _ => st,
    }
}

/// The reader's state after a run of events.
pub open spec fn comment_run(items: Seq<XmlItem>) -> CommentScan
    decreases items.len(),
{
    if items.len() == 0 {
        comment_scan_start()
    } else {
        comment_step(comment_run(items.drop_last()), items.last())
    }
}

/// What `parse_comments` gives for a comments part: every complete `<comment>`, or nothing
/// when the part is not well-formed XML.
pub open spec fn spec_parse_comments(data: Seq<u8>) -> Seq<CommentView> {
    if xml_events(data).1 {
        comment_run(xml_events(data).0).comments
    } else {
        Seq::empty()
    }
}

struct CommentReader {
    authors: Vec<String>,
    comments: Vec<ParsedComment>,
    in_authors: bool,
    in_author: bool,
    author_text: String,
    in_comment: bool,
    in_text: bool,
    in_t: bool,
    cur_row: RowNum,
    cur_col: ColNum,
    cur_author_id: usize,
    cur_text: String,
}

impl View for CommentReader {
    type V = CommentScan;

    closed spec fn view(&self) -> CommentScan {
        CommentScan {
            authors: self.authors@.map_values(|s: String| s@),
            comments: self.comments@.map_values(|c: ParsedComment| c@),
            in_authors: self.in_authors,
            in_author: self.in_author,
            author_text: self.author_text@,
            in_comment: self.in_comment,
            in_text: self.in_text,
            in_t: self.in_t,
            cur_row: self.cur_row,
            cur_col: self.cur_col,
            cur_author_id: self.cur_author_id,
            cur_text: self.cur_text@,
        }
    }
}

fn author_id(attrs: &[crate::xml::XmlAttr]) -> (res: usize)
    ensures
        res == author_id_of(attr_items(attrs@)),
{
    match get_attr(attrs, "authorId") {
        Some(v) => match atoi_parse_usize(v.as_str().as_bytes()) {
            Some(n) => n,
            None => 0,
        },
        None => 0,
    }
}

impl CommentReader {
    fn new() -> (res: Self)
        ensures
            res@ == comment_scan_start(),
    {
        let res = CommentReader {
            authors: Vec::new(),
            comments: Vec::new(),
            in_authors: false,
            in_author: false,
            author_text: String::new(),
            in_comment: false,
            in_text: false,
            in_t: false,
            cur_row: 0,
            cur_col: 0,
            cur_author_id: 0,
            cur_text: String::new(),
        };
        assert(res.authors@.map_values(|s: String| s@) =~= Seq::<Seq<char>>::empty());
        assert(res.comments@.map_values(|c: ParsedComment| c@) =~= Seq::<CommentView>::empty());
        res
    }

    fn step(&mut self, ev: &XmlEvent)
        ensures
            final(self)@ == comment_step(old(self)@, ev@),
    {
        match ev {
            XmlEvent::Start { name, attrs } => {
                let local = local_name(name.as_str());
                let l = local.as_str();
                if str_eq(l, "authors") {
                    self.in_authors = true;
                } else if str_eq(l, "author") && self.in_authors {
                    self.in_author = true;
                    self.author_text = String::new();
                } else if str_eq(l, "comment") {
                    self.in_comment = true;
                    self.cur_text = String::new();
                    match get_attr(attrs.as_slice(), "ref") {
                        Some(v) => match parse_cell_ref(v.as_str()) {
                            Ok((r, c)) => {
                                self.cur_row = r;
                                self.cur_col = c;
                            },
                            Err(_) => {},
                        },
                        None => {},
                    }
                    self.cur_author_id = author_id(attrs.as_slice());
                } else if str_eq(l, "text") && self.in_comment {
                    self.in_text = true;
                } else if str_eq(l, "t") && self.in_text {
                    self.in_t = true;
                }
            },
            XmlEvent::Text(t) => {
                if self.in_author {
                    push_str(&mut self.author_text, t.as_str());
                }
                if self.in_t {
                    push_str(&mut self.cur_text, t.as_str());
                }
            },
            XmlEvent::End { name } => {
                let local = local_name(name.as_str());
                let l = local.as_str();
                if str_eq(l, "authors") {
                    self.in_authors = false;
                } else if str_eq(l, "author") {
                    if self.in_author {
                        let a = self.author_text.clone();
                        let ghost before = self.authors@;
                        self.authors.push(a);
                        assert(self.authors@.map_values(|s: String| s@) =~= before.map_values(
                            |s: String| s@,
                        ).push(a@));
                        self.in_author = false;
                    }
                } else if str_eq(l, "comment") {
                    if self.in_comment {
                        let author = if self.cur_author_id < self.authors.len() {
                            self.authors[self.cur_author_id].clone()
                        } else {
                            String::new()
                        };
                        let c = ParsedComment {
                            row: self.cur_row,
                            col: self.cur_col,
                            text: self.cur_text.clone(),
                            author,
                        };
                        let ghost before = self.comments@;
                        let ghost cv = c@;
                        self.comments.push(c);
                        assert(self.comments@.map_values(|c: ParsedComment| c@) =~= before.map_values(
                            |c: ParsedComment| c@,
                        ).push(cv));
                        self.in_comment = false;
                    }
                } else if str_eq(l, "text") {
                    self.in_text = false;
                } else if str_eq(l, "t") {
                    self.in_t = false;
                }
            },
            _ => {},
        }
    }
}

/// Parse legacy comment XML (`xl/commentsN.xml`) into a list of comments.
///
/// Returns an empty vec if the data is malformed or cannot be parsed.
pub fn parse_comments(data: &[u8]) -> (res: Vec<ParsedComment>)
    ensures
        res@.map_values(|c: ParsedComment| c@) == spec_parse_comments(data@),
{
    let scan = scan_xml(data);
    if !scan.complete {
        let v: Vec<ParsedComment> = Vec::new();
        assert(v@.map_values(|c: ParsedComment| c@) =~= Seq::<CommentView>::empty());
        return v;
    }
    let ghost items = xml_items(scan.events@);
    let mut st = CommentReader::new();
    let mut i: usize = 0;
    while i < scan.events.len()
        invariant
            0 <= i <= scan.events.len(),
            items == xml_items(scan.events@),
            st@ == comment_run(items.take(i as int)),
        decreases scan.events.len() - i,
    {
        assert(items.take(i + 1).drop_last() =~= items.take(i as int));
        assert(items.take(i + 1).last() == scan.events@[i as int]@);
        st.step(&scan.events[i]);
        i += 1;
    }
    assert(items.take(scan.events.len() as int) =~= items);
    st.comments
}

} // verus!
