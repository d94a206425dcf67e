//! Worksheet-level records: links, notes, threaded comments, form controls, sorting.

use vstd::prelude::*;

use crate::text::to_string;

pub use crate::sheet::{CellType, Worksheet};
use crate::utility::{ColNum, RowNum};

verus! {

/// Whether a sheet is shown in the tab bar.
#[derive(Debug, Clone, Copy, PartialEq, Eq, Structural)]
pub enum SheetVisibility {
    Visible,
    Hidden,
    VeryHidden,
}

impl Default for SheetVisibility {
    fn default() -> (res: Self)
        ensures
            res == SheetVisibility::Visible,
    {
        SheetVisibility::Visible
    }
}

/// Page orientation.
#[derive(Debug, Clone, Copy, PartialEq, Eq, Structural)]
pub enum Orientation {
    Portrait,
    Landscape,
}

/// A hyperlink on a cell.
pub struct Hyperlink {
    pub row: RowNum,
    pub col: ColNum,
    pub url: String,
    pub location: Option<String>,
    pub tooltip: Option<String>,
}

/// A comment/note on a cell.
pub struct Comment {
    pub row: RowNum,
    pub col: ColNum,
    pub text: String,
    pub author: String,
}

/// A threaded comment (modern comment) on a cell.
pub struct ThreadedComment {
    pub row: RowNum,
    pub col: ColNum,
    pub author: String,
    pub text: String,
    pub timestamp: String,
    pub replies: Vec<ThreadedCommentReply>,
}

/// A reply within a threaded comment.
pub struct ThreadedCommentReply {
    pub author: String,
    pub text: String,
    pub timestamp: String,
}

/// The mathematical form of a reply: author, text, timestamp.
pub open spec fn reply_view(r: ThreadedCommentReply) -> (Seq<char>, Seq<char>, Seq<char>) {
    (r.author@, r.text@, r.timestamp@)
}

/// The replies of a threaded comment as (author, text, timestamp) triples.
pub open spec fn replies_view(v: Seq<ThreadedCommentReply>) -> Seq<(Seq<char>, Seq<char>, Seq<char>)> {
    v.map_values(|r: ThreadedCommentReply| reply_view(r))
}

/// The timestamp a threaded comment or reply gets when none is given.
pub open spec fn default_timestamp() -> Seq<char> {
    "2024-01-01T00:00:00.000"@
}

impl ThreadedComment {
    /// Create a new threaded comment at A1 with the default timestamp and no replies.
    pub fn new(author: &str, text: &str) -> (res: Self)
        ensures
            res.row == 0 && res.col == 0,
            res.author@ == author@,
            res.text@ == text@,
            res.timestamp@ == default_timestamp(),
            res.replies@.len() == 0,
    {
        ThreadedComment {
            row: 0,
            col: 0,
            author: to_string(author),
            text: to_string(text),
            timestamp: to_string("2024-01-01T00:00:00.000"),
            replies: Vec::new(),
        }
    }

    /// Set the timestamp (ISO 8601 format).
    pub fn timestamp(self, ts: &str) -> (res: Self)
        ensures
            res.timestamp@ == ts@,
            res.row == self.row && res.col == self.col,
            res.author == self.author && res.text == self.text,
            res.replies == self.replies,
    {
        ThreadedComment { timestamp: to_string(ts), ..self }
    }

    /// Add a reply (with the default timestamp) to this threaded comment.
    pub fn add_reply(&mut self, author: &str, text: &str) -> (res: &mut Self)
        ensures
            res.row == old(self).row && res.col == old(self).col,
            res.author == old(self).author && res.text == old(self).text,
            res.timestamp == old(self).timestamp,
            replies_view(res.replies@) == replies_view(old(self).replies@).push(
                (author@, text@, default_timestamp()),
            ),
            *final(self) == *final(res),
    {
        let r = ThreadedCommentReply {
            author: to_string(author),
            text: to_string(text),
            timestamp: to_string("2024-01-01T00:00:00.000"),
        };
        let ghost rv = reply_view(r);
        self.replies.push(r);
        assert(replies_view(self.replies@) =~= replies_view(old(self).replies@).push(rv));
        self
    }

    /// Add a reply with a specific timestamp.
    pub fn add_reply_with_timestamp(&mut self, author: &str, text: &str, timestamp: &str) -> (res:
        &mut Self)
        ensures
            res.row == old(self).row && res.col == old(self).col,
            res.author == old(self).author && res.text == old(self).text,
            res.timestamp == old(self).timestamp,
            replies_view(res.replies@) == replies_view(old(self).replies@).push(
                (author@, text@, timestamp@),
            ),
            *final(self) == *final(res),
    {
        let r = ThreadedCommentReply {
            author: to_string(author),
            text: to_string(text),
            timestamp: to_string(timestamp),
        };
        let ghost rv = reply_view(r);
        self.replies.push(r);
        assert(replies_view(self.replies@) =~= replies_view(old(self).replies@).push(rv));
        self
    }
}

/// Form control types for worksheet interactivity.
pub enum FormControl {
    Checkbox { text: String, checked: bool, cell_link: Option<String> },
    Dropdown { items: Vec<String>, selected_index: Option<usize>, cell_link: Option<String> },
    Button { text: String, macro_name: Option<String> },
    Spinner {
        min_value: i32,
        max_value: i32,
        current_value: i32,
        increment: i32,
        cell_link: Option<String>,
    },
}

impl FormControl {
    /// Create an unchecked checkbox with no cell link.
    pub fn checkbox(text: &str) -> (res: Self)
        ensures
            res matches FormControl::Checkbox { text: t, checked, cell_link } && t@ == text@ && !checked
                && cell_link is None,
    {
        FormControl::Checkbox { text: to_string(text), checked: false, cell_link: None }
    }

    /// Create an unchecked checkbox linked to a cell.
    pub fn checkbox_with_link(text: &str, cell_link: &str) -> (res: Self)
        ensures
            res matches FormControl::Checkbox { text: t, checked, cell_link: Some(l) } && t@ == text@
                && !checked && l@ == cell_link@,
    {
        FormControl::Checkbox {
            text: to_string(text),
            checked: false,
            cell_link: Some(to_string(cell_link)),
        }
    }

    /// Create a dropdown with nothing selected and no cell link.
    pub fn dropdown(items: Vec<String>) -> (res: Self)
        ensures
            res == (FormControl::Dropdown { items, selected_index: None, cell_link: None }),
    {
        FormControl::Dropdown { items, selected_index: None, cell_link: None }
    }

    /// Create a button with no macro.
    pub fn button(text: &str) -> (res: Self)
        ensures
            res matches FormControl::Button { text: t, macro_name } && t@ == text@ && macro_name is None,
    {
        FormControl::Button { text: to_string(text), macro_name: None }
    }

    /// Create a spinner stepping by one, with no cell link.
    pub fn spinner(min: i32, max: i32, current: i32) -> (res: Self)
        ensures
            res == (FormControl::Spinner {
                min_value: min,
                max_value: max,
                current_value: current,
                increment: 1,
                cell_link: None,
            }),
    {
        FormControl::Spinner {
            min_value: min,
            max_value: max,
            current_value: current,
            increment: 1,
            cell_link: None,
        }
    }

    /// Create a spinner stepping by one, linked to a cell.
    pub fn spinner_with_link(min: i32, max: i32, current: i32, cell_link: &str) -> (res: Self)
        ensures
            res matches FormControl::Spinner {
                min_value,
                max_value,
                current_value,
                increment,
                cell_link: Some(l),
            } && min_value == min && max_value == max && current_value == current && increment == 1
                && l@ == cell_link@,
    {
        FormControl::Spinner {
            min_value: min,
            max_value: max,
            current_value: current,
            increment: 1,
            cell_link: Some(to_string(cell_link)),
        }
    }
}

/// A phonetic text run (furigana) for East Asian text pronunciation.
pub struct PhoneticRun {
    /// Start character index in the base text.
    pub start_index: u32,
    /// End character index in the base text.
    pub end_index: u32,
    /// The phonetic (pronunciation) text.
    pub text: String,
}

impl PhoneticRun {
    pub fn new(start_index: u32, end_index: u32, text: &str) -> (res: Self)
        ensures
            res.start_index == start_index,
            res.end_index == end_index,
            res.text@ == text@,
    {
        PhoneticRun { start_index, end_index, text: to_string(text) }
    }
}

/// Sort direction for worksheet sort state.
#[derive(Debug, Clone, Copy, PartialEq, Eq, Structural)]
pub enum SortDirection {
    Ascending,
    Descending,
}

/// A sort condition within a sort state.
pub struct SortCondition {
    pub col: ColNum,
    pub direction: SortDirection,
}

/// Sort state for a worksheet.
pub struct SortState {
    pub range: (RowNum, ColNum, RowNum, ColNum),
    pub conditions: Vec<SortCondition>,
}

} // verus!
