//! Sheet and workbook protection, legacy password hashing and sheet-name rules.

use vstd::prelude::*;
use vstd::utf8::encode_utf8;

use crate::error::Error;
use crate::text::{chars_of, push_char, to_string};

verus! {

/// Sheet protection settings.
#[derive(Debug, Clone)]
pub struct SheetProtection {
    /// The legacy password hash (four upper-case hex digits), when a password is set.
    pub password_hash: Option<String>,
    pub sheet: bool,
    pub objects: bool,
    pub scenarios: bool,
    pub format_cells: bool,
    pub format_columns: bool,
    pub format_rows: bool,
    pub insert_columns: bool,
    pub insert_rows: bool,
    pub insert_hyperlinks: bool,
    pub delete_columns: bool,
    pub delete_rows: bool,
    pub select_locked_cells: bool,
    pub sort: bool,
    pub auto_filter: bool,
    pub pivot_tables: bool,
    pub select_unlocked_cells: bool,
}

/// Workbook-level protection.
#[derive(Debug, Clone)]
pub struct WorkbookProtection {
    /// The legacy password hash (four upper-case hex digits), when a password is set.
    pub password_hash: Option<String>,
}

impl Default for SheetProtection {
    /// Everything protected except selecting cells, and no password.
    fn default() -> (res: Self)
        ensures
            res.password_hash is None,
            res.sheet && res.objects && res.scenarios,
            res.format_cells && res.format_columns && res.format_rows,
            res.insert_columns && res.insert_rows && res.insert_hyperlinks,
            res.delete_columns && res.delete_rows,
            !res.select_locked_cells,
            res.sort && res.auto_filter && res.pivot_tables,
            !res.select_unlocked_cells,
    {
        SheetProtection {
            password_hash: None,
            sheet: true,
            objects: true,
            scenarios: true,
            format_cells: true,
            format_columns: true,
            format_rows: true,
            insert_columns: true,
            insert_rows: true,
            insert_hyperlinks: true,
            delete_columns: true,
            delete_rows: true,
            select_locked_cells: false,
            sort: true,
            auto_filter: true,
            pivot_tables: true,
            select_unlocked_cells: false,
        }
    }
}

impl SheetProtection {
    /// The settings `default` gives: everything protected except selecting cells, and no
    /// password.
    pub open spec fn spec_default() -> SheetProtection {
        SheetProtection {
            password_hash: None,
            sheet: true,
            objects: true,
            scenarios: true,
            format_cells: true,
            format_columns: true,
            format_rows: true,
            insert_columns: true,
            insert_rows: true,
            insert_hyperlinks: true,
            delete_columns: true,
            delete_rows: true,
            select_locked_cells: false,
            sort: true,
            auto_filter: true,
            pivot_tables: true,
            select_unlocked_cells: false,
        }
    }

    /// Protection with the given legacy password hash and the default flags.
    pub fn with_password_hash(hash: String) -> (res: Self)
        ensures
            res == (SheetProtection { password_hash: Some(hash), ..res }),
            res.password_hash == Some(hash),
    {
        SheetProtection { password_hash: Some(hash), ..SheetProtection::default() }
    }

    /// Returns the legacy password hash, if set.
    pub fn password_hash(&self) -> (res: Option<&str>)
        ensures
            match res {
                Some(h) => self.password_hash matches Some(p) && h@ == p@,
                None => self.password_hash is None,
            },
    {
        match &self.password_hash {
            Some(h) => Some(h.as_str()),
            None => None,
        }
    }

    /// Set the `sheet` protection flag (default: true).
    pub fn set_sheet(&mut self, v: bool) -> (res: &mut Self)
        ensures
            *res == (SheetProtection { sheet: v, ..*old(self) }),
            *final(self) == *final(res),
    {
        self.sheet = v;
        self
    }

    /// Set the `objects` protection flag (default: true).
    pub fn set_objects(&mut self, v: bool) -> (res: &mut Self)
        ensures
            *res == (SheetProtection { objects: v, ..*old(self) }),
            *final(self) == *final(res),
    {
        self.objects = v;
        self
    }

    /// Set the `scenarios` protection flag (default: true).
    pub fn set_scenarios(&mut self, v: bool) -> (res: &mut Self)
        ensures
            *res == (SheetProtection { scenarios: v, ..*old(self) }),
            *final(self) == *final(res),
    {
        self.scenarios = v;
        self
    }

    /// Allow or disallow formatting cells (default: true = protected).
    pub fn set_format_cells(&mut self, v: bool) -> (res: &mut Self)
        ensures
            *res == (SheetProtection { format_cells: v, ..*old(self) }),
            *final(self) == *final(res),
    {
        self.format_cells = v;
        self
    }

    /// Allow or disallow formatting columns (default: true = protected).
    pub fn set_format_columns(&mut self, v: bool) -> (res: &mut Self)
        ensures
            *res == (SheetProtection { format_columns: v, ..*old(self) }),
            *final(self) == *final(res),
    {
        self.format_columns = v;
        self
    }

    /// Allow or disallow formatting rows (default: true = protected).
    pub fn set_format_rows(&mut self, v: bool) -> (res: &mut Self)
        ensures
            *res == (SheetProtection { format_rows: v, ..*old(self) }),
            *final(self) == *final(res),
    {
        self.format_rows = v;
        self
    }

    /// Allow or disallow inserting columns (default: true = protected).
    pub fn set_insert_columns(&mut self, v: bool) -> (res: &mut Self)
        ensures
            *res == (SheetProtection { insert_columns: v, ..*old(self) }),
            *final(self) == *final(res),
    {
        self.insert_columns = v;
        self
    }

    /// Allow or disallow inserting rows (default: true = protected).
    pub fn set_insert_rows(&mut self, v: bool) -> (res: &mut Self)
        ensures
            *res == (SheetProtection { insert_rows: v, ..*old(self) }),
            *final(self) == *final(res),
    {
        self.insert_rows = v;
        self
    }

    /// Allow or disallow inserting hyperlinks (default: true = protected).
    pub fn set_insert_hyperlinks(&mut self, v: bool) -> (res: &mut Self)
        ensures
            *res == (SheetProtection { insert_hyperlinks: v, ..*old(self) }),
            *final(self) == *final(res),
    {
        self.insert_hyperlinks = v;
        self
    }

    /// Allow or disallow deleting columns (default: true = protected).
    pub fn set_delete_columns(&mut self, v: bool) -> (res: &mut Self)
        ensures
            *res == (SheetProtection { delete_columns: v, ..*old(self) }),
            *final(self) == *final(res),
    {
        self.delete_columns = v;
        self
    }

    /// Allow or disallow deleting rows (default: true = protected).
    pub fn set_delete_rows(&mut self, v: bool) -> (res: &mut Self)
        ensures
            *res == (SheetProtection { delete_rows: v, ..*old(self) }),
            *final(self) == *final(res),
    {
        self.delete_rows = v;
        self
    }

    /// Set whether selecting locked cells is prevented (default: false).
    pub fn set_select_locked_cells(&mut self, v: bool) -> (res: &mut Self)
        ensures
            *res == (SheetProtection { select_locked_cells: v, ..*old(self) }),
            *final(self) == *final(res),
    {
        self.select_locked_cells = v;
        self
    }

    /// Allow or disallow sorting (default: true = protected).
    pub fn set_sort(&mut self, v: bool) -> (res: &mut Self)
        ensures
            *res == (SheetProtection { sort: v, ..*old(self) }),
            *final(self) == *final(res),
    {
        self.sort = v;
        self
    }

    /// Allow or disallow autofilter (default: true = protected).
    pub fn set_auto_filter(&mut self, v: bool) -> (res: &mut Self)
        ensures
            *res == (SheetProtection { auto_filter: v, ..*old(self) }),
            *final(self) == *final(res),
    {
        self.auto_filter = v;
        self
    }

    /// Allow or disallow pivot tables (default: true = protected).
    pub fn set_pivot_tables(&mut self, v: bool) -> (res: &mut Self)
        ensures
            *res == (SheetProtection { pivot_tables: v, ..*old(self) }),
            *final(self) == *final(res),
    {
        self.pivot_tables = v;
        self
    }

    /// Set whether selecting unlocked cells is prevented (default: false).
    pub fn set_select_unlocked_cells(&mut self, v: bool) -> (res: &mut Self)
        ensures
            *res == (SheetProtection { select_unlocked_cells: v, ..*old(self) }),
            *final(self) == *final(res),
    {
        self.select_unlocked_cells = v;
        self
    }
}

impl WorkbookProtection {
    /// Workbook protection with the given legacy password hash, if any.
    pub fn new(password_hash: Option<String>) -> (res: Self)
        ensures
            res.password_hash == password_hash,
    {
        WorkbookProtection { password_hash }
    }

    /// Returns the legacy password hash, if set.
    pub fn password_hash(&self) -> (res: Option<&str>)
        ensures
            match res {
                Some(h) => self.password_hash matches Some(p) && h@ == p@,
                None => self.password_hash is None,
            },
    {
        match &self.password_hash {
            Some(h) => Some(h.as_str()),
            None => None,
        }
    }
}

/// A 15-bit value rotated left by one within 15 bits.
pub open spec fn pw_rotate(h: u16) -> u16 {
    ((h >> 14u16) & 1u16) | ((h << 1u16) & 0x7FFFu16)
}

/// The running hash after the last `n` bytes of `bytes`, taken from the last byte backwards:
/// each step rotates the hash and XORs in the byte.
pub open spec fn pw_fold(bytes: Seq<u8>, n: nat) -> u16
    decreases n,
{
    if n == 0 {
        0u16
    } else {
        pw_rotate(pw_fold(bytes, (n - 1) as nat)) ^ (bytes[bytes.len() - n] as u16)
    }
}

/// Excel's 16-bit legacy password hash of the UTF-8 bytes of a password: the running hash over
/// every byte, rotated once more, XOR the length and `0xCE4B`.
pub open spec fn pw_hash(bytes: Seq<u8>) -> u16 {
    pw_rotate(pw_fold(bytes, bytes.len())) ^ (bytes.len() as u16) ^ 0xCE4Bu16
}

/// The upper-case hexadecimal digit for a value below 16.
pub open spec fn hex_digit(d: nat) -> char {
    if d < 10 {
        (('0' as nat) + d) as char
    } else {
        (('A' as nat) + d - 10) as char
    }
}

/// A 16-bit value as four upper-case hexadecimal digits.
pub open spec fn hex4(h: u16) -> Seq<char> {
    seq![
        hex_digit((h / 4096) as nat),
        hex_digit(((h / 256) % 16) as nat),
        hex_digit(((h / 16) % 16) as nat),
        hex_digit((h % 16) as nat),
    ]
}

fn hex_char(d: u16) -> (c: char)
    requires
        d < 16,
    ensures
        c == hex_digit(d as nat),
{
    if d < 10 {
        (48u8 + d as u8) as char
    } else {
        (55u8 + d as u8) as char
    }
}

/// Excel legacy password hash (XOR-based, 16-bit), as four upper-case hex digits.
pub fn hash_password(password: &str) -> (res: String)
    ensures
        res@ == hex4(pw_hash(encode_utf8(password@))),
{
    let bytes = password.as_bytes();
    let ghost bs = bytes@;
    let n = bytes.len();
    let mut hash: u16 = 0;
    let mut i: usize = 0;
    while i < n
        invariant
            0 <= i <= n,
            n == bs.len(),
            bs == bytes@,
            hash == pw_fold(bs, i as nat),
        decreases n - i,
    {
        let b = bytes[n - 1 - i];
        hash = ((hash >> 14u16) & 1u16) | ((hash << 1u16) & 0x7FFFu16);
        hash ^= b as u16;
        i += 1;
    }
    hash = ((hash >> 14u16) & 1u16) | ((hash << 1u16) & 0x7FFFu16);
    hash ^= n as u16;
    hash ^= 0xCE4Bu16;
    let mut s = String::new();
    push_char(&mut s, hex_char(hash / 4096));
    push_char(&mut s, hex_char((hash / 256) % 16));
    push_char(&mut s, hex_char((hash / 16) % 16));
    push_char(&mut s, hex_char(hash % 16));
    assert(s@ =~= hex4(hash));
    s
}

/// Same as [`hash_password`]; the name the workbook-level protection uses.
pub fn hash_password_public(password: &str) -> (res: String)
    ensures
        res@ == hex4(pw_hash(encode_utf8(password@))),
{
    hash_password(password)
}

/// A character that may not appear in a sheet name.
pub open spec fn forbidden_in_sheet_name(c: char) -> bool {
    c == '/' || c == '\\' || c == '*' || c == '?' || c == '[' || c == ']' || c == ':'
}

/// A valid sheet name: not empty, at most 31 characters, and none of `/ \ * ? [ ] :`.
pub open spec fn valid_sheet_name(name: Seq<char>) -> bool {
    &&& name.len() > 0
    &&& name.len() <= 31
    &&& forall|i: int| 0 <= i < name.len() ==> !forbidden_in_sheet_name(#[trigger] name[i])
}

/// The index of the first character of `s` that a sheet name cannot hold, or -1.
pub open spec fn first_forbidden(s: Seq<char>) -> int
    decreases s.len(),
{
    if s.len() == 0 {
        -1
    } else if forbidden_in_sheet_name(s[0]) {
        0
    } else {
        let r = first_forbidden(s.drop_first());
        if r < 0 {
            -1
        } else {
            r + 1
        }
    }
}

proof fn lemma_first_forbidden_at(s: Seq<char>, i: int)
    requires
        0 <= i < s.len(),
        forbidden_in_sheet_name(s[i]),
        forall|k: int| 0 <= k < i ==> !forbidden_in_sheet_name(#[trigger] s[k]),
    ensures
        first_forbidden(s) == i,
    decreases i,
{
    if i > 0 {
        let t = s.drop_first();
        assert forall|k: int| 0 <= k < i - 1 implies !forbidden_in_sheet_name(#[trigger] t[k]) by {
            assert(t[k] == s[k + 1]);
        }
        assert(t[i - 1] == s[i]);
        lemma_first_forbidden_at(t, i - 1);
    }
}

/// The message of the error for a name that is no valid sheet name.
pub open spec fn sheet_name_error_message(name: Seq<char>) -> Seq<char> {
    if name.len() == 0 {
        "Sheet name cannot be empty"@
    } else if name.len() > 31 {
        "Sheet name '"@ + name + "' exceeds 31 characters"@
    } else {
        "Sheet name '"@ + name + "' contains invalid character '"@ + seq![name[first_forbidden(name)]] + "'"@
    }
}

/// Validate an Excel sheet name.
pub fn validate_sheet_name(name: &str) -> (res: Result<(), Error>)
    ensures
        res is Ok <==> valid_sheet_name(name@),
        res matches Err(e) ==> (e matches Error::InvalidData(m) && m@ == sheet_name_error_message(name@)),
{
    proof {
        reveal_strlit("Sheet name cannot be empty");
    }
    if name.is_empty() {
        return Err(Error::InvalidData(to_string("Sheet name cannot be empty")));
    }
    if name.unicode_len() > 31 {
        let mut m = to_string("Sheet name '");
        crate::text::push_str(&mut m, name);
        crate::text::push_str(&mut m, "' exceeds 31 characters");
        return Err(Error::InvalidData(m));
    }
    let cs = chars_of(name);
    assert(name@.len() > 0) by {
        if name@.len() == 0 {
            assert(name@ =~= ""@);
        }
    }
    let mut i: usize = 0;
    while i < cs.len()
        invariant
            0 <= i <= cs.len(),
            cs@ == name@,
            name@.len() > 0,
            name@.len() <= 31,
            forall|k: int| 0 <= k < i ==> !forbidden_in_sheet_name(#[trigger] cs@[k]),
        decreases cs.len() - i,
    {
        let c = cs[i];
        if c == '/' || c == '\\' || c == '*' || c == '?' || c == '[' || c == ']' || c == ':' {
            proof {
                lemma_first_forbidden_at(name@, i as int);
            }
            let mut m = to_string("Sheet name '");
            crate::text::push_str(&mut m, name);
            crate::text::push_str(&mut m, "' contains invalid character '");
            push_char(&mut m, c);
            crate::text::push_str(&mut m, "'");
            return Err(Error::InvalidData(m));
        }
        i += 1;
    }
    assert(name@.len() > 0);
    assert(name@.len() <= 31);
    Ok(())
}

} // verus!
