//! Reading the table that defines a check: its tags, whether it may fix, the
//! file it checks, and the options that the kinds of checks share.
use vstd::prelude::*;

use crate::base::CheckDefinitionError;
use crate::entries::Entries;
use crate::file_check::{parse_permissions, permissions_mode};
use crate::node::{entries_view, get_value, key_index, Node, NodeV};
use crate::external::{regex_check, regex_compiles};
use crate::text::concat;
use crate::utils::{end_marker_line, lines_text, marker_lines, normalize_lines, start_marker_line};

verus! {

/// The table that defines a check: its entries, and for each key the text of
/// its value as the check file writes it (used in messages).
pub struct CheckTable {
    pub entries: Vec<(String, Node)>,
    pub shown: Vec<(String, String)>,
}

impl CheckTable {
    pub open spec fn view_entries(&self) -> Entries {
        entries_view(self.entries@)
    }

    /// The value at the key.
    pub open spec fn item(&self, key: Seq<char>) -> Option<NodeV> {
        get_value(self.view_entries(), key)
    }
}

/// The definition is refused with the message.
pub open spec fn refused<T>(r: Result<T, CheckDefinitionError>, msg: Seq<char>) -> bool {
    r matches Err(CheckDefinitionError::InvalidDefinition(m)) && m@ == msg
}

/// The value at the key of a check table.
pub fn table_item<'a>(table: &'a CheckTable, key: &str) -> (r: Option<&'a Node>)
    ensures
        match table.item(key@) {
            None => r is None,
            Some(v) => r matches Some(n) && n@ == v,
        },
{
    match key_index(&table.entries, key) {
        None => None,
        Some(i) => Some(&table.entries[i].1),
    }
}

/// The text shown for the value of a key: the first text given for it, or the
/// key itself when none was given.
pub open spec fn shown_of(shown: Seq<(String, String)>, key: Seq<char>) -> Seq<char>
    decreases shown.len(),
{
    if shown.len() == 0 {
        key
    } else if shown[0].0@ == key {
        shown[0].1@
    } else {
        shown_of(shown.skip(1), key)
    }
}

/// The text of the value at the key as the check file writes it (see
/// `shown_of`).
pub fn shown_text(table: &CheckTable, key: &str) -> (r: String)
    ensures
        r@ == shown_of(table.shown@, key@),
{
    let k = String::from_str(key);
    let mut i: usize = 0;
    assert(table.shown@.skip(0) == table.shown@);
    while i < table.shown.len()
        invariant
            i <= table.shown.len(),
            k@ == key@,
            shown_of(table.shown@, key@) == shown_of(table.shown@.skip(i as int), key@),
        decreases table.shown.len() - i,
    {
        assert(table.shown@.skip(i as int).skip(1) == table.shown@.skip(i + 1));
        if table.shown[i].0 == k {
            return table.shown[i].1.clone();
        }
        i += 1;
    }
    k
}

/// The tags of a check: none when `tags` is missing; refused when it is not an
/// array of strings.
pub open spec fn tags_of(item: Option<NodeV>) -> Result<Seq<Seq<char>>, Seq<char>> {
    match item {
        None => Ok(Seq::empty()),
        Some(NodeV::Array(items)) => if forall|i: int| 0 <= i < items.len() ==> #[trigger] items[i] is Str {
            Ok(Seq::new(items.len(), |i: int| items[i]->Str_0))
        } else {
            Err("`tags` contains a value which is not a string"@)
        },
        Some(_) => Err("`tags` is not an array"@),
    }
}

/// Reads the tags of a check (see `tags_of`).
pub fn read_tags_from_table(table: &CheckTable) -> (r: Result<Vec<String>, CheckDefinitionError>)
    ensures
        match tags_of(table.item("tags"@)) {
            Ok(t) => r matches Ok(v) && v@.map_values(|s: String| s@) == t,
            Err(m) => refused(r, m),
        },
{
    match table_item(table, "tags") {
        None => {
            let v: Vec<String> = Vec::new();
            assert(v@.map_values(|s: String| s@) =~= Seq::empty());
            Ok(v)
        },
        Some(Node::Array(items)) => {
            let ghost nv = crate::node::nodes_view(items@);
            let mut tags: Vec<String> = Vec::new();
            let mut i: usize = 0;
            while i < items.len()
                invariant
                    i <= items.len(),
                    nv == crate::node::nodes_view(items@),
                    table.item("tags"@) == Some(NodeV::Array(nv)),
                    forall|j: int| 0 <= j < i ==> #[trigger] nv[j] is Str,
                    tags@.len() == i,
                    forall|j: int| 0 <= j < i ==> #[trigger] tags@[j]@ == nv[j]->Str_0,
                decreases items.len() - i,
            {
                match &items[i] {
                    Node::Str(s) => {
                        tags.push(s.clone());
                    },
                    _ => {
                        assert(!(nv[i as int] is Str));
                        return Err(CheckDefinitionError::InvalidDefinition(String::from_str("`tags` contains a value which is not a string")));
                    },
                }
                i += 1;
            }
            assert(tags@.map_values(|s: String| s@) =~= Seq::new(nv.len(), |j: int| nv[j]->Str_0));
            Ok(tags)
        },
        Some(_) => Err(CheckDefinitionError::InvalidDefinition(String::from_str("`tags` is not an array"))),
    }
}

/// An optional boolean of a check: refused (`{key} is not a boolean`) when it
/// is there and is no boolean.
pub fn get_option_boolean_from_check_table(table: &CheckTable, key: &str) -> (r: Result<
    Option<bool>,
    CheckDefinitionError,
>)
    ensures
        match table.item(key@) {
            None => r == Ok::<Option<bool>, CheckDefinitionError>(None),
            Some(NodeV::Bool(b)) => r == Ok::<Option<bool>, CheckDefinitionError>(Some(b)),
            Some(_) => refused(r, key@ + " is not a boolean"@),
        },
{
    match table_item(table, key) {
        None => Ok(None),
        Some(Node::Bool(b)) => Ok(Some(*b)),
        Some(_) => Err(CheckDefinitionError::InvalidDefinition(concat(key, " is not a boolean"))),
    }
}

/// An optional string of a check: refused (`{key} is not a string`) when it is
/// there and is no string.
pub fn get_option_string_value_from_checktable(table: &CheckTable, key: &str) -> (r: Result<
    Option<String>,
    CheckDefinitionError,
>)
    ensures
        match table.item(key@) {
            None => r == Ok::<Option<String>, CheckDefinitionError>(None),
            Some(NodeV::Str(s)) => r matches Ok(Some(x)) && x@ == s,
            Some(_) => refused(r, key@ + " is not a string"@),
        },
{
    match table_item(table, key) {
        None => Ok(None),
        Some(Node::Str(s)) => Ok(Some(s.clone())),
        Some(_) => Err(CheckDefinitionError::InvalidDefinition(concat(key, " is not a string"))),
    }
}

/// A string of a check that must be there: refused (`{key} is not present in
/// check_table`) when it is missing, and when it is no string.
pub fn get_string_value_from_checktable(table: &CheckTable, key: &str) -> (r: Result<
    String,
    CheckDefinitionError,
>)
    ensures
        match table.item(key@) {
            None => refused(r, key@ + " is not present in check_table"@),
            Some(NodeV::Str(s)) => r matches Ok(x) && x@ == s,
            Some(_) => refused(r, key@ + " is not a string"@),
        },
{
    match get_option_string_value_from_checktable(table, key) {
        Ok(Some(v)) => Ok(v),
        Ok(None) => Err(CheckDefinitionError::InvalidDefinition(concat(key, " is not present in check_table"))),
        Err(e) => Err(e),
    }
}

/// The marker lines of a check (see `start_marker_line`), when it has a
/// `marker`; refused when the marker is no string.
pub fn get_marker_from_check_table(table: &CheckTable) -> (r: Result<
    Option<(String, String)>,
    CheckDefinitionError,
>)
    ensures
        match table.item("marker"@) {
            None => r == Ok::<Option<(String, String)>, CheckDefinitionError>(None),
            Some(NodeV::Str(m)) => r matches Ok(Some((s, e))) && s@ == start_marker_line(m)
                && e@ == end_marker_line(m),
            Some(_) => refused(r, "`marker` is not a string"@),
        },
{
    match table_item(table, "marker") {
        None => Ok(None),
        Some(Node::Str(m)) => Ok(Some(marker_lines(m.as_str()))),
        Some(_) => Err(CheckDefinitionError::InvalidDefinition(String::from_str("`marker` is not a string"))),
    }
}

/// The lines of a check, ending with a newline when they are not empty (see
/// `lines_text`); the default when `lines` is missing, and refused when there
/// is no default either.
pub fn get_lines_from_check_table(table: &CheckTable, default_value: Option<String>) -> (r: Result<
    String,
    CheckDefinitionError,
>)
    ensures
        match table.item("lines"@) {
            None => match default_value {
                Some(d) => r matches Ok(x) && x@ == d@,
                None => refused(r, "lines"@ + " is not present in check_table"@),
            },
            Some(NodeV::Str(l)) => r matches Ok(x) && x@ == lines_text(l),
            Some(_) => refused(r, "lines"@ + " is not a string"@),
        },
{
    match get_option_string_value_from_checktable(table, "lines") {
        Ok(None) => match default_value {
            Some(d) => Ok(d),
            None => Err(CheckDefinitionError::InvalidDefinition(concat("lines", " is not present in check_table"))),
        },
        Ok(Some(lines)) => Ok(normalize_lines(lines.as_str())),
        Err(e) => Err(e),
    }
}

/// The permissions of a check, as a mode (see `permissions_mode`); refused when
/// they are no string or no mode.
pub fn get_permissions_from_checktable(table: &CheckTable) -> (r: Result<
    Option<u32>,
    CheckDefinitionError,
>)
    ensures
        match table.item("permissions"@) {
            None => r == Ok::<Option<u32>, CheckDefinitionError>(None),
            Some(NodeV::Str(p)) => match permissions_mode(p) {
                Ok(m) => r == Ok::<Option<u32>, CheckDefinitionError>(Some(m)),
                Err(e) => refused(r, e),
            },
            Some(_) => refused(r, "permissions"@ + " is not a string"@),
        },
{
    match table_item(table, "permissions") {
        None => Ok(None),
        Some(Node::Str(p)) => match parse_permissions(p.as_str()) {
            Ok(m) => Ok(Some(m)),
            Err(e) => Err(CheckDefinitionError::InvalidDefinition(e)),
        },
        Some(_) => Err(CheckDefinitionError::InvalidDefinition(concat("permissions", " is not a string"))),
    }
}

/// The (not inline) table at the key of a check: refused when the key is
/// missing (`` `{key}` key is not present ``) or holds something else
/// (`` `{key}` is not a table ``).
pub fn get_table_from_check_table(table: &CheckTable, key: &str) -> (r: Result<
    Vec<(String, Node)>,
    CheckDefinitionError,
>)
    ensures
        match table.item(key@) {
            None => refused(r, "`"@ + key@ + "` key is not present"@),
            Some(NodeV::Table(t, false)) => r matches Ok(x) && entries_view(x@) == t,
            Some(_) => refused(r, "`"@ + key@ + "` is not a table"@),
        },
{
    let quoted = concat("`", key);
    match table_item(table, key) {
        None => Err(CheckDefinitionError::InvalidDefinition(concat(quoted.as_str(), "` key is not present"))),
        Some(Node::Table(t, inline)) => {
            if *inline {
                Err(CheckDefinitionError::InvalidDefinition(concat(quoted.as_str(), "` is not a table")))
            } else {
                Ok(crate::node::clone_entries(t))
            }
        },
        Some(_) => Err(CheckDefinitionError::InvalidDefinition(concat(quoted.as_str(), "` is not a table"))),
    }
}


/// A regex of a check, at `key`: refused when it is no string (`{key}
/// ({shown}) is not a string`) or does not compile (`{label} ({shown}) is not
/// a valid regex`).
pub fn get_regex_from_checktable(table: &CheckTable, key: &str, label: &str) -> (r: Result<
    Option<String>,
    CheckDefinitionError,
>)
    ensures
        match table.item(key@) {
            None => r == Ok::<Option<String>, CheckDefinitionError>(None),
            Some(NodeV::Str(p)) => if regex_compiles(p) {
                r matches Ok(Some(x)) && x@ == p
            } else {
                refused(r, label@ + " ("@ + shown_of(table.shown@, key@) + ") is not a valid regex"@)
            },
            Some(_) => refused(r, key@ + " ("@ + shown_of(table.shown@, key@) + ") is not a string"@),
        },
{
    match table_item(table, key) {
        None => Ok(None),
        Some(Node::Str(p)) => match regex_check(p.as_str()) {
            None => Ok(Some(p.clone())),
            Some(_) => {
                let shown = shown_text(table, key);
                let a = concat(label, " (");
                let b = concat(a.as_str(), shown.as_str());
                Err(CheckDefinitionError::InvalidDefinition(concat(b.as_str(), ") is not a valid regex")))
            },
        },
        Some(_) => {
            let shown = shown_text(table, key);
            let a = concat(key, " (");
            let b = concat(a.as_str(), shown.as_str());
            Err(CheckDefinitionError::InvalidDefinition(concat(b.as_str(), ") is not a string")))
        },
    }
}

} // verus!
