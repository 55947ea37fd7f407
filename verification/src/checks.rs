//! The checks on files: how each is read from its table, and what each finds
//! and asks for, given what was read from the file it checks.
use vstd::prelude::*;

use crate::base::{outcome, CheckDefinitionError, CheckError, CheckResult, CheckResultV};
use crate::checkdef::{
    get_lines_from_check_table, get_marker_from_check_table, get_option_boolean_from_check_table,
    get_option_string_value_from_checktable, get_permissions_from_checktable,
    get_regex_from_checktable, get_table_from_check_table,
    read_tags_from_table, refused, table_item, tags_of, CheckTable,
};
use crate::external::{path_file_name, path_file_name_of, regex_compiles};
use crate::file_check::{
    conclude_new_contents, conclude_remove, file_contents, file_present_plan, file_text,
    lines_absent_contents, lines_absent_text, lines_present_contents, lines_present_text, FixPlan,
};
use crate::entries::{
    add_entries, add_entries_spec, remove_entries, remove_entries_spec, set_values,
    set_values_spec, unset_keys, unset_keys_spec, validate_key_value_regex, validate_spec,
    Entries, RegexOutcome, RegexValidateResult,
};
use crate::node::{entries_view, Format, Node, NodeV};
use crate::text::{blank, from_chars, is_blank, last_index, opt_pair_view, opt_view, slice_vec, to_chars};
use crate::documents::{
    json_value_of, parse_json, parse_toml_table, parse_yaml, toml_document_of, toml_entries, yaml_value_of,
};
use crate::uri::{resolved_path, WritablePath};
use crate::utils::{end_marker_line, lines_text, start_marker_line};

verus! {

/// What every check has: the file that defines it, its tags, and whether it
/// may fix.
pub struct GenericChecker {
    pub file_with_checks: String,
    pub tags: Vec<String>,
    pub fixable: bool,
}

/// The tags (see `tags_of`) and `fixable` (true when missing) of a check;
/// refused when one of them is malformed, the tags first.
pub open spec fn generic_def(table: CheckTable) -> Result<(Seq<Seq<char>>, bool), Seq<char>> {
    match tags_of(table.item("tags"@)) {
        Err(m) => Err(m),
        Ok(t) => match table.item("fixable"@) {
            None => Ok((t, true)),
            Some(NodeV::Bool(b)) => Ok((t, b)),
            Some(_) => Err("fixable"@ + " is not a boolean"@),
        },
    }
}

impl GenericChecker {
    /// The checker holds the file of the checks, the tags and `fixable`.
    pub open spec fn holds(&self, file_with_checks: Seq<char>, tags: Seq<Seq<char>>, fixable: bool) -> bool {
        &&& self.file_with_checks@ == file_with_checks
        &&& self.tags@.map_values(|s: String| s@) == tags
        &&& self.fixable == fixable
    }

    /// Reads the tags and `fixable` of a check (see `generic_def`).
    pub fn from_check_table(file_with_checks: String, table: &CheckTable) -> (r: Result<
        GenericChecker,
        CheckDefinitionError,
    >)
        ensures
            match generic_def(*table) {
                Err(m) => refused(r, m),
                Ok((t, b)) => r matches Ok(g) && g.holds(file_with_checks@, t, b),
            },
    {
        let tags = match read_tags_from_table(table) {
            Ok(t) => t,
            Err(e) => {
                return Err(e);
            },
        };
        let fixable = match get_option_boolean_from_check_table(table, "fixable") {
            Ok(Some(b)) => b,
            Ok(None) => true,
            Err(e) => {
                return Err(e);
            },
        };
        Ok(GenericChecker { file_with_checks, tags, fixable })
    }
}

/// The file of a check and its file type: refused when `file` is missing
/// (`file is not defined`), is no string, or is not a path (`invalid path`),
/// and when `file_type` is no string.
pub open spec fn file_def(
    table: CheckTable,
    home: Option<Seq<char>>,
    cwd: Option<Seq<char>>,
) -> Result<(Seq<char>, Option<Seq<char>>), Seq<char>> {
    match table.item("file"@) {
        None => Err("file is not defined"@),
        Some(NodeV::Str(f)) => match resolved_path(f, home, cwd) {
            None => Err("invalid path"@),
            Some(p) => match table.item("file_type"@) {
                None => Ok((p, None)),
                Some(NodeV::Str(t)) => Ok((p, Some(t))),
                Some(_) => Err("file_type"@ + " is not a string"@),
            },
        },
        Some(_) => Err("file is not a string"@),
    }
}

/// A check on one file: the file, and the file type that overrides the one
/// its extension gives.
pub struct FileCheck {
    pub generic_check: GenericChecker,
    pub file_to_check: WritablePath,
    pub file_type_override: Option<String>,
}

impl FileCheck {
    /// What reading a check of this kind from its table gives (see
    /// `from_check_table`).
    pub open spec fn read_from(
        table: CheckTable,
        checks_file: Seq<char>,
        home: Option<Seq<char>>,
        cwd: Option<Seq<char>>,
        r: Result<Self, CheckDefinitionError>,
    ) -> bool {
        match file_def(table, home, cwd) {
            Err(m) => refused(r, m),
            Ok((p, t)) => r matches Ok(fc) && fc.file_to_check.path@ == p && opt_view(
                fc.file_type_override,
            ) == t,
        }
    }

    /// Reads the file of a check (see `file_def`), with the home and working
    /// directories as they were found.
    pub fn from_check_table(
        generic_check: GenericChecker,
        table: &CheckTable,
        home: Option<String>,
        cwd: Option<String>,
    ) -> (r: Result<FileCheck, CheckDefinitionError>)
        ensures
            Self::read_from(*table, generic_check.file_with_checks@, opt_view(home), opt_view(cwd), r),
            r matches Ok(c) ==> c.generic_check == generic_check,
    {
        let file = match table_item(table, "file") {
            None => {
                return Err(CheckDefinitionError::InvalidDefinition(String::from_str("file is not defined")));
            },
            Some(Node::Str(f)) => match WritablePath::resolve(f.as_str(), home, cwd) {
                Ok(w) => w,
                Err(_) => {
                    return Err(CheckDefinitionError::InvalidDefinition(String::from_str("invalid path")));
                },
            },
            Some(_) => {
                return Err(CheckDefinitionError::InvalidDefinition(String::from_str("file is not a string")));
            },
        };
        let file_type = match get_option_string_value_from_checktable(table, "file_type") {
            Ok(t) => t,
            Err(e) => {
                return Err(e);
            },
        };
        Ok(FileCheck { generic_check, file_to_check: file, file_type_override: file_type })
    }

    /// The file that is checked, as text.
    pub fn check_object(&self) -> (r: String)
        ensures
            r@ == self.file_to_check.path@,
    {
        self.file_to_check.path.clone()
    }
}

/// The format of a file from its extension and the file type that overrides
/// it: `toml`, `json`, `yaml` and `yml`; any other is an unknown file type, as
/// is a file with neither.
pub open spec fn format_of(extension: Option<Seq<char>>, file_type: Option<Seq<char>>) -> Result<
    Format,
    Seq<char>,
> {
    if extension is None && file_type is None {
        Err("No extension found"@)
    } else {
        let e = match file_type {
            Some(t) => t,
            None => extension->Some_0,
        };
        if e == "toml"@ {
            Ok(Format::Toml)
        } else if e == "json"@ {
            Ok(Format::Json)
        } else if e == "yaml"@ || e == "yml"@ {
            Ok(Format::Yaml)
        } else {
            Err(e)
        }
    }
}

/// The format of a file (see `format_of`), as the error `UnknownFileType`
/// when there is none. The extension must be known when a file type is given.
pub fn file_format(extension: Option<String>, file_type: &Option<String>) -> (r: Result<Format, CheckError>)
    requires
        extension is Some || file_type is None,
    ensures
        match format_of(opt_view(extension), opt_view(*file_type)) {
            Ok(f) => r == Ok::<Format, CheckError>(f),
            Err(m) => r matches Err(CheckError::UnknownFileType(x)) && x@ == m,
        },
{
    proof {
        reveal_strlit("toml");
        reveal_strlit("json");
        reveal_strlit("yaml");
        reveal_strlit("yml");
    }
    if extension.is_none() && file_type.is_none() {
        return Err(CheckError::UnknownFileType(String::from_str("No extension found")));
    }
    let e = match file_type {
        Some(t) => t.clone(),
        None => match extension {
            Some(x) => x,
            None => String::new(),
        },
    };
    if e == String::from_str("toml") {
        Ok(Format::Toml)
    } else if e == String::from_str("json") {
        Ok(Format::Json)
    } else if e == String::from_str("yaml") || e == String::from_str("yml") {
        Ok(Format::Yaml)
    } else {
        Err(CheckError::UnknownFileType(e))
    }
}


/// The extension of a file name: what follows its last `.`; none where it
/// holds no `.` or its only `.` comes first (as `std::path::Path::extension`
/// documents it).
pub open spec fn name_extension(name: Seq<char>) -> Option<Seq<char>> {
    match last_index(name, '.') {
        Some(k) => if k > 0 {
            Some(name.skip(k + 1))
        } else {
            None
        },
        None => None,
    }
}

/// The extension of a path: that of its file name (see `path_file_name_of`).
pub open spec fn path_extension_of(path: Seq<char>) -> Option<Seq<char>> {
    match path_file_name_of(path) {
        Some(n) => name_extension(n),
        None => None,
    }
}

/// The extension of a path (see `path_extension_of`).
pub fn path_extension(path: &str) -> (r: Option<String>)
    ensures
        opt_view(r) == path_extension_of(path@),
{
    let name = match path_file_name(path) {
        None => {
            return None;
        },
        Some(n) => n,
    };
    let v = to_chars(name.as_str());
    let mut n = v.len();
    assert(v@.take(n as int) == v@);
    while n > 0 && v[n - 1] != '.'
        invariant
            n <= v.len(),
            last_index(v@, '.') == last_index(v@.take(n as int), '.'),
        decreases n,
    {
        assert(v@.take(n as int).drop_last() == v@.take(n - 1));
        n -= 1;
    }
    if n <= 1 {
        return None;
    }
    assert(v@.take(n as int).last() == '.');
    let r = slice_vec(&v, n, v.len());
    assert(v@.subrange(n as int, v@.len() as int) == v@.skip(n as int));
    Some(from_chars(&r))
}

impl FileCheck {
    /// The format of the checked file (see `format_of`), from the extension of
    /// its path and its file type; `None` when a file type is given for a path
    /// without extension.
    pub fn format(&self) -> (r: Option<Result<Format, CheckError>>)
        ensures
            (path_extension_of(self.file_to_check.path@) is None && self.file_type_override is Some)
                <==> r is None,
            r matches Some(x) ==> match format_of(
                path_extension_of(self.file_to_check.path@),
                opt_view(self.file_type_override),
            ) {
                Ok(f) => x == Ok::<Format, CheckError>(f),
                Err(m) => x matches Err(CheckError::UnknownFileType(e)) && e@ == m,
            },
    {
        let ext = path_extension(self.file_to_check.path.as_str());
        if ext.is_none() && self.file_type_override.is_some() {
            return None;
        }
        Some(file_format(ext, &self.file_type_override))
    }

    /// The format of the checked file (see `format`), the text the check works
    /// on (see `file_text`), and the entries of the document that text holds
    /// (see `document_of_text`).
    pub fn mapping_of(&self, read: Option<String>) -> (r: Option<
        Result<(Format, String, Vec<(String, Node)>), CheckError>,
    >)
        ensures
            (path_extension_of(self.file_to_check.path@) is None && self.file_type_override is Some)
                <==> r is None,
            r matches Some(x) ==> match format_of(
                path_extension_of(self.file_to_check.path@),
                opt_view(self.file_type_override),
            ) {
                Err(m) => x matches Err(CheckError::UnknownFileType(e)) && e@ == m,
                Ok(f) => match document_of_text(f, file_text(opt_view(read))) {
                    Ok(d) => x matches Ok((g, t, es)) && g == f && t@ == file_text(opt_view(read))
                        && entries_view(es@) == d,
                    Err(m) => x matches Err(CheckError::InvalidFileFormat(e)) && e@ == m,
                },
            },
    {
        let format = match self.format() {
            None => {
                return None;
            },
            Some(Err(e)) => {
                return Some(Err(e));
            },
            Some(Ok(f)) => f,
        };
        let text = file_contents(read);
        match parse_document(format, text.as_str()) {
            Ok(doc) => Some(Ok((format, text, doc))),
            Err(e) => Some(Err(e)),
        }
    }
}

/// The entries of a value that is a table; `No object` for another value.
pub open spec fn object_entries(v: Result<NodeV, Seq<char>>) -> Result<Entries, Seq<char>> {
    match v {
        Err(m) => Err(m),
        Ok(NodeV::Table(es, _)) => Ok(es),
        Ok(_) => Err("No object"@),
    }
}

/// The entries of the document a text holds in a format: a TOML document (see
/// `toml_document_of`); a JSON or YAML text that holds an object (see
/// `json_value_of` and `yaml_value_of`), where a text of nothing but white
/// space holds an empty one. Otherwise the parser's message, or `No object`.
pub open spec fn document_of_text(fmt: Format, text: Seq<char>) -> Result<Entries, Seq<char>> {
    match fmt {
        Format::Toml => toml_document_of(text),
        Format::Json => if is_blank(text) {
            Ok(Seq::empty())
        } else {
            object_entries(json_value_of(text))
        },
        Format::Yaml => if is_blank(text) {
            Ok(Seq::empty())
        } else {
            object_entries(yaml_value_of(text))
        },
    }
}

/// Parses the text of a file in its format (see `document_of_text`); a text
/// that holds no such document is an `InvalidFileFormat` error.
pub fn parse_document(fmt: Format, text: &str) -> (r: Result<Vec<(String, Node)>, CheckError>)
    ensures
        match document_of_text(fmt, text@) {
            Ok(d) => r matches Ok(x) && entries_view(x@) == d,
            Err(m) => r matches Err(CheckError::InvalidFileFormat(e)) && e@ == m,
        },
{
    let parsed = match fmt {
        Format::Toml => {
            return match parse_toml_table(text) {
                Ok(t) => Ok(toml_entries(&t)),
                Err(m) => Err(CheckError::InvalidFileFormat(m)),
            };
        },
        Format::Json => {
            if blank(to_chars(text).as_slice()) {
                return Ok(Vec::new());
            }
            parse_json(text)
        },
        Format::Yaml => {
            if blank(to_chars(text).as_slice()) {
                return Ok(Vec::new());
            }
            parse_yaml(text)
        },
    };
    match parsed {
        Err(m) => Err(CheckError::InvalidFileFormat(m)),
        Ok(Node::Table(es, _)) => Ok(es),
        Ok(_) => Err(CheckError::InvalidFileFormat(String::from_str("No object"))),
    }
}

/// The lines, replacement regex and marker lines of a `lines_present` check:
/// refused as the file, the lines, the marker and the regex are refused, in
/// that order, and when both a regex and a marker are given.
pub open spec fn lines_present_def(table: CheckTable) -> Result<
    (Seq<char>, Option<Seq<char>>, Option<(Seq<char>, Seq<char>)>),
    Seq<char>,
> {
    let lines = match table.item("lines"@) {
        None => Err("lines"@ + " is not present in check_table"@),
        Some(NodeV::Str(l)) => Ok(lines_text(l)),
        Some(_) => Err("lines"@ + " is not a string"@),
    };
    let marker = match table.item("marker"@) {
        None => Ok(None),
        Some(NodeV::Str(m)) => Ok(Some((start_marker_line(m), end_marker_line(m)))),
        Some(_) => Err("`marker` is not a string"@),
    };
    let regex = match table.item("replacement_regex"@) {
        None => Ok(None),
        Some(NodeV::Str(p)) => if regex_compiles(p) {
            Ok(Some(p))
        } else {
            Err("__replacement_regex__"@ + " ("@ + crate::checkdef::shown_of(table.shown@, "replacement_regex"@)
                + ") is not a valid regex"@)
        },
        Some(_) => Err("replacement_regex"@ + " ("@ + crate::checkdef::shown_of(
            table.shown@,
            "replacement_regex"@,
        ) + ") is not a string"@),
    };
    match (lines, marker, regex) {
        (Err(e), _, _) => Err(e),
        (Ok(_), Err(e), _) => Err(e),
        (Ok(_), Ok(_), Err(e)) => Err(e),
        (Ok(l), Ok(m), Ok(r)) => if r is Some && m is Some {
            Err("Both `replacement_regex` and `marker` are defined; that is not allowed"@)
        } else {
            Ok((l, r, m))
        },
    }
}

/// A check that lines are in a file: appended, put between markers, or put in
/// place of what a regex matches.
pub struct LinesPresent {
    pub file_check: FileCheck,
    pub lines: String,
    pub replacement_regex: Option<String>,
    pub marker_lines: Option<(String, String)>,
}

impl LinesPresent {
    /// A `lines_present` check holds no regex together with markers, and its
    /// regex compiles.
    pub open spec fn wf(&self) -> bool {
        &&& !(self.replacement_regex is Some && self.marker_lines is Some)
        &&& self.replacement_regex matches Some(p) ==> regex_compiles(p@)
    }

    /// What reading a check of this kind from its table gives (see
    /// `from_check_table`).
    pub open spec fn read_from(
        table: CheckTable,
        checks_file: Seq<char>,
        home: Option<Seq<char>>,
        cwd: Option<Seq<char>>,
        r: Result<Self, CheckDefinitionError>,
    ) -> bool {
        match file_def(table, home, cwd) {
            Err(m) => refused(r, m),
            Ok((p, t)) => match lines_present_def(table) {
                Err(m) => refused(r, m),
                Ok((l, x, m)) => r matches Ok(c) && c.wf() && c.file_check.file_to_check.path@ == p
                    && opt_view(c.file_check.file_type_override) == t && c.lines@ == l && opt_view(
                    c.replacement_regex,
                ) == x && opt_pair_view(c.marker_lines) == m,
            },
        }
    }

    /// Reads a `lines_present` check (see `file_def` and `lines_present_def`).
    pub fn from_check_table(
        generic_check: GenericChecker,
        table: &CheckTable,
        home: Option<String>,
        cwd: Option<String>,
    ) -> (r: Result<LinesPresent, CheckDefinitionError>)
        ensures
            Self::read_from(*table, generic_check.file_with_checks@, opt_view(home), opt_view(cwd), r),
            r matches Ok(c) ==> c.file_check.generic_check == generic_check,
    {
        let file_check = match FileCheck::from_check_table(generic_check, table, home, cwd) {
            Ok(f) => f,
            Err(e) => {
                return Err(e);
            },
        };
        let lines = match get_lines_from_check_table(table, None) {
            Ok(l) => l,
            Err(e) => {
                return Err(e);
            },
        };
        let marker_lines = match get_marker_from_check_table(table) {
            Ok(m) => m,
            Err(e) => {
                return Err(e);
            },
        };
        let replacement_regex = match get_regex_from_checktable(
            table,
            "replacement_regex",
            "__replacement_regex__",
        ) {
            Ok(x) => x,
            Err(e) => {
                return Err(e);
            },
        };
        if replacement_regex.is_some() && marker_lines.is_some() {
            return Err(
                CheckDefinitionError::InvalidDefinition(
                    String::from_str(
                        "Both `replacement_regex` and `marker` are defined; that is not allowed",
                    ),
                ),
            );
        }
        Ok(LinesPresent { file_check, lines, replacement_regex, marker_lines })
    }

    /// Whether the check holds no regex together with markers, and its regex
    /// compiles (see `wf`).
    pub fn is_wf(&self) -> (r: bool)
        ensures
            r == self.wf(),
    {
        if self.replacement_regex.is_some() && self.marker_lines.is_some() {
            return false;
        }
        match &self.replacement_regex {
            None => true,
            Some(p) => crate::external::regex_check(p.as_str()).is_none(),
        }
    }

    /// What the check finds and asks for, given what reading the file gave
    /// (see `file_text`, `lines_present_text` and `conclude_new_contents`).
    pub open spec fn plan_meets(&self, read: Option<Seq<char>>, fix: bool, r: FixPlan) -> bool {
        let old = file_text(read);
        let new = lines_present_text(
            old,
            self.lines@,
            opt_view(self.replacement_regex),
            opt_pair_view(self.marker_lines),
        );
        &&& old == new ==> r.result@ == CheckResultV::NoFixNeeded && r.contents is None
        &&& old != new ==> r.result@ == outcome(true, fix, crate::file_check::contents_message(old, new))
            && (if fix {
            r.contents matches Some(c) && c@ == new
        } else {
            r.contents is None
        })
        &&& r.permissions is None && !r.remove
    }

    /// What the check finds and asks for (see `plan`); `None` when the check
    /// is not well formed.
    pub fn checked_plan(&self, read: Option<String>, fix: bool) -> (r: Option<FixPlan>)
        ensures
            r is Some == self.wf(),
            r matches Some(p) ==> self.plan_meets(opt_view(read), fix, p),
    {
        if self.is_wf() {
            Some(self.plan(read, fix))
        } else {
            None
        }
    }

    /// What the check finds and asks for, given what reading the file gave
    /// (see `file_text`, `lines_present_text` and `conclude_new_contents`).
    pub fn plan(&self, read: Option<String>, fix: bool) -> (r: FixPlan)
        requires
            self.wf(),
        ensures
            self.plan_meets(opt_view(read), fix, r),
    {
        let contents = file_contents(read);
        let new = lines_present_contents(
            contents.as_str(),
            self.lines.as_str(),
            &self.replacement_regex,
            &self.marker_lines,
        );
        conclude_new_contents(contents.as_str(), new, fix)
    }
}


/// The marker lines and lines of a `lines_absent` check: the lines default to
/// nothing when a marker is given.
pub open spec fn lines_absent_def(table: CheckTable) -> Result<
    (Seq<char>, Option<(Seq<char>, Seq<char>)>),
    Seq<char>,
> {
    match table.item("marker"@) {
        Some(NodeV::Str(m)) => match table.item("lines"@) {
            None => Ok((Seq::empty(), Some((start_marker_line(m), end_marker_line(m))))),
            Some(NodeV::Str(l)) => Ok((lines_text(l), Some((start_marker_line(m), end_marker_line(m))))),
            Some(_) => Err("lines"@ + " is not a string"@),
        },
        Some(_) => Err("`marker` is not a string"@),
        None => match table.item("lines"@) {
            None => Err("lines"@ + " is not present in check_table"@),
            Some(NodeV::Str(l)) => Ok((lines_text(l), None)),
            Some(_) => Err("lines"@ + " is not a string"@),
        },
    }
}

/// A check that lines are not in a file, or that the markers and what stands
/// between them are not.
pub struct LinesAbsent {
    pub file_check: FileCheck,
    pub lines: String,
    pub marker_lines: Option<(String, String)>,
}

impl LinesAbsent {
    /// What reading a check of this kind from its table gives (see
    /// `from_check_table`).
    pub open spec fn read_from(
        table: CheckTable,
        checks_file: Seq<char>,
        home: Option<Seq<char>>,
        cwd: Option<Seq<char>>,
        r: Result<Self, CheckDefinitionError>,
    ) -> bool {
        match file_def(table, home, cwd) {
            Err(m) => refused(r, m),
            Ok((p, t)) => match lines_absent_def(table) {
                Err(m) => refused(r, m),
                Ok((l, m)) => r matches Ok(c) && c.file_check.file_to_check.path@ == p && opt_view(
                    c.file_check.file_type_override,
                ) == t && c.lines@ == l && opt_pair_view(c.marker_lines) == m,
            },
        }
    }

    /// Reads a `lines_absent` check (see `file_def` and `lines_absent_def`).
    pub fn from_check_table(
        generic_check: GenericChecker,
        table: &CheckTable,
        home: Option<String>,
        cwd: Option<String>,
    ) -> (r: Result<LinesAbsent, CheckDefinitionError>)
        ensures
            Self::read_from(*table, generic_check.file_with_checks@, opt_view(home), opt_view(cwd), r),
            r matches Ok(c) ==> c.file_check.generic_check == generic_check,
    {
        let file_check = match FileCheck::from_check_table(generic_check, table, home, cwd) {
            Ok(f) => f,
            Err(e) => {
                return Err(e);
            },
        };
        let marker_lines = match get_marker_from_check_table(table) {
            Ok(m) => m,
            Err(e) => {
                return Err(e);
            },
        };
        let default = if marker_lines.is_none() { None } else { Some(String::new()) };
        let lines = match get_lines_from_check_table(table, default) {
            Ok(l) => l,
            Err(e) => {
                return Err(e);
            },
        };
        Ok(LinesAbsent { file_check, lines, marker_lines })
    }

    /// What the check finds and asks for, given what reading the file gave
    /// (see `file_text`, `lines_absent_text` and `conclude_new_contents`).
    pub fn plan(&self, read: Option<String>, fix: bool) -> (r: FixPlan)
        ensures
            ({
                let old = file_text(opt_view(read));
                let new = lines_absent_text(old, self.lines@, opt_pair_view(self.marker_lines));
                &&& old == new ==> r.result@ == CheckResultV::NoFixNeeded && r.contents is None
                &&& old != new ==> r.result@ == outcome(true, fix, crate::file_check::contents_message(old, new))
                    && (if fix {
                    r.contents matches Some(c) && c@ == new
                } else {
                    r.contents is None
                })
                &&& r.permissions is None && !r.remove
            }),
    {
        let contents = file_contents(read);
        let new = lines_absent_contents(contents.as_str(), self.lines.as_str(), &self.marker_lines);
        conclude_new_contents(contents.as_str(), new, fix)
    }
}

/// The permissions, placeholder and regex of a `file_present` check, refused
/// in that order.
pub open spec fn file_present_def(table: CheckTable) -> Result<
    (Option<u32>, Option<Seq<char>>, Option<Seq<char>>),
    Seq<char>,
> {
    let permissions = match table.item("permissions"@) {
        None => Ok(None),
        Some(NodeV::Str(p)) => match crate::file_check::permissions_mode(p) {
            Ok(m) => Ok(Some(m)),
            Err(e) => Err(e),
        },
        Some(_) => Err("permissions"@ + " is not a string"@),
    };
    let placeholder = match table.item("placeholder"@) {
        None => Ok(None),
        Some(NodeV::Str(p)) => Ok(Some(p)),
        Some(_) => Err("placeholder"@ + " is not a string"@),
    };
    let regex = match table.item("regex"@) {
        None => Ok(None),
        Some(NodeV::Str(p)) => if regex_compiles(p) {
            Ok(Some(p))
        } else {
            Err("regex"@ + " ("@ + crate::checkdef::shown_of(table.shown@, "regex"@) + ") is not a valid regex"@)
        },
        Some(_) => Err("regex"@ + " ("@ + crate::checkdef::shown_of(table.shown@, "regex"@) + ") is not a string"@),
    };
    match (permissions, placeholder, regex) {
        (Err(e), _, _) => Err(e),
        (Ok(_), Err(e), _) => Err(e),
        (Ok(_), Ok(_), Err(e)) => Err(e),
        (Ok(a), Ok(b), Ok(c)) => Ok((a, b, c)),
    }
}

/// A check that a file exists, with the wanted permissions, a placeholder to
/// fill it with when it is created, and a regex its contents must match.
pub struct FilePresent {
    pub file_check: FileCheck,
    pub permissions: Option<u32>,
    pub placeholder: Option<String>,
    pub regex: Option<String>,
}

impl FilePresent {
    pub open spec fn wf(&self) -> bool {
        self.regex matches Some(p) ==> regex_compiles(p@)
    }

    /// What reading a check of this kind from its table gives (see
    /// `from_check_table`).
    pub open spec fn read_from(
        table: CheckTable,
        checks_file: Seq<char>,
        home: Option<Seq<char>>,
        cwd: Option<Seq<char>>,
        r: Result<Self, CheckDefinitionError>,
    ) -> bool {
        match file_def(table, home, cwd) {
            Err(m) => refused(r, m),
            Ok((p, t)) => match file_present_def(table) {
                Err(m) => refused(r, m),
                Ok((perm, ph, x)) => r matches Ok(c) && c.wf() && c.file_check.file_to_check.path@ == p
                    && opt_view(c.file_check.file_type_override) == t && c.permissions == perm
                    && opt_view(c.placeholder) == ph && opt_view(c.regex) == x,
            },
        }
    }

    /// Reads a `file_present` check (see `file_def` and `file_present_def`).
    pub fn from_check_table(
        generic_check: GenericChecker,
        table: &CheckTable,
        home: Option<String>,
        cwd: Option<String>,
    ) -> (r: Result<FilePresent, CheckDefinitionError>)
        ensures
            Self::read_from(*table, generic_check.file_with_checks@, opt_view(home), opt_view(cwd), r),
            r matches Ok(c) ==> c.file_check.generic_check == generic_check,
    {
        let file_check = match FileCheck::from_check_table(generic_check, table, home, cwd) {
            Ok(f) => f,
            Err(e) => {
                return Err(e);
            },
        };
        let permissions = match get_permissions_from_checktable(table) {
            Ok(p) => p,
            Err(e) => {
                return Err(e);
            },
        };
        let placeholder = match get_option_string_value_from_checktable(table, "placeholder") {
            Ok(p) => p,
            Err(e) => {
                return Err(e);
            },
        };
        let regex = match get_regex_from_checktable(table, "regex", "regex") {
            Ok(x) => x,
            Err(e) => {
                return Err(e);
            },
        };
        Ok(FilePresent { file_check, permissions, placeholder, regex })
    }

    /// Whether the regex of the check compiles (see `wf`).
    pub fn is_wf(&self) -> (r: bool)
        ensures
            r == self.wf(),
    {
        match &self.regex {
            None => true,
            Some(p) => crate::external::regex_check(p.as_str()).is_none(),
        }
    }

    /// What the check finds and asks for, given whether the file exists, its
    /// mode and what reading it gave (see `file_present_fix_needed` and
    /// `file_present_messages`).
    pub open spec fn plan_meets(
        &self,
        present: bool,
        current: Option<u32>,
        read: Option<Seq<char>>,
        fix: bool,
        r: Result<FixPlan, CheckError>,
    ) -> bool {
        &&& (self.permissions is Some && present && current is None) <==> r == Err::<FixPlan, CheckError>(
            CheckError::PermissionsNotAccessable,
        )
        &&& !(self.permissions is Some && present && current is None) ==> r is Ok
        &&& r matches Ok(plan) ==> {
                let needed = crate::file_check::file_present_fix_needed(
                    present,
                    self.permissions,
                    current,
                    opt_view(self.regex),
                    read,
                );
                &&& plan.result@ == outcome(
                    needed,
                    fix,
                    crate::text::joined(
                        crate::file_check::file_present_messages(
                            present,
                            opt_view(self.placeholder),
                            self.permissions,
                            current,
                            opt_view(self.regex),
                            read,
                        ),
                        "\n"@,
                    ),
                )
                &&& (needed && fix) ==> (plan.contents matches Some(c) && c@ == (if !present
                    && self.placeholder is Some {
                    self.placeholder->Some_0@
                } else {
                    Seq::empty()
                }))
                &&& !(needed && fix) ==> plan.contents is None
                &&& plan.permissions == (if needed && fix && crate::file_check::fix_permissions(
                    present,
                    self.permissions,
                    current,
                ) {
                    self.permissions
                } else {
                    None
                })
                &&& !plan.remove
            }
    }

    /// What the check finds and asks for (see `plan`); `None` when its regex
    /// does not compile.
    pub fn checked_plan(&self, present: bool, current: Option<u32>, read: Option<String>, fix: bool) -> (r:
        Option<Result<FixPlan, CheckError>>)
        ensures
            r is Some == self.wf(),
            r matches Some(x) ==> self.plan_meets(present, current, opt_view(read), fix, x),
    {
        if self.is_wf() {
            Some(self.plan(present, current, read, fix))
        } else {
            None
        }
    }

    /// What the check finds and asks for (see `file_present_plan`), given
    /// whether the file exists, its mode and what reading it gave.
    pub fn plan(&self, present: bool, current: Option<u32>, read: Option<String>, fix: bool) -> (r: Result<
        FixPlan,
        CheckError,
    >)
        requires
            self.wf(),
        ensures
            self.plan_meets(present, current, opt_view(read), fix, r),
    {
        file_present_plan(present, &self.placeholder, self.permissions, current, &self.regex, read, fix)
    }
}

/// A check that a file does not exist.
pub struct FileAbsent {
    pub file_check: FileCheck,
}

impl FileAbsent {
    /// What reading a check of this kind from its table gives (see
    /// `from_check_table`).
    pub open spec fn read_from(
        table: CheckTable,
        checks_file: Seq<char>,
        home: Option<Seq<char>>,
        cwd: Option<Seq<char>>,
        r: Result<Self, CheckDefinitionError>,
    ) -> bool {
        match file_def(table, home, cwd) {
            Err(m) => refused(r, m),
            Ok((p, t)) => r matches Ok(c) && c.file_check.file_to_check.path@ == p && opt_view(
                c.file_check.file_type_override,
            ) == t,
        }
    }

    /// Reads a `file_absent` check (see `file_def`).
    pub fn from_check_table(
        generic_check: GenericChecker,
        table: &CheckTable,
        home: Option<String>,
        cwd: Option<String>,
    ) -> (r: Result<FileAbsent, CheckDefinitionError>)
        ensures
            Self::read_from(*table, generic_check.file_with_checks@, opt_view(home), opt_view(cwd), r),
            r matches Ok(c) ==> c.file_check.generic_check == generic_check,
    {
        match FileCheck::from_check_table(generic_check, table, home, cwd) {
            Ok(file_check) => Ok(FileAbsent { file_check }),
            Err(e) => Err(e),
        }
    }

    /// What the check finds and asks for: the file removed when it exists (see
    /// `conclude_remove`).
    pub fn plan(&self, present: bool, fix: bool) -> (r: FixPlan)
        ensures
            r.result@ == outcome(present, fix, "remove file"@),
            r.remove == (present && fix),
            r.contents is None,
            r.permissions is None,
    {
        conclude_remove(present, fix)
    }
}


/// The (not inline) table at the key of a check: refused when the key is
/// missing or holds something else.
pub open spec fn table_def(table: CheckTable, key: Seq<char>) -> Result<Entries, Seq<char>> {
    match table.item(key) {
        None => Err("`"@ + key + "` key is not present"@),
        Some(NodeV::Table(t, false)) => Ok(t),
        Some(_) => Err("`"@ + key + "` is not a table"@),
    }
}

/// Reads the file of a check and the table at `key` (see `file_def` and
/// `table_def`).
fn file_and_table(
    generic_check: GenericChecker,
    table: &CheckTable,
    key: &str,
    home: Option<String>,
    cwd: Option<String>,
) -> (r: Result<(FileCheck, Vec<(String, Node)>), CheckDefinitionError>)
    ensures
        match file_def(*table, opt_view(home), opt_view(cwd)) {
            Err(m) => refused(r, m),
            Ok((p, t)) => match table_def(*table, key@) {
                Err(m) => refused(r, m),
                Ok(e) => r matches Ok((c, x)) && c.file_to_check.path@ == p && opt_view(
                    c.file_type_override,
                ) == t && entries_view(x@) == e,
            },
        },
        r matches Ok((c, _)) ==> c.generic_check == generic_check,
{
    let file_check = match FileCheck::from_check_table(generic_check, table, home, cwd) {
        Ok(f) => f,
        Err(e) => {
            return Err(e);
        },
    };
    match get_table_from_check_table(table, key) {
        Ok(t) => Ok((file_check, t)),
        Err(e) => Err(e),
    }
}

/// A check that entries are in arrays and tables of a document.
pub struct EntryPresent {
    pub file_check: FileCheck,
    pub present: Vec<(String, Node)>,
}

impl EntryPresent {
    /// What reading a check of this kind from its table gives (see
    /// `from_check_table`).
    pub open spec fn read_from(
        table: CheckTable,
        checks_file: Seq<char>,
        home: Option<Seq<char>>,
        cwd: Option<Seq<char>>,
        r: Result<Self, CheckDefinitionError>,
    ) -> bool {
        match file_def(table, home, cwd) {
            Err(m) => refused(r, m),
            Ok((p, t)) => match table_def(table, "entry"@) {
                Err(m) => refused(r, m),
                Ok(e) => r matches Ok(c) && c.file_check.file_to_check.path@ == p && opt_view(
                    c.file_check.file_type_override,
                ) == t && entries_view(c.present@) == e,
            },
        }
    }

    /// Reads an `entry_present` check: its file and the table `entry`.
    pub fn from_check_table(
        generic_check: GenericChecker,
        table: &CheckTable,
        home: Option<String>,
        cwd: Option<String>,
    ) -> (r: Result<EntryPresent, CheckDefinitionError>)
        ensures
            Self::read_from(*table, generic_check.file_with_checks@, opt_view(home), opt_view(cwd), r),
            r matches Ok(c) ==> c.file_check.generic_check == generic_check,
    {
        match file_and_table(generic_check, table, "entry", home, cwd) {
            Ok((file_check, present)) => Ok(EntryPresent { file_check, present }),
            Err(e) => Err(e),
        }
    }

    /// The document with the entries added (see `add_entries_spec`).
    pub fn apply(&self, fmt: Format, doc: &Vec<(String, Node)>) -> (r: Option<Vec<(String, Node)>>)
        ensures
            match add_entries_spec(fmt, entries_view(doc@), false, entries_view(self.present@)) {
                None => r is None,
                Some(d) => r matches Some(x) && entries_view(x@) == d,
            },
    {
        add_entries(fmt, doc, false, &self.present)
    }
}

/// A check that entries are not in arrays and tables of a document.
pub struct EntryAbsent {
    pub file_check: FileCheck,
    pub absent: Vec<(String, Node)>,
}

impl EntryAbsent {
    /// What reading a check of this kind from its table gives (see
    /// `from_check_table`).
    pub open spec fn read_from(
        table: CheckTable,
        checks_file: Seq<char>,
        home: Option<Seq<char>>,
        cwd: Option<Seq<char>>,
        r: Result<Self, CheckDefinitionError>,
    ) -> bool {
        match file_def(table, home, cwd) {
            Err(m) => refused(r, m),
            Ok((p, t)) => match table_def(table, "entry"@) {
                Err(m) => refused(r, m),
                Ok(e) => r matches Ok(c) && c.file_check.file_to_check.path@ == p && opt_view(
                    c.file_check.file_type_override,
                ) == t && entries_view(c.absent@) == e,
            },
        }
    }

    /// Reads an `entry_absent` check: its file and the table `entry`.
    pub fn from_check_table(
        generic_check: GenericChecker,
        table: &CheckTable,
        home: Option<String>,
        cwd: Option<String>,
    ) -> (r: Result<EntryAbsent, CheckDefinitionError>)
        ensures
            Self::read_from(*table, generic_check.file_with_checks@, opt_view(home), opt_view(cwd), r),
            r matches Ok(c) ==> c.file_check.generic_check == generic_check,
    {
        match file_and_table(generic_check, table, "entry", home, cwd) {
            Ok((file_check, absent)) => Ok(EntryAbsent { file_check, absent }),
            Err(e) => Err(e),
        }
    }

    /// The document with the entries removed (see `remove_entries_spec`).
    pub fn apply(&self, fmt: Format, doc: &Vec<(String, Node)>) -> (r: Option<Vec<(String, Node)>>)
        ensures
            match remove_entries_spec(fmt, entries_view(doc@), false, entries_view(self.absent@)) {
                None => r is None,
                Some(d) => r matches Some(x) && entries_view(x@) == d,
            },
    {
        remove_entries(fmt, doc, false, &self.absent)
    }
}

/// A check that keys are not in a document.
pub struct KeyAbsent {
    pub file_check: FileCheck,
    pub value: Vec<(String, Node)>,
}

impl KeyAbsent {
    /// What reading a check of this kind from its table gives (see
    /// `from_check_table`).
    pub open spec fn read_from(
        table: CheckTable,
        checks_file: Seq<char>,
        home: Option<Seq<char>>,
        cwd: Option<Seq<char>>,
        r: Result<Self, CheckDefinitionError>,
    ) -> bool {
        match file_def(table, home, cwd) {
            Err(m) => refused(r, m),
            Ok((p, t)) => match table_def(table, "key"@) {
                Err(m) => refused(r, m),
                Ok(e) => r matches Ok(c) && c.file_check.file_to_check.path@ == p && opt_view(
                    c.file_check.file_type_override,
                ) == t && entries_view(c.value@) == e,
            },
        }
    }

    /// Reads a `key_absent` check: its file and the table `key`.
    pub fn from_check_table(
        generic_check: GenericChecker,
        table: &CheckTable,
        home: Option<String>,
        cwd: Option<String>,
    ) -> (r: Result<KeyAbsent, CheckDefinitionError>)
        ensures
            Self::read_from(*table, generic_check.file_with_checks@, opt_view(home), opt_view(cwd), r),
            r matches Ok(c) ==> c.file_check.generic_check == generic_check,
    {
        match file_and_table(generic_check, table, "key", home, cwd) {
            Ok((file_check, value)) => Ok(KeyAbsent { file_check, value }),
            Err(e) => Err(e),
        }
    }

    /// The document with the keys removed (see `unset_keys_spec`).
    pub fn apply(&self, fmt: Format, doc: &Vec<(String, Node)>) -> (r: Vec<(String, Node)>)
        ensures
            entries_view(r@) == unset_keys_spec(fmt, entries_view(doc@), false, entries_view(self.value@)),
    {
        unset_keys(fmt, doc, false, &self.value)
    }
}

/// A check that keys of a document hold values.
pub struct KeyValuePresent {
    pub file_check: FileCheck,
    pub value: Vec<(String, Node)>,
}

impl KeyValuePresent {
    /// What reading a check of this kind from its table gives (see
    /// `from_check_table`).
    pub open spec fn read_from(
        table: CheckTable,
        checks_file: Seq<char>,
        home: Option<Seq<char>>,
        cwd: Option<Seq<char>>,
        r: Result<Self, CheckDefinitionError>,
    ) -> bool {
        match file_def(table, home, cwd) {
            Err(m) => refused(r, m),
            Ok((p, t)) => match table_def(table, "key"@) {
                Err(m) => refused(r, m),
                Ok(e) => r matches Ok(c) && c.file_check.file_to_check.path@ == p && opt_view(
                    c.file_check.file_type_override,
                ) == t && entries_view(c.value@) == e,
            },
        }
    }

    /// Reads a `key_value_present` check: its file and the table `key`.
    pub fn from_check_table(
        generic_check: GenericChecker,
        table: &CheckTable,
        home: Option<String>,
        cwd: Option<String>,
    ) -> (r: Result<KeyValuePresent, CheckDefinitionError>)
        ensures
            Self::read_from(*table, generic_check.file_with_checks@, opt_view(home), opt_view(cwd), r),
            r matches Ok(c) ==> c.file_check.generic_check == generic_check,
    {
        match file_and_table(generic_check, table, "key", home, cwd) {
            Ok((file_check, value)) => Ok(KeyValuePresent { file_check, value }),
            Err(e) => Err(e),
        }
    }

    /// The document with the values set (see `set_values_spec`).
    pub fn apply(&self, fmt: Format, doc: &Vec<(String, Node)>) -> (r: Option<Vec<(String, Node)>>)
        ensures
            match set_values_spec(fmt, entries_view(doc@), false, entries_view(self.value@)) {
                None => r is None,
                Some(d) => r matches Some(x) && entries_view(x@) == d,
            },
    {
        set_values(fmt, doc, false, &self.value)
    }
}

/// A check that strings of a document match regexes, with a placeholder to
/// set where a string is missing.
pub struct EntryRegexMatch {
    pub file_check: FileCheck,
    pub key_regex: Vec<(String, Node)>,
    pub placeholder: Option<String>,
}

/// The message of a `key_value_regex_matched` check that found a mismatch.
pub open spec fn regex_message(placeholder: Option<Seq<char>>) -> Seq<char> {
    match placeholder {
        None => "content of key does not match regex"@,
        Some(p) => "content of key does not match regex (setting placeholder to "@ + p + ")"@,
    }
}

impl EntryRegexMatch {
    pub fn new(file_check: FileCheck, key_regex: Vec<(String, Node)>, placeholder: Option<String>) -> (r:
        EntryRegexMatch)
        ensures
            r.file_check == file_check,
            r.key_regex == key_regex,
            r.placeholder == placeholder,
    {
        EntryRegexMatch { file_check, key_regex, placeholder }
    }

    /// What reading a check of this kind from its table gives (see
    /// `from_check_table`).
    pub open spec fn read_from(
        table: CheckTable,
        checks_file: Seq<char>,
        home: Option<Seq<char>>,
        cwd: Option<Seq<char>>,
        r: Result<Self, CheckDefinitionError>,
    ) -> bool {
        match file_def(table, home, cwd) {
            Err(m) => refused(r, m),
            Ok((p, t)) => match table_def(table, "key"@) {
                Err(m) => refused(r, m),
                Ok(e) => match table.item("placeholder"@) {
                    None => r matches Ok(c) && c.file_check.file_to_check.path@ == p && opt_view(
                        c.file_check.file_type_override,
                    ) == t && entries_view(c.key_regex@) == e && c.placeholder is None,
                    Some(NodeV::Str(ph)) => r matches Ok(c) && c.file_check.file_to_check.path@ == p
                        && opt_view(c.file_check.file_type_override) == t && entries_view(
                        c.key_regex@,
                    ) == e && opt_view(c.placeholder) == Some(ph),
                    Some(_) => refused(r, "placeholder"@ + " is not a string"@),
                },
            },
        }
    }

    /// Reads a `key_value_regex_matched` check: its file, the table `key` and
    /// the optional `placeholder`.
    pub fn from_check_table(
        generic_check: GenericChecker,
        table: &CheckTable,
        home: Option<String>,
        cwd: Option<String>,
    ) -> (r: Result<EntryRegexMatch, CheckDefinitionError>)
        ensures
            Self::read_from(*table, generic_check.file_with_checks@, opt_view(home), opt_view(cwd), r),
            r matches Ok(c) ==> c.file_check.generic_check == generic_check,
    {
        let (file_check, key_regex) = match file_and_table(generic_check, table, "key", home, cwd) {
            Ok(x) => x,
            Err(e) => {
                return Err(e);
            },
        };
        match get_option_string_value_from_checktable(table, "placeholder") {
            Ok(placeholder) => Ok(EntryRegexMatch { file_check, key_regex, placeholder }),
            Err(e) => Err(e),
        }
    }

    /// What the check finds in a document: nothing to fix when every regex
    /// matches (see `validate_spec`); otherwise a fix is needed, and it is
    /// executed only when fixing with a placeholder, which gives the document
    /// to write. A regex that does not compile is `InvalidRegex`.
    pub fn decide(&self, fmt: Format, doc: &Vec<(String, Node)>, fix: bool) -> (r: Result<
        (CheckResult, Option<Vec<(String, Node)>>),
        CheckError,
    >)
        ensures
            ({
                let (o, d) = validate_spec(
                    fmt,
                    entries_view(doc@),
                    false,
                    entries_view(self.key_regex@),
                    Seq::empty(),
                    opt_view(self.placeholder),
                );
                match o {
                    RegexOutcome::BadRegex(_) => r matches Err(CheckError::InvalidRegex(m)) && m@
                        == "invalid regex format"@,
                    RegexOutcome::Valid => r matches Ok((res, w)) && res@ == CheckResultV::NoFixNeeded
                        && w is None,
                    RegexOutcome::Invalid(_, _, _) => r matches Ok((res, w)) && if fix
                        && self.placeholder is Some {
                        res@ == CheckResultV::FixExecuted(regex_message(opt_view(self.placeholder)))
                            && (w matches Some(x) && entries_view(x@) == d)
                    } else {
                        res@ == CheckResultV::FixNeeded(regex_message(opt_view(self.placeholder)))
                            && w is None
                    },
                }
            }),
    {
        proof {
            reveal_strlit("");
            assert(""@ =~= Seq::<char>::empty());
        }
        let (o, d) = validate_key_value_regex(fmt, doc, false, &self.key_regex, "", &self.placeholder);
        match o {
            Err(_) => Err(CheckError::InvalidRegex(String::from_str("invalid regex format"))),
            Ok(RegexValidateResult::Valid) => Ok((CheckResult::NoFixNeeded, None)),
            Ok(RegexValidateResult::Invalid { .. }) => {
                let message = match &self.placeholder {
                    None => String::from_str("content of key does not match regex"),
                    Some(p) => {
                        let a = crate::text::concat(
                            "content of key does not match regex (setting placeholder to ",
                            p.as_str(),
                        );
                        crate::text::concat(a.as_str(), ")")
                    },
                };
                if fix && self.placeholder.is_some() {
                    Ok((CheckResult::FixExecuted(message), Some(d)))
                } else {
                    Ok((CheckResult::FixNeeded(message), None))
                }
            },
        }
    }
}

} // verus!
