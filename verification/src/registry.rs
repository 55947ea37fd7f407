//! The checks of a check file: where they stand in it, which files it
//! includes, and which kind of check each table defines.
use vstd::prelude::*;

use crate::base::CheckDefinitionError;
use crate::checkdef::{refused, CheckTable};
use crate::checks::{
    generic_def, EntryAbsent, EntryPresent, EntryRegexMatch, FileAbsent, FilePresent, GenericChecker,
    KeyAbsent, KeyValuePresent, LinesAbsent, LinesPresent,
};
use crate::text::opt_view;
use crate::entries::Entries;
use crate::fs_checks::{FileCopied, FileUnpacked, GitFetched};
use crate::node::{entries_view, get_value, key_index, nodes_view, Node, NodeV};
use crate::documents::{parse_toml_table, toml_array_table, toml_child_table, toml_document_of, toml_entries, toml_shown};

verus! {

/// A check of any kind.
pub enum Checker {
    EntryAbsent(EntryAbsent),
    EntryPresent(EntryPresent),
    FileAbsent(FileAbsent),
    FilePresent(FilePresent),
    FileCopied(FileCopied),
    FileUnpacked(FileUnpacked),
    LinesAbsent(LinesAbsent),
    LinesPresent(LinesPresent),
    KeyValuePresent(KeyValuePresent),
    KeyAbsent(KeyAbsent),
    KeyValueRegexMatched(EntryRegexMatch),
    GitFetched(GitFetched),
}

/// The kinds of checks, by the names a check file gives them.
pub open spec fn known_check_type(t: Seq<char>) -> bool {
    t == "entry_absent"@ || t == "entry_present"@ || t == "file_absent"@ || t == "file_present"@ || t
        == "file_copied"@ || t == "file_unpacked"@ || t == "lines_absent"@ || t == "lines_present"@ || t
        == "key_value_present"@ || t == "key_absent"@ || t == "key_value_regex_matched"@ || t
        == "git_fetched"@
}

impl Checker {
    /// The name of the kind of the check.
    pub open spec fn spec_type(&self) -> Seq<char> {
        match self {
            Checker::EntryAbsent(_) => "entry_absent"@,
            Checker::EntryPresent(_) => "entry_present"@,
            Checker::FileAbsent(_) => "file_absent"@,
            Checker::FilePresent(_) => "file_present"@,
            Checker::FileCopied(_) => "file_copied"@,
            Checker::FileUnpacked(_) => "file_unpacked"@,
            Checker::LinesAbsent(_) => "lines_absent"@,
            Checker::LinesPresent(_) => "lines_present"@,
            Checker::KeyValuePresent(_) => "key_value_present"@,
            Checker::KeyAbsent(_) => "key_absent"@,
            Checker::KeyValueRegexMatched(_) => "key_value_regex_matched"@,
            Checker::GitFetched(_) => "git_fetched"@,
        }
    }

    /// The name of the kind of the check.
    pub fn checker_type(&self) -> (r: String)
        ensures
            r@ == self.spec_type(),
    {
        let t = match self {
            Checker::EntryAbsent(_) => "entry_absent",
            Checker::EntryPresent(_) => "entry_present",
            Checker::FileAbsent(_) => "file_absent",
            Checker::FilePresent(_) => "file_present",
            Checker::FileCopied(_) => "file_copied",
            Checker::FileUnpacked(_) => "file_unpacked",
            Checker::LinesAbsent(_) => "lines_absent",
            Checker::LinesPresent(_) => "lines_present",
            Checker::KeyValuePresent(_) => "key_value_present",
            Checker::KeyAbsent(_) => "key_absent",
            Checker::KeyValueRegexMatched(_) => "key_value_regex_matched",
            Checker::GitFetched(_) => "git_fetched",
        };
        String::from_str(t)
    }

    /// What every check has: its file, tags and whether it may fix.
    pub open spec fn spec_generic(&self) -> GenericChecker {
        match self {
            Checker::EntryAbsent(c) => c.file_check.generic_check,
            Checker::EntryPresent(c) => c.file_check.generic_check,
            Checker::FileAbsent(c) => c.file_check.generic_check,
            Checker::FilePresent(c) => c.file_check.generic_check,
            Checker::FileCopied(c) => c.generic_check,
            Checker::FileUnpacked(c) => c.generic_check,
            Checker::LinesAbsent(c) => c.file_check.generic_check,
            Checker::LinesPresent(c) => c.file_check.generic_check,
            Checker::KeyValuePresent(c) => c.file_check.generic_check,
            Checker::KeyAbsent(c) => c.file_check.generic_check,
            Checker::KeyValueRegexMatched(c) => c.file_check.generic_check,
            Checker::GitFetched(c) => c.generic_check,
        }
    }

    /// What the check is about: the checked file, the source of a copy or an
    /// archive, or the repository.
    pub open spec fn spec_object(&self) -> Seq<char> {
        match self {
            Checker::FileCopied(c) => c.source.url@,
            Checker::FileUnpacked(c) => c.source.path@,
            Checker::GitFetched(c) => c.repo@,
            Checker::EntryAbsent(c) => c.file_check.file_to_check.path@,
            Checker::EntryPresent(c) => c.file_check.file_to_check.path@,
            Checker::FileAbsent(c) => c.file_check.file_to_check.path@,
            Checker::FilePresent(c) => c.file_check.file_to_check.path@,
            Checker::LinesAbsent(c) => c.file_check.file_to_check.path@,
            Checker::LinesPresent(c) => c.file_check.file_to_check.path@,
            Checker::KeyValuePresent(c) => c.file_check.file_to_check.path@,
            Checker::KeyAbsent(c) => c.file_check.file_to_check.path@,
            Checker::KeyValueRegexMatched(c) => c.file_check.file_to_check.path@,
        }
    }

    /// What every check has (see `spec_generic`).
    pub fn generic_checker(&self) -> (r: &GenericChecker)
        ensures
            *r == self.spec_generic(),
    {
        match self {
            Checker::EntryAbsent(c) => &c.file_check.generic_check,
            Checker::EntryPresent(c) => &c.file_check.generic_check,
            Checker::FileAbsent(c) => &c.file_check.generic_check,
            Checker::FilePresent(c) => &c.file_check.generic_check,
            Checker::FileCopied(c) => &c.generic_check,
            Checker::FileUnpacked(c) => &c.generic_check,
            Checker::LinesAbsent(c) => &c.file_check.generic_check,
            Checker::LinesPresent(c) => &c.file_check.generic_check,
            Checker::KeyValuePresent(c) => &c.file_check.generic_check,
            Checker::KeyAbsent(c) => &c.file_check.generic_check,
            Checker::KeyValueRegexMatched(c) => &c.file_check.generic_check,
            Checker::GitFetched(c) => &c.generic_check,
        }
    }

    /// What the check is about (see `spec_object`).
    pub fn checker_object(&self) -> (r: String)
        ensures
            r@ == self.spec_object(),
    {
        match self {
            Checker::EntryAbsent(c) => c.file_check.check_object(),
            Checker::EntryPresent(c) => c.file_check.check_object(),
            Checker::FileAbsent(c) => c.file_check.check_object(),
            Checker::FilePresent(c) => c.file_check.check_object(),
            Checker::FileCopied(c) => c.source.url.clone(),
            Checker::FileUnpacked(c) => c.source.path.clone(),
            Checker::LinesAbsent(c) => c.file_check.check_object(),
            Checker::LinesPresent(c) => c.file_check.check_object(),
            Checker::KeyValuePresent(c) => c.file_check.check_object(),
            Checker::KeyAbsent(c) => c.file_check.check_object(),
            Checker::KeyValueRegexMatched(c) => c.file_check.check_object(),
            Checker::GitFetched(c) => c.repo.clone(),
        }
    }
}

/// What reading a check of the kind `t` from its table gives, once its tags
/// and `fixable` were read: what reading a check of that kind gives (see the
/// `read_from` of each kind), and `UnknownCheckType` for an unknown kind.
pub open spec fn read_checker(
    t: Seq<char>,
    table: CheckTable,
    checks_file: Seq<char>,
    home: Option<Seq<char>>,
    cwd: Option<Seq<char>>,
    r: Option<Result<Checker, CheckDefinitionError>>,
) -> bool {
    if t == "entry_absent"@ {
        r matches Some(x) && match x {
            Ok(Checker::EntryAbsent(c)) => EntryAbsent::read_from(table, checks_file, home, cwd, Ok(c)),
            Ok(_) => false,
            Err(e) => EntryAbsent::read_from(table, checks_file, home, cwd, Err(e)),
        }
    } else if t == "entry_present"@ {
        r matches Some(x) && match x {
            Ok(Checker::EntryPresent(c)) => EntryPresent::read_from(table, checks_file, home, cwd, Ok(c)),
            Ok(_) => false,
            Err(e) => EntryPresent::read_from(table, checks_file, home, cwd, Err(e)),
        }
    } else if t == "file_absent"@ {
        r matches Some(x) && match x {
            Ok(Checker::FileAbsent(c)) => FileAbsent::read_from(table, checks_file, home, cwd, Ok(c)),
            Ok(_) => false,
            Err(e) => FileAbsent::read_from(table, checks_file, home, cwd, Err(e)),
        }
    } else if t == "file_present"@ {
        r matches Some(x) && match x {
            Ok(Checker::FilePresent(c)) => FilePresent::read_from(table, checks_file, home, cwd, Ok(c)),
            Ok(_) => false,
            Err(e) => FilePresent::read_from(table, checks_file, home, cwd, Err(e)),
        }
    } else if t == "file_copied"@ {
        r matches Some(x) && match x {
            Ok(Checker::FileCopied(c)) => FileCopied::read_from(table, checks_file, home, cwd, Ok(c)),
            Ok(_) => false,
            Err(e) => FileCopied::read_from(table, checks_file, home, cwd, Err(e)),
        }
    } else if t == "lines_absent"@ {
        r matches Some(x) && match x {
            Ok(Checker::LinesAbsent(c)) => LinesAbsent::read_from(table, checks_file, home, cwd, Ok(c)),
            Ok(_) => false,
            Err(e) => LinesAbsent::read_from(table, checks_file, home, cwd, Err(e)),
        }
    } else if t == "lines_present"@ {
        r matches Some(x) && match x {
            Ok(Checker::LinesPresent(c)) => LinesPresent::read_from(table, checks_file, home, cwd, Ok(c)),
            Ok(_) => false,
            Err(e) => LinesPresent::read_from(table, checks_file, home, cwd, Err(e)),
        }
    } else if t == "key_value_present"@ {
        r matches Some(x) && match x {
            Ok(Checker::KeyValuePresent(c)) => KeyValuePresent::read_from(table, checks_file, home, cwd, Ok(c)),
            Ok(_) => false,
            Err(e) => KeyValuePresent::read_from(table, checks_file, home, cwd, Err(e)),
        }
    } else if t == "key_absent"@ {
        r matches Some(x) && match x {
            Ok(Checker::KeyAbsent(c)) => KeyAbsent::read_from(table, checks_file, home, cwd, Ok(c)),
            Ok(_) => false,
            Err(e) => KeyAbsent::read_from(table, checks_file, home, cwd, Err(e)),
        }
    } else if t == "key_value_regex_matched"@ {
        r matches Some(x) && match x {
            Ok(Checker::KeyValueRegexMatched(c)) => EntryRegexMatch::read_from(table, checks_file, home, cwd, Ok(c)),
            Ok(_) => false,
            Err(e) => EntryRegexMatch::read_from(table, checks_file, home, cwd, Err(e)),
        }
    } else if t == "git_fetched"@ {
        r matches Some(x) && match x {
            Ok(Checker::GitFetched(c)) => GitFetched::read_from(table, checks_file, home, cwd, Ok(c)),
            Ok(_) => false,
            Err(e) => GitFetched::read_from(table, checks_file, home, cwd, Err(e)),
        }
    } else if t == "file_unpacked"@ {
        match r {
            None => FileUnpacked::read_from(table, checks_file, home, cwd, None),
            Some(Ok(Checker::FileUnpacked(c))) => FileUnpacked::read_from(table, checks_file, home, cwd, Some(Ok(c))),
            Some(Ok(_)) => false,
            Some(Err(e)) => FileUnpacked::read_from(table, checks_file, home, cwd, Some(Err(e))),
        }
    } else {
        r matches Some(Err(CheckDefinitionError::UnknownCheckType(u))) && u@ == t
    }
}

/// What reading a check of the kind `t` from its table gives: first its tags
/// and `fixable` (see `generic_def`), then what its kind reads (see
/// `read_checker`).
pub open spec fn check_read(
    checks_file: Seq<char>,
    t: Seq<char>,
    table: CheckTable,
    home: Option<Seq<char>>,
    cwd: Option<Seq<char>>,
    r: Option<Result<Checker, CheckDefinitionError>>,
) -> bool {
    &&& match generic_def(table) {
        Err(m) => r matches Some(x) && refused(x, m),
        Ok((tags, fixable)) => {
            &&& read_checker(t, table, checks_file, home, cwd, r)
            &&& r matches Some(Ok(c)) ==> c.spec_generic().holds(checks_file, tags, fixable)
        },
    }
    &&& r matches Some(Ok(c)) ==> c.spec_type() == t
}

/// Reads the check of a kind from its table: first its tags and `fixable`
/// (see `generic_def`), then what its kind reads (see `read_checker`). `None`
/// where reading an archive check without a file name and without an
/// unpacker fails.
pub fn get_check_from_check_table(
    file_with_checks: String,
    check_type: &str,
    table: &CheckTable,
    home: Option<String>,
    cwd: Option<String>,
) -> (r: Option<Result<Checker, CheckDefinitionError>>)
    ensures
        check_read(file_with_checks@, check_type@, *table, opt_view(home), opt_view(cwd), r),
{
    proof {
        reveal_strlit("entry_absent");
        reveal_strlit("entry_present");
        reveal_strlit("file_absent");
        reveal_strlit("file_present");
        reveal_strlit("file_copied");
        reveal_strlit("file_unpacked");
        reveal_strlit("lines_absent");
        reveal_strlit("lines_present");
        reveal_strlit("key_value_present");
        reveal_strlit("key_absent");
        reveal_strlit("key_value_regex_matched");
        reveal_strlit("git_fetched");
    }
    let ghost fw = file_with_checks@;
    let ghost h = opt_view(home);
    let ghost cw = opt_view(cwd);
    let generic = match GenericChecker::from_check_table(file_with_checks, table) {
        Ok(g) => g,
        Err(e) => {
            return Some(Err(e));
        },
    };
    let t = String::from_str(check_type);
    if t == String::from_str("entry_absent") {
        match EntryAbsent::from_check_table(generic, table, home, cwd) {
            Ok(c) => Some(Ok(Checker::EntryAbsent(c))),
            Err(e) => Some(Err(e)),
        }
    } else if t == String::from_str("entry_present") {
        match EntryPresent::from_check_table(generic, table, home, cwd) {
            Ok(c) => Some(Ok(Checker::EntryPresent(c))),
            Err(e) => Some(Err(e)),
        }
    } else if t == String::from_str("file_absent") {
        match FileAbsent::from_check_table(generic, table, home, cwd) {
            Ok(c) => Some(Ok(Checker::FileAbsent(c))),
            Err(e) => Some(Err(e)),
        }
    } else if t == String::from_str("file_present") {
        match FilePresent::from_check_table(generic, table, home, cwd) {
            Ok(c) => Some(Ok(Checker::FilePresent(c))),
            Err(e) => Some(Err(e)),
        }
    } else if t == String::from_str("file_copied") {
        match FileCopied::from_check_table(generic, table, home, cwd) {
            Ok(c) => Some(Ok(Checker::FileCopied(c))),
            Err(e) => Some(Err(e)),
        }
    } else if t == String::from_str("file_unpacked") {
        let r = match FileUnpacked::from_check_table(generic, table, home, cwd) {
            None => None,
            Some(Ok(c)) => Some(Ok(Checker::FileUnpacked(c))),
            Some(Err(e)) => Some(Err(e)),
        };
        assert("file_unpacked"@[0] != "entry_present"@[0] && "file_unpacked"@[0] != "lines_present"@[0]);
        assert(read_checker(check_type@, *table, fw, h, cw, r));
        r
    } else if t == String::from_str("lines_absent") {
        match LinesAbsent::from_check_table(generic, table, home, cwd) {
            Ok(c) => Some(Ok(Checker::LinesAbsent(c))),
            Err(e) => Some(Err(e)),
        }
    } else if t == String::from_str("lines_present") {
        match LinesPresent::from_check_table(generic, table, home, cwd) {
            Ok(c) => Some(Ok(Checker::LinesPresent(c))),
            Err(e) => Some(Err(e)),
        }
    } else if t == String::from_str("key_value_present") {
        match KeyValuePresent::from_check_table(generic, table, home, cwd) {
            Ok(c) => Some(Ok(Checker::KeyValuePresent(c))),
            Err(e) => Some(Err(e)),
        }
    } else if t == String::from_str("key_absent") {
        match KeyAbsent::from_check_table(generic, table, home, cwd) {
            Ok(c) => Some(Ok(Checker::KeyAbsent(c))),
            Err(e) => Some(Err(e)),
        }
    } else if t == String::from_str("key_value_regex_matched") {
        match EntryRegexMatch::from_check_table(generic, table, home, cwd) {
            Ok(c) => Some(Ok(Checker::KeyValueRegexMatched(c))),
            Err(e) => Some(Err(e)),
        }
    } else if t == String::from_str("git_fetched") {
        match GitFetched::from_check_table(generic, table, home, cwd) {
            Ok(c) => Some(Ok(Checker::GitFetched(c))),
            Err(e) => Some(Err(e)),
        }
    } else {
        Some(Err(CheckDefinitionError::UnknownCheckType(t)))
    }
}


/// Why the checks of a file could not be found under its top-level keys.
#[derive(PartialEq, Clone, Debug)]
pub enum LocateError {
    /// A top-level key is missing.
    MissingKey(String),
    /// A top-level key holds no table.
    NotATable(String),
}

/// The table under the top-level keys, key after key (each must hold a table
/// that is not inline).
pub open spec fn table_under(doc: Entries, keys: Seq<Seq<char>>) -> Result<Entries, (bool, Seq<char>)>
    decreases keys.len(),
{
    if keys.len() == 0 {
        Ok(doc)
    } else {
        match get_value(doc, keys[0]) {
            None => Err((true, keys[0])),
            Some(NodeV::Table(t, false)) => table_under(t, keys.skip(1)),
            Some(_) => Err((false, keys[0])),
        }
    }
}

/// Finds the table under the top-level keys (see `table_under`).
pub fn navigate(doc: &Vec<(String, Node)>, keys: &Vec<String>) -> (r: Result<Vec<(String, Node)>, LocateError>)
    ensures
        match table_under(entries_view(doc@), keys@.map_values(|k: String| k@)) {
            Ok(t) => r matches Ok(x) && entries_view(x@) == t,
            Err((true, k)) => r matches Err(LocateError::MissingKey(m)) && m@ == k,
            Err((false, k)) => r matches Err(LocateError::NotATable(m)) && m@ == k,
        },
{
    let ghost ks = keys@.map_values(|k: String| k@);
    let mut cur = crate::node::clone_entries(doc);
    let mut i: usize = 0;
    assert(ks.skip(0) =~= ks);
    while i < keys.len()
        invariant
            i <= keys.len(),
            ks == keys@.map_values(|k: String| k@),
            table_under(entries_view(doc@), ks) == table_under(entries_view(cur@), ks.skip(i as int)),
        decreases keys.len() - i,
    {
        assert(ks.skip(i as int)[0] == keys@[i as int]@);
        assert(ks.skip(i as int).skip(1) =~= ks.skip(i + 1));
        let next = match key_index(&cur, keys[i].as_str()) {
            None => {
                return Err(LocateError::MissingKey(keys[i].clone()));
            },
            Some(j) => match &cur[j].1 {
                Node::Table(t, inline) => {
                    if *inline {
                        return Err(LocateError::NotATable(keys[i].clone()));
                    }
                    crate::node::clone_entries(t)
                },
                _ => {
                    return Err(LocateError::NotATable(keys[i].clone()));
                },
            },
        };
        cur = next;
        i += 1;
    }
    Ok(cur)
}

/// What an entry of a check file stands for: a file of checks to include, or
/// a check of a kind, given by its key and, in an array of tables, its
/// position.
#[derive(PartialEq, Clone, Debug)]
pub enum Located {
    Include(String),
    Check(String, Option<usize>),
}

/// `Located` with its texts as sequences.
pub enum LocatedV {
    Include(Seq<char>),
    Check(Seq<char>, Option<usize>),
}

pub open spec fn located_view(l: Located) -> LocatedV {
    match l {
        Located::Include(u) => LocatedV::Include(u@),
        Located::Check(k, i) => LocatedV::Check(k@, i),
    }
}

/// What one entry of a check file stands for: `include` with an array of
/// strings includes them (`None` when an item is no string; another value is
/// ignored); a table (not inline) is one check of the kind its key names, and
/// an array of tables one check per table; anything else is ignored.
pub open spec fn located_of(k: Seq<char>, v: NodeV) -> Option<Seq<LocatedV>> {
    if k == "include"@ {
        match v {
            NodeV::Array(items) => if forall|i: int| 0 <= i < items.len() ==> #[trigger] items[i] is Str {
                Some(Seq::new(items.len(), |i: int| LocatedV::Include(items[i]->Str_0)))
            } else {
                None
            },
            _ => Some(Seq::empty()),
        }
    } else {
        match v {
            NodeV::Table(_, false) => Some(seq![LocatedV::Check(k, None)]),
            NodeV::TableArray(ts) => Some(Seq::new(ts.len(), |i: int| LocatedV::Check(k, Some(i as usize)))),
            _ => Some(Seq::empty()),
        }
    }
}

/// What the entries of a check file stand for, in order (see `located_of`).
pub open spec fn located_all(es: Entries) -> Option<Seq<LocatedV>>
    decreases es.len(),
{
    if es.len() == 0 {
        Some(Seq::empty())
    } else {
        match (located_of(es[0].0, es[0].1), located_all(es.skip(1))) {
            (Some(a), Some(b)) => Some(a + b),
            _ => None,
        }
    }
}

/// The entries as sequences.
pub open spec fn views_of(s: Seq<Located>) -> Seq<LocatedV> {
    Seq::new(s.len(), |i: int| located_view(s[i]))
}

proof fn lemma_views_push(s: Seq<Located>, x: Located)
    ensures
        views_of(s.push(x)) == views_of(s).push(located_view(x)),
{
    assert(views_of(s.push(x)) =~= views_of(s).push(located_view(x)));
}

proof fn lemma_located_all_push(es: Entries, e: (Seq<char>, NodeV))
    ensures
        located_all(es.push(e)) == match (located_all(es), located_of(e.0, e.1)) {
            (Some(a), Some(b)) => Some(a + b),
            _ => None::<Seq<LocatedV>>,
        },
    decreases es.len(),
{
    let t = es.push(e);
    if es.len() == 0 {
        assert(t.skip(1) =~= Seq::<(Seq<char>, NodeV)>::empty());
        assert(t[0] == e);
        assert(located_all(Seq::<(Seq<char>, NodeV)>::empty()) == Some(Seq::<LocatedV>::empty()));
        assert(located_all(t) == match (located_of(e.0, e.1), located_all(t.skip(1))) {
            (Some(a), Some(b)) => Some(a + b),
            _ => None::<Seq<LocatedV>>,
        });
        match located_of(e.0, e.1) {
            Some(b) => {
                assert(Seq::<LocatedV>::empty() + b =~= b);
                assert(b + Seq::<LocatedV>::empty() =~= b);
            },
            None => {},
        }
    } else {
        lemma_located_all_push(es.skip(1), e);
        assert(t.skip(1) =~= es.skip(1).push(e));
        assert(t[0] == es[0]);
        assert(located_all(t) == match (located_of(es[0].0, es[0].1), located_all(t.skip(1))) {
            (Some(a), Some(b)) => Some(a + b),
            _ => None::<Seq<LocatedV>>,
        });
        match (located_of(es[0].0, es[0].1), located_all(es.skip(1)), located_of(e.0, e.1)) {
            (Some(a), Some(b), Some(c)) => {
                assert(a + (b + c) =~= (a + b) + c);
            },
            _ => {},
        }
    }
}

/// What the entries of a check file stand for, in order (see `located_all`);
/// `None` when an included path is no string.
pub fn locate_checks(table: &Vec<(String, Node)>) -> (r: Option<Vec<Located>>)
    ensures
        match located_all(entries_view(table@)) {
            None => r is None,
            Some(l) => r matches Some(x) && views_of(x@) == l,
        },
{
    proof {
        reveal_strlit("include");
    }
    let ghost ev = entries_view(table@);
    let mut out: Vec<Located> = Vec::new();
    let mut i: usize = 0;
    assert(ev.take(0) =~= Seq::<(Seq<char>, NodeV)>::empty());
    assert(views_of(out@) =~= Seq::<LocatedV>::empty());
    while i < table.len()
        invariant
            i <= table.len(),
            ev == entries_view(table@),
            located_all(ev.take(i as int)) == Some(views_of(out@)),
        decreases table.len() - i,
    {
        let ghost before = views_of(out@);
        proof {
            lemma_located_all_push(ev.take(i as int), ev[i as int]);
            assert(ev.take(i + 1) =~= ev.take(i as int).push(ev[i as int]));
        }
        let key = &table[i].0;
        let ghost k = ev[i as int].0;
        let ghost v = ev[i as int].1;
        assert(k == key@);
        let is_include = *key == String::from_str("include");
        if is_include {
            match &table[i].1 {
                Node::Array(items) => {
                    let ghost nv = nodes_view(items@);
                    assert(v == NodeV::Array(nv));
                    let mut j: usize = 0;
                    while j < items.len()
                        invariant
                            j <= items.len(),
                            nv == nodes_view(items@),
                            k == "include"@,
                            v == NodeV::Array(nv),
                            i < table.len(),
                            ev == entries_view(table@),
                            located_all(ev.take(i as int)) == Some(before),
                            located_all(ev.take(i + 1)) == match (located_all(ev.take(i as int)), located_of(k, v)) {
                                (Some(a), Some(b)) => Some(a + b),
                                _ => None::<Seq<LocatedV>>,
                            },
                            forall|m: int| 0 <= m < j ==> #[trigger] nv[m] is Str,
                            views_of(out@) =~= before + Seq::new(
                                j as nat,
                                |m: int| LocatedV::Include(nv[m]->Str_0),
                            ),
                        decreases items.len() - j,
                    {
                        match &items[j] {
                            Node::Str(u) => {
                                let x = Located::Include(u.clone());
                                proof {
                                    lemma_views_push(out@, x);
                                }
                                out.push(x);
                            },
                            _ => {
                                assert(!(nv[j as int] is Str));
                                assert(located_of(k, v) is None);
                                assert(located_all(ev.take(i + 1)) is None);
                                proof {
                                    lemma_located_prefix_none(ev, i + 1);
                                }
                                return None;
                            },
                        }
                        j += 1;
                    }
                    assert(located_of(k, v) == Some(Seq::new(nv.len(), |m: int| LocatedV::Include(nv[m]->Str_0))));
                    assert(views_of(out@) =~= before + Seq::new(nv.len(), |m: int| LocatedV::Include(nv[m]->Str_0)));
                },
                _ => {
                    assert(located_of(k, v) == Some(Seq::<LocatedV>::empty()));
                    assert(before + Seq::<LocatedV>::empty() =~= before);
                },
            }
        } else {
            match &table[i].1 {
                Node::Table(_, inline) => {
                    if !*inline {
                        let x = Located::Check(key.clone(), None);
                        proof {
                            lemma_views_push(out@, x);
                        }
                        out.push(x);
                        assert(located_of(k, v) == Some(seq![LocatedV::Check(k, None)]));
                        assert(views_of(out@) =~= before + seq![LocatedV::Check(k, None)]);
                    } else {
                        assert(located_of(k, v) == Some(Seq::<LocatedV>::empty()));
                        assert(before + Seq::<LocatedV>::empty() =~= before);
                    }
                },
                Node::TableArray(ts) => {
                    let mut j: usize = 0;
                    while j < ts.len()
                        invariant
                            j <= ts.len(),
                            k == key@,
                            k != "include"@,
                            v == NodeV::TableArray(nodes_view(ts@)),
                            views_of(out@) =~= before + Seq::new(
                                j as nat,
                                |m: int| LocatedV::Check(k, Some(m as usize)),
                            ),
                        decreases ts.len() - j,
                    {
                        let x = Located::Check(key.clone(), Some(j));
                        proof {
                            lemma_views_push(out@, x);
                        }
                        out.push(x);
                        j += 1;
                    }
                    assert(located_of(k, v) == Some(Seq::new(nodes_view(ts@).len(), |m: int| LocatedV::Check(k, Some(m as usize)))));
                    assert(views_of(out@) =~= before + Seq::new(nodes_view(ts@).len(), |m: int| LocatedV::Check(k, Some(m as usize))));
                },
                _ => {
                    assert(located_of(k, v) == Some(Seq::<LocatedV>::empty()));
                    assert(before + Seq::<LocatedV>::empty() =~= before);
                },
            }
        }
        i += 1;
    }
    assert(ev.take(table.len() as int) =~= ev);
    Some(out)
}

proof fn lemma_located_prefix_none(ev: Entries, n: int)
    requires
        0 <= n <= ev.len(),
        located_all(ev.take(n)) is None,
    ensures
        located_all(ev) is None,
    decreases ev.len() - n,
{
    if n < ev.len() {
        lemma_located_all_push(ev.take(n), ev[n]);
        assert(ev.take(n + 1) =~= ev.take(n).push(ev[n]));
        lemma_located_prefix_none(ev, n + 1);
    } else {
        assert(ev.take(n) =~= ev);
    }
}


/// The entries of the table that a located check stands for: the table under
/// its key, or the table at its position in the array of tables under its key
/// (nothing where the value has another shape).
pub open spec fn located_table(es: Entries, k: Seq<char>, index: Option<usize>) -> Entries {
    match (get_value(es, k), index) {
        (Some(NodeV::Table(e, _)), None) => e,
        (Some(NodeV::TableArray(ts)), Some(i)) => if i < ts.len() {
            match ts[i as int] {
                NodeV::Table(e, _) => e,
                _ => Seq::empty(),
            }
        } else {
            Seq::empty()
        },
        _ => Seq::empty(),
    }
}

/// The entries of the table that a located check stands for (see
/// `located_table`).
pub fn located_entries(es: &Vec<(String, Node)>, k: &str, index: Option<usize>) -> (r: Vec<(String, Node)>)
    ensures
        entries_view(r@) == located_table(entries_view(es@), k@, index),
{
    match key_index(es, k) {
        None => Vec::new(),
        Some(j) => {
            proof {
                assert(entries_view(es@)[j as int].1 == es@[j as int].1@);
            }
            match (&es[j].1, index) {
                (Node::Table(e, _), None) => crate::node::clone_entries(e),
                (Node::TableArray(ts), Some(i)) => if i < ts.len() {
                    proof {
                        assert(nodes_view(ts@)[i as int] == ts@[i as int]@);
                    }
                    match &ts[i] {
                        Node::Table(e, _) => crate::node::clone_entries(e),
                        _ => Vec::new(),
                    }
                } else {
                    Vec::new()
                },
                _ => Vec::new(),
            }
        },
    }
}

/// What one entry of a check file gave when it was read: an included path, or
/// a check of a kind with what reading its table gave.
pub enum ReadItem {
    Include(String),
    Check(String, Option<Result<Checker, CheckDefinitionError>>),
}

/// Why the checks of a file could not be read.
pub enum ReadChecksError {
    /// The text is no TOML document; the parser's message.
    InvalidToml(String),
    /// The top-level keys do not lead to a table.
    Locate(LocateError),
    /// An included path is no string.
    IncludeNotAString,
}

/// The item was read from what the entry of the check file stands for: the
/// same included path, or a check of the same kind read (see `check_read`)
/// from a table with the entries of the located table.
pub open spec fn item_read(
    item: ReadItem,
    l: LocatedV,
    es: Entries,
    checks_file: Seq<char>,
    home: Option<Seq<char>>,
    cwd: Option<Seq<char>>,
) -> bool {
    match (item, l) {
        (ReadItem::Include(u), LocatedV::Include(v)) => u@ == v,
        (ReadItem::Check(t, r), LocatedV::Check(k, index)) => t@ == k && exists|table: CheckTable|
            #![trigger check_read(checks_file, k, table, home, cwd, r)]
            table.view_entries() == located_table(es, k, index) && check_read(
                checks_file,
                k,
                table,
                home,
                cwd,
                r,
            ),
        _ => false,
    }
}

/// Reads the checks of a check file from its text: parses it as TOML, finds the
/// table under the top-level keys (see `table_under`), and reads, in order,
/// what each of its entries stands for (see `located_all`): the included paths
/// and, for each check, what reading its table gives. The texts that error
/// messages quote for values are those `toml_edit` displays for them.
pub fn read_checks_from_text(
    file_with_checks: String,
    text: &str,
    top_level_keys: &Vec<String>,
    home: Option<String>,
    cwd: Option<String>,
) -> (r: Result<Vec<ReadItem>, ReadChecksError>)
    ensures
        match toml_document_of(text@) {
            Err(m) => r matches Err(ReadChecksError::InvalidToml(x)) && x@ == m,
            Ok(doc) => match table_under(doc, top_level_keys@.map_values(|k: String| k@)) {
                Err((true, k)) => r matches Err(ReadChecksError::Locate(LocateError::MissingKey(m))) && m@ == k,
                Err((false, k)) => r matches Err(ReadChecksError::Locate(LocateError::NotATable(m))) && m@ == k,
                Ok(es) => match located_all(es) {
                    None => r matches Err(ReadChecksError::IncludeNotAString),
                    Some(l) => r matches Ok(items) && items.len() == l.len() && forall|i: int|
                        0 <= i < l.len() ==> item_read(
                            #[trigger] items@[i],
                            l[i],
                            es,
                            file_with_checks@,
                            opt_view(home),
                            opt_view(cwd),
                        ),
                },
            },
        },
{
    let table = match parse_toml_table(text) {
        Ok(t) => t,
        Err(m) => {
            return Err(ReadChecksError::InvalidToml(m));
        },
    };
    let doc = toml_entries(&table);
    let es = match navigate(&doc, top_level_keys) {
        Ok(x) => x,
        Err(e) => {
            return Err(ReadChecksError::Locate(e));
        },
    };
    let mut under: Option<&toml_edit::Table> = Some(&table);
    let mut k: usize = 0;
    while k < top_level_keys.len()
        decreases top_level_keys.len() - k,
    {
        under = match under {
            Some(t) => toml_child_table(t, top_level_keys[k].as_str()),
            None => None,
        };
        k = k + 1;
    }
    let located = match locate_checks(&es) {
        Some(l) => l,
        None => {
            return Err(ReadChecksError::IncludeNotAString);
        },
    };
    let ghost ev = entries_view(es@);
    let ghost l = views_of(located@);
    let mut items: Vec<ReadItem> = Vec::new();
    let mut i: usize = 0;
    while i < located.len()
        invariant
            i <= located.len(),
            l == views_of(located@),
            ev == entries_view(es@),
            items.len() == i,
            forall|j: int|
                0 <= j < i ==> item_read(
                    #[trigger] items@[j],
                    l[j],
                    ev,
                    file_with_checks@,
                    opt_view(home),
                    opt_view(cwd),
                ),
        decreases located.len() - i,
    {
        let item = match &located[i] {
            Located::Include(u) => ReadItem::Include(u.clone()),
            Located::Check(t, index) => {
                let entries = located_entries(&es, t.as_str(), *index);
                let shown = match under {
                    None => Vec::new(),
                    Some(u) => {
                        let found = match index {
                            None => toml_child_table(u, t.as_str()),
                            Some(n) => toml_array_table(u, t.as_str(), *n),
                        };
                        match found {
                            Some(f) => toml_shown(f),
                            None => Vec::new(),
                        }
                    },
                };
                let check_table = CheckTable { entries, shown };
                let read = get_check_from_check_table(
                    file_with_checks.clone(),
                    t.as_str(),
                    &check_table,
                    home.clone(),
                    cwd.clone(),
                );
                let name = t.clone();
                proof {
                    assert(l[i as int] == located_view(located@[i as int]));
                    assert(check_table.view_entries() == located_table(ev, t@, *index));
                    assert(check_read(
                        file_with_checks@,
                        t@,
                        check_table,
                        opt_view(home),
                        opt_view(cwd),
                        read,
                    ));
                    assert(item_read(
                        ReadItem::Check(name, read),
                        l[i as int],
                        ev,
                        file_with_checks@,
                        opt_view(home),
                        opt_view(cwd),
                    ));
                }
                ReadItem::Check(name, read)
            },
        };
        proof {
            assert(l[i as int] == located_view(located@[i as int]));
            assert(item_read(item, l[i as int], ev, file_with_checks@, opt_view(home), opt_view(cwd)));
        }
        let ghost prev = items@;
        items.push(item);
        proof {
            assert forall|j: int| 0 <= j < i + 1 implies item_read(
                #[trigger] items@[j],
                l[j],
                ev,
                file_with_checks@,
                opt_view(home),
                opt_view(cwd),
            ) by {
                if j < i {
                    assert(items@[j] == prev[j]);
                }
            }
        }
        i = i + 1;
    }
    Ok(items)
}

/// What is kept of an entry read from a check file: an included path, or a
/// check read without error.
pub enum Kept {
    Include(String),
    Check(Checker),
}

/// What is kept of the items read from a check file, in order: the included
/// paths and the checks read without error; a definition that was refused is
/// skipped.
pub open spec fn kept(items: Seq<ReadItem>) -> Seq<Kept>
    decreases items.len(),
{
    if items.len() == 0 {
        Seq::empty()
    } else {
        let rest = kept(items.drop_first());
        match items[0] {
            ReadItem::Include(u) => seq![Kept::Include(u)] + rest,
            ReadItem::Check(_, Some(Ok(c))) => seq![Kept::Check(c)] + rest,
            _ => rest,
        }
    }
}

/// Keeps the included paths and the checks read without error, in order (see
/// `kept`). Every check must have been read (see `get_check_from_check_table`).
pub fn kept_checks(items: Vec<ReadItem>) -> (r: Vec<Kept>)
    requires
        forall|i: int| 0 <= i < items.len() ==> !(#[trigger] items@[i] matches ReadItem::Check(_, None)),
    ensures
        r@ == kept(items@),
{
    let ghost all = items@;
    let mut items = items;
    let mut out: Vec<Kept> = Vec::new();
    proof {
        assert(all.skip(0) =~= all);
    }
    let ghost mut n: int = 0;
    while items.len() > 0
        invariant
            n + items.len() == all.len(),
            0 <= n,
            items@ == all.skip(n),
            kept(all) == out@ + kept(items@),
            forall|i: int| 0 <= i < all.len() ==> !(#[trigger] all[i] matches ReadItem::Check(_, None)),
        decreases items.len(),
    {
        let ghost before = items@;
        let item = items.remove(0);
        proof {
            assert(items@ =~= before.drop_first());
            assert(all.skip(n + 1) =~= before.drop_first());
            assert(before[0] == all[n]);
        }
        match item {
            ReadItem::Include(u) => {
                out.push(Kept::Include(u));
            },
            ReadItem::Check(_, Some(Ok(c))) => {
                out.push(Kept::Check(c));
            },
            _ => {},
        }
        proof {
            assert(kept(all) =~= out@ + kept(items@));
            n = n + 1;
        }
    }
    proof {
        assert(out@ + kept(items@) =~= out@);
    }
    out
}

proof fn lemma_kept_concat(a: Seq<ReadItem>, b: Seq<ReadItem>)
    ensures
        kept(a + b) == kept(a) + kept(b),
    decreases a.len(),
{
    if a.len() == 0 {
        assert(a + b =~= b);
        assert(kept(a) + kept(b) =~= kept(b));
    } else {
        lemma_kept_concat(a.drop_first(), b);
        assert((a + b).drop_first() =~= a.drop_first() + b);
        assert((a + b)[0] == a[0]);
        match a[0] {
            ReadItem::Include(u) => {
                assert(seq![Kept::Include(u)] + (kept(a.drop_first()) + kept(b)) =~= (seq![Kept::Include(u)]
                    + kept(a.drop_first())) + kept(b));
            },
            ReadItem::Check(_, Some(Ok(c))) => {
                assert(seq![Kept::Check(c)] + (kept(a.drop_first()) + kept(b)) =~= (seq![Kept::Check(c)]
                    + kept(a.drop_first())) + kept(b));
            },
            _ => {},
        }
    }
}

/// A check definition that was refused is skipped without dropping any other:
/// what is kept of the items around it is what is kept of those before it
/// followed by what is kept of those after it, and a check read without error
/// is kept in its place.
pub proof fn law_refused_definitions_are_skipped(
    before: Seq<ReadItem>,
    check_type: String,
    read: Result<Checker, CheckDefinitionError>,
    after: Seq<ReadItem>,
)
    ensures
        read is Err ==> kept(before + seq![ReadItem::Check(check_type, Some(read))] + after) == kept(before)
            + kept(after),
        read matches Ok(c) ==> kept(before + seq![ReadItem::Check(check_type, Some(read))] + after) == kept(
            before,
        ) + seq![Kept::Check(c)] + kept(after),
{
    let one = seq![ReadItem::Check(check_type, Some(read))];
    lemma_kept_concat(before + one, after);
    lemma_kept_concat(before, one);
    assert(one.drop_first() =~= Seq::<ReadItem>::empty());
    assert(kept(one.drop_first()) =~= Seq::<Kept>::empty());
    if read is Err {
        assert(kept(one) =~= Seq::<Kept>::empty());
        assert(kept(before) + Seq::<Kept>::empty() =~= kept(before));
    } else {
        assert(kept(one) =~= seq![Kept::Check(read->Ok_0)]);
    }
}

} // verus!
