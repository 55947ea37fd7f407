use check_config::base::{CheckDefinitionError, CheckError};
use check_config::checkdef::CheckTable;
use check_config::checks::FileCheck;
use check_config::fs_checks::GitFetched;
use check_config::node::Node;
use check_config::registry::{get_check_from_check_table, locate_checks, navigate, LocateError, Located};
use check_config::uri::{ReadablePath, UriError};

fn s(x: &str) -> String {
    x.to_string()
}

fn t(entries: Vec<(&str, Node)>) -> Vec<(String, Node)> {
    entries.into_iter().map(|(k, v)| (s(k), v)).collect()
}

fn table(entries: Vec<(&str, Node)>) -> CheckTable {
    CheckTable { entries: t(entries), shown: vec![] }
}

#[test]
fn navigate_to_the_checks() {
    let doc = t(vec![(
        "tool",
        Node::Table(t(vec![("check-config", Node::Table(t(vec![("x", Node::Int(1))]), false))]), false),
    )]);
    let keys = vec![s("tool"), s("check-config")];
    let found = navigate(&doc, &keys).ok().expect("the keys lead to a table");
    assert_eq!(found.len(), 1);
    assert_eq!(found[0].0, "x");
    assert_eq!(navigate(&doc, &vec![s("absent")]).err(), Some(LocateError::MissingKey(s("absent"))));
    assert_eq!(
        navigate(&doc, &vec![s("tool"), s("check-config"), s("x")]).err(),
        Some(LocateError::NotATable(s("x")))
    );
}

#[test]
fn locate_included_files_and_checks() {
    let checks = t(vec![
        ("include", Node::Array(vec![Node::Str(s("a.toml")), Node::Str(s("b.toml"))])),
        ("lines_present", Node::Table(t(vec![("file", Node::Str(s("/x")))]), false)),
        (
            "file_absent",
            Node::TableArray(vec![Node::Table(vec![], false), Node::Table(vec![], false)]),
        ),
        ("ignored", Node::Int(3)),
    ]);
    let found = locate_checks(&checks).expect("includes are strings");
    assert_eq!(
        found,
        vec![
            Located::Include(s("a.toml")),
            Located::Include(s("b.toml")),
            Located::Check(s("lines_present"), None),
            Located::Check(s("file_absent"), Some(0)),
            Located::Check(s("file_absent"), Some(1)),
        ]
    );
    assert!(locate_checks(&t(vec![("include", Node::Array(vec![Node::Int(1)]))])).is_none());
}

#[test]
fn read_checks_by_kind() {
    let file = s("file:///checks/check-config.toml");
    let checks = table(vec![("file", Node::Str(s("/tmp/x"))), ("lines", Node::Str(s("a")))]);
    let check = get_check_from_check_table(file.clone(), "lines_present", &checks, None, None)
        .expect("read")
        .ok()
        .expect("a valid check");
    assert_eq!(check.checker_type(), "lines_present");
    assert_eq!(check.checker_object(), "/tmp/x");
    assert!(check.generic_checker().fixable);

    let unknown = get_check_from_check_table(file.clone(), "bogus", &checks, None, None).expect("read");
    assert_eq!(unknown.err(), Some(CheckDefinitionError::UnknownCheckType(s("bogus"))));

    let bad_tags = table(vec![("file", Node::Str(s("/tmp/x"))), ("tags", Node::Str(s("a")))]);
    let refused = get_check_from_check_table(file.clone(), "file_absent", &bad_tags, None, None).expect("read");
    assert_eq!(refused.err(), Some(CheckDefinitionError::InvalidDefinition(s("`tags` is not an array"))));

    let not_fixable = table(vec![("file", Node::Str(s("/tmp/x"))), ("fixable", Node::Bool(false)), ("tags", Node::Array(vec![Node::Str(s("t"))]))]);
    let check = get_check_from_check_table(file, "file_absent", &not_fixable, None, None)
        .expect("read")
        .ok()
        .expect("a valid check");
    assert!(!check.generic_checker().fixable);
    assert_eq!(check.generic_checker().tags, vec![s("t")]);
}

#[test]
fn unknown_file_types_and_git_errors() {
    let generic = check_config::checks::GenericChecker {
        file_with_checks: s("file:///c.toml"),
        tags: vec![],
        fixable: true,
    };
    let fc = FileCheck::from_check_table(generic, &table(vec![("file", Node::Str(s("/tmp/x.ini")))]), None, None)
        .ok()
        .expect("a file check");
    assert_eq!(fc.format(), Some(Err(CheckError::UnknownFileType(s("ini")))));

    let git = GitFetched::from_check_table(
        check_config::checks::GenericChecker { file_with_checks: s("file:///c.toml"), tags: vec![], fixable: true },
        &table(vec![
            ("dir", Node::Str(s("/tmp/repo"))),
            ("repo", Node::Str(s("https://example.com/r.git"))),
            ("tag", Node::Str(s("v1"))),
        ]),
        None,
        None,
    )
    .ok()
    .expect("a git check");
    assert!(matches!(git.plan(true, true, Some(Err(s("no remote"))), false), Err(CheckError::GitError(m)) if m == "no remote"));
}

#[test]
fn relative_paths_need_a_working_directory() {
    assert!(matches!(ReadablePath::from_string("relative/file.toml", None, None, None), Err(UriError::InvalidUrl)));
    let p = ReadablePath::from_string("relative/file.toml", None, None, Some(s("/work"))).ok().expect("a path");
    assert_eq!(p.url, "file:///work/relative/file.toml");
}

#[test]
fn definition_error_messages() {
    assert_eq!(CheckDefinitionError::InvalidDefinition(s("x")).message(), "invalid check definition");
    assert_eq!(CheckDefinitionError::UnknownCheckType(s("x")).message(), "Unknown checktype");
}

#[test]
fn lines_must_be_given_unless_a_marker_supplies_a_default() {
    let file = s("file:///checks/check-config.toml");
    let no_lines = table(vec![("file", Node::Str(s("/tmp/x")))]);
    for kind in ["lines_present", "lines_absent"] {
        let refused = get_check_from_check_table(file.clone(), kind, &no_lines, None, None).expect("read");
        assert_eq!(
            refused.err(),
            Some(CheckDefinitionError::InvalidDefinition(s("lines is not present in check_table")))
        );
    }
    let with_marker = table(vec![("file", Node::Str(s("/tmp/x"))), ("marker", Node::Str(s("# m")))]);
    let check = get_check_from_check_table(file, "lines_absent", &with_marker, None, None).expect("read");
    assert!(check.is_ok());
}
