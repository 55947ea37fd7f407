use check_config::base::CheckResult;
use check_config::checkdef::CheckTable;
use check_config::checks::{FilePresent, GenericChecker};
use check_config::entries::{set_values, unset_keys};
use check_config::fs_checks::{DirCopied, DirPresent, GitFetched, SyncTarget};
use check_config::node::{clone_entries, node_equal, Format, Node};

fn s(x: &str) -> String {
    x.to_string()
}

fn generic() -> GenericChecker {
    GenericChecker { file_with_checks: s("file:///checks/check-config.toml"), tags: vec![], fixable: true }
}

fn table(entries: Vec<(&str, Node)>) -> CheckTable {
    CheckTable { entries: entries.into_iter().map(|(k, v)| (s(k), v)).collect(), shown: vec![] }
}

fn str_node(x: &str) -> Node {
    Node::Str(s(x))
}

fn t(entries: Vec<(&str, Node)>) -> Vec<(String, Node)> {
    entries.into_iter().map(|(k, v)| (s(k), v)).collect()
}

fn same(a: Vec<(String, Node)>, b: Vec<(String, Node)>) -> bool {
    node_equal(Format::Json, &Node::Table(a, false), &Node::Table(b, false))
}

fn dir_present(permissions: Option<&str>) -> DirPresent {
    let mut entries = vec![("dir", str_node("/tmp/file_to_check"))];
    if let Some(p) = permissions {
        entries.push(("permissions", str_node(p)));
    }
    DirPresent::from_check_table(generic(), &table(entries), Some(s("/home/u")), Some(s("/work"))).unwrap()
}

#[test]
fn test_dir_present() {
    let check = dir_present(None);
    assert_eq!(check.plan(false, None, false).unwrap().result, CheckResult::FixNeeded(s("create dir")));
    let fixed = check.plan(false, None, true).unwrap();
    assert_eq!(fixed.result, CheckResult::FixExecuted(s("create dir")));
    assert!(fixed.create);
    assert_eq!(check.plan(true, Some(0o40755), false).unwrap().result, CheckResult::NoFixNeeded);
}

#[test]
fn test_dir_present_with_permissions() {
    let check = dir_present(Some("777"));
    assert_eq!(
        check.plan(false, None, false).unwrap().result,
        CheckResult::FixNeeded(s("create dir\nfix permissions to 777"))
    );
    let fixed = check.plan(false, None, true).unwrap();
    assert_eq!(fixed.result, CheckResult::FixExecuted(s("create dir\nfix permissions to 777")));
    assert_eq!(fixed.permissions, Some(0o777));
    assert_eq!(check.plan(true, Some(0o40777), false).unwrap().result, CheckResult::NoFixNeeded);
}

#[test]
fn test_dir_copied_from_fs() {
    let check = DirCopied::from_check_table(
        generic(),
        &table(vec![("source", str_node("/tmp/src/dir_to_copy")), ("destination_dir", str_node("/tmp/dest"))]),
        None,
        None,
    )
    .expect("no errors");
    assert_eq!(check.destination.path, "/tmp/dest/dir_to_copy");
    assert_eq!(check.plan(true, false, false).unwrap().result, CheckResult::FixNeeded(s("copy dir")));
    let fixed = check.plan(true, false, true).unwrap();
    assert_eq!(fixed.result, CheckResult::FixExecuted(s("copy dir")));
    assert!(fixed.copy);
    assert_eq!(check.plan(true, true, false).unwrap().result, CheckResult::NoFixNeeded);
}

#[test]
fn test_git_fetched() {
    let check = GitFetched::from_check_table(
        generic(),
        &table(vec![
            ("dir", str_node("/tmp/file_to_check")),
            ("repo", str_node("https://github.com/mrijken/check-config.git")),
            ("branch", str_node("main")),
        ]),
        None,
        None,
    )
    .expect("correct checktable");
    assert_eq!(check.destination_dir, "/tmp/file_to_check");
    assert_eq!(check.plan(false, false, None, false).unwrap().result, CheckResult::FixNeeded(s("git clone")));
    let fixed = check.plan(false, false, None, true).unwrap();
    assert_eq!(fixed.result, CheckResult::FixExecuted(s("git clone")));
    assert!(fixed.clone && fixed.sync);
    assert_eq!(check.plan(true, true, Some(Ok(true)), false).unwrap().result, CheckResult::NoFixNeeded);
}

fn file_present(placeholder: Option<&str>) -> FilePresent {
    let mut entries = vec![("file", str_node("/tmp/file_to_check"))];
    if let Some(p) = placeholder {
        entries.push(("placeholder", str_node(p)));
    }
    FilePresent::from_check_table(generic(), &table(entries), None, None).unwrap()
}

#[test]
fn file_present_test_file_absent() {
    let plan = file_present(None).plan(false, None, None, true).unwrap();
    assert_eq!(plan.contents, Some(s("")));
}

#[test]
fn test_file_absent_with_placeholder() {
    let plan = file_present(Some("placeholder")).plan(false, None, None, true).unwrap();
    assert_eq!(plan.contents, Some(s("placeholder")));
}

#[test]
fn test_unset() {
    let doc = t(vec![
        ("package", Node::Table(t(vec![("name", str_node("foo")), ("version", str_node("1.0"))]), false)),
        (
            "dependencies",
            Node::Table(t(vec![("bar", Node::Table(t(vec![("version", str_node("1.0"))]), true)), ("foo", str_node("1.0"))]), false),
        ),
    ]);
    let unset = t(vec![("dependencies", Node::Table(t(vec![("bar", Node::Table(vec![], false))]), false))]);
    let out = unset_keys(Format::Toml, &doc, false, &unset);
    let want = t(vec![
        ("package", Node::Table(t(vec![("name", str_node("foo")), ("version", str_node("1.0"))]), false)),
        ("dependencies", Node::Table(t(vec![("foo", str_node("1.0"))]), false)),
    ]);
    assert!(same(out, want));
}

#[test]
fn test_set_simple() {
    let doc = t(vec![("package", Node::Table(t(vec![("name", str_node("foo")), ("version", str_node("1.0"))]), false))]);
    let set = t(vec![("package", Node::Table(t(vec![("name", str_node("bar"))]), false))]);
    let out = set_values(Format::Toml, &doc, false, &set).unwrap();
    let want = t(vec![("package", Node::Table(t(vec![("name", str_node("bar")), ("version", str_node("1.0"))]), false))]);
    assert!(same(out, want));
}

#[test]
fn test_set_nested() {
    let bar = |v: &str, f: &str| {
        Node::Table(t(vec![("version", str_node(v)), ("features", Node::Array(vec![str_node(f)]))]), false)
    };
    let doc = t(vec![
        ("package", Node::Table(t(vec![("name", str_node("foo")), ("version", str_node("1.0"))]), false)),
        ("dependencies", Node::Table(t(vec![("toml", str_node("1.0")), ("bar", bar("1.0", "foo"))]), false)),
    ]);
    let set = t(vec![("dependencies", Node::Table(t(vec![("bar", bar("2.0", "bar"))]), false))]);
    let out = set_values(Format::Toml, &doc, false, &set).unwrap();
    let want = t(vec![
        ("package", Node::Table(t(vec![("name", str_node("foo")), ("version", str_node("1.0"))]), false)),
        ("dependencies", Node::Table(t(vec![("toml", str_node("1.0")), ("bar", bar("2.0", "bar"))]), false)),
    ]);
    assert!(same(clone_entries(&out), want));
    let again = set_values(Format::Toml, &out, false, &set).unwrap();
    assert!(same(again, out));
}

#[test]
fn a_second_dir_present_check_after_a_fix_finds_nothing() {
    let check = dir_present(Some("750"));
    let fixed = check.plan(false, None, true).unwrap();
    assert_eq!(fixed.result, CheckResult::FixExecuted(s("create dir\nfix permissions to 750")));
    assert_eq!(fixed.permissions, Some(0o750));
    assert_eq!(check.plan(true, Some(0o40750), false).unwrap().result, CheckResult::NoFixNeeded);
}

#[test]
fn the_sync_target_is_the_branch_then_the_commit_then_the_tag() {
    let mut check = GitFetched::from_check_table(
        generic(),
        &table(vec![
            ("dir", str_node("/tmp/repo")),
            ("repo", str_node("https://example.com/r.git")),
            ("branch", str_node("main")),
        ]),
        None,
        None,
    )
    .expect("correct checktable");
    assert!(matches!(check.sync_target(), Some(SyncTarget::Branch { name, remote_ref, local_ref })
        if name == "main" && remote_ref == "refs/remotes/origin/main" && local_ref == "refs/heads/main"));
    check.branch = None;
    check.commit_hash = Some(s("abc"));
    check.tag = Some(s("v1"));
    assert!(matches!(check.sync_target(), Some(SyncTarget::Commit { hash }) if hash == "abc"));
    check.commit_hash = None;
    assert!(matches!(check.sync_target(), Some(SyncTarget::Tag { tag_ref }) if tag_ref == "refs/tags/v1"));
    check.tag = None;
    assert!(check.sync_target().is_none());
}
