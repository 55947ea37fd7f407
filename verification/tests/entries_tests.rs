use check_config::base::{CheckError, CheckResult};
use check_config::checks::{EntryRegexMatch, FileCheck, GenericChecker};
use check_config::entries::{
    add_entries, make_key_path, remove_entries, set_values, unset_keys, validate_key_value_regex,
    RegexValidateResult,
};
use check_config::node::{clone_entries, node_equal, Format, Node};
use check_config::uri::WritablePath;

fn s(x: &str) -> String {
    x.to_string()
}

fn t(entries: Vec<(&str, Node)>) -> Vec<(String, Node)> {
    entries.into_iter().map(|(k, v)| (s(k), v)).collect()
}

fn ints(v: &[i128]) -> Node {
    Node::Array(v.iter().map(|i| Node::Int(*i)).collect())
}

fn same(a: Vec<(String, Node)>, b: Vec<(String, Node)>) -> bool {
    node_equal(Format::Json, &Node::Table(a, false), &Node::Table(b, false))
}

#[test]
fn add_entries_adds_missing_items() {
    let doc = t(vec![("list", ints(&[1, 2]))]);
    let add = t(vec![("list", ints(&[2, 3])), ("nested", Node::Table(t(vec![("x", ints(&[1]))]), false))]);
    let out = add_entries(Format::Json, &doc, false, &add).unwrap();
    let want = t(vec![("list", ints(&[1, 2, 3])), ("nested", Node::Table(t(vec![("x", ints(&[1]))]), false))]);
    assert!(same(clone_entries(&out), want));
    let again = add_entries(Format::Json, &out, false, &add).unwrap();
    assert!(same(again, out));
}

#[test]
fn add_entries_refuses_a_key_of_another_type() {
    let doc = t(vec![("list", Node::Int(1))]);
    let add = t(vec![("list", ints(&[2]))]);
    assert!(add_entries(Format::Toml, &doc, false, &add).is_none());
}

#[test]
fn toml_datetimes_are_never_equal() {
    let d = Node::Datetime(s("1979-05-27"));
    assert!(!node_equal(Format::Toml, &d, &d));
    assert!(node_equal(Format::Json, &Node::Str(s("a")), &Node::Str(s("a"))));
    let nan = Node::Float(f64::NAN.to_bits());
    assert!(!node_equal(Format::Json, &nan, &nan));
    assert!(node_equal(Format::Yaml, &nan, &nan));
    assert!(node_equal(Format::Json, &Node::Float(0.0f64.to_bits()), &Node::Float((-0.0f64).to_bits())));
}

#[test]
fn entry_absent_test_remove_entries_with_tables() {
    let doc = t(vec![(
        "key",
        Node::Table(
            t(vec![(
                "list",
                Node::Array(vec![
                    Node::Table(t(vec![("key", Node::Str(s("1")))]), true),
                    Node::Table(t(vec![("key", Node::Str(s("2")))]), true),
                ]),
            )]),
            false,
        ),
    )]);
    let remove = t(vec![(
        "key",
        Node::Table(
            t(vec![(
                "list",
                Node::Array(vec![
                    Node::Table(t(vec![("key", Node::Str(s("3")))]), true),
                    Node::Table(t(vec![("key", Node::Str(s("2")))]), true),
                    Node::Table(t(vec![("key", Node::Str(s("4")))]), true),
                ]),
            )]),
            false,
        ),
    )]);
    let out = remove_entries(Format::Toml, &doc, false, &remove).unwrap();
    let want = t(vec![(
        "key",
        Node::Table(t(vec![("list", Node::Array(vec![Node::Table(t(vec![("key", Node::Str(s("1")))]), true)]))]), false),
    )]);
    assert!(same(out, want));
}

#[test]
fn unset_and_set_keys() {
    let doc = t(vec![("a", Node::Int(1)), ("b", Node::Table(t(vec![("c", Node::Int(2)), ("d", Node::Int(3))]), false))]);
    let unset = t(vec![("a", Node::Table(vec![], false)), ("b", Node::Table(t(vec![("c", Node::Table(vec![], true))]), false))]);
    let out = unset_keys(Format::Toml, &doc, false, &unset);
    let want = t(vec![("b", Node::Table(t(vec![("d", Node::Int(3))]), false))]);
    assert!(same(out, want));

    let set = t(vec![("a", Node::Int(5)), ("b", Node::Table(t(vec![("e", Node::Datetime(s("2024-01-01")))]), false))]);
    let out = set_values(Format::Json, &doc, false, &set).unwrap();
    let want = t(vec![
        ("a", Node::Int(5)),
        ("b", Node::Table(t(vec![("c", Node::Int(2)), ("d", Node::Int(3)), ("e", Node::Str(s("2024-01-01")))]), false)),
    ]);
    assert!(same(out, want));
}

#[test]
fn key_paths() {
    assert_eq!(make_key_path("", "key"), "key");
    assert_eq!(make_key_path("a.b", "key"), "a.b.key");
}

#[test]
fn validate_regexes() {
    let doc = t(vec![("key", Node::Table(t(vec![("key", Node::Str(s("value")))]), false))]);
    let ok = t(vec![("key", Node::Table(t(vec![("key", Node::Str(s("v.*")))]), false))]);
    let (r, _) = validate_key_value_regex(Format::Toml, &doc, false, &ok, "", &None);
    assert_eq!(r, Ok(RegexValidateResult::Valid));
    let bad = t(vec![("key", Node::Table(t(vec![("key", Node::Str(s("^x")))]), false))]);
    let (r, _) = validate_key_value_regex(Format::Toml, &doc, false, &bad, "", &None);
    assert_eq!(
        r,
        Ok(RegexValidateResult::Invalid { key: s("key.key"), regex: s("^x"), found: s("value") })
    );
    let missing = t(vec![("other", Node::Str(s("x")))]);
    let (r, out) = validate_key_value_regex(Format::Toml, &doc, false, &missing, "", &Some(s("ph")));
    assert_eq!(r, Ok(RegexValidateResult::Invalid { key: s("other"), regex: s("x"), found: s("") }));
    assert!(matches!(&out[1].1, Node::Str(v) if v == "ph"));
    let broken = t(vec![("key", Node::Table(t(vec![("key", Node::Str(s("(")))]), false))]);
    let (r, _) = validate_key_value_regex(Format::Toml, &doc, false, &broken, "", &None);
    assert!(matches!(r, Err(CheckError::InvalidRegex(_))));
}

#[test]
fn regex_matched_check_decides() {
    let fc = FileCheck {
        generic_check: GenericChecker { file_with_checks: s("file:///c.toml"), tags: vec![], fixable: true },
        file_to_check: WritablePath::new(s("/tmp/x.toml")),
        file_type_override: None,
    };
    let check = EntryRegexMatch::new(fc, t(vec![("name", Node::Str(s("^a")))]), Some(s("abc")));
    let doc = t(vec![]);
    let (r, w) = check.decide(Format::Toml, &doc, false).unwrap();
    assert_eq!(
        r,
        CheckResult::FixNeeded(s("content of key does not match regex (setting placeholder to abc)"))
    );
    assert!(w.is_none());
    let (r, w) = check.decide(Format::Toml, &doc, true).unwrap();
    assert_eq!(
        r,
        CheckResult::FixExecuted(s("content of key does not match regex (setting placeholder to abc)"))
    );
    let written = w.unwrap();
    let (r, _) = check.decide(Format::Toml, &written, false).unwrap();
    assert_eq!(r, CheckResult::NoFixNeeded);
}

#[test]
fn set_values_twice_changes_nothing() {
    let doc = t(vec![("a", Node::Int(1)), ("b", Node::Table(t(vec![("c", Node::Int(2))]), false))]);
    let set = t(vec![
        ("b", Node::Table(t(vec![("c", Node::Int(7)), ("d", Node::Str(s("x")))]), false)),
        ("a", Node::Int(5)),
        ("z", Node::Bool(true)),
    ]);
    let once = set_values(Format::Toml, &doc, false, &set).unwrap();
    let want = t(vec![
        ("a", Node::Int(5)),
        ("b", Node::Table(t(vec![("c", Node::Int(7)), ("d", Node::Str(s("x")))]), false)),
        ("z", Node::Bool(true)),
    ]);
    assert!(same(clone_entries(&once), want));
    let twice = set_values(Format::Toml, &once, false, &set).unwrap();
    assert!(same(twice, once));
}

#[test]
fn unset_keys_twice_changes_nothing() {
    let doc = t(vec![
        ("a", Node::Int(1)),
        ("b", Node::Table(t(vec![("c", Node::Int(2)), ("d", Node::Int(3))]), false)),
        ("e", Node::Int(4)),
    ]);
    let unset = t(vec![
        ("a", Node::Table(vec![], false)),
        ("b", Node::Table(t(vec![("c", Node::Table(vec![], true))]), false)),
        ("missing", Node::Table(vec![], false)),
    ]);
    for fmt in [Format::Toml, Format::Json, Format::Yaml] {
        let once = unset_keys(fmt, &doc, false, &unset);
        let want = t(vec![("b", Node::Table(t(vec![("d", Node::Int(3))]), false)), ("e", Node::Int(4))]);
        assert!(same(clone_entries(&once), want));
        let twice = unset_keys(fmt, &once, false, &unset);
        assert!(same(twice, once));
    }
}

#[test]
fn entries_absent_are_left_alone() {
    let doc = t(vec![("list", ints(&[1, 2])), ("table", Node::Table(t(vec![("x", ints(&[5]))]), false))]);
    let remove = t(vec![
        ("list", ints(&[3, 4])),
        ("table", Node::Table(t(vec![("x", ints(&[6]))]), false)),
        ("missing", ints(&[1])),
    ]);
    let out = remove_entries(Format::Json, &doc, false, &remove).unwrap();
    assert!(same(out, clone_entries(&doc)));
    // an item held twice is removed once per fix
    let twice = t(vec![("list", ints(&[1, 1]))]);
    let out = remove_entries(Format::Json, &twice, false, &t(vec![("list", ints(&[1]))])).unwrap();
    assert!(same(out, t(vec![("list", ints(&[1]))])));
}
