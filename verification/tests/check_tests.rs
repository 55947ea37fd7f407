use check_config::base::{CheckDefinitionError, CheckError, CheckResult};
use check_config::checkdef::CheckTable;
use check_config::checks::{FileAbsent, FilePresent, GenericChecker, LinesAbsent, LinesPresent};
use check_config::file_check::{file_contents, must_write, octal_string, parse_permissions};
use check_config::node::Node;

fn s(x: &str) -> String {
    x.to_string()
}

fn generic() -> GenericChecker {
    GenericChecker { file_with_checks: s("file:///checks/check-config.toml"), tags: vec![], fixable: true }
}

fn table(entries: Vec<(&str, Node)>) -> CheckTable {
    CheckTable { entries: entries.into_iter().map(|(k, v)| (s(k), v)).collect(), shown: vec![] }
}

fn str_node(x: &str) -> Node {
    Node::Str(s(x))
}

fn home() -> Option<String> {
    Some(s("/home/user"))
}

fn cwd() -> Option<String> {
    Some(s("/work"))
}

fn lines_present(lines: &str) -> LinesPresent {
    LinesPresent::from_check_table(
        generic(),
        &table(vec![("file", str_node("/tmp/file_to_check")), ("lines", str_node(lines))]),
        home(),
        cwd(),
    )
    .unwrap()
}

#[test]
fn lines_present_test_lines_present() {
    let check = lines_present("1\n2\n");
    // not existing file
    assert_eq!(
        check.plan(None, false).result,
        CheckResult::FixNeeded(s("Set file contents to: \n@@ -0,0 +1,2 @@\n+1\n+2\n"))
    );
    // empty file
    assert_eq!(
        check.plan(Some(s("")), false).result,
        CheckResult::FixNeeded(s("Set file contents to: \n@@ -1 +1,2 @@\n-\n+1\n+2\n"))
    );
    // file with other contents
    assert_eq!(
        check.plan(Some(s("a\n")), false).result,
        CheckResult::FixNeeded(s("Set file contents to: \n@@ -1 +1,3 @@\n a\n+1\n+2\n"))
    );
    let fixed = check.plan(Some(s("a\n")), true);
    assert_eq!(
        fixed.result,
        CheckResult::FixExecuted(s("Set file contents to: \n@@ -1 +1,3 @@\n a\n+1\n+2\n"))
    );
    assert_eq!(fixed.contents, Some(s("a\n1\n2\n")));
    // file with correct contents
    assert_eq!(check.plan(fixed.contents, false).result, CheckResult::NoFixNeeded);
}

#[test]
fn lines_present_test_add_line_ending_when_needed() {
    assert_eq!(lines_present("").lines, "");
    assert_eq!(lines_present("1").lines, "1\n");
    assert_eq!(lines_present("2\n").lines, "2\n");
}

#[test]
fn test_lines_present_with_regex() {
    let check = LinesPresent::from_check_table(
        generic(),
        &table(vec![
            ("file", str_node("/tmp/f")),
            ("lines", str_node("export EDITOR=hx")),
            ("replacement_regex", str_node("(?m)^export EDITOR=.*$")),
        ]),
        home(),
        cwd(),
    )
    .unwrap();
    // lines present
    assert_eq!(
        check.plan(Some(s("export SHELL=/bin/bash\nexport EDITOR=hx\n")), false).result,
        CheckResult::NoFixNeeded
    );
    // regex present
    let plan = check.plan(Some(s("export SHELL=/bin/bash\nexport EDITOR=vi")), true);
    assert_eq!(plan.contents, Some(s("export SHELL=/bin/bash\nexport EDITOR=hx\n")));
    // lines absent
    let plan = check.plan(Some(s("export SHELL=/bin/bash")), true);
    assert_eq!(plan.contents, Some(s("export SHELL=/bin/bash\nexport EDITOR=hx\n")));
}

#[test]
fn test_lines_present_with_regex_and_markers() {
    let r = LinesPresent::from_check_table(
        generic(),
        &table(vec![
            ("file", str_node("/tmp/f")),
            ("lines", str_node("export EDITOR=hx")),
            ("replacement_regex", str_node("(?m)^export EDITOR=.*$")),
            ("marker", str_node("# marker")),
        ]),
        home(),
        cwd(),
    );
    assert_eq!(
        r.err(),
        Some(CheckDefinitionError::InvalidDefinition(s(
            "Both `replacement_regex` and `marker` are defined; that is not allowed"
        )))
    );
}

#[test]
fn test_lines_present_with_markers() {
    let check = LinesPresent::from_check_table(
        generic(),
        &table(vec![
            ("file", str_node("/tmp/f")),
            ("lines", str_node("export EDITOR=hx")),
            ("marker", str_node("# marker")),
        ]),
        home(),
        cwd(),
    )
    .unwrap();
    let present = "export SHELL=/bin/bash\n# marker (check-config start)\nexport EDITOR=hx\n# marker (check-config end)\n";
    assert_eq!(check.plan(Some(s(present)), false).result, CheckResult::NoFixNeeded);
    let plan = check.plan(
        Some(s("export SHELL=/bin/bash\n# marker (check-config start)\nexport EDITOR=vi\n# marker (check-config end)\n")),
        true,
    );
    assert_eq!(plan.contents, Some(s(present)));
    let plan = check.plan(Some(s("export SHELL=/bin/bash")), true);
    assert_eq!(plan.contents, Some(s(present)));
}

#[test]
fn lines_between_markers_fix_is_stable() {
    let check = LinesPresent::from_check_table(
        generic(),
        &table(vec![
            ("file", str_node("/tmp/f")),
            ("lines", str_node("alias ll='ls -l'\n")),
            ("marker", str_node("# aliases")),
        ]),
        home(),
        cwd(),
    )
    .unwrap();
    for start in ["", "x = 1", "# aliases (check-config start)\nold\n# aliases (check-config end)\nrest\n"] {
        let fixed = check.plan(Some(s(start)), true).contents.unwrap_or(s(start));
        assert_eq!(check.plan(Some(fixed), false).result, CheckResult::NoFixNeeded);
    }
}

fn lines_absent(lines: &str, marker: Option<&str>) -> LinesAbsent {
    let mut entries = vec![("file", str_node("/tmp/file_to_check")), ("lines", str_node(lines))];
    if let Some(m) = marker {
        entries.push(("marker", str_node(m)));
    }
    LinesAbsent::from_check_table(generic(), &table(entries), home(), cwd()).unwrap()
}

#[test]
fn lines_absent_test_lines_absent() {
    let check = lines_absent("1\n2\n", None);
    assert_eq!(check.plan(None, false).result, CheckResult::NoFixNeeded);
    assert_eq!(check.plan(Some(s("")), false).result, CheckResult::NoFixNeeded);
    assert_eq!(check.plan(Some(s("a\n")), false).result, CheckResult::NoFixNeeded);
    assert_eq!(
        check.plan(Some(s("1\n2\nb\n")), false).result,
        CheckResult::FixNeeded(s("Set file contents to: \n@@ -1,3 +1 @@\n-1\n-2\n b\n"))
    );
    let fixed = check.plan(Some(s("1\n2\nb\n")), true);
    assert_eq!(
        fixed.result,
        CheckResult::FixExecuted(s("Set file contents to: \n@@ -1,3 +1 @@\n-1\n-2\n b\n"))
    );
    assert_eq!(fixed.contents, Some(s("b\n")));
    assert_eq!(check.plan(fixed.contents, false).result, CheckResult::NoFixNeeded);
}

#[test]
fn lines_absent_test_add_line_ending_when_needed() {
    assert_eq!(lines_absent("", None).lines, "");
    assert_eq!(lines_absent("1", None).lines, "1\n");
    assert_eq!(lines_absent("2\n", None).lines, "2\n");
}

#[test]
fn test_lines_absent_with_marker() {
    let check = LinesAbsent::from_check_table(
        generic(),
        &table(vec![("file", str_node("/tmp/f")), ("marker", str_node("# marker"))]),
        home(),
        cwd(),
    )
    .unwrap();
    assert_eq!(check.lines, "");
    let plan = check.plan(
        Some(s("1\n# marker (check-config start)\nblabla\n# marker (check-config end)")),
        true,
    );
    assert_eq!(plan.contents, Some(s("1\n")));
    assert_eq!(check.plan(plan.contents, false).result, CheckResult::NoFixNeeded);
}

fn file_present(placeholder: Option<&str>, permissions: Option<&str>, regex: Option<&str>) -> Result<FilePresent, CheckDefinitionError> {
    let mut entries = vec![("file", str_node("/tmp/file_to_check"))];
    let mut shown = vec![];
    if let Some(p) = placeholder {
        entries.push(("placeholder", str_node(p)));
    }
    if let Some(p) = permissions {
        entries.push(("permissions", str_node(p)));
    }
    if let Some(r) = regex {
        entries.push(("regex", str_node(r)));
        shown.push((s("regex"), format!("{:?}", r)));
    }
    let mut t = table(entries);
    t.shown = shown;
    FilePresent::from_check_table(generic(), &t, home(), cwd())
}

#[test]
fn file_present_test_file_present() {
    let check = file_present(None, None, None).unwrap();
    assert_eq!(
        check.plan(false, None, None, false).unwrap().result,
        CheckResult::FixNeeded(s("create file"))
    );
    let fixed = check.plan(false, None, None, true).unwrap();
    assert_eq!(fixed.result, CheckResult::FixExecuted(s("create file")));
    assert_eq!(fixed.contents, Some(s("")));
    assert_eq!(check.plan(true, None, Some(s("")), false).unwrap().result, CheckResult::NoFixNeeded);
}

#[test]
fn file_present_test_file_present_with_placeholder() {
    let check = file_present(Some("placeholder"), None, None).unwrap();
    assert_eq!(
        check.plan(false, None, None, false).unwrap().result,
        CheckResult::FixNeeded(s("create file\nset contents to placeholder"))
    );
    let fixed = check.plan(false, None, None, true).unwrap();
    assert_eq!(fixed.result, CheckResult::FixExecuted(s("create file\nset contents to placeholder")));
    assert_eq!(fixed.contents, Some(s("placeholder")));
    assert_eq!(
        check.plan(true, None, Some(s("placeholder")), false).unwrap().result,
        CheckResult::NoFixNeeded
    );
}

#[test]
fn test_file_present_with_permissions() {
    let check = file_present(None, Some("666"), None).unwrap();
    assert_eq!(
        check.plan(false, None, None, false).unwrap().result,
        CheckResult::FixNeeded(s("create file\nfix permissions to 666"))
    );
    let fixed = check.plan(false, None, None, true).unwrap();
    assert_eq!(fixed.result, CheckResult::FixExecuted(s("create file\nfix permissions to 666")));
    assert_eq!(fixed.permissions, Some(0o666));
    assert_eq!(
        check.plan(true, Some(0o100666), Some(s("")), false).unwrap().result,
        CheckResult::NoFixNeeded
    );
    assert_eq!(
        check.plan(true, Some(0o100644), Some(s("")), false).unwrap().result,
        CheckResult::FixNeeded(s("fix permissions to 666"))
    );
    assert!(matches!(check.plan(true, None, None, false), Err(CheckError::PermissionsNotAccessable)));
}

#[test]
fn test_file_present_with_regex() {
    let err = file_present(None, None, Some("^[0-9]{1,3$")).err().expect("must give error");
    assert_eq!(
        err,
        CheckDefinitionError::InvalidDefinition(s("regex (\"^[0-9]{1,3$\") is not a valid regex"))
    );
    let check = file_present(None, None, Some("[0-9]{1,3}")).unwrap();
    assert_eq!(
        check.plan(false, None, None, false).unwrap().result,
        CheckResult::FixNeeded(s("create file\nfix content to match regex \"[0-9]{1,3}\""))
    );
    assert_eq!(
        check.plan(true, None, Some(s("bla")), false).unwrap().result,
        CheckResult::FixNeeded(s("fix content to match regex \"[0-9]{1,3}\""))
    );
    assert_eq!(check.plan(true, None, Some(s("129")), false).unwrap().result, CheckResult::NoFixNeeded);
}

#[test]
fn file_absent_test_file_absent() {
    let check = FileAbsent::from_check_table(generic(), &table(vec![("file", str_node("/tmp/f"))]), home(), cwd())
        .unwrap();
    assert_eq!(check.plan(false, false).result, CheckResult::NoFixNeeded);
    let fixed = check.plan(true, true);
    assert_eq!(fixed.result, CheckResult::FixExecuted(s("remove file")));
    assert!(fixed.remove);
    assert_eq!(check.plan(false, false).result, CheckResult::NoFixNeeded);
}

#[test]
fn permissions_parse_and_print() {
    assert_eq!(parse_permissions("644"), Ok(0o644));
    assert_eq!(parse_permissions("+0755"), Ok(0o755));
    assert_eq!(parse_permissions("1000"), Err(s("permission is not a valid mode")));
    assert_eq!(parse_permissions("8"), Err(s("permission can not be converted to an octal mode")));
    assert_eq!(parse_permissions(""), Err(s("permission can not be converted to an octal mode")));
    assert_eq!(
        parse_permissions("77777777777777"),
        Err(s("permission can not be converted to an octal mode"))
    );
    assert_eq!(octal_string(0o644), "644");
    assert_eq!(octal_string(0), "0");
    assert_eq!(parse_permissions(&octal_string(0o751)), Ok(0o751));
}

#[test]
fn file_text_and_writes() {
    assert_eq!(file_contents(None), "");
    assert_eq!(file_contents(Some(s("a"))), "a\n");
    assert_eq!(file_contents(Some(s("a\r"))), "a\r");
    assert!(!must_write(true, ""));
    assert!(must_write(false, ""));
    assert!(must_write(true, "x"));
}

#[test]
fn file_definition_errors() {
    let r = FileAbsent::from_check_table(generic(), &table(vec![]), home(), cwd());
    assert_eq!(r.err(), Some(CheckDefinitionError::InvalidDefinition(s("file is not defined"))));
    let r = FileAbsent::from_check_table(generic(), &table(vec![("file", Node::Int(1))]), home(), cwd());
    assert_eq!(r.err(), Some(CheckDefinitionError::InvalidDefinition(s("file is not a string"))));
    let r = FileAbsent::from_check_table(generic(), &table(vec![("file", str_node("~/x"))]), None, cwd());
    assert_eq!(r.err(), Some(CheckDefinitionError::InvalidDefinition(s("invalid path"))));
    let ok = FileAbsent::from_check_table(generic(), &table(vec![("file", str_node("~/x"))]), home(), cwd()).unwrap();
    assert_eq!(ok.file_check.file_to_check.path, "/home/user/x");
    let rel = FileAbsent::from_check_table(generic(), &table(vec![("file", str_node("rel/x"))]), home(), cwd()).unwrap();
    assert_eq!(rel.file_check.file_to_check.path, "/work/rel/x");
}

#[test]
fn a_second_file_present_check_after_a_fix_finds_nothing() {
    let check = file_present(Some("v1"), Some("640"), Some("^v[0-9]")).unwrap();
    let fixed = check.plan(false, None, None, true).unwrap();
    assert_eq!(
        fixed.result,
        CheckResult::FixExecuted(s("create file\nset contents to v1\nfix permissions to 640\nfix content to match regex \"^v[0-9]\""))
    );
    assert_eq!(fixed.contents, Some(s("v1")));
    assert_eq!(fixed.permissions, Some(0o640));
    let again = check.plan(true, Some(0o100640), fixed.contents.clone(), false).unwrap();
    assert_eq!(again.result, CheckResult::NoFixNeeded);
    assert_eq!(check.plan(true, None, Some(s("v1")), false).err(), Some(CheckError::PermissionsNotAccessable));
}
