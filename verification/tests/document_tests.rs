use check_config::base::{CheckDefinitionError, CheckError};
use check_config::checks::{parse_document, path_extension, FileCheck, GenericChecker};
use check_config::node::{Format, Node};
use check_config::registry::{kept_checks, read_checks_from_text, Kept, LocateError, ReadChecksError, ReadItem};
use check_config::uri::WritablePath;

fn s(x: &str) -> String {
    x.to_string()
}

fn shown<T: std::fmt::Debug>(x: &T) -> String {
    format!("{x:?}")
}

fn file_check(path: &str, file_type: Option<&str>) -> FileCheck {
    FileCheck {
        generic_check: GenericChecker { file_with_checks: s("file:///c.toml"), tags: vec![], fixable: true },
        file_to_check: WritablePath { path: s(path) },
        file_type_override: file_type.map(s),
    }
}

#[test]
fn toml_documents_are_parsed_in_order() {
    let doc = parse_document(Format::Toml, "b = 1\na = \"x\"\n[t]\nc = true\n").ok().expect("valid toml");
    assert_eq!(doc.len(), 3);
    assert_eq!(shown(&doc[0]), shown(&(s("b"), Node::Int(1))));
    assert_eq!(shown(&doc[1]), shown(&(s("a"), Node::Str(s("x")))));
    assert_eq!(shown(&doc[2]), shown(&(s("t"), Node::Table(vec![(s("c"), Node::Bool(true))], false))));
    let inline = parse_document(Format::Toml, "t = { c = 2 }\n").ok().expect("valid toml");
    assert_eq!(shown(&inline[0]), shown(&(s("t"), Node::Table(vec![(s("c"), Node::Int(2))], true))));
    assert!(matches!(parse_document(Format::Toml, "a = \n"), Err(CheckError::InvalidFileFormat(_))));
}

#[test]
fn json_and_yaml_documents_hold_an_object() {
    let doc = parse_document(Format::Json, "{\"a\": [1, \"x\"]}").ok().expect("valid json");
    assert_eq!(shown(&doc), shown(&vec![(s("a"), Node::Array(vec![Node::Int(1), Node::Str(s("x"))]))]));
    assert!(parse_document(Format::Json, "  \n").ok().expect("blank json").is_empty());
    assert_eq!(
        parse_document(Format::Json, "[1]").err(),
        Some(CheckError::InvalidFileFormat(s("No object")))
    );
    assert!(matches!(parse_document(Format::Json, "{"), Err(CheckError::InvalidFileFormat(m)) if m != "No object"));

    let doc = parse_document(Format::Yaml, "a:\n  b: 1\n").ok().expect("valid yaml");
    assert_eq!(shown(&doc), shown(&vec![(s("a"), Node::Table(vec![(s("b"), Node::Int(1))], false))]));
    assert!(parse_document(Format::Yaml, "\n").ok().expect("blank yaml").is_empty());
    assert_eq!(
        parse_document(Format::Yaml, "- 1\n").err(),
        Some(CheckError::InvalidFileFormat(s("No object")))
    );
}

#[test]
fn the_mapping_of_a_file_follows_its_format() {
    let (format, text, doc) = file_check("/tmp/x.json", None)
        .mapping_of(Some(s("{\"a\": 1}")))
        .expect("an extension")
        .ok()
        .expect("a json object");
    assert_eq!(format, Format::Json);
    assert_eq!(text, "{\"a\": 1}\n");
    assert_eq!(shown(&doc), shown(&vec![(s("a"), Node::Int(1))]));

    let (format, _, doc) = file_check("/tmp/x.conf", Some("yaml"))
        .mapping_of(None)
        .expect("an extension")
        .ok()
        .expect("an empty file");
    assert_eq!(format, Format::Yaml);
    assert!(doc.is_empty());

    assert_eq!(
        file_check("/tmp/x.ini", None).mapping_of(None).expect("an extension").err(),
        Some(CheckError::UnknownFileType(s("ini")))
    );
    assert!(file_check("/tmp/noext", Some("toml")).mapping_of(None).is_none());
}

#[test]
fn checks_are_read_from_the_text_of_a_check_file() {
    let text = "[tool.check-config]\ninclude = [\"other.toml\"]\n\n[tool.check-config.file_absent]\nfile = \"/tmp/a\"\n\n[[tool.check-config.file_present]]\nfile = \"/tmp/b\"\n\n[[tool.check-config.file_present]]\nfile = \"/tmp/c\"\nregex = \"[a-\"\n\n[tool.check-config.bogus]\nfile = \"/tmp/d\"\n";
    let keys = vec![s("tool"), s("check-config")];
    let items = read_checks_from_text(s("file:///p/pyproject.toml"), text, &keys, None, None)
        .ok()
        .expect("a valid check file");
    assert_eq!(items.len(), 5);
    assert!(matches!(&items[0], ReadItem::Include(u) if u == "other.toml"));
    match &items[1] {
        ReadItem::Check(t, Some(Ok(c))) => {
            assert_eq!(t, "file_absent");
            assert_eq!(c.checker_object(), "/tmp/a");
        }
        _ => panic!("a file_absent check"),
    }
    match &items[2] {
        ReadItem::Check(t, Some(Ok(c))) => {
            assert_eq!(t, "file_present");
            assert_eq!(c.checker_object(), "/tmp/b");
        }
        _ => panic!("a file_present check"),
    }
    match &items[3] {
        ReadItem::Check(_, Some(Err(e))) => {
            assert_eq!(e, &CheckDefinitionError::InvalidDefinition(s("regex ( \"[a-\") is not a valid regex")))
        }
        _ => panic!("a refused regex"),
    }
    assert!(matches!(&items[4], ReadItem::Check(t, Some(Err(CheckDefinitionError::UnknownCheckType(u)))) if t == "bogus" && u == "bogus"));
}

#[test]
fn check_files_that_cannot_be_read() {
    let keys = vec![s("tool")];
    assert!(matches!(
        read_checks_from_text(s("file:///c.toml"), "x = ", &keys, None, None),
        Err(ReadChecksError::InvalidToml(_))
    ));
    assert!(matches!(
        read_checks_from_text(s("file:///c.toml"), "a = 1\n", &keys, None, None),
        Err(ReadChecksError::Locate(LocateError::MissingKey(k))) if k == "tool"
    ));
    assert!(matches!(
        read_checks_from_text(s("file:///c.toml"), "tool = 1\n", &keys, None, None),
        Err(ReadChecksError::Locate(LocateError::NotATable(k))) if k == "tool"
    ));
    assert!(matches!(
        read_checks_from_text(s("file:///c.toml"), "include = [1]\n", &vec![], None, None),
        Err(ReadChecksError::IncludeNotAString)
    ));
}

#[test]
fn the_extension_of_a_path_follows_its_last_dot() {
    assert_eq!(path_extension("/a/b.tar.gz"), Some(s("gz")));
    assert_eq!(path_extension("/a/.bashrc"), None);
    assert_eq!(path_extension("/a/.config.yaml"), Some(s("yaml")));
    assert_eq!(path_extension("/a/noext"), None);
    assert_eq!(path_extension("/a/b."), Some(s("")));
    assert_eq!(path_extension("/"), None);
}

#[test]
fn refused_definitions_are_skipped_and_the_others_kept() {
    let text = "[[file_absent]]\nfile = \"/tmp/a\"\n\n[[file_absent]]\nfile = 3\n\n[[file_absent]]\nfile = \"/tmp/c\"\n";
    let items = read_checks_from_text(s("file:///c.toml"), text, &vec![], None, None).ok().expect("valid toml");
    assert_eq!(items.len(), 3);
    let kept = kept_checks(items);
    let objects: Vec<String> = kept
        .iter()
        .map(|k| match k {
            Kept::Check(c) => c.checker_object(),
            Kept::Include(u) => u.clone(),
        })
        .collect();
    assert_eq!(objects, vec![s("/tmp/a"), s("/tmp/c")]);
}
