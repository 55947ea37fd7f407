use check_config::base::{CheckDefinitionError, CheckError, CheckResult};
use check_config::checks::GenericChecker;
use check_config::package_checks::{read_package_from_check_table, PackageAbsent, PackagePresent};
use check_config::formats::{Json, Toml, Yaml};
use check_config::fs_checks::exactly_one;
use check_config::node::Format;
use check_config::package::{
    install, is_installed, is_upgradable, make_command_and_args, python_is_installed, split_lines,
    uninstall, CustomInstaller,
};
use check_config::uri::{join_path, python_package_dir, PythonUrlError, ReadablePath, WritablePath};

fn s(x: &str) -> String {
    x.to_string()
}

fn custom(install_command: Option<&str>) -> CustomInstaller {
    CustomInstaller {
        name: s("tool"),
        install_command: install_command.map(s),
        version_command: s("tool --version"),
        uninstall_command: None,
        version: s("1.2.3"),
    }
}

#[test]
fn custom_package_commands() {
    let c = install(&custom(Some("make install")), false).unwrap();
    assert_eq!(c.program, "sh");
    assert_eq!(c.args, vec![s("-c"), s("make install")]);
    let w = make_command_and_args("dir", true);
    assert_eq!((w.program, w.args), (s("cmd"), vec![s("/C"), s("dir")]));
    assert_eq!(
        install(&custom(None), false).err(),
        Some(CheckError::String(s("install_command is not specified")))
    );
    assert_eq!(
        uninstall(&custom(None), false).err(),
        Some(CheckError::String(s("uninstall_command is not specified")))
    );
    assert_eq!(is_installed(&custom(None), Ok(s("tool 1.2.3\n"))), Ok(true));
    assert_eq!(is_installed(&custom(None), Ok(s("tool 1.2.4\n"))), Ok(false));
    assert_eq!(is_upgradable(&custom(None)), Ok(true));
}

#[test]
fn python_package_lookup() {
    assert_eq!(split_lines("a\r\nb\n\nc"), vec![s("a"), s("b"), s(""), s("c")]);
    assert_eq!(split_lines("a\n"), vec![s("a")]);
    let out = "ruff 0.5.0\n- ruff\nblack 24.1\n";
    assert!(python_is_installed(out, "ruff", &None));
    assert!(python_is_installed(out, "ruff", &Some(s("0.5.0"))));
    assert!(!python_is_installed(out, "ruff", &Some(s("0.6.0"))));
    assert!(!python_is_installed(out, "mypy", &None));
    assert!(!python_is_installed("ruff 1\nruff 2\n", "ruff", &None));
}

#[test]
fn file_types() {
    assert_eq!(Json::new().format(), Format::Json);
    assert_eq!(Toml::new().format(), Format::Toml);
    assert_eq!(Yaml::new().format(), Format::Yaml);
}

#[test]
fn one_of_three() {
    assert!(exactly_one(true, false, false));
    assert!(!exactly_one(true, true, false));
    assert!(!exactly_one(false, false, false));
}

#[test]
fn paths_are_joined_and_resolved() {
    assert_eq!(join_path("/a", "b"), "/a/b");
    assert_eq!(join_path("/a/", "b"), "/a/b");
    assert_eq!(join_path("/a", "/b"), "/b");
    assert_eq!(join_path("", "b"), "b");
    let p = WritablePath::resolve("/abs/x", None, None).unwrap();
    assert_eq!(p.as_str(), "/abs/x");
    assert!(WritablePath::resolve("rel", None, None).is_err());
}

#[test]
fn test_config_readable_path() {
    let base = ReadablePath::from_url(s("file:///some/base/dir/config.toml"));
    let path = ReadablePath::from_string("config:test.toml", Some(&base), None, None).expect("path is ok");
    assert_eq!(url::Url::parse(&path.url).unwrap().path(), "/some/base/dir/test.toml");
}

#[test]
fn test_config_readable_path_with_url_base() {
    let base = ReadablePath::from_string("https://test.nl/some/base/dir/config.toml", None, None, None).unwrap();
    let path = ReadablePath::from_string("config:test.toml", Some(&base), None, None).expect("path is ok");
    assert_eq!(url::Url::parse(&path.url).unwrap().path(), "/some/base/dir/test.toml");
    let path = ReadablePath::from_string("config:sub/test.toml", Some(&base), None, None).expect("path is ok");
    assert_eq!(url::Url::parse(&path.url).unwrap().path(), "/some/base/dir/sub/test.toml");
}

#[test]
fn test_uris() {
    let path = |input: &str, base: Option<&ReadablePath>| {
        let p = ReadablePath::from_string(input, base, None, Some(s("/work/check-config"))).unwrap();
        url::Url::parse(&p.url).unwrap().path().to_string()
    };
    assert_eq!(path("file:///path/to/test", None), "/path/to/test");
    assert_eq!(path("https://path/to/test", None), "/to/test");
    let py = ReadablePath::from_string("py://pathlib/to/test", None, None, None).unwrap();
    assert_eq!(py.python_package(), Some(Some(s("pathlib"))));
    let inside = py.in_python_package("/path/to/python/lib/site-packages/pathlib\n").unwrap();
    assert_eq!(url::Url::parse(&inside.url).unwrap().path(), "/path/to/python/lib/site-packages/to/test");
    assert!(path("pathlib", None).ends_with("check-config/pathlib"));
    assert_eq!(path("/path/to/test", None), "/path/to/test");
    let other = ReadablePath::from_string("https://domain/other/path", None, None, None).unwrap();
    assert_eq!(path("https://domain/to/test", Some(&other)), "/to/test");
    assert_eq!(path("config:test", Some(&other)), "/other/test");
    let other_dir = ReadablePath::from_string("https://domain/other/path/", None, None, None).unwrap();
    assert_eq!(path("config:test", Some(&other_dir)), "/other/path/test");
}

#[test]
fn python_urls() {
    assert_eq!(
        python_package_dir("  /usr/lib/python3/site-packages/pkg/__init__.py\n"),
        Some(s("file:///usr/lib/python3/site-packages/pkg/"))
    );
    assert_eq!(python_package_dir("no slash here"), None);
    let file = ReadablePath::from_string("file:///a/b", None, None, None).unwrap();
    assert_eq!(file.python_package(), None);
    let py = ReadablePath::from_string("py://pkg/data/x.toml", None, None, None).unwrap();
    let inside = py.in_python_package("/usr/lib/pkg/__init__.py").unwrap();
    assert_eq!(inside.url, "file:///usr/lib/pkg/data/x.toml");
    assert_eq!(py.in_python_package("nothing").err(), Some(PythonUrlError::NotAPackage));
}

fn package_table(entries: Vec<(&str, &str)>) -> check_config::checkdef::CheckTable {
    check_config::checkdef::CheckTable {
        entries: entries.into_iter().map(|(k, v)| (s(k), check_config::node::Node::Str(s(v)))).collect(),
        shown: vec![],
    }
}

#[test]
fn packages_read_from_checks() {
    let python = read_package_from_check_table(&package_table(vec![("type", "Python"), ("package", "ruff"), ("version", "0.5")]))
        .ok()
        .expect("a python package");
    assert_eq!(python.display(), "python: ruff");
    let custom = read_package_from_check_table(&package_table(vec![
        ("type", "custom"),
        ("package", "tool"),
        ("version_command", "tool --version"),
        ("version", "1.2"),
    ]))
    .ok()
    .expect("a custom package");
    assert_eq!(custom.display(), "command: tool");
    assert_eq!(
        read_package_from_check_table(&package_table(vec![("type", "npm"), ("package", "x")])).err(),
        Some(CheckDefinitionError::InvalidDefinition(s("unknown package_type npm")))
    );
    assert_eq!(
        read_package_from_check_table(&package_table(vec![("package", "x")])).err(),
        Some(CheckDefinitionError::InvalidDefinition(s("No type present")))
    );
    assert_eq!(
        read_package_from_check_table(&package_table(vec![("type", "rust")])).err(),
        Some(CheckDefinitionError::InvalidDefinition(s("No package present")))
    );
}

#[test]
fn package_checks_decide() {
    let generic = GenericChecker { file_with_checks: s("file:///c.toml"), tags: vec![], fixable: true };
    let table = package_table(vec![("type", "python"), ("package", "ruff")]);
    let present = PackagePresent::from_check_table(generic, &table).ok().expect("a check");
    assert_eq!(present.plan(Ok(true), Ok(true), false).ok(), Some((CheckResult::NoFixNeeded, false)));
    assert_eq!(
        present.plan(Ok(false), Ok(true), true).ok(),
        Some((CheckResult::FixExecuted(s("install package python: ruff")), true))
    );
    assert_eq!(present.plan(Ok(false), Err(CheckError::String(s("x"))), true).err(), Some(CheckError::String(s("x"))));
    let generic = GenericChecker { file_with_checks: s("file:///c.toml"), tags: vec![], fixable: true };
    let absent = PackageAbsent::from_check_table(generic, &table).ok().expect("a check");
    assert_eq!(
        absent.plan(Ok(true), false).ok(),
        Some((CheckResult::FixNeeded(s("uninstall package python: ruff")), false))
    );
    assert_eq!(absent.plan(Ok(false), true).ok(), Some((CheckResult::NoFixNeeded, false)));
}
