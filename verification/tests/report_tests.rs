use check_config::base::CheckResult;
use check_config::report::{debug_list, listed_line, result_line, short_url_str};

fn s(x: &str) -> String {
    x.to_string()
}

#[test]
fn result_lines() {
    assert_eq!(
        result_line(&CheckResult::NoFixNeeded, "check.toml", "lines_present", "/tmp/f"),
        "✅ check.toml - lines_present - /tmp/f"
    );
    assert_eq!(
        result_line(&CheckResult::FixNeeded(s("remove file")), "c.toml", "file_absent", "/x"),
        "❌ c.toml - file_absent - /x - remove file"
    );
    assert_eq!(
        result_line(&CheckResult::FixExecuted(s("copy file")), "c.toml", "file_copied", "/y"),
        "🔧 c.toml - file_copied - /y - copy file"
    );
}

#[test]
fn listed_lines() {
    assert_eq!(debug_list(&vec![]), "[]");
    assert_eq!(debug_list(&vec![s("a"), s("b\"c")]), format!("{:?}", vec!["a", "b\"c"]));
    assert_eq!(
        listed_line(true, "c.toml", "dir_present", "/d", &vec![s("shell"), s("git")]),
        "⬜ c.toml - dir_present - /d - [\"shell\", \"git\"]"
    );
    assert_eq!(listed_line(false, "c.toml", "dir_present", "/d", &vec![]), " ✖️ c.toml - dir_present - /d - []");
}

#[test]
fn short_urls() {
    assert_eq!(short_url_str("file:///a/b/c.toml", "/a/b"), Some(s("b/c.toml")));
    assert_eq!(short_url_str("file:///a/x/c.toml", "/a/b"), Some(s("x/c.toml")));
    assert_eq!(short_url_str("https://example.com/c.toml", "/a/b"), Some(s("https://example.com/c.toml")));
    assert_eq!(short_url_str("not a url", "/a/b"), Some(s("not a url")));
}
