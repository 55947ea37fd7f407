//! The lines a run reports: one per check with its outcome, and one per check
//! when the checks are listed.
use vstd::prelude::*;

use crate::base::{CheckResult, CheckResultV};
use crate::external::{debug_quoted, debug_text, url_make_relative, url_parse, url_parsed, url_relative_of};
use crate::text::{concat, joined, opt_view};

verus! {

/// The text of the URL of a check file in a report: relative to the working
/// directory (the URL `file://` followed by it) when `url::Url::make_relative`
/// writes it so, else the URL as it is; `None` when the working directory
/// gives no URL.
pub open spec fn short_url_of(url: Seq<char>, cwd: Seq<char>) -> Option<Seq<char>> {
    let base = "file://"@ + cwd;
    if url_parsed(base) is None {
        None
    } else if url_parsed(url) is None {
        Some(url)
    } else {
        match url_relative_of(base, url) {
            Some(r) => Some(r),
            None => Some(url),
        }
    }
}

/// The URL of a check file as a report shows it (see `short_url_of`).
pub fn short_url_str(url: &str, cwd: &str) -> (r: Option<String>)
    ensures
        opt_view(r) == short_url_of(url@, cwd@),
{
    let base = concat("file://", cwd);
    proof {
        reveal_strlit("file://");
    }
    if url_parse(base.as_str()).is_none() {
        return None;
    }
    if url_parse(url).is_none() {
        return Some(String::from_str(url));
    }
    match url_make_relative(base.as_str(), url) {
        Some(r) => Some(r),
        None => Some(String::from_str(url)),
    }
}

/// The mark of an outcome and what follows the check's object in its line.
pub open spec fn outcome_parts(r: CheckResultV) -> (Seq<char>, Seq<char>) {
    match r {
        CheckResultV::NoFixNeeded => ("✅"@, Seq::empty()),
        CheckResultV::FixNeeded(a) => ("❌"@, " - "@ + a),
        CheckResultV::FixExecuted(a) => ("🔧"@, " - "@ + a),
    }
}

/// The line of a check's outcome: its mark, the check file, the type and the
/// object of the check, and the action, if any.
pub open spec fn result_text(r: CheckResultV, url: Seq<char>, check_type: Seq<char>, object: Seq<char>) -> Seq<
    char,
> {
    outcome_parts(r).0 + " "@ + url + " - "@ + check_type + " - "@ + object + outcome_parts(r).1
}

/// The line that reports a check's outcome (see `result_text`).
pub fn result_line(result: &CheckResult, url: &str, check_type: &str, object: &str) -> (r: String)
    ensures
        r@ == result_text(result@, url@, check_type@, object@),
{
    let (mark, action) = match result {
        CheckResult::NoFixNeeded => (String::from_str("✅"), String::new()),
        CheckResult::FixNeeded(a) => (String::from_str("❌"), concat(" - ", a.as_str())),
        CheckResult::FixExecuted(a) => (String::from_str("🔧"), concat(" - ", a.as_str())),
    };
    let mut line = mark;
    line.append(" ");
    line.append(url);
    line.append(" - ");
    line.append(check_type);
    line.append(" - ");
    line.append(object);
    line.append(action.as_str());
    line
}

/// `{:?}` of a list of texts: their quoted forms between brackets, separated
/// by `, `.
pub open spec fn debug_list_text(items: Seq<Seq<char>>) -> Seq<char> {
    "["@ + joined(items.map_values(|s: Seq<char>| debug_text(s)), ", "@) + "]"@
}

/// The text `{:?}` gives for a list of texts (see `debug_list_text`).
pub fn debug_list(items: &Vec<String>) -> (r: String)
    ensures
        r@ == debug_list_text(items@.map_values(|s: String| s@)),
{
    let ghost views = items@.map_values(|s: String| s@);
    let ghost quoted = views.map_values(|s: Seq<char>| debug_text(s));
    let mut parts: Vec<String> = Vec::new();
    let mut i: usize = 0;
    while i < items.len()
        invariant
            i <= items.len(),
            views == items@.map_values(|s: String| s@),
            quoted == views.map_values(|s: Seq<char>| debug_text(s)),
            parts@.map_values(|s: String| s@) == quoted.take(i as int),
        decreases items.len() - i,
    {
        let q = debug_quoted(items[i].as_str());
        parts.push(q);
        proof {
            assert(quoted.take(i + 1) == quoted.take(i as int).push(quoted[i as int]));
        }
        i += 1;
    }
    proof {
        assert(quoted.take(items.len() as int) == quoted);
    }
    let inner = crate::text::join(&parts, ", ");
    let mut r = String::from_str("[");
    r.append(inner.as_str());
    r.append("]");
    r
}

/// The line that lists a check: whether it is selected, the check file, the
/// type and the object of the check, and its tags.
pub open spec fn listed_text(
    enabled: bool,
    url: Seq<char>,
    check_type: Seq<char>,
    object: Seq<char>,
    tags: Seq<Seq<char>>,
) -> Seq<char> {
    (if enabled {
        "⬜"@
    } else {
        " ✖️"@
    }) + " "@ + url + " - "@ + check_type + " - "@ + object + " - "@ + debug_list_text(tags)
}

/// The line that lists a check (see `listed_text`).
pub fn listed_line(enabled: bool, url: &str, check_type: &str, object: &str, tags: &Vec<String>) -> (r:
    String)
    ensures
        r@ == listed_text(enabled, url@, check_type@, object@, tags@.map_values(|s: String| s@)),
{
    let mut line = if enabled {
        String::from_str("⬜")
    } else {
        String::from_str(" ✖️")
    };
    line.append(" ");
    line.append(url);
    line.append(" - ");
    line.append(check_type);
    line.append(" - ");
    line.append(object);
    line.append(" - ");
    let t = debug_list(tags);
    line.append(t.as_str());
    line
}

} // verus!
