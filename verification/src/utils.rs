//! The text rules of the checkers: how lines are appended, how a block between
//! two marker lines is replaced or removed, and how `${name}` placeholders in a
//! template are filled in.
use vstd::prelude::*;

use crate::text::{
    blank, find, first_index, from_chars, is_blank, push_all, slice_vec, to_chars, trim_end,
    trim_end_len,
};

verus! {

/// The text of `lines` as a checker uses it: a trailing newline is added when
/// the text is not empty and does not end with one.
pub open spec fn lines_text(lines: Seq<char>) -> Seq<char> {
    if lines.len() == 0 || lines.last() == '\n' {
        lines
    } else {
        lines.push('\n')
    }
}

pub fn normalize_lines(lines: &str) -> (r: String)
    ensures
        r@ == lines_text(lines@),
{
    let mut v = to_chars(lines);
    if v.len() > 0 && v[v.len() - 1] != '\n' {
        v.push('\n');
    }
    from_chars(&v)
}

/// The start and end marker lines made from a marker: trailing white space of the
/// marker is cut and ` (check-config start)` / ` (check-config end)` and a newline
/// are added.
pub open spec fn start_marker_line(marker: Seq<char>) -> Seq<char> {
    trim_end(marker) + " (check-config start)\n"@
}

pub open spec fn end_marker_line(marker: Seq<char>) -> Seq<char> {
    trim_end(marker) + " (check-config end)\n"@
}

pub fn marker_lines(marker: &str) -> (r: (String, String))
    ensures
        r.0@ == start_marker_line(marker@),
        r.1@ == end_marker_line(marker@),
{
    let m = to_chars(marker);
    let n = trim_end_len(&m);
    let mut start = slice_vec(&m, 0, n);
    let mut end = slice_vec(&m, 0, n);
    let start_suffix = to_chars(" (check-config start)\n");
    let end_suffix = to_chars(" (check-config end)\n");
    push_all(&mut start, &start_suffix);
    push_all(&mut end, &end_suffix);
    proof {
        assert(m@.subrange(0, n as int) == m@.take(n as int));
    }
    (from_chars(&start), from_chars(&end))
}

/// `lines` appended to `contents`: blank lines change nothing, blank contents are
/// replaced by the lines, and otherwise the lines follow the contents (trailing
/// white space cut) after one newline.
pub open spec fn append_text(contents: Seq<char>, lines: Seq<char>) -> Seq<char> {
    if is_blank(lines) {
        contents
    } else if is_blank(contents) {
        lines
    } else {
        trim_end(contents) + seq!['\n'] + lines
    }
}

fn append_chars(contents: &[char], lines: &[char]) -> (r: Vec<char>)
    ensures
        r@ == append_text(contents@, lines@),
{
    if blank(lines) {
        return slice_vec(contents, 0, contents.len());
    }
    if blank(contents) {
        return slice_vec(lines, 0, lines.len());
    }
    let n = trim_end_len(contents);
    let mut r = slice_vec(contents, 0, n);
    r.push('\n');
    push_all(&mut r, lines);
    proof {
        assert(contents@.subrange(0, n as int) == contents@.take(n as int));
        assert(contents@.subrange(0, contents@.len() as int) == contents@);
    }
    r
}

/// Appends `lines` to `contents` (see `append_text`).
pub fn append_str(contents: &str, lines: &str) -> (r: String)
    ensures
        r@ == append_text(contents@, lines@),
{
    let c = to_chars(contents);
    let l = to_chars(lines);
    let r = append_chars(&c, &l);
    from_chars(&r)
}

/// Both markers are found and the start marker comes first: their positions.
#[verifier::opaque]
pub open spec fn marker_positions(contents: Seq<char>, start: Seq<char>, end: Seq<char>) -> Option<
    (int, int),
> {
    match (first_index(contents, start), first_index(contents, end)) {
        (Some(p), Some(q)) => if p < q {
            Some((p, q))
        } else {
            None
        },
        _ => None,
    }
}

/// The text between the first start marker and the first end marker replaced by
/// `replacement` (the markers stay); when the markers are missing or in the wrong
/// order, markers and replacement are appended.
#[verifier::opaque]
pub open spec fn replaced_between(
    contents: Seq<char>,
    start: Seq<char>,
    end: Seq<char>,
    replacement: Seq<char>,
) -> Seq<char> {
    match marker_positions(contents, start, end) {
        Some((p, q)) => contents.take(p + start.len()) + replacement + contents.skip(q),
        None => append_text(contents, start + replacement + end),
    }
}

/// The first start marker, the first end marker and everything between them
/// removed; the contents unchanged when the markers are missing or in the wrong
/// order.
pub open spec fn removed_between(contents: Seq<char>, start: Seq<char>, end: Seq<char>) -> Seq<
    char,
> {
    match marker_positions(contents, start, end) {
        Some((p, q)) => contents.take(p) + contents.skip(q + end.len()),
        None => contents,
    }
}

fn markers_found(contents: &[char], start: &[char], end: &[char]) -> (r: Option<(usize, usize)>)
    ensures
        match marker_positions(contents@, start@, end@) {
            Some((p, q)) => r == Some((p as usize, q as usize)),
            None => r is None,
        },
        r matches Some((p, q)) ==> p + start.len() <= contents.len() && q + end.len()
            <= contents.len() && marker_positions(contents@, start@, end@) == Some(
            (p as int, q as int),
        ),
{
    proof {
        reveal(marker_positions);
    }
    match (find(contents, start), find(contents, end)) {
        (Some(p), Some(q)) => {
            if p < q {
                Some((p, q))
            } else {
                None
            }
        },
        _ => None,
    }
}

/// Replaces the text between the markers (see `replaced_between`).
pub fn replace_between_markers(
    contents: &str,
    start_marker: &str,
    end_marker: &str,
    replacement: &str,
) -> (r: String)
    ensures
        r@ == replaced_between(contents@, start_marker@, end_marker@, replacement@),
{
    let c = to_chars(contents);
    let s = to_chars(start_marker);
    let e = to_chars(end_marker);
    let rep = to_chars(replacement);
    proof {
        reveal(replaced_between);
    }
    let found = markers_found(&c, &s, &e);
    match found {
        Some((p, q)) => {
            let mut out = slice_vec(&c, 0, p + s.len());
            push_all(&mut out, &rep);
            let after = slice_vec(&c, q, c.len());
            push_all(&mut out, &after);
            proof {
                assert(c@.subrange(0, p + s@.len()) == c@.take(p + s@.len()));
                assert(c@.subrange(q as int, c@.len() as int) == c@.skip(q as int));
            }
            from_chars(&out)
        },
        None => {
            let mut block = slice_vec(&s, 0, s.len());
            push_all(&mut block, &rep);
            push_all(&mut block, &e);
            proof {
                assert(s@.subrange(0, s@.len() as int) == s@);
            }
            let out = append_chars(&c, &block);
            from_chars(&out)
        },
    }
}

/// Removes the markers and the text between them (see `removed_between`).
pub fn remove_between_markers(contents: &str, start_marker: &str, end_marker: &str) -> (r: String)
    ensures
        r@ == removed_between(contents@, start_marker@, end_marker@),
{
    let c = to_chars(contents);
    let s = to_chars(start_marker);
    let e = to_chars(end_marker);
    match markers_found(&c, &s, &e) {
        Some((p, q)) => {
            let mut out = slice_vec(&c, 0, p);
            let after = slice_vec(&c, q + e.len(), c.len());
            push_all(&mut out, &after);
            proof {
                assert(c@.subrange(0, p as int) == c@.take(p as int));
                assert(c@.subrange(q + e@.len(), c@.len() as int) == c@.skip(q + e@.len()));
            }
            from_chars(&out)
        },
        None => String::from_str(contents),
    }
}


/// The value of the first variable called `name`, if any.
pub open spec fn lookup_var(vars: Seq<(String, String)>, name: Seq<char>) -> Option<Seq<char>>
    decreases vars.len(),
{
    if vars.len() == 0 {
        None
    } else if vars[0].0@ == name {
        Some(vars[0].1@)
    } else {
        lookup_var(vars.skip(1), name)
    }
}

/// How many characters other than `}` the text starts with.
pub open spec fn name_len(s: Seq<char>) -> nat
    decreases s.len(),
{
    if s.len() == 0 || s[0] == '}' {
        0
    } else {
        1 + name_len(s.skip(1))
    }
}

/// For a `{` at `open`: the position of the closing `}` when at least one other
/// character stands between them.
pub open spec fn closing_brace(s: Seq<char>, open: int) -> Option<int> {
    let n = name_len(s.skip(open + 1));
    if n >= 1 && open + 1 + n < s.len() {
        Some(open + 1 + n)
    } else {
        None
    }
}

/// The value of a variable, or the placeholder itself when the variable is unknown.
pub open spec fn fill(vars: Seq<(String, String)>, name: Seq<char>, whole: Seq<char>) -> Seq<char> {
    match lookup_var(vars, name) {
        Some(v) => v,
        None => whole,
    }
}

/// The placeholder that starts the text, if any, as its length and what it is
/// replaced by. Tried in this order: `\${name}` (kept as `${name}`), `${name}`
/// and `{name}` (both replaced by the variable's value when it is known).
pub open spec fn placeholder_at(s: Seq<char>, vars: Seq<(String, String)>) -> Option<
    (int, Seq<char>),
> {
    if s.len() >= 3 && s[0] == '\\' && s[1] == '$' && s[2] == '{' && closing_brace(s, 2) is Some {
        let k = closing_brace(s, 2)->Some_0;
        Some((k + 1, s.subrange(1, k + 1)))
    } else if s.len() >= 2 && s[0] == '$' && s[1] == '{' && closing_brace(s, 1) is Some {
        let k = closing_brace(s, 1)->Some_0;
        Some((k + 1, fill(vars, s.subrange(2, k), s.take(k + 1))))
    } else if s.len() >= 1 && s[0] == '{' && closing_brace(s, 0) is Some {
        let k = closing_brace(s, 0)->Some_0;
        Some((k + 1, fill(vars, s.subrange(1, k), s.take(k + 1))))
    } else {
        None
    }
}

/// The template with every placeholder, leftmost first, replaced.
pub open spec fn rendered(s: Seq<char>, vars: Seq<(String, String)>) -> Seq<char>
    decreases s.len(),
{
    if s.len() == 0 {
        s
    } else {
        match placeholder_at(s, vars) {
            Some((n, r)) => r + rendered(s.skip(n), vars),
            None => seq![s[0]] + rendered(s.skip(1), vars),
        }
    }
}

fn chars_equal(a: &[char], b: &[char]) -> (r: bool)
    ensures
        r == (a@ == b@),
{
    if a.len() != b.len() {
        return false;
    }
    let mut i: usize = 0;
    while i < a.len()
        invariant
            a.len() == b.len(),
            i <= a.len(),
            forall|j: int| 0 <= j < i ==> a@[j] == b@[j],
        decreases a.len() - i,
    {
        if a[i] != b[i] {
            return false;
        }
        i += 1;
    }
    assert(a@ == b@);
    true
}

fn find_var(vars: &Vec<(String, String)>, name: &[char]) -> (r: Option<Vec<char>>)
    ensures
        match lookup_var(vars@, name@) {
            Some(v) => r matches Some(x) && x@ == v,
            None => r is None,
        },
{
    let mut i: usize = 0;
    assert(vars@.skip(0) == vars@);
    while i < vars.len()
        invariant
            i <= vars.len(),
            lookup_var(vars@, name@) == lookup_var(vars@.skip(i as int), name@),
        decreases vars.len() - i,
    {
        assert(vars@.skip(i as int).skip(1) == vars@.skip(i + 1));
        let key = to_chars(vars[i].0.as_str());
        if chars_equal(&key, name) {
            return Some(to_chars(vars[i].1.as_str()));
        }
        i += 1;
    }
    None
}

/// Position of the closing brace for a `{` at `open`, as `closing_brace` says.
fn closing_brace_exec(s: &[char], open: usize) -> (r: Option<usize>)
    requires
        open < s.len(),
    ensures
        match closing_brace(s@, open as int) {
            Some(k) => r == Some(k as usize),
            None => r is None,
        },
{
    let mut j = open + 1;
    while j < s.len() && s[j] != '}'
        invariant
            open + 1 <= j <= s.len(),
            name_len(s@.skip(open + 1)) == (j - (open + 1)) + name_len(s@.skip(j as int)),
        decreases s.len() - j,
    {
        assert(s@.skip(j as int).skip(1) == s@.skip(j + 1));
        j += 1;
    }
    proof {
        if j < s.len() {
            assert(s@.skip(j as int)[0] == '}');
        }
        assert(name_len(s@.skip(j as int)) == 0);
    }
    if j > open + 1 && j < s.len() {
        Some(j)
    } else {
        None
    }
}

fn placeholder_exec(s: &[char], i: usize, vars: &Vec<(String, String)>) -> (r: Option<
    (usize, Vec<char>),
>)
    requires
        i < s.len(),
    ensures
        match placeholder_at(s@.skip(i as int), vars@) {
            Some((n, x)) => r matches Some((m, y)) && m == n && y@ == x,
            None => r is None,
        },
{
    let ghost t = s@.skip(i as int);
    let len = s.len() - i;
    proof {
        assert forall|k: int| 0 <= k < t.len() implies t[k] == s@[i + k] by {}
        assert forall|o: int| 0 <= o < t.len() implies #[trigger] t.skip(o + 1) == s@.skip(i + o + 1) by {}
    }
    if len >= 3 && s[i] == '\\' && s[i + 1] == '$' && s[i + 2] == '{' {
        if let Some(k) = closing_brace_exec(s, i + 2) {
            assert(closing_brace(t, 2) == Some(k - i));
            let v = slice_vec(s, i + 1, k + 1);
            assert(s@.subrange(i + 1, k + 1) == t.subrange(1, k - i + 1));
            return Some((k - i + 1, v));
        }
        assert(closing_brace(t, 2) is None);
    }
    if len >= 2 && s[i] == '$' && s[i + 1] == '{' {
        if let Some(k) = closing_brace_exec(s, i + 1) {
            assert(closing_brace(t, 1) == Some(k - i));
            let name = slice_vec(s, i + 2, k);
            assert(s@.subrange(i + 2, k as int) == t.subrange(2, k - i));
            assert(s@.subrange(i as int, k + 1) == t.take(k - i + 1));
            let v = match find_var(vars, &name) {
                Some(v) => v,
                None => slice_vec(s, i, k + 1),
            };
            return Some((k - i + 1, v));
        }
        assert(closing_brace(t, 1) is None);
    }
    if s[i] == '{' {
        if let Some(k) = closing_brace_exec(s, i) {
            assert(closing_brace(t, 0) == Some(k - i));
            let name = slice_vec(s, i + 1, k);
            assert(s@.subrange(i + 1, k as int) == t.subrange(1, k - i));
            assert(s@.subrange(i as int, k + 1) == t.take(k - i + 1));
            let v = match find_var(vars, &name) {
                Some(v) => v,
                None => slice_vec(s, i, k + 1),
            };
            return Some((k - i + 1, v));
        }
        assert(closing_brace(t, 0) is None);
    }
    None
}

/// No two variables have the same name (as in a map from names to values).
pub open spec fn names_distinct(vars: Seq<(String, String)>) -> bool {
    forall|i: int, j: int| 0 <= i < j < vars.len() ==> #[trigger] vars[i].0@ != #[trigger] vars[j].0@
}

/// Fills in a template: `${name}` and `{name}` are replaced by the value of the
/// variable `name` and left as they are when there is no such variable;
/// `\${name}` is replaced by `${name}`. The variables have distinct names.
pub fn replace_vars(template: &str, vars: &Vec<(String, String)>) -> (r: String)
    requires
        names_distinct(vars@),
    ensures
        r@ == rendered(template@, vars@),
{
    let s = to_chars(template);
    let mut out: Vec<char> = Vec::new();
    let mut i: usize = 0;
    assert(s@.skip(0) == s@);
    while i < s.len()
        invariant
            i <= s.len(),
            out@ + rendered(s@.skip(i as int), vars@) == rendered(s@, vars@),
        decreases s.len() - i,
    {
        let ghost before = out@;
        let ghost rest = s@.skip(i as int);
        match placeholder_exec(&s, i, vars) {
            Some((n, v)) => {
                push_all(&mut out, &v);
                assert(rest.skip(n as int) == s@.skip(i + n));
                i += n;
            },
            None => {
                out.push(s[i]);
                assert(rest.skip(1) == s@.skip(i + 1));
                i += 1;
            },
        }
        assert(before + rendered(rest, vars@) == out@ + rendered(s@.skip(i as int), vars@));
    }
    assert(s@.skip(i as int).len() == 0);
    assert(out@ + Seq::<char>::empty() == out@);
    from_chars(&out)
}

} // verus!
