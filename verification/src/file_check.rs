//! What the checks on one file decide: the text a file is read as, the new
//! contents that the line checks ask for, and the outcome of a check together
//! with what must be done to the file to fix it.
use vstd::prelude::*;

use crate::base::{outcome, CheckError, CheckResult, CheckResultV};
use crate::external::{
    debug_quoted, debug_text, line_diff, regex_compiles, regex_finds, regex_is_match, regex_replace_first, regex_replaced,
    unified_diff,
};
use crate::text::{
    concat, contains, contains_exec, join, joined, from_chars, opt_pair_view, opt_view, replace, replace_all, slice_vec, same_text,
    to_chars, trim_end, trim_end_len,
};
use crate::utils::{
    append_str, append_text, remove_between_markers, removed_between, replace_between_markers,
    replaced_between,
};

verus! {

/// `similar`'s `ends_with_newline` for text: the last character is `\r` or `\n`.
pub open spec fn ends_with_newline(s: Seq<char>) -> bool {
    s.len() > 0 && (s.last() == '\r' || s.last() == '\n')
}

/// The text a check reads from its file: empty when the file could not be
/// read, and otherwise the contents, with a newline added when they do not
/// end with one.
pub open spec fn file_text(read: Option<Seq<char>>) -> Seq<char> {
    match read {
        None => Seq::empty(),
        Some(s) => if ends_with_newline(s) {
            s
        } else {
            s.push('\n')
        },
    }
}

/// The text a check works on, from what reading its file gave (see `file_text`).
pub fn file_contents(read: Option<String>) -> (r: String)
    ensures
        r@ == file_text(
            match read {
                None => None,
                Some(s) => Some(s@),
            },
        ),
{
    match read {
        None => String::new(),
        Some(s) => {
            let v = crate::text::to_chars(s.as_str());
            if v.len() > 0 && (v[v.len() - 1] == '\r' || v[v.len() - 1] == '\n') {
                s
            } else {
                let mut s = s;
                s.push('\n');
                s
            }
        },
    }
}

/// Whether writing `contents` changes the file: nothing is written when the
/// file exists and the contents are empty.
pub open spec fn writes(present: bool, contents: Seq<char>) -> bool {
    !(present && contents.len() == 0)
}

pub fn must_write(present: bool, contents: &str) -> (r: bool)
    ensures
        r == writes(present, contents@),
{
    !(present && contents.is_empty())
}

/// What a check found and what must be done to fix it: the contents to write,
/// the permissions to set, and whether the file is removed.
pub struct FixPlan {
    pub result: CheckResult,
    pub contents: Option<String>,
    pub permissions: Option<u32>,
    pub remove: bool,
}

/// The message of a check that sets new contents.
pub open spec fn contents_message(old: Seq<char>, new: Seq<char>) -> Seq<char> {
    "Set file contents to: \n"@ + line_diff(old, new)
}

/// The plan of a check that wants the file to hold `new` while it holds `old`,
/// given the line diff of the two: nothing when they are the same; otherwise
/// the message shows the diff, and the new contents are written when fixing.
pub fn conclude_with_diff(old: &str, new: String, diff: &str, fix: bool) -> (r: FixPlan)
    ensures
        old@ == new@ ==> r.result@ == CheckResultV::NoFixNeeded && r.contents is None,
        old@ != new@ ==> r.result@ == outcome(true, fix, "Set file contents to: \n"@ + diff@) && (if fix {
            r.contents matches Some(c) && c@ == new@
        } else {
            r.contents is None
        }),
        r.permissions is None,
        !r.remove,
{
    if same_text(old, new.as_str()) {
        return FixPlan { result: CheckResult::NoFixNeeded, contents: None, permissions: None, remove: false };
    }
    let message = concat("Set file contents to: \n", diff);
    if !fix {
        FixPlan { result: CheckResult::FixNeeded(message), contents: None, permissions: None, remove: false }
    } else {
        FixPlan { result: CheckResult::FixExecuted(message), contents: Some(new), permissions: None, remove: false }
    }
}

/// The plan of a check that wants the file to hold `new` while it holds `old`
/// (see `conclude_with_diff`), with the line diff that `similar` prints.
pub fn conclude_new_contents(old: &str, new: String, fix: bool) -> (r: FixPlan)
    ensures
        old@ == new@ ==> r.result@ == CheckResultV::NoFixNeeded && r.contents is None,
        old@ != new@ ==> r.result@ == outcome(true, fix, contents_message(old@, new@)) && (if fix {
            r.contents matches Some(c) && c@ == new@
        } else {
            r.contents is None
        }),
        r.permissions is None,
        !r.remove,
{
    let diff = unified_diff(old, new.as_str());
    conclude_with_diff(old, new, diff.as_str(), fix)
}

/// The plan of a check that wants the file gone: nothing when it does not
/// exist; otherwise `remove file`, and the file is removed when fixing.
pub fn conclude_remove(present: bool, fix: bool) -> (r: FixPlan)
    ensures
        r.result@ == outcome(present, fix, "remove file"@),
        r.remove == (present && fix),
        r.contents is None,
        r.permissions is None,
{
    let message = String::from_str("remove file");
    let result = crate::base::make_outcome(present, fix, message);
    FixPlan { result, contents: None, permissions: None, remove: present && fix }
}


/// The contents a `lines_present` check wants: the contents themselves when
/// the lines are already in them; with a marker pair, the text between the
/// markers replaced by the lines; with a replacement regex found in the
/// contents, its first match replaced by the lines (trailing white space cut);
/// otherwise the lines appended.
pub open spec fn lines_present_text(
    contents: Seq<char>,
    lines: Seq<char>,
    regex: Option<Seq<char>>,
    markers: Option<(Seq<char>, Seq<char>)>,
) -> Seq<char> {
    match markers {
        Some((start, end)) => replaced_between(contents, start, end, lines),
        None => if contains(contents, lines) {
            contents
        } else {
            match regex {
                Some(r) => if regex_finds(r, contents) {
                    regex_replaced(r, contents, trim_end(lines))
                } else {
                    append_text(contents, lines)
                },
                None => append_text(contents, lines),
            }
        },
    }
}

/// The new contents of a `lines_present` check (see `lines_present_text`).
pub fn lines_present_contents(
    contents: &str,
    lines: &str,
    regex: &Option<String>,
    markers: &Option<(String, String)>,
) -> (r: String)
    requires
        !(regex is Some && markers is Some),
        regex matches Some(p) ==> regex_compiles(p@),
    ensures
        r@ == lines_present_text(contents@, lines@, opt_view(*regex), opt_pair_view(*markers)),
{
    match markers {
        Some((start, end)) => {
            return replace_between_markers(contents, start.as_str(), end.as_str(), lines);
        },
        None => {},
    }
    let c = to_chars(contents);
    let l = to_chars(lines);
    if contains_exec(&c, &l) {
        return String::from_str(contents);
    }
    match regex {
        Some(p) => {
            if regex_is_match(p.as_str(), contents) {
                let n = trim_end_len(&l);
                let trimmed = from_chars(&slice_vec(&l, 0, n));
                proof {
                    assert(l@.subrange(0, n as int) == l@.take(n as int));
                }
                regex_replace_first(p.as_str(), contents, trimmed.as_str())
            } else {
                append_str(contents, lines)
            }
        },
        None => append_str(contents, lines),
    }
}

/// The contents a `lines_absent` check wants: with a marker pair, the markers
/// and the text between them removed; otherwise every occurrence of the lines
/// removed.
pub open spec fn lines_absent_text(
    contents: Seq<char>,
    lines: Seq<char>,
    markers: Option<(Seq<char>, Seq<char>)>,
) -> Seq<char> {
    match markers {
        Some((start, end)) => removed_between(contents, start, end),
        None => replace_all(contents, lines, Seq::empty()),
    }
}

/// The new contents of a `lines_absent` check (see `lines_absent_text`).
pub fn lines_absent_contents(contents: &str, lines: &str, markers: &Option<(String, String)>) -> (r:
    String)
    ensures
        r@ == lines_absent_text(contents@, lines@, opt_pair_view(*markers)),
{
    match markers {
        Some((start, end)) => remove_between_markers(contents, start.as_str(), end.as_str()),
        None => {
            let c = to_chars(contents);
            let l = to_chars(lines);
            let empty: Vec<char> = Vec::new();
            from_chars(&replace(&c, &l, &empty))
        },
    }
}


/// An octal digit.
pub open spec fn is_octal_digit(c: char) -> bool {
    '0' <= c && c <= '7'
}

/// The number written by a sequence of octal digits.
pub open spec fn octal_value(s: Seq<char>) -> nat
    decreases s.len(),
{
    if s.len() == 0 {
        0
    } else {
        octal_value(s.drop_last()) * 8 + (s.last() as int - '0' as int) as nat
    }
}

/// The digits of a number: the text without a leading `+`.
pub open spec fn digits_part(s: Seq<char>) -> Seq<char> {
    if s.len() > 0 && s[0] == '+' {
        s.skip(1)
    } else {
        s
    }
}

/// Every character is an octal digit.
pub open spec fn all_octal(d: Seq<char>) -> bool {
    forall|i: int| 0 <= i < d.len() ==> #[trigger] is_octal_digit(d[i])
}

/// `u32::from_str_radix(s, 8)` read without its bound: an optional `+`
/// followed by at least one octal digit, and nothing else.
pub open spec fn octal_number(s: Seq<char>) -> Option<nat> {
    if digits_part(s).len() > 0 && all_octal(digits_part(s)) {
        Some(octal_value(digits_part(s)))
    } else {
        None
    }
}

/// The mode that the `permissions` of a check stand for: an octal number of at
/// most `777`.
pub open spec fn permissions_mode(s: Seq<char>) -> Result<u32, Seq<char>> {
    match octal_number(s) {
        None => Err("permission can not be converted to an octal mode"@),
        Some(v) => if v > u32::MAX {
            Err("permission can not be converted to an octal mode"@)
        } else if v > 0o777 {
            Err("permission is not a valid mode"@)
        } else {
            Ok(v as u32)
        },
    }
}

proof fn lemma_octal_prefix_grows(d: Seq<char>, i: int, j: int)
    requires
        0 <= i <= j <= d.len(),
        forall|k: int| 0 <= k < d.len() ==> #[trigger] is_octal_digit(d[k]),
    ensures
        octal_value(d.take(i)) <= octal_value(d.take(j)),
    decreases j - i,
{
    if i < j {
        lemma_octal_prefix_grows(d, i, j - 1);
        assert(d.take(j).drop_last() == d.take(j - 1));
        assert(is_octal_digit(d[j - 1]));
    }
}

/// Reads the `permissions` of a check (see `permissions_mode`); the error is
/// the message of the refused definition.
pub fn parse_permissions(s: &str) -> (r: Result<u32, String>)
    ensures
        match permissions_mode(s@) {
            Ok(m) => r == Ok::<u32, String>(m),
            Err(e) => r matches Err(x) && x@ == e,
        },
{
    let c = to_chars(s);
    let start: usize = if c.len() > 0 && c[0] == '+' { 1 } else { 0 };
    let ghost d = digits_part(c@);
    assert(d == c@.skip(start as int));
    let bad = String::from_str("permission can not be converted to an octal mode");
    proof {
        reveal_strlit("permission can not be converted to an octal mode");
        reveal_strlit("permission is not a valid mode");
    }
    if start >= c.len() {
        return Err(bad);
    }
    let mut acc: u64 = 0;
    let mut i = start;
    while i < c.len()
        invariant
            start <= i <= c.len(),
            d == c@.skip(start as int),
            c@ == s@,
            d == digits_part(s@),
            bad@ == "permission can not be converted to an octal mode"@,
            forall|k: int| 0 <= k < i - start ==> #[trigger] is_octal_digit(d[k]),
            acc == octal_value(d.take(i - start)),
            acc <= u32::MAX,
        decreases c.len() - i,
    {
        let ch = c[i];
        if !('0' <= ch && ch <= '7') {
            assert(!is_octal_digit(d[i - start]));
            assert(!all_octal(d));
            return Err(bad);
        }
        let digit = (ch as u64) - ('0' as u64);
        assert(d.take(i - start + 1).drop_last() == d.take(i - start));
        acc = acc * 8 + digit;
        i += 1;
        if acc > 0xffff_ffff {
            let ghost n = i - start;
            while i < c.len()
                invariant
                    start <= i <= c.len(),
                    d == c@.skip(start as int),
                    c@ == s@,
                    d == digits_part(s@),
                    bad@ == "permission can not be converted to an octal mode"@,
                    forall|k: int| 0 <= k < i - start ==> #[trigger] is_octal_digit(d[k]),
                decreases c.len() - i,
            {
                if !('0' <= c[i] && c[i] <= '7') {
                    assert(!is_octal_digit(d[i - start]));
                    assert(!all_octal(d));
                    return Err(bad);
                }
                i += 1;
            }
            proof {
                lemma_octal_prefix_grows(d, n, d.len() as int);
                assert(d.take(d.len() as int) == d);
            }
            return Err(bad);
        }
    }
    assert(d.take(d.len() as int) == d);
    if acc > 0o777 {
        return Err(String::from_str("permission is not a valid mode"));
    }
    Ok(acc as u32)
}

/// The character of an octal digit.
pub open spec fn octal_char(d: nat) -> char {
    if d == 0 {
        '0'
    } else if d == 1 {
        '1'
    } else if d == 2 {
        '2'
    } else if d == 3 {
        '3'
    } else if d == 4 {
        '4'
    } else if d == 5 {
        '5'
    } else if d == 6 {
        '6'
    } else {
        '7'
    }
}

/// A number written in octal, as `{:o}` writes it.
pub open spec fn octal_text(n: nat) -> Seq<char>
    decreases n,
{
    if n < 8 {
        seq![octal_char(n)]
    } else {
        octal_text(n / 8) + seq![octal_char(n % 8)]
    }
}

fn push_octal(n: u32, out: &mut Vec<char>)
    ensures
        final(out)@ == old(out)@ + octal_text(n as nat),
    decreases n,
{
    if n >= 8 {
        push_octal(n / 8, out);
    }
    let d = n % 8;
    let c = if d == 0 {
        '0'
    } else if d == 1 {
        '1'
    } else if d == 2 {
        '2'
    } else if d == 3 {
        '3'
    } else if d == 4 {
        '4'
    } else if d == 5 {
        '5'
    } else if d == 6 {
        '6'
    } else {
        '7'
    };
    out.push(c);
}

/// `format!("{:o}", n)`.
pub fn octal_string(n: u32) -> (r: String)
    ensures
        r@ == octal_text(n as nat),
{
    let mut v: Vec<char> = Vec::new();
    push_octal(n, &mut v);
    from_chars(&v)
}


/// The permission bits of a mode: its last three octal digits.
pub open spec fn permission_bits(mode: u32) -> u32 {
    mode & 0o777
}

/// The permissions must be set: the file is created, or its mode (when it
/// could be read) differs from the wanted one in its permission bits.
pub open spec fn fix_permissions(present: bool, wanted: Option<u32>, current: Option<u32>) -> bool {
    match wanted {
        None => false,
        Some(p) => !present || (current matches Some(m) && permission_bits(m) != permission_bits(p)),
    }
}

/// The contents must be fixed to match the regex: the file is created, or its
/// text does not match.
pub open spec fn fix_regex(present: bool, regex: Option<Seq<char>>, read: Option<Seq<char>>) -> bool {
    match regex {
        None => false,
        Some(r) => !present || !regex_finds(r, file_text(read)),
    }
}

/// The lines of the message of a `file_present` check, in order.
pub open spec fn file_present_messages(
    present: bool,
    placeholder: Option<Seq<char>>,
    wanted: Option<u32>,
    current: Option<u32>,
    regex: Option<Seq<char>>,
    read: Option<Seq<char>>,
) -> Seq<Seq<char>> {
    let a: Seq<Seq<char>> = if !present { seq!["create file"@] } else { Seq::empty() };
    let b = match placeholder {
        Some(p) => a.push("set contents to "@ + p),
        None => a,
    };
    let c = if fix_permissions(present, wanted, current) {
        b.push("fix permissions to "@ + octal_text(wanted->Some_0 as nat))
    } else {
        b
    };
    if fix_regex(present, regex, read) {
        c.push("fix content to match regex "@ + debug_text(regex->Some_0))
    } else {
        c
    }
}

/// A `file_present` check needs a fix: the file is missing, or its permissions
/// or its contents must be fixed.
pub open spec fn file_present_fix_needed(
    present: bool,
    wanted: Option<u32>,
    current: Option<u32>,
    regex: Option<Seq<char>>,
    read: Option<Seq<char>>,
) -> bool {
    !present || fix_permissions(present, wanted, current) || fix_regex(present, regex, read)
}

/// The plan of a `file_present` check, from what was found of the file: whether
/// it exists, its mode (`None` when it could not be read) and the text read
/// from it. Fixing writes the placeholder into a created file (an existing file
/// is left as it is) and sets the permissions when they must be fixed. The
/// mode of an existing file must be readable when permissions are wanted.
pub fn file_present_plan(
    present: bool,
    placeholder: &Option<String>,
    wanted: Option<u32>,
    current: Option<u32>,
    regex: &Option<String>,
    read: Option<String>,
    fix: bool,
) -> (r: Result<FixPlan, CheckError>)
    requires
        regex matches Some(p) ==> regex_compiles(p@),
    ensures
        (wanted is Some && present && current is None) <==> r == Err::<FixPlan, CheckError>(
            CheckError::PermissionsNotAccessable,
        ),
        !(wanted is Some && present && current is None) ==> r is Ok,
        r matches Ok(plan) ==> {
            let needed = file_present_fix_needed(present, wanted, current, opt_view(*regex), opt_view(read));
            &&& plan.result@ == outcome(
                needed,
                fix,
                joined(
                    file_present_messages(
                        present,
                        opt_view(*placeholder),
                        wanted,
                        current,
                        opt_view(*regex),
                        opt_view(read),
                    ),
                    "\n"@,
                ),
            )
            &&& (needed && fix) ==> (plan.contents matches Some(c) && c@ == (if !present
                && placeholder is Some {
                placeholder->Some_0@
            } else {
                Seq::empty()
            }))
            &&& !(needed && fix) ==> plan.contents is None
            &&& plan.permissions == (if needed && fix && fix_permissions(present, wanted, current) {
                wanted
            } else {
                None
            })
            &&& !plan.remove
        },
{
    if wanted.is_some() && present && current.is_none() {
        return Err(CheckError::PermissionsNotAccessable);
    }
    let ghost msgs = file_present_messages(
        present,
        opt_view(*placeholder),
        wanted,
        current,
        opt_view(*regex),
        opt_view(read),
    );
    let mut messages: Vec<String> = Vec::new();
    if !present {
        messages.push(String::from_str("create file"));
    }
    let fix_placeholder = match placeholder {
        Some(p) => {
            messages.push(concat("set contents to ", p.as_str()));
            !present
        },
        None => false,
    };
    let perms = match wanted {
        None => false,
        Some(p) => if !present {
            true
        } else {
            match current {
                Some(m) => (m & 0o777) != (p & 0o777),
                None => false,
            }
        },
    };
    if perms {
        let p = wanted.unwrap();
        messages.push(concat("fix permissions to ", octal_string(p).as_str()));
    }
    let text = file_contents(read);
    let matches_regex = match regex {
        None => false,
        Some(p) => if !present {
            true
        } else {
            !regex_is_match(p.as_str(), text.as_str())
        },
    };
    if matches_regex {
        match regex {
            Some(p) => {
                messages.push(concat("fix content to match regex ", debug_quoted(p.as_str()).as_str()));
            },
            None => {},
        }
    }
    proof {
        reveal_strlit("create file");
        assert(messages@.map_values(|s: String| s@) =~= msgs);
    }
    let message = join(&messages, "\n");
    let needed = !present || perms || matches_regex;
    let result = crate::base::make_outcome(needed, fix, message);
    if needed && fix {
        let contents = if fix_placeholder {
            match placeholder {
                Some(p) => p.clone(),
                None => String::new(),
            }
        } else {
            String::new()
        };
        Ok(FixPlan { result, contents: Some(contents), permissions: if perms { wanted } else { None }, remove: false })
    } else {
        Ok(FixPlan { result, contents: None, permissions: None, remove: false })
    }
}

} // verus!
