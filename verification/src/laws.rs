//! What holds across the operations of the library: a fix that a check makes
//! is one that a second check no longer asks for, and the other promises that
//! tie two or more calls together.
use vstd::prelude::*;

use crate::base::{outcome, CheckError, CheckResultV};
use crate::checks::FilePresent;
use crate::fs_checks::{DirPresent, DiskPlan};
use crate::cli::{selected, status_of, ExitStatus};
use crate::entries::{
    add_entries_spec, add_one, array_child, array_insert, array_insert_all, can_hold, holds, remove_entries_spec, set_one,
    set_values_spec, unset_keys_spec, unset_one, Entries,
};
use crate::entry_laws::{
    entries_add_ready, keys_distinct, lemma_add_entries_stable, lemma_entries_ready_at,
    lemma_insert_all, lemma_remove_entries_done, lemma_set_values_stable, lemma_unset_keys_stable,
    nothing_to_remove, self_equal,
};
use crate::external::regex_finds;
use crate::file_check::{
    writes, FixPlan, file_present_fix_needed, file_text, fix_permissions, lines_absent_text, permission_bits, lines_present_text, octal_text,
    permissions_mode,
};
use crate::marker_laws::{lemma_markers_stable, lemma_replaced_in_place, lemma_replaced_markers};
use crate::node::{convert, get_value, key_pos, lemma_get_after_set, remove_key, Format, NodeV};
use crate::text::{contains, first_index, is_blank, occurs_at};
use crate::utils::{append_text, marker_positions, placeholder_at, removed_between, rendered, replaced_between};

verus! {

proof fn lemma_occurs_in_longer(s: Seq<char>, t: Seq<char>, l: Seq<char>, i: int)
    requires
        occurs_at(s, l, i),
    ensures
        occurs_at(s + t, l, i),
{
    assert((s + t).subrange(i, i + l.len()) =~= s.subrange(i, i + l.len()));
}

proof fn lemma_occurs_at_end(s: Seq<char>, l: Seq<char>)
    ensures
        occurs_at(s + l, l, s.len() as int),
{
    assert((s + l).subrange(s.len() as int, (s.len() + l.len()) as int) =~= l);
}

proof fn lemma_contains_longer(s: Seq<char>, t: Seq<char>, l: Seq<char>)
    requires
        contains(s, l),
    ensures
        contains(s + t, l),
{
    let i = choose|i: int| occurs_at(s, l, i);
    lemma_occurs_in_longer(s, t, l, i);
}

/// The text read back from a file that was written with `s` holds what `s`
/// holds.
proof fn lemma_read_back_contains(s: Seq<char>, l: Seq<char>)
    requires
        contains(s, l),
    ensures
        contains(file_text(Some(s)), l),
{
    if !crate::file_check::ends_with_newline(s) {
        lemma_contains_longer(s, seq!['\n'], l);
        assert(s.push('\n') =~= s + seq!['\n']);
    }
}

/// Appended lines that are not blank are in the result.
pub proof fn law_appended_lines_are_present(contents: Seq<char>, lines: Seq<char>)
    requires
        !is_blank(lines),
    ensures
        contains(append_text(contents, lines), lines),
{
    if is_blank(contents) {
        assert(occurs_at(lines, lines, 0)) by {
            assert(lines.subrange(0, lines.len() as int) =~= lines);
        }
    } else {
        let prefix = crate::text::trim_end(contents) + seq!['\n'];
        lemma_occurs_at_end(prefix, lines);
    }
}

/// A `lines_present` check without markers or regex is stable: once its fix is
/// written and read back, a second check asks for nothing more.
pub proof fn law_lines_present_fix_is_stable(read: Option<Seq<char>>, lines: Seq<char>)
    ensures
        ({
            let new = lines_present_text(file_text(read), lines, None, None);
            let back = file_text(Some(new));
            lines_present_text(back, lines, None, None) == back
        }),
{
    let old = file_text(read);
    let new = lines_present_text(old, lines, None, None);
    let back = file_text(Some(new));
    if !is_blank(lines) {
        if !contains(old, lines) {
            law_appended_lines_are_present(old, lines);
        }
        assert(contains(new, lines));
        lemma_read_back_contains(new, lines);
    }
}


/// A file that a `file_present` check created is one that a second check
/// accepts: it exists, has the permissions that were set, and holds the
/// placeholder (or nothing), which must match the regex, if any.
pub proof fn law_file_present_fix_is_stable(
    wanted: Option<u32>,
    placeholder: Option<Seq<char>>,
    regex: Option<Seq<char>>,
)
    requires
        regex matches Some(r) ==> regex_finds(
            r,
            file_text(Some(
                match placeholder {
                    Some(p) => p,
                    None => Seq::empty(),
                },
            )),
        ),
    ensures
        !file_present_fix_needed(
            true,
            wanted,
            wanted,
            regex,
            Some(
                match placeholder {
                    Some(p) => p,
                    None => Seq::empty(),
                },
            ),
        ),
{
}

/// A `file_present` check run after a fix it made finds nothing left to fix:
/// the plan succeeds, and the file as the fix left it (created with the
/// placeholder when it was missing, its permission bits set when they were
/// fixed) is accepted by a second check, provided the text left in the file
/// matches the regex of the check, if it has one.
pub proof fn law_file_present_check_after_fix_passes(
    check: FilePresent,
    present: bool,
    current: Option<u32>,
    read: Option<Seq<char>>,
    first: Result<FixPlan, CheckError>,
    mode_after: Option<u32>,
    read_after: Option<Seq<char>>,
    second: Result<FixPlan, CheckError>,
)
    requires
        !(check.permissions is Some && present && current is None),
        check.plan_meets(present, current, read, true, first),
        first matches Ok(p) ==> {
            &&& read_after == match p.contents {
                Some(c) => if writes(present, c@) {
                    Some(c@)
                } else {
                    read
                },
                None => read,
            }
            &&& p.permissions matches Some(w) ==> (mode_after matches Some(m) && permission_bits(m)
                == permission_bits(w))
            &&& (p.permissions is None && present) ==> mode_after == current
        },
        check.regex matches Some(r) ==> regex_finds(r@, file_text(read_after)),
        check.plan_meets(true, mode_after, read_after, false, second),
    ensures
        first is Ok,
        second matches Ok(p2) && p2.result@ == CheckResultV::NoFixNeeded,
{
}

/// A `dir_present` check run after a fix it made finds nothing left to fix:
/// the plan succeeds, and the directory it created, with the permission bits
/// it set, is accepted by a second check.
pub proof fn law_dir_present_check_after_fix_passes(
    check: DirPresent,
    present: bool,
    current: Option<u32>,
    first: Result<DiskPlan, CheckError>,
    mode_after: Option<u32>,
    second: Result<DiskPlan, CheckError>,
)
    requires
        !(check.permissions is Some && present && current is None),
        check.plan_meets(present, current, true, first),
        first matches Ok(p) ==> {
            &&& p.permissions matches Some(w) ==> (mode_after matches Some(m) && permission_bits(m)
                == permission_bits(w))
            &&& (p.permissions is None && present) ==> mode_after == current
        },
        check.plan_meets(true, mode_after, false, second),
    ensures
        first is Ok,
        second matches Ok(p2) && p2.result@ == CheckResultV::NoFixNeeded,
{
}

/// A directory or file whose permissions a check set is one whose permissions
/// a second check leaves alone: the mode read back has the permission bits
/// that were set, whatever bits of the file type come with it.
pub proof fn law_permissions_fix_is_stable(wanted: Option<u32>, current: u32)
    requires
        wanted matches Some(p) ==> permission_bits(current) == permission_bits(p),
    ensures
        !fix_permissions(true, wanted, Some(current)),
{
}

/// A check that finds nothing to fix reports no fix, whether fixing or not.
pub proof fn law_nothing_to_fix(fix: bool, message: Seq<char>)
    ensures
        outcome(false, fix, message) == CheckResultV::NoFixNeeded,
{
}

/// A run succeeds exactly when no check failed and no fix is needed; it is an
/// error as soon as one check failed.
pub proof fn law_exit_status(errors: nat, fix_needed: nat)
    ensures
        (status_of(errors, fix_needed) == ExitStatus::Success) <==> (errors == 0 && fix_needed == 0),
        errors > 0 ==> status_of(errors, fix_needed) == ExitStatus::Error,
        status_of(errors, fix_needed).spec_code() == (if errors > 0 {
            2u8
        } else if fix_needed > 0 {
            1u8
        } else {
            0u8
        }),
{
}

/// Without tag lists every check is selected, and a check with one of the
/// tags to skip is never selected.
pub proof fn law_tag_selection(
    tags: Seq<String>,
    any_tags: Seq<String>,
    all_tags: Seq<String>,
    skip_tags: Seq<String>,
    i: int,
)
    requires
        0 <= i < skip_tags.len(),
        crate::cli::has_tag(tags, skip_tags[i]),
    ensures
        selected(tags, Seq::empty(), Seq::empty(), Seq::empty()),
        !selected(tags, any_tags, all_tags, skip_tags),
{
}

/// A template without `{` is rendered as it is.
pub proof fn law_template_without_braces_is_kept(s: Seq<char>, vars: Seq<(String, String)>)
    requires
        forall|i: int| 0 <= i < s.len() ==> s[i] != '{',
    ensures
        rendered(s, vars) == s,
    decreases s.len(),
{
    if s.len() > 0 {
        assert(placeholder_at(s, vars) is None) by {
            if s.len() >= 3 {
                assert(s[2] != '{');
            }
            if s.len() >= 2 {
                assert(s[1] != '{');
            }
            assert(s[0] != '{');
        }
        law_template_without_braces_is_kept(s.skip(1), vars);
        assert(seq![s[0]] + s.skip(1) =~= s);
    }
}

proof fn lemma_octal_text_digits(n: nat)
    ensures
        octal_text(n).len() > 0,
        octal_text(n)[0] != '+',
        crate::file_check::all_octal(octal_text(n)),
        crate::file_check::octal_value(octal_text(n)) == n,
    decreases n,
{
    let d = n % 8;
    assert(crate::file_check::octal_char(d) as int - '0' as int == d) by {
        if d == 0 {} else if d == 1 {} else if d == 2 {} else if d == 3 {} else if d == 4 {} else if d == 5 {} else if d == 6 {} else {}
    }
    if n < 8 {
        let t = octal_text(n);
        assert(t.drop_last() =~= Seq::<char>::empty());
        assert(t.last() == crate::file_check::octal_char(n));
        assert(crate::file_check::octal_value(t.drop_last()) == 0);
        assert(crate::file_check::octal_value(t) == crate::file_check::octal_value(t.drop_last()) * 8 + (t.last() as int - '0' as int) as nat);
    } else {
        lemma_octal_text_digits(n / 8);
        let t = octal_text(n);
        assert(t.drop_last() =~= octal_text(n / 8));
        assert(t.last() == crate::file_check::octal_char(n % 8));
        assert((n / 8) * 8 + n % 8 == n);
        assert(crate::file_check::octal_value(t) == crate::file_check::octal_value(t.drop_last()) * 8 + (t.last() as int - '0' as int) as nat);
        assert forall|i: int| 0 <= i < t.len() implies #[trigger] crate::file_check::is_octal_digit(t[i]) by {
            if i < t.len() - 1 {
                assert(t[i] == octal_text(n / 8)[i]);
            }
        }
    }
}

/// The mode that a message shows in octal reads back as the same mode.
pub proof fn law_permissions_round_trip(mode: u32)
    requires
        mode <= 0o777,
    ensures
        permissions_mode(octal_text(mode as nat)) == Ok::<u32, Seq<char>>(mode),
{
    lemma_octal_text_digits(mode as nat);
    let t = octal_text(mode as nat);
    assert(crate::file_check::digits_part(t) == t);
}

/// An `entry_present` check whose keys differ (as those of a TOML table do)
/// and whose array items each equal themselves in the format: afterwards each
/// array at a key holds every item of the check, and a second check changes
/// nothing.
pub proof fn law_entry_present_is_stable(fmt: Format, doc: Entries, inline: bool, add: Entries)
    requires
        keys_distinct(add),
        entries_add_ready(fmt, add),
        add_entries_spec(fmt, doc, inline, add) is Some,
    ensures
        ({
            let d = add_entries_spec(fmt, doc, inline, add)->Some_0;
            &&& forall|i: int, j: int|
                0 <= i < add.len() && add[i].1 is Array && 0 <= j < add[i].1->Array_0.len() ==> (
                get_value(d, add[i].0) matches Some(NodeV::Array(a)) && holds(
                    fmt,
                    a,
                    convert(fmt, #[trigger] add[i].1->Array_0[j]),
                ))
            &&& add_entries_spec(fmt, d, inline, add) == Some(d)
        }),
{
    lemma_add_entries_stable(fmt, doc, inline, add);
    let d = add_entries_spec(fmt, doc, inline, add)->Some_0;
    assert forall|i: int, j: int|
        0 <= i < add.len() && add[i].1 is Array && 0 <= j < add[i].1->Array_0.len() implies (
        get_value(d, add[i].0) matches Some(NodeV::Array(a)) && holds(
            fmt,
            a,
            convert(fmt, #[trigger] add[i].1->Array_0[j]),
        )) by {
        let k = add[i].0;
        let items = add[i].1->Array_0;
        assert(add_one(fmt, d, inline, k, add[i].1) == Some(d));
        lemma_entries_ready_at(fmt, add, i);
        let arr = array_child(d, k)->Some_0;
        lemma_insert_all(fmt, arr, items);
        let a = array_insert_all(fmt, arr, items)->Some_0;
        lemma_get_after_set(d, k, NodeV::Array(a));
    }
}

/// An item put into an array that it can hold, and that equals itself in the
/// format, is then found in the array, and putting it in again changes
/// nothing.
pub proof fn law_array_insert_then_contains(fmt: Format, arr: Seq<NodeV>, v: NodeV)
    requires
        can_hold(fmt, v),
        self_equal(fmt, convert(fmt, v)),
    ensures
        array_insert(fmt, arr, v) matches Some(a) && holds(fmt, a, convert(fmt, v)) && array_insert(
            fmt,
            a,
            v,
        ) == Some(a),
{
    let c = convert(fmt, v);
    if !holds(fmt, arr, c) {
        let a = arr.push(c);
        assert(a[arr.len() as int] == c);
    }
}

/// A `key_value_present` check whose keys differ (as those of a TOML table
/// do): afterwards each key that is set to a value that is no table holds the
/// value as the format writes it, and a second check changes nothing.
pub proof fn law_key_value_present_is_stable(fmt: Format, doc: Entries, inline: bool, vals: Entries)
    requires
        keys_distinct(vals),
        set_values_spec(fmt, doc, inline, vals) is Some,
    ensures
        ({
            let d = set_values_spec(fmt, doc, inline, vals)->Some_0;
            &&& forall|i: int|
                0 <= i < vals.len() && !(vals[i].1 is Table) ==> get_value(d, #[trigger] vals[i].0)
                    == Some(convert(fmt, vals[i].1))
            &&& set_values_spec(fmt, d, inline, vals) == Some(d)
        }),
{
    lemma_set_values_stable(fmt, doc, inline, vals);
    let d = set_values_spec(fmt, doc, inline, vals)->Some_0;
    assert forall|i: int|
        0 <= i < vals.len() && !(vals[i].1 is Table) implies get_value(d, #[trigger] vals[i].0)
            == Some(convert(fmt, vals[i].1)) by {
        assert(set_one(fmt, d, inline, vals[i].0, vals[i].1) == Some(d));
        lemma_get_after_set(d, vals[i].0, convert(fmt, vals[i].1));
    }
}

/// A `key_absent` check whose keys differ, on a document whose keys differ
/// (as those of a TOML, JSON or YAML document do): afterwards each key that
/// the check removes outright is gone, and a second check changes nothing.
pub proof fn law_key_absent_is_stable(fmt: Format, doc: Entries, inline: bool, keys: Entries)
    requires
        keys_distinct(doc),
        keys_distinct(keys),
    ensures
        ({
            let d = unset_keys_spec(fmt, doc, inline, keys);
            &&& forall|i: int|
                0 <= i < keys.len() && (keys[i].1 matches NodeV::Table(t, _) && t.len() == 0)
                    ==> get_value(d, #[trigger] keys[i].0) is None
            &&& unset_keys_spec(fmt, d, inline, keys) == d
        }),
{
    lemma_unset_keys_stable(fmt, doc, inline, keys);
    let d = unset_keys_spec(fmt, doc, inline, keys);
    assert forall|i: int|
        0 <= i < keys.len() && (keys[i].1 matches NodeV::Table(t, _) && t.len() == 0) implies get_value(
        d,
        #[trigger] keys[i].0,
    ) is None by {
        let k = keys[i].0;
        assert(unset_one(fmt, d, inline, k, keys[i].1) == d);
        assert(remove_key(fmt, d, k) == d);
        if key_pos(d, k) is Some {
            crate::node::lemma_key_pos(d, k);
            assert(remove_key(fmt, d, k).len() == d.len() - 1);
        }
    }
}

/// A `lines_present` check with markers is stable: once the markers stand in
/// the file, or once the fix appended them and they are the first ones found
/// in what it wrote, a second check asks for nothing more. The end marker
/// must be no longer than the start marker, and in the block of the start
/// marker, the lines and the end marker it must be found first at its own
/// place. (With markers out of order, `end` before `start`, the fix appends
/// them again each time; such contents are left out.)
pub proof fn law_lines_between_markers_are_stable(
    read: Option<Seq<char>>,
    lines: Seq<char>,
    start: Seq<char>,
    end: Seq<char>,
)
    requires
        start.len() > 0,
        end.len() <= start.len(),
        first_index(start + lines + end, end) == Some((start.len() + lines.len()) as int),
        ({
            let old = file_text(read);
            let new = lines_present_text(old, lines, None, Some((start, end)));
            ||| marker_positions(old, start, end) is Some
            ||| marker_positions(new, start, end) == Some(
                (
                    new.len() - (start + lines + end).len(),
                    new.len() - end.len(),
                ),
            )
        }),
    ensures
        ({
            let new = lines_present_text(file_text(read), lines, None, Some((start, end)));
            let back = file_text(Some(new));
            lines_present_text(back, lines, None, Some((start, end))) == back
        }),
{
    let old = file_text(read);
    let new = replaced_between(old, start, end, lines);
    assert(lines_present_text(old, lines, None, Some((start, end))) == new);
    let back = file_text(Some(new));
    let p = lemma_markers_stable(old, start, end, lines);
    if crate::file_check::ends_with_newline(new) {
        assert(back =~= new + Seq::<char>::empty());
        lemma_replaced_in_place(new, Seq::<char>::empty(), start, end, lines, p);
    } else {
        assert(back =~= new + seq!['\n']);
        lemma_replaced_in_place(new, seq!['\n'], start, end, lines, p);
    }
    assert(lines_present_text(back, lines, None, Some((start, end))) == replaced_between(back, start, end, lines));
}

/// An `entry_absent` check on a document that holds none of its entries (and
/// whose keys hold what the check removes from) changes nothing. (The fix
/// removes the first equal item only, so an array that holds an item twice
/// still holds it once after one fix: `[1, 1]` without `1` is `[1]`.)
pub proof fn law_entry_absent_nothing_left(fmt: Format, doc: Entries, inline: bool, rem: Entries)
    requires
        nothing_to_remove(fmt, doc, inline, rem),
    ensures
        remove_entries_spec(fmt, doc, inline, rem) == Some(doc),
{
    lemma_remove_entries_done(fmt, doc, inline, rem);
}

/// A `lines_absent` check with markers is stable once no pair of markers is
/// left in what its fix wrote: a second check asks for nothing more. (The fix
/// removes the first pair only; a file with two blocks between markers loses
/// one per fix.)
pub proof fn law_lines_absent_markers_fix_is_stable(
    read: Option<Seq<char>>,
    lines: Seq<char>,
    start: Seq<char>,
    end: Seq<char>,
)
    requires
        marker_positions(
            file_text(Some(lines_absent_text(file_text(read), lines, Some((start, end))))),
            start,
            end,
        ) is None,
    ensures
        ({
            let new = lines_absent_text(file_text(read), lines, Some((start, end)));
            let back = file_text(Some(new));
            lines_absent_text(back, lines, Some((start, end))) == back
        }),
{
}

proof fn lemma_replace_empty_with_nothing(s: Seq<char>)
    ensures
        crate::text::replace_empty(s, Seq::empty()) == s,
    decreases s.len(),
{
    if s.len() > 0 {
        lemma_replace_empty_with_nothing(s.skip(1));
        assert(Seq::<char>::empty() + seq![s[0]] + s.skip(1) =~= s);
    }
}

proof fn lemma_replace_absent(s: Seq<char>, l: Seq<char>)
    requires
        l.len() > 0,
        !contains(s, l),
    ensures
        crate::text::replace_all(s, l, Seq::empty()) == s,
    decreases s.len(),
{
    if s.len() > 0 {
        assert(!occurs_at(s, l, 0));
        assert(!contains(s.skip(1), l)) by {
            if contains(s.skip(1), l) {
                let i = choose|i: int| occurs_at(s.skip(1), l, i);
                assert(s.subrange(i + 1, i + 1 + l.len()) =~= s.skip(1).subrange(i, i + l.len()));
                assert(occurs_at(s, l, i + 1));
            }
        }
        lemma_replace_absent(s.skip(1), l);
        assert(seq![s[0]] + s.skip(1) =~= s);
    }
}

/// A `lines_absent` check without markers is stable once no occurrence of the
/// lines is left in what its fix wrote: a second check asks for nothing more.
/// (Removing every occurrence can make a new one, as `aabb` without `ab`
/// becomes `ab`; such contents are left out.)
pub proof fn law_lines_absent_fix_is_stable(read: Option<Seq<char>>, lines: Seq<char>)
    requires
        !contains(file_text(Some(lines_absent_text(file_text(read), lines, None))), lines) || lines.len()
            == 0,
    ensures
        ({
            let new = lines_absent_text(file_text(read), lines, None);
            let back = file_text(Some(new));
            lines_absent_text(back, lines, None) == back
        }),
{
    let new = lines_absent_text(file_text(read), lines, None);
    let back = file_text(Some(new));
    if lines.len() == 0 {
        lemma_replace_empty_with_nothing(back);
    } else {
        lemma_replace_absent(back, lines);
    }
}

/// Replacing the text between the markers is idempotent: where the start
/// marker (not empty) is first found at `i`, the end marker first found at a
/// later `j`, and the end marker is first found right after the replacement in
/// the text up to the start marker, the replacement and the end marker,
/// replacing a second time changes nothing.
pub proof fn law_replace_between_markers_is_idempotent(
    contents: Seq<char>,
    start: Seq<char>,
    end: Seq<char>,
    replacement: Seq<char>,
    i: int,
    j: int,
)
    requires
        start.len() > 0,
        first_index(contents, start) == Some(i),
        first_index(contents, end) == Some(j),
        i < j,
        first_index(contents.take(i + start.len()) + replacement + end, end) == Some(
            i + start.len() + replacement.len(),
        ),
    ensures
        replaced_between(replaced_between(contents, start, end, replacement), start, end, replacement)
            == replaced_between(contents, start, end, replacement),
{
    lemma_replaced_markers(contents, start, end, replacement, i, j);
    crate::text::lemma_first_index(contents, start);
    crate::text::lemma_first_index(contents, end);
    let n = replaced_between(contents, start, end, replacement);
    let ls = start.len() as int;
    let q = i + ls + replacement.len();
    assert(replaced_between(n, start, end, replacement) == n.take(i + ls) + replacement + n.skip(q)) by {
        reveal(replaced_between);
    }
    assert(n.take(i + ls) + replacement + n.skip(q) =~= n);
}

/// Removing the markers after replacing what stands between them gives what
/// removing them alone gives: the text before the start marker followed by
/// the text after the end marker (under the conditions of
/// `law_replace_between_markers_is_idempotent`).
pub proof fn law_remove_after_replace_between_markers(
    contents: Seq<char>,
    start: Seq<char>,
    end: Seq<char>,
    replacement: Seq<char>,
    i: int,
    j: int,
)
    requires
        start.len() > 0,
        first_index(contents, start) == Some(i),
        first_index(contents, end) == Some(j),
        i < j,
        first_index(contents.take(i + start.len()) + replacement + end, end) == Some(
            i + start.len() + replacement.len(),
        ),
    ensures
        removed_between(replaced_between(contents, start, end, replacement), start, end)
            == removed_between(contents, start, end),
        removed_between(contents, start, end) == contents.take(i) + contents.skip(j + end.len()),
{
    lemma_replaced_markers(contents, start, end, replacement, i, j);
    crate::text::lemma_first_index(contents, start);
    crate::text::lemma_first_index(contents, end);
    let n = replaced_between(contents, start, end, replacement);
    let ls = start.len() as int;
    let q = i + ls + replacement.len();
    assert(n.take(i) =~= contents.take(i));
    assert(n.skip(q + end.len()) =~= contents.skip(j + end.len()));
}

} // verus!
