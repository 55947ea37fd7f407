//! What the edits and verdicts of the checks do to what they are given: which
//! occurrences a `lines_absent` fix removes, when permissions must be fixed,
//! how `key_value_present` merges tables, how `key_absent` reaches nested
//! keys, and when `key_value_regex_matched` finds a key missing.
use vstd::prelude::*;

use crate::base::{CheckError, CheckResultV};
use crate::checks::FilePresent;
use crate::entries::{key_path, mapping_child, set_one, unset_one, validate_spec, Entries, RegexOutcome};
use crate::entry_laws::{keys_distinct, lemma_set_values_keeps_unnamed, lemma_unset_keys_effect};
use crate::file_check::{fix_permissions, lines_absent_text, FixPlan};
use crate::fs_checks::{DirPresent, DiskPlan};
use crate::node::{convert, get_value, lemma_get_after_set, Format, NodeV};
use crate::external::{regex_compile_error, regex_finds};
use crate::text::{contains, first_index, is_first_occurrence, lemma_first_index, occurs_at, replace_all};

verus! {

proof fn lemma_replace_from_first(x: Seq<char>, l: Seq<char>, y: Seq<char>)
    requires
        l.len() > 0,
        is_first_occurrence(x + l + y, l, x.len() as int),
    ensures
        replace_all(x + l + y, l, Seq::empty()) == x + replace_all(y, l, Seq::empty()),
    decreases x.len(),
{
    let s = x + l + y;
    if x.len() == 0 {
        assert(s =~= l + y);
        assert(occurs_at(s, l, 0));
        assert(s.skip(l.len() as int) =~= y);
        assert(Seq::<char>::empty() + replace_all(y, l, Seq::empty()) =~= x + replace_all(
            y,
            l,
            Seq::empty(),
        ));
    } else {
        assert(!occurs_at(s, l, 0));
        let x1 = x.skip(1);
        let s1 = x1 + l + y;
        assert(s.skip(1) =~= s1);
        assert(s1.subrange(x1.len() as int, (x1.len() + l.len()) as int) =~= s.subrange(
            x.len() as int,
            (x.len() + l.len()) as int,
        ));
        assert forall|j: int| 0 <= j < x1.len() implies !occurs_at(s1, l, j) by {
            if occurs_at(s1, l, j) {
                assert(s.subrange(j + 1, j + 1 + l.len()) =~= s1.subrange(j, j + l.len()));
                assert(occurs_at(s, l, j + 1));
            }
        }
        assert(is_first_occurrence(s1, l, x1.len() as int));
        lemma_replace_from_first(x1, l, y);
        assert(s[0] == x[0]);
        assert(seq![x[0]] + (x1 + replace_all(y, l, Seq::empty())) =~= x + replace_all(
            y,
            l,
            Seq::empty(),
        ));
    }
}

proof fn lemma_replace_none(s: Seq<char>, l: Seq<char>)
    requires
        l.len() > 0,
        !contains(s, l),
    ensures
        replace_all(s, l, Seq::empty()) == s,
    decreases s.len(),
{
    if s.len() > 0 {
        assert(!occurs_at(s, l, 0));
        assert(!contains(s.skip(1), l)) by {
            if contains(s.skip(1), l) {
                let i = choose|i: int| occurs_at(s.skip(1), l, i);
                assert(s.subrange(i + 1, i + 1 + l.len()) =~= s.skip(1).subrange(i, i + l.len()));
                assert(occurs_at(s, l, i + 1));
            }
        }
        lemma_replace_none(s.skip(1), l);
        assert(seq![s[0]] + s.skip(1) =~= s);
    }
}

/// Without markers, a `lines_absent` fix removes the first occurrence of the
/// lines and goes on with what follows it: the text before the first
/// occurrence is kept, and what follows the occurrence is treated the same way
/// (so every non-overlapping occurrence, leftmost first, is removed).
pub proof fn law_lines_absent_removes_from_first_occurrence(x: Seq<char>, lines: Seq<char>, y: Seq<char>)
    requires
        lines.len() > 0,
        first_index(x + lines + y, lines) == Some(x.len() as int),
    ensures
        lines_absent_text(x + lines + y, lines, None) == x + lines_absent_text(y, lines, None),
{
    lemma_first_index(x + lines + y, lines);
    lemma_replace_from_first(x, lines, y);
}

/// Without markers, a `lines_absent` fix leaves a text that does not hold the
/// lines as it is.
pub proof fn law_lines_absent_keeps_text_without_lines(contents: Seq<char>, lines: Seq<char>)
    requires
        lines.len() > 0,
        first_index(contents, lines) is None,
    ensures
        lines_absent_text(contents, lines, None) == contents,
{
    lemma_first_index(contents, lines);
    assert(!contains(contents, lines));
    lemma_replace_none(contents, lines);
}

/// Without markers, a `lines_absent` check with no lines leaves the text as it
/// is.
pub proof fn law_lines_absent_without_lines_keeps_text(contents: Seq<char>)
    ensures
        lines_absent_text(contents, Seq::empty(), None) == contents,
    decreases contents.len(),
{
    if contents.len() > 0 {
        law_lines_absent_without_lines_keeps_text(contents.skip(1));
        assert(Seq::<char>::empty() + seq![contents[0]] + contents.skip(1) =~= contents);
    }
}

/// Without markers, a `lines_absent` fix on a text that holds the lines at two
/// places only, `x + lines + y + lines + z`, asks for `x + y + z`: both
/// occurrences are removed.
pub proof fn law_lines_absent_removes_both_occurrences(
    x: Seq<char>,
    lines: Seq<char>,
    y: Seq<char>,
    z: Seq<char>,
)
    requires
        lines.len() > 0,
        forall|i: int|
            occurs_at(x + lines + y + lines + z, lines, i) ==> i == x.len() || i == x.len() + lines.len()
                + y.len(),
    ensures
        lines_absent_text(x + lines + y + lines + z, lines, None) == x + y + z,
{
    let s = x + lines + y + lines + z;
    let ll = lines.len() as int;
    let a = x.len() as int;
    let b = a + ll + y.len();
    let yz = y + lines + z;
    assert(s =~= x + lines + yz);
    assert(s.subrange(a, a + ll) =~= lines);
    assert(occurs_at(s, lines, a));
    assert(is_first_occurrence(s, lines, a));
    lemma_first_index(s, lines);
    law_lines_absent_removes_from_first_occurrence(x, lines, yz);
    // in y + lines + z the lines stand first after y
    assert(yz.subrange(y.len() as int, y.len() + ll) =~= lines);
    assert forall|j: int| 0 <= j < y.len() implies !occurs_at(yz, lines, j) by {
        if occurs_at(yz, lines, j) {
            assert(s.subrange(a + ll + j, a + ll + j + ll) =~= yz.subrange(j, j + ll));
            assert(occurs_at(s, lines, a + ll + j));
        }
    }
    assert(is_first_occurrence(yz, lines, y.len() as int));
    lemma_first_index(yz, lines);
    law_lines_absent_removes_from_first_occurrence(y, lines, z);
    // z holds the lines nowhere
    assert forall|j: int| !occurs_at(z, lines, j) by {
        if occurs_at(z, lines, j) {
            assert(s.subrange(b + ll + j, b + ll + j + ll) =~= z.subrange(j, j + ll));
            assert(occurs_at(s, lines, b + ll + j));
        }
    }
    lemma_first_index(z, lines);
    law_lines_absent_keeps_text_without_lines(z, lines);
    assert(x + (y + z) =~= x + y + z);
}

/// The permissions of an existing file or directory whose mode could be read
/// must be fixed exactly when its permission bits (`mode & 0o777`) differ from
/// those wanted; a missing one always gets them, and without wanted
/// permissions nothing is fixed.
pub proof fn law_permissions_compare_all_permission_bits(wanted: u32, mode: u32, present: bool)
    ensures
        fix_permissions(true, Some(wanted), Some(mode)) <==> (mode & 0o777u32) != (wanted & 0o777u32),
        fix_permissions(false, Some(wanted), None),
        !fix_permissions(present, None, Some(mode)),
{
}

/// A `file_present` check without regex on an existing file whose mode `m`
/// could be read, with wanted permissions `p`, succeeds, and finds nothing to
/// fix exactly when `m & 0o777 == p & 0o777`.
pub proof fn law_file_present_permissions(
    check: FilePresent,
    mode: u32,
    read: Option<Seq<char>>,
    r: Result<FixPlan, CheckError>,
)
    requires
        check.regex is None,
        check.permissions is Some,
        check.plan_meets(true, Some(mode), read, false, r),
    ensures
        r matches Ok(plan) && (plan.result@ == CheckResultV::NoFixNeeded <==> (mode & 0o777u32) == (
        check.permissions->Some_0 & 0o777u32)),
{
}

/// A `dir_present` check on an existing directory whose mode `m` could be
/// read, with wanted permissions `p`, succeeds, and finds nothing to fix
/// exactly when `m & 0o777 == p & 0o777`.
pub proof fn law_dir_present_permissions(check: DirPresent, mode: u32, r: Result<DiskPlan, CheckError>)
    requires
        check.permissions is Some,
        check.plan_meets(true, Some(mode), false, r),
    ensures
        r matches Ok(plan) && (plan.result@ == CheckResultV::NoFixNeeded <==> (mode & 0o777u32) == (
        check.permissions->Some_0 & 0o777u32)),
{
}

/// A `file_present` check on a missing file always asks for a fix; fixing
/// writes the file (the placeholder, or nothing) and sets the wanted
/// permissions, if any.
pub proof fn law_file_present_creates_missing_file(
    check: FilePresent,
    current: Option<u32>,
    read: Option<Seq<char>>,
    fix: bool,
    r: Result<FixPlan, CheckError>,
)
    requires
        check.plan_meets(false, current, read, fix, r),
    ensures
        r matches Ok(plan) && plan.result@ != CheckResultV::NoFixNeeded && (fix ==> (plan.contents is Some
            && plan.permissions == check.permissions)),
{
}

/// A `dir_present` check on a missing directory always asks for a fix;
/// fixing creates it and sets the wanted permissions, if any.
pub proof fn law_dir_present_creates_missing_dir(
    check: DirPresent,
    current: Option<u32>,
    fix: bool,
    r: Result<DiskPlan, CheckError>,
)
    requires
        check.plan_meets(false, current, fix, r),
    ensures
        r matches Ok(plan) && plan.result@ != CheckResultV::NoFixNeeded && (fix ==> (plan.create
            && plan.permissions == check.permissions)),
{
}

/// `key_value_present` with a table value (inline or not) at a key that holds
/// a table merges the two key by key: afterwards the key holds a table (of
/// the same kind as before) that keeps every entry of the old table whose key
/// the check's table does not name.
pub proof fn law_key_value_present_merges_tables(
    fmt: Format,
    doc: Entries,
    inline: bool,
    k: Seq<char>,
    t: Entries,
    t_inline: bool,
    c: Entries,
    c_inline: bool,
)
    requires
        get_value(doc, k) == Some(NodeV::Table(c, c_inline)),
        set_one(fmt, doc, inline, k, NodeV::Table(t, t_inline)) is Some,
    ensures
        ({
            let d = set_one(fmt, doc, inline, k, NodeV::Table(t, t_inline))->Some_0;
            &&& get_value(d, k) matches Some(NodeV::Table(c2, ci2)) && ci2 == c_inline && forall|j: Seq<char>|
                get_value(t, j) is None ==> get_value(c2, j) == get_value(c, j)
            &&& keys_distinct(t) ==> (get_value(d, k) matches Some(NodeV::Table(c2, _)) && forall|i: int|
                0 <= i < t.len() && !(t[i].1 is Table) ==> get_value(c2, #[trigger] t[i].0) == Some(
                    convert(fmt, t[i].1),
                ))
        }),
{
    let (c1, ci) = mapping_child(fmt, doc, inline, k)->Some_0;
    assert(c1 == c && ci == c_inline);
    lemma_set_values_keeps_unnamed(fmt, c, c_inline, t);
    let c2 = crate::entries::set_values_spec(fmt, c, c_inline, t)->Some_0;
    lemma_get_after_set(doc, k, NodeV::Table(c2, c_inline));
    if keys_distinct(t) {
        crate::laws::law_key_value_present_is_stable(fmt, c, c_inline, t);
    }
}

/// `key_absent` with a table that is not empty (inline or not) at a key that
/// holds a table it may edit reaches into that table: afterwards the key holds
/// a table (of the same kind) in which every key that the check's table
/// removes outright (an empty table) is gone and every key it does not name
/// is as before.
pub proof fn law_key_absent_reaches_nested_keys(
    fmt: Format,
    doc: Entries,
    inline: bool,
    k: Seq<char>,
    t: Entries,
    t_inline: bool,
    c: Entries,
    c_inline: bool,
)
    requires
        keys_distinct(doc),
        t.len() > 0,
        get_value(doc, k) == Some(NodeV::Table(c, c_inline)),
        !(fmt == Format::Toml && inline && !c_inline),
    ensures
        ({
            let d = unset_one(fmt, doc, inline, k, NodeV::Table(t, t_inline));
            get_value(d, k) matches Some(NodeV::Table(c2, ci2)) && ci2 == c_inline && (forall|j: Seq<char>|
                (get_value(t, j) matches Some(NodeV::Table(x, _)) && x.len() == 0) ==> get_value(c2, j)
                    is None) && (forall|j: Seq<char>|
                get_value(t, j) is None ==> get_value(c2, j) == get_value(c, j))
        }),
{
    crate::entry_laws::lemma_keys_distinct_unfold(doc);
    crate::node::lemma_key_pos(doc, k);
    let i = crate::node::key_pos(doc, k)->Some_0;
    assert(crate::entry_laws::nested_keys_distinct(doc[i].1));
    assert(keys_distinct(c));
    lemma_unset_keys_effect(fmt, c, c_inline, t);
    let c2 = crate::entries::unset_keys_spec(fmt, c, c_inline, t);
    lemma_get_after_set(doc, k, NodeV::Table(c2, c_inline));
}

/// An entry of a `key_value_regex_matched` check that decides nothing: it is
/// neither a string nor a table that is not inline.
pub open spec fn undeciding(v: NodeV) -> bool {
    !(v is Str) && !(v matches NodeV::Table(_, false))
}

/// `key_value_regex_matched`: entries of the check that are neither strings
/// nor tables that are not inline are passed over; what follows them decides.
pub proof fn law_undeciding_entries_are_passed_over(
    fmt: Format,
    doc: Entries,
    inline: bool,
    skipped: Entries,
    rest: Entries,
    path: Seq<char>,
    placeholder: Option<Seq<char>>,
)
    requires
        forall|i: int| 0 <= i < skipped.len() ==> undeciding(#[trigger] skipped[i].1),
    ensures
        validate_spec(fmt, doc, inline, skipped + rest, path, placeholder) == validate_spec(
            fmt,
            doc,
            inline,
            rest,
            path,
            placeholder,
        ),
    decreases skipped.len(),
{
    let table = skipped + rest;
    if skipped.len() == 0 {
        assert(table =~= rest);
    } else {
        let tail = skipped.skip(1);
        assert(table.skip(1) =~= tail + rest);
        assert(table[0] == skipped[0]);
        assert(undeciding(skipped[0].1));
        assert forall|i: int| 0 <= i < tail.len() implies undeciding(#[trigger] tail[i].1) by {
            assert(tail[i] == skipped[i + 1]);
        }
        law_undeciding_entries_are_passed_over(fmt, doc, inline, tail, rest, path, placeholder);
    }
}

/// `key_value_regex_matched`: where the first entry of the check that decides
/// (after entries that are neither strings nor tables that are not inline)
/// is a table at a key the document does not have, the key is reported
/// invalid, by its dotted path, with no regex and nothing found, and the
/// document is left as it is: a missing table is never valid.
pub proof fn law_missing_table_is_invalid(
    fmt: Format,
    doc: Entries,
    inline: bool,
    skipped: Entries,
    k: Seq<char>,
    t: Entries,
    after: Entries,
    path: Seq<char>,
    placeholder: Option<Seq<char>>,
)
    requires
        forall|i: int| 0 <= i < skipped.len() ==> undeciding(#[trigger] skipped[i].1),
        get_value(doc, k) is None,
    ensures
        validate_spec(fmt, doc, inline, skipped + seq![(k, NodeV::Table(t, false))] + after, path, placeholder)
            == (RegexOutcome::Invalid(key_path(path, k), Seq::empty(), Seq::empty()), doc),
{
    let rest = seq![(k, NodeV::Table(t, false))] + after;
    assert(skipped + seq![(k, NodeV::Table(t, false))] + after =~= skipped + rest);
    law_undeciding_entries_are_passed_over(fmt, doc, inline, skipped, rest, path, placeholder);
    assert(rest[0] == (k, NodeV::Table(t, false)));
}

/// `key_value_regex_matched`: where the deciding entry is a table at a key
/// that holds a table the check may read, the outcome is that of the check's
/// table on the document's table, with the key's dotted path as the parent
/// path, and the document's table becomes what that gives.
pub proof fn law_present_table_is_checked_inside(
    fmt: Format,
    doc: Entries,
    inline: bool,
    k: Seq<char>,
    t: Entries,
    after: Entries,
    c: Entries,
    c_inline: bool,
    path: Seq<char>,
    placeholder: Option<Seq<char>>,
)
    requires
        get_value(doc, k) == Some(NodeV::Table(c, c_inline)),
        !(fmt == Format::Toml && inline && !c_inline),
    ensures
        ({
            let (o, c2) = validate_spec(fmt, c, c_inline, t, key_path(path, k), placeholder);
            validate_spec(fmt, doc, inline, seq![(k, NodeV::Table(t, false))] + after, path, placeholder) == (
            o, crate::node::set_value(doc, k, NodeV::Table(c2, c_inline)))
        }),
{
    let table = seq![(k, NodeV::Table(t, false))] + after;
    assert(table[0] == (k, NodeV::Table(t, false)));
}

/// `key_value_regex_matched`: where the deciding entry is a regex at a key
/// that holds a string, a regex that does not compile is reported as such;
/// otherwise the outcome is valid exactly when the regex is found in the
/// string, and invalid with the key's dotted path, the regex and the string
/// when it is not. The document is left as it is.
pub proof fn law_string_key_is_matched(
    fmt: Format,
    doc: Entries,
    inline: bool,
    k: Seq<char>,
    raw: Seq<char>,
    after: Entries,
    found: Seq<char>,
    path: Seq<char>,
    placeholder: Option<Seq<char>>,
)
    requires
        get_value(doc, k) == Some(NodeV::Str(found)),
    ensures
        validate_spec(fmt, doc, inline, seq![(k, NodeV::Str(raw))] + after, path, placeholder) == (
        match regex_compile_error(raw) {
            Some(e) => RegexOutcome::BadRegex(e),
            None => if regex_finds(raw, found) {
                RegexOutcome::Valid
            } else {
                RegexOutcome::Invalid(key_path(path, k), raw, found)
            },
        }, doc),
{
    let table = seq![(k, NodeV::Str(raw))] + after;
    assert(table[0] == (k, NodeV::Str(raw)));
}

/// `key_value_regex_matched`: where the deciding entry is a regex at a key
/// that holds no string (or is missing), the key is invalid, with its dotted
/// path, the regex and nothing found; the placeholder, when there is one, is
/// put at the key, and otherwise the document is left as it is.
pub proof fn law_missing_string_is_invalid(
    fmt: Format,
    doc: Entries,
    inline: bool,
    k: Seq<char>,
    raw: Seq<char>,
    after: Entries,
    path: Seq<char>,
    placeholder: Option<Seq<char>>,
)
    requires
        !(get_value(doc, k) matches Some(NodeV::Str(_))),
    ensures
        ({
            let (o, d) = validate_spec(fmt, doc, inline, seq![(k, NodeV::Str(raw))] + after, path, placeholder);
            &&& o == RegexOutcome::Invalid(key_path(path, k), raw, Seq::empty())
            &&& match placeholder {
                Some(p) => get_value(d, k) == Some(NodeV::Str(p)) && forall|j: Seq<char>|
                    j != k ==> get_value(d, j) == get_value(doc, j),
                None => d == doc,
            }
        }),
{
    let table = seq![(k, NodeV::Str(raw))] + after;
    assert(table[0] == (k, NodeV::Str(raw)));
    match placeholder {
        Some(p) => {
            lemma_get_after_set(doc, k, NodeV::Str(p));
            assert forall|j: Seq<char>| j != k implies get_value(crate::node::set_value(doc, k, NodeV::Str(p)), j)
                == get_value(doc, j) by {
                crate::node::lemma_get_other_after_set(doc, k, NodeV::Str(p), j);
            }
        },
        None => {},
    }
}

} // verus!
