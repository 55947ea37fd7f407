//! Lemmas behind the stability of the entry and key checks: once a document
//! has been edited by a check, the same edit changes it no more.
use vstd::prelude::*;

use crate::entries::{
    add_entries_spec, add_one, array_child, array_insert, array_insert_all, can_hold, holds,
    mapping_child, set_one, set_values_spec, unset_keys_spec, unset_one, Entries, array_remove,
    array_remove_all, lemma_first_equal, remove_entries_spec, remove_one,
};
use crate::node::{
    convert, get_value, key_pos, lemma_key_pos_at, node_eq, remove_key, lemma_get_after_set, lemma_get_other_after_set, lemma_key_pos, lemma_key_pos_none,
    lemma_set_same, set_value, Format, NodeV,
};

verus! {

/// The keys of a table differ from each other, and so do those of every table
/// nested in it: what a table read from TOML, JSON or YAML always has.
pub open spec fn keys_distinct(es: Entries) -> bool
    decreases es,
{
    if es.len() == 0 {
        true
    } else {
        &&& get_value(es.skip(1), es[0].0) is None
        &&& nested_keys_distinct(es[0].1)
        &&& keys_distinct(es.skip(1))
    }
}

/// A value that is no table, or a table whose keys are distinct.
pub open spec fn nested_keys_distinct(v: NodeV) -> bool
    decreases v,
{
    match v {
        NodeV::Table(t, _) => keys_distinct(t),
        _ => true,
    }
}

/// A key that the entries do not have is none of their keys.
proof fn lemma_absent_key(es: Entries, k: Seq<char>)
    requires
        get_value(es, k) is None,
    ensures
        forall|j: int| 0 <= j < es.len() ==> es[j].0 != k,
        es.len() > 0 ==> get_value(es.skip(1), k) is None,
{
    lemma_key_pos(es, k);
    if es.len() > 0 {
        assert forall|j: int| 0 <= j < es.skip(1).len() implies es.skip(1)[j].0 != k by {
            assert(es.skip(1)[j] == es[j + 1]);
        }
        lemma_key_pos_none(es.skip(1), k);
    }
}

/// Setting one entry reads the document only through the value of its key,
/// and writes only that key.
proof fn lemma_set_one_shape(fmt: Format, e: Entries, inline: bool, k: Seq<char>, v: NodeV)
    ensures
        set_one(fmt, e, inline, k, v) matches Some(e2) ==> exists|x: NodeV|
            e2 == set_value(e, k, x),
{
    match set_one(fmt, e, inline, k, v) {
        Some(e2) => {
            match v {
                NodeV::Table(t, _) => {
                    let (c, ci) = mapping_child(fmt, e, inline, k)->Some_0;
                    let c2 = set_values_spec(fmt, c, ci, t)->Some_0;
                    assert(e2 == set_value(e, k, NodeV::Table(c2, ci)));
                },
                _ => {
                    assert(e2 == set_value(e, k, crate::node::convert(fmt, v)));
                },
            }
        },
        None => {},
    }
}

/// Two documents that hold the same value at a key get the same value set
/// there by one entry.
proof fn lemma_set_one_same_key(
    fmt: Format,
    e: Entries,
    f: Entries,
    inline: bool,
    k: Seq<char>,
    v: NodeV,
)
    requires
        get_value(e, k) == get_value(f, k),
    ensures
        set_one(fmt, e, inline, k, v) is Some <==> set_one(fmt, f, inline, k, v) is Some,
        set_one(fmt, e, inline, k, v) is Some ==> exists|x: NodeV|
            set_one(fmt, e, inline, k, v) == Some(set_value(e, k, x)) && set_one(
                fmt,
                f,
                inline,
                k,
                v,
            ) == Some(set_value(f, k, x)),
{
    assert(mapping_child(fmt, e, inline, k) == mapping_child(fmt, f, inline, k));
    match v {
        NodeV::Table(t, _) => {
            match mapping_child(fmt, e, inline, k) {
                Some((c, ci)) => {
                    match set_values_spec(fmt, c, ci, t) {
                        Some(c2) => {
                            let x = NodeV::Table(c2, ci);
                            assert(set_one(fmt, e, inline, k, v) == Some(set_value(e, k, x)));
                        },
                        None => {},
                    }
                },
                None => {},
            }
        },
        _ => {
            let x = crate::node::convert(fmt, v);
            if set_one(fmt, e, inline, k, v) is Some {
                assert(set_one(fmt, e, inline, k, v) == Some(set_value(e, k, x)));
            }
        },
    }
}

/// An entry that changes a document no more still changes it no more after
/// another key was set.
proof fn lemma_set_noop_kept(
    fmt: Format,
    e: Entries,
    inline: bool,
    k: Seq<char>,
    v: NodeV,
    k2: Seq<char>,
    v2: NodeV,
)
    requires
        set_one(fmt, e, inline, k, v) == Some(e),
        k2 != k,
        set_one(fmt, e, inline, k2, v2) is Some,
    ensures
        ({
            let e2 = set_one(fmt, e, inline, k2, v2)->Some_0;
            set_one(fmt, e2, inline, k, v) == Some(e2)
        }),
{
    let e2 = set_one(fmt, e, inline, k2, v2)->Some_0;
    lemma_set_one_shape(fmt, e, inline, k2, v2);
    let y = choose|y: NodeV| e2 == set_value(e, k2, y);
    lemma_get_other_after_set(e, k2, y, k);
    lemma_set_one_same_key(fmt, e, e2, inline, k, v);
    let x = choose|x: NodeV|
        set_one(fmt, e, inline, k, v) == Some(set_value(e, k, x)) && set_one(fmt, e2, inline, k, v)
            == Some(set_value(e2, k, x));
    lemma_get_after_set(e, k, x);
    lemma_set_same(e2, k, x);
}

/// An entry that changes a document no more still changes it no more after
/// entries with other keys were set.
proof fn lemma_set_noop_through(
    fmt: Format,
    e: Entries,
    inline: bool,
    k: Seq<char>,
    v: NodeV,
    rest: Entries,
)
    requires
        set_one(fmt, e, inline, k, v) == Some(e),
        get_value(rest, k) is None,
        set_values_spec(fmt, e, inline, rest) is Some,
    ensures
        ({
            let d = set_values_spec(fmt, e, inline, rest)->Some_0;
            set_one(fmt, d, inline, k, v) == Some(d)
        }),
    decreases rest.len(),
{
    if rest.len() > 0 {
        lemma_absent_key(rest, k);
        let e2 = set_one(fmt, e, inline, rest[0].0, rest[0].1)->Some_0;
        lemma_set_noop_kept(fmt, e, inline, k, v, rest[0].0, rest[0].1);
        lemma_set_noop_through(fmt, e2, inline, k, v, rest.skip(1));
    }
}

/// A document that no entry changes is left as it is by all of them.
proof fn lemma_set_noops_apply(fmt: Format, e: Entries, inline: bool, vals: Entries)
    requires
        forall|i: int| 0 <= i < vals.len() ==> set_one(fmt, e, inline, #[trigger] vals[i].0, vals[i].1) == Some(e),
    ensures
        set_values_spec(fmt, e, inline, vals) == Some(e),
    decreases vals.len(),
{
    if vals.len() > 0 {
        assert(set_one(fmt, e, inline, vals[0].0, vals[0].1) == Some(e));
        assert forall|i: int| 0 <= i < vals.skip(1).len() implies set_one(
            fmt,
            e,
            inline,
            #[trigger] vals.skip(1)[i].0,
            vals.skip(1)[i].1,
        ) == Some(e) by {
            assert(vals.skip(1)[i] == vals[i + 1]);
        }
        lemma_set_noops_apply(fmt, e, inline, vals.skip(1));
    }
}

/// Setting one entry a second time changes nothing.
pub proof fn lemma_set_one_twice(fmt: Format, e: Entries, inline: bool, k: Seq<char>, v: NodeV)
    requires
        set_one(fmt, e, inline, k, v) is Some,
        nested_keys_distinct(v),
    ensures
        ({
            let e1 = set_one(fmt, e, inline, k, v)->Some_0;
            set_one(fmt, e1, inline, k, v) == Some(e1)
        }),
    decreases v,
{
    let e1 = set_one(fmt, e, inline, k, v)->Some_0;
    match v {
        NodeV::Table(t, _) => {
            let (c, ci) = mapping_child(fmt, e, inline, k)->Some_0;
            let c2 = set_values_spec(fmt, c, ci, t)->Some_0;
            lemma_get_after_set(e, k, NodeV::Table(c2, ci));
            assert(mapping_child(fmt, e1, inline, k) == Some((c2, ci)));
            lemma_set_values_stable(fmt, c, ci, t);
            lemma_set_same(e1, k, NodeV::Table(c2, ci));
        },
        _ => {
            let x = crate::node::convert(fmt, v);
            lemma_get_after_set(e, k, x);
            lemma_set_same(e1, k, x);
        },
    }
}

/// After the values of a check with distinct keys are set, setting any one of
/// them, or all of them, changes nothing.
pub proof fn lemma_set_values_stable(fmt: Format, doc: Entries, inline: bool, vals: Entries)
    requires
        set_values_spec(fmt, doc, inline, vals) is Some,
        keys_distinct(vals),
    ensures
        ({
            let d = set_values_spec(fmt, doc, inline, vals)->Some_0;
            &&& forall|i: int|
                0 <= i < vals.len() ==> set_one(fmt, d, inline, #[trigger] vals[i].0, vals[i].1)
                    == Some(d)
            &&& set_values_spec(fmt, d, inline, vals) == Some(d)
        }),
    decreases vals,
{
    let d = set_values_spec(fmt, doc, inline, vals)->Some_0;
    if vals.len() > 0 {
        let k = vals[0].0;
        let v = vals[0].1;
        let rest = vals.skip(1);
        let e1 = set_one(fmt, doc, inline, k, v)->Some_0;
        lemma_set_values_stable(fmt, e1, inline, rest);
        lemma_set_one_twice(fmt, doc, inline, k, v);
        lemma_set_noop_through(fmt, e1, inline, k, v, rest);
        assert forall|i: int| 0 <= i < vals.len() implies set_one(
            fmt,
            d,
            inline,
            #[trigger] vals[i].0,
            vals[i].1,
        ) == Some(d) by {
            if i > 0 {
                assert(vals[i] == rest[i - 1]);
            }
        }
    }
    lemma_set_noops_apply(fmt, d, inline, vals);
}

/// An item of the format that equals itself.
pub open spec fn self_equal(fmt: Format, v: NodeV) -> bool {
    node_eq(fmt, v, v)
}

pub proof fn lemma_insert_all(fmt: Format, arr: Seq<NodeV>, items: Seq<NodeV>)
    requires
        array_insert_all(fmt, arr, items) is Some,
    ensures
        ({
            let a = array_insert_all(fmt, arr, items)->Some_0;
            &&& forall|x: NodeV| holds(fmt, arr, x) ==> holds(fmt, a, x)
            &&& forall|i: int| 0 <= i < items.len() ==> #[trigger] can_hold(fmt, items[i])
            &&& forall|i: int|
                0 <= i < items.len() && self_equal(fmt, convert(fmt, items[i])) ==> holds(
                    fmt,
                    a,
                    convert(fmt, #[trigger] items[i]),
                )
        }),
    decreases items.len(),
{
    if items.len() > 0 {
        let b = array_insert(fmt, arr, items[0])->Some_0;
        let c = convert(fmt, items[0]);
        assert forall|x: NodeV| holds(fmt, arr, x) implies holds(fmt, b, x) by {
            let j = choose|j: int| 0 <= j < arr.len() && node_eq(fmt, #[trigger] arr[j], x);
            assert(b[j] == arr[j]);
        }
        if self_equal(fmt, c) && !holds(fmt, arr, c) {
            assert(b[arr.len() as int] == c);
        }
        lemma_insert_all(fmt, b, items.skip(1));
        assert forall|i: int| 0 <= i < items.len() implies #[trigger] can_hold(fmt, items[i]) by {
            if i > 0 {
                assert(items.skip(1)[i - 1] == items[i]);
            }
        }
        assert forall|i: int|
            0 <= i < items.len() && self_equal(fmt, convert(fmt, items[i])) implies holds(
                fmt,
                array_insert_all(fmt, arr, items)->Some_0,
                convert(fmt, #[trigger] items[i]),
            ) by {
            if i > 0 {
                assert(items.skip(1)[i - 1] == items[i]);
            }
        }
    }
}

pub proof fn lemma_insert_all_held(fmt: Format, arr: Seq<NodeV>, items: Seq<NodeV>)
    requires
        forall|i: int| 0 <= i < items.len() ==> #[trigger] can_hold(fmt, items[i]),
        forall|i: int| 0 <= i < items.len() ==> holds(fmt, arr, convert(fmt, #[trigger] items[i])),
    ensures
        array_insert_all(fmt, arr, items) == Some(arr),
    decreases items.len(),
{
    if items.len() > 0 {
        assert(can_hold(fmt, items[0]));
        assert(holds(fmt, arr, convert(fmt, items[0])));
        assert forall|i: int| 0 <= i < items.skip(1).len() implies holds(
            fmt,
            arr,
            convert(fmt, #[trigger] items.skip(1)[i]),
        ) by {
            assert(items.skip(1)[i] == items[i + 1]);
        }
        assert forall|i: int| 0 <= i < items.skip(1).len() implies #[trigger] can_hold(fmt, items.skip(1)[i]) by {
            assert(items.skip(1)[i] == items[i + 1]);
        }
        lemma_insert_all_held(fmt, arr, items.skip(1));
    }
}


/// What a second `entry_present` check needs to find nothing to add: every
/// item of an array equals itself once written in the format (a NaN does not),
/// at every level of the tables that are not inline.
pub open spec fn add_ready(fmt: Format, v: NodeV) -> bool
    decreases v,
{
    match v {
        NodeV::Array(items) => forall|i: int|
            0 <= i < items.len() ==> self_equal(fmt, convert(fmt, #[trigger] items[i])),
        NodeV::Table(t, tinline) => tinline || entries_add_ready(fmt, t),
        _ => true,
    }
}

pub open spec fn entries_add_ready(fmt: Format, es: Entries) -> bool
    decreases es,
{
    if es.len() == 0 {
        true
    } else {
        add_ready(fmt, es[0].1) && entries_add_ready(fmt, es.skip(1))
    }
}

/// The readiness of the entries is that of each of their values.
pub proof fn lemma_entries_ready_at(fmt: Format, es: Entries, i: int)
    requires
        entries_add_ready(fmt, es),
        0 <= i < es.len(),
    ensures
        add_ready(fmt, es[i].1),
    decreases i,
{
    if i > 0 {
        lemma_entries_ready_at(fmt, es.skip(1), i - 1);
        assert(es.skip(1)[i - 1] == es[i]);
    }
}

/// Adding one entry writes only its key.
proof fn lemma_add_one_shape(fmt: Format, e: Entries, inline: bool, k: Seq<char>, v: NodeV)
    ensures
        add_one(fmt, e, inline, k, v) matches Some(e2) ==> exists|x: NodeV|
            e2 == set_value(e, k, x),
{
    match add_one(fmt, e, inline, k, v) {
        Some(e2) => {
            match v {
                NodeV::Array(items) => {
                    let arr = array_child(e, k)->Some_0;
                    let a = array_insert_all(fmt, arr, items)->Some_0;
                    assert(e2 == set_value(e, k, NodeV::Array(a)));
                },
                _ => {
                    let (c, ci) = mapping_child(fmt, e, inline, k)->Some_0;
                    let c2 = match v {
                        NodeV::Table(t, tinline) => if tinline {
                            c
                        } else {
                            add_entries_spec(fmt, c, ci, t)->Some_0
                        },
                        _ => c,
                    };
                    assert(e2 == set_value(e, k, NodeV::Table(c2, ci)));
                },
            }
        },
        None => {},
    }
}

/// Two documents that hold the same value at a key get the same value written
/// there by one added entry.
proof fn lemma_add_one_same_key(
    fmt: Format,
    e: Entries,
    f: Entries,
    inline: bool,
    k: Seq<char>,
    v: NodeV,
)
    requires
        get_value(e, k) == get_value(f, k),
    ensures
        add_one(fmt, e, inline, k, v) is Some <==> add_one(fmt, f, inline, k, v) is Some,
        add_one(fmt, e, inline, k, v) is Some ==> exists|x: NodeV|
            add_one(fmt, e, inline, k, v) == Some(set_value(e, k, x)) && add_one(
                fmt,
                f,
                inline,
                k,
                v,
            ) == Some(set_value(f, k, x)),
{
    assert(mapping_child(fmt, e, inline, k) == mapping_child(fmt, f, inline, k));
    assert(array_child(e, k) == array_child(f, k));
    if add_one(fmt, e, inline, k, v) is Some {
        match v {
            NodeV::Array(items) => {
                let arr = array_child(e, k)->Some_0;
                let a = array_insert_all(fmt, arr, items)->Some_0;
                assert(add_one(fmt, e, inline, k, v) == Some(set_value(e, k, NodeV::Array(a))));
            },
            _ => {
                let (c, ci) = mapping_child(fmt, e, inline, k)->Some_0;
                let c2 = match v {
                    NodeV::Table(t, tinline) => if tinline {
                        c
                    } else {
                        add_entries_spec(fmt, c, ci, t)->Some_0
                    },
                    _ => c,
                };
                assert(add_one(fmt, e, inline, k, v) == Some(set_value(e, k, NodeV::Table(c2, ci))));
            },
        }
    }
}

/// An added entry that changes a document no more still changes it no more
/// after another key was added.
proof fn lemma_add_noop_kept(
    fmt: Format,
    e: Entries,
    inline: bool,
    k: Seq<char>,
    v: NodeV,
    k2: Seq<char>,
    v2: NodeV,
)
    requires
        add_one(fmt, e, inline, k, v) == Some(e),
        k2 != k,
        add_one(fmt, e, inline, k2, v2) is Some,
    ensures
        ({
            let e2 = add_one(fmt, e, inline, k2, v2)->Some_0;
            add_one(fmt, e2, inline, k, v) == Some(e2)
        }),
{
    let e2 = add_one(fmt, e, inline, k2, v2)->Some_0;
    lemma_add_one_shape(fmt, e, inline, k2, v2);
    let y = choose|y: NodeV| e2 == set_value(e, k2, y);
    lemma_get_other_after_set(e, k2, y, k);
    lemma_add_one_same_key(fmt, e, e2, inline, k, v);
    let x = choose|x: NodeV|
        add_one(fmt, e, inline, k, v) == Some(set_value(e, k, x)) && add_one(fmt, e2, inline, k, v)
            == Some(set_value(e2, k, x));
    lemma_get_after_set(e, k, x);
    lemma_set_same(e2, k, x);
}

proof fn lemma_add_noop_through(
    fmt: Format,
    e: Entries,
    inline: bool,
    k: Seq<char>,
    v: NodeV,
    rest: Entries,
)
    requires
        add_one(fmt, e, inline, k, v) == Some(e),
        get_value(rest, k) is None,
        add_entries_spec(fmt, e, inline, rest) is Some,
    ensures
        ({
            let d = add_entries_spec(fmt, e, inline, rest)->Some_0;
            add_one(fmt, d, inline, k, v) == Some(d)
        }),
    decreases rest.len(),
{
    if rest.len() > 0 {
        lemma_absent_key(rest, k);
        let e2 = add_one(fmt, e, inline, rest[0].0, rest[0].1)->Some_0;
        lemma_add_noop_kept(fmt, e, inline, k, v, rest[0].0, rest[0].1);
        lemma_add_noop_through(fmt, e2, inline, k, v, rest.skip(1));
    }
}

proof fn lemma_add_noops_apply(fmt: Format, e: Entries, inline: bool, add: Entries)
    requires
        forall|i: int| 0 <= i < add.len() ==> add_one(fmt, e, inline, #[trigger] add[i].0, add[i].1) == Some(e),
    ensures
        add_entries_spec(fmt, e, inline, add) == Some(e),
    decreases add.len(),
{
    if add.len() > 0 {
        assert(add_one(fmt, e, inline, add[0].0, add[0].1) == Some(e));
        assert forall|i: int| 0 <= i < add.skip(1).len() implies add_one(
            fmt,
            e,
            inline,
            #[trigger] add.skip(1)[i].0,
            add.skip(1)[i].1,
        ) == Some(e) by {
            assert(add.skip(1)[i] == add[i + 1]);
        }
        lemma_add_noops_apply(fmt, e, inline, add.skip(1));
    }
}

/// Adding one entry a second time changes nothing.
pub proof fn lemma_add_one_twice(fmt: Format, e: Entries, inline: bool, k: Seq<char>, v: NodeV)
    requires
        add_one(fmt, e, inline, k, v) is Some,
        nested_keys_distinct(v),
        add_ready(fmt, v),
    ensures
        ({
            let e1 = add_one(fmt, e, inline, k, v)->Some_0;
            add_one(fmt, e1, inline, k, v) == Some(e1)
        }),
    decreases v,
{
    let e1 = add_one(fmt, e, inline, k, v)->Some_0;
    match v {
        NodeV::Array(items) => {
            let arr = array_child(e, k)->Some_0;
            lemma_insert_all(fmt, arr, items);
            let a = array_insert_all(fmt, arr, items)->Some_0;
            lemma_get_after_set(e, k, NodeV::Array(a));
            assert(array_child(e1, k) == Some(a));
            lemma_insert_all_held(fmt, a, items);
            lemma_set_same(e1, k, NodeV::Array(a));
        },
        _ => {
            let (c, ci) = mapping_child(fmt, e, inline, k)->Some_0;
            let c2 = match v {
                NodeV::Table(t, tinline) => if tinline {
                    c
                } else {
                    add_entries_spec(fmt, c, ci, t)->Some_0
                },
                _ => c,
            };
            lemma_get_after_set(e, k, NodeV::Table(c2, ci));
            assert(mapping_child(fmt, e1, inline, k) == Some((c2, ci)));
            match v {
                NodeV::Table(t, tinline) => if !tinline {
                    lemma_add_entries_stable(fmt, c, ci, t);
                },
                _ => {},
            }
            lemma_set_same(e1, k, NodeV::Table(c2, ci));
        },
    }
}

/// After the entries of a check with distinct keys are added, adding any one
/// of them, or all of them, changes nothing.
pub proof fn lemma_add_entries_stable(fmt: Format, doc: Entries, inline: bool, add: Entries)
    requires
        add_entries_spec(fmt, doc, inline, add) is Some,
        keys_distinct(add),
        entries_add_ready(fmt, add),
    ensures
        ({
            let d = add_entries_spec(fmt, doc, inline, add)->Some_0;
            &&& forall|i: int|
                0 <= i < add.len() ==> add_one(fmt, d, inline, #[trigger] add[i].0, add[i].1)
                    == Some(d)
            &&& add_entries_spec(fmt, d, inline, add) == Some(d)
        }),
    decreases add,
{
    let d = add_entries_spec(fmt, doc, inline, add)->Some_0;
    if add.len() > 0 {
        let k = add[0].0;
        let v = add[0].1;
        let rest = add.skip(1);
        let e1 = add_one(fmt, doc, inline, k, v)->Some_0;
        lemma_add_entries_stable(fmt, e1, inline, rest);
        lemma_add_one_twice(fmt, doc, inline, k, v);
        lemma_add_noop_through(fmt, e1, inline, k, v, rest);
        assert forall|i: int| 0 <= i < add.len() implies add_one(
            fmt,
            d,
            inline,
            #[trigger] add[i].0,
            add[i].1,
        ) == Some(d) by {
            if i > 0 {
                assert(add[i] == rest[i - 1]);
            }
        }
    }
    lemma_add_noops_apply(fmt, d, inline, add);
}


/// No two entries of the table share a key.
pub open spec fn unique_keys(es: Entries) -> bool {
    forall|i: int, j: int| 0 <= i < j < es.len() ==> es[i].0 != es[j].0
}

/// `keys_distinct` says that no two entries share a key and that the value
/// of each entry has distinct keys in turn.
pub proof fn lemma_keys_distinct_unfold(es: Entries)
    ensures
        keys_distinct(es) <==> (unique_keys(es) && forall|i: int|
            0 <= i < es.len() ==> nested_keys_distinct(#[trigger] es[i].1)),
    decreases es.len(),
{
    if es.len() > 0 {
        let r = es.skip(1);
        let k = es[0].0;
        lemma_keys_distinct_unfold(r);
        lemma_key_pos(r, k);
        assert forall|i: int| 0 <= i < r.len() implies r[i] == es[i + 1] by {}
        if unique_keys(es) {
            assert forall|j: int| 0 <= j < r.len() implies r[j].0 != k by {
                assert(es[0].0 != es[j + 1].0);
            }
            lemma_key_pos_none(r, k);
            assert forall|a: int, b: int| 0 <= a < b < r.len() implies r[a].0 != r[b].0 by {
                assert(es[a + 1].0 != es[b + 1].0);
            }
        }
        if keys_distinct(es) {
            assert forall|a: int, b: int| 0 <= a < b < es.len() implies es[a].0 != es[b].0 by {
                if a > 0 {
                    assert(r[a - 1].0 != r[b - 1].0);
                } else {
                    assert(r[b - 1].0 != k);
                }
            }
            assert forall|i: int| 0 <= i < es.len() implies nested_keys_distinct(#[trigger] es[i].1) by {
                if i > 0 {
                    assert(nested_keys_distinct(r[i - 1].1));
                }
            }
        }
        if unique_keys(es) && forall|i: int| 0 <= i < es.len() ==> nested_keys_distinct(#[trigger] es[i].1) {
            assert forall|i: int| 0 <= i < r.len() implies nested_keys_distinct(#[trigger] r[i].1) by {
                assert(nested_keys_distinct(es[i + 1].1));
            }
            assert(nested_keys_distinct(es[0].1));
        }
    }
}

/// Two tables with unique keys whose entries of the key `k2` are the same read
/// the same value at `k2`.
proof fn lemma_lookup_same(es: Entries, r: Entries, k2: Seq<char>)
    requires
        unique_keys(es),
        unique_keys(r),
        forall|j: int|
            0 <= j < r.len() ==> exists|m: int| 0 <= m < es.len() && #[trigger] r[j] == #[trigger] es[m],
        forall|m: int|
            0 <= m < es.len() && es[m].0 == k2 ==> exists|j: int|
                0 <= j < r.len() && #[trigger] r[j] == #[trigger] es[m],
    ensures
        get_value(r, k2) == get_value(es, k2),
{
    lemma_key_pos(es, k2);
    lemma_key_pos(r, k2);
    match key_pos(es, k2) {
        Some(m) => {
            let j = choose|j: int| 0 <= j < r.len() && #[trigger] r[j] == #[trigger] es[m];
            lemma_key_pos_at(r, k2, j);
        },
        None => {
            assert forall|j: int| 0 <= j < r.len() implies r[j].0 != k2 by {
                let m = choose|m: int| 0 <= m < es.len() && #[trigger] r[j] == #[trigger] es[m];
            }
            lemma_key_pos_none(r, k2);
        },
    }
}

/// Removing a key from a table whose keys are unique: the key is gone, the
/// other keys read as before, and the entries left are entries of the table.
pub proof fn lemma_remove_key(fmt: Format, es: Entries, k: Seq<char>)
    requires
        unique_keys(es),
    ensures
        ({
            let r = remove_key(fmt, es, k);
            &&& unique_keys(r)
            &&& get_value(r, k) is None
            &&& forall|k2: Seq<char>| k2 != k ==> get_value(r, k2) == get_value(es, k2)
            &&& forall|j: int|
                0 <= j < r.len() ==> exists|m: int| 0 <= m < es.len() && #[trigger] r[j] == #[trigger] es[m]
        }),
{
    lemma_key_pos(es, k);
    let r = remove_key(fmt, es, k);
    match key_pos(es, k) {
        None => {
            assert forall|j: int| 0 <= j < r.len() implies exists|m: int|
                0 <= m < es.len() && #[trigger] r[j] == #[trigger] es[m] by {
                assert(r[j] == es[j]);
            }
        },
        Some(i) => {
            let n = es.len() as int;
            // where each entry of the result comes from
            let from = |j: int|
                if fmt == Format::Yaml {
                    if j == i && i < n - 1 {
                        n - 1
                    } else {
                        j
                    }
                } else {
                    if j < i {
                        j
                    } else {
                        j + 1
                    }
                };
            assert(r.len() == n - 1);
            assert forall|j: int| 0 <= j < r.len() implies #[trigger] r[j] == es[from(j)] && 0
                <= from(j) < n && from(j) != i by {}
            assert forall|m: int| 0 <= m < n && m != i implies exists|j: int|
                0 <= j < r.len() && #[trigger] r[j] == #[trigger] es[m] by {
                let j = if fmt == Format::Yaml {
                    if m == n - 1 {
                        i
                    } else {
                        m
                    }
                } else {
                    if m < i {
                        m
                    } else {
                        m - 1
                    }
                };
                assert(r[j] == es[m]);
            }
            assert forall|a: int, b: int| 0 <= a < b < r.len() implies r[a].0 != r[b].0 by {
                assert(r[a] == es[from(a)]);
                assert(r[b] == es[from(b)]);
                if from(a) < from(b) {
                } else {
                }
            }
            assert forall|j: int| 0 <= j < r.len() implies r[j].0 != k by {
                assert(r[j] == es[from(j)]);
                if from(j) < i {
                } else {
                }
            }
            lemma_key_pos_none(r, k);
            assert forall|j: int| 0 <= j < r.len() implies exists|m: int|
                0 <= m < es.len() && #[trigger] r[j] == #[trigger] es[m] by {
                assert(r[j] == es[from(j)]);
            }
            assert forall|k2: Seq<char>| k2 != k implies get_value(r, k2) == get_value(es, k2) by {
                assert forall|m: int| 0 <= m < es.len() && es[m].0 == k2 implies exists|j: int|
                    0 <= j < r.len() && #[trigger] r[j] == #[trigger] es[m] by {
                    assert(m != i);
                }
                lemma_lookup_same(es, r, k2);
            }
        },
    }
}


/// A table with distinct keys keeps them distinct when a key that it has is
/// set to a value with distinct keys.
proof fn lemma_set_existing(es: Entries, k: Seq<char>, x: NodeV)
    requires
        keys_distinct(es),
        get_value(es, k) is Some,
        nested_keys_distinct(x),
    ensures
        keys_distinct(set_value(es, k, x)),
{
    lemma_keys_distinct_unfold(es);
    lemma_key_pos(es, k);
    let i = key_pos(es, k)->Some_0;
    let r = set_value(es, k, x);
    assert(r == es.update(i, (k, x)));
    assert forall|a: int, b: int| 0 <= a < b < r.len() implies r[a].0 != r[b].0 by {
        assert(r[a].0 == es[a].0);
        assert(r[b].0 == es[b].0);
    }
    assert forall|j: int| 0 <= j < r.len() implies nested_keys_distinct(#[trigger] r[j].1) by {
        if j != i {
            assert(r[j] == es[j]);
        }
    }
    lemma_keys_distinct_unfold(r);
}

/// The table that a key of a table with distinct keys holds has distinct keys.
proof fn lemma_child_distinct(es: Entries, k: Seq<char>)
    requires
        keys_distinct(es),
    ensures
        get_value(es, k) matches Some(NodeV::Table(c, _)) ==> keys_distinct(c),
{
    lemma_keys_distinct_unfold(es);
    lemma_key_pos(es, k);
    match key_pos(es, k) {
        Some(i) => {
            assert(nested_keys_distinct(es[i].1));
        },
        None => {},
    }
}

/// Removing the keys of one entry of a `key_absent` check keeps the keys of a
/// table distinct and leaves the other keys as they were.
proof fn lemma_unset_one_keeps(fmt: Format, e: Entries, inline: bool, k: Seq<char>, v: NodeV)
    requires
        keys_distinct(e),
    ensures
        keys_distinct(unset_one(fmt, e, inline, k, v)),
        forall|k2: Seq<char>|
            k2 != k ==> get_value(unset_one(fmt, e, inline, k, v), k2) == get_value(e, k2),
    decreases v,
{
    lemma_keys_distinct_unfold(e);
    match v {
        NodeV::Table(t, _) => if t.len() == 0 {
            lemma_remove_key(fmt, e, k);
            let r = remove_key(fmt, e, k);
            assert forall|j: int| 0 <= j < r.len() implies nested_keys_distinct(#[trigger] r[j].1) by {
                let m = choose|m: int| 0 <= m < e.len() && #[trigger] r[j] == #[trigger] e[m];
                assert(nested_keys_distinct(e[m].1));
            }
            lemma_keys_distinct_unfold(r);
        } else if get_value(e, k) is None {
        } else {
            match mapping_child(fmt, e, inline, k) {
                None => {},
                Some((c, ci)) => {
                    lemma_child_distinct(e, k);
                    lemma_unset_keys_keeps(fmt, c, ci, t);
                    let x = NodeV::Table(unset_keys_spec(fmt, c, ci, t), ci);
                    lemma_set_existing(e, k, x);
                    assert forall|k2: Seq<char>| k2 != k implies get_value(set_value(e, k, x), k2)
                        == get_value(e, k2) by {
                        lemma_get_other_after_set(e, k, x, k2);
                    }
                },
            }
        },
        _ => {},
    }
}

/// Removing the keys of a `key_absent` check keeps the keys of a table
/// distinct.
proof fn lemma_unset_keys_keeps(fmt: Format, e: Entries, inline: bool, keys: Entries)
    requires
        keys_distinct(e),
    ensures
        keys_distinct(unset_keys_spec(fmt, e, inline, keys)),
    decreases keys,
{
    if keys.len() > 0 {
        lemma_unset_one_keeps(fmt, e, inline, keys[0].0, keys[0].1);
        lemma_unset_keys_keeps(fmt, unset_one(fmt, e, inline, keys[0].0, keys[0].1), inline, keys.skip(1));
    }
}

/// An entry of a `key_absent` check that changes a table no more still
/// changes it no more after another key was handled.
proof fn lemma_unset_noop_kept(
    fmt: Format,
    e: Entries,
    inline: bool,
    k: Seq<char>,
    v: NodeV,
    k2: Seq<char>,
    v2: NodeV,
)
    requires
        keys_distinct(e),
        unset_one(fmt, e, inline, k, v) == e,
        k2 != k,
    ensures
        ({
            let e2 = unset_one(fmt, e, inline, k2, v2);
            unset_one(fmt, e2, inline, k, v) == e2
        }),
{
    let e2 = unset_one(fmt, e, inline, k2, v2);
    lemma_unset_one_keeps(fmt, e, inline, k2, v2);
    assert(get_value(e2, k) == get_value(e, k));
    assert(mapping_child(fmt, e2, inline, k) == mapping_child(fmt, e, inline, k));
    match v {
        NodeV::Table(t, _) => if t.len() == 0 {
            if key_pos(e, k) is Some {
                let i = key_pos(e, k)->Some_0;
                lemma_key_pos(e, k);
                assert(remove_key(fmt, e, k).len() == e.len() - 1);
            }
        } else if get_value(e, k) is None {
        } else {
            match mapping_child(fmt, e, inline, k) {
                None => {},
                Some((c, ci)) => {
                    let x = NodeV::Table(unset_keys_spec(fmt, c, ci, t), ci);
                    lemma_get_after_set(e, k, x);
                    lemma_set_same(e2, k, x);
                },
            }
        },
        _ => {},
    }
}

proof fn lemma_unset_noop_through(
    fmt: Format,
    e: Entries,
    inline: bool,
    k: Seq<char>,
    v: NodeV,
    rest: Entries,
)
    requires
        keys_distinct(e),
        unset_one(fmt, e, inline, k, v) == e,
        get_value(rest, k) is None,
    ensures
        ({
            let d = unset_keys_spec(fmt, e, inline, rest);
            unset_one(fmt, d, inline, k, v) == d
        }),
    decreases rest.len(),
{
    if rest.len() > 0 {
        lemma_absent_key(rest, k);
        let e2 = unset_one(fmt, e, inline, rest[0].0, rest[0].1);
        lemma_unset_noop_kept(fmt, e, inline, k, v, rest[0].0, rest[0].1);
        lemma_unset_one_keeps(fmt, e, inline, rest[0].0, rest[0].1);
        lemma_unset_noop_through(fmt, e2, inline, k, v, rest.skip(1));
    }
}

proof fn lemma_unset_noops_apply(fmt: Format, e: Entries, inline: bool, keys: Entries)
    requires
        forall|i: int|
            0 <= i < keys.len() ==> unset_one(fmt, e, inline, #[trigger] keys[i].0, keys[i].1) == e,
    ensures
        unset_keys_spec(fmt, e, inline, keys) == e,
    decreases keys.len(),
{
    if keys.len() > 0 {
        assert(unset_one(fmt, e, inline, keys[0].0, keys[0].1) == e);
        assert forall|i: int| 0 <= i < keys.skip(1).len() implies unset_one(
            fmt,
            e,
            inline,
            #[trigger] keys.skip(1)[i].0,
            keys.skip(1)[i].1,
        ) == e by {
            assert(keys.skip(1)[i] == keys[i + 1]);
        }
        lemma_unset_noops_apply(fmt, e, inline, keys.skip(1));
    }
}

/// Handling one entry of a `key_absent` check a second time changes nothing.
pub proof fn lemma_unset_one_twice(fmt: Format, e: Entries, inline: bool, k: Seq<char>, v: NodeV)
    requires
        keys_distinct(e),
        nested_keys_distinct(v),
    ensures
        ({
            let e1 = unset_one(fmt, e, inline, k, v);
            unset_one(fmt, e1, inline, k, v) == e1
        }),
    decreases v,
{
    let e1 = unset_one(fmt, e, inline, k, v);
    match v {
        NodeV::Table(t, _) => if t.len() == 0 {
            lemma_keys_distinct_unfold(e);
            lemma_remove_key(fmt, e, k);
        } else if get_value(e, k) is None {
        } else {
            match mapping_child(fmt, e, inline, k) {
                None => {},
                Some((c, ci)) => {
                    let c1 = unset_keys_spec(fmt, c, ci, t);
                    lemma_get_after_set(e, k, NodeV::Table(c1, ci));
                    assert(mapping_child(fmt, e1, inline, k) == Some((c1, ci)));
                    lemma_child_distinct(e, k);
                    lemma_unset_keys_stable(fmt, c, ci, t);
                    lemma_set_same(e1, k, NodeV::Table(c1, ci));
                },
            }
        },
        _ => {},
    }
}

/// After the keys of a `key_absent` check with distinct keys are removed from
/// a table with distinct keys, removing any of them again, or all of them,
/// changes nothing.
pub proof fn lemma_unset_keys_stable(fmt: Format, doc: Entries, inline: bool, keys: Entries)
    requires
        keys_distinct(doc),
        keys_distinct(keys),
    ensures
        ({
            let d = unset_keys_spec(fmt, doc, inline, keys);
            &&& forall|i: int|
                0 <= i < keys.len() ==> unset_one(fmt, d, inline, #[trigger] keys[i].0, keys[i].1)
                    == d
            &&& unset_keys_spec(fmt, d, inline, keys) == d
        }),
    decreases keys,
{
    let d = unset_keys_spec(fmt, doc, inline, keys);
    if keys.len() > 0 {
        let k = keys[0].0;
        let v = keys[0].1;
        let rest = keys.skip(1);
        let e1 = unset_one(fmt, doc, inline, k, v);
        lemma_unset_one_keeps(fmt, doc, inline, k, v);
        lemma_unset_keys_stable(fmt, e1, inline, rest);
        lemma_unset_one_twice(fmt, doc, inline, k, v);
        lemma_unset_one_keeps(fmt, e1, inline, k, v);
        lemma_unset_noop_through(fmt, e1, inline, k, v, rest);
        assert forall|i: int| 0 <= i < keys.len() implies unset_one(
            fmt,
            d,
            inline,
            #[trigger] keys[i].0,
            keys[i].1,
        ) == d by {
            if i > 0 {
                assert(keys[i] == rest[i - 1]);
            }
        }
    }
    lemma_unset_noops_apply(fmt, d, inline, keys);
}


/// Nothing of the entries of an `entry_absent` check is left in the document
/// (see `removal_done`).
pub open spec fn nothing_to_remove(fmt: Format, d: Entries, inline: bool, rem: Entries) -> bool
    decreases rem,
{
    if rem.len() == 0 {
        true
    } else {
        removal_done(fmt, d, inline, rem[0].0, rem[0].1) && nothing_to_remove(
            fmt,
            d,
            inline,
            rem.skip(1),
        )
    }
}

/// Nothing of one entry is left: the key is missing; or it holds an array
/// without any of the items of an array to remove (each of which the format
/// can hold); or it holds a table, from which, for a table to remove that is
/// not inline, nothing of its entries is left.
pub open spec fn removal_done(fmt: Format, d: Entries, inline: bool, k: Seq<char>, v: NodeV) -> bool
    decreases v,
{
    if get_value(d, k) is None {
        true
    } else {
        match v {
            NodeV::Array(items) => match array_child(d, k) {
                Some(arr) => forall|i: int|
                    0 <= i < items.len() ==> can_hold(fmt, #[trigger] items[i]) && !holds(
                        fmt,
                        arr,
                        convert(fmt, items[i]),
                    ),
                None => false,
            },
            _ => match mapping_child(fmt, d, inline, k) {
                Some((c, ci)) => match v {
                    NodeV::Table(t, tinline) => tinline || nothing_to_remove(fmt, c, ci, t),
                    _ => true,
                },
                None => false,
            },
        }
    }
}

/// Removing items that an array does not hold leaves it as it is.
proof fn lemma_remove_absent_items(fmt: Format, arr: Seq<NodeV>, items: Seq<NodeV>)
    requires
        forall|i: int|
            0 <= i < items.len() ==> can_hold(fmt, #[trigger] items[i]) && !holds(
                fmt,
                arr,
                convert(fmt, items[i]),
            ),
    ensures
        array_remove_all(fmt, arr, items) == Some(arr),
    decreases items.len(),
{
    if items.len() > 0 {
        assert(can_hold(fmt, items[0]));
        lemma_first_equal(fmt, arr, convert(fmt, items[0]));
        assert(array_remove(fmt, arr, items[0]) == Some(arr));
        assert forall|i: int| 0 <= i < items.skip(1).len() implies can_hold(
            fmt,
            #[trigger] items.skip(1)[i],
        ) && !holds(fmt, arr, convert(fmt, items.skip(1)[i])) by {
            assert(items.skip(1)[i] == items[i + 1]);
        }
        lemma_remove_absent_items(fmt, arr, items.skip(1));
    }
}

/// An entry of which nothing is left changes nothing when it is removed.
pub proof fn lemma_remove_one_done(fmt: Format, d: Entries, inline: bool, k: Seq<char>, v: NodeV)
    requires
        removal_done(fmt, d, inline, k, v),
    ensures
        remove_one(fmt, d, inline, k, v) == Some(d),
    decreases v,
{
    if get_value(d, k) is Some {
        match v {
            NodeV::Array(items) => {
                let arr = array_child(d, k)->Some_0;
                lemma_remove_absent_items(fmt, arr, items);
                lemma_set_same(d, k, NodeV::Array(arr));
            },
            _ => {
                let (c, ci) = mapping_child(fmt, d, inline, k)->Some_0;
                match v {
                    NodeV::Table(t, tinline) => if !tinline {
                        lemma_remove_entries_done(fmt, c, ci, t);
                        lemma_set_same(d, k, NodeV::Table(c, ci));
                    },
                    _ => {},
                }
            },
        }
    }
}

/// Entries of which nothing is left change nothing when they are removed.
pub proof fn lemma_remove_entries_done(fmt: Format, d: Entries, inline: bool, rem: Entries)
    requires
        nothing_to_remove(fmt, d, inline, rem),
    ensures
        remove_entries_spec(fmt, d, inline, rem) == Some(d),
    decreases rem,
{
    if rem.len() > 0 {
        lemma_remove_one_done(fmt, d, inline, rem[0].0, rem[0].1);
        lemma_remove_entries_done(fmt, d, inline, rem.skip(1));
    }
}

/// The value at a key of a table, read from its first entry and the rest.
pub proof fn lemma_get_value_unfold(es: Entries, k: Seq<char>)
    requires
        es.len() > 0,
    ensures
        get_value(es, k) == if es[0].0 == k {
            Some(es[0].1)
        } else {
            get_value(es.skip(1), k)
        },
{
    if es[0].0 != k {
        lemma_key_pos(es.skip(1), k);
        match key_pos(es.skip(1), k) {
            Some(i) => {
                assert(es.skip(1)[i] == es[i + 1]);
            },
            None => {},
        }
    }
}

/// Setting the values of a check leaves every key that the check does not
/// name as it was.
pub proof fn lemma_set_values_keeps_unnamed(fmt: Format, doc: Entries, inline: bool, values: Entries)
    requires
        set_values_spec(fmt, doc, inline, values) is Some,
    ensures
        forall|j: Seq<char>|
            get_value(values, j) is None ==> get_value(
                set_values_spec(fmt, doc, inline, values)->Some_0,
                j,
            ) == get_value(doc, j),
    decreases values,
{
    if values.len() > 0 {
        let k = values[0].0;
        let v = values[0].1;
        let d1 = set_one(fmt, doc, inline, k, v)->Some_0;
        lemma_set_values_keeps_unnamed(fmt, d1, inline, values.skip(1));
        assert forall|j: Seq<char>| get_value(values, j) is None implies get_value(
            set_values_spec(fmt, doc, inline, values)->Some_0,
            j,
        ) == get_value(doc, j) by {
            lemma_get_value_unfold(values, j);
            assert(k != j);
            match v {
                NodeV::Table(t, _) => {
                    let (c, ci) = mapping_child(fmt, doc, inline, k)->Some_0;
                    let c2 = set_values_spec(fmt, c, ci, t)->Some_0;
                    lemma_get_other_after_set(doc, k, NodeV::Table(c2, ci), j);
                },
                _ => {
                    lemma_get_other_after_set(doc, k, convert(fmt, v), j);
                },
            }
        }
    }
}

/// Removing a key that a table does not hold leaves it absent: no entry of a
/// `key_absent` check brings a key back.
proof fn lemma_unset_keys_keeps_absent(fmt: Format, e: Entries, inline: bool, keys: Entries, j: Seq<char>)
    requires
        keys_distinct(e),
        get_value(e, j) is None,
    ensures
        get_value(unset_keys_spec(fmt, e, inline, keys), j) is None,
    decreases keys,
{
    if keys.len() > 0 {
        let k = keys[0].0;
        let v = keys[0].1;
        lemma_unset_one_keeps(fmt, e, inline, k, v);
        let e1 = unset_one(fmt, e, inline, k, v);
        if k == j {
            match v {
                NodeV::Table(t, _) => if t.len() == 0 {
                    lemma_keys_distinct_unfold(e);
                    lemma_remove_key(fmt, e, k);
                },
                _ => {},
            }
        }
        assert(get_value(e1, j) is None);
        lemma_unset_keys_keeps_absent(fmt, e1, inline, keys.skip(1), j);
    }
}

/// Removing the keys of a `key_absent` check from a table with distinct keys:
/// every key the check removes outright (an empty table) is gone, and every
/// key the check does not name reads as before.
pub proof fn lemma_unset_keys_effect(fmt: Format, e: Entries, inline: bool, keys: Entries)
    requires
        keys_distinct(e),
    ensures
        forall|j: Seq<char>|
            get_value(keys, j) is None ==> get_value(unset_keys_spec(fmt, e, inline, keys), j) == get_value(
                e,
                j,
            ),
        forall|j: Seq<char>|
            (get_value(keys, j) matches Some(NodeV::Table(x, _)) && x.len() == 0) ==> get_value(
                unset_keys_spec(fmt, e, inline, keys),
                j,
            ) is None,
    decreases keys,
{
    if keys.len() > 0 {
        let k = keys[0].0;
        let v = keys[0].1;
        lemma_unset_one_keeps(fmt, e, inline, k, v);
        let e1 = unset_one(fmt, e, inline, k, v);
        let rest = keys.skip(1);
        lemma_unset_keys_effect(fmt, e1, inline, rest);
        assert forall|j: Seq<char>| get_value(keys, j) is None implies get_value(
            unset_keys_spec(fmt, e, inline, keys),
            j,
        ) == get_value(e, j) by {
            lemma_get_value_unfold(keys, j);
        }
        assert forall|j: Seq<char>|
            (get_value(keys, j) matches Some(NodeV::Table(x, _)) && x.len() == 0) implies get_value(
            unset_keys_spec(fmt, e, inline, keys),
            j,
        ) is None by {
            lemma_get_value_unfold(keys, j);
            if k == j {
                lemma_keys_distinct_unfold(e);
                lemma_remove_key(fmt, e, k);
                lemma_unset_keys_keeps_absent(fmt, e1, inline, rest, j);
            }
        }
    }
}

} // verus!
