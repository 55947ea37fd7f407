//! The edits that the entry and key checks make to a document: entries added
//! to or removed from arrays, keys removed, values set. A document is a table:
//! its entries and whether it is written inline.
use vstd::prelude::*;

use crate::base::CheckError;
use crate::external::{regex_check, regex_compile_error, regex_finds, regex_is_match};
use crate::text::concat;
use crate::node::{
    clone_entries, clone_nodes, convert, convert_node, convertible, entries_view,
    get_value, key_index, lemma_entries_view_push, lemma_entries_view_update,
    lemma_key_pos, lemma_nodes_view_push, node_eq, node_equal, nodes_view, set_value, Format,
    Node, NodeV,
};

verus! {

/// The entries of a table, as key texts and values.
pub type Entries = Seq<(Seq<char>, NodeV)>;

/// A value that TOML can hold in an array or an inline table: anything but a
/// table that is not inline and an array of tables.
pub open spec fn is_value(v: NodeV) -> bool {
    !(v is TableArray) && !(v matches NodeV::Table(_, inline) && !inline)
}

/// The table that the key of a table leads to, creating an empty one when the
/// key is missing (inline when the format is TOML and the parent is inline);
/// `None` when the key holds something else. A TOML inline table holds only
/// inline tables.
pub open spec fn mapping_child(fmt: Format, es: Entries, inline: bool, k: Seq<char>) -> Option<
    (Entries, bool),
> {
    match get_value(es, k) {
        None => Some((Seq::empty(), fmt == Format::Toml && inline)),
        Some(NodeV::Table(c, ci)) => if fmt == Format::Toml && inline && !ci {
            None
        } else {
            Some((c, ci))
        },
        Some(_) => None,
    }
}

/// The array that the key of a table leads to, an empty one when the key is
/// missing; `None` when the key holds something else.
pub open spec fn array_child(es: Entries, k: Seq<char>) -> Option<Seq<NodeV>> {
    match get_value(es, k) {
        None => Some(Seq::empty()),
        Some(NodeV::Array(a)) => Some(a),
        Some(_) => None,
    }
}

/// The array holds an item equal to `v` in the format.
pub open spec fn holds(fmt: Format, arr: Seq<NodeV>, v: NodeV) -> bool {
    exists|j: int| 0 <= j < arr.len() && node_eq(fmt, #[trigger] arr[j], v)
}

/// `v` as the array of a document of the format holds it, when it can.
pub open spec fn can_hold(fmt: Format, v: NodeV) -> bool {
    if fmt == Format::Toml {
        is_value(v)
    } else {
        convertible(fmt, v)
    }
}

/// The array with `v` added at the end unless an equal item is in it.
pub open spec fn array_insert(fmt: Format, arr: Seq<NodeV>, v: NodeV) -> Option<Seq<NodeV>> {
    if !can_hold(fmt, v) {
        None
    } else if holds(fmt, arr, convert(fmt, v)) {
        Some(arr)
    } else {
        Some(arr.push(convert(fmt, v)))
    }
}

/// The array with the items added one after the other (see `array_insert`).
pub open spec fn array_insert_all(fmt: Format, arr: Seq<NodeV>, items: Seq<NodeV>) -> Option<
    Seq<NodeV>,
>
    decreases items.len(),
{
    if items.len() == 0 {
        Some(arr)
    } else {
        match array_insert(fmt, arr, items[0]) {
            None => None,
            Some(a) => array_insert_all(fmt, a, items.skip(1)),
        }
    }
}

/// The document with the entries of a check added: an array adds each of its
/// items that is missing to the array at the key; a (not inline) table adds
/// its entries to the table at the key; another value only makes sure that
/// the key holds a table. `None` when a key holds something else than what is
/// added to it.
pub open spec fn add_entries_spec(fmt: Format, doc: Entries, inline: bool, add: Entries) -> Option<
    Entries,
>
    decreases add,
{
    if add.len() == 0 {
        Some(doc)
    } else {
        match add_one(fmt, doc, inline, add[0].0, add[0].1) {
            None => None,
            Some(d) => add_entries_spec(fmt, d, inline, add.skip(1)),
        }
    }
}

/// One entry of `add_entries_spec`.
pub open spec fn add_one(fmt: Format, doc: Entries, inline: bool, k: Seq<char>, v: NodeV) -> Option<
    Entries,
>
    decreases v,
{
    match v {
        NodeV::Array(items) => match array_child(doc, k) {
            None => None,
            Some(arr) => match array_insert_all(fmt, arr, items) {
                None => None,
                Some(a) => Some(set_value(doc, k, NodeV::Array(a))),
            },
        },
        _ => match mapping_child(fmt, doc, inline, k) {
            None => None,
            Some((c, ci)) => {
                let nested = match v {
                    NodeV::Table(t, tinline) => if tinline {
                        Some(c)
                    } else {
                        add_entries_spec(fmt, c, ci, t)
                    },
                    _ => Some(c),
                };
                match nested {
                    None => None,
                    Some(c2) => Some(set_value(doc, k, NodeV::Table(c2, ci))),
                }
            },
        },
    }
}

/// Sets the key of the table to `v` (see `set_value`).
pub fn set_entry(es: &mut Vec<(String, Node)>, k: &str, v: Node)
    ensures
        entries_view(final(es)@) == set_value(entries_view(old(es)@), k@, v@),
{
    proof {
        lemma_key_pos(entries_view(es@), k@);
    }
    match key_index(es, k) {
        Some(i) => {
            let key = String::from_str(k);
            proof {
                lemma_entries_view_update(es@, i as int, (key, v));
            }
            es.set(i, (key, v));
        },
        None => {
            let key = String::from_str(k);
            proof {
                lemma_entries_view_push(es@, (key, v));
            }
            es.push((key, v));
        },
    }
}


fn array_child_exec(es: &Vec<(String, Node)>, k: &str) -> (r: Option<Vec<Node>>)
    ensures
        match array_child(entries_view(es@), k@) {
            None => r is None,
            Some(a) => r matches Some(x) && nodes_view(x@) == a,
        },
{
    match key_index(es, k) {
        None => Some(Vec::new()),
        Some(i) => match &es[i].1 {
            Node::Array(a) => Some(clone_nodes(a)),
            _ => None,
        },
    }
}

fn mapping_child_exec(fmt: Format, es: &Vec<(String, Node)>, inline: bool, k: &str) -> (r: Option<
    (Vec<(String, Node)>, bool),
>)
    ensures
        match mapping_child(fmt, entries_view(es@), inline, k@) {
            None => r is None,
            Some((c, ci)) => r matches Some((x, xi)) && entries_view(x@) == c && xi == ci,
        },
{
    match key_index(es, k) {
        None => Some((Vec::new(), fmt == Format::Toml && inline)),
        Some(i) => match &es[i].1 {
            Node::Table(c, ci) => {
                if fmt == Format::Toml && inline && !*ci {
                    None
                } else {
                    Some((clone_entries(c), *ci))
                }
            },
            _ => None,
        },
    }
}

/// Whether the value can be written into a document of the format (see
/// `convertible`).
pub fn convertible_exec(fmt: Format, v: &Node) -> (r: bool)
    ensures
        r == convertible(fmt, v@),
    decreases v,
{
    if !(fmt == Format::Json) {
        return true;
    }
    match v {
        Node::Float(b) => {
            let r = (*b & 0x7ff0_0000_0000_0000) != 0x7ff0_0000_0000_0000;
            assert(r == convertible(fmt, v@));
            r
        },
        Node::Array(items) => {
            let r = all_convertible(fmt, items);
            let ghost nv = nodes_view(items@);
            assert(v@ matches NodeV::Array(x) && x == nv);
            assert(convertible(fmt, v@) == forall|i: int| 0 <= i < nv.len() ==> convertible(fmt, #[trigger] nv[i]));
            r
        },
        Node::TableArray(items) => {
            let r = all_convertible(fmt, items);
            let ghost nv = nodes_view(items@);
            assert(v@ matches NodeV::TableArray(x) && x == nv);
            assert(convertible(fmt, v@) == forall|i: int| 0 <= i < nv.len() ==> convertible(fmt, #[trigger] nv[i]));
            r
        },
        Node::Table(es, _) => {
            let r = all_entries_convertible(fmt, es);
            let ghost ev = entries_view(es@);
            assert(v@ matches NodeV::Table(x, _) && x == ev);
            assert(convertible(fmt, v@) == forall|i: int| 0 <= i < ev.len() ==> convertible(fmt, #[trigger] ev[i].1));
            assert(r == convertible(fmt, v@));
            r
        },
        _ => true,
    }
}

fn all_entries_convertible(fmt: Format, es: &Vec<(String, Node)>) -> (r: bool)
    ensures
        r == forall|j: int| 0 <= j < es.len() ==> convertible(fmt, #[trigger] entries_view(es@)[j].1),
    decreases es,
{
    let mut i: usize = 0;
    while i < es.len()
        invariant
            i <= es.len(),
            forall|j: int| 0 <= j < i ==> convertible(fmt, #[trigger] entries_view(es@)[j].1),
        decreases es.len() - i,
    {
        if !convertible_exec(fmt, &es[i].1) {
            assert(!convertible(fmt, entries_view(es@)[i as int].1));
            return false;
        }
        i += 1;
    }
    true
}

fn all_convertible(fmt: Format, items: &Vec<Node>) -> (r: bool)
    ensures
        r == forall|j: int| 0 <= j < items.len() ==> convertible(fmt, #[trigger] nodes_view(items@)[j]),
    decreases items,
{
    let mut i: usize = 0;
    while i < items.len()
        invariant
            i <= items.len(),
            forall|j: int| 0 <= j < i ==> convertible(fmt, #[trigger] nodes_view(items@)[j]),
        decreases items.len() - i,
    {
        if !convertible_exec(fmt, &items[i]) {
            assert(!convertible(fmt, nodes_view(items@)[i as int]));
            return false;
        }
        i += 1;
    }
    true
}

fn can_hold_exec(fmt: Format, v: &Node) -> (r: bool)
    ensures
        r == can_hold(fmt, v@),
{
    if fmt == Format::Toml {
        match v {
            Node::TableArray(_) => false,
            Node::Table(_, inline) => *inline,
            _ => true,
        }
    } else {
        convertible_exec(fmt, v)
    }
}

/// Whether the array holds an item equal to `v` (see `holds`).
pub fn holds_exec(fmt: Format, arr: &Vec<Node>, v: &Node) -> (r: Option<usize>)
    ensures
        r is Some == holds(fmt, nodes_view(arr@), v@),
        r matches Some(j) ==> j < arr.len() && node_eq(fmt, nodes_view(arr@)[j as int], v@)
            && forall|m: int| 0 <= m < j ==> !node_eq(fmt, #[trigger] nodes_view(arr@)[m], v@),
{
    let mut j: usize = 0;
    while j < arr.len()
        invariant
            j <= arr.len(),
            forall|m: int| 0 <= m < j ==> !node_eq(fmt, #[trigger] nodes_view(arr@)[m], v@),
        decreases arr.len() - j,
    {
        if node_equal(fmt, &arr[j], v) {
            assert(node_eq(fmt, nodes_view(arr@)[j as int], v@));
            return Some(j);
        }
        j += 1;
    }
    None
}

fn array_insert_exec(fmt: Format, arr: &mut Vec<Node>, v: &Node) -> (ok: bool)
    ensures
        match array_insert(fmt, nodes_view(old(arr)@), v@) {
            None => !ok,
            Some(a) => ok && nodes_view(final(arr)@) == a,
        },
{
    if !can_hold_exec(fmt, v) {
        return false;
    }
    let c = convert_node(fmt, v);
    match holds_exec(fmt, arr, &c) {
        Some(_) => true,
        None => {
            proof {
                lemma_nodes_view_push(arr@, c);
            }
            arr.push(c);
            true
        },
    }
}

fn array_insert_all_exec(fmt: Format, arr: &mut Vec<Node>, items: &Vec<Node>) -> (ok: bool)
    ensures
        match array_insert_all(fmt, nodes_view(old(arr)@), nodes_view(items@)) {
            None => !ok,
            Some(a) => ok && nodes_view(final(arr)@) == a,
        },
{
    let ghost want = array_insert_all(fmt, nodes_view(arr@), nodes_view(items@));
    let mut i: usize = 0;
    assert(nodes_view(items@).skip(0) == nodes_view(items@));
    while i < items.len()
        invariant
            i <= items.len(),
            want == array_insert_all(fmt, nodes_view(arr@), nodes_view(items@).skip(i as int)),
            want == array_insert_all(fmt, nodes_view(old(arr)@), nodes_view(items@)),
        decreases items.len() - i,
    {
        let ghost rest = nodes_view(items@).skip(i as int);
        assert(rest[0] == nodes_view(items@)[i as int]);
        assert(rest.skip(1) == nodes_view(items@).skip(i + 1));
        if !array_insert_exec(fmt, arr, &items[i]) {
            return false;
        }
        i += 1;
    }
    true
}

/// Adds the entries of a check to a document (see `add_entries_spec`); `None`
/// when a key holds something else than what is added to it.
pub fn add_entries(fmt: Format, doc: &Vec<(String, Node)>, inline: bool, add: &Vec<(String, Node)>) -> (r:
    Option<Vec<(String, Node)>>)
    ensures
        match add_entries_spec(fmt, entries_view(doc@), inline, entries_view(add@)) {
            None => r is None,
            Some(d) => r matches Some(x) && entries_view(x@) == d,
        },
    decreases add,
{
    let ghost want = add_entries_spec(fmt, entries_view(doc@), inline, entries_view(add@));
    let mut cur = clone_entries(doc);
    let mut i: usize = 0;
    assert(entries_view(add@).skip(0) == entries_view(add@));
    while i < add.len()
        invariant
            i <= add.len(),
            want == add_entries_spec(fmt, entries_view(cur@), inline, entries_view(add@).skip(i as int)),
            want == add_entries_spec(fmt, entries_view(doc@), inline, entries_view(add@)),
        decreases add.len() - i,
    {
        let ghost rest = entries_view(add@).skip(i as int);
        assert(rest[0] == entries_view(add@)[i as int]);
        assert(rest.skip(1) == entries_view(add@).skip(i + 1));
        match add_one_exec(fmt, &cur, inline, add[i].0.as_str(), &add[i].1) {
            None => {
                return None;
            },
            Some(n) => {
                cur = n;
            },
        }
        i += 1;
    }
    Some(cur)
}

fn add_one_exec(fmt: Format, doc: &Vec<(String, Node)>, inline: bool, k: &str, v: &Node) -> (r: Option<
    Vec<(String, Node)>,
>)
    ensures
        match add_one(fmt, entries_view(doc@), inline, k@, v@) {
            None => r is None,
            Some(d) => r matches Some(x) && entries_view(x@) == d,
        },
    decreases v,
{
    match v {
        Node::Array(items) => {
            match array_child_exec(doc, k) {
                None => None,
                Some(arr) => {
                    let mut arr = arr;
                    if !array_insert_all_exec(fmt, &mut arr, items) {
                        return None;
                    }
                    let mut out = clone_entries(doc);
                    set_entry(&mut out, k, Node::Array(arr));
                    Some(out)
                },
            }
        },
        _ => {
            match mapping_child_exec(fmt, doc, inline, k) {
                None => None,
                Some((c, ci)) => {
                    let nested = match v {
                        Node::Table(t, tinline) => {
                            if *tinline {
                                Some(c)
                            } else {
                                add_entries(fmt, &c, ci, t)
                            }
                        },
                        _ => Some(c),
                    };
                    match nested {
                        None => None,
                        Some(c2) => {
                            let mut out = clone_entries(doc);
                            set_entry(&mut out, k, Node::Table(c2, ci));
                            Some(out)
                        },
                    }
                },
            }
        },
    }
}


/// The first position of an item equal to `v`.
pub open spec fn first_equal(fmt: Format, arr: Seq<NodeV>, v: NodeV) -> Option<int>
    decreases arr.len(),
{
    if arr.len() == 0 {
        None
    } else if node_eq(fmt, arr[0], v) {
        Some(0)
    } else {
        match first_equal(fmt, arr.skip(1), v) {
            Some(j) => Some(j + 1),
            None => None,
        }
    }
}

pub proof fn lemma_first_equal(fmt: Format, arr: Seq<NodeV>, v: NodeV)
    ensures
        first_equal(fmt, arr, v) matches Some(j) ==> 0 <= j < arr.len() && node_eq(fmt, arr[j], v)
            && forall|m: int| 0 <= m < j ==> !node_eq(fmt, #[trigger] arr[m], v),
        first_equal(fmt, arr, v) is None ==> !holds(fmt, arr, v),
    decreases arr.len(),
{
    if arr.len() > 0 && !node_eq(fmt, arr[0], v) {
        lemma_first_equal(fmt, arr.skip(1), v);
        assert forall|m: int| 1 <= m < arr.len() implies arr[m] == arr.skip(1)[m - 1] by {}
        if first_equal(fmt, arr, v) is None {
            assert forall|j: int| 0 <= j < arr.len() implies !node_eq(fmt, #[trigger] arr[j], v) by {
                if j > 0 {
                    assert(arr[j] == arr.skip(1)[j - 1]);
                }
            }
        }
    }
}

/// The array without its first item equal to `v`.
pub open spec fn array_remove(fmt: Format, arr: Seq<NodeV>, v: NodeV) -> Option<Seq<NodeV>> {
    if !can_hold(fmt, v) {
        None
    } else {
        match first_equal(fmt, arr, convert(fmt, v)) {
            Some(j) => Some(arr.remove(j)),
            None => Some(arr),
        }
    }
}

/// The array with the items removed one after the other (see `array_remove`).
pub open spec fn array_remove_all(fmt: Format, arr: Seq<NodeV>, items: Seq<NodeV>) -> Option<
    Seq<NodeV>,
>
    decreases items.len(),
{
    if items.len() == 0 {
        Some(arr)
    } else {
        match array_remove(fmt, arr, items[0]) {
            None => None,
            Some(a) => array_remove_all(fmt, a, items.skip(1)),
        }
    }
}

/// The document with the entries of a check removed: for a key that the
/// document has, an array removes each of its items from the array at the key
/// and a (not inline) table removes its entries from the table at the key.
/// `None` when the key holds something else than such a value.
pub open spec fn remove_entries_spec(fmt: Format, doc: Entries, inline: bool, rem: Entries) -> Option<
    Entries,
>
    decreases rem,
{
    if rem.len() == 0 {
        Some(doc)
    } else {
        match remove_one(fmt, doc, inline, rem[0].0, rem[0].1) {
            None => None,
            Some(d) => remove_entries_spec(fmt, d, inline, rem.skip(1)),
        }
    }
}

/// One entry of `remove_entries_spec`.
pub open spec fn remove_one(fmt: Format, doc: Entries, inline: bool, k: Seq<char>, v: NodeV) -> Option<
    Entries,
>
    decreases v,
{
    if get_value(doc, k) is None {
        Some(doc)
    } else {
        match v {
            NodeV::Array(items) => match array_child(doc, k) {
                None => None,
                Some(arr) => match array_remove_all(fmt, arr, items) {
                    None => None,
                    Some(a) => Some(set_value(doc, k, NodeV::Array(a))),
                },
            },
            _ => match mapping_child(fmt, doc, inline, k) {
                None => None,
                Some((c, ci)) => match v {
                    NodeV::Table(t, tinline) => if tinline {
                        Some(doc)
                    } else {
                        match remove_entries_spec(fmt, c, ci, t) {
                            None => None,
                            Some(c2) => Some(set_value(doc, k, NodeV::Table(c2, ci))),
                        }
                    },
                    _ => Some(doc),
                },
            },
        }
    }
}

fn array_remove_exec(fmt: Format, arr: &mut Vec<Node>, v: &Node) -> (ok: bool)
    ensures
        match array_remove(fmt, nodes_view(old(arr)@), v@) {
            None => !ok,
            Some(a) => ok && nodes_view(final(arr)@) == a,
        },
{
    if !can_hold_exec(fmt, v) {
        return false;
    }
    let c = convert_node(fmt, v);
    proof {
        lemma_first_equal(fmt, nodes_view(arr@), c@);
    }
    match holds_exec(fmt, arr, &c) {
        Some(j) => {
            proof {
                let a = nodes_view(arr@);
                match first_equal(fmt, a, c@) {
                    Some(f) => {
                        if f < j {
                            assert(!node_eq(fmt, a[f], c@));
                        } else if f > j {
                            assert(!node_eq(fmt, a[j as int], c@));
                        }
                    },
                    None => {
                        assert(node_eq(fmt, a[j as int], c@));
                    },
                }
                crate::node::lemma_nodes_view_remove(arr@, j as int);
            }
            arr.remove(j);
            true
        },
        None => true,
    }
}

fn array_remove_all_exec(fmt: Format, arr: &mut Vec<Node>, items: &Vec<Node>) -> (ok: bool)
    ensures
        match array_remove_all(fmt, nodes_view(old(arr)@), nodes_view(items@)) {
            None => !ok,
            Some(a) => ok && nodes_view(final(arr)@) == a,
        },
{
    let ghost want = array_remove_all(fmt, nodes_view(arr@), nodes_view(items@));
    let mut i: usize = 0;
    assert(nodes_view(items@).skip(0) == nodes_view(items@));
    while i < items.len()
        invariant
            i <= items.len(),
            want == array_remove_all(fmt, nodes_view(arr@), nodes_view(items@).skip(i as int)),
            want == array_remove_all(fmt, nodes_view(old(arr)@), nodes_view(items@)),
        decreases items.len() - i,
    {
        let ghost rest = nodes_view(items@).skip(i as int);
        assert(rest[0] == nodes_view(items@)[i as int]);
        assert(rest.skip(1) == nodes_view(items@).skip(i + 1));
        if !array_remove_exec(fmt, arr, &items[i]) {
            return false;
        }
        i += 1;
    }
    true
}

/// Removes the entries of a check from a document (see `remove_entries_spec`);
/// `None` when a key holds something else than what is removed from it.
pub fn remove_entries(fmt: Format, doc: &Vec<(String, Node)>, inline: bool, rem: &Vec<(String, Node)>) -> (r:
    Option<Vec<(String, Node)>>)
    ensures
        match remove_entries_spec(fmt, entries_view(doc@), inline, entries_view(rem@)) {
            None => r is None,
            Some(d) => r matches Some(x) && entries_view(x@) == d,
        },
    decreases rem,
{
    let ghost want = remove_entries_spec(fmt, entries_view(doc@), inline, entries_view(rem@));
    let mut cur = clone_entries(doc);
    let mut i: usize = 0;
    assert(entries_view(rem@).skip(0) == entries_view(rem@));
    while i < rem.len()
        invariant
            i <= rem.len(),
            want == remove_entries_spec(fmt, entries_view(cur@), inline, entries_view(rem@).skip(i as int)),
            want == remove_entries_spec(fmt, entries_view(doc@), inline, entries_view(rem@)),
        decreases rem.len() - i,
    {
        let ghost rest = entries_view(rem@).skip(i as int);
        assert(rest[0] == entries_view(rem@)[i as int]);
        assert(rest.skip(1) == entries_view(rem@).skip(i + 1));
        match remove_one_exec(fmt, &cur, inline, rem[i].0.as_str(), &rem[i].1) {
            None => {
                return None;
            },
            Some(n) => {
                cur = n;
            },
        }
        i += 1;
    }
    Some(cur)
}

fn remove_one_exec(fmt: Format, doc: &Vec<(String, Node)>, inline: bool, k: &str, v: &Node) -> (r:
    Option<Vec<(String, Node)>>)
    ensures
        match remove_one(fmt, entries_view(doc@), inline, k@, v@) {
            None => r is None,
            Some(d) => r matches Some(x) && entries_view(x@) == d,
        },
    decreases v,
{
    if key_index(doc, k).is_none() {
        return Some(clone_entries(doc));
    }
    match v {
        Node::Array(items) => {
            match array_child_exec(doc, k) {
                None => None,
                Some(arr) => {
                    let mut arr = arr;
                    if !array_remove_all_exec(fmt, &mut arr, items) {
                        return None;
                    }
                    let mut out = clone_entries(doc);
                    set_entry(&mut out, k, Node::Array(arr));
                    Some(out)
                },
            }
        },
        _ => {
            match mapping_child_exec(fmt, doc, inline, k) {
                None => None,
                Some((c, ci)) => match v {
                    Node::Table(t, tinline) => {
                        if *tinline {
                            Some(clone_entries(doc))
                        } else {
                            match remove_entries(fmt, &c, ci, t) {
                                None => None,
                                Some(c2) => {
                                    let mut out = clone_entries(doc);
                                    set_entry(&mut out, k, Node::Table(c2, ci));
                                    Some(out)
                                },
                            }
                        }
                    },
                    _ => Some(clone_entries(doc)),
                },
            }
        },
    }
}


/// The document with the keys of a check removed: an empty table (inline or
/// not) removes its key; another table removes its keys from the table at the
/// key, when there is one; other values change nothing.
pub open spec fn unset_keys_spec(fmt: Format, doc: Entries, inline: bool, keys: Entries) -> Entries
    decreases keys,
{
    if keys.len() == 0 {
        doc
    } else {
        unset_keys_spec(fmt, unset_one(fmt, doc, inline, keys[0].0, keys[0].1), inline, keys.skip(1))
    }
}

/// One entry of `unset_keys_spec`.
pub open spec fn unset_one(fmt: Format, doc: Entries, inline: bool, k: Seq<char>, v: NodeV) -> Entries
    decreases v,
{
    match v {
        NodeV::Table(t, _) => if t.len() == 0 {
            crate::node::remove_key(fmt, doc, k)
        } else if get_value(doc, k) is None {
            doc
        } else {
            match mapping_child(fmt, doc, inline, k) {
                None => doc,
                Some((c, ci)) => set_value(doc, k, NodeV::Table(unset_keys_spec(fmt, c, ci, t), ci)),
            }
        },
        _ => doc,
    }
}

/// Removes a key from a table (see `remove_key`).
pub fn remove_entry(fmt: Format, es: &mut Vec<(String, Node)>, k: &str)
    ensures
        entries_view(final(es)@) == crate::node::remove_key(fmt, entries_view(old(es)@), k@),
{
    match key_index(es, k) {
        None => {},
        Some(i) => {
            if fmt == Format::Yaml {
                let last = es.len() - 1;
                if i == last {
                    let ghost before = es@;
                    es.pop();
                    proof {
                        crate::node::lemma_entries_view_drop_last(before);
                    }
                } else {
                    let ghost before = es@;
                    let moved = es.pop();
                    match moved {
                        Some(m) => {
                            proof {
                                crate::node::lemma_entries_view_drop_last(before);
                                lemma_entries_view_update(es@, i as int, m);
                            }
                            es.set(i, m);
                        },
                        None => {},
                    }
                }
            } else {
                let ghost before = es@;
                es.remove(i);
                proof {
                    crate::node::lemma_entries_view_remove(before, i as int);
                }
            }
        },
    }
}

/// Removes the keys of a check from a document (see `unset_keys_spec`).
pub fn unset_keys(fmt: Format, doc: &Vec<(String, Node)>, inline: bool, keys: &Vec<(String, Node)>) -> (r:
    Vec<(String, Node)>)
    ensures
        entries_view(r@) == unset_keys_spec(fmt, entries_view(doc@), inline, entries_view(keys@)),
    decreases keys,
{
    let ghost want = unset_keys_spec(fmt, entries_view(doc@), inline, entries_view(keys@));
    let mut cur = clone_entries(doc);
    let mut i: usize = 0;
    assert(entries_view(keys@).skip(0) == entries_view(keys@));
    while i < keys.len()
        invariant
            i <= keys.len(),
            want == unset_keys_spec(fmt, entries_view(cur@), inline, entries_view(keys@).skip(i as int)),
        decreases keys.len() - i,
    {
        let ghost rest = entries_view(keys@).skip(i as int);
        assert(rest[0] == entries_view(keys@)[i as int]);
        assert(rest.skip(1) == entries_view(keys@).skip(i + 1));
        cur = unset_one_exec(fmt, &cur, inline, keys[i].0.as_str(), &keys[i].1);
        i += 1;
    }
    cur
}

fn unset_one_exec(fmt: Format, doc: &Vec<(String, Node)>, inline: bool, k: &str, v: &Node) -> (r: Vec<
    (String, Node),
>)
    ensures
        entries_view(r@) == unset_one(fmt, entries_view(doc@), inline, k@, v@),
    decreases v,
{
    match v {
        Node::Table(t, _) => {
            if t.len() == 0 {
                let mut out = clone_entries(doc);
                remove_entry(fmt, &mut out, k);
                out
            } else if key_index(doc, k).is_none() {
                clone_entries(doc)
            } else {
                match mapping_child_exec(fmt, doc, inline, k) {
                    None => clone_entries(doc),
                    Some((c, ci)) => {
                        let c2 = unset_keys(fmt, &c, ci, t);
                        let mut out = clone_entries(doc);
                        set_entry(&mut out, k, Node::Table(c2, ci));
                        out
                    },
                }
            }
        },
        _ => clone_entries(doc),
    }
}

/// The document with the values of a check set: a table (inline or not) sets
/// its entries in the table at the key, creating it when it is missing; any
/// other value is set at the key. `None` when a key that a table is set in
/// holds something else, or when a value cannot be written in the format.
pub open spec fn set_values_spec(fmt: Format, doc: Entries, inline: bool, values: Entries) -> Option<
    Entries,
>
    decreases values,
{
    if values.len() == 0 {
        Some(doc)
    } else {
        match set_one(fmt, doc, inline, values[0].0, values[0].1) {
            None => None,
            Some(d) => set_values_spec(fmt, d, inline, values.skip(1)),
        }
    }
}

/// One entry of `set_values_spec`.
pub open spec fn set_one(fmt: Format, doc: Entries, inline: bool, k: Seq<char>, v: NodeV) -> Option<
    Entries,
>
    decreases v,
{
    match v {
        NodeV::Table(t, _) => match mapping_child(fmt, doc, inline, k) {
            None => None,
            Some((c, ci)) => match set_values_spec(fmt, c, ci, t) {
                None => None,
                Some(c2) => Some(set_value(doc, k, NodeV::Table(c2, ci))),
            },
        },
        _ => if v is TableArray || !convertible(fmt, v) {
            None
        } else {
            Some(set_value(doc, k, convert(fmt, v)))
        },
    }
}

/// Sets the values of a check in a document (see `set_values_spec`).
pub fn set_values(fmt: Format, doc: &Vec<(String, Node)>, inline: bool, values: &Vec<(String, Node)>) -> (r:
    Option<Vec<(String, Node)>>)
    ensures
        match set_values_spec(fmt, entries_view(doc@), inline, entries_view(values@)) {
            None => r is None,
            Some(d) => r matches Some(x) && entries_view(x@) == d,
        },
    decreases values,
{
    let ghost want = set_values_spec(fmt, entries_view(doc@), inline, entries_view(values@));
    let mut cur = clone_entries(doc);
    let mut i: usize = 0;
    assert(entries_view(values@).skip(0) == entries_view(values@));
    while i < values.len()
        invariant
            i <= values.len(),
            want == set_values_spec(fmt, entries_view(cur@), inline, entries_view(values@).skip(i as int)),
            want == set_values_spec(fmt, entries_view(doc@), inline, entries_view(values@)),
        decreases values.len() - i,
    {
        let ghost rest = entries_view(values@).skip(i as int);
        assert(rest[0] == entries_view(values@)[i as int]);
        assert(rest.skip(1) == entries_view(values@).skip(i + 1));
        match set_one_exec(fmt, &cur, inline, values[i].0.as_str(), &values[i].1) {
            None => {
                return None;
            },
            Some(n) => {
                cur = n;
            },
        }
        i += 1;
    }
    Some(cur)
}

fn set_one_exec(fmt: Format, doc: &Vec<(String, Node)>, inline: bool, k: &str, v: &Node) -> (r: Option<
    Vec<(String, Node)>,
>)
    ensures
        match set_one(fmt, entries_view(doc@), inline, k@, v@) {
            None => r is None,
            Some(d) => r matches Some(x) && entries_view(x@) == d,
        },
    decreases v,
{
    match v {
        Node::Table(t, _) => match mapping_child_exec(fmt, doc, inline, k) {
            None => None,
            Some((c, ci)) => match set_values(fmt, &c, ci, t) {
                None => None,
                Some(c2) => {
                    let mut out = clone_entries(doc);
                    set_entry(&mut out, k, Node::Table(c2, ci));
                    Some(out)
                },
            },
        },
        Node::TableArray(_) => None,
        _ => {
            if !convertible_exec(fmt, v) {
                return None;
            }
            let c = convert_node(fmt, v);
            let mut out = clone_entries(doc);
            set_entry(&mut out, k, c);
            Some(out)
        },
    }
}


/// The outcome of matching the values of a document against regexes.
#[derive(PartialEq, Clone, Debug)]
pub enum RegexValidateResult {
    Valid,
    Invalid { key: String, regex: String, found: String },
}

/// The outcome of `validate_spec`: valid, invalid at a key (its dotted path,
/// the regex and the text found), or a regex that does not compile (the
/// error's text).
pub enum RegexOutcome {
    Valid,
    Invalid(Seq<char>, Seq<char>, Seq<char>),
    BadRegex(Seq<char>),
}

/// The dotted path of a key below `parent`.
pub open spec fn key_path(parent: Seq<char>, key: Seq<char>) -> Seq<char> {
    if parent.len() == 0 {
        key
    } else {
        parent + "."@ + key
    }
}

/// The dotted path of a key below `parent`.
pub fn make_key_path(parent: &str, key: &str) -> (r: String)
    ensures
        r@ == key_path(parent@, key@),
{
    if parent.is_empty() {
        String::from_str(key)
    } else {
        let p = concat(parent, ".");
        concat(p.as_str(), key)
    }
}

/// Matches the document against the regexes of a check. The first entry of
/// the check that is a string or a (not inline) table decides: a string is a
/// regex that the string at the key must match (when the key holds no string,
/// the placeholder, if any, is set there and the key is invalid); a table is
/// matched against the table at the key (invalid when there is none). Gives
/// the outcome and the document, with the placeholder set where it was.
pub open spec fn validate_spec(
    fmt: Format,
    doc: Entries,
    inline: bool,
    table: Entries,
    path: Seq<char>,
    placeholder: Option<Seq<char>>,
) -> (RegexOutcome, Entries)
    decreases table,
{
    if table.len() == 0 {
        (RegexOutcome::Valid, doc)
    } else {
        let k = table[0].0;
        match table[0].1 {
            NodeV::Str(raw) => match get_value(doc, k) {
                Some(NodeV::Str(found)) => match regex_compile_error(raw) {
                    Some(e) => (RegexOutcome::BadRegex(e), doc),
                    None => if regex_finds(raw, found) {
                        (RegexOutcome::Valid, doc)
                    } else {
                        (RegexOutcome::Invalid(key_path(path, k), raw, found), doc)
                    },
                },
                _ => (
                    RegexOutcome::Invalid(key_path(path, k), raw, Seq::empty()),
                    match placeholder {
                        Some(p) => set_value(doc, k, NodeV::Str(p)),
                        None => doc,
                    },
                ),
            },
            NodeV::Table(t, tinline) => if tinline {
                validate_spec(fmt, doc, inline, table.skip(1), path, placeholder)
            } else if get_value(doc, k) is None {
                (RegexOutcome::Invalid(key_path(path, k), Seq::empty(), Seq::empty()), doc)
            } else {
                match mapping_child(fmt, doc, inline, k) {
                    None => (RegexOutcome::Invalid(key_path(path, k), Seq::empty(), Seq::empty()), doc),
                    Some((c, ci)) => {
                        let (o, c2) = validate_spec(fmt, c, ci, t, key_path(path, k), placeholder);
                        (o, set_value(doc, k, NodeV::Table(c2, ci)))
                    },
                }
            },
            _ => validate_spec(fmt, doc, inline, table.skip(1), path, placeholder),
        }
    }
}

/// The outcome as the function gives it: a regex that does not compile is the
/// error `InvalidRegex` with the error's text.
pub open spec fn outcome_matches(o: RegexOutcome, r: Result<RegexValidateResult, CheckError>) -> bool {
    match o {
        RegexOutcome::Valid => r == Ok::<RegexValidateResult, CheckError>(RegexValidateResult::Valid),
        RegexOutcome::Invalid(k, x, f) => r matches Ok(RegexValidateResult::Invalid { key, regex, found })
            && key@ == k && regex@ == x && found@ == f,
        RegexOutcome::BadRegex(e) => r matches Err(CheckError::InvalidRegex(m)) && m@ == e,
    }
}

/// Matches the document against the regexes of a check (see `validate_spec`).
pub fn validate_key_value_regex(
    fmt: Format,
    doc: &Vec<(String, Node)>,
    inline: bool,
    table: &Vec<(String, Node)>,
    path: &str,
    placeholder: &Option<String>,
) -> (r: (Result<RegexValidateResult, CheckError>, Vec<(String, Node)>))
    ensures
        outcome_matches(
            validate_spec(fmt, entries_view(doc@), inline, entries_view(table@), path@, crate::text::opt_view(*placeholder)).0,
            r.0,
        ),
        entries_view(r.1@) == validate_spec(
            fmt,
            entries_view(doc@),
            inline,
            entries_view(table@),
            path@,
            crate::text::opt_view(*placeholder),
        ).1,
    decreases table,
{
    let ghost want = validate_spec(fmt, entries_view(doc@), inline, entries_view(table@), path@, crate::text::opt_view(*placeholder));
    let mut i: usize = 0;
    assert(entries_view(table@).skip(0) == entries_view(table@));
    while i < table.len()
        invariant
            i <= table.len(),
            want == validate_spec(fmt, entries_view(doc@), inline, entries_view(table@).skip(i as int), path@, crate::text::opt_view(*placeholder)),
            want == validate_spec(fmt, entries_view(doc@), inline, entries_view(table@), path@, crate::text::opt_view(*placeholder)),
        decreases table.len() - i,
    {
        let ghost rest = entries_view(table@).skip(i as int);
        assert(rest[0] == entries_view(table@)[i as int]);
        assert(rest.skip(1) == entries_view(table@).skip(i + 1));
        let k = table[i].0.as_str();
        match &table[i].1 {
            Node::Str(raw) => {
                let found = match key_index(doc, k) {
                    Some(j) => match &doc[j].1 {
                        Node::Str(f) => Some(f.clone()),
                        _ => None,
                    },
                    None => None,
                };
                match found {
                    Some(f) => {
                        match regex_check(raw.as_str()) {
                            Some(e) => {
                                return (Err(CheckError::InvalidRegex(e)), clone_entries(doc));
                            },
                            None => {
                                if regex_is_match(raw.as_str(), f.as_str()) {
                                    return (Ok(RegexValidateResult::Valid), clone_entries(doc));
                                } else {
                                    let key = make_key_path(path, k);
                                    return (Ok(RegexValidateResult::Invalid { key, regex: raw.clone(), found: f }), clone_entries(doc));
                                }
                            },
                        }
                    },
                    None => {
                        let mut out = clone_entries(doc);
                        match placeholder {
                            Some(p) => {
                                set_entry(&mut out, k, Node::Str(p.clone()));
                            },
                            None => {},
                        }
                        let key = make_key_path(path, k);
                        return (Ok(RegexValidateResult::Invalid { key, regex: raw.clone(), found: String::new() }), out);
                    },
                }
            },
            Node::Table(t, tinline) => {
                if !*tinline {
                    if key_index(doc, k).is_none() {
                        let key = make_key_path(path, k);
                        return (Ok(RegexValidateResult::Invalid { key, regex: String::new(), found: String::new() }), clone_entries(doc));
                    }
                    match mapping_child_exec(fmt, doc, inline, k) {
                        None => {
                            let key = make_key_path(path, k);
                            return (Ok(RegexValidateResult::Invalid { key, regex: String::new(), found: String::new() }), clone_entries(doc));
                        },
                        Some((c, ci)) => {
                            let child_path = make_key_path(path, k);
                            let (o, c2) = validate_key_value_regex(fmt, &c, ci, t, child_path.as_str(), placeholder);
                            let mut out = clone_entries(doc);
                            set_entry(&mut out, k, Node::Table(c2, ci));
                            return (o, out);
                        },
                    }
                }
            },
            _ => {},
        }
        i += 1;
    }
    (Ok(RegexValidateResult::Valid), clone_entries(doc))
}

} // verus!
