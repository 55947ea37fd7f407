//! Documents as trees: the values of a TOML, JSON or YAML file, and the
//! operations the checkers make on them.
use vstd::prelude::*;

verus! {

/// The formats a document can have. They differ in when two values count as
/// equal and in how a key is removed from a table.
#[derive(PartialEq, Eq, Structural, Clone, Copy, Debug)]
pub enum Format {
    Toml,
    Json,
    Yaml,
}

/// A value of a document. Floating-point numbers are held by their IEEE-754
/// bits; `Table` is a table (its entries in order, and whether it is written
/// inline); `TableArray` is a TOML array of tables.
#[derive(Debug)]
pub enum Node {
    Str(String),
    Int(i128),
    Float(u64),
    Bool(bool),
    Datetime(String),
    Null,
    Array(Vec<Node>),
    Table(Vec<(String, Node)>, bool),
    TableArray(Vec<Node>),
}

/// `Node` with its texts and lists as sequences.
pub enum NodeV {
    Str(Seq<char>),
    Int(int),
    Float(u64),
    Bool(bool),
    Datetime(Seq<char>),
    Null,
    Array(Seq<NodeV>),
    Table(Seq<(Seq<char>, NodeV)>, bool),
    TableArray(Seq<NodeV>),
}

/// The entries of a table as key texts and values.
pub open spec fn entries_view(es: Seq<(String, Node)>) -> Seq<(Seq<char>, NodeV)>
    decreases es,
{
    Seq::new(
        es.len(),
        |i: int|
            if 0 <= i < es.len() {
                (es[i].0@, node_view(es[i].1))
            } else {
                (Seq::empty(), NodeV::Null)
            },
    )
}

/// The values of a list.
pub open spec fn nodes_view(v: Seq<Node>) -> Seq<NodeV>
    decreases v,
{
    Seq::new(v.len(), |i: int| if 0 <= i < v.len() { node_view(v[i]) } else { NodeV::Null })
}

pub open spec fn node_view(n: Node) -> NodeV
    decreases n,
{
    match n {
        Node::Str(s) => NodeV::Str(s@),
        Node::Int(i) => NodeV::Int(i as int),
        Node::Float(b) => NodeV::Float(b),
        Node::Bool(b) => NodeV::Bool(b),
        Node::Datetime(s) => NodeV::Datetime(s@),
        Node::Null => NodeV::Null,
        Node::Array(v) => NodeV::Array(nodes_view(v@)),
        Node::Table(es, inline) => NodeV::Table(entries_view(es@), inline),
        Node::TableArray(v) => NodeV::TableArray(nodes_view(v@)),
    }
}

impl View for Node {
    type V = NodeV;

    open spec fn view(&self) -> NodeV {
        node_view(*self)
    }
}


/// The position of the first entry with key `k`.
pub open spec fn key_pos(es: Seq<(Seq<char>, NodeV)>, k: Seq<char>) -> Option<int>
    decreases es.len(),
{
    if es.len() == 0 {
        None
    } else if es[0].0 == k {
        Some(0)
    } else {
        match key_pos(es.skip(1), k) {
            Some(i) => Some(i + 1),
            None => None,
        }
    }
}

pub proof fn lemma_key_pos(es: Seq<(Seq<char>, NodeV)>, k: Seq<char>)
    ensures
        key_pos(es, k) matches Some(i) ==> 0 <= i < es.len() && es[i].0 == k && forall|j: int|
            0 <= j < i ==> es[j].0 != k,
        key_pos(es, k) is None ==> forall|j: int| 0 <= j < es.len() ==> es[j].0 != k,
    decreases es.len(),
{
    if es.len() > 0 && es[0].0 != k {
        lemma_key_pos(es.skip(1), k);
        assert forall|j: int| 1 <= j < es.len() implies es[j].0 == es.skip(1)[j - 1].0 by {}
    }
}

/// The value of the key in the table.
pub open spec fn get_value(es: Seq<(Seq<char>, NodeV)>, k: Seq<char>) -> Option<NodeV> {
    match key_pos(es, k) {
        Some(i) => Some(es[i].1),
        None => None,
    }
}

/// The table with the key set to `v`: an existing entry keeps its place, a new
/// one comes last.
pub open spec fn set_value(es: Seq<(Seq<char>, NodeV)>, k: Seq<char>, v: NodeV) -> Seq<
    (Seq<char>, NodeV),
> {
    match key_pos(es, k) {
        Some(i) => es.update(i, (k, v)),
        None => es.push((k, v)),
    }
}

/// The sequence without its element at `i`, the last element taking its place.
pub open spec fn swap_remove<A>(s: Seq<A>, i: int) -> Seq<A> {
    if i == s.len() - 1 {
        s.drop_last()
    } else {
        s.drop_last().update(i, s.last())
    }
}

/// The table without the key. A YAML mapping moves its last entry into the
/// place of the removed one; the other formats keep the order.
pub open spec fn remove_key(fmt: Format, es: Seq<(Seq<char>, NodeV)>, k: Seq<char>) -> Seq<
    (Seq<char>, NodeV),
> {
    match key_pos(es, k) {
        None => es,
        Some(i) => if fmt == Format::Yaml {
            swap_remove(es, i)
        } else {
            es.remove(i)
        },
    }
}

/// The bits of a NaN.
pub open spec fn is_nan(b: u64) -> bool {
    (b & 0x7ff0_0000_0000_0000) == 0x7ff0_0000_0000_0000 && (b & 0x000f_ffff_ffff_ffff) != 0
}

/// The bits of a finite number.
pub open spec fn is_finite(b: u64) -> bool {
    (b & 0x7ff0_0000_0000_0000) != 0x7ff0_0000_0000_0000
}

/// The bits of a zero, either sign.
pub open spec fn is_zero(b: u64) -> bool {
    (b & 0x7fff_ffff_ffff_ffff) == 0
}

/// `==` on two floats given by their bits: NaN equals nothing, the two zeros
/// are equal, and otherwise the bits must be the same.
pub open spec fn float_eq(a: u64, b: u64) -> bool {
    !is_nan(a) && !is_nan(b) && (a == b || (is_zero(a) && is_zero(b)))
}

/// When two values of a document count as equal. TOML compares strings,
/// numbers and booleans by value, arrays item by item and inline tables entry
/// by entry in order, and nothing else is ever equal. JSON and YAML compare
/// structurally, tables as key-value maps in any order; YAML counts two NaNs
/// equal.
pub open spec fn node_eq(fmt: Format, a: NodeV, b: NodeV) -> bool
    decreases a,
{
    match (a, b) {
        (NodeV::Str(x), NodeV::Str(y)) => x == y,
        (NodeV::Int(x), NodeV::Int(y)) => x == y,
        (NodeV::Float(x), NodeV::Float(y)) => float_eq(x, y) || (fmt == Format::Yaml && is_nan(x)
            && is_nan(y)),
        (NodeV::Bool(x), NodeV::Bool(y)) => x == y,
        (NodeV::Null, NodeV::Null) => fmt != Format::Toml,
        (NodeV::Datetime(x), NodeV::Datetime(y)) => fmt != Format::Toml && x == y,
        (NodeV::Array(x), NodeV::Array(y)) => x.len() == y.len() && forall|i: int|
            0 <= i < x.len() ==> node_eq(fmt, #[trigger] x[i], y[i]),
        (NodeV::Table(x, xi), NodeV::Table(y, yi)) => if fmt == Format::Toml {
            xi && yi && x.len() == y.len() && forall|i: int|
                #![trigger x[i]]
                0 <= i < x.len() ==> (x[i].0 == y[i].0 && node_eq(fmt, x[i].1, y[i].1))
        } else {
            x.len() == y.len() && forall|i: int|
                0 <= i < x.len() ==> match key_pos(y, #[trigger] x[i].0) {
                    Some(j) => node_eq(fmt, x[i].1, y[j].1),
                    None => false,
                }
        },
        _ => false,
    }
}


pub proof fn lemma_nodes_view_push(s: Seq<Node>, x: Node)
    ensures
        nodes_view(s.push(x)) == nodes_view(s).push(node_view(x)),
{
    assert(nodes_view(s.push(x)) =~= nodes_view(s).push(node_view(x)));
}

pub proof fn lemma_nodes_view_remove(s: Seq<Node>, i: int)
    requires
        0 <= i < s.len(),
    ensures
        nodes_view(s.remove(i)) == nodes_view(s).remove(i),
{
    assert(nodes_view(s.remove(i)) =~= nodes_view(s).remove(i));
}

pub proof fn lemma_entries_view_push(s: Seq<(String, Node)>, x: (String, Node))
    ensures
        entries_view(s.push(x)) == entries_view(s).push((x.0@, node_view(x.1))),
{
    assert(entries_view(s.push(x)) =~= entries_view(s).push((x.0@, node_view(x.1))));
}

pub proof fn lemma_entries_view_update(s: Seq<(String, Node)>, i: int, x: (String, Node))
    requires
        0 <= i < s.len(),
    ensures
        entries_view(s.update(i, x)) == entries_view(s).update(i, (x.0@, node_view(x.1))),
{
    assert(entries_view(s.update(i, x)) =~= entries_view(s).update(i, (x.0@, node_view(x.1))));
}

pub proof fn lemma_entries_view_remove(s: Seq<(String, Node)>, i: int)
    requires
        0 <= i < s.len(),
    ensures
        entries_view(s.remove(i)) == entries_view(s).remove(i),
{
    assert(entries_view(s.remove(i)) =~= entries_view(s).remove(i));
}

pub proof fn lemma_entries_view_drop_last(s: Seq<(String, Node)>)
    requires
        s.len() > 0,
    ensures
        entries_view(s.drop_last()) == entries_view(s).drop_last(),
{
    assert(entries_view(s.drop_last()) =~= entries_view(s).drop_last());
}

/// A copy of the value.
pub fn clone_node(n: &Node) -> (r: Node)
    ensures
        r@ == n@,
    decreases n,
{
    match n {
        Node::Str(s) => Node::Str(s.clone()),
        Node::Int(i) => Node::Int(*i),
        Node::Float(b) => Node::Float(*b),
        Node::Bool(b) => Node::Bool(*b),
        Node::Datetime(s) => Node::Datetime(s.clone()),
        Node::Null => Node::Null,
        Node::Array(v) => Node::Array(clone_nodes(v)),
        Node::TableArray(v) => Node::TableArray(clone_nodes(v)),
        Node::Table(es, inline) => Node::Table(clone_entries(es), *inline),
    }
}

/// A copy of the values.
pub fn clone_nodes(v: &Vec<Node>) -> (r: Vec<Node>)
    ensures
        nodes_view(r@) == nodes_view(v@),
    decreases v,
{
    let mut out: Vec<Node> = Vec::new();
    let mut i: usize = 0;
    while i < v.len()
        invariant
            i <= v.len(),
            nodes_view(out@) == nodes_view(v@).take(i as int),
        decreases v.len() - i,
    {
        let c = clone_node(&v[i]);
        proof {
            lemma_nodes_view_push(out@, c);
            assert(nodes_view(v@).take(i + 1) == nodes_view(v@).take(i as int).push(node_view(v@[i as int])));
        }
        out.push(c);
        i += 1;
    }
    assert(nodes_view(v@).take(v.len() as int) == nodes_view(v@));
    out
}

/// A copy of the entries.
pub fn clone_entries(es: &Vec<(String, Node)>) -> (r: Vec<(String, Node)>)
    ensures
        entries_view(r@) == entries_view(es@),
    decreases es,
{
    let mut out: Vec<(String, Node)> = Vec::new();
    let mut i: usize = 0;
    while i < es.len()
        invariant
            i <= es.len(),
            entries_view(out@) == entries_view(es@).take(i as int),
        decreases es.len() - i,
    {
        let k = es[i].0.clone();
        let c = clone_node(&es[i].1);
        proof {
            lemma_entries_view_push(out@, (k, c));
            assert(entries_view(es@).take(i + 1) == entries_view(es@).take(i as int).push(
                (es@[i as int].0@, node_view(es@[i as int].1)),
            ));
        }
        out.push((k, c));
        i += 1;
    }
    assert(entries_view(es@).take(es.len() as int) == entries_view(es@));
    out
}


/// The position of the first entry with key `k` (see `key_pos`).
pub fn key_index(es: &Vec<(String, Node)>, k: &str) -> (r: Option<usize>)
    ensures
        match key_pos(entries_view(es@), k@) {
            Some(i) => r == Some(i as usize),
            None => r is None,
        },
        r matches Some(i) ==> key_pos(entries_view(es@), k@) == Some(i as int) && i < es.len(),
        r is None ==> key_pos(entries_view(es@), k@) is None,
{
    proof {
        lemma_key_pos(entries_view(es@), k@);
    }
    let key = String::from_str(k);
    let mut i: usize = 0;
    while i < es.len()
        invariant
            i <= es.len(),
            key@ == k@,
            forall|j: int| 0 <= j < i ==> entries_view(es@)[j].0 != k@,
        decreases es.len() - i,
    {
        if es[i].0 == key {
            proof {
                lemma_key_pos(entries_view(es@), k@);
                let ev = entries_view(es@);
                match key_pos(ev, k@) {
                    Some(p) => {
                        if p < i {
                            assert(ev[p].0 != k@);
                        } else if p > i {
                            assert(ev[i as int].0 == k@);
                        }
                    },
                    None => {
                        assert(ev[i as int].0 == k@);
                    },
                }
            }
            return Some(i);
        }
        i += 1;
    }
    proof {
        lemma_key_pos(entries_view(es@), k@);
        let ev = entries_view(es@);
        if let Some(p) = key_pos(ev, k@) {
            assert(ev[p].0 != k@);
        }
    }
    None
}

fn is_nan_exec(b: u64) -> (r: bool)
    ensures
        r == is_nan(b),
{
    (b & 0x7ff0_0000_0000_0000) == 0x7ff0_0000_0000_0000 && (b & 0x000f_ffff_ffff_ffff) != 0
}

fn float_equal(fmt: Format, a: u64, b: u64) -> (r: bool)
    ensures
        r == (float_eq(a, b) || (fmt == Format::Yaml && is_nan(a) && is_nan(b))),
{
    let na = is_nan_exec(a);
    let nb = is_nan_exec(b);
    if na || nb {
        return fmt == Format::Yaml && na && nb;
    }
    a == b || ((a & 0x7fff_ffff_ffff_ffff) == 0 && (b & 0x7fff_ffff_ffff_ffff) == 0)
}

/// Whether two values count as equal in the format (see `node_eq`).
pub fn node_equal(fmt: Format, a: &Node, b: &Node) -> (r: bool)
    ensures
        r == node_eq(fmt, a@, b@),
    decreases a,
{
    match (a, b) {
        (Node::Str(x), Node::Str(y)) => *x == *y,
        (Node::Int(x), Node::Int(y)) => *x == *y,
        (Node::Float(x), Node::Float(y)) => float_equal(fmt, *x, *y),
        (Node::Bool(x), Node::Bool(y)) => *x == *y,
        (Node::Null, Node::Null) => !(fmt == Format::Toml),
        (Node::Datetime(x), Node::Datetime(y)) => !(fmt == Format::Toml) && *x == *y,
        (Node::Array(x), Node::Array(y)) => nodes_equal(fmt, x, y),
        (Node::Table(x, xi), Node::Table(y, yi)) => {
            if fmt == Format::Toml {
                *xi && *yi && entries_equal_in_order(fmt, x, y)
            } else {
                entries_equal_as_maps(fmt, x, y)
            }
        },
        _ => false,
    }
}

fn nodes_equal(fmt: Format, x: &Vec<Node>, y: &Vec<Node>) -> (r: bool)
    ensures
        r == (nodes_view(x@).len() == nodes_view(y@).len() && forall|i: int|
            0 <= i < nodes_view(x@).len() ==> node_eq(fmt, #[trigger] nodes_view(x@)[i], nodes_view(y@)[i])),
    decreases x,
{
    if x.len() != y.len() {
        return false;
    }
    let mut i: usize = 0;
    while i < x.len()
        invariant
            i <= x.len(),
            x.len() == y.len(),
            forall|j: int| 0 <= j < i ==> node_eq(fmt, #[trigger] nodes_view(x@)[j], nodes_view(y@)[j]),
        decreases x.len() - i,
    {
        if !node_equal(fmt, &x[i], &y[i]) {
            assert(!node_eq(fmt, nodes_view(x@)[i as int], nodes_view(y@)[i as int]));
            return false;
        }
        i += 1;
    }
    true
}

fn entries_equal_in_order(fmt: Format, x: &Vec<(String, Node)>, y: &Vec<(String, Node)>) -> (r: bool)
    ensures
        r == (entries_view(x@).len() == entries_view(y@).len() && forall|i: int|
            #![trigger entries_view(x@)[i]]
            0 <= i < entries_view(x@).len() ==> (entries_view(x@)[i].0 == entries_view(y@)[i].0
                && node_eq(fmt, entries_view(x@)[i].1, entries_view(y@)[i].1))),
    decreases x,
{
    if x.len() != y.len() {
        return false;
    }
    let mut i: usize = 0;
    while i < x.len()
        invariant
            i <= x.len(),
            x.len() == y.len(),
            forall|j: int|
                #![trigger entries_view(x@)[j]]
                0 <= j < i ==> (entries_view(x@)[j].0 == entries_view(y@)[j].0 && node_eq(
                    fmt,
                    entries_view(x@)[j].1,
                    entries_view(y@)[j].1,
                )),
        decreases x.len() - i,
    {
        let same_key = x[i].0 == y[i].0;
        if !same_key {
            assert(entries_view(x@)[i as int].0 != entries_view(y@)[i as int].0);
            return false;
        }
        if !node_equal(fmt, &x[i].1, &y[i].1) {
            assert(!node_eq(fmt, entries_view(x@)[i as int].1, entries_view(y@)[i as int].1));
            return false;
        }
        assert(entries_view(x@)[i as int].0 == entries_view(y@)[i as int].0);
        assert(node_eq(fmt, entries_view(x@)[i as int].1, entries_view(y@)[i as int].1));
        i += 1;
    }
    true
}

fn entries_equal_as_maps(fmt: Format, x: &Vec<(String, Node)>, y: &Vec<(String, Node)>) -> (r: bool)
    ensures
        r == (entries_view(x@).len() == entries_view(y@).len() && forall|i: int|
            0 <= i < entries_view(x@).len() ==> match key_pos(entries_view(y@), #[trigger] entries_view(x@)[i].0) {
                Some(j) => node_eq(fmt, entries_view(x@)[i].1, entries_view(y@)[j].1),
                None => false,
            }),
    decreases x,
{
    if x.len() != y.len() {
        return false;
    }
    let mut i: usize = 0;
    while i < x.len()
        invariant
            i <= x.len(),
            x.len() == y.len(),
            forall|j: int|
                0 <= j < i ==> match key_pos(entries_view(y@), #[trigger] entries_view(x@)[j].0) {
                    Some(m) => node_eq(fmt, entries_view(x@)[j].1, entries_view(y@)[m].1),
                    None => false,
                },
        decreases x.len() - i,
    {
        proof {
            lemma_key_pos(entries_view(y@), entries_view(x@)[i as int].0);
        }
        match key_index(y, x[i].0.as_str()) {
            None => {
                assert(key_pos(entries_view(y@), entries_view(x@)[i as int].0) is None);
                return false;
            },
            Some(m) => {
                if !node_equal(fmt, &x[i].1, &y[m].1) {
                    assert(!node_eq(fmt, entries_view(x@)[i as int].1, entries_view(y@)[m as int].1));
                    return false;
                }
            },
        }
        i += 1;
    }
    true
}


/// A value of a check definition can be written into a document of the format:
/// JSON holds only finite numbers.
pub open spec fn convertible(fmt: Format, v: NodeV) -> bool
    decreases v,
{
    if fmt == Format::Json {
        match v {
            NodeV::Float(b) => is_finite(b),
            NodeV::Array(items) => forall|i: int| 0 <= i < items.len() ==> convertible(fmt, #[trigger] items[i]),
            NodeV::TableArray(items) => forall|i: int|
                0 <= i < items.len() ==> convertible(fmt, #[trigger] items[i]),
            NodeV::Table(es, _) => forall|i: int| 0 <= i < es.len() ==> convertible(fmt, #[trigger] es[i].1),
            _ => true,
        }
    } else {
        true
    }
}

/// A value of a check definition (a TOML value) as a value of a document of
/// the format: TOML keeps it as it is; JSON and YAML write a date-time as a
/// string, every table as a plain table and an array of tables as an array.
pub open spec fn convert(fmt: Format, v: NodeV) -> NodeV
    decreases v,
{
    if fmt == Format::Toml {
        v
    } else {
        match v {
            NodeV::Datetime(s) => NodeV::Str(s),
            NodeV::Array(items) => NodeV::Array(convert_seq(fmt, items)),
            NodeV::TableArray(items) => NodeV::Array(convert_seq(fmt, items)),
            NodeV::Table(es, _) => NodeV::Table(convert_entries_seq(fmt, es), false),
            _ => v,
        }
    }
}

/// The values converted one by one.
pub open spec fn convert_seq(fmt: Format, items: Seq<NodeV>) -> Seq<NodeV>
    decreases items,
{
    Seq::new(items.len(), |i: int| if 0 <= i < items.len() { convert(fmt, items[i]) } else { NodeV::Null })
}

/// The entries with their values converted one by one.
pub open spec fn convert_entries_seq(fmt: Format, es: Seq<(Seq<char>, NodeV)>) -> Seq<(Seq<char>, NodeV)>
    decreases es,
{
    Seq::new(
        es.len(),
        |i: int| if 0 <= i < es.len() { (es[i].0, convert(fmt, es[i].1)) } else { (Seq::empty(), NodeV::Null) },
    )
}

/// A value of a check definition as a value of a document (see `convert`).
pub fn convert_node(fmt: Format, v: &Node) -> (r: Node)
    requires
        convertible(fmt, v@),
    ensures
        r@ == convert(fmt, v@),
    decreases v,
{
    if fmt == Format::Toml {
        return clone_node(v);
    }
    match v {
        Node::Datetime(s) => Node::Str(s.clone()),
        Node::Array(items) => Node::Array(convert_nodes(fmt, items)),
        Node::TableArray(items) => Node::Array(convert_nodes(fmt, items)),
        Node::Table(es, _) => Node::Table(convert_entries(fmt, es), false),
        Node::Str(s) => Node::Str(s.clone()),
        Node::Int(i) => Node::Int(*i),
        Node::Float(b) => Node::Float(*b),
        Node::Bool(b) => Node::Bool(*b),
        Node::Null => Node::Null,
    }
}

fn convert_nodes(fmt: Format, items: &Vec<Node>) -> (r: Vec<Node>)
    requires
        fmt != Format::Toml,
        forall|j: int| 0 <= j < items.len() ==> convertible(fmt, #[trigger] nodes_view(items@)[j]),
    ensures
        nodes_view(r@) == convert_seq(fmt, nodes_view(items@)),
    decreases items,
{
    let mut out: Vec<Node> = Vec::new();
    let mut i: usize = 0;
    while i < items.len()
        invariant
            i <= items.len(),
            fmt != Format::Toml,
            forall|j: int| 0 <= j < items.len() ==> convertible(fmt, #[trigger] nodes_view(items@)[j]),
            nodes_view(out@) =~= convert_seq(fmt, nodes_view(items@)).take(i as int),
        decreases items.len() - i,
    {
        assert(convertible(fmt, nodes_view(items@)[i as int]));
        let c = convert_node(fmt, &items[i]);
        proof {
            lemma_nodes_view_push(out@, c);
        }
        out.push(c);
        i += 1;
    }
    assert(convert_seq(fmt, nodes_view(items@)).take(items.len() as int) =~= convert_seq(fmt, nodes_view(items@)));
    out
}

fn convert_entries(fmt: Format, es: &Vec<(String, Node)>) -> (r: Vec<(String, Node)>)
    requires
        fmt != Format::Toml,
        forall|j: int| 0 <= j < es.len() ==> convertible(fmt, #[trigger] entries_view(es@)[j].1),
    ensures
        entries_view(r@) == convert_entries_seq(fmt, entries_view(es@)),
    decreases es,
{
    let mut out: Vec<(String, Node)> = Vec::new();
    let mut i: usize = 0;
    while i < es.len()
        invariant
            i <= es.len(),
            fmt != Format::Toml,
            forall|j: int| 0 <= j < es.len() ==> convertible(fmt, #[trigger] entries_view(es@)[j].1),
            entries_view(out@) =~= convert_entries_seq(fmt, entries_view(es@)).take(i as int),
        decreases es.len() - i,
    {
        assert(convertible(fmt, entries_view(es@)[i as int].1));
        let c = convert_node(fmt, &es[i].1);
        let k = es[i].0.clone();
        proof {
            lemma_entries_view_push(out@, (k, c));
        }
        out.push((k, c));
        i += 1;
    }
    assert(convert_entries_seq(fmt, entries_view(es@)).take(es.len() as int) =~= convert_entries_seq(fmt, entries_view(es@)));
    out
}


/// The first position of a key is the one that no earlier entry has.
pub proof fn lemma_key_pos_at(es: Seq<(Seq<char>, NodeV)>, k: Seq<char>, i: int)
    requires
        0 <= i < es.len(),
        es[i].0 == k,
        forall|j: int| 0 <= j < i ==> es[j].0 != k,
    ensures
        key_pos(es, k) == Some(i),
    decreases i,
{
    if i > 0 {
        assert(es[0].0 != k);
        assert forall|j: int| 0 <= j < i - 1 implies es.skip(1)[j].0 != k by {
            assert(es.skip(1)[j] == es[j + 1]);
        }
        lemma_key_pos_at(es.skip(1), k, i - 1);
    }
}

/// The first position of a key that no entry has is none.
pub proof fn lemma_key_pos_none(es: Seq<(Seq<char>, NodeV)>, k: Seq<char>)
    requires
        forall|j: int| 0 <= j < es.len() ==> es[j].0 != k,
    ensures
        key_pos(es, k) is None,
    decreases es.len(),
{
    if es.len() > 0 {
        assert(es[0].0 != k);
        assert forall|j: int| 0 <= j < es.len() - 1 implies es.skip(1)[j].0 != k by {
            assert(es.skip(1)[j] == es[j + 1]);
        }
        lemma_key_pos_none(es.skip(1), k);
    }
}

/// A key that was set reads back as the value it was set to.
pub proof fn lemma_get_after_set(es: Seq<(Seq<char>, NodeV)>, k: Seq<char>, v: NodeV)
    ensures
        get_value(set_value(es, k, v), k) == Some(v),
{
    lemma_key_pos(es, k);
    let t = set_value(es, k, v);
    match key_pos(es, k) {
        Some(i) => {
            lemma_key_pos_at(t, k, i);
        },
        None => {
            lemma_key_pos_at(t, k, es.len() as int);
        },
    }
}

/// Setting a key to the value it holds changes nothing.
pub proof fn lemma_set_same(es: Seq<(Seq<char>, NodeV)>, k: Seq<char>, v: NodeV)
    requires
        get_value(es, k) == Some(v),
    ensures
        set_value(es, k, v) == es,
{
    lemma_key_pos(es, k);
    let i = key_pos(es, k)->Some_0;
    assert(es[i] == (k, v));
    assert(es.update(i, (k, v)) =~= es);
}

/// Setting one key leaves the value of another key as it was.
pub proof fn lemma_get_other_after_set(es: Seq<(Seq<char>, NodeV)>, k: Seq<char>, v: NodeV, other: Seq<char>)
    requires
        other != k,
    ensures
        get_value(set_value(es, k, v), other) == get_value(es, other),
{
    lemma_key_pos(es, k);
    lemma_key_pos(es, other);
    let t = set_value(es, k, v);
    match key_pos(es, other) {
        Some(i) => {
            lemma_key_pos_at(t, other, i);
        },
        None => {
            assert forall|j: int| 0 <= j < t.len() implies t[j].0 != other by {}
            lemma_key_pos_none(t, other);
        },
    }
}

} // verus!
