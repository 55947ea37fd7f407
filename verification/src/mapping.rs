//! A table of a document and an array of a document, with the accessors that
//! the checkers use: reading a string, reaching (and creating) a nested table
//! or array, and setting or removing a key or an item.
use vstd::prelude::*;

use crate::entries::{
    array_child, array_insert, array_remove, can_hold, holds, is_value, mapping_child, remove_entry,
    set_entry, Entries,
};
use crate::node::{
    clone_entries, clone_nodes, convert, convert_node, convertible, entries_view, get_value,
    key_index, nodes_view, remove_key, set_value, Format, Node, NodeV,
};
use crate::text::concat;

verus! {

/// Why a key could not be read.
#[derive(PartialEq, Clone, Debug)]
pub enum MappingError {
    MissingKey(String),
    WrongType(String),
}

/// A table of a document of some format: its entries in order, and whether it
/// is written inline.
pub struct Mapping {
    pub format: Format,
    pub entries: Vec<(String, Node)>,
    pub inline: bool,
}

/// An array of a document of some format.
pub struct Array {
    pub format: Format,
    pub items: Vec<Node>,
}

impl Mapping {
    /// The entries as key texts and values.
    pub open spec fn view_entries(&self) -> Entries {
        entries_view(self.entries@)
    }

    /// The key is in the table.
    pub fn contains_key(&self, key: &str) -> (r: bool)
        ensures
            r == (get_value(self.view_entries(), key@) is Some),
    {
        key_index(&self.entries, key).is_some()
    }

    /// The string at the key: `MissingKey` when the key is missing, `WrongType`
    /// (`{key} is not a string`) when it holds something else.
    pub fn get_string(&self, key: &str) -> (r: Result<String, MappingError>)
        ensures
            match get_value(self.view_entries(), key@) {
                None => r matches Err(MappingError::MissingKey(k)) && k@ == key@,
                Some(NodeV::Str(s)) => r matches Ok(x) && x@ == s,
                Some(_) => r matches Err(MappingError::WrongType(m)) && m@ == key@ + " is not a string"@,
            },
    {
        match key_index(&self.entries, key) {
            None => Err(MappingError::MissingKey(String::from_str(key))),
            Some(i) => match &self.entries[i].1 {
                Node::Str(s) => Ok(s.clone()),
                _ => Err(MappingError::WrongType(concat(key, " is not a string"))),
            },
        }
    }

    /// The table at the key. A missing key is `MissingKey`, unless
    /// `create_missing` is set: then an empty table is added at the key (inline
    /// when this TOML table is inline). A key that holds something else than a
    /// table (or, in an inline TOML table, than an inline table) is `WrongType`
    /// (`{key} is not a mapping`). Gives a copy of the table; `set_mapping`
    /// writes a changed one back.
    pub fn get_mapping(&mut self, key: &str, create_missing: bool) -> (r: Result<
        Mapping,
        MappingError,
    >)
        ensures
            final(self).format == old(self).format,
            final(self).inline == old(self).inline,
            get_value(old(self).view_entries(), key@) is None && !create_missing ==> (r matches Err(
                MappingError::MissingKey(k),
            ) && k@ == key@ && final(self).view_entries() == old(self).view_entries()),
            !(get_value(old(self).view_entries(), key@) is None && !create_missing) ==> match mapping_child(
                old(self).format,
                old(self).view_entries(),
                old(self).inline,
                key@,
            ) {
                None => r matches Err(MappingError::WrongType(m)) && m@ == key@ + " is not a mapping"@
                    && final(self).view_entries() == old(self).view_entries(),
                Some((c, ci)) => r matches Ok(child) && child.view_entries() == c && child.inline == ci
                    && child.format == old(self).format && final(self).view_entries() == (if get_value(
                    old(self).view_entries(),
                    key@,
                ) is None {
                    set_value(old(self).view_entries(), key@, NodeV::Table(Seq::empty(), ci))
                } else {
                    old(self).view_entries()
                }),
            },
    {
        let fmt = self.format;
        match key_index(&self.entries, key) {
            None => {
                if !create_missing {
                    return Err(MappingError::MissingKey(String::from_str(key)));
                }
                let ci = fmt == Format::Toml && self.inline;
                let empty: Vec<(String, Node)> = Vec::new();
                assert(entries_view(empty@) =~= Seq::empty());
                set_entry(&mut self.entries, key, Node::Table(empty, ci));
                let fresh: Vec<(String, Node)> = Vec::new();
                assert(entries_view(fresh@) =~= Seq::empty());
                Ok(Mapping { format: fmt, entries: fresh, inline: ci })
            },
            Some(i) => match &self.entries[i].1 {
                Node::Table(c, ci) => {
                    if fmt == Format::Toml && self.inline && !*ci {
                        Err(MappingError::WrongType(concat(key, " is not a mapping")))
                    } else {
                        Ok(Mapping { format: fmt, entries: clone_entries(c), inline: *ci })
                    }
                },
                _ => Err(MappingError::WrongType(concat(key, " is not a mapping"))),
            },
        }
    }

    /// Writes a table back at the key.
    pub fn set_mapping(&mut self, key: &str, child: Mapping)
        ensures
            final(self).format == old(self).format,
            final(self).inline == old(self).inline,
            final(self).view_entries() == set_value(
                old(self).view_entries(),
                key@,
                NodeV::Table(child.view_entries(), child.inline),
            ),
    {
        set_entry(&mut self.entries, key, Node::Table(child.entries, child.inline));
    }

    /// The array at the key. A missing key is `MissingKey`, unless
    /// `create_missing` is set: then an empty array is added at the key. A key
    /// that holds something else is `WrongType` (`` `{key}` is not an array ``
    /// in TOML, `{key} is not an array` otherwise). Gives a copy of the array;
    /// `set_array` writes a changed one back.
    pub fn get_array(&mut self, key: &str, create_missing: bool) -> (r: Result<Array, MappingError>)
        ensures
            final(self).format == old(self).format,
            final(self).inline == old(self).inline,
            get_value(old(self).view_entries(), key@) is None && !create_missing ==> (r matches Err(
                MappingError::MissingKey(k),
            ) && k@ == key@ && final(self).view_entries() == old(self).view_entries()),
            !(get_value(old(self).view_entries(), key@) is None && !create_missing) ==> match array_child(
                old(self).view_entries(),
                key@,
            ) {
                None => r matches Err(MappingError::WrongType(m)) && m@ == (if old(self).format
                    == Format::Toml {
                    "`"@ + key@ + "` is not an array"@
                } else {
                    key@ + " is not an array"@
                }) && final(self).view_entries() == old(self).view_entries(),
                Some(a) => r matches Ok(arr) && nodes_view(arr.items@) == a && arr.format == old(
                    self,
                ).format && final(self).view_entries() == (if get_value(
                    old(self).view_entries(),
                    key@,
                ) is None {
                    set_value(old(self).view_entries(), key@, NodeV::Array(Seq::empty()))
                } else {
                    old(self).view_entries()
                }),
            },
    {
        let fmt = self.format;
        match key_index(&self.entries, key) {
            None => {
                if !create_missing {
                    return Err(MappingError::MissingKey(String::from_str(key)));
                }
                let empty: Vec<Node> = Vec::new();
                assert(nodes_view(empty@) =~= Seq::empty());
                set_entry(&mut self.entries, key, Node::Array(empty));
                let fresh: Vec<Node> = Vec::new();
                assert(nodes_view(fresh@) =~= Seq::empty());
                Ok(Array { format: fmt, items: fresh })
            },
            Some(i) => match &self.entries[i].1 {
                Node::Array(a) => Ok(Array { format: fmt, items: clone_nodes(a) }),
                _ => {
                    if fmt == Format::Toml {
                        let m = concat("`", key);
                        Err(MappingError::WrongType(concat(m.as_str(), "` is not an array")))
                    } else {
                        Err(MappingError::WrongType(concat(key, " is not an array")))
                    }
                },
            },
        }
    }

    /// Writes an array back at the key.
    pub fn set_array(&mut self, key: &str, arr: Array)
        ensures
            final(self).format == old(self).format,
            final(self).inline == old(self).inline,
            final(self).view_entries() == set_value(
                old(self).view_entries(),
                key@,
                NodeV::Array(nodes_view(arr.items@)),
            ),
    {
        set_entry(&mut self.entries, key, Node::Array(arr.items));
    }

    /// Sets the key to the value, as the format writes it (see `convert`). An
    /// inline TOML table holds values only, and JSON finite numbers only.
    pub fn insert(&mut self, key: &str, value: &Node)
        requires
            old(self).format == Format::Toml && old(self).inline ==> is_value(value@),
            convertible(old(self).format, value@),
        ensures
            final(self).format == old(self).format,
            final(self).inline == old(self).inline,
            final(self).view_entries() == set_value(
                old(self).view_entries(),
                key@,
                convert(old(self).format, value@),
            ),
    {
        let c = convert_node(self.format, value);
        set_entry(&mut self.entries, key, c);
    }

    /// Removes the key, when it is there (see `remove_key`).
    pub fn remove(&mut self, key: &str)
        ensures
            final(self).format == old(self).format,
            final(self).inline == old(self).inline,
            final(self).view_entries() == remove_key(old(self).format, old(self).view_entries(), key@),
    {
        let fmt = self.format;
        remove_entry(fmt, &mut self.entries, key);
    }
}

impl Array {
    /// Adds the value at the end unless an equal item is in the array (see
    /// `array_insert`).
    pub fn insert_when_not_present(&mut self, value: &Node)
        requires
            can_hold(old(self).format, value@),
        ensures
            final(self).format == old(self).format,
            array_insert(old(self).format, nodes_view(old(self).items@), value@) == Some(
                nodes_view(final(self).items@),
            ),
    {
        let fmt = self.format;
        let c = convert_node(fmt, value);
        match crate::entries::holds_exec(fmt, &self.items, &c) {
            Some(_) => {},
            None => {
                proof {
                    crate::node::lemma_nodes_view_push(self.items@, c);
                }
                self.items.push(c);
            },
        }
    }

    /// Removes the first item equal to the value (see `array_remove`).
    pub fn remove(&mut self, value: &Node)
        requires
            can_hold(old(self).format, value@),
        ensures
            final(self).format == old(self).format,
            array_remove(old(self).format, nodes_view(old(self).items@), value@) == Some(
                nodes_view(final(self).items@),
            ),
    {
        let fmt = self.format;
        let c = convert_node(fmt, value);
        proof {
            crate::entries::lemma_first_equal(fmt, nodes_view(self.items@), c@);
        }
        match crate::entries::holds_exec(fmt, &self.items, &c) {
            Some(j) => {
                proof {
                    let a = nodes_view(self.items@);
                    match crate::entries::first_equal(fmt, a, c@) {
                        Some(f) => {
                            if f < j {
                                assert(!crate::node::node_eq(fmt, a[f], c@));
                            } else if f > j {
                                assert(!crate::node::node_eq(fmt, a[j as int], c@));
                            }
                        },
                        None => {
                            assert(crate::node::node_eq(fmt, a[j as int], c@));
                        },
                    }
                    crate::node::lemma_nodes_view_remove(self.items@, j as int);
                }
                self.items.remove(j);
            },
            None => {},
        }
    }

    /// The array holds an item equal to the value.
    pub fn contains_item(&self, value: &Node) -> (r: bool)
        requires
            can_hold(self.format, value@),
        ensures
            r == holds(self.format, nodes_view(self.items@), convert(self.format, value@)),
    {
        let c = convert_node(self.format, value);
        crate::entries::holds_exec(self.format, &self.items, &c).is_some()
    }
}

} // verus!
