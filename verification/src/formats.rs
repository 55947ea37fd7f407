//! The file types whose documents the checks edit.
use vstd::prelude::*;

use crate::node::Format;

verus! {

/// The JSON file type.
pub struct Json {}

/// The TOML file type.
pub struct Toml {}

/// The YAML file type.
pub struct Yaml {}

impl Json {
    pub fn new() -> (r: Json)
        ensures
            r == (Json {}),
    {
        Json {}
    }

    pub fn format(&self) -> (r: Format)
        ensures
            r == Format::Json,
    {
        Format::Json
    }
}

impl Toml {
    pub fn new() -> (r: Toml)
        ensures
            r == (Toml {}),
    {
        Toml {}
    }

    pub fn format(&self) -> (r: Format)
        ensures
            r == Format::Toml,
    {
        Format::Toml
    }
}

impl Yaml {
    pub fn new() -> (r: Yaml)
        ensures
            r == (Yaml {}),
    {
        Yaml {}
    }

    pub fn format(&self) -> (r: Format)
        ensures
            r == Format::Yaml,
    {
        Format::Yaml
    }
}

} // verus!
