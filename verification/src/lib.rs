//! Declarative checks on configuration files: the rules that decide whether a
//! file is in the wanted state, and what it must become when it is fixed.
pub mod base;
pub mod checkdef;
pub mod checks;
pub mod cli;
pub mod documents;
pub mod edit_laws;
pub mod entries;
pub mod entry_laws;
pub mod external;
pub mod file_check;
pub mod formats;
pub mod laws;
pub mod fs_checks;
pub mod mapping;
pub mod marker_laws;
pub mod node;
pub mod package;
pub mod package_checks;
pub mod registry;
pub mod report;
pub mod text;
pub mod uri;
pub mod utils;
