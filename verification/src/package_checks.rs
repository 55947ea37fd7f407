//! The checks that a package is installed or not: how a package is read from
//! the table of a check, and what such a check decides once it is known
//! whether the package is installed.
use vstd::prelude::*;

use crate::base::{outcome, CheckDefinitionError, CheckError, CheckResult};
use crate::checkdef::{
    get_option_string_value_from_checktable, get_string_value_from_checktable, refused, table_item,
    CheckTable,
};
use crate::checks::GenericChecker;
use crate::external::{lowercase_of, to_lowercase};
use crate::fs_checks::{option_string_def, string_def};
use crate::node::{Node, NodeV};
use crate::package::{CustomInstaller, Package, PackageType};
use crate::text::{concat, opt_view};

verus! {

impl PackageType {
    /// The text the package is shown with: its kind and its name.
    pub open spec fn spec_display(&self) -> Seq<char> {
        match self {
            PackageType::Python(p) => "python: "@ + p.name@,
            PackageType::Rust(p) => "crate: "@ + p.name@,
            PackageType::GithubRelease(p) => "github: "@ + p.name@,
            PackageType::GitlabRelease(p) => "gitlab: "@ + p.name@,
            PackageType::Custom(c) => "command: "@ + c.name@,
        }
    }

    /// The text the package is shown with (see `spec_display`).
    pub fn display(&self) -> (r: String)
        ensures
            r@ == self.spec_display(),
    {
        match self {
            PackageType::Python(p) => concat("python: ", p.name.as_str()),
            PackageType::Rust(p) => concat("crate: ", p.name.as_str()),
            PackageType::GithubRelease(p) => concat("github: ", p.name.as_str()),
            PackageType::GitlabRelease(p) => concat("gitlab: ", p.name.as_str()),
            PackageType::Custom(c) => concat("command: ", c.name.as_str()),
        }
    }
}

/// The name of a package in a check: refused when `package` is missing or no
/// string.
pub open spec fn package_name_def(table: CheckTable) -> Result<Seq<char>, Seq<char>> {
    match table.item("package"@) {
        None => Err("No package present"@),
        Some(NodeV::Str(s)) => Ok(s),
        Some(_) => Err("package is not a string"@),
    }
}

/// The optional version of a package in a check: refused when it is no
/// string.
pub open spec fn package_version_def(table: CheckTable) -> Result<Option<Seq<char>>, Seq<char>> {
    match table.item("version"@) {
        None => Ok(None),
        Some(NodeV::Str(s)) => Ok(Some(s)),
        Some(_) => Err("version is not a string"@),
    }
}

/// A package read for a check, with its fields as texts.
pub open spec fn package_is(p: Package, name: Seq<char>, version: Option<Seq<char>>) -> bool {
    p.name@ == name && opt_view(p.version) == version && p.bins@.len() == 0
}

/// What reading the package of a check gives: its `type`, lower-cased, is
/// `custom` (with `package`, `install_command`, `uninstall_command`,
/// `version_command` and `version`), `python` or `rust` (with `package` and
/// an optional `version`); refused otherwise, and when a field is missing or
/// of the wrong kind.
pub open spec fn reads_package(table: CheckTable, r: Result<PackageType, CheckDefinitionError>) -> bool {
    match table.item("type"@) {
        None => refused(r, "No type present"@),
        Some(NodeV::Str(t)) => {
            let kind = lowercase_of(t);
            if kind == "custom"@ {
                match string_def(table, "package"@) {
                    Err(m) => refused(r, m),
                    Ok(name) => match option_string_def(table, "install_command"@) {
                        Err(m) => refused(r, m),
                        Ok(install) => match option_string_def(table, "uninstall_command"@) {
                            Err(m) => refused(r, m),
                            Ok(uninstall) => match string_def(table, "version_command"@) {
                                Err(m) => refused(r, m),
                                Ok(version_command) => match string_def(table, "version"@) {
                                    Err(m) => refused(r, m),
                                    Ok(version) => r matches Ok(PackageType::Custom(c)) && c.name@ == name
                                        && opt_view(c.install_command) == install && opt_view(
                                        c.uninstall_command,
                                    ) == uninstall && c.version_command@ == version_command
                                        && c.version@ == version,
                                },
                            },
                        },
                    },
                }
            } else {
                match package_name_def(table) {
                    Err(m) => refused(r, m),
                    Ok(name) => match package_version_def(table) {
                        Err(m) => refused(r, m),
                        Ok(version) => if kind == "python"@ {
                            r matches Ok(PackageType::Python(p)) && package_is(p, name, version)
                        } else if kind == "rust"@ {
                            r matches Ok(PackageType::Rust(p)) && package_is(p, name, version)
                        } else {
                            refused(r, "unknown package_type "@ + kind)
                        },
                    },
                }
            }
        },
        Some(_) => refused(r, "type is not a string"@),
    }
}

fn refuse<T>(message: &str) -> (r: Result<T, CheckDefinitionError>)
    ensures
        refused(r, message@),
{
    Err(CheckDefinitionError::InvalidDefinition(String::from_str(message)))
}

/// Reads the package of a check (see `reads_package`).
pub fn read_package_from_check_table(table: &CheckTable) -> (r: Result<PackageType, CheckDefinitionError>)
    ensures
        reads_package(*table, r),
{
    proof {
        reveal_strlit("custom");
        reveal_strlit("python");
        reveal_strlit("rust");
    }
    let kind = match table_item(table, "type") {
        None => {
            return refuse("No type present");
        },
        Some(Node::Str(t)) => to_lowercase(t.as_str()),
        Some(_) => {
            return refuse("type is not a string");
        },
    };
    if kind == String::from_str("custom") {
        let name = match get_string_value_from_checktable(table, "package") {
            Ok(x) => x,
            Err(e) => {
                return Err(e);
            },
        };
        let install_command = match get_option_string_value_from_checktable(table, "install_command") {
            Ok(x) => x,
            Err(e) => {
                return Err(e);
            },
        };
        let uninstall_command = match get_option_string_value_from_checktable(table, "uninstall_command") {
            Ok(x) => x,
            Err(e) => {
                return Err(e);
            },
        };
        let version_command = match get_string_value_from_checktable(table, "version_command") {
            Ok(x) => x,
            Err(e) => {
                return Err(e);
            },
        };
        let version = match get_string_value_from_checktable(table, "version") {
            Ok(x) => x,
            Err(e) => {
                return Err(e);
            },
        };
        return Ok(
            PackageType::Custom(CustomInstaller { name, install_command, version_command, uninstall_command, version }),
        );
    }
    let name = match table_item(table, "package") {
        None => {
            return refuse("No package present");
        },
        Some(Node::Str(s)) => s.clone(),
        Some(_) => {
            return refuse("package is not a string");
        },
    };
    let version = match table_item(table, "version") {
        None => None,
        Some(Node::Str(s)) => Some(s.clone()),
        Some(_) => {
            return refuse("version is not a string");
        },
    };
    let package = Package { name, version, bins: Vec::new() };
    if kind == String::from_str("python") {
        Ok(PackageType::Python(package))
    } else if kind == String::from_str("rust") {
        Ok(PackageType::Rust(package))
    } else {
        Err(CheckDefinitionError::InvalidDefinition(concat("unknown package_type ", kind.as_str())))
    }
}

/// A check that a package is installed.
pub struct PackagePresent {
    pub generic_check: GenericChecker,
    pub package: PackageType,
}

/// A check that a package is not installed.
pub struct PackageAbsent {
    pub generic_check: GenericChecker,
    pub package: PackageType,
}

impl PackagePresent {
    /// Reads a `package_present` check (see `reads_package`).
    pub fn from_check_table(generic_check: GenericChecker, table: &CheckTable) -> (r: Result<
        PackagePresent,
        CheckDefinitionError,
    >)
        ensures
            reads_package(
                *table,
                match r {
                    Ok(c) => Ok(c.package),
                    Err(e) => Err(e),
                },
            ),
            r matches Ok(c) ==> c.generic_check == generic_check,
    {
        match read_package_from_check_table(table) {
            Ok(package) => Ok(PackagePresent { generic_check, package }),
            Err(e) => Err(e),
        }
    }

    /// What the check finds and asks for, given whether the package is
    /// installed and whether it can be upgraded (or why that could not be
    /// found out, the first error first): `install package {package}` when it
    /// is not installed, and then whether to install it.
    pub fn plan(&self, installed: Result<bool, CheckError>, upgradable: Result<bool, CheckError>, fix: bool) -> (r:
        Result<(CheckResult, bool), CheckError>)
        ensures
            match (installed, upgradable) {
                (Err(e), _) => r == Err::<(CheckResult, bool), CheckError>(e),
                (Ok(_), Err(e)) => r == Err::<(CheckResult, bool), CheckError>(e),
                (Ok(i), Ok(_)) => r matches Ok((res, act)) && res@ == outcome(
                    !i,
                    fix,
                    "install package "@ + self.package.spec_display(),
                ) && act == (!i && fix),
            },
    {
        let to_install = match installed {
            Ok(i) => !i,
            Err(e) => {
                return Err(e);
            },
        };
        match upgradable {
            Ok(_) => {},
            Err(e) => {
                return Err(e);
            },
        }
        let shown = self.package.display();
        let message = concat("install package ", shown.as_str());
        Ok((crate::base::make_outcome(to_install, fix, message), to_install && fix))
    }
}

impl PackageAbsent {
    /// Reads a `package_absent` check (see `reads_package`).
    pub fn from_check_table(generic_check: GenericChecker, table: &CheckTable) -> (r: Result<
        PackageAbsent,
        CheckDefinitionError,
    >)
        ensures
            reads_package(
                *table,
                match r {
                    Ok(c) => Ok(c.package),
                    Err(e) => Err(e),
                },
            ),
            r matches Ok(c) ==> c.generic_check == generic_check,
    {
        match read_package_from_check_table(table) {
            Ok(package) => Ok(PackageAbsent { generic_check, package }),
            Err(e) => Err(e),
        }
    }

    /// What the check finds and asks for, given whether the package is
    /// installed (or why that could not be found out): `uninstall package
    /// {package}` when it is, and then whether to uninstall it.
    pub fn plan(&self, installed: Result<bool, CheckError>, fix: bool) -> (r: Result<(CheckResult, bool), CheckError>)
        ensures
            match installed {
                Err(e) => r == Err::<(CheckResult, bool), CheckError>(e),
                Ok(i) => r matches Ok((res, act)) && res@ == outcome(
                    i,
                    fix,
                    "uninstall package "@ + self.package.spec_display(),
                ) && act == (i && fix),
            },
    {
        let to_uninstall = match installed {
            Ok(i) => i,
            Err(e) => {
                return Err(e);
            },
        };
        let shown = self.package.display();
        let message = concat("uninstall package ", shown.as_str());
        Ok((crate::base::make_outcome(to_uninstall, fix, message), to_uninstall && fix))
    }
}

} // verus!
