//! The checks on directories, copies, archives and git clones: how each is
//! read from its table, and what each finds and asks for, given what was found
//! on disk.
use vstd::prelude::*;

use crate::base::{outcome, CheckDefinitionError, CheckError, CheckResult};
use crate::checkdef::{
    get_option_string_value_from_checktable, get_permissions_from_checktable,
    get_string_value_from_checktable, refused, table_item, CheckTable,
};
use crate::checks::GenericChecker;
use crate::external::{path_file_name, path_file_name_of, url_path, url_path_of};
use crate::file_check::{fix_permissions, octal_string, octal_text, permissions_mode};
use crate::node::NodeV;
use crate::text::{concat, ends_with, ends_with_exec, joined, opt_view, to_chars};
use crate::uri::{join_path, joined_path, readable_url, resolved_path, ReadablePath, WritablePath};

verus! {

/// Exactly one of the three holds.
pub fn exactly_one(a: bool, b: bool, c: bool) -> (r: bool)
    ensures
        r == ((a && !b && !c) || (!a && b && !c) || (!a && !b && c)),
{
    let n: u8 = (if a { 1 } else { 0 }) + (if b { 1 } else { 0 }) + (if c { 1 } else { 0 });
    n == 1
}

/// What a check on a directory, a copy, an archive or a clone found and asks
/// for: whether to create or remove the directory, which permissions to set,
/// and whether to copy, unpack, clone or sync.
pub struct DiskPlan {
    pub result: CheckResult,
    pub create: bool,
    pub remove: bool,
    pub permissions: Option<u32>,
    pub copy: bool,
    pub unpack: bool,
    pub clone: bool,
    pub sync: bool,
}

/// A local path given at `key` of a check: refused as the string is, and with
/// `message` when it is not a path.
pub open spec fn path_def(
    table: CheckTable,
    key: Seq<char>,
    message: Seq<char>,
    home: Option<Seq<char>>,
    cwd: Option<Seq<char>>,
) -> Result<Seq<char>, Seq<char>> {
    match table.item(key) {
        None => Err(key + " is not present in check_table"@),
        Some(NodeV::Str(s)) => match resolved_path(s, home, cwd) {
            None => Err(message),
            Some(p) => Ok(p),
        },
        Some(_) => Err(key + " is not a string"@),
    }
}

/// A string at a key of a check: refused when it is missing or not a string.
pub open spec fn string_def(table: CheckTable, key: Seq<char>) -> Result<Seq<char>, Seq<char>> {
    match table.item(key) {
        None => Err(key + " is not present in check_table"@),
        Some(NodeV::Str(s)) => Ok(s),
        Some(_) => Err(key + " is not a string"@),
    }
}

/// An optional string at a key of a check: refused when it is not a string.
pub open spec fn option_string_def(table: CheckTable, key: Seq<char>) -> Result<Option<Seq<char>>, Seq<char>> {
    match table.item(key) {
        None => Ok(None),
        Some(NodeV::Str(s)) => Ok(Some(s)),
        Some(_) => Err(key + " is not a string"@),
    }
}

fn path_from_check_table(
    table: &CheckTable,
    key: &str,
    message: &str,
    home: Option<String>,
    cwd: Option<String>,
) -> (r: Result<WritablePath, CheckDefinitionError>)
    ensures
        match path_def(*table, key@, message@, opt_view(home), opt_view(cwd)) {
            Err(m) => refused(r, m),
            Ok(p) => r matches Ok(w) && w.path@ == p,
        },
{
    let s = match get_string_value_from_checktable(table, key) {
        Ok(s) => s,
        Err(e) => {
            return Err(e);
        },
    };
    match WritablePath::resolve(s.as_str(), home, cwd) {
        Ok(w) => Ok(w),
        Err(_) => Err(CheckDefinitionError::InvalidDefinition(String::from_str(message))),
    }
}

/// A check that a directory exists, with the wanted permissions.
pub struct DirPresent {
    pub generic_check: GenericChecker,
    pub dir: WritablePath,
    pub permissions: Option<u32>,
}

impl DirPresent {
    /// What reading a check of this kind from its table gives (see
    /// `from_check_table`).
    pub open spec fn read_from(
        table: CheckTable,
        checks_file: Seq<char>,
        home: Option<Seq<char>>,
        cwd: Option<Seq<char>>,
        r: Result<Self, CheckDefinitionError>,
    ) -> bool {
        match path_def(table, "dir"@, "invalid destination path"@, home, cwd) {
            Err(m) => refused(r, m),
            Ok(p) => match table.item("permissions"@) {
                None => r matches Ok(c) && c.dir.path@ == p && c.permissions is None,
                Some(NodeV::Str(x)) => match permissions_mode(x) {
                    Ok(m) => r matches Ok(c) && c.dir.path@ == p && c.permissions == Some(m),
                    Err(e) => refused(r, e),
                },
                Some(_) => refused(r, "permissions"@ + " is not a string"@),
            },
        }
    }

    /// Reads a `dir_present` check: the path `dir` and the permissions.
    pub fn from_check_table(
        generic_check: GenericChecker,
        table: &CheckTable,
        home: Option<String>,
        cwd: Option<String>,
    ) -> (r: Result<DirPresent, CheckDefinitionError>)
        ensures
            Self::read_from(*table, generic_check.file_with_checks@, opt_view(home), opt_view(cwd), r),
            r matches Ok(c) ==> c.generic_check == generic_check,
    {
        let dir = match path_from_check_table(table, "dir", "invalid destination path", home, cwd) {
            Ok(d) => d,
            Err(e) => {
                return Err(e);
            },
        };
        match get_permissions_from_checktable(table) {
            Ok(permissions) => Ok(DirPresent { generic_check, dir, permissions }),
            Err(e) => Err(e),
        }
    }

    /// What the check finds and asks for, given whether the directory exists
    /// and its mode (see `plan`).
    pub open spec fn plan_meets(&self, present: bool, current: Option<u32>, fix: bool, r: Result<
        DiskPlan,
        CheckError,
    >) -> bool {
        &&& (self.permissions is Some && present && current is None) <==> r == Err::<DiskPlan, CheckError>(
            CheckError::PermissionsNotAccessable,
        )
        &&& !(self.permissions is Some && present && current is None) ==> r is Ok
        &&& r matches Ok(plan) ==> {
            let perms = fix_permissions(present, self.permissions, current);
            let a: Seq<Seq<char>> = if !present { seq!["create dir"@] } else { Seq::empty() };
            let msgs = if perms {
                a.push("fix permissions to "@ + octal_text(self.permissions->Some_0 as nat))
            } else {
                a
            };
            let needed = !present || perms;
            &&& plan.result@ == outcome(needed, fix, joined(msgs, "\n"@))
            &&& plan.create == (needed && fix)
            &&& plan.permissions == (if needed && fix && perms { self.permissions } else { None })
            &&& !plan.remove && !plan.copy && !plan.unpack && !plan.clone && !plan.sync
        }
    }

    /// What the check finds and asks for, given whether the directory exists
    /// and its mode (`None` when it could not be read): `create dir` when it is
    /// missing and `fix permissions to {mode}` when the permissions must be
    /// fixed (see `fix_permissions`). The mode of an existing directory must be
    /// readable when permissions are wanted.
    pub fn plan(&self, present: bool, current: Option<u32>, fix: bool) -> (r: Result<DiskPlan, CheckError>)
        ensures
            self.plan_meets(present, current, fix, r),
    {
        if self.permissions.is_some() && present && current.is_none() {
            return Err(CheckError::PermissionsNotAccessable);
        }
        let mut messages: Vec<String> = Vec::new();
        if !present {
            messages.push(String::from_str("create dir"));
        }
        let perms = match self.permissions {
            None => false,
            Some(p) => if !present {
                true
            } else {
                match current {
                    Some(m) => (m & 0o777) != (p & 0o777),
                    None => false,
                }
            },
        };
        if perms {
            let p = self.permissions.unwrap();
            messages.push(concat("fix permissions to ", octal_string(p).as_str()));
        }
        proof {
            reveal_strlit("create dir");
            let a: Seq<Seq<char>> = if !present { seq!["create dir"@] } else { Seq::empty() };
            let msgs = if perms {
                a.push("fix permissions to "@ + octal_text(self.permissions->Some_0 as nat))
            } else {
                a
            };
            assert(messages@.map_values(|s: String| s@) =~= msgs);
        }
        let message = crate::text::join(&messages, "\n");
        let needed = !present || perms;
        let result = crate::base::make_outcome(needed, fix, message);
        Ok(DiskPlan {
            result,
            create: needed && fix,
            remove: false,
            permissions: if needed && fix && perms { self.permissions } else { None },
            copy: false,
            unpack: false,
            clone: false,
            sync: false,
        })
    }
}

/// A check that a directory does not exist.
pub struct DirAbsent {
    pub generic_check: GenericChecker,
    pub dir: WritablePath,
}

impl DirAbsent {
    /// What reading a check of this kind from its table gives (see
    /// `from_check_table`).
    pub open spec fn read_from(
        table: CheckTable,
        checks_file: Seq<char>,
        home: Option<Seq<char>>,
        cwd: Option<Seq<char>>,
        r: Result<Self, CheckDefinitionError>,
    ) -> bool {
        match path_def(table, "dir"@, "invalid destination path"@, home, cwd) {
            Err(m) => refused(r, m),
            Ok(p) => r matches Ok(c) && c.dir.path@ == p,
        }
    }

    /// Reads a `dir_absent` check: the path `dir`.
    pub fn from_check_table(
        generic_check: GenericChecker,
        table: &CheckTable,
        home: Option<String>,
        cwd: Option<String>,
    ) -> (r: Result<DirAbsent, CheckDefinitionError>)
        ensures
            Self::read_from(*table, generic_check.file_with_checks@, opt_view(home), opt_view(cwd), r),
            r matches Ok(c) ==> c.generic_check == generic_check,
    {
        match path_from_check_table(table, "dir", "invalid destination path", home, cwd) {
            Ok(dir) => Ok(DirAbsent { generic_check, dir }),
            Err(e) => Err(e),
        }
    }

    /// What the check finds and asks for: the directory removed when it
    /// exists.
    pub fn plan(&self, present: bool, fix: bool) -> (r: DiskPlan)
        ensures
            r.result@ == outcome(present, fix, "remove dir"@),
            r.remove == (present && fix),
            !r.create && r.permissions is None && !r.copy && !r.unpack && !r.clone && !r.sync,
    {
        let result = crate::base::make_outcome(present, fix, String::from_str("remove dir"));
        DiskPlan {
            result,
            create: false,
            remove: present && fix,
            permissions: None,
            copy: false,
            unpack: false,
            clone: false,
            sync: false,
        }
    }
}

/// The plan of a check that copies or unpacks a source that must exist: the
/// error of the lookup of the source, an error when it does not exist, and
/// otherwise the action (with its message) when the destination is missing.
fn source_plan(
    source_exists: Result<bool, String>,
    missing_source: &str,
    dest_present: bool,
    message: &str,
    fix: bool,
) -> (r: Result<(CheckResult, bool), CheckError>)
    ensures
        match source_exists {
            Err(e) => r matches Err(CheckError::String(m)) && m@ == e@,
            Ok(false) => r matches Err(CheckError::String(m)) && m@ == missing_source@,
            Ok(true) => r matches Ok((res, act)) && res@ == outcome(!dest_present, fix, message@)
                && act == (!dest_present && fix),
        },
{
    match source_exists {
        Err(e) => Err(CheckError::String(e)),
        Ok(false) => Err(CheckError::String(String::from_str(missing_source))),
        Ok(true) => {
            let result = crate::base::make_outcome(!dest_present, fix, String::from_str(message));
            Ok((result, !dest_present && fix))
        },
    }
}

/// The name a copied file gets: the last part of the source URL's path.
pub open spec fn copied_name(path: Seq<char>) -> Seq<char> {
    match crate::text::last_index(path, '/') {
        Some(i) => path.skip(i + 1),
        None => path,
    }
}

/// What a `file_copied` check reads: the `source`, resolved against the file
/// of the checks (`invalid source url`), and the `destination`, or else the
/// `destination_dir` joined with the name of the source.
pub open spec fn file_copied_def(
    table: CheckTable,
    checks_file: Seq<char>,
    home: Option<Seq<char>>,
    cwd: Option<Seq<char>>,
) -> Result<(Seq<char>, Seq<char>), Seq<char>> {
    match string_def(table, "source"@) {
        Err(m) => Err(m),
        Ok(s) => match readable_url(s, Some(checks_file), home, cwd) {
            None => Err("invalid source url"@),
            Some(u) => if table.item("destination"@) is Some {
                match path_def(table, "destination"@, "invalid destination path"@, home, cwd) {
                    Err(m) => Err(m),
                    Ok(d) => Ok((u, d)),
                }
            } else {
                match path_def(table, "destination_dir"@, "invalid destination_dir path"@, home, cwd) {
                    Err(m) => Err(m),
                    Ok(d) => Ok((u, joined_path(d, copied_name(url_path_of(u))))),
                }
            },
        },
    }
}

/// A check that a file is copied from a source (a URL or path) to a
/// destination.
pub struct FileCopied {
    pub generic_check: GenericChecker,
    pub source: ReadablePath,
    pub destination: WritablePath,
}

impl FileCopied {
    /// What reading a check of this kind from its table gives (see
    /// `from_check_table`).
    pub open spec fn read_from(
        table: CheckTable,
        checks_file: Seq<char>,
        home: Option<Seq<char>>,
        cwd: Option<Seq<char>>,
        r: Result<Self, CheckDefinitionError>,
    ) -> bool {
        match file_copied_def(
            table,
            checks_file,
            home,
            cwd,
        ) {
            Err(m) => refused(r, m),
            Ok((u, d)) => r matches Ok(c) && c.source.url@ == u && c.destination.path@ == d,
        }
    }

    /// Reads a `file_copied` check (see `file_copied_def`).
    pub fn from_check_table(
        generic_check: GenericChecker,
        table: &CheckTable,
        home: Option<String>,
        cwd: Option<String>,
    ) -> (r: Result<FileCopied, CheckDefinitionError>)
        ensures
            Self::read_from(*table, generic_check.file_with_checks@, opt_view(home), opt_view(cwd), r),
            r matches Ok(c) ==> c.generic_check == generic_check,
    {
        let source_text = match get_string_value_from_checktable(table, "source") {
            Ok(s) => s,
            Err(e) => {
                return Err(e);
            },
        };
        let config = ReadablePath::from_url(generic_check.file_with_checks.clone());
        let source = match ReadablePath::from_string(source_text.as_str(), Some(&config), home.clone(), cwd.clone()) {
            Ok(s) => s,
            Err(_) => {
                return Err(CheckDefinitionError::InvalidDefinition(String::from_str("invalid source url")));
            },
        };
        let destination = if table_item(table, "destination").is_some() {
            match path_from_check_table(table, "destination", "invalid destination path", home, cwd) {
                Ok(d) => d,
                Err(e) => {
                    return Err(e);
                },
            }
        } else {
            let dir = match path_from_check_table(table, "destination_dir", "invalid destination_dir path", home, cwd) {
                Ok(d) => d,
                Err(e) => {
                    return Err(e);
                },
            };
            let path = url_path(source.url.as_str());
            let name = crate::text::after_last(path.as_str(), '/');
            WritablePath::new(join_path(dir.path.as_str(), name.as_str()))
        };
        Ok(FileCopied { generic_check, source, destination })
    }

    /// What the check finds and asks for, given whether the source exists (or
    /// why that could not be found out) and whether the destination exists:
    /// `copy file` when the destination is missing.
    pub fn plan(&self, source_exists: Result<bool, String>, dest_present: bool, fix: bool) -> (r: Result<
        DiskPlan,
        CheckError,
    >)
        ensures
            match source_exists {
                Err(e) => r matches Err(CheckError::String(m)) && m@ == e@,
                Ok(false) => r matches Err(CheckError::String(m)) && m@ == "source file does not exists"@,
                Ok(true) => r matches Ok(p) && p.result@ == outcome(!dest_present, fix, "copy file"@)
                    && p.copy == (!dest_present && fix) && !p.create && !p.remove && p.permissions is None
                    && !p.unpack && !p.clone && !p.sync,
            },
    {
        match source_plan(source_exists, "source file does not exists", dest_present, "copy file", fix) {
            Err(e) => Err(e),
            Ok((result, act)) => Ok(DiskPlan {
                result,
                create: false,
                remove: false,
                permissions: None,
                copy: act,
                unpack: false,
                clone: false,
                sync: false,
            }),
        }
    }
}


/// A check that a directory is copied from a source directory.
pub struct DirCopied {
    pub generic_check: GenericChecker,
    pub source: WritablePath,
    pub destination: WritablePath,
}

impl DirCopied {
    /// What reading a check of this kind from its table gives (see
    /// `from_check_table`).
    pub open spec fn read_from(
        table: CheckTable,
        checks_file: Seq<char>,
        home: Option<Seq<char>>,
        cwd: Option<Seq<char>>,
        r: Result<Self, CheckDefinitionError>,
    ) -> bool {
        match path_def(table, "source"@, "invalid source url"@, home, cwd) {
            Err(m) => refused(r, m),
            Ok(src) => if table.item("destination"@) is Some {
                match path_def(table, "destination"@, "invalid destination path"@, home, cwd) {
                    Err(m) => refused(r, m),
                    Ok(d) => r matches Ok(c) && c.source.path@ == src && c.destination.path@ == d,
                }
            } else {
                match path_def(table, "destination_dir"@, "invalid destination_dir path"@, home, cwd) {
                    Err(m) => refused(r, m),
                    Ok(d) => match path_file_name_of(src) {
                        None => refused(r, "Source has to filename"@),
                        Some(n) => r matches Ok(c) && c.source.path@ == src && c.destination.path@
                            == joined_path(d, n),
                    },
                }
            },
        }
    }

    /// Reads a `dir_copied` check: the `source` path (`invalid source url`),
    /// and the `destination`, or else the `destination_dir` joined with the
    /// name of the source (`Source has to filename` when it has none).
    pub fn from_check_table(
        generic_check: GenericChecker,
        table: &CheckTable,
        home: Option<String>,
        cwd: Option<String>,
    ) -> (r: Result<DirCopied, CheckDefinitionError>)
        ensures
            Self::read_from(*table, generic_check.file_with_checks@, opt_view(home), opt_view(cwd), r),
            r matches Ok(c) ==> c.generic_check == generic_check,
    {
        let source = match path_from_check_table(table, "source", "invalid source url", home.clone(), cwd.clone()) {
            Ok(s) => s,
            Err(e) => {
                return Err(e);
            },
        };
        let destination = if table_item(table, "destination").is_some() {
            match path_from_check_table(table, "destination", "invalid destination path", home, cwd) {
                Ok(d) => d,
                Err(e) => {
                    return Err(e);
                },
            }
        } else {
            let dir = match path_from_check_table(table, "destination_dir", "invalid destination_dir path", home, cwd) {
                Ok(d) => d,
                Err(e) => {
                    return Err(e);
                },
            };
            match path_file_name(source.path.as_str()) {
                None => {
                    return Err(CheckDefinitionError::InvalidDefinition(String::from_str("Source has to filename")));
                },
                Some(name) => WritablePath::new(join_path(dir.path.as_str(), name.as_str())),
            }
        };
        Ok(DirCopied { generic_check, source, destination })
    }

    /// What the check finds and asks for, given whether the source and the
    /// destination exist: `copy dir` when the destination is missing.
    pub fn plan(&self, source_present: bool, dest_present: bool, fix: bool) -> (r: Result<DiskPlan, CheckError>)
        ensures
            !source_present ==> (r matches Err(CheckError::String(m)) && m@ == "source dir does not exists"@),
            source_present ==> (r matches Ok(p) && p.result@ == outcome(!dest_present, fix, "copy dir"@)
                && p.copy == (!dest_present && fix) && !p.create && !p.remove && p.permissions is None
                && !p.unpack && !p.clone && !p.sync),
    {
        match source_plan(Ok(source_present), "source dir does not exists", dest_present, "copy dir", fix) {
            Err(e) => Err(e),
            Ok((result, act)) => Ok(DiskPlan {
                result,
                create: false,
                remove: false,
                permissions: None,
                copy: act,
                unpack: false,
                clone: false,
                sync: false,
            }),
        }
    }
}

/// How an archive is unpacked.
#[derive(PartialEq, Eq, Structural, Clone, Copy, Debug)]
pub enum Unpacker {
    TarGz,
    Tar,
    Unzip,
}

/// The unpacker named in a check, or else the one the file name of the
/// archive calls for: `zip`, `tar.gz` or `tar`.
pub open spec fn unpacker_name(given: Option<Seq<char>>, file_name: Seq<char>) -> Seq<char> {
    match given {
        Some(u) => u,
        None => if ends_with(file_name, ".zip"@) {
            "zip"@
        } else if ends_with(file_name, ".tar.gz"@) {
            "tar.gz"@
        } else if ends_with(file_name, ".tar"@) {
            "tar"@
        } else {
            "unknown"@
        },
    }
}

/// The unpacker of a name: refused (`invalid unpacker {name}`) when there is
/// none of that name.
pub open spec fn unpacker_of(name: Seq<char>) -> Result<Unpacker, Seq<char>> {
    if name == "tar.gz"@ {
        Ok(Unpacker::TarGz)
    } else if name == "tar"@ {
        Ok(Unpacker::Tar)
    } else if name == "zip"@ {
        Ok(Unpacker::Unzip)
    } else {
        Err("invalid unpacker "@ + name)
    }
}

/// A check that an archive is unpacked into a directory.
pub struct FileUnpacked {
    pub generic_check: GenericChecker,
    pub source: WritablePath,
    pub destination_dir: WritablePath,
    pub unpacker: Unpacker,
}

impl FileUnpacked {
    /// What reading a check of this kind from its table gives (see
    /// `from_check_table`).
    pub open spec fn read_from(
        table: CheckTable,
        checks_file: Seq<char>,
        home: Option<Seq<char>>,
        cwd: Option<Seq<char>>,
        r: Option<Result<Self, CheckDefinitionError>>,
    ) -> bool {
        match path_def(table, "source"@, "invalid source url"@, home, cwd) {
            Err(m) => r matches Some(x) && refused(x, m),
            Ok(src) => match path_def(table, "destination_dir"@, "invalid destination url"@, home, cwd) {
                Err(m) => r matches Some(x) && refused(x, m),
                Ok(d) => match table.item("unpacker"@) {
                    Some(NodeV::Str(u)) => match unpacker_of(u) {
                        Err(m) => r matches Some(x) && refused(x, m),
                        Ok(k) => r matches Some(Ok(c)) && c.source.path@ == src && c.destination_dir.path@ == d
                            && c.unpacker == k,
                    },
                    Some(_) => r matches Some(x) && refused(x, "unpacker"@ + " is not a string"@),
                    None => match path_file_name_of(src) {
                        None => r is None,
                        Some(n) => match unpacker_of(unpacker_name(None, n)) {
                            Err(m) => r matches Some(x) && refused(x, m),
                            Ok(k) => r matches Some(Ok(c)) && c.source.path@ == src
                                && c.destination_dir.path@ == d && c.unpacker == k,
                        },
                    },
                },
            },
        }
    }

    /// Reads a `file_unpacked` check: the `source` path (`invalid source
    /// url`), the `destination_dir` (`invalid destination url`) and the
    /// unpacker (see `unpacker_name` and `unpacker_of`). `None` when no
    /// unpacker is named and the source path has no file name.
    pub fn from_check_table(
        generic_check: GenericChecker,
        table: &CheckTable,
        home: Option<String>,
        cwd: Option<String>,
    ) -> (r: Option<Result<FileUnpacked, CheckDefinitionError>>)
        ensures
            Self::read_from(*table, generic_check.file_with_checks@, opt_view(home), opt_view(cwd), r),
            r matches Some(Ok(c)) ==> c.generic_check == generic_check,
    {
        proof {
            reveal_strlit("zip");
            reveal_strlit("tar.gz");
            reveal_strlit("tar");
            reveal_strlit(".zip");
            reveal_strlit(".tar.gz");
            reveal_strlit(".tar");
        }
        let source = match path_from_check_table(table, "source", "invalid source url", home.clone(), cwd.clone()) {
            Ok(s) => s,
            Err(e) => {
                return Some(Err(e));
            },
        };
        let destination_dir = match path_from_check_table(table, "destination_dir", "invalid destination url", home, cwd) {
            Ok(d) => d,
            Err(e) => {
                return Some(Err(e));
            },
        };
        let name = match get_option_string_value_from_checktable(table, "unpacker") {
            Err(e) => {
                return Some(Err(e));
            },
            Ok(Some(u)) => u,
            Ok(None) => {
                let file_name = match path_file_name(source.path.as_str()) {
                    None => {
                        return None;
                    },
                    Some(n) => n,
                };
                let f = to_chars(file_name.as_str());
                if ends_with_exec(&f, &to_chars(".zip")) {
                    String::from_str("zip")
                } else if ends_with_exec(&f, &to_chars(".tar.gz")) {
                    String::from_str("tar.gz")
                } else if ends_with_exec(&f, &to_chars(".tar")) {
                    String::from_str("tar")
                } else {
                    String::from_str("unknown")
                }
            },
        };
        let unpacker = if name == String::from_str("tar.gz") {
            Unpacker::TarGz
        } else if name == String::from_str("tar") {
            Unpacker::Tar
        } else if name == String::from_str("zip") {
            Unpacker::Unzip
        } else {
            return Some(Err(CheckDefinitionError::InvalidDefinition(concat("invalid unpacker ", name.as_str()))));
        };
        Some(Ok(FileUnpacked { generic_check, source, destination_dir, unpacker }))
    }

    /// What the check finds and asks for, given whether the source exists (or
    /// why that could not be found out) and whether the destination directory
    /// exists: `unpack file` when it is missing.
    pub fn plan(&self, source_exists: Result<bool, String>, dest_present: bool, fix: bool) -> (r: Result<
        DiskPlan,
        CheckError,
    >)
        ensures
            match source_exists {
                Err(e) => r matches Err(CheckError::String(m)) && m@ == e@,
                Ok(false) => r matches Err(CheckError::String(m)) && m@ == "source file does not exists"@,
                Ok(true) => r matches Ok(p) && p.result@ == outcome(!dest_present, fix, "unpack file"@)
                    && p.unpack == (!dest_present && fix) && !p.create && !p.remove && p.permissions is None
                    && !p.copy && !p.clone && !p.sync,
            },
    {
        match source_plan(source_exists, "source file does not exists", dest_present, "unpack file", fix) {
            Err(e) => Err(e),
            Ok((result, act)) => Ok(DiskPlan {
                result,
                create: false,
                remove: false,
                permissions: None,
                copy: false,
                unpack: act,
                clone: false,
                sync: false,
            }),
        }
    }
}


/// What a `git_fetched` check reads: the `repo`; exactly one of `branch`,
/// `tag` and `commit_hash`; and the `dir`, resolved against the file of the
/// checks (`InvalidUrl`), as a local path (`invalid path`).
pub open spec fn git_fetched_def(
    table: CheckTable,
    checks_file: Seq<char>,
    home: Option<Seq<char>>,
    cwd: Option<Seq<char>>,
) -> Result<(Seq<char>, Option<Seq<char>>, Option<Seq<char>>, Option<Seq<char>>, Seq<char>), Seq<char>> {
    match string_def(table, "repo"@) {
        Err(m) => Err(m),
        Ok(repo) => match option_string_def(table, "branch"@) {
            Err(m) => Err(m),
            Ok(b) => match option_string_def(table, "tag"@) {
                Err(m) => Err(m),
                Ok(t) => match option_string_def(table, "commit_hash"@) {
                    Err(m) => Err(m),
                    Ok(c) => if !((b is Some && t is None && c is None) || (b is None && t is Some
                        && c is None) || (b is None && t is None && c is Some)) {
                        Err("one of branch, tag or commit_hash needs to be given"@)
                    } else {
                        match string_def(table, "dir"@) {
                            Err(m) => Err(m),
                            Ok(d) => match readable_url(d, Some(checks_file), home, cwd) {
                                None => Err("InvalidUrl"@),
                                Some(u) => match crate::external::url_file_path_of(u) {
                                    None => Err("invalid path"@),
                                    Some(p) => Ok((repo, b, t, c, p)),
                                },
                            },
                        }
                    },
                },
            },
        },
    }
}

/// A check that a git repository is cloned into a directory and in sync with
/// its remote at a branch, a tag or a commit.
pub struct GitFetched {
    pub generic_check: GenericChecker,
    pub destination_dir: String,
    pub repo: String,
    pub branch: Option<String>,
    pub tag: Option<String>,
    pub commit_hash: Option<String>,
}

impl GitFetched {
    /// Exactly one of branch, tag and commit is given.
    pub open spec fn wf(&self) -> bool {
        (self.branch is Some && self.tag is None && self.commit_hash is None) || (self.branch is None
            && self.tag is Some && self.commit_hash is None) || (self.branch is None && self.tag is None
            && self.commit_hash is Some)
    }

    /// What reading a check of this kind from its table gives (see
    /// `from_check_table`).
    pub open spec fn read_from(
        table: CheckTable,
        checks_file: Seq<char>,
        home: Option<Seq<char>>,
        cwd: Option<Seq<char>>,
        r: Result<Self, CheckDefinitionError>,
    ) -> bool {
        match git_fetched_def(
            table,
            checks_file,
            home,
            cwd,
        ) {
            Err(m) => refused(r, m),
            Ok((repo, branch, tag, commit, dir)) => r matches Ok(g) && g.wf() && g.repo@ == repo
                && opt_view(g.branch) == branch && opt_view(g.tag) == tag && opt_view(
                g.commit_hash,
            ) == commit && g.destination_dir@ == dir,
        }
    }

    /// Reads a `git_fetched` check (see `git_fetched_def`).
    pub fn from_check_table(
        generic_check: GenericChecker,
        table: &CheckTable,
        home: Option<String>,
        cwd: Option<String>,
    ) -> (r: Result<GitFetched, CheckDefinitionError>)
        ensures
            Self::read_from(*table, generic_check.file_with_checks@, opt_view(home), opt_view(cwd), r),
            r matches Ok(c) ==> c.generic_check == generic_check,
    {
        let repo = match get_string_value_from_checktable(table, "repo") {
            Ok(x) => x,
            Err(e) => {
                return Err(e);
            },
        };
        let branch = match get_option_string_value_from_checktable(table, "branch") {
            Ok(x) => x,
            Err(e) => {
                return Err(e);
            },
        };
        let tag = match get_option_string_value_from_checktable(table, "tag") {
            Ok(x) => x,
            Err(e) => {
                return Err(e);
            },
        };
        let commit_hash = match get_option_string_value_from_checktable(table, "commit_hash") {
            Ok(x) => x,
            Err(e) => {
                return Err(e);
            },
        };
        if !exactly_one(branch.is_some(), tag.is_some(), commit_hash.is_some()) {
            return Err(CheckDefinitionError::InvalidDefinition(String::from_str("one of branch, tag or commit_hash needs to be given")));
        }
        let dir = match get_string_value_from_checktable(table, "dir") {
            Ok(x) => x,
            Err(e) => {
                return Err(e);
            },
        };
        let config = ReadablePath::from_url(generic_check.file_with_checks.clone());
        let url = match ReadablePath::from_string(dir.as_str(), Some(&config), home, cwd) {
            Ok(u) => u,
            Err(_) => {
                return Err(CheckDefinitionError::InvalidDefinition(String::from_str("InvalidUrl")));
            },
        };
        let destination_dir = match crate::external::url_to_file_path(url.url.as_str()) {
            Some(p) => p,
            None => {
                return Err(CheckDefinitionError::InvalidDefinition(String::from_str("invalid path")));
            },
        };
        Ok(GitFetched { generic_check, destination_dir, repo, branch, tag, commit_hash })
    }

    /// Whether the sync state of the clone must be looked up: the directory
    /// exists and is a git directory.
    pub fn needs_sync_check(present: bool, is_git_dir: bool) -> (r: bool)
        ensures
            r == (present && is_git_dir),
    {
        present && is_git_dir
    }

    /// What the check finds and asks for, given whether the directory exists,
    /// whether it is a git directory, and (when `needs_sync_check`) whether the
    /// clone is in sync or why that could not be found out: `git clone` when
    /// the directory is missing, `delete dir, because it is not a git dir` when
    /// it is no git directory, and `git checkout needed` when the clone is not
    /// in sync. A fix is needed to clone or to sync; fixing clones and syncs.
    pub fn plan(&self, present: bool, is_git_dir: bool, in_sync: Option<Result<bool, String>>, fix: bool) -> (r:
        Result<DiskPlan, CheckError>)
        requires
            present && is_git_dir ==> in_sync is Some,
        ensures
            present && is_git_dir ==> (in_sync matches Some(Err(e)) ==> (r matches Err(CheckError::GitError(m))
                && m@ == e@)),
            r matches Ok(p) ==> {
                let clone = !present;
                let not_git = present && !is_git_dir;
                let sync = present && is_git_dir && in_sync == Some(Ok::<bool, String>(false));
                let a: Seq<Seq<char>> = if clone { seq!["git clone"@] } else { Seq::empty() };
                let b = if not_git { a.push("delete dir, because it is not a git dir"@) } else { a };
                let msgs = if sync { b.push("git checkout needed"@) } else { b };
                &&& p.result@ == outcome(clone || sync, fix, joined(msgs, "\n"@))
                &&& p.clone == (fix && clone)
                &&& p.sync == (fix && (clone || sync))
                &&& !p.create && !p.remove && p.permissions is None && !p.copy && !p.unpack
            },
            !(present && is_git_dir && (in_sync matches Some(Err(_)))) ==> r is Ok,
    {
        let mut messages: Vec<String> = Vec::new();
        let clone = !present;
        if clone {
            messages.push(String::from_str("git clone"));
        }
        let not_git = present && !is_git_dir;
        if not_git {
            messages.push(String::from_str("delete dir, because it is not a git dir"));
        }
        let sync = if clone || not_git {
            false
        } else {
            match in_sync {
                Some(Ok(s)) => !s,
                Some(Err(e)) => {
                    return Err(CheckError::GitError(e));
                },
                None => false,
            }
        };
        if sync {
            messages.push(String::from_str("git checkout needed"));
        }
        proof {
            reveal_strlit("git clone");
            reveal_strlit("delete dir, because it is not a git dir");
            reveal_strlit("git checkout needed");
            let a: Seq<Seq<char>> = if clone { seq!["git clone"@] } else { Seq::empty() };
            let b = if not_git { a.push("delete dir, because it is not a git dir"@) } else { a };
            let msgs = if sync { b.push("git checkout needed"@) } else { b };
            assert(messages@.map_values(|s: String| s@) =~= msgs);
        }
        let message = crate::text::join(&messages, "\n");
        let result = crate::base::make_outcome(clone || sync, fix, message);
        Ok(DiskPlan {
            result,
            create: false,
            remove: false,
            permissions: None,
            copy: false,
            unpack: false,
            clone: fix && clone,
            sync: fix && (clone || sync),
        })
    }
}

/// The reference of a remote branch of `origin`.
pub fn remote_branch_ref(branch: &str) -> (r: String)
    ensures
        r@ == "refs/remotes/origin/"@ + branch@,
{
    concat("refs/remotes/origin/", branch)
}

/// The reference of a tag.
pub fn tag_ref(tag: &str) -> (r: String)
    ensures
        r@ == "refs/tags/"@ + tag@,
{
    concat("refs/tags/", tag)
}

/// The reference of a local branch.
pub fn local_branch_ref(branch: &str) -> (r: String)
    ensures
        r@ == "refs/heads/"@ + branch@,
{
    concat("refs/heads/", branch)
}

/// What a repository is compared with and brought to: a branch (with its
/// remote-tracking ref and its local ref), a commit, or a tag (by its ref).
pub enum SyncTarget {
    Branch { name: String, remote_ref: String, local_ref: String },
    Commit { hash: String },
    Tag { tag_ref: String },
}

impl GitFetched {
    /// What the repository is compared with and brought to: the branch when
    /// one is given, else the commit, else the tag; `None` when none is given.
    pub fn sync_target(&self) -> (r: Option<SyncTarget>)
        ensures
            match (self.branch, self.commit_hash, self.tag) {
                (Some(b), _, _) => r matches Some(SyncTarget::Branch { name, remote_ref, local_ref }) && name@
                    == b@ && remote_ref@ == "refs/remotes/origin/"@ + b@ && local_ref@ == "refs/heads/"@ + b@,
                (None, Some(h), _) => r matches Some(SyncTarget::Commit { hash }) && hash@ == h@,
                (None, None, Some(t)) => r matches Some(SyncTarget::Tag { tag_ref }) && tag_ref@ == "refs/tags/"@
                    + t@,
                (None, None, None) => r is None,
            },
    {
        match &self.branch {
            Some(b) => {
                return Some(
                    SyncTarget::Branch {
                        name: b.clone(),
                        remote_ref: remote_branch_ref(b.as_str()),
                        local_ref: local_branch_ref(b.as_str()),
                    },
                );
            },
            None => {},
        }
        match &self.commit_hash {
            Some(h) => {
                return Some(SyncTarget::Commit { hash: h.clone() });
            },
            None => {},
        }
        match &self.tag {
            Some(t) => Some(SyncTarget::Tag { tag_ref: tag_ref(t.as_str()) }),
            None => None,
        }
    }
}

} // verus!
