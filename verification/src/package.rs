//! Packages installed by commands: which command installs, removes or looks up
//! a package, and what the output of a lookup says about it.
use vstd::prelude::*;

use crate::base::CheckError;
use crate::text::{concat, contains, contains_exec, first_index, starts_with, starts_with_exec, to_chars, from_chars, slice_vec};

verus! {

/// A package installed by commands of its own.
pub struct CustomInstaller {
    pub name: String,
    pub install_command: Option<String>,
    pub version_command: String,
    pub uninstall_command: Option<String>,
    pub version: String,
}

/// A package of a package manager.
pub struct Package {
    pub name: String,
    pub version: Option<String>,
    pub bins: Vec<String>,
}

/// A package and the way it is installed.
pub enum PackageType {
    Python(Package),
    Rust(Package),
    GithubRelease(Package),
    GitlabRelease(Package),
    Custom(CustomInstaller),
}

/// A program and its arguments.
pub struct Command {
    pub program: String,
    pub args: Vec<String>,
}

/// The command runs the program with the arguments.
pub open spec fn runs(c: Command, program: Seq<char>, args: Seq<Seq<char>>) -> bool {
    c.program@ == program && c.args@.map_values(|a: String| a@) == args
}

/// A shell command as a program and its arguments: `cmd /C` on Windows and
/// `sh -c` elsewhere.
pub fn make_command_and_args(shell_command: &str, windows: bool) -> (r: Command)
    ensures
        windows ==> runs(r, "cmd"@, seq!["/C"@, shell_command@]),
        !windows ==> runs(r, "sh"@, seq!["-c"@, shell_command@]),
{
    let (program, flag) = if windows { ("cmd", "/C") } else { ("sh", "-c") };
    let mut args: Vec<String> = Vec::new();
    args.push(String::from_str(flag));
    args.push(String::from_str(shell_command));
    assert(args@.map_values(|a: String| a@) =~= seq![flag@, shell_command@]);
    Command { program: String::from_str(program), args }
}

/// The command that installs a custom package; an error when it has none.
pub fn install(package: &CustomInstaller, windows: bool) -> (r: Result<Command, CheckError>)
    ensures
        match package.install_command {
            None => r matches Err(CheckError::String(m)) && m@ == "install_command is not specified"@,
            Some(c) => r matches Ok(x) && (if windows {
                runs(x, "cmd"@, seq!["/C"@, c@])
            } else {
                runs(x, "sh"@, seq!["-c"@, c@])
            }),
        },
{
    match &package.install_command {
        None => Err(CheckError::String(String::from_str("install_command is not specified"))),
        Some(c) => Ok(make_command_and_args(c.as_str(), windows)),
    }
}

/// The command that removes a custom package; an error when it has none.
pub fn uninstall(package: &CustomInstaller, windows: bool) -> (r: Result<Command, CheckError>)
    ensures
        match package.uninstall_command {
            None => r matches Err(CheckError::String(m)) && m@ == "uninstall_command is not specified"@,
            Some(c) => r matches Ok(x) && (if windows {
                runs(x, "cmd"@, seq!["/C"@, c@])
            } else {
                runs(x, "sh"@, seq!["-c"@, c@])
            }),
        },
{
    match &package.uninstall_command {
        None => Err(CheckError::String(String::from_str("uninstall_command is not specified"))),
        Some(c) => Ok(make_command_and_args(c.as_str(), windows)),
    }
}

/// The command whose output tells whether a custom package is installed.
pub fn version_command(package: &CustomInstaller, windows: bool) -> (r: Command)
    ensures
        windows ==> runs(r, "cmd"@, seq!["/C"@, package.version_command@]),
        !windows ==> runs(r, "sh"@, seq!["-c"@, package.version_command@]),
{
    make_command_and_args(package.version_command.as_str(), windows)
}

/// A custom package is installed when the output of its version command holds
/// its version; the error of running the command is passed on.
pub fn is_installed(package: &CustomInstaller, stdout: Result<String, CheckError>) -> (r: Result<
    bool,
    CheckError,
>)
    ensures
        match stdout {
            Err(e) => r == Err::<bool, CheckError>(e),
            Ok(s) => r == Ok::<bool, CheckError>(contains(s@, package.version@)),
        },
{
    match stdout {
        Err(e) => Err(e),
        Ok(s) => {
            let out = to_chars(s.as_str());
            let v = to_chars(package.version.as_str());
            Ok(contains_exec(&out, &v))
        },
    }
}

/// A custom package may always have a newer version.
pub fn is_upgradable(package: &CustomInstaller) -> (r: Result<bool, CheckError>)
    ensures
        r == Ok::<bool, CheckError>(true),
{
    Ok(true)
}

/// A line without the carriage return that ends it.
pub open spec fn strip_cr(l: Seq<char>) -> Seq<char> {
    if l.len() > 0 && l.last() == '\r' {
        l.drop_last()
    } else {
        l
    }
}

/// `str::lines`: the text split at each `\n` (a `\r` before it is dropped),
/// without an empty last line.
pub open spec fn lines_of(s: Seq<char>) -> Seq<Seq<char>>
    decreases s.len(),
{
    if s.len() == 0 {
        Seq::empty()
    } else {
        match first_index(s, seq!['\n']) {
            None => seq![s],
            Some(i) => if 0 <= i < s.len() {
                seq![strip_cr(s.take(i))] + lines_of(s.skip(i + 1))
            } else {
                Seq::empty()
            },
        }
    }
}

/// The lines that start with `p`, in order.
pub open spec fn prefixed(ls: Seq<Seq<char>>, p: Seq<char>) -> Seq<Seq<char>>
    decreases ls.len(),
{
    if ls.len() == 0 {
        Seq::empty()
    } else {
        (if starts_with(ls[0], p) {
            seq![ls[0]]
        } else {
            Seq::empty()
        }) + prefixed(ls.skip(1), p)
    }
}

/// What follows the first space of a text.
pub open spec fn after_space(l: Seq<char>) -> Seq<char> {
    match first_index(l, seq![' ']) {
        Some(i) => l.skip(i + 1),
        None => Seq::empty(),
    }
}

/// A Python package is installed when exactly one line of the output starts
/// with its name and a space, and (when a version is wanted) what follows the
/// space on that line is the version.
pub open spec fn python_installed(stdout: Seq<char>, name: Seq<char>, version: Option<Seq<char>>) -> bool {
    let found = prefixed(lines_of(stdout), name + seq![' ']);
    if found.len() != 1 {
        false
    } else {
        match version {
            Some(v) => after_space(found[0]) == v,
            None => true,
        }
    }
}

proof fn lemma_prefixed_push(ls: Seq<Seq<char>>, l: Seq<char>, p: Seq<char>)
    ensures
        prefixed(ls.push(l), p) == prefixed(ls, p) + (if starts_with(l, p) {
            seq![l]
        } else {
            Seq::<Seq<char>>::empty()
        }),
    decreases ls.len(),
{
    if ls.len() == 0 {
        assert(ls.push(l).skip(1) =~= Seq::<Seq<char>>::empty());
        assert(prefixed(Seq::<Seq<char>>::empty(), p) == Seq::<Seq<char>>::empty());
    } else {
        lemma_prefixed_push(ls.skip(1), l, p);
        assert(ls.push(l).skip(1) =~= ls.skip(1).push(l));
        assert(ls.push(l)[0] == ls[0]);
    }
}

proof fn lemma_prefixed_append(a: Seq<Seq<char>>, b: Seq<Seq<char>>, p: Seq<char>)
    ensures
        prefixed(a + b, p) == prefixed(a, p) + prefixed(b, p),
    decreases a.len(),
{
    if a.len() == 0 {
        assert(a + b =~= b);
    } else {
        lemma_prefixed_append(a.skip(1), b, p);
        assert((a + b).skip(1) =~= a.skip(1) + b);
        assert((a + b)[0] == a[0]);
    }
}

/// The lines of a text (see `lines_of`).
pub fn split_lines(s: &str) -> (r: Vec<String>)
    ensures
        r@.map_values(|l: String| l@) == lines_of(s@),
{
    proof {
        reveal_strlit("\n");
    }
    let c = to_chars(s);
    let nl = to_chars("\n");
    assert(nl@ =~= seq!['\n']);
    let mut out: Vec<String> = Vec::new();
    let mut start: usize = 0;
    assert(c@.skip(0) == c@);
    while start < c.len()
        invariant
            start <= c.len(),
            nl@ == seq!['\n'],
            c@ == s@,
            out@.map_values(|l: String| l@) + lines_of(c@.skip(start as int)) == lines_of(s@),
        decreases c.len() - start,
    {
        let rest = slice_vec(&c, start, c.len());
        assert(rest@ == c@.skip(start as int));
        let ghost before = out@.map_values(|l: String| l@);
        match crate::text::find(&rest, &nl) {
            None => {
                out.push(from_chars(&rest));
                assert(out@.map_values(|l: String| l@) =~= before.push(rest@));
                assert(lines_of(rest@) == seq![rest@]);
                assert(before + lines_of(rest@) =~= before.push(rest@));
                start = c.len();
                assert(c@.skip(start as int) =~= Seq::<char>::empty());
            },
            Some(i) => {
                proof {
                    crate::text::lemma_first_index(rest@, nl@);
                }
                let mut line = slice_vec(&rest, 0, i);
                if line.len() > 0 && line[line.len() - 1] == '\r' {
                    line.pop();
                }
                assert(line@ == strip_cr(rest@.take(i as int))) by {
                    assert(rest@.subrange(0, i as int) == rest@.take(i as int));
                }
                out.push(from_chars(&line));
                assert(out@.map_values(|l: String| l@) =~= before.push(line@));
                assert(rest@.skip(i + 1) == c@.skip(start + i + 1));
                assert(lines_of(rest@) == seq![line@] + lines_of(rest@.skip(i + 1)));
                assert(before + lines_of(rest@) =~= before.push(line@) + lines_of(rest@.skip(i + 1)));
                start = start + i + 1;
            },
        }
    }
    assert(lines_of(c@.skip(start as int)) == Seq::<Seq<char>>::empty());
    assert(out@.map_values(|l: String| l@) + Seq::<Seq<char>>::empty() == out@.map_values(|l: String| l@));
    out
}

/// Whether the output of `uv` says that a Python package is installed (see
/// `python_installed`).
pub fn python_is_installed(stdout: &str, name: &str, version: &Option<String>) -> (r: bool)
    ensures
        r == python_installed(stdout@, name@, crate::text::opt_view(*version)),
{
    let lines = split_lines(stdout);
    proof {
        reveal_strlit(" ");
    }
    let prefix = concat(name, " ");
    let p = to_chars(prefix.as_str());
    assert(p@ =~= name@ + seq![' ']);
    let ghost ls = lines@.map_values(|l: String| l@);
    let mut count: usize = 0;
    let mut first: Option<usize> = None;
    let mut i: usize = 0;
    while i < lines.len()
        invariant
            i <= lines.len(),
            ls == lines@.map_values(|l: String| l@),
            p@ == name@ + seq![' '],
            count == prefixed(ls.take(i as int), p@).len(),
            count <= i,
            count > 0 ==> (first matches Some(f) && f < i && prefixed(ls.take(i as int), p@)[0] == ls[f as int]),
            count == 0 ==> first is None,
        decreases lines.len() - i,
    {
        let l = to_chars(lines[i].as_str());
        proof {
            lemma_prefixed_push(ls.take(i as int), ls[i as int], p@);
            assert(ls.take(i + 1) =~= ls.take(i as int).push(ls[i as int]));
        }
        if starts_with_exec(&l, &p) {
            if count == 0 {
                first = Some(i);
            }
            count += 1;
        }
        i += 1;
    }
    assert(ls.take(lines.len() as int) =~= ls);
    assert(ls == lines_of(stdout@));
    if count != 1 {
        return false;
    }
    match version {
        None => true,
        Some(v) => match first {
            None => false,
            Some(f) => {
                let l = to_chars(lines[f].as_str());
                let sp = to_chars(" ");
                assert(sp@ =~= seq![' ']);
                assert(l@ == prefixed(lines_of(stdout@), name@ + seq![' '])[0]);
                match crate::text::find(&l, &sp) {
                    None => {
                        proof {
                            crate::text::lemma_first_index(l@, sp@);
                            assert(first_index(l@, seq![' ']) is None);
                            assert(after_space(l@) == Seq::<char>::empty());
                        }
                        let r = v.as_str().is_empty();
                        assert(v@.len() == 0 ==> v@ =~= Seq::<char>::empty());
                        assert(r == (after_space(l@) == v@));
                        r
                    },
                    Some(k) => {
                        proof {
                            crate::text::lemma_first_index(l@, sp@);
                            assert(crate::text::is_first_occurrence(l@, sp@, k as int));
                            assert(k + 1 <= l@.len());
                            assert(first_index(l@, seq![' ']) == Some(k as int));
                        }
                        assert(k < l.len());
                        let k1: usize = k + 1;
                        let after = from_chars(&slice_vec(&l, k1, l.len()));
                        proof {
                            assert(l@.subrange(k + 1, l@.len() as int) == l@.skip(k + 1));
                            assert(after_space(l@) == after@);
                        }
                        let r = after == *v;
                        assert(r == (after_space(l@) == v@));
                        r
                    },
                }
            },
        },
    }
}


/// What `uv` installs for a package: its name, with `==` and the version when
/// one is wanted.
pub open spec fn python_specifier(name: Seq<char>, version: Option<Seq<char>>) -> Seq<char> {
    match version {
        Some(v) => name + "=="@ + v,
        None => name,
    }
}

/// A `uv tool` command on a package.
fn uv_tool(action: &str, argument: &str) -> (r: Command)
    ensures
        runs(r, "uv"@, seq!["tool"@, action@, argument@]),
{
    let mut args: Vec<String> = Vec::new();
    args.push(String::from_str("tool"));
    args.push(String::from_str(action));
    args.push(String::from_str(argument));
    assert(args@.map_values(|a: String| a@) =~= seq!["tool"@, action@, argument@]);
    Command { program: String::from_str("uv"), args }
}

impl PackageType {
    /// The kinds of packages whose commands are known: Python packages and
    /// custom ones.
    pub open spec fn supported(&self) -> bool {
        self is Python || self is Custom
    }

    /// The command that installs the package: `uv tool install` of its
    /// specifier (see `python_specifier`) for a Python package.
    pub fn install(&self, windows: bool) -> (r: Result<Command, CheckError>)
        requires
            self.supported(),
        ensures
            match self {
                PackageType::Python(p) => r matches Ok(c) && runs(
                    c,
                    "uv"@,
                    seq!["tool"@, "install"@, python_specifier(p.name@, crate::text::opt_view(p.version))],
                ),
                PackageType::Custom(c) => match c.install_command {
                    None => r matches Err(CheckError::String(m)) && m@ == "install_command is not specified"@,
                    Some(x) => r matches Ok(k) && (if windows {
                        runs(k, "cmd"@, seq!["/C"@, x@])
                    } else {
                        runs(k, "sh"@, seq!["-c"@, x@])
                    }),
                },
                _ => true,
            },
    {
        match self {
            PackageType::Python(p) => {
                let spec = match &p.version {
                    Some(v) => {
                        let a = concat(p.name.as_str(), "==");
                        concat(a.as_str(), v.as_str())
                    },
                    None => p.name.clone(),
                };
                Ok(uv_tool("install", spec.as_str()))
            },
            PackageType::Custom(c) => install(c, windows),
            _ => Err(CheckError::String(String::new())),
        }
    }

    /// The command that removes the package: `uv tool uninstall` of its name
    /// for a Python package.
    pub fn uninstall(&self, windows: bool) -> (r: Result<Command, CheckError>)
        requires
            self.supported(),
        ensures
            match self {
                PackageType::Python(p) => r matches Ok(c) && runs(c, "uv"@, seq!["tool"@, "uninstall"@, p.name@]),
                PackageType::Custom(c) => match c.uninstall_command {
                    None => r matches Err(CheckError::String(m)) && m@ == "uninstall_command is not specified"@,
                    Some(x) => r matches Ok(k) && (if windows {
                        runs(k, "cmd"@, seq!["/C"@, x@])
                    } else {
                        runs(k, "sh"@, seq!["-c"@, x@])
                    }),
                },
                _ => true,
            },
    {
        match self {
            PackageType::Python(p) => Ok(uv_tool("uninstall", p.name.as_str())),
            PackageType::Custom(c) => uninstall(c, windows),
            _ => Err(CheckError::String(String::new())),
        }
    }

    /// The command whose output tells whether the package is installed: for a
    /// Python package `uv tool uninstall` of its name, as the package checks
    /// have it; for a custom one its version command.
    pub fn installed_check_command(&self, windows: bool) -> (r: Command)
        requires
            self.supported(),
        ensures
            match self {
                PackageType::Python(p) => runs(r, "uv"@, seq!["tool"@, "uninstall"@, p.name@]),
                PackageType::Custom(c) => if windows {
                    runs(r, "cmd"@, seq!["/C"@, c.version_command@])
                } else {
                    runs(r, "sh"@, seq!["-c"@, c.version_command@])
                },
                _ => true,
            },
    {
        match self {
            PackageType::Python(p) => uv_tool("uninstall", p.name.as_str()),
            PackageType::Custom(c) => version_command(c, windows),
            _ => Command { program: String::new(), args: Vec::new() },
        }
    }

    /// Whether the package is installed, from the output of its check command
    /// (see `python_installed`; a custom package is installed when the output
    /// holds its version); the error of running the command is passed on.
    pub fn is_installed(&self, stdout: Result<String, CheckError>) -> (r: Result<bool, CheckError>)
        requires
            self.supported(),
        ensures
            match stdout {
                Err(e) => r == Err::<bool, CheckError>(e),
                Ok(s) => match self {
                    PackageType::Python(p) => r == Ok::<bool, CheckError>(
                        python_installed(s@, p.name@, crate::text::opt_view(p.version)),
                    ),
                    PackageType::Custom(c) => r == Ok::<bool, CheckError>(contains(s@, c.version@)),
                    _ => true,
                },
            },
    {
        match self {
            PackageType::Python(p) => match stdout {
                Err(e) => Err(e),
                Ok(s) => Ok(python_is_installed(s.as_str(), p.name.as_str(), &p.version)),
            },
            PackageType::Custom(c) => is_installed(c, stdout),
            _ => match stdout {
                Err(e) => Err(e),
                Ok(_) => Ok(false),
            },
        }
    }

    /// Whether a newer version may be available: always for a custom package.
    pub fn is_upgradable(&self) -> (r: Result<bool, CheckError>)
        requires
            self is Custom,
        ensures
            r == Ok::<bool, CheckError>(true),
    {
        match self {
            PackageType::Custom(c) => is_upgradable(c),
            _ => Ok(true),
        }
    }
}

} // verus!
