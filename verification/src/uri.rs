//! Where files are read from and written to: local paths, expanded from `~`
//! and the working directory, and URLs, resolved relative to the file that
//! defines the checks.
use vstd::prelude::*;

use crate::external::{
    url_from_file_path, url_host, url_host_of, url_join, url_joined, url_of_path, url_parse,
    url_parsed, url_path, url_path_of, url_scheme, url_scheme_of,
};
use crate::text::{
    concat, ends_with, find, first_index, from_chars, last_index, opt_view, slice_vec, starts_with,
    starts_with_exec, to_chars, trim, trim_end, trim_start,
};

verus! {

/// Why a path or URL was refused.
#[derive(PartialEq, Eq, Structural, Clone, Copy, Debug)]
pub enum UriError {
    InvalidUrl,
}

/// `Path::join` on texts: an absolute `name` replaces the base; otherwise it
/// follows the base, after a `/` unless the base is empty or ends with one.
pub open spec fn joined_path(base: Seq<char>, name: Seq<char>) -> Seq<char> {
    if starts_with(name, "/"@) {
        name
    } else if base.len() == 0 || ends_with(base, "/"@) {
        base + name
    } else {
        base + "/"@ + name
    }
}

/// `Path::join` on texts (see `joined_path`).
pub fn join_path(base: &str, name: &str) -> (r: String)
    ensures
        r@ == joined_path(base@, name@),
{
    proof {
        reveal_strlit("/");
    }
    let n = to_chars(name);
    let b = to_chars(base);
    let slash = to_chars("/");
    if starts_with_exec(&n, &slash) {
        return String::from_str(name);
    }
    if b.len() == 0 || crate::text::ends_with_exec(&b, &slash) {
        return concat(base, name);
    }
    let with_slash = concat(base, "/");
    concat(with_slash.as_str(), name)
}

/// A path of the local file system that a check may write.
pub struct WritablePath {
    pub path: String,
}

/// Where a path given in a check leads: `~` at its start is replaced by the
/// home directory, an absolute path stays as it is, and any other path is
/// joined to the working directory. Refused when the home directory or the
/// working directory that is needed is unknown.
pub open spec fn resolved_path(input: Seq<char>, home: Option<Seq<char>>, cwd: Option<Seq<char>>) -> Option<Seq<char>> {
    if starts_with(input, "~"@) {
        match home {
            Some(h) => Some(h + input.skip(1)),
            None => None,
        }
    } else if starts_with(input, "/"@) {
        Some(input)
    } else {
        match cwd {
            Some(c) => Some(joined_path(c, input)),
            None => None,
        }
    }
}

impl WritablePath {
    pub fn new(path: String) -> (r: WritablePath)
        ensures
            r.path@ == path@,
    {
        WritablePath { path }
    }

    /// Resolves a path given in a check (see `resolved_path`), with the home
    /// and working directories as they were found.
    pub fn resolve(input: &str, home: Option<String>, cwd: Option<String>) -> (r: Result<WritablePath, UriError>)
        ensures
            match resolved_path(input@, crate::text::opt_view(home), crate::text::opt_view(cwd)) {
                Some(p) => r matches Ok(w) && w.path@ == p,
                None => r == Err::<WritablePath, UriError>(UriError::InvalidUrl),
            },
    {
        proof {
            reveal_strlit("~");
            reveal_strlit("/");
        }
        let c = to_chars(input);
        let tilde = to_chars("~");
        let slash = to_chars("/");
        if starts_with_exec(&c, &tilde) {
            match home {
                Some(h) => {
                    let rest = from_chars(&slice_vec(&c, 1, c.len()));
                    proof {
                        assert(c@.subrange(1, c@.len() as int) == c@.skip(1));
                    }
                    return Ok(WritablePath { path: concat(h.as_str(), rest.as_str()) });
                },
                None => {
                    return Err(UriError::InvalidUrl);
                },
            }
        }
        if starts_with_exec(&c, &slash) {
            return Ok(WritablePath { path: String::from_str(input) });
        }
        match cwd {
            Some(d) => Ok(WritablePath { path: join_path(d.as_str(), input) }),
            None => Err(UriError::InvalidUrl),
        }
    }

    /// The path as text.
    pub fn as_str(&self) -> (r: &str)
        ensures
            r@ == self.path@,
    {
        self.path.as_str()
    }
}


/// A file that checks may read: a URL, given by its serialization.
pub struct ReadablePath {
    pub url: String,
}

/// Where a path or URL given in a check leads: `config:` followed by a path
/// is joined to the URL of the file that defines the checks; a URL stands for
/// itself; any other text is a local path (see `resolved_path`) as a `file`
/// URL. `None` when that fails.
pub open spec fn readable_url(
    input: Seq<char>,
    config: Option<Seq<char>>,
    home: Option<Seq<char>>,
    cwd: Option<Seq<char>>,
) -> Option<Seq<char>> {
    if config is Some && starts_with(input, "config:"@) {
        url_joined(config->Some_0, input.skip(7))
    } else if url_parsed(input) is Some {
        url_parsed(input)
    } else {
        match resolved_path(input, home, cwd) {
            None => None,
            Some(p) => url_of_path(p),
        }
    }
}

impl ReadablePath {
    pub fn from_url(url: String) -> (r: ReadablePath)
        ensures
            r.url@ == url@,
    {
        ReadablePath { url }
    }

    /// Resolves a path or URL given in a check (see `readable_url`), relative
    /// to the file that defines the checks when there is one. A `py:` URL is
    /// kept as it is.
    pub fn from_string(
        input: &str,
        current_config_path: Option<&ReadablePath>,
        home: Option<String>,
        cwd: Option<String>,
    ) -> (r: Result<ReadablePath, UriError>)
        ensures
            match readable_url(
                input@,
                match current_config_path {
                    Some(c) => Some(c.url@),
                    None => None,
                },
                crate::text::opt_view(home),
                crate::text::opt_view(cwd),
            ) {
                Some(u) => r matches Ok(p) && p.url@ == u,
                None => r == Err::<ReadablePath, UriError>(UriError::InvalidUrl),
            },
            r matches Ok(p) ==> url_parsed(p.url@) is Some,
    {
        proof {
            reveal_strlit("config:");
        }
        let c = to_chars(input);
        let prefix = to_chars("config:");
        match current_config_path {
            Some(config) => {
                if starts_with_exec(&c, &prefix) {
                    let rest = from_chars(&slice_vec(&c, 7, c.len()));
                    proof {
                        assert(c@.subrange(7, c@.len() as int) == c@.skip(7));
                    }
                    return match url_join(config.url.as_str(), rest.as_str()) {
                        Some(u) => Ok(ReadablePath { url: u }),
                        None => Err(UriError::InvalidUrl),
                    };
                }
            },
            None => {},
        }
        match url_parse(input) {
            Some(u) => {
                return Ok(ReadablePath { url: u });
            },
            None => {},
        }
        match WritablePath::resolve(input, home, cwd) {
            Err(e) => Err(e),
            Ok(p) => match url_from_file_path(p.path.as_str()) {
                Some(u) => Ok(ReadablePath { url: u }),
                None => Err(UriError::InvalidUrl),
            },
        }
    }
}


/// Why the file that a `py://package/path` URL stands for was not found.
#[derive(PartialEq, Eq, Structural, Clone, Copy, Debug)]
pub enum PythonUrlError {
    /// What Python printed for the package gives no directory.
    NotAPackage,
    /// The path of the URL holds no `/`.
    NoPath,
    /// The URL does not parse, or its path does not join to the package's
    /// directory.
    InvalidUrl,
}

/// Whether the URL is a `py://` URL, and then the package it names (its
/// host, if it has one).
pub open spec fn python_package_of(url: Seq<char>) -> Option<Option<Seq<char>>> {
    if url_parsed(url) is Some && url_scheme_of(url) == "py"@ {
        Some(url_host_of(url))
    } else {
        None
    }
}

/// The URL of the directory of a Python package, from the path of its module
/// file as Python prints it: the text trimmed and cut at its last `/`, as a
/// `file` URL that ends in `/`.
pub open spec fn package_dir_url(printed: Seq<char>) -> Option<Seq<char>> {
    let p = trim_start(trim_end(printed));
    match last_index(p, '/') {
        None => None,
        Some(i) => url_parsed("file://"@ + p.take(i) + "/"@),
    }
}

/// The file that a `py://package/path` URL stands for: the path of the URL,
/// without what comes up to its first `/`, joined to the directory of the
/// package (see `package_dir_url`).
pub open spec fn python_file_of(url: Seq<char>, printed: Seq<char>) -> Result<Seq<char>, PythonUrlError> {
    match package_dir_url(printed) {
        None => Err(PythonUrlError::NotAPackage),
        Some(dir) => if url_parsed(url) is None {
            Err(PythonUrlError::InvalidUrl)
        } else {
            let p = url_path_of(url);
            match first_index(p, seq!['/']) {
                None => Err(PythonUrlError::NoPath),
                Some(i) => match url_joined(dir, p.skip(i + 1)) {
                    None => Err(PythonUrlError::InvalidUrl),
                    Some(u) => Ok(u),
                },
            }
        },
    }
}

/// The directory URL of a Python package (see `package_dir_url`).
pub fn python_package_dir(printed: &str) -> (r: Option<String>)
    ensures
        opt_view(r) == package_dir_url(printed@),
{
    let t = trim(printed);
    let v = to_chars(t.as_str());
    let mut n = v.len();
    assert(v@.take(n as int) == v@);
    while n > 0 && v[n - 1] != '/'
        invariant
            n <= v.len(),
            last_index(v@, '/') == last_index(v@.take(n as int), '/'),
        decreases n,
    {
        assert(v@.take(n as int).drop_last() == v@.take(n - 1));
        n -= 1;
    }
    if n == 0 {
        return None;
    }
    assert(v@.take(n as int).last() == '/');
    let dir = from_chars(&slice_vec(&v, 0, n - 1));
    assert(v@.subrange(0, n - 1) == v@.take(n - 1));
    let with_scheme = concat("file://", dir.as_str());
    let url = concat(with_scheme.as_str(), "/");
    proof {
        reveal_strlit("file://");
        reveal_strlit("/");
    }
    url_parse(url.as_str())
}

impl ReadablePath {
    /// Whether this is a `py://` URL, and then the package it names (see
    /// `python_package_of`).
    pub fn python_package(&self) -> (r: Option<Option<String>>)
        ensures
            match python_package_of(self.url@) {
                None => r is None,
                Some(h) => r matches Some(x) && opt_view(x) == h,
            },
    {
        proof {
            reveal_strlit("py");
        }
        if url_parse(self.url.as_str()).is_none() {
            return None;
        }
        let scheme = url_scheme(self.url.as_str());
        if scheme == String::from_str("py") {
            Some(url_host(self.url.as_str()))
        } else {
            None
        }
    }

    /// The file that this `py://package/path` URL stands for, given what
    /// Python printed for the module file of the package (see
    /// `python_file_of`).
    pub fn in_python_package(&self, printed: &str) -> (r: Result<ReadablePath, PythonUrlError>)
        ensures
            match python_file_of(self.url@, printed@) {
                Ok(u) => r matches Ok(p) && p.url@ == u,
                Err(e) => r == Err::<ReadablePath, PythonUrlError>(e),
            },
    {
        let dir = match python_package_dir(printed) {
            None => {
                return Err(PythonUrlError::NotAPackage);
            },
            Some(d) => d,
        };
        if url_parse(self.url.as_str()).is_none() {
            return Err(PythonUrlError::InvalidUrl);
        }
        let p = url_path(self.url.as_str());
        let c = to_chars(p.as_str());
        let slash = vec!['/'];
        assert(slash@ =~= seq!['/']);
        match find(&c, &slash) {
            None => Err(PythonUrlError::NoPath),
            Some(i) => {
                assert(crate::text::occurs_at(c@, slash@, i as int));
                assert(i + 1 <= c.len());
                let start = i + 1;
                let rest = from_chars(&slice_vec(&c, start, c.len()));
                assert(c@.subrange(start as int, c@.len() as int) == c@.skip(i + 1));
                match url_join(dir.as_str(), rest.as_str()) {
                    None => Err(PythonUrlError::InvalidUrl),
                    Some(u) => Ok(ReadablePath { url: u }),
                }
            },
        }
    }
}

} // verus!
