//! Calls into `regex`, `similar`, `url`, std's paths and std's `Debug`
//! formatting, each behind a small wrapper whose contract is trusted.
use vstd::prelude::*;

verus! {

/// What `regex::Regex::new` gives for a pattern: `None` when the pattern
/// compiles, the text of the error otherwise.
pub uninterp spec fn regex_compile_error(pattern: Seq<char>) -> Option<Seq<char>>;

/// The pattern is a regular expression that `regex::Regex::new` accepts.
pub open spec fn regex_compiles(pattern: Seq<char>) -> bool {
    regex_compile_error(pattern) is None
}

/// Compiles `pattern` with `regex::Regex::new`: `None` when it compiles, the
/// error's text otherwise. Claimed: the outcome depends on the pattern alone.
#[verifier::external_body]
pub(crate) fn regex_check(pattern: &str) -> (r: Option<String>)
    ensures
        match regex_compile_error(pattern@) {
            None => r is None,
            Some(m) => r matches Some(x) && x@ == m,
        },
{
    match regex::Regex::new(pattern) {
        Ok(_) => None,
        Err(e) => Some(e.to_string()),
    }
}

/// Whether `regex::Regex::is_match` finds the pattern somewhere in the haystack.
pub uninterp spec fn regex_finds(pattern: Seq<char>, haystack: Seq<char>) -> bool;

/// `regex::Regex::is_match` of a pattern that compiles. Claimed: the answer
/// depends on the pattern and the haystack alone.
#[verifier::external_body]
pub(crate) fn regex_is_match(pattern: &str, haystack: &str) -> (r: bool)
    requires
        regex_compiles(pattern@),
    ensures
        r == regex_finds(pattern@, haystack@),
{
    regex::Regex::new(pattern).unwrap().is_match(haystack)
}

/// What `regex::Regex::replace` gives: the leftmost match replaced, with `$`
/// references in the replacement expanded.
pub uninterp spec fn regex_replaced(
    pattern: Seq<char>,
    haystack: Seq<char>,
    replacement: Seq<char>,
) -> Seq<char>;

/// `regex::Regex::replace` (the first match only) of a pattern that compiles.
/// Claimed: the result depends on the three texts alone, and the haystack comes
/// back unchanged when the pattern is not found in it, as the crate documents.
#[verifier::external_body]
pub(crate) fn regex_replace_first(pattern: &str, haystack: &str, replacement: &str) -> (r: String)
    requires
        regex_compiles(pattern@),
    ensures
        r@ == regex_replaced(pattern@, haystack@, replacement@),
        !regex_finds(pattern@, haystack@) ==> r@ == haystack@,
{
    regex::Regex::new(pattern).unwrap().replace(haystack, replacement).into_owned()
}

/// The unified line diff that `similar` prints for two texts.
pub uninterp spec fn line_diff(old: Seq<char>, new: Seq<char>) -> Seq<char>;

/// `similar::TextDiff::from_lines(old, new).unified_diff()`, printed. Claimed:
/// the text depends on the two inputs alone.
#[verifier::external_body]
pub(crate) fn unified_diff(old: &str, new: &str) -> (r: String)
    ensures
        r@ == line_diff(old@, new@),
{
    format!("{}", similar::TextDiff::from_lines(old, new).unified_diff())
}

/// The text that `{:?}` prints for a string.
pub uninterp spec fn debug_text(s: Seq<char>) -> Seq<char>;

/// A character that `{:?}` prints as it is inside a quoted string.
pub open spec fn prints_plain(c: char) -> bool {
    ' ' <= c && c <= '~' && c != '"' && c != '\\'
}

/// `format!("{:?}", s)`. Claimed: the text depends on `s` alone, and a string of
/// printable ASCII characters other than `"` and `\` is printed between double
/// quotes as it is (std's documented escaping leaves those characters alone).
#[verifier::external_body]
pub(crate) fn debug_quoted(s: &str) -> (r: String)
    ensures
        r@ == debug_text(s@),
        (forall|i: int| 0 <= i < s@.len() ==> #[trigger] prints_plain(s@[i])) ==> r@ == seq![
            '"',
        ] + s@ + seq!['"'],
{
    format!("{:?}", s)
}


/// The last component of a path, as `std::path::Path::file_name` gives it.
pub uninterp spec fn path_file_name_of(path: Seq<char>) -> Option<Seq<char>>;

/// `std::path::Path::file_name` of a path given as text. Claimed: the result
/// depends on the path alone (under the path rules of the platform the crate
/// is built for).
#[verifier::external_body]
pub(crate) fn path_file_name(path: &str) -> (r: Option<String>)
    ensures
        crate::text::opt_view(r) == path_file_name_of(path@),
{
    std::path::Path::new(path).file_name().map(|n| n.to_string_lossy().into_owned())
}

/// The serialization of the URL that `url::Url::parse` makes of a text, if it
/// parses.
pub uninterp spec fn url_parsed(input: Seq<char>) -> Option<Seq<char>>;

/// `url::Url::parse`, giving the URL's serialization. Claimed: the result
/// depends on the input alone, and a serialization parses to itself.
#[verifier::external_body]
pub(crate) fn url_parse(input: &str) -> (r: Option<String>)
    ensures
        crate::text::opt_view(r) == url_parsed(input@),
        r matches Some(x) ==> url_parsed(x@) == Some(x@),
{
    url::Url::parse(input).ok().map(|u| u.as_str().to_string())
}

/// The serialization of `base.join(input)` for a URL `base`, if it parses.
pub uninterp spec fn url_joined(base: Seq<char>, input: Seq<char>) -> Option<Seq<char>>;

/// `url::Url::join` on the URL with the given serialization. Claimed: the
/// result depends on the two texts alone (`None` also when `base` is no URL),
/// and the serialization it gives parses to itself.
#[verifier::external_body]
pub(crate) fn url_join(base: &str, input: &str) -> (r: Option<String>)
    ensures
        crate::text::opt_view(r) == url_joined(base@, input@),
        r matches Some(x) ==> url_parsed(x@) == Some(x@),
{
    match url::Url::parse(base) {
        Ok(b) => b.join(input).ok().map(|u| u.as_str().to_string()),
        Err(_) => None,
    }
}

/// The serialization of the `file` URL of a path, if the path is absolute.
pub uninterp spec fn url_of_path(path: Seq<char>) -> Option<Seq<char>>;

/// `url::Url::from_file_path`. Claimed: the result depends on the path alone,
/// and the serialization it gives parses as a URL. Not claimed: that it parses
/// back to itself, which fails for a path with a `..` component (its segments
/// are copied as they are, and parsing resolves them).
#[verifier::external_body]
pub(crate) fn url_from_file_path(path: &str) -> (r: Option<String>)
    ensures
        crate::text::opt_view(r) == url_of_path(path@),
        r matches Some(x) ==> url_parsed(x@) is Some,
{
    url::Url::from_file_path(path).ok().map(|u| u.as_str().to_string())
}

/// The path of the URL with the given serialization, as `url::Url::path`
/// gives it.
pub uninterp spec fn url_path_of(url: Seq<char>) -> Seq<char>;

/// `url::Url::path` of a URL given by its serialization, which must parse.
/// Claimed: the result depends on the serialization alone.
#[verifier::external_body]
pub(crate) fn url_path(url: &str) -> (r: String)
    requires
        url_parsed(url@) is Some,
    ensures
        r@ == url_path_of(url@),
{
    url::Url::parse(url).unwrap().path().to_string()
}

/// The local path of a `file` URL, as `url::Url::to_file_path` gives it.
pub uninterp spec fn url_file_path_of(url: Seq<char>) -> Option<Seq<char>>;

/// `url::Url::to_file_path` of a URL given by its serialization, which must
/// parse. Claimed: the result depends on the serialization alone (under the
/// path rules of the platform the crate is built for).
#[verifier::external_body]
pub(crate) fn url_to_file_path(url: &str) -> (r: Option<String>)
    requires
        url_parsed(url@) is Some,
    ensures
        crate::text::opt_view(r) == url_file_path_of(url@),
{
    url::Url::parse(url).unwrap().to_file_path().ok().map(|p| p.to_string_lossy().into_owned())
}


/// What `url::Url::make_relative` gives for two URLs given by their texts.
pub uninterp spec fn url_relative_of(base: Seq<char>, target: Seq<char>) -> Option<Seq<char>>;

/// `url::Url::make_relative` of the URL `target` against the URL `base`,
/// both given by texts that parse. Claimed: the result depends on the two
/// texts alone.
#[verifier::external_body]
pub(crate) fn url_make_relative(base: &str, target: &str) -> (r: Option<String>)
    requires
        url_parsed(base@) is Some,
        url_parsed(target@) is Some,
    ensures
        crate::text::opt_view(r) == url_relative_of(base@, target@),
{
    url::Url::parse(base).unwrap().make_relative(&url::Url::parse(target).unwrap())
}


/// The scheme of the URL given by a text, as `url::Url::scheme` gives it.
pub uninterp spec fn url_scheme_of(url: Seq<char>) -> Seq<char>;

/// `url::Url::scheme` of a URL given by a text that parses. Claimed: the
/// result depends on the text alone.
#[verifier::external_body]
pub(crate) fn url_scheme(url: &str) -> (r: String)
    requires
        url_parsed(url@) is Some,
    ensures
        r@ == url_scheme_of(url@),
{
    url::Url::parse(url).unwrap().scheme().to_string()
}

/// The host of the URL given by a text, as `url::Url::host_str` gives it.
pub uninterp spec fn url_host_of(url: Seq<char>) -> Option<Seq<char>>;

/// `url::Url::host_str` of a URL given by a text that parses. Claimed: the
/// result depends on the text alone.
#[verifier::external_body]
pub(crate) fn url_host(url: &str) -> (r: Option<String>)
    requires
        url_parsed(url@) is Some,
    ensures
        crate::text::opt_view(r) == url_host_of(url@),
{
    url::Url::parse(url).unwrap().host_str().map(|h| h.to_string())
}


/// What `str::to_lowercase` gives for a text.
pub uninterp spec fn lowercase_of(s: Seq<char>) -> Seq<char>;

/// `str::to_lowercase`. Claimed: the result depends on the text alone.
#[verifier::external_body]
pub(crate) fn to_lowercase(s: &str) -> (r: String)
    ensures
        r@ == lowercase_of(s@),
{
    s.to_lowercase()
}

} // verus!
