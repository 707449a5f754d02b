//! The calls this library makes into other crates and into `std::path`,
//! each with the contract it is trusted to meet.
use vstd::prelude::*;

verus! {

/// The capture groups of the first match of `pattern` in `haystack`, group 0
/// being the whole match; `None` when nothing matches or the pattern is not
/// a valid expression.
pub uninterp spec fn regex_captures_of(pattern: Seq<char>, haystack: Seq<char>) -> Option<
    Seq<Option<Seq<char>>>,
>;

/// The lower-case form of `s`.
pub uninterp spec fn lowercase_of(s: Seq<char>) -> Seq<char>;

/// The words of `s` split as a POSIX shell would, or `None` when its quoting
/// is unbalanced.
pub uninterp spec fn shell_words_of(s: Seq<char>) -> Option<Seq<Seq<char>>>;

/// `s` quoted for a POSIX shell.
pub uninterp spec fn shell_quoted_of(s: Seq<char>) -> Seq<char>;

/// The final component of the path `s`, if it has one.
pub uninterp spec fn file_name_of(s: Seq<char>) -> Option<Seq<char>>;

/// The path `s` without its final component, if it has one.
pub uninterp spec fn parent_of(s: Seq<char>) -> Option<Seq<char>>;

pub open spec fn groups_view(g: Seq<Option<String>>) -> Seq<Option<Seq<char>>> {
    g.map_values(
        |o: Option<String>|
            match o {
                Some(s) => Some(s@),
                None => None,
            },
    )
}

/// Relies on `regex::Regex::new` to compile `pattern` and on
/// `regex::Regex::captures` for the groups of its first match in `haystack`.
#[verifier::external_body]
pub(crate) fn captures(pattern: &str, haystack: &str) -> (r: Option<Vec<Option<String>>>)
    ensures
        match r {
            Some(g) => regex_captures_of(pattern@, haystack@) == Some(groups_view(g@)),
            None => regex_captures_of(pattern@, haystack@) is None,
        },
{
    let re = regex::Regex::new(pattern).ok()?;
    let caps = re.captures(haystack)?;
    Some(caps.iter().map(|m| m.map(|m| m.as_str().to_string())).collect())
}

/// Relies on `str::to_lowercase`: the result depends on the characters alone.
#[verifier::external_body]
pub(crate) fn to_lowercase(s: &str) -> (r: String)
    ensures
        r@ == lowercase_of(s@),
{
    s.to_lowercase()
}

/// Relies on `shlex::split`, which returns `None` on unbalanced quoting.
#[verifier::external_body]
pub(crate) fn shell_split(s: &str) -> (r: Option<Vec<String>>)
    ensures
        match r {
            Some(w) => shell_words_of(s@) == Some(w@.map_values(|x: String| x@)),
            None => shell_words_of(s@) is None,
        },
{
    shlex::split(s)
}

/// Relies on `shlex::Quoter::quote` with default settings, which fails
/// exactly when `s` holds a nul character.
#[verifier::external_body]
pub(crate) fn shell_quote(s: &str) -> (r: Option<String>)
    ensures
        r is Some <==> !s@.contains('\0'),
        r matches Some(q) ==> q@ == shell_quoted_of(s@),
{
    shlex::Quoter::new().quote(s).ok().map(|q| q.into_owned())
}

/// Relies on `std::path::Path::file_name`.
#[verifier::external_body]
pub(crate) fn file_name(s: &str) -> (r: Option<String>)
    ensures
        r matches Some(n) ==> file_name_of(s@) == Some(n@),
        r is None ==> file_name_of(s@) is None,
{
    std::path::Path::new(s).file_name().and_then(|n| n.to_str()).map(|n| n.to_string())
}

/// Relies on `std::path::Path::parent`.
#[verifier::external_body]
pub(crate) fn parent(s: &str) -> (r: Option<String>)
    ensures
        r matches Some(p) ==> parent_of(s@) == Some(p@),
        r is None ==> parent_of(s@) is None,
{
    std::path::Path::new(s).parent().and_then(|p| p.to_str()).map(|p| p.to_string())
}

} // verus!
