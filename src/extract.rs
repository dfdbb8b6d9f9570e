//! Pulling a single capture group out of free-form text.
use vstd::prelude::*;

use crate::ResolveError;

verus! {

/// The object literal posted to the ajax endpoint, after some leading noise.
pub const DATA_PATTERN: &'static str = r"[^/]{2,}data : \{(.+)}";

/// The base payload that a password is appended to on the desktop page.
pub const PASSWORD_DATA_PATTERN: &'static str = r"[^/]{2,}data : '(.+)'\+pwd";

/// The path of the nested page on the desktop page.
pub const IFRAME_PATTERN: &'static str = r#"src="(.{20,})" frameborder"#;

/// The mobile id on the desktop-style page of a share code.
pub const MOBILE_ID_PATTERN: &'static str = r"[^/]{2,}.+ = 'tp/(.+)'";

/// The base of the download link on the mobile page.
pub const MOBILE_PATH_PATTERN: &'static str = r"[^/]{2,}.+'(http[\w\-/:.]{10,})'";

/// The query of the download link on the mobile page.
pub const MOBILE_QUERY_PATTERN: &'static str = r"[^/]{2,}.+'(\?[\w/+=]{20,})'";

/// What the first match of regular expression `pattern` in `text` captures in
/// its first group; `None` where the pattern does not compile, does not match,
/// or matches without that group taking part.
pub uninterp spec fn first_capture_of(text: Seq<char>, pattern: Seq<char>) -> Option<Seq<char>>;

pub open spec fn option_view(o: Option<String>) -> Option<Seq<char>> {
    match o {
        Some(s) => Some(s@),
        None => None,
    }
}

/// Relies on `regex::Regex::new`, which compiles `pattern`, and
/// `regex::Regex::captures`, whose first group of the leftmost match is taken:
/// the result depends on the text and the pattern alone.
#[verifier::external_body]
fn regex_first_capture(text: &str, pattern: &str) -> (r: Option<String>)
    ensures
        option_view(r) == first_capture_of(text@, pattern@),
{
    match regex::Regex::new(pattern) {
        Ok(re) => re.captures(text).and_then(|c| c.get(1)).map(|m| m.as_str().to_string()),
        Err(_) => None,
    }
}

/// The outcome of extracting with `pattern` from `text`.
pub open spec fn extract_spec(text: Seq<char>, pattern: Seq<char>) -> Result<Seq<char>, ResolveError> {
    match first_capture_of(text, pattern) {
        Some(c) => Ok(c),
        None => Err(ResolveError::PatternNotFound),
    }
}

pub open spec fn result_view(r: Result<String, ResolveError>) -> Result<Seq<char>, ResolveError> {
    match r {
        Ok(s) => Ok(s@),
        Err(e) => Err(e),
    }
}

/// The first capture group of the leftmost match of `pattern` in `text`, or
/// `PatternNotFound`.
pub fn extract(text: &str, pattern: &str) -> (r: Result<String, ResolveError>)
    ensures
        result_view(r) == extract_spec(text@, pattern@),
{
    match regex_first_capture(text, pattern) {
        Some(c) => Ok(c),
        None => Err(ResolveError::PatternNotFound),
    }
}

/// Extraction keeps no state: two extractions with the same text and pattern
/// give the same outcome.
pub proof fn lemma_extract_repeatable(
    text: Seq<char>,
    pattern: Seq<char>,
    first: Result<Seq<char>, ResolveError>,
    second: Result<Seq<char>, ResolveError>,
)
    requires
        first == extract_spec(text, pattern),
        second == extract_spec(text, pattern),
    ensures
        first == second,
{
}

} // verus!
