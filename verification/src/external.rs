//! Calls into outside crates and into the parts of std that have no
//! specification here. Each function below is trusted: its contract is
//! believed, not proved; each doc comment says what it claims.

use vstd::prelude::*;
use base64::Engine;
use std::io::Write;

verus! {

/// What `regex::Regex::new` decides: whether `pattern` is a valid regex.
pub uninterp spec fn regex_accepts(pattern: Seq<char>) -> bool;

/// What `regex::Regex::replace` returns: `haystack` with the leftmost match
/// of `pattern` replaced by the expansion of `rep`.
pub uninterp spec fn regex_replaced_first(pattern: Seq<char>, haystack: Seq<char>, rep: Seq<char>) -> Seq<char>;

/// What `regex::Regex::replace_all` returns: `haystack` with every
/// non-overlapping match of `pattern` replaced by the expansion of `rep`.
pub uninterp spec fn regex_replaced_all(pattern: Seq<char>, haystack: Seq<char>, rep: Seq<char>) -> Seq<char>;

/// What `regex::Regex::captures` returns: for the leftmost match of `pattern`
/// in `haystack`, the text of each capture group (group 0 is the whole
/// match; a group that took no part is `None`); `None` where nothing matches.
pub uninterp spec fn regex_captured(pattern: Seq<char>, haystack: Seq<char>) -> Option<Seq<Option<Seq<char>>>>;

/// What `base64::engine::general_purpose::STANDARD.encode` returns for `bytes`.
pub uninterp spec fn base64_standard(bytes: Seq<u8>) -> Seq<char>;

/// What `glob_match::glob_match(glob, path)` returns.
pub uninterp spec fn glob_matches(glob: Seq<char>, path: Seq<char>) -> bool;

/// What `minifier::js::minify` yields for `source`, as text; `None` where it
/// reports an error.
pub uninterp spec fn js_minified(source: Seq<char>) -> Option<Seq<char>>;

/// The bytes that `brotli::CompressorWriter` produces for `input` with the
/// given buffer size, quality and window.
pub uninterp spec fn brotli_compressed(input: Seq<u8>, buffer_size: usize, quality: u32, lgwin: u32) -> Seq<u8>;

/// What `str::to_uppercase` returns (Unicode upper case).
pub uninterp spec fn upper_case(s: Seq<char>) -> Seq<char>;

/// What `str::to_lowercase` returns (Unicode lower case).
pub uninterp spec fn lower_case(s: Seq<char>) -> Seq<char>;

/// Compiles `pattern` with `regex::Regex::new` and applies
/// `Regex::replace(haystack, rep)`. Claims: `None` exactly where the pattern
/// is rejected; otherwise the named result of `replace`.
#[verifier::external_body]
pub(crate) fn regex_replace_first(pattern: &str, haystack: &str, rep: &str) -> (r: Option<String>)
    ensures
        r.is_some() == regex_accepts(pattern@),
        r matches Some(s) ==> s@ == regex_replaced_first(pattern@, haystack@, rep@),
{
    match regex::Regex::new(pattern) {
        Ok(re) => Some(re.replace(haystack, rep).into_owned()),
        Err(_) => None,
    }
}

/// Compiles `pattern` with `regex::Regex::new` and applies
/// `Regex::replace_all(haystack, rep)`. Claims: `None` exactly where the
/// pattern is rejected; otherwise the named result of `replace_all`.
#[verifier::external_body]
pub(crate) fn regex_replace_all(pattern: &str, haystack: &str, rep: &str) -> (r: Option<String>)
    ensures
        r.is_some() == regex_accepts(pattern@),
        r matches Some(s) ==> s@ == regex_replaced_all(pattern@, haystack@, rep@),
{
    match regex::Regex::new(pattern) {
        Ok(re) => Some(re.replace_all(haystack, rep).into_owned()),
        Err(_) => None,
    }
}

/// Compiles `pattern` with `regex::Regex::new` and applies
/// `Regex::captures(haystack)`, turning each group into its text. Claims:
/// `None` exactly where the pattern is rejected; otherwise the named result.
#[verifier::external_body]
pub(crate) fn regex_captures(pattern: &str, haystack: &str) -> (r: Option<Option<Vec<Option<String>>>>)
    ensures
        r.is_some() == regex_accepts(pattern@),
        r matches Some(c) ==> match c {
            None => regex_captured(pattern@, haystack@).is_none(),
            Some(groups) => regex_captured(pattern@, haystack@) matches Some(g) && g.len() == groups@.len()
                && forall|i: int| 0 <= i < g.len() ==> match #[trigger] groups@[i] {
                    Some(t) => g[i] == Some(t@),
                    None => g[i].is_none(),
                },
        },
{
    match regex::Regex::new(pattern) {
        Ok(re) => Some(re.captures(haystack).map(|c| c.iter().map(|m| m.map(|m| m.as_str().to_string())).collect())),
        Err(_) => None,
    }
}

/// `base64::engine::general_purpose::STANDARD.encode(bytes)`; claims its
/// named result.
#[verifier::external_body]
pub(crate) fn base64_encode(bytes: &[u8]) -> (r: String)
    ensures
        r@ == base64_standard(bytes@),
{
    base64::engine::general_purpose::STANDARD.encode(bytes)
}

/// `glob_match::glob_match(glob, path)`; claims its named result.
#[verifier::external_body]
pub(crate) fn glob_match(glob: &str, path: &str) -> (r: bool)
    ensures
        r == glob_matches(glob@, path@),
{
    glob_match::glob_match(glob, path)
}

/// `minifier::js::minify(source)` written out as text; claims its named
/// result, `None` where the minifier reports an error.
#[verifier::external_body]
pub(crate) fn minify_js(source: &str) -> (r: Option<String>)
    ensures
        r matches Some(s) ==> js_minified(source@) == Some(s@),
        r is None ==> js_minified(source@) is None,
{
    match minifier::js::minify(source) {
        Ok(m) => Some(m.to_string()),
        Err(_) => None,
    }
}

/// Compresses `input` through `brotli::CompressorWriter` into a vector
/// (writing to a vector does not fail); claims the named result.
#[verifier::external_body]
pub(crate) fn brotli_compress(input: &[u8], buffer_size: usize, quality: u32, lgwin: u32) -> (r: Vec<u8>)
    ensures
        r@ == brotli_compressed(input@, buffer_size, quality, lgwin),
{
    let mut writer = brotli::CompressorWriter::new(Vec::new(), buffer_size, quality, lgwin);
    writer.write_all(input).unwrap();
    writer.into_inner()
}

/// `str::to_uppercase`; claims its named result.
#[verifier::external_body]
pub(crate) fn to_upper(s: &str) -> (r: String)
    ensures
        r@ == upper_case(s@),
{
    s.to_uppercase()
}

/// `str::to_lowercase`; claims its named result.
#[verifier::external_body]
pub(crate) fn to_lower(s: &str) -> (r: String)
    ensures
        r@ == lower_case(s@),
{
    s.to_lowercase()
}

} // verus!
