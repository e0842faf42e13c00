//! The regular expressions that recognise directives and the end of a
//! thought loop, matched by the `regex` crate.

use vstd::prelude::*;

verus! {

/// The directive of mode "marat", as a whole word, case-insensitively.
pub const MARAT_RE: &'static str = r#"(\s|\n|^)(?i)marat(\s|$|\W)"#;

/// The directive of mode "dali", as a whole word, case-insensitively.
pub const DALI_RE: &'static str = r#"(\s|\n|^)(?i)dali(\s|$|\W)"#;

/// The directive of mode "cobol", as a whole word, case-insensitively.
pub const COBOL_RE: &'static str = r#"(\s|\n|^)(?i)cobol(\s|$|\W)"#;

/// The directive of mode "annus", as a whole word, case-insensitively.
pub const ANNUS_RE: &'static str = r#"(\s|\n|^)(?i)annus(\s|$|\W)"#;

/// What a response says when the model has finished its task.
pub const FINAL_THOUGHT_RE: &'static str = r#"(?i)Final\sThought"#;

/// The patterns of this crate, which all compile.
pub open spec fn is_known_pattern(p: Seq<char>) -> bool {
    ||| p == MARAT_RE@
    ||| p == DALI_RE@
    ||| p == COBOL_RE@
    ||| p == ANNUS_RE@
    ||| p == FINAL_THOUGHT_RE@
}

/// Name for what `Regex::is_match` answers for the regex compiled from
/// `pattern`, on `haystack`.
pub uninterp spec fn regex_is_match(pattern: Seq<char>, haystack: Seq<char>) -> bool;

/// Name for what `Regex::replace_all` gives back for the regex compiled from
/// `pattern`, on `haystack`, with the replacement text `replacement`.
pub uninterp spec fn regex_replace_all(
    pattern: Seq<char>,
    haystack: Seq<char>,
    replacement: Seq<char>,
) -> Seq<char>;

/// Compiles `pattern` with `regex::Regex::new` and asks `Regex::is_match`
/// whether it matches anywhere in `haystack`. The patterns this crate passes
/// compile, so the `unwrap` does not fail; what the answer is, is only
/// named.
#[verifier::external_body]
pub(crate) fn is_match(pattern: &str, haystack: &str) -> (r: bool)
    requires
        is_known_pattern(pattern@),
    ensures
        r == regex_is_match(pattern@, haystack@),
{
    regex::Regex::new(pattern).unwrap().is_match(haystack)
}

/// Compiles `pattern` with `regex::Regex::new` and replaces every
/// non-overlapping match in `haystack` with `replacement`, through
/// `Regex::replace_all`. As the regex documentation says, a haystack with
/// no match comes back unchanged; the rest of the result is only named.
#[verifier::external_body]
pub(crate) fn replace_all(pattern: &str, haystack: &str, replacement: &str) -> (r: String)
    requires
        is_known_pattern(pattern@),
    ensures
        r@ == regex_replace_all(pattern@, haystack@, replacement@),
        !regex_is_match(pattern@, haystack@) ==> r@ == haystack@,
{
    regex::Regex::new(pattern).unwrap().replace_all(haystack, replacement).into_owned()
}

} // verus!
