//! Regular-expression replacement, through the `regex` crate.
use vstd::prelude::*;

verus! {

/// The text that `regex::Regex::replace_all` makes of `hay` for the
/// pattern `pattern` and replacement `rep`; `None` where
/// `regex::Regex::new` rejects the pattern.
pub uninterp spec fn regex_replace_all(pattern: Seq<char>, hay: Seq<char>, rep: Seq<char>) -> Option<Seq<char>>;

/// Compiles `pattern` with `regex::Regex::new` and replaces all its
/// matches in `hay` by `rep`. Claimed: the result is the named replacement
/// of these arguments.
#[verifier::external_body]
pub(crate) fn replace_all_matches(pattern: &str, hay: &str, rep: &str) -> (r: Option<String>)
    ensures
        match r {
            Some(s) => regex_replace_all(pattern@, hay@, rep@) == Some(s@),
            None => regex_replace_all(pattern@, hay@, rep@) is None,
        },
{
    match regex::Regex::new(pattern) {
        Ok(re) => Some(re.replace_all(hay, rep).into_owned()),
        Err(_) => None,
    }
}

} // verus!
