//! Classification of raw command line inputs that can only be URLs.

use vstd::prelude::*;

use crate::error::Error;
use crate::text::{has_prefix, matches_at};

verus! {

/// A classified raw input.
#[derive(Debug, Clone, PartialEq, Eq)]
pub enum Input {
    Url(String),
}

/// Whether a raw input carries an explicit `http(s)://` protocol marker,
/// which is what marks it as a URL.
pub open spec fn is_url_chars(s: Seq<char>) -> bool {
    matches_at(s, 0, "https://"@) || matches_at(s, 0, "http://"@)
}

/// Tests whether a raw input is a literal URL.
pub fn is_url(str: &str) -> (r: bool)
    ensures
        r == is_url_chars(str@),
{
    has_prefix(str, "https://") || has_prefix(str, "http://")
}

impl Input {
    /// Classifies a raw input, accepting exactly the literal URLs and
    /// rejecting everything else as an input error naming the input.
    pub fn parse(path: String) -> (r: Result<Input, Error>)
        ensures
            is_url_chars(path@) ==> (r matches Ok(i) && i == Input::Url(path)),
            !is_url_chars(path@) ==> (r matches Err(e) && e matches Error::Input(m) && m@
                == "Unable to understand "@ + path@),
    {
        if is_url(path.as_str()) {
            return Ok(Input::Url(path));
        }
        let mut message = String::new();
        message.append("Unable to understand ");
        message.append(path.as_str());
        assert(Seq::<char>::empty() + "Unable to understand "@ + path@ =~= "Unable to understand "@
            + path@);
        Err(Error::Input(message))
    }
}

} // verus!
