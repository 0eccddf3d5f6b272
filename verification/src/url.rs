//! Repository URLs and their protocol-stripped canonical form.

use vstd::prelude::*;

use crate::text::{matches_at, strip_prefix_rep, strip_prefix_repeated};

verus! {

/// A repository URL, kept as the raw string the user or a registry gave us.
#[derive(Debug, Clone, PartialEq, Eq, PartialOrd, Ord)]
pub struct Url(pub String);

impl View for Url {
    type V = Seq<char>;

    open spec fn view(&self) -> Seq<char> {
        self.0@
    }
}

/// The URL without its leading `http://` or `https://` protocol markers;
/// repeated markers are all removed, as are markers of the one protocol
/// hiding behind markers of the other.
pub open spec fn without_protocol(s: Seq<char>) -> Seq<char> {
    strip_prefix_rep(strip_prefix_rep(s, "http://"@), "https://"@)
}

impl Url {
    /// Wraps a raw string.
    pub fn new(s: &str) -> (r: Url)
        ensures
            r@ == s@,
    {
        Url(s.to_owned())
    }

    /// The URL with the protocol markers removed, so that `example.com`,
    /// `http://example.com` and `https://example.com` read the same.
    pub fn str_without_protocol(&self) -> (r: String)
        ensures
            r@ == without_protocol(self@),
    {
        proof {
            reveal_strlit("http://");
            reveal_strlit("https://");
        }
        let stripped = strip_prefix_repeated(self.0.as_str(), "http://");
        strip_prefix_repeated(stripped.as_str(), "https://")
    }
}

/// Prefixing a URL that does not already carry a protocol marker with
/// either marker does not change its protocol-stripped form. This is what
/// makes the cache filenames of `u`, `http://u` and `https://u` collide.
pub proof fn lemma_protocol_marks_collide(s: Seq<char>)
    requires
        !matches_at(s, 0, "http://"@),
    ensures
        without_protocol("http://"@ + s) == without_protocol(s),
        without_protocol("https://"@ + s) == without_protocol(s),
{
    reveal_strlit("http://");
    reveal_strlit("https://");
    let http = "http://"@;
    let https = "https://"@;
    // One marker in front strips away in one step.
    assert(("http://"@ + s).subrange(0, 7) =~= http);
    assert(("http://"@ + s).skip(7) =~= s);
    assert(strip_prefix_rep("http://"@ + s, http) == strip_prefix_rep(s, http));
    assert(strip_prefix_rep(s, http) == s);
    assert(("https://"@ + s).subrange(0, 8) =~= https);
    assert(("https://"@ + s).skip(8) =~= s);
    // An `https://` marker never looks like an `http://` marker: the
    // fifth characters differ.
    assert(!matches_at("https://"@ + s, 0, http)) by {
        if matches_at("https://"@ + s, 0, http) {
            assert(("https://"@ + s).subrange(0, 7)[4] == http[4]);
        }
    }
    assert(strip_prefix_rep("https://"@ + s, http) == "https://"@ + s);
    assert(strip_prefix_rep("https://"@ + s, https) == strip_prefix_rep(s, https));
}

} // verus!
