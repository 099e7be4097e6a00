pub mod profile;

use crate::text::{find_first, find_str, lemma_find_from_in_range};
use vstd::prelude::*;
use vstd::string::*;

verus! {

/// The host part of `url`: what follows the first `://` (the whole URL when
/// it names no scheme) up to the next `/`.
pub open spec fn spec_extract_domain(url: Seq<char>) -> Seq<char> {
    let rest = match find_first(url, seq![':', '/', '/']) {
        None => url,
        Some(e) => url.subrange(e + 3, url.len() as int),
    };
    match find_first(rest, seq!['/']) {
        Some(p) => rest.subrange(0, p),
        None => rest,
    }
}

/// Extracts the domain of a URL.
pub fn extract_domain(url: &str) -> (r: &str)
    ensures
        r@ == spec_extract_domain(url@),
{
    let sep = "://";
    let slash = "/";
    proof {
        reveal_strlit("://");
        reveal_strlit("/");
        assert(sep@ =~= seq![':', '/', '/']);
        assert(slash@ =~= seq!['/']);
    }
    let rest = match find_str(url, sep) {
        Some(e) => {
            proof {
                lemma_find_from_in_range(url@, sep@, 0);
            }
            let n = url.unicode_len();
            url.substring_char(e + 3, n)
        },
        None => url,
    };
    match find_str(rest, slash) {
        Some(p) => {
            proof {
                lemma_find_from_in_range(rest@, slash@, 0);
            }
            rest.substring_char(0, p)
        },
        None => rest,
    }
}

} // verus!
