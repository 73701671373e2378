//! The shape of a web-probe answer, and the rule that builds the probed URL.
//!
//! The request itself is a collaborator outside this crate; only the URL
//! normalization is engine logic.

use vstd::prelude::*;

verus! {

/// Outcome of one HEAD request.
#[derive(Debug, Clone)]
pub struct HttpResult {
    /// Response status code.
    pub status: u16,
    /// Request latency in whole milliseconds.
    pub time_ms: u128,
    /// The URL after redirects.
    pub final_url: String,
}

/// Whether the target text already names its scheme.
pub open spec fn spec_has_scheme(t: Seq<char>) -> bool {
    (t.len() >= 7 && t.subrange(0, 7) == "http://"@) || (t.len() >= 8 && t.subrange(0, 8)
        == "https://"@)
}

/// Whether `t` begins with the characters of `p`.
fn starts_with_chars(t: &str, p: &str) -> (r: bool)
    ensures
        r == (t@.len() >= p@.len() && t@.subrange(0, p@.len() as int) == p@),
{
    let t_len = t.unicode_len();
    let p_len = p.unicode_len();
    if t_len < p_len {
        proof {
            assert(!(t@.len() >= p@.len()));
        }
        return false;
    }
    let mut i: usize = 0;
    while i < p_len
        invariant
            p_len == p@.len(),
            t_len == t@.len(),
            p_len <= t_len,
            0 <= i <= p_len,
            forall|k: int| 0 <= k < i ==> t@[k] == p@[k],
        decreases p_len - i,
    {
        if t.get_char(i) != p.get_char(i) {
            proof {
                assert(t@.subrange(0, p@.len() as int)[i as int] != p@[i as int]);
            }
            return false;
        }
        i += 1;
    }
    proof {
        assert(t@.subrange(0, p@.len() as int) =~= p@);
    }
    true
}

/// The URL the web probe will request: the target itself when it already
/// carries a scheme, else the target behind the secure default scheme.
pub fn probe_url(target: &str) -> (r: String)
    ensures
        spec_has_scheme(target@) ==> r@ == target@,
        !spec_has_scheme(target@) ==> r@ == "https://"@ + target@,
{
    proof {
        reveal_strlit("http://");
        reveal_strlit("https://");
    }
    if starts_with_chars(target, "http://") || starts_with_chars(target, "https://") {
        String::from_str(target)
    } else {
        String::from_str("https://").concat(target)
    }
}

} // verus!
