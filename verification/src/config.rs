//! Service configuration and the path-allowlist policy.
//!
//! The allowlist compares canonical path forms: the caller resolves the
//! requested path and every configured root to canonical form (an
//! input/output step that lives outside this crate) and hands the results
//! over as a [`PathResolution`]; the policy decision itself is verified
//! here. A path that only textually matches a root is thereby rejected,
//! because its canonical form lies elsewhere.

use vstd::prelude::*;

use crate::text::append_decimal;
use crate::text::contains_at;
use crate::text::dec_digits;
use crate::text::match_at;

verus! {

/// Service configuration.
pub struct Config {
    /// Port to listen on.
    pub port: u16,
    /// Host address to bind to.
    pub host: String,
    /// API key for authentication, if any.
    pub api_key: Option<String>,
    /// Log level name.
    pub log_level: String,
    /// Allowed roots for build operations; no restriction when absent.
    pub allowed_paths: Option<Vec<String>>,
}

/// Canonical forms, resolved by the caller, of the requested path and of
/// each configured allowed root. A path or root that does not resolve
/// (say, because it does not exist) carries no canonical form.
pub struct PathResolution {
    /// Canonical form of the requested path.
    pub canonical: Option<String>,
    /// Canonical form of each configured allowed root, in order.
    pub canonical_roots: Vec<Option<String>>,
}

/// A canonical path lies at or below a canonical root: it is the root
/// itself, or continues the root at a path separator.
pub open spec fn path_under_root(path: Seq<char>, root: Seq<char>) -> bool {
    ||| path == root
    ||| (root.len() < path.len() && path.take(root.len() as int) == root && path[root.len() as int]
        == '/')
    ||| (root == seq!['/'] && path.len() > 0 && path[0] == '/')
}

/// Some root in the list admits the path.
pub open spec fn some_root_allows(roots: Seq<Option<Seq<char>>>, path: Seq<char>) -> bool {
    exists|i: int|
        0 <= i < roots.len() && (match #[trigger] roots[i] {
            Some(rt) => path_under_root(path, rt),
            None => false,
        })
}

/// The policy decision: everything is allowed without an allowlist; with
/// one, the path must resolve and its canonical form must lie under the
/// canonical form of some root.
pub open spec fn path_allowed(c: Config, r: PathResolution) -> bool {
    match c.allowed_paths {
        None => true,
        Some(_) => match r.canonical {
            Some(p) => some_root_allows(r.canonical_roots.deep_view(), p@),
            None => false,
        },
    }
}

/// Whether a canonical path lies at or below a canonical root.
fn path_under_root_exec(path: &str, root: &str) -> (r: bool)
    ensures
        r == path_under_root(path@, root@),
{
    let plen: usize = path.unicode_len();
    let rlen: usize = root.unicode_len();
    proof {
        if rlen <= plen {
            assert(contains_at(path@, root@, 0) == (path@.take(rlen as int) == root@)) by {
                assert(path@.subrange(0, rlen as int) =~= path@.take(rlen as int));
            }
        }
        assert((root@ =~= seq!['/']) == (root@.len() == 1 && root@[0] == '/'));
    }
    if rlen == plen && match_at(path, root, 0) {
        proof {
            assert(path@.take(plen as int) =~= path@);
        }
        return true;
    }
    if rlen < plen && match_at(path, root, 0) && path.get_char(rlen) == '/' {
        return true;
    }
    if rlen == 1 && root.get_char(0) == '/' && plen > 0 && path.get_char(0) == '/' {
        return true;
    }
    proof {
        if path@ == root@ {
            assert(plen == rlen);
            assert(path@.take(rlen as int) =~= root@);
        }
    }
    false
}

impl Config {
    /// The policy decision on a resolved path: allowed exactly when no
    /// allowlist is configured, or when the path resolved and its canonical
    /// form lies under the canonical form of some configured root.
    pub fn is_path_allowed(&self, resolution: &PathResolution) -> (allowed: bool)
        ensures
            allowed == path_allowed(*self, *resolution),
    {
        match &self.allowed_paths {
            None => true,
            Some(_) => match &resolution.canonical {
                None => false,
                Some(p) => {
                    let roots = &resolution.canonical_roots;
                    let mut i: usize = 0;
                    while i < roots.len()
                        invariant
                            self.allowed_paths is Some,
                            resolution.canonical == Some(*p),
                            *roots == resolution.canonical_roots,
                            0 <= i <= roots.len(),
                            forall|j: int|
                                0 <= j < i ==> (match #[trigger] roots.deep_view()[j] {
                                    Some(rt) => !path_under_root(p@, rt),
                                    None => true,
                                }),
                        decreases roots.len() - i,
                    {
                        match &roots[i] {
                            Some(rt) => {
                                if path_under_root_exec(p.as_str(), rt.as_str()) {
                                    proof {
                                        let ghost rs = roots.deep_view();
                                        assert(rs[i as int] == Some(rt@));
                                        assert(some_root_allows(rs, p@));
                                    }
                                    return true;
                                }
                            },
                            None => {},
                        }
                        proof {
                            assert(roots.deep_view()[i as int] == (match roots@[i as int] {
                                Some(s) => Some(s@),
                                None => None::<Seq<char>>,
                            }));
                        }
                        i = i + 1;
                    }
                    false
                },
            },
        }
    }

    /// The socket address to bind to: the host, a colon, and the decimal
    /// port.
    pub fn socket_addr(&self) -> (r: String)
        ensures
            r@ == self.host@ + ":"@ + dec_digits(self.port as int),
    {
        let mut r = self.host.clone();
        r.append(":");
        append_decimal(&mut r, self.port);
        r
    }

    /// Whether a presented API key authorizes a request: always when no key
    /// is configured, and exactly on a matching key otherwise.
    pub fn api_key_matches(&self, provided: &Option<String>) -> (r: bool)
        ensures
            r == (match self.api_key {
                None => true,
                Some(k) => match provided {
                    Some(p) => p@ == k@,
                    None => false,
                },
            }),
    {
        match &self.api_key {
            None => true,
            Some(k) => match provided {
                Some(p) => *p == *k,
                None => false,
            },
        }
    }
}

} // verus!
