//! The vault: a configured root directory, and the containment resolver
//! that maps every caller-supplied path either to an absolute location
//! inside that root or to a rejection.

use vstd::prelude::*;
use vstd::string::StrSliceExecFns;
use crate::vault::error::VaultError;
use crate::vault::model::{
    contained_in, dot_seg_at, dotdot_seg_at, double_sep_at, is_canonical_root, leading_dot,
    lemma_strip_no_lead, lemma_target_components, lexical_target, strip_abs,
};
use crate::vault::probe::{absolutize_under, probe_traversal, ProbeOutcome};

verus! {

/// Strip leading separators from a request: an absolute request is read as
/// if the vault root were the root of the filesystem, so only the part
/// after the leading separators is kept.
pub fn normalize_request(path: &str) -> (r: String)
    ensures
        r@ == strip_abs(path@),
{
    let n = path.unicode_len();
    let mut i: usize = 0;
    proof {
        assert(path@.subrange(0, n as int) =~= path@);
    }
    while i < n && path.get_char(i) == '/'
        invariant
            i <= n,
            n == path@.len(),
            strip_abs(path@) == strip_abs(path@.subrange(i as int, n as int)),
        decreases n - i,
    {
        proof {
            let sub = path@.subrange(i as int, n as int);
            assert(sub.len() > 0 && sub.first() == '/');
            assert(sub.drop_first() =~= path@.subrange(i as int + 1, n as int));
        }
        i = i + 1;
    }
    proof {
        let sub = path@.subrange(i as int, n as int);
        if i < n {
            assert(sub.first() == path@[i as int]);
        }
        assert(strip_abs(sub) == sub);
    }
    let rest = path.substring_char(i, n);
    rest.to_owned()
}

/// Decide whether a string is a canonical absolute directory path: it
/// begins with a separator, has no trailing separator except as the root
/// directory itself, no repeated separators, and no `.` or `..` segments.
pub fn check_canonical_root(s: &str) -> (b: bool)
    ensures
        b == is_canonical_root(s@),
{
    let n = s.unicode_len();
    if n == 0 {
        return false;
    }
    if s.get_char(0) != '/' {
        return false;
    }
    if n > 1 && s.get_char(n - 1) == '/' {
        return false;
    }
    let mut i: usize = 0;
    while i < n
        invariant
            i <= n,
            n == s@.len(),
            n > 0,
            s@[0] == '/',
            n > 1 ==> s@[n - 1] != '/',
            forall|j: int| j < i ==> !dot_seg_at(s@, j),
            forall|j: int| j < i ==> !dotdot_seg_at(s@, j),
            forall|j: int| j < i ==> !double_sep_at(s@, j),
        decreases n - i,
    {
        let c = s.get_char(i);
        if c == '/' && i > 0 && s.get_char(i - 1) == '/' {
            proof {
                assert(double_sep_at(s@, i as int));
            }
            return false;
        }
        if c == '.' && (i == 0 || s.get_char(i - 1) == '/') {
            if i + 1 == n {
                proof {
                    assert(dot_seg_at(s@, i as int));
                }
                return false;
            }
            let c1 = s.get_char(i + 1);
            if c1 == '/' {
                proof {
                    assert(dot_seg_at(s@, i as int));
                }
                return false;
            }
            if c1 == '.' {
                if i + 2 == n {
                    proof {
                        assert(dotdot_seg_at(s@, i as int));
                    }
                    return false;
                }
                if s.get_char(i + 2) == '/' {
                    proof {
                        assert(dotdot_seg_at(s@, i as int));
                    }
                    return false;
                }
            }
        }
        proof {
            assert(!dot_seg_at(s@, i as int));
            assert(!dotdot_seg_at(s@, i as int));
            assert(!double_sep_at(s@, i as int));
        }
        i = i + 1;
    }
    proof {
        assert forall|j: int| !dot_seg_at(s@, j) by {
            if 0 <= j < n {
                assert(!dot_seg_at(s@, j));
            }
        }
        assert forall|j: int| !dotdot_seg_at(s@, j) by {
            if 0 <= j < n {
                assert(!dotdot_seg_at(s@, j));
            }
        }
        assert forall|j: int| !double_sep_at(s@, j) by {
            if 0 <= j < n {
                assert(!double_sep_at(s@, j));
            }
        }
    }
    true
}

/// A vault: one configured root directory, immutable for the lifetime of
/// the value, inside which every note operation is confined.
#[derive(Clone, Debug)]
pub struct Vault {
    pub vault_path: String,
}

impl Vault {
    /// The vault root is a canonical absolute directory string.
    pub open spec fn wf(&self) -> bool {
        is_canonical_root(self.vault_path@)
    }

    /// Create a new vault over an already canonicalized absolute root.
    pub fn new(vault_path: String) -> (r: Result<Self, ()>)
        ensures
            r matches Ok(v) ==> v.wf() && v.vault_path@ == vault_path@,
            r is Ok <==> is_canonical_root(vault_path@),
    {
        if check_canonical_root(vault_path.as_str()) {
            Ok(Vault { vault_path })
        } else {
            Err(())
        }
    }

    /// Get vault path
    pub fn vault_path(&self) -> (r: &String)
        ensures
            r@ == self.vault_path@,
    {
        &self.vault_path
    }

    /// What the resolver decides once the traversal probe has spoken: a
    /// probe that saw an existing target outside the root is a traversal
    /// rejection; a probe failure is an invalid path; otherwise the request
    /// is absolutized lexically.  Every successfully resolved path is
    /// contained in the vault root.
    pub fn resolve_with_probe(&self, path: &str, probe: ProbeOutcome) -> (r: Result<
        String,
        VaultError,
    >)
        requires
            self.wf(),
        ensures
            r matches Ok(p) ==> contained_in(self.vault_path@, p@),
            probe is Escapes ==> (r matches Err(e) && (e matches VaultError::PathTraversal {
                input,
            } && input@ == path@)),
            probe matches ProbeOutcome::Failed { cause } ==> (r matches Err(e) && (
            e matches VaultError::InvalidPath { input, cause: why } && input@ == path@ && why@
                == cause@)),
            probe is Contained || probe is TargetMissing ==> {
                if !leading_dot(strip_abs(path@)) {
                    r matches Ok(p) && p@ == lexical_target(self.vault_path@, strip_abs(path@))
                } else {
                    (r matches Ok(p) && p@.len() > 0 && p@[0] == '/') || (r matches Err(e) && (
                    e matches VaultError::InvalidPath { input, .. } && input@ == path@))
                }
            },
            r matches Err(e) ==> !(e is IoError) && !(e is EmptyPath),
    {
        match probe {
            ProbeOutcome::Escapes => Err(VaultError::invalid_path_traversal(path.to_owned())),
            ProbeOutcome::Failed { cause } => Err(VaultError::invalid_path(path.to_owned(), cause)),
            ProbeOutcome::Contained | ProbeOutcome::TargetMissing => {
                let rel = normalize_request(path);
                proof {
                    lemma_strip_no_lead(path@);
                }
                match absolutize_under(rel.as_str(), self.vault_path.as_str()) {
                    Ok(p) => {
                        proof {
                            if !leading_dot(strip_abs(path@)) {
                                lemma_target_components(self.vault_path@, strip_abs(path@));
                            }
                        }
                        Ok(p)
                    },
                    Err(cause) => Err(VaultError::invalid_path(path.to_owned(), cause)),
                }
            },
        }
    }

    /// Resolve a caller-supplied path to an absolute location inside the
    /// vault root, or reject it.  Phase one probes the existing structure
    /// on disk for real traversal; phase two absolutizes the request
    /// lexically, so that a target that does not exist yet still resolves.
    /// The probe only ever vetoes: it never changes the computed path.
    pub fn resolve_path_from_vault_root(&self, path: &str) -> (r: Result<String, VaultError>)
        requires
            self.wf(),
        ensures
            r matches Ok(p) ==> contained_in(self.vault_path@, p@) && (!leading_dot(
                strip_abs(path@),
            ) ==> p@ == lexical_target(self.vault_path@, strip_abs(path@))),
            r matches Err(e) ==> (e matches VaultError::PathTraversal { input } && input@
                == path@) || (e matches VaultError::InvalidPath { input, .. } && input@ == path@),
    {
        let rel = normalize_request(path);
        let probe = probe_traversal(self.vault_path.as_str(), rel.as_str());
        self.resolve_with_probe(path, probe)
    }

    /// The note store's guard: an empty request is a caller error, rejected
    /// before any resolution is attempted; everything else is resolved.
    pub fn locate_note(&self, path: &str) -> (r: Result<String, VaultError>)
        requires
            self.wf(),
        ensures
            path@.len() == 0 ==> (r matches Err(e) && e is EmptyPath),
            path@.len() > 0 ==> {
                &&& (r matches Ok(p) ==> contained_in(self.vault_path@, p@) && (!leading_dot(
                    strip_abs(path@),
                ) ==> p@ == lexical_target(self.vault_path@, strip_abs(path@))))
                &&& (r matches Err(e) ==> (e matches VaultError::PathTraversal { input } && input@
                    == path@) || (e matches VaultError::InvalidPath { input, .. } && input@
                    == path@))
            },
    {
        if path.is_empty() {
            Err(VaultError::EmptyPath)
        } else {
            self.resolve_path_from_vault_root(path)
        }
    }
}

} // verus!
