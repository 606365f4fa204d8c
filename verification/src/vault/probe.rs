//! The two filesystem-facing helpers of the resolver, held behind trusted
//! contracts: the existence-aware traversal probe and the lexical
//! absolutizer.

use vstd::prelude::*;
use crate::vault::model::{contained_in, is_canonical_root, leading_dot, lexical_target};
use path_absolutize::Absolutize;
use path_trav::PathTrav;

verus! {

/// What the existence-aware traversal probe reported of a request.
#[derive(Debug, PartialEq, Eq)]
pub enum ProbeOutcome {
    /// The target exists on disk and lies outside the root.
    Escapes,
    /// The target exists on disk and lies inside the root.
    Contained,
    /// Some component of the target does not exist yet, so existence-aware
    /// resolution could not decide; the lexical phase settles the request.
    TargetMissing,
    /// The probe itself could not run (the root is missing, a permission was
    /// denied, ...), with the reported cause.
    Failed { cause: String },
}

/// Relies on path_trav::PathTrav::is_path_trav: it canonicalizes the root
/// and the requested path (a relative request is read against the process's
/// current directory) and compares the two.  The verdict depends on the
/// state of the filesystem and of the process, so nothing is promised of
/// it; the resolver instead states what it decides for every verdict.
#[verifier::external_body]
pub(crate) fn probe_traversal(root: &str, rel: &str) -> ProbeOutcome {
    match std::path::Path::new(root).is_path_trav(std::path::Path::new(rel)) {
        Ok(true) => ProbeOutcome::Escapes,
        Ok(false) => ProbeOutcome::Contained,
        Err(std::io::ErrorKind::NotFound) => ProbeOutcome::TargetMissing,
        Err(kind) => ProbeOutcome::Failed { cause: format!("{:?}", kind) },
    }
}

/// Relies on path_absolutize::Absolutize::absolutize_virtually, with the
/// canonical root as the virtual root.  For a relative request that does
/// not begin with a `.` or `..` component the collapse is purely lexical,
/// clamps at the root, and cannot fail: the call returns exactly the
/// modeled lexical target.  For a request that does begin with `.` or `..`
/// the crate reads the process's current directory, and then either fails
/// or returns an absolute path that it has checked, component by component,
/// to start with the root.
#[verifier::external_body]
pub(crate) fn absolutize_under(rel: &str, root: &str) -> (r: Result<String, String>)
    requires
        is_canonical_root(root@),
        rel@.len() == 0 || rel@[0] != '/',
    ensures
        (match r {
            Ok(p) => (!leading_dot(rel@) ==> p@ == lexical_target(root@, rel@)) && (leading_dot(
                rel@,
            ) ==> p@.len() > 0 && p@[0] == '/' && contained_in(root@, p@)),
            Err(_) => leading_dot(rel@),
        }),
{
    match std::path::Path::new(rel).absolutize_virtually(std::path::Path::new(root)) {
        Ok(p) => Ok(p.to_string_lossy().into_owned()),
        Err(e) => Err(format!("{:?}", e)),
    }
}

} // verus!
