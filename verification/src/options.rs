//! The choices behind the mount command's flags.

use vstd::prelude::*;

verus! {

/// What happens to the staged changes when the volume is dismounted. `P` is
/// the type of a path.
#[derive(Debug, PartialEq, Eq)]
pub enum DismountPolicy<P> {
    /// They are dropped.
    Discard,
    /// They are written to a JSON file.
    Sidecar(P),
    /// A new image with the changes in it is built.
    Rebuild(P),
}

/// Whether the volume takes writes.
#[derive(Debug, Clone, Copy, PartialEq, Eq, Structural)]
pub enum WriteMode {
    ReadOnly,
    Writable,
}

/// The dismount policy for the two paths that can be asked for.
pub open spec fn policy_for<P>(sidecar: Option<P>, rebuild: Option<P>) -> DismountPolicy<P> {
    match (sidecar, rebuild) {
        (Some(p), _) => DismountPolicy::Sidecar(p),
        (None, Some(p)) => DismountPolicy::Rebuild(p),
        (None, None) => DismountPolicy::Discard,
    }
}

/// The write mode for whether read-only is asked for.
pub open spec fn mode_for(read_only: bool) -> WriteMode {
    if read_only {
        WriteMode::ReadOnly
    } else {
        WriteMode::Writable
    }
}

/// Chooses the dismount policy: a sidecar path asks for a sidecar, else a
/// rebuild path asks for a rebuild, and with neither the changes are
/// discarded.
pub fn choose_dismount_policy<P>(sidecar: Option<P>, rebuild: Option<P>) -> (policy:
    DismountPolicy<P>)
    ensures
        policy == (match (sidecar, rebuild) {
            (Some(p), _) => DismountPolicy::Sidecar(p),
            (None, Some(p)) => DismountPolicy::Rebuild(p),
            (None, None) => DismountPolicy::Discard,
        }),
        policy == policy_for(sidecar, rebuild),
{
    if let Some(p) = sidecar {
        DismountPolicy::Sidecar(p)
    } else if let Some(p) = rebuild {
        DismountPolicy::Rebuild(p)
    } else {
        DismountPolicy::Discard
    }
}

/// Chooses the write mode: writable unless read-only is asked for.
pub fn choose_write_mode(read_only: bool) -> (mode: WriteMode)
    ensures
        mode == (if read_only {
            WriteMode::ReadOnly
        } else {
            WriteMode::Writable
        }),
        mode == mode_for(read_only),
{
    if read_only {
        WriteMode::ReadOnly
    } else {
        WriteMode::Writable
    }
}

/// A sidecar that is asked for is written to the path asked for, whatever
/// else is asked for; a rebuild alone goes to its own path; and the changes
/// are discarded only if no path is given.
pub proof fn requested_path_is_honoured<P>(p: P, sidecar: Option<P>, rebuild: Option<P>)
    ensures
        policy_for(Some(p), rebuild) == DismountPolicy::Sidecar(p),
        policy_for(None, Some(p)) == DismountPolicy::Rebuild(p),
        policy_for(sidecar, rebuild) is Discard <==> sidecar is None && rebuild is None,
{
}

/// A mount refuses writes exactly when read-only is asked for.
pub proof fn writes_are_refused_on_request_only(read_only: bool)
    ensures
        mode_for(read_only) == WriteMode::ReadOnly <==> read_only,
        mode_for(read_only) == WriteMode::Writable <==> !read_only,
{
}

} // verus!
