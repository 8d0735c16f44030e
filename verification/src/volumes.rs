//! The resolution of a container's volume mounts to host paths.

use crate::error::{Failure, StartError};
use crate::keyed::KeyedMap;
use crate::manifest::{Container, VolumeMount};
use std::path::PathBuf;
use vstd::prelude::*;

verus! {

/// A path of std. The library carries such a path through and does not look into it.
#[verifier::external_type_specification]
#[verifier::external_body]
pub struct ExPathBuf(PathBuf);

/// A volume of the pod, held in the run context under its logical name. It has
/// a host path once the volume has been mounted on the host.
#[derive(Debug, Clone, PartialEq, Eq)]
pub struct VolumeRef {
    pub host_path: Option<String>,
}

/// One resolved mount: the host path of the volume and where the sandbox sees it.
#[derive(Debug, Clone, PartialEq, Eq)]
pub struct VolumeBinding {
    pub host_path: String,
    pub guest_path: Option<String>,
}

pub struct VolumeBindingView {
    pub host_path: Seq<char>,
    pub guest_path: Option<Seq<char>>,
}

impl View for VolumeBinding {
    type V = VolumeBindingView;

    open spec fn view(&self) -> VolumeBindingView {
        VolumeBindingView {
            host_path: self.host_path@,
            guest_path: match self.guest_path {
                Some(path) => Some(path@),
                None => None,
            },
        }
    }
}

/// The path that `std::path::PathBuf::push` makes of `base` when `sub` is
/// pushed onto it, on the platform that the library is built for.
pub uninterp spec fn joined_path(base: Seq<char>, sub: Seq<char>) -> Seq<char>;

/// Calls `std::path::PathBuf::push` on the path `base` with `sub`. The contract
/// gives the resulting path a name and claims nothing else of it.
#[verifier::external_body]
fn join_path(base: &str, sub: &str) -> (joined: String)
    ensures
        joined@ == joined_path(base@, sub@),
{
    let mut path = PathBuf::from(base);
    path.push(sub);
    path.to_string_lossy().into_owned()
}

/// Why `mount` cannot be resolved against `volumes`, if it cannot.
pub open spec fn mount_failure(mount: VolumeMount, volumes: Map<Seq<char>, VolumeRef>) -> Option<
    Failure,
> {
    if !volumes.contains_key(mount.name@) {
        Some(Failure::VolumeNotDeclared { volume: mount.name@ })
    } else if volumes[mount.name@].host_path is None {
        Some(Failure::VolumeNotReady { volume: mount.name@ })
    } else {
        None
    }
}

/// The path at which the sandbox sees `mount`.
pub open spec fn guest_path_of(mount: VolumeMount) -> Seq<char> {
    match mount.sub_path {
        Some(sub) => joined_path(mount.mount_path@, sub@),
        None => mount.mount_path@,
    }
}

/// The binding that a resolvable `mount` gives.
pub open spec fn binding_of(mount: VolumeMount, volumes: Map<Seq<char>, VolumeRef>)
    -> VolumeBindingView {
    VolumeBindingView {
        host_path: volumes[mount.name@].host_path->0@,
        guest_path: Some(guest_path_of(mount)),
    }
}

/// Every mount resolves.
pub open spec fn all_resolve(mounts: Seq<VolumeMount>, volumes: Map<Seq<char>, VolumeRef>)
    -> bool {
    forall|i: int| 0 <= i < mounts.len() ==> mount_failure(#[trigger] mounts[i], volumes) is None
}

/// The mount at `i` is the first that does not resolve.
pub open spec fn first_unresolved(
    mounts: Seq<VolumeMount>,
    volumes: Map<Seq<char>, VolumeRef>,
    i: int,
) -> bool {
    &&& 0 <= i < mounts.len()
    &&& mount_failure(mounts[i], volumes) is Some
    &&& forall|j: int| 0 <= j < i ==> mount_failure(#[trigger] mounts[j], volumes) is None
}

/// The failure of the first mount that does not resolve, if there is one.
pub open spec fn resolution_failure(mounts: Seq<VolumeMount>, volumes: Map<Seq<char>, VolumeRef>)
    -> Option<Failure> {
    if all_resolve(mounts, volumes) {
        None
    } else {
        mount_failure(mounts[choose|i: int| first_unresolved(mounts, volumes, i)], volumes)
    }
}

/// The bindings of `mounts`, one for each mount and in their order.
pub open spec fn bindings_of(mounts: Seq<VolumeMount>, volumes: Map<Seq<char>, VolumeRef>) -> Seq<
    VolumeBindingView,
> {
    Seq::new(mounts.len(), |i: int| binding_of(mounts[i], volumes))
}

/// The views of a list of bindings.
pub open spec fn binding_views(bindings: Seq<VolumeBinding>) -> Seq<VolumeBindingView> {
    Seq::new(bindings.len(), |i: int| bindings[i]@)
}

/// At most one mount is the first that does not resolve.
pub proof fn lemma_first_unresolved_unique(
    mounts: Seq<VolumeMount>,
    volumes: Map<Seq<char>, VolumeRef>,
    i: int,
    j: int,
)
    requires
        first_unresolved(mounts, volumes, i),
        first_unresolved(mounts, volumes, j),
    ensures
        i == j,
{
    if i < j {
        assert(mount_failure(mounts[i], volumes) is None);
    }
    if j < i {
        assert(mount_failure(mounts[j], volumes) is None);
    }
}

/// Where some mount does not resolve, one of them is the first that does not.
pub proof fn lemma_first_unresolved_exists(
    mounts: Seq<VolumeMount>,
    volumes: Map<Seq<char>, VolumeRef>,
    i: int,
)
    requires
        0 <= i < mounts.len(),
        mount_failure(mounts[i], volumes) is Some,
    ensures
        exists|j: int| first_unresolved(mounts, volumes, j),
    decreases i,
{
    if forall|j: int| 0 <= j < i ==> mount_failure(#[trigger] mounts[j], volumes) is None {
        assert(first_unresolved(mounts, volumes, i));
    } else {
        let j = choose|j: int| 0 <= j < i && mount_failure(#[trigger] mounts[j], volumes) is Some;
        lemma_first_unresolved_exists(mounts, volumes, j);
    }
}

/// The resolution is all or nothing: it fails exactly if some mount does not
/// resolve, however many others do, and then with the failure of the first
/// such mount, which says that the volume is not declared or not ready.
pub proof fn lemma_resolution_is_atomic(mounts: Seq<VolumeMount>, volumes: Map<Seq<char>, VolumeRef>)
    ensures
        resolution_failure(mounts, volumes) is None <==> all_resolve(mounts, volumes),
        !all_resolve(mounts, volumes) ==> exists|i: int|
            first_unresolved(mounts, volumes, i) && resolution_failure(mounts, volumes)
                == mount_failure(#[trigger] mounts[i], volumes),
        resolution_failure(mounts, volumes) matches Some(failure) ==> (failure
            is VolumeNotDeclared || failure is VolumeNotReady),
{
    if !all_resolve(mounts, volumes) {
        let i = choose|i: int|
            0 <= i < mounts.len() && mount_failure(#[trigger] mounts[i], volumes) is Some;
        lemma_first_unresolved_exists(mounts, volumes, i);
        let j = choose|j: int| first_unresolved(mounts, volumes, j);
        assert(first_unresolved(mounts, volumes, j));
        assert(resolution_failure(mounts, volumes) == mount_failure(mounts[j], volumes));
    }
}

/// Resolves every mount of a container against the volumes of its pod.
///
/// The result holds a binding for each mount, in the order of the mounts, or
/// the failure of the first mount that does not resolve: nothing is handed out
/// unless every mount resolves.
pub fn volume_path_map(container: &Container, volumes: &KeyedMap<String, VolumeRef>) -> (r:
    Result<Vec<VolumeBinding>, StartError>)
    ensures
        r is Ok <==> all_resolve(container.volume_mounts@, volumes@),
        match r {
            Ok(bindings) => binding_views(bindings@) == bindings_of(
                container.volume_mounts@,
                volumes@,
            ),
            Err(e) => Some(e@) == resolution_failure(container.volume_mounts@, volumes@),
        },
{
    let mounts = &container.volume_mounts;
    let mut bindings: Vec<VolumeBinding> = Vec::new();
    let mut i: usize = 0;
    while i < mounts.len()
        invariant
            mounts@ == container.volume_mounts@,
            i <= mounts@.len(),
            bindings@.len() == i,
            forall|j: int| 0 <= j < i ==> mount_failure(#[trigger] mounts@[j], volumes@) is None,
            forall|j: int| 0 <= j < i ==> (#[trigger] bindings@[j])@ == binding_of(mounts@[j], volumes@),
        decreases mounts@.len() - i,
    {
        let mount = &mounts[i];
        let host_path = match volumes.get(&mount.name) {
            None => {
                proof {
                    assert(first_unresolved(mounts@, volumes@, i as int));
                    let c = choose|c: int| first_unresolved(mounts@, volumes@, c);
                    lemma_first_unresolved_unique(mounts@, volumes@, i as int, c);
                }
                return Err(StartError::VolumeNotDeclared { volume: mount.name.clone() });
            },
            Some(volume) => match &volume.host_path {
                None => {
                    proof {
                        assert(first_unresolved(mounts@, volumes@, i as int));
                        let c = choose|c: int| first_unresolved(mounts@, volumes@, c);
                        lemma_first_unresolved_unique(mounts@, volumes@, i as int, c);
                    }
                    return Err(StartError::VolumeNotReady { volume: mount.name.clone() });
                },
                Some(path) => path.clone(),
            },
        };
        let guest_path = match &mount.sub_path {
            Some(sub) => join_path(mount.mount_path.as_str(), sub.as_str()),
            None => mount.mount_path.clone(),
        };
        bindings.push(VolumeBinding { host_path, guest_path: Some(guest_path) });
        i += 1;
    }
    assert(binding_views(bindings@) =~= bindings_of(mounts@, volumes@));
    Ok(bindings)
}

} // verus!
