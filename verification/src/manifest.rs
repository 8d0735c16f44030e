//! What a pod declares of itself and of one of its containers.

use crate::keyed::{Key, KeyedMap};
use vstd::prelude::*;

verus! {

/// One declared mount of a volume into a container.
#[derive(Debug, Clone, PartialEq, Eq)]
pub struct VolumeMount {
    /// The logical name of the volume.
    pub name: String,
    /// Where the volume appears inside the sandbox.
    pub mount_path: String,
    /// A path below the mount path, if the mount declares one.
    pub sub_path: Option<String>,
}

/// One revision of a container's manifest.
#[derive(Debug, Clone, PartialEq, Eq)]
pub struct Container {
    pub name: String,
    pub args: Vec<String>,
    pub volume_mounts: Vec<VolumeMount>,
}

/// The pod that owns the container.
#[derive(Debug)]
pub struct Pod {
    pub namespace: String,
    pub name: String,
    pub annotations: KeyedMap<String, String>,
}

/// The identity of a pod: its namespace and its name.
#[derive(Debug, Clone, PartialEq, Eq)]
pub struct PodKey {
    pub namespace: String,
    pub name: String,
}

pub struct PodKeyView {
    pub namespace: Seq<char>,
    pub name: Seq<char>,
}

impl View for PodKey {
    type V = PodKeyView;

    open spec fn view(&self) -> PodKeyView {
        PodKeyView { namespace: self.namespace@, name: self.name@ }
    }
}

impl Key for PodKey {
    fn same(&self, other: &Self) -> (r: bool) {
        self.namespace == other.namespace && self.name == other.name
    }
}

/// The identity of a container within its pod.
#[derive(Debug, Clone, PartialEq, Eq)]
pub enum ContainerKey {
    Init(String),
    App(String),
}

pub enum ContainerKeyView {
    Init(Seq<char>),
    App(Seq<char>),
}

impl View for ContainerKey {
    type V = ContainerKeyView;

    open spec fn view(&self) -> ContainerKeyView {
        match self {
            ContainerKey::Init(name) => ContainerKeyView::Init(name@),
            ContainerKey::App(name) => ContainerKeyView::App(name@),
        }
    }
}

impl Key for ContainerKey {
    fn same(&self, other: &Self) -> (r: bool) {
        match (self, other) {
            (ContainerKey::Init(a), ContainerKey::Init(b)) => *a == *b,
            (ContainerKey::App(a), ContainerKey::App(b)) => *a == *b,
            _ => false,
        }
    }
}

impl Pod {
    /// The key under which the pod's handles are registered.
    pub fn key(&self) -> (k: PodKey)
        ensures
            k@ == (PodKeyView { namespace: self.namespace@, name: self.name@ }),
    {
        PodKey { namespace: self.namespace.clone(), name: self.name.clone() }
    }
}

} // verus!
