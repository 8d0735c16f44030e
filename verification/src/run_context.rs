//! The resources that a pod holds for the startup of its containers, and their
//! hand-off to one container.

use crate::error::{Failure, StartError};
use crate::keyed::KeyedMap;
use crate::volumes::VolumeRef;
use vstd::prelude::*;

verus! {

/// What a pod holds for its containers until they start: the module of each
/// container, the volumes of the pod, and environment variables that override
/// those which the pod's specification gives a container.
///
/// A module can be put in and taken out, never looked at: whoever has taken it
/// is the only one to hold it.
#[derive(Debug)]
pub struct RunContext {
    modules: KeyedMap<String, Vec<u8>>,
    volumes: KeyedMap<String, VolumeRef>,
    env_vars: KeyedMap<String, KeyedMap<String, String>>,
}

pub struct RunContextView {
    /// The module of each container that has not started yet, by the container's name.
    pub modules: Map<Seq<char>, Vec<u8>>,
    /// The volumes of the pod, by their logical names.
    pub volumes: Map<Seq<char>, VolumeRef>,
    /// The overriding environment variables of each container, by the container's name.
    pub env_vars: Map<Seq<char>, KeyedMap<String, String>>,
}

impl View for RunContext {
    type V = RunContextView;

    closed spec fn view(&self) -> RunContextView {
        RunContextView {
            modules: self.modules@,
            volumes: self.volumes@,
            env_vars: self.env_vars@,
        }
    }
}

/// What one container takes out of the run context.
#[derive(Debug)]
pub struct Handoff {
    pub module_data: Vec<u8>,
    pub env_overrides: KeyedMap<String, String>,
}

/// The run context after the hand-off to `container`: where it held a module
/// for the container, the module and the container's overrides are gone.
pub open spec fn after_handoff(context: RunContextView, container: Seq<char>) -> RunContextView {
    if context.modules.contains_key(container) {
        RunContextView {
            modules: context.modules.remove(container),
            volumes: context.volumes,
            env_vars: context.env_vars.remove(container),
        }
    } else {
        context
    }
}

/// The overrides that the hand-off gives `container`: those that the run
/// context holds for it, or none.
pub open spec fn overrides_of(context: RunContextView, container: Seq<char>) -> Map<
    Seq<char>,
    String,
> {
    if context.env_vars.contains_key(container) {
        context.env_vars[container]@
    } else {
        Map::empty()
    }
}

impl RunContext {
    /// A run context that holds nothing.
    pub fn new() -> (context: Self)
        ensures
            context@.modules == Map::<Seq<char>, Vec<u8>>::empty(),
            context@.volumes == Map::<Seq<char>, VolumeRef>::empty(),
            context@.env_vars == Map::<Seq<char>, KeyedMap<String, String>>::empty(),
    {
        RunContext { modules: KeyedMap::new(), volumes: KeyedMap::new(), env_vars: KeyedMap::new() }
    }

    /// Puts in the module of `container`.
    pub fn insert_module(&mut self, container: String, module_data: Vec<u8>)
        ensures
            final(self)@ == (RunContextView {
                modules: old(self)@.modules.insert(container@, module_data),
                ..old(self)@
            }),
    {
        self.modules.insert(container, module_data);
    }

    /// Puts in the volume `name`.
    pub fn insert_volume(&mut self, name: String, volume: VolumeRef)
        ensures
            final(self)@ == (RunContextView {
                volumes: old(self)@.volumes.insert(name@, volume),
                ..old(self)@
            }),
    {
        self.volumes.insert(name, volume);
    }

    /// Puts in the overriding environment variables of `container`.
    pub fn insert_env_vars(&mut self, container: String, vars: KeyedMap<String, String>)
        ensures
            final(self)@ == (RunContextView {
                env_vars: old(self)@.env_vars.insert(container@, vars),
                ..old(self)@
            }),
    {
        self.env_vars.insert(container, vars);
    }

    /// The volumes of the pod.
    pub fn volumes(&self) -> (volumes: &KeyedMap<String, VolumeRef>)
        ensures
            volumes@ == self@.volumes,
    {
        &self.volumes
    }

    /// Hands the module of `container` and its overriding environment variables
    /// over to the caller and removes both from the run context.
    ///
    /// Where the run context holds no module for the container, because it was
    /// never put in or was taken before, nothing is removed and the hand-off
    /// fails. Where it holds no overrides, the caller gets none.
    pub fn take(&mut self, container: &String) -> (r: Result<Handoff, StartError>)
        ensures
            final(self)@ == after_handoff(old(self)@, container@),
            r is Ok <==> old(self)@.modules.contains_key(container@),
            match r {
                Ok(handoff) => {
                    &&& handoff.module_data == old(self)@.modules[container@]
                    &&& handoff.env_overrides@ == overrides_of(old(self)@, container@)
                },
                Err(e) => e@ == Failure::ModuleDataMissing,
            },
    {
        match self.modules.remove(container) {
            Some(module_data) => {
                let env_overrides = match self.env_vars.remove(container) {
                    Some(vars) => vars,
                    None => {
                        assert(old(self)@.env_vars.remove(container@) =~= old(self)@.env_vars);
                        KeyedMap::new()
                    },
                };
                Ok(Handoff { module_data, env_overrides })
            },
            None => {
                assert(old(self)@.modules.remove(container@) =~= old(self)@.modules);
                Err(StartError::ModuleDataMissing)
            },
        }
    }
}

/// A module is handed over at most once: after a hand-off to a container,
/// whether it succeeded or not, the run context holds no module for that
/// container, so that every later hand-off to it fails, and a hand-off changes
/// nothing for any other container.
pub proof fn lemma_handoff_consumes(context: RunContextView, container: Seq<char>)
    ensures
        !after_handoff(context, container).modules.contains_key(container),
        after_handoff(after_handoff(context, container), container) == after_handoff(
            context,
            container,
        ),
        forall|other: Seq<char>|
            other != container ==> (after_handoff(context, container).modules.contains_key(other)
                <==> context.modules.contains_key(other)),
{
}

} // verus!
