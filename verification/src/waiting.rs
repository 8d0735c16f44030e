//! The startup of a container: from waiting to running, or to terminated.
//!
//! The startup runs in three steps, and whoever drives it does between them
//! what only the outside world can do. [`Waiting::next`] takes the container's
//! resources out of the run context and prepares the start. The driver derives
//! the container's environment, and [`Prepared::into_request`] makes of both
//! the request for the sandbox, with a new status channel. The driver has the
//! sandbox constructed and started, and [`conclude`] registers the handle and
//! names the next state. Every failure ends the startup in the terminated
//! state; none is retried.

use crate::channel::{bounded_channel, STATUS_CHANNEL_CAPACITY};
use crate::config::{
    config_of, lemma_malformed_annotation_is_rejected, runtime_config, RuntimeConfig,
    RuntimeConfigView,
};
use crate::error::{message_text, Failure, StartError};
use crate::keyed::KeyedMap;
use crate::manifest::{Container, ContainerKey, Pod, PodKeyView};
use crate::registry::{registered, HandleRegistry};
use crate::run_context::{after_handoff, overrides_of, RunContext, RunContextView};
use crate::volumes::{
    all_resolve, binding_views, bindings_of, lemma_resolution_is_atomic, resolution_failure,
    volume_path_map, VolumeBinding,
};
use std::path::PathBuf;
use tokio::sync::mpsc::{Receiver, Sender};
use vstd::prelude::*;
use vstd::string::StringExecFns;

verus! {

/// The container is starting.
#[derive(Debug, Default, Clone, Copy, PartialEq, Eq)]
pub struct Waiting;

/// The container runs. The state owns the end of the status channel from which
/// the sandbox's messages are read.
#[derive(Debug)]
#[verifier::reject_recursive_types(M)]
pub struct Running<M> {
    pub status: Receiver<M>,
}

/// The container has ended, here always by a failure of its startup.
#[derive(Debug, Clone, PartialEq, Eq)]
pub struct Terminated {
    pub message: String,
    pub failed: bool,
}

/// The state that follows the startup.
#[derive(Debug)]
#[verifier::reject_recursive_types(M)]
pub enum NextState<M> {
    Running(Running<M>),
    Terminated(Terminated),
}

/// What a container has in hand once its resources were handed over, its
/// mounts resolved and its configuration read.
#[derive(Debug)]
pub struct Prepared {
    /// The name of the sandbox: namespace, pod and container.
    pub name: String,
    pub module_data: Vec<u8>,
    pub env_overrides: KeyedMap<String, String>,
    pub args: Vec<String>,
    pub volumes: Vec<VolumeBinding>,
    pub config: RuntimeConfig,
}

/// How the first step of the startup ended.
#[derive(Debug)]
pub enum Preparation {
    Ready(Prepared),
    Failed(Terminated),
}

/// All that the construction of a sandbox takes.
#[derive(Debug)]
#[verifier::reject_recursive_types(M)]
pub struct SandboxRequest<M> {
    pub name: String,
    pub module_data: Vec<u8>,
    /// The container's environment: the overrides on top of what the pod's
    /// specification gives.
    pub env: KeyedMap<String, String>,
    pub args: Vec<String>,
    pub volumes: Vec<VolumeBinding>,
    /// Where the sandbox writes its log.
    pub log_path: PathBuf,
    pub config: RuntimeConfig,
    /// The end of the status channel into which the sandbox sends.
    pub status_sender: Sender<M>,
}

/// What became of the construction and the start of the sandbox.
#[derive(Debug)]
pub enum Activation<H> {
    /// The sandbox runs; this is its handle.
    Started(H),
    /// The sandbox could not be constructed.
    ConstructionFailed(String),
    /// The sandbox was constructed and did not start.
    StartFailed(String),
}

/// The name of the sandbox of `container` of `pod` in `namespace`.
pub open spec fn sandbox_name(namespace: Seq<char>, pod: Seq<char>, container: Seq<char>) -> Seq<
    char,
> {
    namespace + ":"@ + pod + ":"@ + container
}

/// The failure that ends the first step, if one does: a missing module before
/// an unresolved mount, and that before a malformed annotation.
pub open spec fn preparation_failure(
    context: RunContextView,
    annotations: Map<Seq<char>, String>,
    container: Container,
) -> Option<Failure> {
    if !context.modules.contains_key(container.name@) {
        Some(Failure::ModuleDataMissing)
    } else if resolution_failure(container.volume_mounts@, context.volumes) is Some {
        resolution_failure(container.volume_mounts@, context.volumes)
    } else {
        match config_of(annotations) {
            Err(failure) => Some(failure),
            Ok(_) => None,
        }
    }
}

/// The failure that `activation` reports, if it reports one.
pub open spec fn activation_failure<H>(activation: Activation<H>) -> Option<Failure> {
    match activation {
        Activation::Started(_) => None,
        Activation::ConstructionFailed(cause) => Some(
            Failure::RuntimeConstructionError { cause: cause@ },
        ),
        Activation::StartFailed(cause) => Some(Failure::RuntimeStartError { cause: cause@ }),
    }
}

/// A container starts at most once from a run context. After a first step of
/// the startup of a container, however it ended, every further one for a
/// container of that name fails because the module is missing, whatever else
/// has changed since.
pub proof fn lemma_startup_happens_once(
    context: RunContextView,
    container: Container,
    later_annotations: Map<Seq<char>, String>,
    later_container: Container,
)
    requires
        later_container.name@ == container.name@,
    ensures
        preparation_failure(
            after_handoff(context, container.name@),
            later_annotations,
            later_container,
        ) == Some(Failure::ModuleDataMissing),
        after_handoff(after_handoff(context, container.name@), later_container.name@)
            == after_handoff(context, container.name@),
{
}

/// Mounts are resolved all or none: where any mount of the container does not
/// resolve, the first step fails, so that no request is made of the mounts
/// that do resolve. Where the module was there, the failure is that of the
/// first unresolved mount.
pub proof fn lemma_unresolved_mount_ends_startup(
    context: RunContextView,
    annotations: Map<Seq<char>, String>,
    container: Container,
)
    requires
        !all_resolve(container.volume_mounts@, context.volumes),
    ensures
        preparation_failure(context, annotations, container) is Some,
        context.modules.contains_key(container.name@) ==> {
            &&& preparation_failure(context, annotations, container) == resolution_failure(
                container.volume_mounts@,
                context.volumes,
            )
            &&& preparation_failure(context, annotations, container) matches Some(failure)
            &&& (failure is VolumeNotDeclared || failure is VolumeNotReady)
        },
{
    lemma_resolution_is_atomic(container.volume_mounts@, context.volumes);
}

/// A malformed annotation ends the startup: where the configuration cannot be
/// read, the first step fails, so that no request is made. Where the module
/// was there and every mount resolved, the failure is that of the annotation.
pub proof fn lemma_malformed_annotation_ends_startup(
    context: RunContextView,
    annotations: Map<Seq<char>, String>,
    container: Container,
)
    requires
        config_of(annotations) is Err,
    ensures
        preparation_failure(context, annotations, container) is Some,
        context.modules.contains_key(container.name@) && all_resolve(
            container.volume_mounts@,
            context.volumes,
        ) ==> {
            &&& preparation_failure(context, annotations, container) == Some(
                config_of(annotations)->Err_0,
            )
            &&& config_of(annotations)->Err_0 is AnnotationParseError
        },
{
    lemma_resolution_is_atomic(container.volume_mounts@, context.volumes);
    lemma_malformed_annotation_is_rejected(annotations);
}

/// The first step succeeds exactly if the module is there, every mount
/// resolves and no annotation is malformed.
pub proof fn lemma_preparation_succeeds(
    context: RunContextView,
    annotations: Map<Seq<char>, String>,
    container: Container,
)
    ensures
        preparation_failure(context, annotations, container) is None <==> {
            &&& context.modules.contains_key(container.name@)
            &&& all_resolve(container.volume_mounts@, context.volumes)
            &&& config_of(annotations) is Ok
        },
{
    lemma_resolution_is_atomic(container.volume_mounts@, context.volumes);
}

/// The terminated state that reports `error` for `container` of `pod`.
fn terminated(error: StartError, pod: &Pod, container: &Container) -> (state: Terminated)
    ensures
        state.failed,
        state.message@ == message_text(error@, pod.name@, container.name@),
{
    Terminated { message: error.message(pod.name.as_str(), container.name.as_str()), failed: true }
}

fn clone_args(args: &Vec<String>) -> (copy: Vec<String>)
    ensures
        copy@ == args@,
{
    let copy = args.clone();
    assert forall|i: int| 0 <= i < args@.len() implies copy@[i] == args@[i] by {
        assert(cloned::<String>(args@[i], copy@[i]));
    }
    assert(copy@ =~= args@);
    copy
}

impl Waiting {
    /// The first step of the startup of `container`, which is the latest
    /// revision of its manifest.
    ///
    /// The container's module and its overriding environment variables are
    /// taken out of the run context first, so that no second startup can get
    /// them, also where a later part of this one fails. The mounts are
    /// resolved next, and the configuration is read last. The first of these
    /// to fail ends the startup in the terminated state, with a message that
    /// names pod, container and failure.
    pub fn next(self, pod: &Pod, run_context: &mut RunContext, container: &Container) -> (r:
        Preparation)
        ensures
            final(run_context)@ == after_handoff(old(run_context)@, container.name@),
            match preparation_failure(old(run_context)@, pod.annotations@, *container) {
                Some(failure) => {
                    &&& r matches Preparation::Failed(state)
                    &&& state.failed
                    &&& state.message@ == message_text(failure, pod.name@, container.name@)
                },
                None => {
                    &&& r matches Preparation::Ready(prepared)
                    &&& prepared.name@ == sandbox_name(pod.namespace@, pod.name@, container.name@)
                    &&& prepared.module_data == old(run_context)@.modules[container.name@]
                    &&& prepared.env_overrides@ == overrides_of(
                        old(run_context)@,
                        container.name@,
                    )
                    &&& prepared.args@ == container.args@
                    &&& binding_views(prepared.volumes@) == bindings_of(
                        container.volume_mounts@,
                        old(run_context)@.volumes,
                    )
                    &&& config_of(pod.annotations@) == Ok::<RuntimeConfigView, Failure>(
                        prepared.config@,
                    )
                },
            },
    {
        let handoff = match run_context.take(&container.name) {
            Ok(handoff) => handoff,
            Err(e) => {
                return Preparation::Failed(terminated(e, pod, container));
            },
        };
        let volumes = match volume_path_map(container, run_context.volumes()) {
            Ok(volumes) => volumes,
            Err(e) => {
                return Preparation::Failed(terminated(e, pod, container));
            },
        };
        let config = match runtime_config(&pod.annotations) {
            Ok(config) => config,
            Err(e) => {
                return Preparation::Failed(terminated(e, pod, container));
            },
        };
        let mut name = pod.namespace.clone();
        name.append(":");
        name.append(pod.name.as_str());
        name.append(":");
        name.append(container.name.as_str());
        Preparation::Ready(
            Prepared {
                name,
                module_data: handoff.module_data,
                env_overrides: handoff.env_overrides,
                args: clone_args(&container.args),
                volumes,
                config,
            },
        )
    }

    /// What is reported of a container that waits.
    pub fn status(&self) -> (message: String)
        ensures
            message@ == "Module is starting."@,
    {
        "Module is starting.".to_owned()
    }
}

impl Prepared {
    /// The request for the sandbox, and the receiving end of the status channel
    /// that was made for it. `base_env` is the environment that the pod's
    /// specification gives the container; where an override has the name of
    /// one of its variables, the override stays.
    pub fn into_request<M>(self, base_env: KeyedMap<String, String>, log_path: PathBuf) -> (r: (
        SandboxRequest<M>,
        Receiver<M>,
    ))
        ensures
            r.0.name == self.name,
            r.0.module_data == self.module_data,
            r.0.env@ == base_env@.union_prefer_right(self.env_overrides@),
            r.0.args == self.args,
            r.0.volumes == self.volumes,
            r.0.log_path == log_path,
            r.0.config == self.config,
    {
        let mut env = base_env;
        env.extend(self.env_overrides);
        let (status_sender, status) = bounded_channel(STATUS_CHANNEL_CAPACITY);
        (
            SandboxRequest {
                name: self.name,
                module_data: self.module_data,
                env,
                args: self.args,
                volumes: self.volumes,
                log_path,
                config: self.config,
                status_sender,
            },
            status,
        )
    }
}

/// The last step of the startup: what follows from the activation of the sandbox.
///
/// A sandbox that runs has its handle registered for `key` under its pod, and
/// the container goes on to the running state, which gets `status`, the end of
/// the status channel from which messages are read. A sandbox that could not
/// be constructed or did not start leaves the registry as it is, and the
/// container is terminated with a message that names pod, container and failure.
pub fn conclude<H, M>(
    pod: &Pod,
    container: &Container,
    key: ContainerKey,
    activation: Activation<H>,
    status: Receiver<M>,
    registry: &mut HandleRegistry<H>,
) -> (next: NextState<M>)
    ensures
        match activation {
            Activation::Started(handle) => {
                &&& next == NextState::Running(Running { status })
                &&& final(registry)@ == registered(
                    old(registry)@,
                    PodKeyView { namespace: pod.namespace@, name: pod.name@ },
                    key@,
                    handle,
                )
            },
            _ => {
                &&& final(registry)@ == old(registry)@
                &&& next matches NextState::Terminated(state)
                &&& state.failed
                &&& state.message@ == message_text(
                    activation_failure(activation)->0,
                    pod.name@,
                    container.name@,
                )
            },
        },
{
    match activation {
        Activation::Started(handle) => {
            registry.register(pod.key(), key, handle);
            NextState::Running(Running { status })
        },
        Activation::ConstructionFailed(cause) => NextState::Terminated(
            terminated(StartError::RuntimeConstructionError { cause }, pod, container),
        ),
        Activation::StartFailed(cause) => NextState::Terminated(
            terminated(StartError::RuntimeStartError { cause }, pod, container),
        ),
    }
}

} // verus!
