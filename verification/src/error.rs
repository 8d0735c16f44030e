//! Why a container could not be started, and the message that reports it.

use vstd::prelude::*;
use vstd::string::StringExecFns;

verus! {

/// A failure of the startup of one container. None of them is retried.
#[derive(Debug, Clone, PartialEq, Eq)]
pub enum StartError {
    /// The run context holds no module for the container.
    ModuleDataMissing,
    /// A mount names a volume that the pod does not declare.
    VolumeNotDeclared { volume: String },
    /// A mount names a volume that has no host path yet.
    VolumeNotReady { volume: String },
    /// The value of the annotation `key` could not be parsed.
    AnnotationParseError { key: String, cause: String },
    /// The sandbox could not be constructed.
    RuntimeConstructionError { cause: String },
    /// The sandbox was constructed and did not start.
    RuntimeStartError { cause: String },
}

pub enum Failure {
    ModuleDataMissing,
    VolumeNotDeclared { volume: Seq<char> },
    VolumeNotReady { volume: Seq<char> },
    AnnotationParseError { key: Seq<char>, cause: Seq<char> },
    RuntimeConstructionError { cause: Seq<char> },
    RuntimeStartError { cause: Seq<char> },
}

impl View for StartError {
    type V = Failure;

    open spec fn view(&self) -> Failure {
        match self {
            StartError::ModuleDataMissing => Failure::ModuleDataMissing,
            StartError::VolumeNotDeclared { volume } => Failure::VolumeNotDeclared {
                volume: volume@,
            },
            StartError::VolumeNotReady { volume } => Failure::VolumeNotReady { volume: volume@ },
            StartError::AnnotationParseError { key, cause } => Failure::AnnotationParseError {
                key: key@,
                cause: cause@,
            },
            StartError::RuntimeConstructionError { cause } => Failure::RuntimeConstructionError {
                cause: cause@,
            },
            StartError::RuntimeStartError { cause } => Failure::RuntimeStartError {
                cause: cause@,
            },
        }
    }
}

/// What the message says of the failure itself, after it has named pod and container.
pub open spec fn failure_text(failure: Failure, container: Seq<char>) -> Seq<char> {
    match failure {
        Failure::ModuleDataMissing => "failed load module data from run context."@,
        Failure::VolumeNotDeclared { volume } => "failed to map volume paths: no volume with the name of "@
            + volume + " found for container "@ + container,
        Failure::VolumeNotReady { volume } => "failed to map volume paths: Volume "@ + volume
            + " has not been mounted yet"@,
        Failure::AnnotationParseError { key, cause } => "failed to parse annotation \""@ + key
            + "\": "@ + cause,
        Failure::RuntimeConstructionError { cause } => "failed to construct runtime: "@ + cause,
        Failure::RuntimeStartError { cause } => "failed to start: "@ + cause,
    }
}

/// The message of a failure: it names the pod, the container and the failure.
pub open spec fn message_text(failure: Failure, pod: Seq<char>, container: Seq<char>) -> Seq<
    char,
> {
    "Pod "@ + pod + " container "@ + container + " "@ + failure_text(failure, container)
}

/// Every message names the pod and the container, and then the failure.
pub proof fn lemma_message_names_pod_and_container(
    failure: Failure,
    pod: Seq<char>,
    container: Seq<char>,
)
    ensures
        ({
            let text = message_text(failure, pod, container);
            let p = pod.len() as int;
            let c = container.len() as int;
            &&& text.len() == 16 + p + c + failure_text(failure, container).len()
            &&& text.subrange(4, 4 + p) == pod
            &&& text.subrange(15 + p, 15 + p + c) == container
            &&& text.subrange(16 + p + c, text.len() as int) == failure_text(failure, container)
        }),
{
    reveal_strlit("Pod ");
    reveal_strlit(" container ");
    reveal_strlit(" ");
    let text = message_text(failure, pod, container);
    let p = pod.len() as int;
    let c = container.len() as int;
    assert(text.subrange(4, 4 + p) =~= pod);
    assert(text.subrange(15 + p, 15 + p + c) =~= container);
    assert(text.subrange(16 + p + c, text.len() as int) =~= failure_text(failure, container));
}

impl StartError {
    /// The message that reports this failure of `container` of `pod`.
    pub fn message(&self, pod: &str, container: &str) -> (text: String)
        ensures
            text@ == message_text(self@, pod@, container@),
    {
        let mut text = String::new();
        text.append("Pod ");
        text.append(pod);
        text.append(" container ");
        text.append(container);
        text.append(" ");
        let ghost head = text@;
        assert(head =~= "Pod "@ + pod@ + " container "@ + container@ + " "@);
        match self {
            StartError::ModuleDataMissing => {
                text.append("failed load module data from run context.");
            },
            StartError::VolumeNotDeclared { volume } => {
                text.append("failed to map volume paths: no volume with the name of ");
                text.append(volume.as_str());
                text.append(" found for container ");
                text.append(container);
            },
            StartError::VolumeNotReady { volume } => {
                text.append("failed to map volume paths: Volume ");
                text.append(volume.as_str());
                text.append(" has not been mounted yet");
            },
            StartError::AnnotationParseError { key, cause } => {
                text.append("failed to parse annotation \"");
                text.append(key.as_str());
                text.append("\": ");
                text.append(cause.as_str());
            },
            StartError::RuntimeConstructionError { cause } => {
                text.append("failed to construct runtime: ");
                text.append(cause.as_str());
            },
            StartError::RuntimeStartError { cause } => {
                text.append("failed to start: ");
                text.append(cause.as_str());
            },
        }
        assert(text@ =~= head + failure_text(self@, container@));
        text
    }
}

} // verus!
