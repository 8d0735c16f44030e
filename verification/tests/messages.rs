use wasi_provider::error::StartError;

#[test]
fn every_failure_has_its_message() {
    let cases = vec![
        (
            StartError::ModuleDataMissing,
            "Pod p container c failed load module data from run context.",
        ),
        (
            StartError::VolumeNotDeclared { volume: "v".to_string() },
            "Pod p container c failed to map volume paths: \
             no volume with the name of v found for container c",
        ),
        (
            StartError::VolumeNotReady { volume: "v".to_string() },
            "Pod p container c failed to map volume paths: Volume v has not been mounted yet",
        ),
        (
            StartError::AnnotationParseError { key: "k".to_string(), cause: "why".to_string() },
            "Pod p container c failed to parse annotation \"k\": why",
        ),
        (
            StartError::RuntimeConstructionError { cause: "why".to_string() },
            "Pod p container c failed to construct runtime: why",
        ),
        (
            StartError::RuntimeStartError { cause: "why".to_string() },
            "Pod p container c failed to start: why",
        ),
    ];
    for (error, message) in cases {
        assert_eq!(error.message("p", "c"), message);
    }
}

#[test]
fn a_message_names_pod_and_container() {
    let message = StartError::ModuleDataMissing.message("frontend-7f9c", "web");
    assert!(message.starts_with("Pod frontend-7f9c container web "));
    let message = StartError::ModuleDataMissing.message("", "");
    assert_eq!(message, "Pod  container  failed load module data from run context.");
}
