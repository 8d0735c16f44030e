use wasi_provider::error::StartError;
use wasi_provider::keyed::KeyedMap;
use wasi_provider::run_context::RunContext;
use wasi_provider::volumes::VolumeRef;

#[test]
fn a_module_is_taken_once() {
    let mut context = RunContext::new();
    context.insert_module("worker".to_string(), vec![1, 2, 3]);
    let first = context.take(&"worker".to_string()).unwrap();
    assert_eq!(first.module_data, vec![1, 2, 3]);
    assert_eq!(first.env_overrides.len(), 0);
    assert_eq!(context.take(&"worker".to_string()).unwrap_err(), StartError::ModuleDataMissing);
    assert_eq!(context.take(&"worker".to_string()).unwrap_err(), StartError::ModuleDataMissing);
}

#[test]
fn a_missing_module_leaves_the_overrides() {
    let mut context = RunContext::new();
    let mut vars = KeyedMap::new();
    vars.insert("A".to_string(), "1".to_string());
    context.insert_env_vars("worker".to_string(), vars);
    assert_eq!(context.take(&"worker".to_string()).unwrap_err(), StartError::ModuleDataMissing);
    // The module arrives later: the overrides are still there.
    context.insert_module("worker".to_string(), vec![7]);
    let handoff = context.take(&"worker".to_string()).unwrap();
    assert_eq!(handoff.module_data, vec![7]);
    assert_eq!(handoff.env_overrides.get(&"A".to_string()), Some(&"1".to_string()));
}

#[test]
fn overrides_leave_with_the_module() {
    let mut context = RunContext::new();
    let mut vars = KeyedMap::new();
    vars.insert("A".to_string(), "1".to_string());
    context.insert_env_vars("worker".to_string(), vars);
    context.insert_module("worker".to_string(), vec![7]);
    context.insert_module("other".to_string(), vec![8]);
    let handoff = context.take(&"worker".to_string()).unwrap();
    assert_eq!(handoff.env_overrides.len(), 1);
    // A module put in again finds no overrides left.
    context.insert_module("worker".to_string(), vec![9]);
    let again = context.take(&"worker".to_string()).unwrap();
    assert_eq!(again.module_data, vec![9]);
    assert_eq!(again.env_overrides.len(), 0);
    assert_eq!(context.take(&"other".to_string()).unwrap().module_data, vec![8]);
}

#[test]
fn volumes_stay_in_the_run_context() {
    let mut context = RunContext::new();
    context.insert_module("worker".to_string(), vec![7]);
    context.insert_volume("data".to_string(), VolumeRef { host_path: Some("/d".to_string()) });
    context.insert_volume("data".to_string(), VolumeRef { host_path: Some("/e".to_string()) });
    context.take(&"worker".to_string()).unwrap();
    assert_eq!(context.volumes().len(), 1);
    assert_eq!(
        context.volumes().get(&"data".to_string()),
        Some(&VolumeRef { host_path: Some("/e".to_string()) })
    );
}
