//! Startup of one container of a pod whose containers are sandboxed WebAssembly
//! modules: the hand-off of the module's resources, the resolution of its
//! volume mounts, the runtime configuration read from the pod's annotations,
//! the request handed to the sandbox, and the registration of its handle.

pub mod channel;
pub mod config;
pub mod error;
pub mod keyed;
pub mod manifest;
pub mod registry;
pub mod run_context;
pub mod volumes;
pub mod waiting;
