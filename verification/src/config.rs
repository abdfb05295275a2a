//! The machine configuration: its model, a read-only view of it, and the
//! container runtime that it manages.

pub mod load;
pub mod provider;
pub mod runtime_svc;
pub mod types;

pub use load::ConfigError;
pub use provider::Provider;
pub use runtime_svc::{
    containerd_config_toml, containerd_service, ctr_import_args, effective_services,
    validate_services, PAUSE_IMAGE, RUNTIME_SERVICE_ID,
};
pub use types::{
    InstallSection, InterfaceConfig, MachineConfig, MachineSection, NetworkSection, PodConfig,
    RestartPolicy, RouteConfig, RuntimeSection, ServiceConfig, Sysctl, TimeSection,
};
