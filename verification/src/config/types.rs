//! The model of a machine configuration document.

use crate::ip::IpAddr;
use crate::text::copy_strings;
use vstd::prelude::*;
use vstd::string::*;

verus! {

/// A machine configuration document.
#[derive(Debug, PartialEq, Eq)]
pub struct MachineConfig {
    pub machine: MachineSection,
}

#[derive(Debug, PartialEq, Eq)]
pub struct MachineSection {
    /// The hostname to set at boot.
    pub hostname: Option<String>,
    /// Kernel parameters to set at boot.
    pub sysctls: Vec<Sysctl>,
    /// The services to supervise.
    pub services: Vec<ServiceConfig>,
    /// The node's network.
    pub network: NetworkSection,
    /// The disk to install to.
    pub install: Option<InstallSection>,
    /// Time synchronisation.
    pub time: TimeSection,
    /// The container runtime.
    pub runtime: RuntimeSection,
    /// The pods to run once the runtime is ready.
    pub pods: Vec<PodConfig>,
}

/// A kernel parameter.
#[derive(Debug, PartialEq, Eq)]
pub struct Sysctl {
    pub key: String,
    pub value: String,
}

/// A service.
#[derive(Debug, PartialEq, Eq)]
pub struct ServiceConfig {
    /// Its unique id.
    pub id: String,
    /// The program and its arguments.
    pub command: Vec<String>,
    /// The services that must run before it starts.
    pub depends_on: Vec<String>,
    /// Whether it is restarted when it exits.
    pub restart: RestartPolicy,
    /// The seconds between asking it to stop and killing it.
    pub stop_grace_secs: Option<u64>,
}

/// A pod.
#[derive(Debug, PartialEq, Eq)]
pub struct PodConfig {
    /// The name of the pod and of its container.
    pub name: String,
    /// The image, which the runtime must have.
    pub image: String,
    /// The container's entry point.
    pub command: Vec<String>,
    /// The entry point's arguments.
    pub args: Vec<String>,
    /// Whether the pod shares the node's network.
    pub host_network: bool,
}

#[derive(Clone, Copy, Debug, PartialEq, Eq, Structural)]
pub enum RestartPolicy {
    /// Never.
    Never,
    /// When it has failed.
    OnFailure,
    /// Always.
    Always,
}

impl Default for RestartPolicy {
    fn default() -> (r: RestartPolicy)
        ensures
            r == RestartPolicy::OnFailure,
    {
        RestartPolicy::OnFailure
    }
}

/// The node's network.
#[derive(Debug, PartialEq, Eq)]
pub struct NetworkSection {
    pub interfaces: Vec<InterfaceConfig>,
    pub nameservers: Vec<IpAddr>,
    pub search: Vec<String>,
}

/// What a flag is where the document does not give it.
pub fn default_true() -> (r: bool)
    ensures
        r,
{
    true
}

/// A network interface.
#[derive(Debug, PartialEq, Eq)]
pub struct InterfaceConfig {
    pub name: String,
    /// Whether it is up.
    pub up: bool,
    pub mtu: Option<u32>,
    /// Its addresses, as `ip/prefix`.
    pub addresses: Vec<String>,
    pub routes: Vec<RouteConfig>,
}

/// A route.
#[derive(Debug, PartialEq, Eq)]
pub struct RouteConfig {
    /// Its destination, as `ip/prefix`; none stands for the default route.
    pub to: Option<String>,
    /// Its gateway.
    pub via: IpAddr,
    pub metric: Option<u32>,
}

/// The disk to install to.
#[derive(Debug, PartialEq, Eq)]
pub struct InstallSection {
    pub disk: String,
    /// Whether foreign data may be overwritten.
    pub wipe: bool,
}

/// Time synchronisation.
#[derive(Debug, PartialEq, Eq)]
pub struct TimeSection {
    /// The servers to ask, in their order; none stands for the default ones.
    pub servers: Vec<String>,
    pub disabled: bool,
}

/// The container runtime.
#[derive(Debug, PartialEq, Eq)]
pub struct RuntimeSection {
    /// Whether the runtime is left alone.
    pub disabled: bool,
    /// The runtime's program.
    pub binary: String,
    /// The runtime's socket.
    pub socket: String,
    /// Where its configuration is written.
    pub config_path: String,
}

/// What a service is configured as.
#[verifier::ext_equal]
pub struct ServiceView {
    pub id: Seq<char>,
    pub command: Seq<Seq<char>>,
    pub depends_on: Seq<Seq<char>>,
    pub restart: RestartPolicy,
    pub stop_grace_secs: Option<u64>,
}

impl View for ServiceConfig {
    type V = ServiceView;

    open spec fn view(&self) -> ServiceView {
        ServiceView {
            id: self.id@,
            command: crate::text::texts(self.command@),
            depends_on: crate::text::texts(self.depends_on@),
            restart: self.restart,
            stop_grace_secs: self.stop_grace_secs,
        }
    }
}

impl Clone for ServiceConfig {
    fn clone(&self) -> (r: ServiceConfig)
        ensures
            r@ == self@,
    {
        ServiceConfig {
            id: self.id.clone(),
            command: copy_strings(&self.command),
            depends_on: copy_strings(&self.depends_on),
            restart: self.restart,
            stop_grace_secs: self.stop_grace_secs,
        }
    }
}

impl Default for RuntimeSection {
    fn default() -> (r: RuntimeSection)
        ensures
            !r.disabled,
            r.binary@ == "/usr/bin/containerd"@,
            r.socket@ == "/run/containerd/containerd.sock"@,
            r.config_path@ == "/etc/containerd/config.toml"@,
    {
        RuntimeSection {
            disabled: false,
            binary: "/usr/bin/containerd".to_owned(),
            socket: "/run/containerd/containerd.sock".to_owned(),
            config_path: "/etc/containerd/config.toml".to_owned(),
        }
    }
}

impl Default for TimeSection {
    fn default() -> (r: TimeSection)
        ensures
            r.servers@.len() == 0,
            !r.disabled,
    {
        TimeSection { servers: Vec::new(), disabled: false }
    }
}

impl Default for NetworkSection {
    fn default() -> (r: NetworkSection)
        ensures
            r.interfaces@.len() == 0,
            r.nameservers@.len() == 0,
            r.search@.len() == 0,
    {
        NetworkSection { interfaces: Vec::new(), nameservers: Vec::new(), search: Vec::new() }
    }
}

/// A section in which nothing is configured.
pub open spec fn is_default_section(m: MachineSection) -> bool {
    &&& m.hostname is None
    &&& m.sysctls@.len() == 0
    &&& m.services@.len() == 0
    &&& m.network.interfaces@.len() == 0
    &&& m.network.nameservers@.len() == 0
    &&& m.network.search@.len() == 0
    &&& m.install is None
    &&& m.time.servers@.len() == 0
    &&& !m.time.disabled
    &&& !m.runtime.disabled
    &&& m.runtime.binary@ == "/usr/bin/containerd"@
    &&& m.runtime.socket@ == "/run/containerd/containerd.sock"@
    &&& m.runtime.config_path@ == "/etc/containerd/config.toml"@
    &&& m.pods@.len() == 0
}

impl Default for MachineSection {
    fn default() -> (r: MachineSection)
        ensures
            is_default_section(r),
    {
        MachineSection {
            hostname: None,
            sysctls: Vec::new(),
            services: Vec::new(),
            network: NetworkSection::default(),
            install: None,
            time: TimeSection::default(),
            runtime: RuntimeSection::default(),
            pods: Vec::new(),
        }
    }
}

impl Default for MachineConfig {
    fn default() -> (r: MachineConfig)
        ensures
            is_default_section(r.machine),
    {
        MachineConfig { machine: MachineSection::default() }
    }
}

/// A machine of which nothing is configured has no hostname, no services, no
/// pods, no interfaces and no disk to install to; it keeps the time, and runs
/// the container runtime where that is usually installed.
pub proof fn nothing_is_configured_by_default(m: MachineSection)
    requires
        is_default_section(m),
    ensures
        m.hostname is None && m.install is None,
        m.sysctls@ =~= Seq::empty() && m.services@ =~= Seq::empty() && m.pods@ =~= Seq::empty(),
        m.network.interfaces@ =~= Seq::empty(),
        m.network.nameservers@ =~= Seq::empty() && m.network.search@ =~= Seq::empty(),
        m.time.servers@ =~= Seq::empty(),
        !(m.time.disabled || m.runtime.disabled),
        m.runtime.binary@ == "/usr/bin/containerd"@,
        m.runtime.socket@ == "/run/containerd/containerd.sock"@,
        m.runtime.config_path@ == "/etc/containerd/config.toml"@,
{
}

} // verus!
