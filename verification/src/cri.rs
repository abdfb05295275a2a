//! The container runtime interface: what is asked of a runtime and how its
//! answers are read.

use vstd::prelude::*;
use vstd::string::*;

pub mod fake;
pub mod grpc;

pub use fake::FakeCriClient;
pub use grpc::GrpcCriClient;

verus! {

/// Why a runtime did not answer.
#[derive(Debug, PartialEq, Eq)]
pub enum CriError {
    /// It could not be reached.
    Connect(String),
    /// It refused the request.
    Rpc(String),
}

/// How an error is shown.
pub open spec fn error_text(e: CriError) -> Seq<char> {
    match e {
        CriError::Connect(m) => "cri connect: "@ + m@,
        CriError::Rpc(m) => "cri rpc: "@ + m@,
    }
}

impl CriError {
    /// How the error is shown.
    pub fn to_string(&self) -> (r: String)
        ensures
            r@ == error_text(*self),
    {
        match self {
            CriError::Connect(m) => crate::text::joined("cri connect: ", m.as_str()),
            CriError::Rpc(m) => crate::text::joined("cri rpc: ", m.as_str()),
        }
    }
}

/// Which runtime is running.
#[derive(Debug, PartialEq, Eq)]
pub struct RuntimeVersion {
    pub runtime_name: String,
    pub runtime_version: String,
}

/// A pod to be run.
#[derive(Debug, PartialEq, Eq)]
pub struct PodSpec {
    pub name: String,
    pub uid: String,
    pub host_network: bool,
}

/// A container to be run in a pod.
#[derive(Debug, PartialEq, Eq)]
pub struct ContainerSpec {
    pub name: String,
    pub image: String,
    pub command: Vec<String>,
    pub args: Vec<String>,
}

/// What a container is doing.
#[derive(Clone, Copy, Debug, PartialEq, Eq, Structural)]
pub enum ContainerState {
    Created,
    Running,
    Exited,
    Unknown,
}

/// A runtime.
pub trait CriClient {
    /// Which runtime is running.
    fn version(&mut self) -> Result<RuntimeVersion, CriError>;

    /// Whether the runtime is ready; its network need not be.
    fn ready(&mut self) -> Result<bool, CriError>;

    /// Whether the runtime has the image.
    fn image_present(&self, image: &str) -> Result<bool, CriError>;

    /// Has the runtime fetch the image.
    fn pull_image(&mut self, image: &str) -> Result<(), CriError>;

    /// The sandbox of the pod with this name.
    fn find_sandbox(&self, name: &str) -> Result<Option<String>, CriError>;

    /// Makes a sandbox and returns its id.
    fn run_pod_sandbox(&mut self, pod: &PodSpec) -> Result<String, CriError>;

    /// The container with this name in a sandbox.
    fn find_container(&self, sandbox: &str, name: &str) -> Result<Option<String>, CriError>;

    /// Makes a container and returns its id.
    fn create_container(&mut self, sandbox: &str, spec: &ContainerSpec) -> Result<
        String,
        CriError,
    >;

    /// Starts a container.
    fn start_container(&mut self, id: &str) -> Result<(), CriError>;

    /// What a container is doing.
    fn container_state(&self, id: &str) -> Result<ContainerState, CriError>;
}

/// The reason of an error is shown, and what kind of error it is.
pub proof fn the_reason_is_shown(m: String)
    ensures
        error_text(CriError::Connect(m)) == "cri connect: "@ + m@,
        error_text(CriError::Rpc(m)) == "cri rpc: "@ + m@,
{
}

} // verus!
