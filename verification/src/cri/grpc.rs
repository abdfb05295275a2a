//! A runtime behind a socket: what its answers mean and what it is asked. The
//! transport stands outside.

use crate::cri::PodSpec;
use crate::text::same;
use vstd::prelude::*;
use vstd::string::*;

verus! {

/// The label under which a pod's sandbox is found again.
pub const POD_LABEL: &'static str = "io.machined.pod";

/// A runtime behind a socket. It is connected to anew for each request: the
/// socket may appear only when the runtime has started.
pub struct GrpcCriClient {
    socket: String,
}

/// One of the conditions that a runtime reports.
pub struct Condition {
    pub kind: String,
    pub status: bool,
}

/// Whose network a sandbox uses.
#[derive(Clone, Copy, Debug, PartialEq, Eq, Structural)]
pub enum NamespaceMode {
    /// The pod's own.
    Pod,
    /// The node's.
    Node,
}

/// The sandbox that a runtime is asked for.
pub struct SandboxConfig {
    pub name: String,
    pub uid: String,
    pub namespace: String,
    pub attempt: u32,
    pub hostname: String,
    pub log_directory: String,
    pub label: (String, String),
    pub cgroup_parent: String,
    pub network: NamespaceMode,
}

/// What a runtime is asked for.
#[verifier::ext_equal]
pub struct SandboxView {
    pub name: Seq<char>,
    pub uid: Seq<char>,
    pub namespace: Seq<char>,
    pub attempt: u32,
    pub hostname: Seq<char>,
    pub log_directory: Seq<char>,
    pub label: (Seq<char>, Seq<char>),
    pub cgroup_parent: Seq<char>,
    pub network: NamespaceMode,
}

impl View for SandboxConfig {
    type V = SandboxView;

    open spec fn view(&self) -> SandboxView {
        SandboxView {
            name: self.name@,
            uid: self.uid@,
            namespace: self.namespace@,
            attempt: self.attempt,
            hostname: self.hostname@,
            log_directory: self.log_directory@,
            label: (self.label.0@, self.label.1@),
            cgroup_parent: self.cgroup_parent@,
            network: self.network,
        }
    }
}

/// The sandbox for a pod.
pub open spec fn sandbox_of(pod: PodSpec) -> SandboxView {
    SandboxView {
        name: pod.name@,
        uid: pod.uid@,
        namespace: "default"@,
        attempt: 0,
        hostname: pod.name@,
        log_directory: Seq::empty(),
        label: (POD_LABEL@, pod.name@),
        cgroup_parent: Seq::empty(),
        network: if pod.host_network {
            NamespaceMode::Node
        } else {
            NamespaceMode::Pod
        },
    }
}

/// Whether one of the conditions says that the runtime is ready.
pub open spec fn says_ready(conditions: Seq<Condition>) -> bool {
    exists|i: int|
        0 <= i < conditions.len() && (#[trigger] conditions[i]).kind@ == "RuntimeReady"@
            && conditions[i].status
}

impl GrpcCriClient {
    /// The runtime's socket.
    pub closed spec fn at(self) -> Seq<char> {
        self.socket@
    }

    pub fn new(socket: &str) -> (r: GrpcCriClient)
        ensures
            r.at() == socket@,
    {
        GrpcCriClient { socket: socket.to_owned() }
    }

    /// The runtime's socket.
    pub fn socket(&self) -> (r: &str)
        ensures
            r@ == self.at(),
    {
        self.socket.as_str()
    }

    /// Whether the runtime is ready, by the conditions that it reports: only
    /// the one about the runtime itself counts. Where it reports no status, it
    /// is not ready.
    pub fn is_ready(&self, status: &Option<Vec<Condition>>) -> (r: bool)
        ensures
            r == (match *status {
                Some(conditions) => says_ready(conditions@),
                None => false,
            }),
    {
        match status {
            Some(conditions) => {
                let mut i: usize = 0;
                while i < conditions.len()
                    invariant
                        i <= conditions@.len(),
                        *status == Some(*conditions),
                        forall|k: int|
                            0 <= k < i ==> !((#[trigger] conditions@[k]).kind@ == "RuntimeReady"@
                                && conditions@[k].status),
                    decreases conditions@.len() - i,
                {
                    if same(conditions[i].kind.as_str(), "RuntimeReady") && conditions[i].status {
                        assert(conditions@[i as int].status);
                        return true;
                    }
                    i += 1;
                }
                false
            },
            None => false,
        }
    }

    /// The sandbox to ask for.
    pub fn sandbox_config(&self, pod: &PodSpec) -> (r: SandboxConfig)
        ensures
            r@ == sandbox_of(*pod),
    {
        SandboxConfig {
            name: pod.name.clone(),
            uid: pod.uid.clone(),
            namespace: "default".to_owned(),
            attempt: 0,
            hostname: pod.name.clone(),
            log_directory: String::new(),
            label: (POD_LABEL.to_owned(), pod.name.clone()),
            cgroup_parent: String::new(),
            network: if pod.host_network {
                NamespaceMode::Node
            } else {
                NamespaceMode::Pod
            },
        }
    }

    /// The label by which the sandbox of a pod is looked for.
    pub fn sandbox_selector(&self, name: &str) -> (r: (String, String))
        ensures
            r.0@ == POD_LABEL@,
            r.1@ == name@,
    {
        (POD_LABEL.to_owned(), name.to_owned())
    }

    /// The sandbox that is taken of those that were found: the first.
    pub fn found_sandbox(&self, ids: &Vec<String>) -> (r: Option<String>)
        ensures
            match r {
                Some(id) => ids@.len() > 0 && id@ == ids@[0]@,
                None => ids@.len() == 0,
            },
    {
        if ids.len() > 0 {
            Some(ids[0].clone())
        } else {
            None
        }
    }
}

/// The sandbox of a pod carries the label by which it is looked for, and so is
/// found again by the pod's name and by no other.
pub proof fn a_sandbox_is_found_by_its_name(pod: PodSpec, config: SandboxConfig, name: Seq<char>)
    requires
        config@ == sandbox_of(pod),
    ensures
        config.label.0@ == "io.machined.pod"@,
        config.label.1@ == name <==> name == pod.name@,
        config.name@ == pod.name@,
        config.uid@ == pod.uid@,
        config.hostname@ == pod.name@,
        config.namespace@ == "default"@,
        config.attempt == 0,
        config.network is Node <==> pod.host_network,
{
}

/// A runtime is ready as soon as one of its conditions says so of the runtime
/// itself; what it says of anything else does not count.
pub proof fn only_the_runtime_condition_counts(a: Seq<Condition>, b: Seq<Condition>, c: Condition)
    ensures
        says_ready(a + b) <==> says_ready(a) || says_ready(b),
        says_ready(seq![c]) <==> c.kind@ == "RuntimeReady"@ && c.status,
        !says_ready(Seq::empty()),
{
    if says_ready(a) {
        let i = choose|i: int|
            0 <= i < a.len() && (#[trigger] a[i]).kind@ == "RuntimeReady"@ && a[i].status;
        assert((a + b)[i] == a[i]);
    }
    if says_ready(b) {
        let i = choose|i: int|
            0 <= i < b.len() && (#[trigger] b[i]).kind@ == "RuntimeReady"@ && b[i].status;
        assert((a + b)[i + a.len()] == b[i]);
    }
    if says_ready(a + b) {
        let i = choose|i: int|
            0 <= i < (a + b).len() && (#[trigger] (a + b)[i]).kind@ == "RuntimeReady"@ && (a
                + b)[i].status;
        if i < a.len() {
            assert(a[i] == (a + b)[i]);
        } else {
            assert(b[i - a.len()] == (a + b)[i]);
        }
    }
    assert(seq![c][0] == c);
}

} // verus!
