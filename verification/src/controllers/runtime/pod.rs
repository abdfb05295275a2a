//! Runs the configured pods and publishes how they are.

use crate::config::provider::Provider;
use crate::config::types::PodConfig;
use crate::controllers::runtime::NS;
use crate::controllers::{exclusive, input, Input, InputKind, InputView, Output, OutputKind};
use crate::cri::{ContainerSpec, ContainerState, CriError, PodSpec};
use crate::resources::{
    ObjectView, PodPhase, PodStatus, Resource, ResourceObject, ResourceType, ResourceView,
};
use crate::text::{copy_strings, joined};
use vstd::prelude::*;
use vstd::string::*;

verus! {

/// A pod's status as a resource.
pub open spec fn status_object(
    name: Seq<char>,
    phase: PodPhase,
    container_id: Seq<char>,
    message: Seq<char>,
) -> ObjectView {
    ObjectView {
        namespace: NS@,
        id: name,
        spec: ResourceView::PodStatus {
            name,
            phase,
            container_id,
            pod_ip: Seq::empty(),
            message,
        },
    }
}

/// A pod's status as a resource.
pub fn status_obj(name: &str, phase: PodPhase, container_id: &str, message: &str) -> (r:
    ResourceObject)
    ensures
        r@ == status_object(name@, phase, container_id@, message@),
{
    ResourceObject::new(
        NS,
        name,
        Resource::PodStatus(
            PodStatus {
                name: name.to_owned(),
                phase,
                container_id: container_id.to_owned(),
                pod_ip: String::new(),
                message: message.to_owned(),
            },
        ),
    )
}

/// What is asked of the runtime next.
#[derive(Debug)]
pub enum PodAction {
    ImagePresent { image: String },
    FindSandbox { name: String },
    RunSandbox { pod: PodSpec },
    FindContainer { sandbox: String, name: String },
    CreateContainer { sandbox: String, spec: ContainerSpec },
    StartContainer { id: String },
    ContainerState { id: String },
    /// The pod has been dealt with; this is its status.
    Report { status: ResourceObject },
}

/// What it answered.
#[derive(Debug)]
pub enum PodEvent {
    /// Whether the image is there.
    Present(Result<bool, CriError>),
    /// The sandbox or container that was found.
    Found(Result<Option<String>, CriError>),
    /// The sandbox or container that was made.
    Made(Result<String, CriError>),
    Started(Result<(), CriError>),
    State(Result<ContainerState, CriError>),
}

/// How far a pod has come.
#[derive(Clone, Copy, Debug, PartialEq, Eq, Structural)]
pub enum PodStage {
    AskingImage,
    FindingSandbox,
    MakingSandbox,
    FindingContainer,
    MakingContainer,
    /// A container was found; it may not have been started.
    Checking,
    Starting,
    Observing,
    Over,
}

/// A pod being run.
#[derive(Debug)]
pub struct PodRun {
    pod: PodConfig,
    sandbox: String,
    container: String,
    stage: PodStage,
}

/// What a pod is configured as.
#[verifier::ext_equal]
pub struct PodView {
    pub name: Seq<char>,
    pub image: Seq<char>,
    pub command: Seq<Seq<char>>,
    pub args: Seq<Seq<char>>,
    pub host_network: bool,
}

impl View for PodConfig {
    type V = PodView;

    open spec fn view(&self) -> PodView {
        PodView {
            name: self.name@,
            image: self.image@,
            command: crate::text::texts(self.command@),
            args: crate::text::texts(self.args@),
            host_network: self.host_network,
        }
    }
}

/// What is known of a pod being run.
#[verifier::ext_equal]
pub struct PodRunView {
    pub pod: PodView,
    pub sandbox: Seq<char>,
    pub container: Seq<char>,
    pub stage: PodStage,
}

impl View for PodRun {
    type V = PodRunView;

    closed spec fn view(&self) -> PodRunView {
        PodRunView {
            pod: self.pod@,
            sandbox: self.sandbox@,
            container: self.container@,
            stage: self.stage,
        }
    }
}

/// What an action says.
#[verifier::ext_equal]
pub enum PodActionView {
    ImagePresent { image: Seq<char> },
    FindSandbox { name: Seq<char> },
    RunSandbox { name: Seq<char>, uid: Seq<char>, host_network: bool },
    FindContainer { sandbox: Seq<char>, name: Seq<char> },
    CreateContainer {
        sandbox: Seq<char>,
        name: Seq<char>,
        image: Seq<char>,
        command: Seq<Seq<char>>,
        args: Seq<Seq<char>>,
    },
    StartContainer { id: Seq<char> },
    ContainerState { id: Seq<char> },
    Report { status: ObjectView },
}

impl View for PodAction {
    type V = PodActionView;

    open spec fn view(&self) -> PodActionView {
        match *self {
            PodAction::ImagePresent { image } => PodActionView::ImagePresent { image: image@ },
            PodAction::FindSandbox { name } => PodActionView::FindSandbox { name: name@ },
            PodAction::RunSandbox { pod } => PodActionView::RunSandbox {
                name: pod.name@,
                uid: pod.uid@,
                host_network: pod.host_network,
            },
            PodAction::FindContainer { sandbox, name } => PodActionView::FindContainer {
                sandbox: sandbox@,
                name: name@,
            },
            PodAction::CreateContainer { sandbox, spec } => PodActionView::CreateContainer {
                sandbox: sandbox@,
                name: spec.name@,
                image: spec.image@,
                command: crate::text::texts(spec.command@),
                args: crate::text::texts(spec.args@),
            },
            PodAction::StartContainer { id } => PodActionView::StartContainer { id: id@ },
            PodAction::ContainerState { id } => PodActionView::ContainerState { id: id@ },
            PodAction::Report { status } => PodActionView::Report { status: status@ },
        }
    }
}

/// The pod has been dealt with.
pub open spec fn reported(v: PodRunView, phase: PodPhase, id: Seq<char>, message: Seq<char>) -> (
    PodRunView,
    PodActionView,
) {
    (
        PodRunView { stage: PodStage::Over, ..v },
        PodActionView::Report { status: status_object(v.pod.name, phase, id, message) },
    )
}

/// The pod waits: nothing runs yet.
pub open spec fn waits(v: PodRunView, message: Seq<char>) -> (PodRunView, PodActionView) {
    reported(v, PodPhase::Pending, Seq::empty(), message)
}

/// The pod has a sandbox; its container is looked for.
pub open spec fn in_sandbox(v: PodRunView, sandbox: Seq<char>) -> (PodRunView, PodActionView) {
    (
        PodRunView { sandbox, stage: PodStage::FindingContainer, ..v },
        PodActionView::FindContainer { sandbox, name: v.pod.name },
    )
}

/// The container is started.
pub open spec fn starts(v: PodRunView, container: Seq<char>) -> (PodRunView, PodActionView) {
    (
        PodRunView { container, stage: PodStage::Starting, ..v },
        PodActionView::StartContainer { id: container },
    )
}

/// The container is observed.
pub open spec fn observes(v: PodRunView) -> (PodRunView, PodActionView) {
    (
        PodRunView { stage: PodStage::Observing, ..v },
        PodActionView::ContainerState { id: v.container },
    )
}

/// The events that can follow at each stage.
pub open spec fn can_follow(stage: PodStage, e: PodEvent) -> bool {
    match e {
        PodEvent::Present(_) => stage is AskingImage,
        PodEvent::Found(_) => stage is FindingSandbox || stage is FindingContainer,
        PodEvent::Made(_) => stage is MakingSandbox || stage is MakingContainer,
        PodEvent::Started(_) => stage is Starting,
        PodEvent::State(_) => stage is Checking || stage is Observing,
    }
}

/// How a pod goes on after an answer.
pub open spec fn next(v: PodRunView, e: PodEvent) -> (PodRunView, PodActionView) {
    match e {
        PodEvent::Present(Ok(true)) => (
            PodRunView { stage: PodStage::FindingSandbox, ..v },
            PodActionView::FindSandbox { name: v.pod.name },
        ),
        PodEvent::Present(Ok(false)) => waits(v, "image not present"@),
        PodEvent::Present(Err(_)) => waits(v, "cri unreachable"@),
        PodEvent::Found(Err(e)) => waits(v, crate::cri::error_text(e)),
        PodEvent::Found(Ok(found)) => if v.stage is FindingSandbox {
            match found {
                Some(id) => in_sandbox(v, id@),
                None => (
                    PodRunView { stage: PodStage::MakingSandbox, ..v },
                    PodActionView::RunSandbox {
                        name: v.pod.name,
                        uid: "uid-"@ + v.pod.name,
                        host_network: v.pod.host_network,
                    },
                ),
            }
        } else {
            match found {
                Some(id) => (
                    PodRunView { container: id@, stage: PodStage::Checking, ..v },
                    PodActionView::ContainerState { id: id@ },
                ),
                None => (
                    PodRunView { stage: PodStage::MakingContainer, ..v },
                    PodActionView::CreateContainer {
                        sandbox: v.sandbox,
                        name: v.pod.name,
                        image: v.pod.image,
                        command: v.pod.command,
                        args: v.pod.args,
                    },
                ),
            }
        },
        PodEvent::Made(Err(e)) => waits(v, crate::cri::error_text(e)),
        PodEvent::Made(Ok(id)) => if v.stage is MakingSandbox {
            in_sandbox(v, id@)
        } else {
            starts(v, id@)
        },
        PodEvent::Started(Err(e)) => waits(v, crate::cri::error_text(e)),
        PodEvent::Started(Ok(_)) => observes(v),
        PodEvent::State(state) => if v.stage is Checking {
            if state matches Ok(ContainerState::Created) {
                starts(v, v.container)
            } else {
                observes(v)
            }
        } else {
            match state {
                Ok(ContainerState::Running) => reported(
                    v,
                    PodPhase::Running,
                    v.container,
                    Seq::empty(),
                ),
                Ok(ContainerState::Exited) => reported(
                    v,
                    PodPhase::Failed,
                    v.container,
                    "container exited"@,
                ),
                Ok(_) => reported(v, PodPhase::Pending, v.container, "starting"@),
                Err(e) => reported(v, PodPhase::Pending, v.container, crate::cri::error_text(e)),
            }
        },
    }
}

impl PodRun {
    fn report(&mut self, phase: PodPhase, id: &str, message: &str) -> (r: PodAction)
        ensures
            (final(self)@, r@) == reported(old(self)@, phase, id@, message@),
    {
        self.stage = PodStage::Over;
        PodAction::Report { status: status_obj(self.pod.name.as_str(), phase, id, message) }
    }

    fn wait(&mut self, message: &str) -> (r: PodAction)
        ensures
            (final(self)@, r@) == waits(old(self)@, message@),
    {
        let none = String::new();
        self.report(PodPhase::Pending, none.as_str(), message)
    }

    fn enter(&mut self, sandbox: String) -> (r: PodAction)
        ensures
            (final(self)@, r@) == in_sandbox(old(self)@, sandbox@),
    {
        self.sandbox = sandbox.clone();
        self.stage = PodStage::FindingContainer;
        PodAction::FindContainer { sandbox, name: self.pod.name.clone() }
    }

    fn start(&mut self, container: String) -> (r: PodAction)
        ensures
            (final(self)@, r@) == starts(old(self)@, container@),
    {
        self.container = container.clone();
        self.stage = PodStage::Starting;
        PodAction::StartContainer { id: container }
    }

    fn observe(&mut self) -> (r: PodAction)
        ensures
            (final(self)@, r@) == observes(old(self)@),
    {
        self.stage = PodStage::Observing;
        PodAction::ContainerState { id: self.container.clone() }
    }

    fn found(&mut self, found: Option<String>) -> (r: PodAction)
        requires
            old(self)@.stage is FindingSandbox || old(self)@.stage is FindingContainer,
        ensures
            (final(self)@, r@) == next(old(self)@, PodEvent::Found(Ok(found))),
    {
        if self.stage == PodStage::FindingSandbox {
            match found {
                Some(id) => self.enter(id),
                None => {
                    self.stage = PodStage::MakingSandbox;
                    PodAction::RunSandbox {
                        pod: PodSpec {
                            name: self.pod.name.clone(),
                            uid: joined("uid-", self.pod.name.as_str()),
                            host_network: self.pod.host_network,
                        },
                    }
                },
            }
        } else {
            match found {
                Some(id) => {
                    self.container = id.clone();
                    self.stage = PodStage::Checking;
                    PodAction::ContainerState { id }
                },
                None => {
                    self.stage = PodStage::MakingContainer;
                    PodAction::CreateContainer {
                        sandbox: self.sandbox.clone(),
                        spec: ContainerSpec {
                            name: self.pod.name.clone(),
                            image: self.pod.image.clone(),
                            command: copy_strings(&self.pod.command),
                            args: copy_strings(&self.pod.args),
                        },
                    }
                },
            }
        }
    }

    fn observed(&mut self, state: Result<ContainerState, CriError>) -> (r: PodAction)
        requires
            old(self)@.stage is Observing,
        ensures
            (final(self)@, r@) == next(old(self)@, PodEvent::State(state)),
    {
        let id = self.container.clone();
        match state {
            Ok(ContainerState::Running) => {
                let none = String::new();
                self.report(PodPhase::Running, id.as_str(), none.as_str())
            },
            Ok(ContainerState::Exited) => self.report(
                PodPhase::Failed,
                id.as_str(),
                "container exited",
            ),
            Ok(_) => self.report(PodPhase::Pending, id.as_str(), "starting"),
            Err(e) => {
                let message = e.to_string();
                self.report(PodPhase::Pending, id.as_str(), message.as_str())
            },
        }
    }

    /// Takes an answer in and gives the next action.
    pub fn step(&mut self, event: PodEvent) -> (r: PodAction)
        requires
            can_follow(old(self)@.stage, event),
        ensures
            (final(self)@, r@) == next(old(self)@, event),
    {
        match event {
            PodEvent::Present(Ok(present)) => if present {
                self.stage = PodStage::FindingSandbox;
                PodAction::FindSandbox { name: self.pod.name.clone() }
            } else {
                self.wait("image not present")
            },
            PodEvent::Present(Err(_)) => self.wait("cri unreachable"),
            PodEvent::Found(Ok(found)) => self.found(found),
            PodEvent::Found(Err(e)) => {
                let message = e.to_string();
                self.wait(message.as_str())
            },
            PodEvent::Made(Ok(id)) => if self.stage == PodStage::MakingSandbox {
                self.enter(id)
            } else {
                self.start(id)
            },
            PodEvent::Made(Err(e)) => {
                let message = e.to_string();
                self.wait(message.as_str())
            },
            PodEvent::Started(Ok(_)) => self.observe(),
            PodEvent::Started(Err(e)) => {
                let message = e.to_string();
                self.wait(message.as_str())
            },
            PodEvent::State(state) => if self.stage == PodStage::Checking {
                match state {
                    Ok(ContainerState::Created) => {
                        let id = self.container.clone();
                        self.start(id)
                    },
                    _ => self.observe(),
                }
            } else {
                self.observed(state)
            },
        }
    }
}

/// Runs the configured pods.
pub struct PodController {
    provider: Provider,
}

/// What is to be done with the pods.
#[derive(Debug)]
pub enum PodsAction {
    /// Publish their statuses.
    Publish { statuses: Vec<ResourceObject> },
    /// Run each of them, and then publish what was reported of each.
    RunEach,
}

/// The runtime says that it is ready.
pub open spec fn is_ready(runtime: Option<ResourceObject>) -> bool {
    match runtime {
        Some(o) => o.spec matches Resource::RuntimeStatus(s) && s.ready,
        None => false,
    }
}

/// Whether the runtime, by its published status, is ready.
pub fn runtime_ready(runtime: &Option<ResourceObject>) -> (r: bool)
    ensures
        r == is_ready(*runtime),
{
    match runtime {
        Some(o) => match &o.spec {
            Resource::RuntimeStatus(s) => s.ready,
            _ => false,
        },
        None => false,
    }
}

/// The statuses of pods that wait for the runtime.
pub open spec fn pending_objects(pods: Seq<PodConfig>) -> Seq<ObjectView> {
    Seq::new(
        pods.len(),
        |i: int|
            status_object(pods[i].name@, PodPhase::Pending, Seq::empty(), "runtime not ready"@),
    )
}

impl PodController {
    /// The configuration.
    pub closed spec fn config(self) -> crate::config::types::MachineConfig {
        self.provider.config()
    }

    pub fn new(provider: Provider) -> (r: PodController)
        ensures
            r.config() == provider.config(),
    {
        PodController { provider }
    }

    /// The controller's name, under which it owns what it publishes.
    pub fn name(&self) -> (r: &'static str)
        ensures
            r@ == "pod-controller"@,
    {
        "pod-controller"
    }

    pub fn inputs(&self) -> (r: Vec<Input>)
        ensures
            crate::controllers::inputs_of(r@) == seq![
                InputView {
                    namespace: NS@,
                    typ: ResourceType::RuntimeStatus,
                    kind: InputKind::Weak,
                },
            ],
    {
        let r = vec![input(NS, ResourceType::RuntimeStatus, InputKind::Weak)];
        assert(crate::controllers::inputs_of(r@) =~= seq![
            InputView { namespace: NS@, typ: ResourceType::RuntimeStatus, kind: InputKind::Weak },
        ]);
        r
    }

    pub fn outputs(&self) -> (r: Vec<Output>)
        ensures
            r@ == seq![Output { typ: ResourceType::PodStatus, kind: OutputKind::Exclusive }],
    {
        let r = vec![exclusive(ResourceType::PodStatus)];
        assert(r@ =~= seq![Output { typ: ResourceType::PodStatus, kind: OutputKind::Exclusive }]);
        r
    }

    /// The seconds after which the controller runs again.
    pub fn resync_interval(&self) -> (r: Option<u64>)
        ensures
            r == Some(5u64),
    {
        Some(5)
    }

    /// What is done with the pods, given the runtime's published status. Where
    /// there are none, what was published of pods is taken back.
    pub fn reconcile(&self, runtime: &Option<ResourceObject>) -> (r: PodsAction)
        ensures
            ({
                let pods = self.config().machine.pods@;
                match r {
                    PodsAction::RunEach => pods.len() > 0 && is_ready(*runtime),
                    PodsAction::Publish { statuses } => !(pods.len() > 0 && is_ready(*runtime))
                        && crate::resources::objects(statuses@) == pending_objects(pods),
                }
            }),
    {
        let pods = self.provider.pods();
        if pods.len() > 0 && runtime_ready(runtime) {
            return PodsAction::RunEach;
        }
        let mut statuses: Vec<ResourceObject> = Vec::new();
        let mut i: usize = 0;
        while i < pods.len()
            invariant
                i <= pods@.len(),
                statuses@.len() == i,
                forall|k: int|
                    0 <= k < i ==> (#[trigger] statuses@[k])@ == status_object(
                        pods@[k].name@,
                        PodPhase::Pending,
                        Seq::empty(),
                        "runtime not ready"@,
                    ),
            decreases pods@.len() - i,
        {
            let none = String::new();
            statuses.push(
                status_obj(
                    pods[i].name.as_str(),
                    PodPhase::Pending,
                    none.as_str(),
                    "runtime not ready",
                ),
            );
            i += 1;
        }
        assert(crate::resources::objects(statuses@) =~= pending_objects(pods@));
        PodsAction::Publish { statuses }
    }

    /// Begins to run the `k`-th pod: its image must be there.
    pub fn run_one(&self, k: usize) -> (r: (PodRun, PodAction))
        requires
            k < self.config().machine.pods@.len(),
        ensures
            ({
                let pod = self.config().machine.pods@[k as int]@;
                &&& r.0@ == (PodRunView {
                    pod,
                    sandbox: Seq::empty(),
                    container: Seq::empty(),
                    stage: PodStage::AskingImage,
                })
                &&& r.1@ == (PodActionView::ImagePresent { image: pod.image })
            }),
    {
        let p = &self.provider.pods()[k];
        let pod = PodConfig {
            name: p.name.clone(),
            image: p.image.clone(),
            command: copy_strings(&p.command),
            args: copy_strings(&p.args),
            host_network: p.host_network,
        };
        let image = p.image.clone();
        let run = PodRun {
            pod,
            sandbox: String::new(),
            container: String::new(),
            stage: PodStage::AskingImage,
        };
        (run, PodAction::ImagePresent { image })
    }
}

/// A pod whose sandbox and container exist gets neither a second time: what is
/// found is used.
pub proof fn what_is_found_is_not_made_again(v: PodRunView, id: String)
    requires
        v.stage is FindingSandbox || v.stage is FindingContainer,
    ensures
        next(v, PodEvent::Found(Ok(Some(id)))).1 !is RunSandbox,
        next(v, PodEvent::Found(Ok(Some(id)))).1 !is CreateContainer,
{
}

/// A pod is reported as running only when its container was seen running.
pub proof fn running_means_seen_running(v: PodRunView, e: PodEvent, id: Seq<char>)
    requires
        can_follow(v.stage, e),
        next(v, e).1 == (PodActionView::Report {
            status: status_object(v.pod.name, PodPhase::Running, id, Seq::empty()),
        }),
    ensures
        v.stage is Observing,
        e == PodEvent::State(Ok(ContainerState::Running)),
{
    let status = status_object(v.pod.name, PodPhase::Running, id, Seq::empty());
    assert(next(v, e).1->status == status);
    assert(status.spec->PodStatus_phase == PodPhase::Running);
}

/// A container is created as its pod is configured: under the pod's name, from
/// its image, with its command and with its arguments, and in the pod's
/// sandbox.
pub proof fn a_container_is_what_its_pod_is_configured_with(
    pod: PodConfig,
    v: PodRunView,
    e: PodEvent,
    action: PodAction,
)
    requires
        v.pod == pod@,
        can_follow(v.stage, e),
        action@ == next(v, e).1,
    ensures
        action matches PodAction::CreateContainer { sandbox, spec } ==> {
            &&& sandbox@ == v.sandbox
            &&& spec.name@ == pod.name@
            &&& spec.image@ == pod.image@
            &&& spec.command@.len() == pod.command@.len()
            &&& forall|i: int|
                0 <= i < pod.command@.len() ==> (#[trigger] spec.command@[i])@ == pod.command@[i]@
            &&& spec.args@.len() == pod.args@.len()
            &&& forall|i: int|
                0 <= i < pod.args@.len() ==> (#[trigger] spec.args@[i])@ == pod.args@[i]@
        },
        v.stage is FindingContainer && e == PodEvent::Found(Ok(None))
            ==> action is CreateContainer,
{
    if let PodAction::CreateContainer { sandbox, spec } = action {
        let made = crate::text::texts(spec.command@);
        let asked = crate::text::texts(pod.command@);
        assert(made == asked);
        assert(made.len() == spec.command@.len() && asked.len() == pod.command@.len());
        assert forall|i: int| 0 <= i < pod.command@.len() implies (#[trigger] spec.command@[i])@
            == pod.command@[i]@ by {
            assert(made[i] == asked[i]);
        }
        let made = crate::text::texts(spec.args@);
        let asked = crate::text::texts(pod.args@);
        assert(made == asked);
        assert(made.len() == spec.args@.len() && asked.len() == pod.args@.len());
        assert forall|i: int| 0 <= i < pod.args@.len() implies (#[trigger] spec.args@[i])@
            == pod.args@[i]@ by {
            assert(made[i] == asked[i]);
        }
    }
}

/// A sandbox is run under its pod's name, with an identifier made of that name,
/// and on the host's network where the pod is configured to be.
pub proof fn a_sandbox_is_what_its_pod_is_configured_with(
    pod: PodConfig,
    v: PodRunView,
    e: PodEvent,
    action: PodAction,
)
    requires
        v.pod == pod@,
        can_follow(v.stage, e),
        action@ == next(v, e).1,
    ensures
        action matches PodAction::RunSandbox { pod: asked } ==> {
            &&& asked.name@ == pod.name@
            &&& asked.uid@ == "uid-"@ + pod.name@
            &&& asked.host_network == pod.host_network
        },
        action matches PodAction::FindSandbox { name } ==> name@ == pod.name@,
        action matches PodAction::FindContainer { sandbox, name } ==> name@ == pod.name@
            && sandbox@ == next(v, e).0.sandbox,
{
}

/// A pod keeps its configuration from step to step; what the runtime names as
/// its sandbox or its container is what is used from there on.
pub proof fn what_the_runtime_names_is_used(v: PodRunView, id: String, e: PodEvent)
    ensures
        next(v, e).0.pod == v.pod,
        v.stage is FindingSandbox ==> next(v, PodEvent::Found(Ok(Some(id)))).1 == (
        PodActionView::FindContainer { sandbox: id@, name: v.pod.name }) && next(
            v,
            PodEvent::Found(Ok(Some(id))),
        ).0.sandbox == id@,
        v.stage is MakingSandbox ==> next(v, PodEvent::Made(Ok(id))).1 == (
        PodActionView::FindContainer { sandbox: id@, name: v.pod.name }) && next(
            v,
            PodEvent::Made(Ok(id)),
        ).0.sandbox == id@,
        v.stage is FindingContainer ==> next(v, PodEvent::Found(Ok(Some(id)))).1 == (
        PodActionView::ContainerState { id: id@ }) && next(
            v,
            PodEvent::Found(Ok(Some(id))),
        ).0.container == id@,
        v.stage is MakingContainer ==> next(v, PodEvent::Made(Ok(id))).1 == (
        PodActionView::StartContainer { id: id@ }) && next(
            v,
            PodEvent::Made(Ok(id)),
        ).0.container == id@,
        e matches PodEvent::Started(_) ==> next(v, e).0.sandbox == v.sandbox && next(
            v,
            e,
        ).0.container == v.container,
        e matches PodEvent::State(_) ==> next(v, e).0.sandbox == v.sandbox && next(
            v,
            e,
        ).0.container == v.container,
{
}

/// A container that exists and was not started is started, once; one that runs
/// or has exited is only observed.
pub proof fn a_created_container_is_started(v: PodRunView, state: ContainerState)
    requires
        v.stage is Checking,
    ensures
        state is Created ==> next(v, PodEvent::State(Ok(state))).1 == (
        PodActionView::StartContainer { id: v.container }),
        !(state is Created) ==> next(v, PodEvent::State(Ok(state))).1 == (
        PodActionView::ContainerState { id: v.container }),
        next(
            PodRunView { stage: PodStage::Starting, ..v },
            PodEvent::Started(Ok(())),
        ).1 == (PodActionView::ContainerState { id: v.container }),
{
}

/// What the container was seen as is what the pod is reported as: running,
/// failed once it has exited, and pending otherwise. The status is the pod's,
/// and names its container.
pub proof fn a_pod_is_reported_as_its_container_was_seen(v: PodRunView, state: ContainerState)
    requires
        v.stage is Observing,
    ensures
        next(v, PodEvent::State(Ok(state))).1 matches PodActionView::Report { status } && {
            &&& status.namespace == "runtime"@
            &&& status.id == v.pod.name
            &&& status.spec matches ResourceView::PodStatus {
                name,
                phase,
                container_id,
                pod_ip,
                message,
            }
            &&& name == v.pod.name
            &&& container_id == v.container
            &&& phase is Running <==> state is Running
            &&& phase is Failed <==> state is Exited
            &&& state is Running ==> message.len() == 0
            &&& state is Exited ==> message == "container exited"@
        },
{
}

/// A pod whose image is not there, or whose runtime fails a request, waits: it
/// is reported as pending, with the reason, and nothing more is asked.
pub proof fn a_pod_that_cannot_be_run_waits(v: PodRunView, e: CriError)
    ensures
        ({
            let r = next(v, PodEvent::Present(Ok(false)));
            &&& r.0.stage is Over
            &&& r.1 matches PodActionView::Report { status }
            &&& status.spec matches ResourceView::PodStatus { phase, message, .. }
            &&& phase is Pending
            &&& message == "image not present"@
        }),
        ({
            let r = next(v, PodEvent::Made(Err(e)));
            &&& r.0.stage is Over
            &&& r.1 matches PodActionView::Report { status }
            &&& status.spec matches ResourceView::PodStatus { phase, message, .. }
            &&& phase is Pending
            &&& message == crate::cri::error_text(e)
        }),
        ({
            let r = next(v, PodEvent::Started(Err(e)));
            &&& r.0.stage is Over
            &&& r.1 matches PodActionView::Report { status }
            &&& status.spec matches ResourceView::PodStatus { phase, message, .. }
            &&& phase is Pending
            &&& message == crate::cri::error_text(e)
        }),
{
}

/// Where the runtime is not ready, every configured pod is reported, each as
/// pending under its own name.
pub proof fn every_pod_waits_for_the_runtime(pods: Seq<PodConfig>, i: int)
    requires
        0 <= i < pods.len(),
    ensures
        pending_objects(pods).len() == pods.len(),
        pending_objects(pods)[i].id == pods[i].name@,
        pending_objects(pods)[i].spec == (ResourceView::PodStatus {
            name: pods[i].name@,
            phase: PodPhase::Pending,
            container_id: Seq::empty(),
            pod_ip: Seq::empty(),
            message: "runtime not ready"@,
        }),
{
}

/// Pods are run only where the runtime's published status says that it is ready.
pub proof fn pods_wait_for_a_ready_runtime(o: ResourceObject)
    ensures
        !is_ready(None),
        is_ready(Some(o)) <==> (o.spec matches Resource::RuntimeStatus(s) && s.ready),
{
}

/// A failure never ends a pod's run without a word: the pod is reported as
/// pending, with the runtime's reason. Where only its container's state could
/// not be had before it was started, the container is looked at once more.
pub proof fn a_failure_is_reported(v: PodRunView, e: CriError)
    ensures
        ({
            let r = next(v, PodEvent::Found(Err(e)));
            &&& r.0.stage is Over
            &&& r.1 matches PodActionView::Report { status }
            &&& status.id == v.pod.name
            &&& status.spec matches ResourceView::PodStatus { phase, message, container_id, .. }
            &&& phase is Pending
            &&& container_id.len() == 0
            &&& message == crate::cri::error_text(e)
        }),
        ({
            let r = next(v, PodEvent::Present(Err(e)));
            &&& r.0.stage is Over
            &&& r.1 matches PodActionView::Report { status }
            &&& status.id == v.pod.name
            &&& status.spec matches ResourceView::PodStatus { phase, message, .. }
            &&& phase is Pending
            &&& message == "cri unreachable"@
        }),
        v.stage is Observing ==> {
            let r = next(v, PodEvent::State(Err(e)));
            &&& r.0.stage is Over
            &&& r.1 matches PodActionView::Report { status }
            &&& status.spec matches ResourceView::PodStatus { phase, message, container_id, .. }
            &&& phase is Pending
            &&& container_id == v.container
            &&& message == crate::cri::error_text(e)
        },
        v.stage is Checking ==> next(v, PodEvent::State(Err(e))).1 == (
        PodActionView::ContainerState { id: v.container }),
{
}

/// A pod comes to run step by step: with its image there it is given a sandbox,
/// a container in that sandbox, and a start; each id that the runtime hands out
/// is used in the next request.
pub proof fn a_pod_comes_to_run(v: PodRunView, sandbox: String, container: String)
    requires
        v.stage is AskingImage,
    ensures
        ({
            let a = next(v, PodEvent::Present(Ok(true)));
            let b = next(a.0, PodEvent::Found(Ok(None)));
            let c = next(b.0, PodEvent::Made(Ok(sandbox)));
            let d = next(c.0, PodEvent::Found(Ok(None)));
            let e = next(d.0, PodEvent::Made(Ok(container)));
            let f = next(e.0, PodEvent::Started(Ok(())));
            let g = next(f.0, PodEvent::State(Ok(ContainerState::Running)));
            &&& a.1 is FindSandbox
            &&& b.1 is RunSandbox
            &&& c.1 == (PodActionView::FindContainer { sandbox: sandbox@, name: v.pod.name })
            &&& d.1 is CreateContainer
            &&& d.1->CreateContainer_sandbox == sandbox@
            &&& e.1 == (PodActionView::StartContainer { id: container@ })
            &&& f.1 == (PodActionView::ContainerState { id: container@ })
            &&& g.1 matches PodActionView::Report { status }
            &&& status.spec == (ResourceView::PodStatus {
                name: v.pod.name,
                phase: PodPhase::Running,
                container_id: container@,
                pod_ip: Seq::empty(),
                message: Seq::empty(),
            })
        }),
{
}

} // verus!
