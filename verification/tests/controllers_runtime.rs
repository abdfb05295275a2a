use machined::config::provider::Provider;
use machined::config::types::{
    MachineConfig, MachineSection, PodConfig, RuntimeSection, TimeSection,
};
use machined::controllers::runtime::health::{HealthAction, RuntimeHealthController};
use machined::controllers::runtime::pod::{
    runtime_ready, PodAction, PodController, PodEvent, PodsAction,
};
use machined::controllers::runtime::NS;
use machined::controllers::time::sync::{TimeAction, TimeEvent, TimeSyncController};
use machined::cri::fake::FakeCriClient;
use machined::cri::grpc::{Condition, GrpcCriClient, NamespaceMode};
use machined::cri::{ContainerSpec, ContainerState, CriClient, CriError, PodSpec};
use machined::resources::{
    PodPhase, PodStatus, Resource, ResourceObject, RuntimeStatus, TimeStatus,
};

fn runtime_provider(disabled: bool) -> Provider {
    Provider::new(MachineConfig {
        machine: MachineSection {
            runtime: RuntimeSection { disabled, ..Default::default() },
            ..Default::default()
        },
    })
}

fn probe(cri: &mut FakeCriClient, disabled: bool) -> RuntimeStatus {
    let c = RuntimeHealthController::new(runtime_provider(disabled));
    let status = match c.reconcile() {
        HealthAction::Probe => {
            let ready = cri.ready();
            let version = cri.version();
            c.probed(ready, version)
        }
        HealthAction::Publish { status } => status,
    };
    assert_eq!(status.metadata.id, "containerd");
    match status.spec {
        Resource::RuntimeStatus(r) => r,
        _ => panic!("wrong type"),
    }
}

#[test]
fn publishes_ready_runtime() {
    let mut cri = FakeCriClient::new().with_version("containerd", "2.0.0").with_ready(true);
    let st = probe(&mut cri, false);
    assert!(st.ready);
    assert_eq!(st.name, "containerd");
    assert_eq!(st.version, "2.0.0");
}

#[test]
fn runtime_not_ready_is_published() {
    let mut cri = FakeCriClient::new().with_version("containerd", "2.0.0").with_ready(false);
    assert!(!probe(&mut cri, false).ready);
}

#[test]
fn unreachable_is_transient_not_error() {
    let mut cri = FakeCriClient::new();
    assert!(!probe(&mut cri, false).ready);
}

#[test]
fn disabled_does_not_probe() {
    let mut cri = FakeCriClient::new().with_version("containerd", "2.0.0").with_ready(true);
    assert!(!probe(&mut cri, true).ready);
    assert_eq!(cri.calls(), 0);
}

fn provider_with_pod(host_network: bool) -> Provider {
    Provider::new(MachineConfig {
        machine: MachineSection {
            pods: vec![PodConfig {
                name: "hello".into(),
                image: "busybox:1.36".into(),
                command: vec!["/bin/sh".into(), "-c".into()],
                args: vec!["sleep 3600".into()],
                host_network,
            }],
            ..Default::default()
        },
    })
}

fn ready_runtime() -> Option<ResourceObject> {
    Some(ResourceObject::new(
        NS,
        "containerd",
        Resource::RuntimeStatus(RuntimeStatus {
            ready: true,
            name: "containerd".into(),
            version: "2".into(),
        }),
    ))
}

fn run_pods(
    cri: &mut FakeCriClient,
    c: &PodController,
    runtime: &Option<ResourceObject>,
    pods: usize,
) -> Vec<PodStatus> {
    let statuses = match c.reconcile(runtime) {
        PodsAction::Publish { statuses } => statuses,
        PodsAction::RunEach => {
            let mut all = vec![];
            for k in 0..pods {
                let (mut run, mut action) = c.run_one(k);
                loop {
                    let event = match action {
                        PodAction::ImagePresent { image } => {
                            PodEvent::Present(cri.image_present(&image))
                        }
                        PodAction::FindSandbox { name } => PodEvent::Found(cri.find_sandbox(&name)),
                        PodAction::RunSandbox { pod } => PodEvent::Made(cri.run_pod_sandbox(&pod)),
                        PodAction::FindContainer { sandbox, name } => {
                            PodEvent::Found(cri.find_container(&sandbox, &name))
                        }
                        PodAction::CreateContainer { sandbox, spec } => {
                            PodEvent::Made(cri.create_container(&sandbox, &spec))
                        }
                        PodAction::StartContainer { id } => {
                            PodEvent::Started(cri.start_container(&id))
                        }
                        PodAction::ContainerState { id } => {
                            PodEvent::State(cri.container_state(&id))
                        }
                        PodAction::Report { status } => {
                            all.push(status);
                            break;
                        }
                    };
                    action = run.step(event);
                }
            }
            all
        }
    };
    statuses
        .into_iter()
        .map(|o| match o.spec {
            Resource::PodStatus(p) => p,
            _ => panic!("wrong type"),
        })
        .collect()
}

#[test]
fn pending_when_runtime_not_ready() {
    let mut cri = FakeCriClient::new().with_version("c", "2").with_image("busybox:1.36");
    let c = PodController::new(provider_with_pod(true));
    let st = run_pods(&mut cri, &c, &None, 1);
    assert_eq!(st[0].name, "hello");
    assert_eq!(st[0].phase, PodPhase::Pending);
    assert!(!runtime_ready(&None));
    assert!(runtime_ready(&ready_runtime()));
}

#[test]
fn runs_pod_when_ready_and_image_present() {
    let mut cri = FakeCriClient::new().with_version("c", "2").with_image("busybox:1.36");
    let c = PodController::new(provider_with_pod(true));
    let st = run_pods(&mut cri, &c, &ready_runtime(), 1);
    assert_eq!(st[0].phase, PodPhase::Running);
    assert!(!st[0].container_id.is_empty());
    assert_eq!(cri.sandbox_count(), 1);
    run_pods(&mut cri, &c, &ready_runtime(), 1);
    assert_eq!(cri.sandbox_count(), 1);
}

#[test]
fn pending_when_image_absent() {
    let mut cri = FakeCriClient::new().with_version("c", "2");
    let c = PodController::new(provider_with_pod(true));
    let st = run_pods(&mut cri, &c, &ready_runtime(), 1);
    assert_eq!(st[0].phase, PodPhase::Pending);
    assert_eq!(st[0].message, "image not present");
}

#[test]
fn fake_round_trip() {
    let mut f = FakeCriClient::new().with_version("containerd", "2.0").with_ready(true);
    assert_eq!(f.version().unwrap().runtime_name, "containerd");
    assert!(f.ready().unwrap());
    assert_eq!(f.calls(), 2);

    let mut unreachable = FakeCriClient::new();
    assert!(unreachable.version().is_err());
    assert!(unreachable.ready().is_err());
}

#[test]
fn fake_image_presence_and_pull() {
    let mut f = FakeCriClient::new().with_version("containerd", "2.0").with_image("busybox:1.36");
    assert!(f.image_present("busybox:1.36").unwrap());
    assert!(!f.image_present("nope:1").unwrap());
    f.pull_image("pulled:1").unwrap();
    assert!(f.image_present("pulled:1").unwrap());
}

#[test]
fn without_a_version_every_call_fails() {
    let unreachable = || CriError::Connect("unreachable".into());
    let pod = PodSpec { name: "p".into(), uid: "u".into(), host_network: false };
    let spec = ContainerSpec { name: "c".into(), image: "i".into(), command: vec![], args: vec![] };
    for mut f in [FakeCriClient::new().with_image("busybox:1.36"), FakeCriClient::default()] {
        assert_eq!(f.image_present("busybox:1.36").unwrap_err(), unreachable());
        assert_eq!(f.pull_image("i").unwrap_err(), unreachable());
        assert_eq!(f.find_sandbox("p").unwrap_err(), unreachable());
        assert_eq!(f.run_pod_sandbox(&pod).unwrap_err(), unreachable());
        assert_eq!(f.find_container("s", "c").unwrap_err(), unreachable());
        assert_eq!(f.create_container("s", &spec).unwrap_err(), unreachable());
        assert_eq!(f.start_container("x").unwrap_err(), unreachable());
        assert_eq!(f.container_state("x").unwrap_err(), unreachable());
        assert_eq!(f.sandbox_count(), 0);
        let f = f.with_version("containerd", "2.0");
        assert!(!f.image_present("i").unwrap(), "a failed pull adds nothing");
    }
}

#[test]
fn fake_pods_and_containers() {
    let mut f = FakeCriClient::new().with_version("containerd", "2.0");
    let pod = PodSpec { name: "p".into(), uid: "u".into(), host_network: false };
    let spec = ContainerSpec { name: "c".into(), image: "i".into(), command: vec![], args: vec![] };
    assert_eq!(f.find_sandbox("p").unwrap(), None);
    let sandbox = f.run_pod_sandbox(&pod).unwrap();
    assert_eq!(f.find_sandbox("p").unwrap(), Some(sandbox.clone()));
    assert_eq!(f.find_container(&sandbox, "c").unwrap(), None);
    let id = f.create_container(&sandbox, &spec).unwrap();
    assert_eq!(f.find_container(&sandbox, "c").unwrap(), Some(id.clone()));
    assert_eq!(f.container_state(&id).unwrap(), ContainerState::Created);
    f.start_container(&id).unwrap();
    assert_eq!(f.container_state(&id).unwrap(), ContainerState::Running);
}

#[test]
fn cri_errors_say_what_failed() {
    assert!(CriError::Connect("gone".into()).to_string().contains("gone"));
    assert!(CriError::Rpc("bad".into()).to_string().contains("bad"));
}

#[test]
fn a_sandbox_is_asked_for_by_its_label() {
    let c = GrpcCriClient::new("/run/containerd/containerd.sock");
    assert_eq!(c.socket(), "/run/containerd/containerd.sock");
    let ready = Some(vec![Condition { kind: "RuntimeReady".into(), status: true }]);
    assert!(c.is_ready(&ready));
    let not = Some(vec![Condition { kind: "RuntimeReady".into(), status: false }]);
    assert!(!c.is_ready(&not));
    assert!(!c.is_ready(&None));
    let pod = PodSpec { name: "p".into(), uid: "u".into(), host_network: true };
    let config = c.sandbox_config(&pod);
    assert_eq!(config.name, "p");
    assert_eq!(config.network, NamespaceMode::Node);
    assert_eq!(config.label, c.sandbox_selector("p"));
    assert_eq!(c.found_sandbox(&vec!["a".into(), "b".into()]), Some("a".to_string()));
    assert_eq!(c.found_sandbox(&vec![]), None);
}

fn time_provider(servers: Vec<&str>, disabled: bool) -> Provider {
    Provider::new(MachineConfig {
        machine: MachineSection {
            time: TimeSection {
                servers: servers.into_iter().map(|s| s.to_string()).collect(),
                disabled,
            },
            ..Default::default()
        },
    })
}

/// Servers that answer, with their offsets.
fn sync(
    c: &mut TimeSyncController,
    offsets: &[(&str, i128)],
    steps: &mut Vec<i128>,
) -> TimeStatus {
    let (mut run, mut action) = c.reconcile();
    loop {
        let event = match action {
            TimeAction::Query { addr } => match offsets.iter().find(|o| o.0 == addr) {
                Some(o) => TimeEvent::Offset { offset: o.1 },
                None => TimeEvent::NoAnswer,
            },
            TimeAction::Step { offset } => {
                steps.push(offset);
                TimeEvent::Stepped
            }
            TimeAction::Publish { status } => {
                c.finish(&run);
                assert_eq!(status.metadata.id, "time");
                match status.spec {
                    Resource::TimeStatus(t) => return t,
                    _ => panic!("wrong type"),
                }
            }
            TimeAction::Fail { message } => panic!("{message}"),
        };
        action = run.step(event);
    }
}

#[test]
fn syncs_and_steps_past_threshold() {
    let mut steps = vec![];
    let mut c = TimeSyncController::new(time_provider(vec!["a"], false));
    let st = sync(&mut c, &[("a:123", 500_000_000)], &mut steps);
    assert_eq!(steps, vec![500_000_000]);
    assert!(st.synced);
    assert_eq!(st.server, "a");
    assert_eq!(st.sync_count, 1);
    assert_eq!(sync(&mut c, &[("a:123", 0)], &mut steps).sync_count, 2);
}

#[test]
fn small_offset_is_not_stepped() {
    let mut steps = vec![];
    let mut c = TimeSyncController::new(time_provider(vec!["a"], false));
    let st = sync(&mut c, &[("a:123", 1_000_000)], &mut steps);
    assert!(steps.is_empty());
    assert!(st.synced);
}

#[test]
fn falls_over_to_second_server() {
    let mut steps = vec![];
    let mut c = TimeSyncController::new(time_provider(vec!["a", "b"], false));
    let st = sync(&mut c, &[("b:123", 500_000_000)], &mut steps);
    assert!(st.synced);
    assert_eq!(st.server, "b");
    assert_eq!(steps, vec![500_000_000]);
}

#[test]
fn disabled_does_not_query() {
    let mut steps = vec![];
    let mut c = TimeSyncController::new(time_provider(vec!["a"], true));
    let st = sync(&mut c, &[("a:123", 500_000_000)], &mut steps);
    assert!(steps.is_empty());
    assert!(!st.synced);
}

#[test]
fn all_unreachable_reports_unsynced() {
    let mut steps = vec![];
    let mut c = TimeSyncController::new(time_provider(vec!["a", "b"], false));
    assert!(!sync(&mut c, &[], &mut steps).synced);
}
