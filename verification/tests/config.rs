use machined::config::load::{to_resource, ConfigError};
use machined::config::provider::Provider;
use machined::config::runtime_svc::{
    containerd_config_toml, containerd_service, ctr_import_args, effective_services,
    validate_services, PAUSE_IMAGE,
};
use machined::config::types::{
    MachineConfig, MachineSection, PodConfig, RestartPolicy, RuntimeSection, ServiceConfig, Sysctl,
};
use machined::resources::Resource;

#[test]
fn builds_resource_object() {
    let obj = to_resource("machine: {}".into());
    assert_eq!(obj.metadata.id, "machine-config");
    match obj.spec {
        Resource::MachineConfig(s) => assert_eq!(s.raw_yaml, "machine: {}"),
        _ => panic!("wrong resource type"),
    }
}

#[test]
fn builds_containerd_service_and_toml() {
    let rt = RuntimeSection::default();
    let svc = containerd_service(&rt);
    assert_eq!(svc.id, "containerd");
    assert_eq!(
        svc.command,
        vec!["/usr/bin/containerd", "--config", "/etc/containerd/config.toml"]
    );
    assert_eq!(svc.restart, RestartPolicy::Always);
    assert!(containerd_config_toml(&rt).contains("/run/containerd/containerd.sock"));
}

#[test]
fn effective_services_injects_first_unless_disabled() {
    let user = vec![ServiceConfig {
        id: "payload".into(),
        command: vec!["/bin/payload".into()],
        depends_on: vec!["containerd".into()],
        restart: Default::default(),
        stop_grace_secs: None,
    }];
    let on = effective_services(&RuntimeSection::default(), &user);
    assert_eq!(on.len(), 2);
    assert_eq!(on[0].id, "containerd");

    let off =
        effective_services(&RuntimeSection { disabled: true, ..Default::default() }, &user);
    assert_eq!(off.len(), 1);
    assert_eq!(off[0].id, "payload");
}

#[test]
fn containerd_config_is_v3_cri_with_runc_cgroupfs() {
    let rt = RuntimeSection {
        socket: "/run/containerd/containerd.sock".into(),
        ..Default::default()
    };
    let toml_str = containerd_config_toml(&rt);
    let parsed: toml::Value = toml::from_str(&toml_str).expect("valid TOML");
    assert_eq!(parsed.get("version").and_then(|v| v.as_integer()), Some(3));
    assert!(toml_str.contains("io.containerd.cri.v1.runtime"), "{toml_str}");
    assert!(toml_str.contains("runtime_type = \"io.containerd.runc.v2\""), "{toml_str}");
    assert!(toml_str.contains("SystemdCgroup = false"), "{toml_str}");
    assert!(toml_str.contains("BinaryName = \"/boot/bin/runc\""), "{toml_str}");
    assert!(toml_str.contains("root = \"/var/lib/containerd\""), "{toml_str}");
    assert!(toml_str.contains("state = \"/run/containerd\""), "{toml_str}");
    assert!(toml_str.contains("address = \"/run/containerd/containerd.sock\""), "{toml_str}");
}

#[test]
fn config_sets_sandbox_image() {
    let toml_str = containerd_config_toml(&RuntimeSection::default());
    assert!(toml_str.contains(&format!("sandbox_image = \"{PAUSE_IMAGE}\"")), "{toml_str}");
    toml::from_str::<toml::Value>(&toml_str).expect("valid TOML");
}

#[test]
fn ctr_import_argv_is_k8s_namespaced() {
    let argv = ctr_import_args("/run/containerd/containerd.sock", "/boot/images/busybox.tar");
    assert_eq!(
        argv,
        vec![
            "--address",
            "/run/containerd/containerd.sock",
            "-n",
            "k8s.io",
            "images",
            "import",
            "/boot/images/busybox.tar",
        ]
    );
}

#[test]
fn rejects_reserved_id() {
    let bad = vec![ServiceConfig {
        id: "containerd".into(),
        command: vec!["/bin/x".into()],
        depends_on: vec![],
        restart: Default::default(),
        stop_grace_secs: None,
    }];
    assert!(validate_services(&bad).is_err());
    assert!(validate_services(&[]).is_ok());
}

#[test]
fn a_config_is_empty_by_default() {
    let cfg = MachineConfig::default();
    assert!(cfg.machine.hostname.is_none());
    assert!(cfg.machine.services.is_empty());
    assert!(cfg.machine.pods.is_empty());
    assert!(cfg.machine.install.is_none());
    assert!(!cfg.machine.runtime.disabled);
    assert_eq!(cfg.machine.runtime.binary, "/usr/bin/containerd");
}

#[test]
fn a_provider_hands_out_its_config() {
    let p = Provider::new(MachineConfig {
        machine: MachineSection {
            hostname: Some("node-1".into()),
            sysctls: vec![Sysctl { key: "a".into(), value: "1".into() }],
            pods: vec![PodConfig {
                name: "hello".into(),
                image: "busybox".into(),
                command: vec![],
                args: vec![],
                host_network: false,
            }],
            ..Default::default()
        },
    });
    assert_eq!(p.hostname(), Some("node-1"));
    assert_eq!(p.sysctls().len(), 1);
    assert_eq!(p.services().len(), 0);
    assert_eq!(p.pods()[0].name, "hello");
    assert!(p.install().is_none());
    assert!(p.network().interfaces.is_empty());
    assert!(!p.time().disabled);
    assert_eq!(p.runtime().socket, "/run/containerd/containerd.sock");
}

#[test]
fn config_errors_say_what_failed() {
    let io = ConfigError::Io { path: "/boot/config.yaml".into(), message: "gone".into() };
    assert_eq!(io.to_string(), "reading config /boot/config.yaml: gone");
    let parse = ConfigError::Parse { message: "bad".into() };
    assert_eq!(parse.to_string(), "parsing config: bad");
}
