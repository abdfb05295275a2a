use machined::config::provider::Provider;
use machined::config::types::{
    InterfaceConfig, MachineConfig, MachineSection, NetworkSection, RouteConfig,
};
use machined::controllers::network::address::AddressController;
use machined::controllers::network::config_controller::NetworkConfigController;
use machined::controllers::network::hostname::HostnameController;
use machined::controllers::network::link::LinkController;
use machined::controllers::network::resolver::{resolv_conf, ResolverController};
use machined::controllers::network::route::RouteController;
use machined::controllers::network::{
    destroy_status, publish_status, ChangeRun, LinkState, NetAction, NetEvent, RouteReq,
    StoreWrite, NS,
};
use machined::controllers::Publication;
use machined::ip::{AddrCidr, IpAddr};
use machined::resources::{
    AddressSpec, HostnameSpec, LinkSpec, LinkStatus, ResolverSpec, Resource, ResourceObject,
    ResourceType, RouteSpec,
};
use std::collections::BTreeMap;

/// A kernel and a store of statuses, in memory.
struct Net {
    links: Vec<LinkState>,
    addresses: Vec<(String, AddrCidr)>,
    routes: Vec<RouteReq>,
    statuses: BTreeMap<String, Resource>,
    routes_need_address: bool,
    down_fails: bool,
}

impl Net {
    fn with_link(name: &str, mtu: u32) -> Net {
        Net {
            links: vec![LinkState { name: name.into(), up: false, mtu, mac: "aa".into() }],
            addresses: vec![],
            routes: vec![],
            statuses: BTreeMap::new(),
            routes_need_address: false,
            down_fails: false,
        }
    }

    fn perform(&mut self, action: NetAction) -> NetEvent {
        match action {
            NetAction::SetLinkUp { name, up } => {
                if !up && self.down_fails {
                    return NetEvent::Failed {
                        not_found: false,
                        message: "transient revert failure".into(),
                    };
                }
                match self.links.iter_mut().find(|l| l.name == name) {
                    Some(l) => {
                        l.up = up;
                        NetEvent::Done
                    }
                    None => NetEvent::Failed { not_found: true, message: "no link".into() },
                }
            }
            NetAction::SetMtu { name, mtu } => {
                self.links.iter_mut().find(|l| l.name == name).unwrap().mtu = mtu;
                NetEvent::Done
            }
            NetAction::ListLinks => NetEvent::Links {
                links: self
                    .links
                    .iter()
                    .map(|l| LinkState {
                        name: l.name.clone(),
                        up: l.up,
                        mtu: l.mtu,
                        mac: l.mac.clone(),
                    })
                    .collect(),
            },
            NetAction::AddAddress { link, address } => {
                self.addresses.push((link, address));
                NetEvent::Done
            }
            NetAction::DelAddress { link, address } => {
                self.addresses.retain(|a| *a != (link.clone(), address));
                NetEvent::Done
            }
            NetAction::AddRoute { route } => {
                if self.routes_need_address && self.addresses.is_empty() {
                    return NetEvent::Failed {
                        not_found: false,
                        message: "Network unreachable".into(),
                    };
                }
                self.routes.push(route);
                NetEvent::Done
            }
            NetAction::DelRoute { .. } => {
                self.routes.clear();
                NetEvent::Done
            }
            NetAction::Publish { id, spec } => {
                self.statuses.insert(id, spec);
                NetEvent::Done
            }
            NetAction::Destroy { id, .. } => {
                self.statuses.remove(&id);
                NetEvent::Done
            }
            NetAction::Done | NetAction::Fail { .. } => unreachable!(),
        }
    }

    fn change(&mut self, started: (ChangeRun, NetAction)) -> Result<(), String> {
        let (mut run, mut action) = started;
        loop {
            match action {
                NetAction::Done => return Ok(()),
                NetAction::Fail { message } => return Err(message),
                a => action = run.step(self.perform(a)),
            }
        }
    }

    fn apply_link(&mut self, obj: &ResourceObject) -> Result<(), String> {
        let (mut run, mut action) = LinkController::new().apply(obj);
        loop {
            match action {
                NetAction::Done => return Ok(()),
                NetAction::Fail { message } => return Err(message),
                a => action = run.step(self.perform(a)),
            }
        }
    }
}

fn addr() -> AddrCidr {
    AddrCidr::new(IpAddr::V4(192, 168, 1, 10), 24)
}

fn addr_spec() -> ResourceObject {
    ResourceObject::new(
        NS,
        "eth0/192.168.1.10/24",
        Resource::AddressSpec(AddressSpec { link: "eth0".into(), address: addr() }),
    )
}

#[test]
fn applies_address_and_reverts() {
    let mut net = Net::with_link("eth0", 1500);
    let c = AddressController::new();
    net.change(c.apply(&addr_spec())).unwrap();
    assert_eq!(net.addresses, vec![("eth0".to_string(), addr())]);
    assert!(net.statuses.contains_key("eth0/192.168.1.10/24"));

    net.change(c.revert(&addr_spec())).unwrap();
    assert!(net.addresses.is_empty());
    assert!(net.statuses.is_empty());
}

fn provider() -> Provider {
    Provider::new(MachineConfig {
        machine: MachineSection {
            hostname: Some("node-1".into()),
            network: NetworkSection {
                interfaces: vec![InterfaceConfig {
                    name: "eth0".into(),
                    up: true,
                    mtu: Some(1500),
                    addresses: vec!["192.168.1.10/24".into(), "bad-addr".into()],
                    routes: vec![RouteConfig {
                        to: Some("0.0.0.0/0".into()),
                        via: IpAddr::V4(192, 168, 1, 1),
                        metric: Some(100),
                    }],
                }],
                nameservers: vec![IpAddr::V4(1, 1, 1, 1)],
                search: vec!["example.com".into()],
            },
            ..Default::default()
        },
    })
}

fn of(published: &[Publication], typ: ResourceType) -> &Vec<ResourceObject> {
    &published.iter().find(|p| p.typ == typ).unwrap().objects
}

#[test]
fn produces_specs_from_config() {
    let c = NetworkConfigController::new(provider());
    let published = c.reconcile();
    assert_eq!(of(&published, ResourceType::LinkSpec).len(), 1);
    assert_eq!(of(&published, ResourceType::AddressSpec).len(), 1);
    assert_eq!(of(&published, ResourceType::RouteSpec).len(), 1);
    assert_eq!(of(&published, ResourceType::HostnameSpec).len(), 1);
    assert_eq!(of(&published, ResourceType::ResolverSpec).len(), 1);

    let routes = of(&published, ResourceType::RouteSpec);
    match &routes[0].spec {
        Resource::RouteSpec(r) => {
            assert!(r.destination.is_none());
            assert_eq!(r.metric, 100);
        }
        _ => panic!("wrong type"),
    }
    assert_eq!(routes[0].metadata.id, "eth0/default/192.168.1.1");
    let links = of(&published, ResourceType::LinkSpec);
    assert_eq!(links[0].metadata.id, "eth0");
    assert_eq!(c.name(), "network-config");
    assert_eq!(
        of(&published, ResourceType::AddressSpec)[0].metadata.id,
        "eth0/192.168.1.10/24"
    );
}

#[test]
fn gcs_specs_when_interface_removed() {
    let c = NetworkConfigController::new(provider());
    assert_eq!(of(&c.reconcile(), ResourceType::LinkSpec).len(), 1);
    let empty = NetworkConfigController::new(Provider::new(MachineConfig::default()));
    let published = empty.reconcile();
    assert_eq!(of(&published, ResourceType::LinkSpec).len(), 0);
    assert_eq!(of(&published, ResourceType::AddressSpec).len(), 0);
}

#[test]
fn sets_hostname() {
    let c = HostnameController::new();
    let listed = vec![ResourceObject::new(
        NS,
        "hostname",
        Resource::HostnameSpec(HostnameSpec { hostname: "node-1".into() }),
    )];
    assert_eq!(c.reconcile(&listed), vec!["node-1".to_string()]);
}

fn link_spec(name: &str, up: bool, mtu: Option<u32>) -> ResourceObject {
    ResourceObject::new(NS, name, Resource::LinkSpec(LinkSpec { name: name.into(), up, mtu }))
}

#[test]
fn applies_link_and_publishes_status() {
    let mut net = Net::with_link("eth0", 1500);
    net.apply_link(&link_spec("eth0", true, Some(9000))).unwrap();
    assert!(net.links[0].up);
    assert_eq!(net.links[0].mtu, 9000);
    match &net.statuses["eth0"] {
        Resource::LinkStatus(s) => {
            assert!(s.up);
            assert_eq!(s.mtu, 9000);
        }
        _ => panic!("wrong type"),
    }
}

#[test]
fn reverts_on_teardown() {
    let mut net = Net::with_link("eth0", 1500);
    net.apply_link(&link_spec("eth0", true, None)).unwrap();
    assert!(net.links[0].up);
    net.change(LinkController::new().revert(&link_spec("eth0", true, None))).unwrap();
    assert!(!net.links[0].up);
    assert!(!net.statuses.contains_key("eth0"));
}

#[test]
fn revert_error_keeps_finalizer() {
    let mut net = Net::with_link("eth0", 1500);
    net.apply_link(&link_spec("eth0", true, None)).unwrap();
    net.down_fails = true;
    let res = net.change(LinkController::new().revert(&link_spec("eth0", true, None)));
    assert!(res.is_err(), "a failed revert must surface as an error");
    assert!(net.statuses.contains_key("eth0"));
}

#[test]
fn a_link_that_is_gone_is_reverted() {
    let mut net = Net::with_link("eth0", 1500);
    net.statuses.insert(
        "eth9".into(),
        Resource::LinkStatus(LinkStatus {
            name: "eth9".into(),
            up: true,
            mtu: 1,
            mac: String::new(),
        }),
    );
    net.change(LinkController::new().revert(&link_spec("eth9", true, None))).unwrap();
    assert!(net.statuses.is_empty());
}

#[test]
fn writes_resolv_conf() {
    let c = ResolverController::new("/tmp/resolv.conf");
    let listed = vec![ResourceObject::new(
        NS,
        "resolver",
        Resource::ResolverSpec(ResolverSpec {
            nameservers: vec![IpAddr::V4(1, 1, 1, 1)],
            search: vec!["example.com".into()],
        }),
    )];
    let texts = c.reconcile(&listed);
    let written = texts.last().unwrap();
    assert!(written.contains("search example.com"));
    assert!(written.contains("nameserver 1.1.1.1"));
    assert_eq!(c.path(), "/tmp/resolv.conf");
    assert_eq!(ResolverController::at_etc().path(), "/etc/resolv.conf");
    let none = ResolverSpec { nameservers: vec![], search: vec![] };
    assert!(!resolv_conf(&none).contains("search"));
}

fn route_spec() -> ResourceObject {
    ResourceObject::new(
        NS,
        "eth0/default/192.168.1.1",
        Resource::RouteSpec(RouteSpec {
            destination: None,
            gateway: Some(IpAddr::V4(192, 168, 1, 1)),
            link: "eth0".into(),
            metric: 100,
        }),
    )
}

#[test]
fn applies_route_and_publishes_status() {
    let mut net = Net::with_link("eth0", 1500);
    net.change(RouteController::new().apply(&route_spec())).unwrap();
    assert_eq!(net.routes.len(), 1);
    assert!(net.statuses.contains_key("eth0/default/192.168.1.1"));
    net.change(RouteController::new().revert(&route_spec())).unwrap();
    assert!(net.routes.is_empty());
}

#[test]
fn route_watches_address_status() {
    let c = RouteController::new();
    let inputs = c.inputs();
    assert!(
        inputs.iter().any(|i| i.typ == ResourceType::AddressStatus && i.namespace == NS),
        "route must watch AddressStatus to retry once the address exists"
    );
}

#[test]
fn route_converges_after_address_lands() {
    let mut net = Net::with_link("eth0", 1500);
    net.routes_need_address = true;
    let c = RouteController::new();
    assert!(net.change(c.apply(&route_spec())).is_err());
    assert!(!net.statuses.contains_key("eth0/default/192.168.1.1"));

    net.addresses.push(("eth0".into(), addr()));
    net.change(c.apply(&route_spec())).unwrap();
    assert_eq!(net.routes.len(), 1);
    assert!(net.statuses.contains_key("eth0/default/192.168.1.1"));
}

#[test]
fn a_status_is_updated_where_there_is_one() {
    let spec = || Resource::HostnameSpec(HostnameSpec { hostname: "n".into() });
    match publish_status(Some(7), "hostname", spec()) {
        StoreWrite::Update { typ, id, version, .. } => {
            assert_eq!(typ, ResourceType::HostnameSpec);
            assert_eq!((id.as_str(), version), ("hostname", 7));
        }
        _ => panic!("expected an update"),
    }
    match publish_status(None, "hostname", spec()) {
        StoreWrite::Create { object } => assert_eq!(object.metadata.namespace, NS),
        _ => panic!("expected a creation"),
    }
    assert!(destroy_status(None, ResourceType::LinkStatus, "x").is_none());
    assert!(matches!(
        destroy_status(Some(3), ResourceType::LinkStatus, "x"),
        Some(StoreWrite::Destroy { version: 3, .. })
    ));
}
