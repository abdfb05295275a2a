//! Turns the configured network into the specs that are desired.

use crate::config::provider::Provider;
use crate::config::types::{InterfaceConfig, NetworkSection, RouteConfig};
use crate::controllers::network::NS;
use crate::controllers::{
    exclusive, input, Input, InputKind, InputView, Output, OutputKind, Publication,
    PublicationView,
};
use crate::ip::{AddrCidr, IpAddr};
use crate::resources::{
    AddressSpec, HostnameSpec, LinkSpec, ObjectView, ResolverSpec, Resource, ResourceObject,
    ResourceType, ResourceView, RouteSpec,
};
use crate::text::{copy_strings, same};
use vstd::prelude::*;
use vstd::string::*;

verus! {

/// A network resource.
pub open spec fn object(id: Seq<char>, spec: ResourceView) -> ObjectView {
    ObjectView { namespace: NS@, id, spec }
}

/// The link that an interface asks for.
pub open spec fn link_object(c: InterfaceConfig) -> ObjectView {
    object(c.name@, ResourceView::LinkSpec { name: c.name@, up: c.up, mtu: c.mtu })
}

/// The links that the interfaces ask for.
pub open spec fn link_objects(v: Seq<InterfaceConfig>) -> Seq<ObjectView> {
    Seq::new(v.len(), |i: int| link_object(v[i]))
}

/// An address of a link.
pub open spec fn address_object(link: Seq<char>, address: AddrCidr) -> ObjectView {
    object(
        link + "/"@ + crate::ip::cidr_text(address),
        ResourceView::AddressSpec { link, address },
    )
}

/// The addresses of a link; what is no address is passed over.
pub open spec fn link_addresses(link: Seq<char>, addresses: Seq<String>) -> Seq<ObjectView>
    decreases addresses.len(),
{
    if addresses.len() == 0 {
        seq![]
    } else {
        let before = link_addresses(link, addresses.drop_last());
        match crate::ip::reading::cidr_of(addresses.last()@) {
            Some(a) => before.push(address_object(link, a)),
            None => before,
        }
    }
}

/// The addresses of the interfaces.
pub open spec fn address_objects(v: Seq<InterfaceConfig>) -> Seq<ObjectView>
    decreases v.len(),
{
    if v.len() == 0 {
        seq![]
    } else {
        address_objects(v.drop_last()) + link_addresses(v.last().name@, v.last().addresses@)
    }
}

/// Whether a route is the default route: it has no destination, or one that
/// stands for everything.
pub open spec fn is_default_route(to: Option<String>) -> bool {
    match to {
        None => true,
        Some(t) => t@ == "0.0.0.0/0"@ || t@ == "::/0"@,
    }
}

/// The label of a destination.
pub open spec fn destination_label(d: Option<AddrCidr>) -> Seq<char> {
    match d {
        Some(a) => crate::ip::cidr_text(a),
        None => "default"@,
    }
}

/// A route of a link.
pub open spec fn route_object(
    link: Seq<char>,
    destination: Option<AddrCidr>,
    via: IpAddr,
    metric: Option<u32>,
) -> ObjectView {
    object(
        link + "/"@ + destination_label(destination) + "/"@ + crate::ip::ip_text(via),
        ResourceView::RouteSpec {
            destination,
            gateway: Some(via),
            link,
            metric: match metric {
                Some(m) => m,
                None => 0,
            },
        },
    )
}

/// The routes of a link; one whose destination is no address is passed over.
pub open spec fn link_routes(link: Seq<char>, routes: Seq<RouteConfig>) -> Seq<ObjectView>
    decreases routes.len(),
{
    if routes.len() == 0 {
        seq![]
    } else {
        let before = link_routes(link, routes.drop_last());
        let r = routes.last();
        if is_default_route(r.to) {
            before.push(route_object(link, None, r.via, r.metric))
        } else {
            match crate::ip::reading::cidr_of(r.to->0@) {
                Some(a) => before.push(route_object(link, Some(a), r.via, r.metric)),
                None => before,
            }
        }
    }
}

/// The routes of the interfaces.
pub open spec fn route_objects(v: Seq<InterfaceConfig>) -> Seq<ObjectView>
    decreases v.len(),
{
    if v.len() == 0 {
        seq![]
    } else {
        route_objects(v.drop_last()) + link_routes(v.last().name@, v.last().routes@)
    }
}

/// The hostname, where one is configured.
pub open spec fn hostname_objects(hostname: Option<String>) -> Seq<ObjectView> {
    match hostname {
        Some(h) => seq![object("hostname"@, ResourceView::HostnameSpec { hostname: h@ })],
        None => seq![],
    }
}

/// The resolver, where there are name servers.
pub open spec fn resolver_objects(net: NetworkSection) -> Seq<ObjectView> {
    if net.nameservers@.len() > 0 {
        seq![
            object(
                "resolver"@,
                ResourceView::ResolverSpec {
                    nameservers: net.nameservers@,
                    search: crate::text::texts(net.search@),
                },
            ),
        ]
    } else {
        seq![]
    }
}

/// The five kinds of spec that are desired, in the order in which they are
/// published.
pub open spec fn desired(hostname: Option<String>, net: NetworkSection) -> Seq<PublicationView> {
    seq![
        PublicationView {
            typ: ResourceType::LinkSpec,
            objects: link_objects(net.interfaces@),
        },
        PublicationView {
            typ: ResourceType::AddressSpec,
            objects: address_objects(net.interfaces@),
        },
        PublicationView {
            typ: ResourceType::RouteSpec,
            objects: route_objects(net.interfaces@),
        },
        PublicationView {
            typ: ResourceType::HostnameSpec,
            objects: hostname_objects(hostname),
        },
        PublicationView { typ: ResourceType::ResolverSpec, objects: resolver_objects(net) },
    ]
}

proof fn lemma_objects_push(v: Seq<ResourceObject>, o: ResourceObject)
    ensures
        crate::resources::objects(v.push(o)) == crate::resources::objects(v).push(o@),
{
    assert(crate::resources::objects(v.push(o)) =~= crate::resources::objects(v).push(o@));
}

fn copy_addresses(v: &Vec<IpAddr>) -> (r: Vec<IpAddr>)
    ensures
        r@ == v@,
{
    let mut out: Vec<IpAddr> = Vec::new();
    let mut i: usize = 0;
    while i < v.len()
        invariant
            i <= v@.len(),
            out@ == v@.take(i as int),
        decreases v@.len() - i,
    {
        out.push(v[i]);
        i += 1;
        assert(v@.take(i as int) =~= v@.take(i - 1).push(v@[i - 1]));
    }
    assert(v@.take(i as int) =~= v@);
    out
}

fn push_addresses(out: &mut Vec<ResourceObject>, link: &String, addresses: &Vec<String>)
    ensures
        crate::resources::objects(final(out)@) == crate::resources::objects(old(out)@)
            + link_addresses(link@, addresses@),
{
    let ghost start = crate::resources::objects(out@);
    let mut i: usize = 0;
    assert(crate::resources::objects(out@) =~= start + link_addresses(link@, addresses@.take(0)));
    while i < addresses.len()
        invariant
            i <= addresses@.len(),
            crate::resources::objects(out@) == start + link_addresses(
                link@,
                addresses@.take(i as int),
            ),
        decreases addresses@.len() - i,
    {
        let ghost before = link_addresses(link@, addresses@.take(i as int));
        proof {
            assert(addresses@.take(i + 1).drop_last() =~= addresses@.take(i as int));
            assert(addresses@.take(i + 1).last() == addresses@[i as int]);
        }
        if let Some(address) = AddrCidr::parse(addresses[i].as_str()) {
            let mut id = link.clone();
            id.append("/");
            id.append(address.to_string().as_str());
            let o = ResourceObject::new(
                NS,
                id.as_str(),
                Resource::AddressSpec(AddressSpec { link: link.clone(), address }),
            );
            proof {
                lemma_objects_push(out@, o);
                assert((start + before).push(o@) =~= start + before.push(o@));
            }
            out.push(o);
        }
        i += 1;
    }
    assert(addresses@.take(i as int) =~= addresses@);
}

/// Where a route leads; `None` where its destination is no address.
fn route_destination(to: &Option<String>) -> (r: Option<Option<AddrCidr>>)
    ensures
        r == if is_default_route(*to) {
            Some(None::<AddrCidr>)
        } else {
            match crate::ip::reading::cidr_of(to->0@) {
                Some(a) => Some(Some(a)),
                None => None,
            }
        },
{
    match to {
        None => Some(None),
        Some(t) => {
            if same(t.as_str(), "0.0.0.0/0") || same(t.as_str(), "::/0") {
                return Some(None);
            }
            match AddrCidr::parse(t.as_str()) {
                Some(a) => Some(Some(a)),
                None => None,
            }
        },
    }
}

fn route_resource(link: &String, destination: Option<AddrCidr>, r: &RouteConfig) -> (o:
    ResourceObject)
    ensures
        o@ == route_object(link@, destination, r.via, r.metric),
{
    let label = match &destination {
        Some(a) => a.to_string(),
        None => "default".to_owned(),
    };
    let mut id = link.clone();
    id.append("/");
    id.append(label.as_str());
    id.append("/");
    id.append(r.via.to_string().as_str());
    ResourceObject::new(
        NS,
        id.as_str(),
        Resource::RouteSpec(
            RouteSpec {
                destination,
                gateway: Some(r.via),
                link: link.clone(),
                metric: match r.metric {
                    Some(m) => m,
                    None => 0,
                },
            },
        ),
    )
}

fn push_routes(out: &mut Vec<ResourceObject>, link: &String, routes: &Vec<RouteConfig>)
    ensures
        crate::resources::objects(final(out)@) == crate::resources::objects(old(out)@)
            + link_routes(link@, routes@),
{
    let ghost start = crate::resources::objects(out@);
    let mut i: usize = 0;
    assert(crate::resources::objects(out@) =~= start + link_routes(link@, routes@.take(0)));
    while i < routes.len()
        invariant
            i <= routes@.len(),
            crate::resources::objects(out@) == start + link_routes(link@, routes@.take(i as int)),
        decreases routes@.len() - i,
    {
        let ghost before = link_routes(link@, routes@.take(i as int));
        proof {
            assert(routes@.take(i + 1).drop_last() =~= routes@.take(i as int));
            assert(routes@.take(i + 1).last() == routes@[i as int]);
        }
        if let Some(destination) = route_destination(&routes[i].to) {
            let o = route_resource(link, destination, &routes[i]);
            proof {
                lemma_objects_push(out@, o);
                assert((start + before).push(o@) =~= start + before.push(o@));
            }
            out.push(o);
        }
        i += 1;
    }
    assert(routes@.take(i as int) =~= routes@);
}

/// Turns the configured network into desired specs.
pub struct NetworkConfigController {
    provider: Provider,
}

/// The kinds of spec that are desired.
pub open spec fn spec_types() -> Seq<ResourceType> {
    seq![
        ResourceType::LinkSpec,
        ResourceType::AddressSpec,
        ResourceType::RouteSpec,
        ResourceType::HostnameSpec,
        ResourceType::ResolverSpec,
    ]
}

impl NetworkConfigController {
    /// The configuration.
    pub closed spec fn config(self) -> crate::config::types::MachineConfig {
        self.provider.config()
    }

    pub fn new(provider: Provider) -> (r: NetworkConfigController)
        ensures
            r.config() == provider.config(),
    {
        NetworkConfigController { provider }
    }

    /// The controller's name, under which it owns what it publishes.
    pub fn name(&self) -> (r: &'static str)
        ensures
            r@ == "network-config"@,
    {
        "network-config"
    }

    /// The controller watches what it publishes: a spec that is taken back and
    /// that nobody holds any longer wakes it, and is then destroyed.
    pub fn inputs(&self) -> (r: Vec<Input>)
        ensures
            r@.len() == 5,
            forall|i: int|
                0 <= i < 5 ==> (#[trigger] r@[i])@ == (InputView {
                    namespace: NS@,
                    typ: spec_types()[i],
                    kind: InputKind::Weak,
                }),
    {
        vec![
            input(NS, ResourceType::LinkSpec, InputKind::Weak),
            input(NS, ResourceType::AddressSpec, InputKind::Weak),
            input(NS, ResourceType::RouteSpec, InputKind::Weak),
            input(NS, ResourceType::HostnameSpec, InputKind::Weak),
            input(NS, ResourceType::ResolverSpec, InputKind::Weak),
        ]
    }

    pub fn outputs(&self) -> (r: Vec<Output>)
        ensures
            r@.len() == 5,
            forall|i: int|
                0 <= i < 5 ==> #[trigger] r@[i] == (Output {
                    typ: spec_types()[i],
                    kind: OutputKind::Exclusive,
                }),
    {
        vec![
            exclusive(ResourceType::LinkSpec),
            exclusive(ResourceType::AddressSpec),
            exclusive(ResourceType::RouteSpec),
            exclusive(ResourceType::HostnameSpec),
            exclusive(ResourceType::ResolverSpec),
        ]
    }

    /// What is desired.
    pub fn reconcile(&self) -> (r: Vec<Publication>)
        ensures
            crate::controllers::publications(r@) == desired(
                self.config().machine.hostname,
                self.config().machine.network,
            ),
    {
        let net = self.provider.network();
        let ghost all = net.interfaces@;
        let mut links: Vec<ResourceObject> = Vec::new();
        let mut addresses: Vec<ResourceObject> = Vec::new();
        let mut routes: Vec<ResourceObject> = Vec::new();
        let mut i: usize = 0;
        assert(crate::resources::objects(links@) =~= link_objects(all.take(0)));
        assert(crate::resources::objects(addresses@) =~= address_objects(all.take(0)));
        assert(crate::resources::objects(routes@) =~= route_objects(all.take(0)));
        while i < net.interfaces.len()
            invariant
                i <= net.interfaces@.len(),
                all == net.interfaces@,
                crate::resources::objects(links@) == link_objects(all.take(i as int)),
                crate::resources::objects(addresses@) == address_objects(all.take(i as int)),
                crate::resources::objects(routes@) == route_objects(all.take(i as int)),
            decreases net.interfaces@.len() - i,
        {
            let iface = &net.interfaces[i];
            proof {
                assert(all.take(i + 1).drop_last() =~= all.take(i as int));
                assert(all.take(i + 1).last() == *iface);
            }
            let link = ResourceObject::new(
                NS,
                iface.name.as_str(),
                Resource::LinkSpec(
                    LinkSpec { name: iface.name.clone(), up: iface.up, mtu: iface.mtu },
                ),
            );
            proof {
                lemma_objects_push(links@, link);
                assert(link_objects(all.take(i + 1)) =~= link_objects(all.take(i as int)).push(
                    link@,
                ));
            }
            links.push(link);
            push_addresses(&mut addresses, &iface.name, &iface.addresses);
            push_routes(&mut routes, &iface.name, &iface.routes);
            i += 1;
        }
        assert(all.take(i as int) =~= all);
        let mut hostnames: Vec<ResourceObject> = Vec::new();
        if let Some(h) = self.provider.hostname() {
            let o = ResourceObject::new(
                NS,
                "hostname",
                Resource::HostnameSpec(HostnameSpec { hostname: h.to_owned() }),
            );
            hostnames.push(o);
        }
        assert(crate::resources::objects(hostnames@) =~= hostname_objects(
            self.config().machine.hostname,
        ));
        let mut resolvers: Vec<ResourceObject> = Vec::new();
        if net.nameservers.len() > 0 {
            let o = ResourceObject::new(
                NS,
                "resolver",
                Resource::ResolverSpec(
                    ResolverSpec {
                        nameservers: copy_addresses(&net.nameservers),
                        search: copy_strings(&net.search),
                    },
                ),
            );
            resolvers.push(o);
        }
        assert(crate::resources::objects(resolvers@) =~= resolver_objects(*net));
        let r = vec![
            Publication { typ: ResourceType::LinkSpec, objects: links },
            Publication { typ: ResourceType::AddressSpec, objects: addresses },
            Publication { typ: ResourceType::RouteSpec, objects: routes },
            Publication { typ: ResourceType::HostnameSpec, objects: hostnames },
            Publication { typ: ResourceType::ResolverSpec, objects: resolvers },
        ];
        assert(crate::controllers::publications(r@) =~= desired(
            self.config().machine.hostname,
            *net,
        ));
        r
    }
}

/// Without interfaces nothing of a network is desired: what was there is taken
/// back.
pub proof fn no_interfaces_desire_no_network(hostname: Option<String>, net: NetworkSection)
    requires
        net.interfaces@.len() == 0,
    ensures
        desired(hostname, net)[0].objects.len() == 0,
        desired(hostname, net)[1].objects.len() == 0,
        desired(hostname, net)[2].objects.len() == 0,
{
}

/// What is published under a kind is of that kind, and each kind is published
/// once.
pub proof fn each_kind_is_published(hostname: Option<String>, net: NetworkSection)
    ensures
        desired(hostname, net).len() == 5,
        desired(hostname, net)[0].typ is LinkSpec,
        desired(hostname, net)[1].typ is AddressSpec,
        desired(hostname, net)[2].typ is RouteSpec,
        desired(hostname, net)[3].typ is HostnameSpec,
        desired(hostname, net)[4].typ is ResolverSpec,
{
}

/// Every interface asks for its link: under its name, up or down and of the size
/// that it is configured with. No other link is asked for.
pub proof fn every_interface_asks_for_its_link(
    hostname: Option<String>,
    net: NetworkSection,
    i: int,
)
    requires
        0 <= i < net.interfaces@.len(),
    ensures
        desired(hostname, net)[0].objects.len() == net.interfaces@.len(),
        desired(hostname, net)[0].objects[i] == (ObjectView {
            namespace: "network"@,
            id: net.interfaces@[i].name@,
            spec: ResourceView::LinkSpec {
                name: net.interfaces@[i].name@,
                up: net.interfaces@[i].up,
                mtu: net.interfaces@[i].mtu,
            },
        }),
{
}

proof fn lemma_link_addresses(link: Seq<char>, addresses: Seq<String>, j: int, a: AddrCidr)
    requires
        0 <= j < addresses.len(),
        crate::ip::reading::cidr_of(addresses[j]@) == Some(a),
    ensures
        link_addresses(link, addresses).contains(address_object(link, a)),
    decreases addresses.len(),
{
    let less = addresses.drop_last();
    let before = link_addresses(link, less);
    let all = link_addresses(link, addresses);
    if j == addresses.len() - 1 {
        assert(all[all.len() - 1] == address_object(link, a));
    } else {
        lemma_link_addresses(link, less, j, a);
        let k = choose|k: int| 0 <= k < before.len() && before[k] == address_object(link, a);
        assert(all[k] == before[k]);
    }
}

proof fn lemma_address_objects(v: Seq<InterfaceConfig>, i: int, o: ObjectView)
    requires
        0 <= i < v.len(),
        link_addresses(v[i].name@, v[i].addresses@).contains(o),
    ensures
        address_objects(v).contains(o),
    decreases v.len(),
{
    let before = address_objects(v.drop_last());
    let last = link_addresses(v.last().name@, v.last().addresses@);
    let all = address_objects(v);
    if i == v.len() - 1 {
        let k = choose|k: int| 0 <= k < last.len() && last[k] == o;
        assert(all[before.len() + k] == o);
    } else {
        lemma_address_objects(v.drop_last(), i, o);
        let k = choose|k: int| 0 <= k < before.len() && before[k] == o;
        assert(all[k] == o);
    }
}

/// Every address that an interface is configured with is asked for, on that
/// interface's link and exactly as it is written.
pub proof fn every_configured_address_is_asked_for(
    hostname: Option<String>,
    net: NetworkSection,
    i: int,
    j: int,
    a: AddrCidr,
)
    requires
        0 <= i < net.interfaces@.len(),
        0 <= j < net.interfaces@[i].addresses@.len(),
        net.interfaces@[i].addresses@[j]@ == crate::ip::cidr_text(a),
        a.prefix <= crate::ip::reading::bits(a.ip),
    ensures
        desired(hostname, net)[1].objects.contains(
            ObjectView {
                namespace: "network"@,
                id: net.interfaces@[i].name@ + "/"@ + crate::ip::cidr_text(a),
                spec: ResourceView::AddressSpec { link: net.interfaces@[i].name@, address: a },
            },
        ),
{
    let c = net.interfaces@[i];
    crate::ip::reading::a_prefix_reads_back(a);
    lemma_link_addresses(c.name@, c.addresses@, j, a);
    lemma_address_objects(net.interfaces@, i, address_object(c.name@, a));
}

/// No address is asked for that no interface is configured with.
pub proof fn only_configured_addresses_are_asked_for(v: Seq<InterfaceConfig>, k: int)
    requires
        0 <= k < address_objects(v).len(),
    ensures
        exists|i: int, j: int|
            #![trigger v[i].addresses@[j]]
            0 <= i < v.len() && 0 <= j < v[i].addresses@.len()
                && crate::ip::reading::cidr_of(v[i].addresses@[j]@) is Some
                && address_objects(v)[k].spec == (ResourceView::AddressSpec {
                link: v[i].name@,
                address: crate::ip::reading::cidr_of(v[i].addresses@[j]@)->0,
            }),
    decreases v.len(),
{
    if v.len() > 0 {
        let less = v.drop_last();
        let before = address_objects(less);
        let c = v.last();
        if k < before.len() {
            only_configured_addresses_are_asked_for(less, k);
            let (i, j) = choose|i: int, j: int|
                #![trigger less[i].addresses@[j]]
                0 <= i < less.len() && 0 <= j < less[i].addresses@.len()
                    && crate::ip::reading::cidr_of(less[i].addresses@[j]@) is Some
                    && address_objects(less)[k].spec == (ResourceView::AddressSpec {
                    link: less[i].name@,
                    address: crate::ip::reading::cidr_of(less[i].addresses@[j]@)->0,
                });
            assert(v[i].addresses@[j] == less[i].addresses@[j]);
        } else {
            lemma_only_link_addresses(c.name@, c.addresses@, k - before.len());
            let j = choose|j: int|
                0 <= j < c.addresses@.len() && crate::ip::reading::cidr_of(
                    (#[trigger] c.addresses@[j])@,
                ) is Some && link_addresses(c.name@, c.addresses@)[k - before.len()]
                    == address_object(
                    c.name@,
                    crate::ip::reading::cidr_of(c.addresses@[j]@)->0,
                );
            assert(v[v.len() - 1].addresses@[j] == c.addresses@[j]);
        }
    }
}

proof fn lemma_only_link_addresses(link: Seq<char>, addresses: Seq<String>, k: int)
    requires
        0 <= k < link_addresses(link, addresses).len(),
    ensures
        exists|j: int|
            0 <= j < addresses.len() && crate::ip::reading::cidr_of(
                (#[trigger] addresses[j])@,
            ) is Some && link_addresses(link, addresses)[k] == address_object(
                link,
                crate::ip::reading::cidr_of(addresses[j]@)->0,
            ),
    decreases addresses.len(),
{
    if addresses.len() > 0 {
        let less = addresses.drop_last();
        let before = link_addresses(link, less);
        if k < before.len() {
            lemma_only_link_addresses(link, less, k);
            let j = choose|j: int|
                0 <= j < less.len() && crate::ip::reading::cidr_of((#[trigger] less[j])@) is Some
                    && before[k] == address_object(
                    link,
                    crate::ip::reading::cidr_of(less[j]@)->0,
                );
            assert(addresses[j] == less[j]);
        } else {
            assert(addresses[addresses.len() - 1] == addresses.last());
        }
    }
}

proof fn lemma_link_routes(
    link: Seq<char>,
    routes: Seq<RouteConfig>,
    j: int,
    destination: Option<AddrCidr>,
)
    requires
        0 <= j < routes.len(),
        is_default_route(routes[j].to) ==> destination is None,
        !is_default_route(routes[j].to) ==> destination is Some && crate::ip::reading::cidr_of(
            routes[j].to->0@,
        ) == destination,
    ensures
        link_routes(link, routes).contains(
            route_object(link, destination, routes[j].via, routes[j].metric),
        ),
    decreases routes.len(),
{
    let o = route_object(link, destination, routes[j].via, routes[j].metric);
    let less = routes.drop_last();
    let before = link_routes(link, less);
    let all = link_routes(link, routes);
    if j == routes.len() - 1 {
        assert(all[all.len() - 1] == o);
    } else {
        lemma_link_routes(link, less, j, destination);
        let k = choose|k: int| 0 <= k < before.len() && before[k] == o;
        assert(all[k] == before[k]);
    }
}

proof fn lemma_route_objects(v: Seq<InterfaceConfig>, i: int, o: ObjectView)
    requires
        0 <= i < v.len(),
        link_routes(v[i].name@, v[i].routes@).contains(o),
    ensures
        route_objects(v).contains(o),
    decreases v.len(),
{
    let before = route_objects(v.drop_last());
    let last = link_routes(v.last().name@, v.last().routes@);
    let all = route_objects(v);
    if i == v.len() - 1 {
        let k = choose|k: int| 0 <= k < last.len() && last[k] == o;
        assert(all[before.len() + k] == o);
    } else {
        lemma_route_objects(v.drop_last(), i, o);
        let k = choose|k: int| 0 <= k < before.len() && before[k] == o;
        assert(all[k] == o);
    }
}

/// Every route that an interface is configured with is asked for: over that
/// interface's link, through the configured gateway, with the configured metric
/// or 0. A route to everywhere, or to nowhere in particular, is the default
/// route; every other leads where it is configured to lead.
pub proof fn every_configured_route_is_asked_for(
    hostname: Option<String>,
    net: NetworkSection,
    i: int,
    j: int,
    a: AddrCidr,
)
    requires
        0 <= i < net.interfaces@.len(),
        0 <= j < net.interfaces@[i].routes@.len(),
        a.prefix <= crate::ip::reading::bits(a.ip),
    ensures
        ({
            let c = net.interfaces@[i];
            let r = c.routes@[j];
            let metric = match r.metric {
                Some(m) => m,
                None => 0u32,
            };
            let all = desired(hostname, net)[2].objects;
            &&& r.to is None || r.to->0@ == "0.0.0.0/0"@ || r.to->0@ == "::/0"@ ==> all.contains(
                ObjectView {
                    namespace: "network"@,
                    id: c.name@ + "/"@ + "default"@ + "/"@ + crate::ip::ip_text(r.via),
                    spec: ResourceView::RouteSpec {
                        destination: None,
                        gateway: Some(r.via),
                        link: c.name@,
                        metric,
                    },
                },
            )
            &&& (r.to is Some && r.to->0@ == crate::ip::cidr_text(a) && r.to->0@ != "0.0.0.0/0"@
                && r.to->0@ != "::/0"@) ==> all.contains(
                ObjectView {
                    namespace: "network"@,
                    id: c.name@ + "/"@ + crate::ip::cidr_text(a) + "/"@ + crate::ip::ip_text(r.via),
                    spec: ResourceView::RouteSpec {
                        destination: Some(a),
                        gateway: Some(r.via),
                        link: c.name@,
                        metric,
                    },
                },
            )
        }),
{
    let c = net.interfaces@[i];
    let r = c.routes@[j];
    if r.to is None || r.to->0@ == "0.0.0.0/0"@ || r.to->0@ == "::/0"@ {
        lemma_link_routes(c.name@, c.routes@, j, None);
        lemma_route_objects(
            net.interfaces@,
            i,
            route_object(c.name@, None, r.via, r.metric),
        );
    } else if r.to->0@ == crate::ip::cidr_text(a) {
        crate::ip::reading::a_prefix_reads_back(a);
        lemma_link_routes(c.name@, c.routes@, j, Some(a));
        lemma_route_objects(
            net.interfaces@,
            i,
            route_object(c.name@, Some(a), r.via, r.metric),
        );
    }
}

proof fn lemma_few_routes(link: Seq<char>, routes: Seq<RouteConfig>)
    ensures
        link_routes(link, routes).len() <= routes.len(),
        forall|k: int|
            0 <= k < link_routes(link, routes).len() ==> (#[trigger] link_routes(
                link,
                routes,
            )[k]).spec is RouteSpec && link_routes(link, routes)[k].spec->RouteSpec_link == link,
    decreases routes.len(),
{
    if routes.len() > 0 {
        lemma_few_routes(link, routes.drop_last());
    }
}

/// An interface asks for no more routes than it is configured with, and only for
/// routes over its own link.
pub proof fn no_route_is_made_up(c: InterfaceConfig, k: int)
    requires
        0 <= k < link_routes(c.name@, c.routes@).len(),
    ensures
        link_routes(c.name@, c.routes@).len() <= c.routes@.len(),
        link_routes(c.name@, c.routes@)[k].spec matches ResourceView::RouteSpec { link, .. } && link
            == c.name@,
{
    lemma_few_routes(c.name@, c.routes@);
}

/// The configured hostname is asked for, and all the configured name servers and
/// search domains are, in their order.
pub proof fn the_hostname_and_the_resolver_are_asked_for(
    hostname: Option<String>,
    net: NetworkSection,
)
    ensures
        hostname matches Some(h) ==> desired(hostname, net)[3].objects == seq![
            ObjectView {
                namespace: "network"@,
                id: "hostname"@,
                spec: ResourceView::HostnameSpec { hostname: h@ },
            },
        ],
        hostname is None ==> desired(hostname, net)[3].objects.len() == 0,
        net.nameservers@.len() == 0 ==> desired(hostname, net)[4].objects.len() == 0,
        net.nameservers@.len() > 0 ==> {
            let all = desired(hostname, net)[4].objects;
            &&& all.len() == 1
            &&& all[0].namespace == "network"@
            &&& all[0].id == "resolver"@
            &&& all[0].spec matches ResourceView::ResolverSpec { nameservers, search }
            &&& nameservers == net.nameservers@
            &&& search.len() == net.search@.len()
            &&& forall|i: int| 0 <= i < search.len() ==> #[trigger] search[i] == net.search@[i]@
        },
{
}

} // verus!
