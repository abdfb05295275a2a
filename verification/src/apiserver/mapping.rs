//! Resources as lists of `(key, value)` fields, and type names.

use crate::ip::{AddrCidr, IpAddr};
use crate::resources::{PodPhase, Resource, ResourceType, ResourceView, ServiceState, VolumePhase};
use crate::text::{decimal, flag_text, join_strings, same, signed_decimal};
use vstd::prelude::*;
use vstd::string::*;

verus! {

/// The kind of resource called `s`, if there is one: the inverse of
/// `ResourceType::to_string`.
pub fn parse_resource_type(s: &str) -> (r: Option<ResourceType>)
    ensures
        match r {
            Some(t) => crate::resources::kind_name(t) == s@,
            None => forall|t: ResourceType| #[trigger] crate::resources::kind_name(t) != s@,
        },
{
    if same(s, "MachineConfig") {
        Some(ResourceType::MachineConfig)
    } else if same(s, "ServiceStatus") {
        Some(ResourceType::ServiceStatus)
    } else if same(s, "LinkSpec") {
        Some(ResourceType::LinkSpec)
    } else if same(s, "AddressSpec") {
        Some(ResourceType::AddressSpec)
    } else if same(s, "RouteSpec") {
        Some(ResourceType::RouteSpec)
    } else if same(s, "HostnameSpec") {
        Some(ResourceType::HostnameSpec)
    } else if same(s, "ResolverSpec") {
        Some(ResourceType::ResolverSpec)
    } else if same(s, "LinkStatus") {
        Some(ResourceType::LinkStatus)
    } else if same(s, "AddressStatus") {
        Some(ResourceType::AddressStatus)
    } else if same(s, "RouteStatus") {
        Some(ResourceType::RouteStatus)
    } else if same(s, "DiskStatus") {
        Some(ResourceType::DiskStatus)
    } else if same(s, "DiscoveredVolume") {
        Some(ResourceType::DiscoveredVolume)
    } else if same(s, "VolumeStatus") {
        Some(ResourceType::VolumeStatus)
    } else if same(s, "MountStatus") {
        Some(ResourceType::MountStatus)
    } else if same(s, "TimeStatus") {
        Some(ResourceType::TimeStatus)
    } else if same(s, "RuntimeStatus") {
        Some(ResourceType::RuntimeStatus)
    } else if same(s, "PodStatus") {
        Some(ResourceType::PodStatus)
    } else if same(s, "UpgradeStatus") {
        Some(ResourceType::UpgradeStatus)
    } else {
        None
    }
}

/// No two kinds share a name: parsing a kind's name gives the kind back.
pub proof fn names_tell_kinds_apart(a: ResourceType, b: ResourceType)
    requires
        crate::resources::kind_name(a) == crate::resources::kind_name(b),
    ensures
        a == b,
{
    reveal_strlit("MachineConfig");
    reveal_strlit("ServiceStatus");
    reveal_strlit("LinkSpec");
    reveal_strlit("AddressSpec");
    reveal_strlit("RouteSpec");
    reveal_strlit("HostnameSpec");
    reveal_strlit("ResolverSpec");
    reveal_strlit("LinkStatus");
    reveal_strlit("AddressStatus");
    reveal_strlit("RouteStatus");
    reveal_strlit("DiskStatus");
    reveal_strlit("DiscoveredVolume");
    reveal_strlit("VolumeStatus");
    reveal_strlit("MountStatus");
    reveal_strlit("TimeStatus");
    reveal_strlit("RuntimeStatus");
    reveal_strlit("PodStatus");
    reveal_strlit("UpgradeStatus");
    let s = crate::resources::kind_name(a);
    let t = crate::resources::kind_name(b);
    assert(s.len() == t.len() && s[0] == t[0]);
}

/// The names of the phases, as they are shown.
pub open spec fn volume_phase_name(p: VolumePhase) -> Seq<char> {
    match p {
        VolumePhase::Provisioned => "Provisioned"@,
        VolumePhase::Failed => "Failed"@,
    }
}

/// The names of the phases, as they are shown.
pub open spec fn pod_phase_name(p: PodPhase) -> Seq<char> {
    match p {
        PodPhase::Pending => "Pending"@,
        PodPhase::Running => "Running"@,
        PodPhase::Failed => "Failed"@,
    }
}

/// An optional address, or nothing.
pub open spec fn opt_cidr(a: Option<AddrCidr>) -> Seq<char> {
    match a {
        Some(a) => crate::ip::cidr_text(a),
        None => Seq::empty(),
    }
}

/// An optional address, or nothing.
pub open spec fn opt_ip(a: Option<IpAddr>) -> Seq<char> {
    match a {
        Some(a) => crate::ip::ip_text(a),
        None => Seq::empty(),
    }
}

/// An optional text, or nothing.
pub open spec fn opt_str(a: Option<Seq<char>>) -> Seq<char> {
    match a {
        Some(a) => a,
        None => Seq::empty(),
    }
}

/// The fields that a resource is shown with, in their order.
pub open spec fn fields_of(r: ResourceView) -> Seq<(Seq<char>, Seq<char>)> {
    match r {
        ResourceView::MachineConfig { raw_yaml } => seq![
            ("bytes"@, crate::text::dec(vstd::utf8::encode_utf8(raw_yaml).len())),
        ],
        ResourceView::ServiceStatus { service_id, state, healthy, last_message } => seq![
            ("service_id"@, service_id),
            ("state"@, state),
            ("healthy"@, crate::text::flag(healthy)),
            ("message"@, last_message),
        ],
        ResourceView::LinkSpec { name, up, mtu } => seq![
            ("name"@, name),
            ("up"@, crate::text::flag(up)),
            (
                "mtu"@,
                match mtu {
                    Some(m) => crate::text::dec(m as nat),
                    None => Seq::empty(),
                },
            ),
        ],
        ResourceView::AddressSpec { link, address } => seq![
            ("link"@, link),
            ("address"@, crate::ip::cidr_text(address)),
        ],
        ResourceView::RouteSpec { destination, gateway, link, metric } => seq![
            ("link"@, link),
            ("destination"@, opt_cidr(destination)),
            ("gateway"@, opt_ip(gateway)),
            ("metric"@, crate::text::dec(metric as nat)),
        ],
        ResourceView::HostnameSpec { hostname } => seq![("hostname"@, hostname)],
        ResourceView::ResolverSpec { nameservers, search } => seq![
            ("nameservers"@, crate::text::dec(nameservers.len())),
            ("search"@, crate::text::join(search, ","@)),
        ],
        ResourceView::LinkStatus { name, up, mtu, mac } => seq![
            ("name"@, name),
            ("up"@, crate::text::flag(up)),
            ("mtu"@, crate::text::dec(mtu as nat)),
            ("mac"@, mac),
        ],
        ResourceView::AddressStatus { link, address } => seq![
            ("link"@, link),
            ("address"@, crate::ip::cidr_text(address)),
        ],
        ResourceView::RouteStatus { destination, gateway, link } => seq![
            ("link"@, link),
            ("destination"@, opt_cidr(destination)),
            ("gateway"@, opt_ip(gateway)),
        ],
        ResourceView::DiskStatus { name, path, size_bytes, model, serial, rotational, read_only } =>
        seq![
            ("name"@, name),
            ("path"@, path),
            ("size_bytes"@, crate::text::dec(size_bytes as nat)),
            ("model"@, model),
            ("rotational"@, crate::text::flag(rotational)),
            ("read_only"@, crate::text::flag(read_only)),
        ],
        ResourceView::DiscoveredVolume(v) => seq![
            ("device"@, v.device),
            ("disk"@, v.disk),
            ("partition_label"@, v.partition_label),
            ("fs_type"@, opt_str(v.fs_type)),
            ("size_bytes"@, crate::text::dec(v.size_bytes as nat)),
        ],
        ResourceView::VolumeStatus { name, device, fs, label, phase } => seq![
            ("name"@, name),
            ("device"@, device),
            ("fs"@, fs),
            ("label"@, label),
            ("phase"@, volume_phase_name(phase)),
        ],
        ResourceView::MountStatus { volume, source, target, fstype, mounted } => seq![
            ("volume"@, volume),
            ("source"@, source),
            ("target"@, target),
            ("fstype"@, fstype),
            ("mounted"@, crate::text::flag(mounted)),
        ],
        ResourceView::TimeStatus { synced, server, offset_ns, sync_count } => seq![
            ("synced"@, crate::text::flag(synced)),
            ("server"@, server),
            ("offset_ns"@, crate::text::signed_dec(offset_ns as int)),
            ("sync_count"@, crate::text::dec(sync_count as nat)),
        ],
        ResourceView::RuntimeStatus { ready, name, version } => seq![
            ("ready"@, crate::text::flag(ready)),
            ("name"@, name),
            ("version"@, version),
        ],
        ResourceView::PodStatus { name, phase, container_id, pod_ip, message } => seq![
            ("name"@, name),
            ("phase"@, pod_phase_name(phase)),
            ("container_id"@, container_id),
            ("pod_ip"@, pod_ip),
            ("message"@, message),
        ],
        ResourceView::UpgradeStatus { phase, message } => seq![
            ("phase"@, phase),
            ("message"@, message),
        ],
    }
}

/// The texts of a list of fields.
pub open spec fn pairs(v: Seq<(String, String)>) -> Seq<(Seq<char>, Seq<char>)> {
    Seq::new(v.len(), |i: int| (v[i].0@, v[i].1@))
}

/// A field.
pub fn kv(k: &str, v: String) -> (r: (String, String))
    ensures
        r.0@ == k@,
        r.1 == v,
{
    (k.to_owned(), v)
}

/// An optional string, or an empty one.
pub fn opt(v: &Option<String>) -> (r: String)
    ensures
        r@ == opt_str(crate::resources::opt_text(*v)),
{
    match v {
        Some(s) => s.clone(),
        None => String::new(),
    }
}

fn cidr_or_empty(v: &Option<AddrCidr>) -> (r: String)
    ensures
        r@ == opt_cidr(*v),
{
    match v {
        Some(a) => a.to_string(),
        None => String::new(),
    }
}

fn ip_or_empty(v: &Option<IpAddr>) -> (r: String)
    ensures
        r@ == opt_ip(*v),
{
    match v {
        Some(a) => a.to_string(),
        None => String::new(),
    }
}

/// The fields that a resource is shown with.
pub fn resource_to_fields(spec: &Resource) -> (r: Vec<(String, String)>)
    ensures
        pairs(r@) == fields_of(spec@),
{
    let r = match spec {
        Resource::MachineConfig(c) => vec![
            kv("bytes", decimal(c.raw_yaml.as_str().as_bytes().len() as u64)),
        ],
        Resource::ServiceStatus(s) => vec![
            kv("service_id", s.service_id.clone()),
            kv(
                "state",
                match &s.state {
                    ServiceState::Running => "Running".to_owned(),
                    ServiceState::Other(name) => name.clone(),
                },
            ),
            kv("healthy", flag_text(s.healthy)),
            kv("message", s.last_message.clone()),
        ],
        Resource::LinkSpec(l) => vec![
            kv("name", l.name.clone()),
            kv("up", flag_text(l.up)),
            kv(
                "mtu",
                match l.mtu {
                    Some(m) => decimal(m as u64),
                    None => String::new(),
                },
            ),
        ],
        Resource::AddressSpec(a) => vec![
            kv("link", a.link.clone()),
            kv("address", a.address.to_string()),
        ],
        Resource::RouteSpec(r) => vec![
            kv("link", r.link.clone()),
            kv("destination", cidr_or_empty(&r.destination)),
            kv("gateway", ip_or_empty(&r.gateway)),
            kv("metric", decimal(r.metric as u64)),
        ],
        Resource::HostnameSpec(h) => vec![kv("hostname", h.hostname.clone())],
        Resource::ResolverSpec(r) => vec![
            kv("nameservers", decimal(r.nameservers.len() as u64)),
            kv("search", join_strings(&r.search, ",")),
        ],
        Resource::LinkStatus(l) => vec![
            kv("name", l.name.clone()),
            kv("up", flag_text(l.up)),
            kv("mtu", decimal(l.mtu as u64)),
            kv("mac", l.mac.clone()),
        ],
        Resource::AddressStatus(a) => vec![
            kv("link", a.link.clone()),
            kv("address", a.address.to_string()),
        ],
        Resource::RouteStatus(r) => vec![
            kv("link", r.link.clone()),
            kv("destination", cidr_or_empty(&r.destination)),
            kv("gateway", ip_or_empty(&r.gateway)),
        ],
        Resource::DiskStatus(d) => vec![
            kv("name", d.name.clone()),
            kv("path", d.path.clone()),
            kv("size_bytes", decimal(d.size_bytes)),
            kv("model", d.model.clone()),
            kv("rotational", flag_text(d.rotational)),
            kv("read_only", flag_text(d.read_only)),
        ],
        Resource::DiscoveredVolume(v) => vec![
            kv("device", v.device.clone()),
            kv("disk", v.disk.clone()),
            kv("partition_label", v.partition_label.clone()),
            kv("fs_type", opt(&v.fs_type)),
            kv("size_bytes", decimal(v.size_bytes)),
        ],
        Resource::VolumeStatus(v) => vec![
            kv("name", v.name.clone()),
            kv("device", v.device.clone()),
            kv("fs", v.fs.clone()),
            kv("label", v.label.clone()),
            kv(
                "phase",
                match v.phase {
                    VolumePhase::Provisioned => "Provisioned".to_owned(),
                    VolumePhase::Failed => "Failed".to_owned(),
                },
            ),
        ],
        Resource::MountStatus(m) => vec![
            kv("volume", m.volume.clone()),
            kv("source", m.source.clone()),
            kv("target", m.target.clone()),
            kv("fstype", m.fstype.clone()),
            kv("mounted", flag_text(m.mounted)),
        ],
        Resource::TimeStatus(t) => vec![
            kv("synced", flag_text(t.synced)),
            kv("server", t.server.clone()),
            kv("offset_ns", signed_decimal(t.offset_ns)),
            kv("sync_count", decimal(t.sync_count)),
        ],
        Resource::RuntimeStatus(r) => vec![
            kv("ready", flag_text(r.ready)),
            kv("name", r.name.clone()),
            kv("version", r.version.clone()),
        ],
        Resource::PodStatus(p) => vec![
            kv("name", p.name.clone()),
            kv(
                "phase",
                match p.phase {
                    PodPhase::Pending => "Pending".to_owned(),
                    PodPhase::Running => "Running".to_owned(),
                    PodPhase::Failed => "Failed".to_owned(),
                },
            ),
            kv("container_id", p.container_id.clone()),
            kv("pod_ip", p.pod_ip.clone()),
            kv("message", p.message.clone()),
        ],
        Resource::UpgradeStatus(u) => vec![
            kv("phase", u.phase.clone()),
            kv("message", u.message.clone()),
        ],
    };
    assert(pairs(r@) =~= fields_of(spec@));
    r
}

/// A field with this key and this value is shown.
pub open spec fn shows(
    fields: Seq<(Seq<char>, Seq<char>)>,
    key: Seq<char>,
    value: Seq<char>,
) -> bool {
    exists|i: int| 0 <= i < fields.len() && #[trigger] fields[i] == (key, value)
}

/// A field with this key is shown, and its value is read as this number.
pub open spec fn shows_number(
    fields: Seq<(Seq<char>, Seq<char>)>,
    key: Seq<char>,
    n: u64,
) -> bool {
    exists|i: int|
        0 <= i < fields.len() && (#[trigger] fields[i]).0 == key && crate::text::u64_of(fields[i].1)
            == Some(n)
}

/// A field with this key is shown, and it says whether something is so.
pub open spec fn shows_flag(
    fields: Seq<(Seq<char>, Seq<char>)>,
    key: Seq<char>,
    b: bool,
) -> bool {
    shows(
        fields,
        key,
        if b {
            "true"@
        } else {
            "false"@
        },
    )
}

/// A field with this key is shown, and its value is read as this address.
pub open spec fn shows_ip(
    fields: Seq<(Seq<char>, Seq<char>)>,
    key: Seq<char>,
    ip: Option<IpAddr>,
) -> bool {
    exists|i: int|
        0 <= i < fields.len() && (#[trigger] fields[i]).0 == key && match ip {
            Some(_) => crate::ip::reading::ip_of(fields[i].1) == ip,
            None => fields[i].1.len() == 0,
        }
}

/// A field with this key is shown, and its value is read as this address with
/// its prefix.
pub open spec fn shows_cidr(
    fields: Seq<(Seq<char>, Seq<char>)>,
    key: Seq<char>,
    a: Option<AddrCidr>,
) -> bool {
    exists|i: int|
        0 <= i < fields.len() && (#[trigger] fields[i]).0 == key && match a {
            Some(c) => c.prefix <= crate::ip::reading::bits(c.ip) ==> crate::ip::reading::cidr_of(
                fields[i].1,
            ) == a,
            None => fields[i].1.len() == 0,
        }
}

proof fn lemma_shows(fields: Seq<(Seq<char>, Seq<char>)>, i: int)
    requires
        0 <= i < fields.len(),
    ensures
        shows(fields, fields[i].0, fields[i].1),
{
    assert(fields[i] == (fields[i].0, fields[i].1));
}

proof fn lemma_shows_number(fields: Seq<(Seq<char>, Seq<char>)>, i: int, n: u64)
    requires
        0 <= i < fields.len(),
        fields[i].1 == crate::text::dec(n as nat),
    ensures
        shows_number(fields, fields[i].0, n),
{
    crate::text::a_written_number_is_read_back(n);
    assert(crate::text::u64_of(fields[i].1) == Some(n));
}

proof fn lemma_shows_ip(fields: Seq<(Seq<char>, Seq<char>)>, i: int, ip: Option<IpAddr>)
    requires
        0 <= i < fields.len(),
        fields[i].1 == opt_ip(ip),
    ensures
        shows_ip(fields, fields[i].0, ip),
{
    if let Some(a) = ip {
        crate::ip::reading::an_address_reads_back(a);
    }
    assert(fields[i].0 == fields[i].0);
}

proof fn lemma_shows_cidr(fields: Seq<(Seq<char>, Seq<char>)>, i: int, a: Option<AddrCidr>)
    requires
        0 <= i < fields.len(),
        fields[i].1 == opt_cidr(a),
    ensures
        shows_cidr(fields, fields[i].0, a),
{
    if let Some(c) = a {
        if c.prefix <= crate::ip::reading::bits(c.ip) {
            crate::ip::reading::a_prefix_reads_back(c);
        }
    }
    assert(fields[i].0 == fields[i].0);
}

/// What is shown of a link, an address or a route that should be there is what
/// its spec says: each value can be read back.
pub proof fn the_fields_show_the_specs(spec: Resource)
    ensures
        ({
            let f = fields_of(spec@);
            match spec {
                Resource::LinkSpec(l) => {
                    &&& shows(f, "name"@, l.name@)
                    &&& shows_flag(f, "up"@, l.up)
                    &&& l.mtu matches Some(m) ==> shows_number(f, "mtu"@, m as u64)
                    &&& l.mtu is None ==> shows(f, "mtu"@, Seq::empty())
                },
                Resource::AddressSpec(a) => shows(f, "link"@, a.link@) && shows_cidr(
                    f,
                    "address"@,
                    Some(a.address),
                ),
                Resource::RouteSpec(r) => {
                    &&& shows(f, "link"@, r.link@)
                    &&& shows_cidr(f, "destination"@, r.destination)
                    &&& shows_ip(f, "gateway"@, r.gateway)
                    &&& shows_number(f, "metric"@, r.metric as u64)
                },
                Resource::HostnameSpec(h) => shows(f, "hostname"@, h.hostname@),
                Resource::ResolverSpec(r) => r.nameservers@.len() <= u64::MAX ==> shows_number(
                    f,
                    "nameservers"@,
                    r.nameservers@.len() as u64,
                ),
                Resource::LinkStatus(l) => {
                    &&& shows(f, "name"@, l.name@)
                    &&& shows_flag(f, "up"@, l.up)
                    &&& shows_number(f, "mtu"@, l.mtu as u64)
                    &&& shows(f, "mac"@, l.mac@)
                },
                Resource::AddressStatus(a) => shows(f, "link"@, a.link@) && shows_cidr(
                    f,
                    "address"@,
                    Some(a.address),
                ),
                Resource::RouteStatus(r) => {
                    &&& shows(f, "link"@, r.link@)
                    &&& shows_cidr(f, "destination"@, r.destination)
                    &&& shows_ip(f, "gateway"@, r.gateway)
                },
                _ => true,
            }
        }),
{
    let f = fields_of(spec@);
    match spec {
        Resource::LinkSpec(l) => {
            lemma_shows(f, 0);
            lemma_shows(f, 1);
            match l.mtu {
                Some(m) => {
                    lemma_shows_number(f, 2, m as u64);
                },
                None => {
                    lemma_shows(f, 2);
                },
            }
        },
        Resource::AddressSpec(a) => {
            lemma_shows(f, 0);
            lemma_shows_cidr(f, 1, Some(a.address));
        },
        Resource::RouteSpec(r) => {
            lemma_shows(f, 0);
            lemma_shows_cidr(f, 1, r.destination);
            lemma_shows_ip(f, 2, r.gateway);
            lemma_shows_number(f, 3, r.metric as u64);
        },
        Resource::HostnameSpec(_) => {
            lemma_shows(f, 0);
        },
        Resource::ResolverSpec(r) => {
            if r.nameservers@.len() <= u64::MAX {
                lemma_shows_number(f, 0, r.nameservers@.len() as u64);
            }
        },
        Resource::LinkStatus(l) => {
            lemma_shows(f, 0);
            lemma_shows(f, 1);
            lemma_shows_number(f, 2, l.mtu as u64);
            lemma_shows(f, 3);
        },
        Resource::AddressStatus(a) => {
            lemma_shows(f, 0);
            lemma_shows_cidr(f, 1, Some(a.address));
        },
        Resource::RouteStatus(r) => {
            lemma_shows(f, 0);
            lemma_shows_cidr(f, 1, r.destination);
            lemma_shows_ip(f, 2, r.gateway);
        },
        _ => {},
    }
}

/// What is shown of disks, volumes and mounts is what is known of them.
pub proof fn the_fields_show_the_storage(spec: Resource)
    ensures
        ({
            let f = fields_of(spec@);
            match spec {
                Resource::DiskStatus(d) => {
                    &&& shows(f, "name"@, d.name@)
                    &&& shows(f, "path"@, d.path@)
                    &&& shows_number(f, "size_bytes"@, d.size_bytes)
                    &&& shows(f, "model"@, d.model@)
                    &&& shows_flag(f, "rotational"@, d.rotational)
                    &&& shows_flag(f, "read_only"@, d.read_only)
                },
                Resource::DiscoveredVolume(v) => {
                    &&& shows(f, "device"@, v.device@)
                    &&& shows(f, "disk"@, v.disk@)
                    &&& shows(f, "partition_label"@, v.partition_label@)
                    &&& shows_number(f, "size_bytes"@, v.size_bytes)
                    &&& v.fs_type matches Some(t) ==> shows(f, "fs_type"@, t@)
                    &&& v.fs_type is None ==> shows(f, "fs_type"@, Seq::empty())
                },
                Resource::VolumeStatus(v) => {
                    &&& shows(f, "name"@, v.name@)
                    &&& shows(f, "device"@, v.device@)
                    &&& shows(f, "fs"@, v.fs@)
                    &&& shows(f, "label"@, v.label@)
                    &&& v.phase is Provisioned ==> shows(f, "phase"@, "Provisioned"@)
                    &&& v.phase is Failed ==> shows(f, "phase"@, "Failed"@)
                },
                Resource::MountStatus(m) => {
                    &&& shows(f, "volume"@, m.volume@)
                    &&& shows(f, "source"@, m.source@)
                    &&& shows(f, "target"@, m.target@)
                    &&& shows(f, "fstype"@, m.fstype@)
                    &&& shows_flag(f, "mounted"@, m.mounted)
                },
                _ => true,
            }
        }),
{
    let f = fields_of(spec@);
    match spec {
        Resource::DiskStatus(d) => {
            lemma_shows(f, 0);
            lemma_shows(f, 1);
            lemma_shows_number(f, 2, d.size_bytes);
            lemma_shows(f, 3);
            lemma_shows(f, 4);
            lemma_shows(f, 5);
        },
        Resource::DiscoveredVolume(v) => {
            lemma_shows(f, 0);
            lemma_shows(f, 1);
            lemma_shows(f, 2);
            lemma_shows(f, 3);
            lemma_shows_number(f, 4, v.size_bytes);
        },
        Resource::VolumeStatus(_) => {
            lemma_shows(f, 0);
            lemma_shows(f, 1);
            lemma_shows(f, 2);
            lemma_shows(f, 3);
            lemma_shows(f, 4);
        },
        Resource::MountStatus(_) => {
            lemma_shows(f, 0);
            lemma_shows(f, 1);
            lemma_shows(f, 2);
            lemma_shows(f, 3);
            lemma_shows(f, 4);
        },
        _ => {},
    }
}

/// What is shown of services, the clock, the runtime and pods is how they stand.
pub proof fn the_fields_show_the_services(spec: Resource)
    ensures
        ({
            let f = fields_of(spec@);
            match spec {
                Resource::ServiceStatus(s) => {
                    &&& shows(f, "service_id"@, s.service_id@)
                    &&& s.state is Running ==> shows(f, "state"@, "Running"@)
                    &&& s.state matches ServiceState::Other(name) ==> shows(f, "state"@, name@)
                    &&& shows_flag(f, "healthy"@, s.healthy)
                    &&& shows(f, "message"@, s.last_message@)
                },
                Resource::TimeStatus(t) => {
                    &&& shows_flag(f, "synced"@, t.synced)
                    &&& shows(f, "server"@, t.server@)
                    &&& t.offset_ns >= 0 ==> shows_number(f, "offset_ns"@, t.offset_ns as u64)
                    &&& t.offset_ns < 0 ==> shows(
                        f,
                        "offset_ns"@,
                        seq!['-'] + crate::text::dec((-t.offset_ns) as nat),
                    )
                    &&& shows_number(f, "sync_count"@, t.sync_count)
                },
                Resource::RuntimeStatus(r) => {
                    &&& shows_flag(f, "ready"@, r.ready)
                    &&& shows(f, "name"@, r.name@)
                    &&& shows(f, "version"@, r.version@)
                },
                Resource::PodStatus(p) => {
                    &&& shows(f, "name"@, p.name@)
                    &&& p.phase is Pending ==> shows(f, "phase"@, "Pending"@)
                    &&& p.phase is Running ==> shows(f, "phase"@, "Running"@)
                    &&& p.phase is Failed ==> shows(f, "phase"@, "Failed"@)
                    &&& shows(f, "container_id"@, p.container_id@)
                    &&& shows(f, "pod_ip"@, p.pod_ip@)
                    &&& shows(f, "message"@, p.message@)
                },
                Resource::UpgradeStatus(u) => shows(f, "phase"@, u.phase@) && shows(
                    f,
                    "message"@,
                    u.message@,
                ),
                Resource::MachineConfig(c) => vstd::utf8::encode_utf8(c.raw_yaml@).len() <= u64::MAX
                    ==> shows_number(
                    f,
                    "bytes"@,
                    vstd::utf8::encode_utf8(c.raw_yaml@).len() as u64,
                ),
                _ => true,
            }
        }),
{
    let f = fields_of(spec@);
    match spec {
        Resource::ServiceStatus(_) => {
            lemma_shows(f, 0);
            lemma_shows(f, 1);
            lemma_shows(f, 2);
            lemma_shows(f, 3);
        },
        Resource::TimeStatus(t) => {
            lemma_shows(f, 0);
            lemma_shows(f, 1);
            if t.offset_ns >= 0 {
                lemma_shows_number(f, 2, t.offset_ns as u64);
            } else {
                lemma_shows(f, 2);
            }
            lemma_shows_number(f, 3, t.sync_count);
        },
        Resource::RuntimeStatus(_) => {
            lemma_shows(f, 0);
            lemma_shows(f, 1);
            lemma_shows(f, 2);
        },
        Resource::PodStatus(_) => {
            lemma_shows(f, 0);
            lemma_shows(f, 1);
            lemma_shows(f, 2);
            lemma_shows(f, 3);
            lemma_shows(f, 4);
        },
        Resource::UpgradeStatus(_) => {
            lemma_shows(f, 0);
            lemma_shows(f, 1);
        },
        Resource::MachineConfig(c) => {
            let n = vstd::utf8::encode_utf8(c.raw_yaml@).len();
            if n <= u64::MAX {
                lemma_shows_number(f, 0, n as u64);
            }
        },
        _ => {},
    }
}

/// The search domains are shown with commas between them, and can be taken apart
/// again.
pub proof fn the_search_domains_are_shown(r: crate::resources::ResolverSpec)
    requires
        r.search@.len() > 0,
        forall|i: int| 0 <= i < r.search@.len() ==> !(#[trigger] r.search@[i])@.contains(','),
    ensures
        ({
            let f = fields_of(Resource::ResolverSpec(r)@);
            &&& f.len() == 2
            &&& f[1].0 == "search"@
            &&& crate::text::split(f[1].1, ',') == crate::text::texts(r.search@)
        }),
{
    reveal_strlit(",");
    assert(","@ =~= seq![',']);
    let all = crate::text::texts(r.search@);
    assert forall|i: int| 0 <= i < all.len() implies !(#[trigger] all[i]).contains(',') by {
        assert(all[i] == r.search@[i]@);
    }
    crate::text::what_was_joined_is_split_again(all, ',');
}

} // verus!
