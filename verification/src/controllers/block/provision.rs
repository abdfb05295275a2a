//! Provisions the install disk, and guards what is on it.

use crate::block::{FsType, PartType, PartitionPlan, PlanView};
use crate::config::provider::Provider;
use crate::controllers::block::NS;
use crate::controllers::{exclusive, input, Input, InputKind, InputView, Output, OutputKind};
use crate::paths::leaf_of;
use crate::resources::{
    DiscoveredVolume, ObjectView, Resource, ResourceObject, ResourceType, ResourceView,
    VolumePhase, VolumeStatus, VolumeView,
};
use crate::text::same;
use vstd::prelude::*;
use vstd::string::*;

verus! {

/// What the guard decides about an install disk.
#[derive(Clone, Copy, Debug, PartialEq, Eq, Structural)]
pub enum ProvisionDecision {
    /// The disk has our exact layout: nothing is to be done.
    Skip,
    /// The disk is blank, or may be wiped: it is laid out afresh.
    Provision,
    /// The disk has foreign data and may not be wiped.
    RefuseForeign,
}

/// The labels of our layout.
pub open spec fn is_our_label(label: Seq<char>) -> bool {
    label == "EFI"@ || label == "STATE"@ || label == "EPHEMERAL"@
}

/// A volume is on the disk: its parent has exactly the disk's bare name, or it
/// is the disk itself.
pub open spec fn is_on(disk: Seq<char>, v: VolumeView) -> bool {
    v.disk == crate::paths::base_name(disk) || v.device == disk
}

/// Nothing is on the disk.
pub open spec fn is_blank(disk: Seq<char>, found: Seq<VolumeView>) -> bool {
    forall|i: int| 0 <= i < found.len() ==> !is_on(disk, #[trigger] found[i])
}

/// A volume with this label is on the disk.
pub open spec fn carries(disk: Seq<char>, found: Seq<VolumeView>, label: Seq<char>) -> bool {
    exists|i: int|
        0 <= i < found.len() && is_on(disk, #[trigger] found[i]) && found[i].partition_label
            == label
}

/// The disk has exactly our labels: all of them and no other.
pub open spec fn is_ours(disk: Seq<char>, found: Seq<VolumeView>) -> bool {
    &&& carries(disk, found, "EFI"@)
    &&& carries(disk, found, "STATE"@)
    &&& carries(disk, found, "EPHEMERAL"@)
    &&& forall|i: int|
        0 <= i < found.len() && is_on(disk, #[trigger] found[i]) ==> is_our_label(
            found[i].partition_label,
        )
}

/// What is decided about the disk.
pub open spec fn decision(disk: Seq<char>, wipe: bool, found: Seq<VolumeView>) -> ProvisionDecision {
    if is_blank(disk, found) {
        ProvisionDecision::Provision
    } else if is_ours(disk, found) {
        ProvisionDecision::Skip
    } else if wipe {
        ProvisionDecision::Provision
    } else {
        ProvisionDecision::RefuseForeign
    }
}

/// What a list of volumes says.
pub open spec fn volumes(v: Seq<DiscoveredVolume>) -> Seq<VolumeView> {
    Seq::new(v.len(), |i: int| v[i]@)
}

/// Decides what is done with the install disk. Every destructive step follows
/// from this decision alone.
pub fn plan_provisioning(install_disk: &str, wipe: bool, discovered: &[DiscoveredVolume]) -> (r:
    ProvisionDecision)
    ensures
        r == decision(install_disk@, wipe, volumes(discovered@)),
{
    let leaf = leaf_of(install_disk);
    let ghost disk = install_disk@;
    let ghost found = volumes(discovered@);
    let mut blank = true;
    let mut efi = false;
    let mut state = false;
    let mut ephemeral = false;
    let mut foreign = false;
    let mut i: usize = 0;
    while i < discovered.len()
        invariant
            i <= discovered@.len(),
            disk == install_disk@,
            leaf@ == crate::paths::base_name(disk),
            found == volumes(discovered@),
            blank == is_blank(disk, found.take(i as int)),
            efi == carries(disk, found.take(i as int), "EFI"@),
            state == carries(disk, found.take(i as int), "STATE"@),
            ephemeral == carries(disk, found.take(i as int), "EPHEMERAL"@),
            foreign == exists|k: int|
                0 <= k < i && is_on(disk, #[trigger] found[k]) && !is_our_label(
                    found[k].partition_label,
                ),
        decreases discovered@.len() - i,
    {
        let v = &discovered[i];
        let on = v.disk == leaf || same(v.device.as_str(), install_disk);
        proof {
            assert(found[i as int] == v@);
            assert(on == is_on(disk, found[i as int]));
            lemma_next(disk, found, i as int);
        }
        if on {
            blank = false;
            if same(v.partition_label.as_str(), "EFI") {
                efi = true;
            } else if same(v.partition_label.as_str(), "STATE") {
                state = true;
            } else if same(v.partition_label.as_str(), "EPHEMERAL") {
                ephemeral = true;
            } else {
                assert(!is_our_label(found[i as int].partition_label));
                foreign = true;
            }
        }
        proof {
            reveal_strlit("EFI");
            reveal_strlit("STATE");
            reveal_strlit("EPHEMERAL");
            assert("EFI"@.len() != "STATE"@.len());
            assert("EFI"@.len() != "EPHEMERAL"@.len());
            assert("STATE"@.len() != "EPHEMERAL"@.len());
        }
        i += 1;
    }
    assert(found.take(i as int) =~= found);
    if blank {
        ProvisionDecision::Provision
    } else if efi && state && ephemeral && !foreign {
        ProvisionDecision::Skip
    } else if wipe {
        ProvisionDecision::Provision
    } else {
        ProvisionDecision::RefuseForeign
    }
}

proof fn lemma_next(disk: Seq<char>, found: Seq<VolumeView>, i: int)
    requires
        0 <= i < found.len(),
    ensures
        is_blank(disk, found.take(i + 1)) <==> is_blank(disk, found.take(i)) && !is_on(
            disk,
            found[i],
        ),
        forall|label: Seq<char>| #[trigger]
            carries(disk, found.take(i + 1), label) <==> carries(disk, found.take(i), label) || (
            is_on(disk, found[i]) && found[i].partition_label == label),
{
    let a = found.take(i);
    let b = found.take(i + 1);
    assert(b[i] == found[i]);
    assert forall|k: int| 0 <= k < i implies #[trigger] a[k] == b[k] by {}
    if is_blank(disk, b) {
        assert forall|k: int| 0 <= k < a.len() implies !is_on(disk, #[trigger] a[k]) by {
            assert(b[k] == a[k]);
        }
    }
    if is_blank(disk, a) && !is_on(disk, found[i]) {
        assert forall|k: int| 0 <= k < b.len() implies !is_on(disk, #[trigger] b[k]) by {
            if k < i {
                assert(b[k] == a[k]);
            }
        }
    }
    assert forall|label: Seq<char>| #[trigger] carries(disk, b, label) <==> carries(
        disk,
        a,
        label,
    ) || (is_on(disk, found[i]) && found[i].partition_label == label) by {
        if carries(disk, b, label) {
            let k = choose|k: int|
                0 <= k < b.len() && is_on(disk, #[trigger] b[k]) && b[k].partition_label == label;
            if k < i {
                assert(a[k] == b[k]);
            }
        }
        if carries(disk, a, label) {
            let k = choose|k: int|
                0 <= k < a.len() && is_on(disk, #[trigger] a[k]) && a[k].partition_label == label;
            assert(b[k] == a[k]);
        }
    }
}

/// Our layout.
pub open spec fn layout() -> Seq<PlanView> {
    seq![
        PlanView {
            label: "EFI"@,
            part_type: PartType::EfiSystem,
            fs: FsType::Vfat,
            size_bytes: 0x2000_0000,
        },
        PlanView {
            label: "STATE"@,
            part_type: PartType::LinuxFilesystem,
            fs: FsType::Ext4,
            size_bytes: 0x4000_0000,
        },
        PlanView {
            label: "EPHEMERAL"@,
            part_type: PartType::LinuxFilesystem,
            fs: FsType::Ext4,
            size_bytes: 0,
        },
    ]
}

/// Our layout: 512 MiB for booting, 1 GiB of state, and the rest.
pub fn fixed_layout() -> (r: Vec<PartitionPlan>)
    ensures
        crate::block::plans(r@) == layout(),
{
    let r = vec![
        PartitionPlan {
            label: "EFI".to_owned(),
            part_type: PartType::EfiSystem,
            fs: FsType::Vfat,
            size_bytes: 512 * 1024 * 1024,
        },
        PartitionPlan {
            label: "STATE".to_owned(),
            part_type: PartType::LinuxFilesystem,
            fs: FsType::Ext4,
            size_bytes: 1024 * 1024 * 1024,
        },
        PartitionPlan {
            label: "EPHEMERAL".to_owned(),
            part_type: PartType::LinuxFilesystem,
            fs: FsType::Ext4,
            size_bytes: 0,
        },
    ];
    assert(crate::block::plans(r@) =~= layout());
    r
}

/// A system volume as a resource.
pub open spec fn status_object(
    name: Seq<char>,
    device: Seq<char>,
    fs: Seq<char>,
    label: Seq<char>,
    phase: VolumePhase,
) -> ObjectView {
    ObjectView {
        namespace: NS@,
        id: name,
        spec: ResourceView::VolumeStatus { name, device, fs, label, phase },
    }
}

/// A system volume as a resource.
pub fn volume_status_obj(
    name: &str,
    device: &str,
    fs: &str,
    label: &str,
    phase: VolumePhase,
) -> (r: ResourceObject)
    ensures
        r@ == status_object(name@, device@, fs@, label@, phase),
{
    ResourceObject::new(
        NS,
        name,
        Resource::VolumeStatus(
            VolumeStatus {
                name: name.to_owned(),
                device: device.to_owned(),
                fs: fs.to_owned(),
                label: label.to_owned(),
                phase,
            },
        ),
    )
}

/// The volumes of our layout among those that were found on the disk.
pub open spec fn found_statuses(disk: Seq<char>, found: Seq<VolumeView>) -> Seq<ObjectView>
    decreases found.len(),
{
    if found.len() == 0 {
        seq![]
    } else {
        let before = found_statuses(disk, found.drop_last());
        let v = found.last();
        if v.disk == crate::paths::base_name(disk) && is_our_label(v.partition_label) {
            before.push(
                status_object(
                    v.partition_label,
                    v.device,
                    match v.fs_type {
                        Some(t) => t,
                        None => Seq::empty(),
                    },
                    v.partition_label,
                    VolumePhase::Provisioned,
                ),
            )
        } else {
            before
        }
    }
}

/// The system volumes of a disk that is provisioned already.
pub fn provisioned_status_from_discovered(disk: &str, discovered: &[DiscoveredVolume]) -> (r: Vec<
    ResourceObject,
>)
    ensures
        crate::resources::objects(r@) == found_statuses(disk@, volumes(discovered@)),
{
    let leaf = leaf_of(disk);
    let ghost found = volumes(discovered@);
    let mut out: Vec<ResourceObject> = Vec::new();
    let mut i: usize = 0;
    assert(crate::resources::objects(out@) =~= found_statuses(disk@, found.take(0)));
    while i < discovered.len()
        invariant
            i <= discovered@.len(),
            leaf@ == crate::paths::base_name(disk@),
            found == volumes(discovered@),
            crate::resources::objects(out@) == found_statuses(disk@, found.take(i as int)),
        decreases discovered@.len() - i,
    {
        let v = &discovered[i];
        proof {
            assert(found.take(i + 1).drop_last() =~= found.take(i as int));
            assert(found.take(i + 1).last() == v@);
        }
        let label = v.partition_label.as_str();
        if v.disk == leaf && (same(label, "EFI") || same(label, "STATE") || same(
            label,
            "EPHEMERAL",
        )) {
            let fs: &str = match &v.fs_type {
                Some(t) => t.as_str(),
                None => "",
            };
            proof {
                reveal_strlit("");
                assert(v.fs_type is None ==> fs@ =~= Seq::empty());
            }
            let o = volume_status_obj(
                label,
                v.device.as_str(),
                fs,
                label,
                VolumePhase::Provisioned,
            );
            assert(crate::resources::objects(out@.push(o)) =~= crate::resources::objects(out@).push(
                o@,
            ));
            out.push(o);
        }
        i += 1;
    }
    assert(found.take(i as int) =~= found);
    out
}

/// What the provisioner wants done next.
pub enum ProvisionAction {
    /// Nothing: no install disk is configured.
    Idle,
    /// Destroy the partition table of the disk.
    Wipe { disk: String },
    /// Write a fresh partition table.
    CreatePartitions { disk: String, plan: Vec<PartitionPlan> },
    /// Make a filesystem.
    Format { device: String, fs: FsType, label: String },
    /// Publish the system volumes.
    Publish { statuses: Vec<ResourceObject> },
    /// Give up.
    Fail { message: String },
}

/// What came of it.
pub enum ProvisionEvent {
    Wiped,
    Created { devices: Vec<String> },
    Formatted,
    Failed { message: String },
}

/// How far provisioning has come; `k` counts the filesystems that were made.
#[derive(Clone, Copy, Debug, PartialEq, Eq)]
pub enum ProvisionStage {
    Wiping,
    Creating,
    Formatting { k: usize },
    Over,
}

/// A disk being provisioned.
pub struct ProvisionRun {
    disk: String,
    devices: Vec<String>,
    stage: ProvisionStage,
}

/// What is known of a disk being provisioned.
#[verifier::ext_equal]
pub struct ProvisionView {
    pub disk: Seq<char>,
    pub devices: Seq<Seq<char>>,
    pub stage: ProvisionStage,
}

impl View for ProvisionRun {
    type V = ProvisionView;

    closed spec fn view(&self) -> ProvisionView {
        ProvisionView {
            disk: self.disk@,
            devices: crate::text::texts(self.devices@),
            stage: self.stage,
        }
    }
}

/// What an action says.
#[verifier::ext_equal]
pub enum ProvisionActionView {
    Idle,
    Wipe { disk: Seq<char> },
    CreatePartitions { disk: Seq<char>, plan: Seq<PlanView> },
    Format { device: Seq<char>, fs: FsType, label: Seq<char> },
    Publish { statuses: Seq<ObjectView> },
    Fail { message: Seq<char> },
}

impl View for ProvisionAction {
    type V = ProvisionActionView;

    open spec fn view(&self) -> ProvisionActionView {
        match *self {
            ProvisionAction::Idle => ProvisionActionView::Idle,
            ProvisionAction::Wipe { disk } => ProvisionActionView::Wipe { disk: disk@ },
            ProvisionAction::CreatePartitions { disk, plan } =>
            ProvisionActionView::CreatePartitions {
                disk: disk@,
                plan: crate::block::plans(plan@),
            },
            ProvisionAction::Format { device, fs, label } => ProvisionActionView::Format {
                device: device@,
                fs,
                label: label@,
            },
            ProvisionAction::Publish { statuses } => ProvisionActionView::Publish {
                statuses: crate::resources::objects(statuses@),
            },
            ProvisionAction::Fail { message } => ProvisionActionView::Fail { message: message@ },
        }
    }
}

/// Why a disk with foreign data is refused.
pub open spec fn foreign_message(disk: Seq<char>) -> Seq<char> {
    "install disk "@ + disk + " has foreign data; set install.wipe to overwrite"@
}

/// The provisioning of a disk at a stage.
pub open spec fn run_at(
    disk: Seq<char>,
    devices: Seq<Seq<char>>,
    stage: ProvisionStage,
) -> ProvisionView {
    ProvisionView { disk, devices, stage }
}

/// How provisioning begins.
pub open spec fn begin(disk: Seq<char>, wipe: bool, found: Seq<VolumeView>) -> (
    ProvisionView,
    ProvisionActionView,
) {
    let over = run_at(disk, seq![], ProvisionStage::Over);
    match decision(disk, wipe, found) {
        ProvisionDecision::RefuseForeign => (
            over,
            ProvisionActionView::Fail { message: foreign_message(disk) },
        ),
        ProvisionDecision::Skip => (
            over,
            ProvisionActionView::Publish { statuses: found_statuses(disk, found) },
        ),
        ProvisionDecision::Provision => if found.len() > 0 && wipe {
            (
                run_at(disk, seq![], ProvisionStage::Wiping),
                ProvisionActionView::Wipe { disk },
            )
        } else {
            (
                run_at(disk, seq![], ProvisionStage::Creating),
                ProvisionActionView::CreatePartitions { disk, plan: layout() },
            )
        },
    }
}

/// The number of partitions that are formatted.
pub open spec fn count_of(devices: Seq<Seq<char>>) -> nat {
    if devices.len() < layout().len() {
        devices.len()
    } else {
        layout().len()
    }
}

/// The system volumes that were made.
pub open spec fn made_statuses(devices: Seq<Seq<char>>) -> Seq<ObjectView> {
    Seq::new(
        count_of(devices),
        |i: int|
            status_object(
                layout()[i].label,
                devices[i],
                crate::block::fs_name(layout()[i].fs),
                layout()[i].label,
                VolumePhase::Provisioned,
            ),
    )
}

/// Formats the `k`-th partition, or publishes them all.
pub open spec fn format_at(v: ProvisionView, k: int) -> (ProvisionView, ProvisionActionView) {
    if k >= count_of(v.devices) {
        (
            run_at(v.disk, v.devices, ProvisionStage::Over),
            ProvisionActionView::Publish { statuses: made_statuses(v.devices) },
        )
    } else {
        (
            run_at(v.disk, v.devices, ProvisionStage::Formatting { k: k as usize }),
            ProvisionActionView::Format {
                device: v.devices[k],
                fs: layout()[k].fs,
                label: layout()[k].label,
            },
        )
    }
}

/// The events that can follow at each stage.
pub open spec fn can_follow(stage: ProvisionStage, e: ProvisionEvent) -> bool {
    match e {
        ProvisionEvent::Wiped => stage is Wiping,
        ProvisionEvent::Created { .. } => stage is Creating,
        ProvisionEvent::Formatted => stage is Formatting,
        ProvisionEvent::Failed { .. } => stage !is Over,
    }
}

/// How provisioning goes on after an event.
pub open spec fn next(v: ProvisionView, e: ProvisionEvent) -> (ProvisionView, ProvisionActionView) {
    match e {
        ProvisionEvent::Wiped => (
            run_at(v.disk, v.devices, ProvisionStage::Creating),
            ProvisionActionView::CreatePartitions { disk: v.disk, plan: layout() },
        ),
        ProvisionEvent::Created { devices } => format_at(
            ProvisionView { devices: crate::text::texts(devices@), ..v },
            0,
        ),
        ProvisionEvent::Formatted => format_at(v, v.stage->k + 1),
        ProvisionEvent::Failed { message } => (
            run_at(v.disk, v.devices, ProvisionStage::Over),
            ProvisionActionView::Fail { message: message@ },
        ),
    }
}

/// What holds of a disk being provisioned at every moment.
pub open spec fn is_run(v: ProvisionView) -> bool {
    v.stage matches ProvisionStage::Formatting { k } ==> k < count_of(v.devices)
}

impl ProvisionRun {
    fn format_next(&mut self, k: usize) -> (r: ProvisionAction)
        ensures
            is_run(final(self)@),
            (final(self)@, r@) == format_at(old(self)@, k as int),
    {
        let plan = fixed_layout();
        let n: usize = if self.devices.len() < plan.len() {
            self.devices.len()
        } else {
            plan.len()
        };
        assert(plan@.len() == layout().len());
        assert(n == count_of(self@.devices));
        if k >= n {
            let mut statuses: Vec<ResourceObject> = Vec::new();
            let ghost devices = self@.devices;
            let ghost all = made_statuses(devices);
            let mut i: usize = 0;
            assert(crate::resources::objects(statuses@) =~= all.take(0));
            while i < n
                invariant
                    i <= n,
                    n == count_of(devices),
                    n <= plan@.len(),
                    n <= self.devices@.len(),
                    devices == self@.devices,
                    self@ == old(self)@,
                    crate::block::plans(plan@) == layout(),
                    all == made_statuses(devices),
                    crate::resources::objects(statuses@) == all.take(i as int),
                decreases n - i,
            {
                let o = volume_status_obj(
                    plan[i].label.as_str(),
                    self.devices[i].as_str(),
                    plan[i].fs.as_str(),
                    plan[i].label.as_str(),
                    VolumePhase::Provisioned,
                );
                proof {
                    assert(layout()[i as int] == plan@[i as int]@);
                    assert(devices[i as int] == self.devices@[i as int]@);
                    assert(o@ == all[i as int]);
                    assert(all.take(i + 1) =~= all.take(i as int).push(o@));
                    assert(crate::resources::objects(statuses@.push(o))
                        =~= crate::resources::objects(statuses@).push(o@));
                }
                statuses.push(o);
                i += 1;
            }
            assert(all.take(i as int) =~= all);
            self.stage = ProvisionStage::Over;
            ProvisionAction::Publish { statuses }
        } else {
            proof {
                assert(layout()[k as int] == plan@[k as int]@);
                assert(self@.devices[k as int] == self.devices@[k as int]@);
            }
            self.stage = ProvisionStage::Formatting { k };
            ProvisionAction::Format {
                device: self.devices[k].clone(),
                fs: plan[k].fs,
                label: plan[k].label.clone(),
            }
        }
    }

    /// Takes an event in and gives the next action.
    pub fn step(&mut self, event: ProvisionEvent) -> (r: ProvisionAction)
        requires
            is_run(old(self)@),
            can_follow(old(self)@.stage, event),
        ensures
            is_run(final(self)@),
            (final(self)@, r@) == next(old(self)@, event),
    {
        match event {
            ProvisionEvent::Wiped => {
                self.stage = ProvisionStage::Creating;
                ProvisionAction::CreatePartitions { disk: self.disk.clone(), plan: fixed_layout() }
            },
            ProvisionEvent::Created { devices } => {
                self.devices = devices;
                self.format_next(0)
            },
            ProvisionEvent::Formatted => {
                let k: usize = match self.stage {
                    ProvisionStage::Formatting { k } => k,
                    _ => 0,
                };
                self.format_next(k + 1)
            },
            ProvisionEvent::Failed { message } => {
                self.stage = ProvisionStage::Over;
                ProvisionAction::Fail { message }
            },
        }
    }
}

/// The volumes among the resources.
pub open spec fn discovered_of(listed: Seq<ResourceObject>) -> Seq<VolumeView>
    decreases listed.len(),
{
    if listed.len() == 0 {
        seq![]
    } else {
        let before = discovered_of(listed.drop_last());
        match listed.last().spec {
            Resource::DiscoveredVolume(v) => before.push(v@),
            _ => before,
        }
    }
}

fn copy_volume(v: &DiscoveredVolume) -> (r: DiscoveredVolume)
    ensures
        r@ == v@,
{
    DiscoveredVolume {
        device: v.device.clone(),
        disk: v.disk.clone(),
        partition_uuid: v.partition_uuid.clone(),
        partition_label: v.partition_label.clone(),
        partition_type_guid: v.partition_type_guid.clone(),
        fs_type: crate::block::copy_opt(&v.fs_type),
        fs_label: crate::block::copy_opt(&v.fs_label),
        fs_uuid: crate::block::copy_opt(&v.fs_uuid),
        size_bytes: v.size_bytes,
    }
}

fn discovered_volumes(listed: &Vec<ResourceObject>) -> (r: Vec<DiscoveredVolume>)
    ensures
        volumes(r@) == discovered_of(listed@),
{
    let mut out: Vec<DiscoveredVolume> = Vec::new();
    let mut i: usize = 0;
    assert(volumes(out@) =~= discovered_of(listed@.take(0)));
    while i < listed.len()
        invariant
            i <= listed@.len(),
            volumes(out@) == discovered_of(listed@.take(i as int)),
        decreases listed@.len() - i,
    {
        proof {
            assert(listed@.take(i + 1).drop_last() =~= listed@.take(i as int));
            assert(listed@.take(i + 1).last() == listed@[i as int]);
        }
        if let Resource::DiscoveredVolume(v) = &listed[i].spec {
            let c = copy_volume(v);
            assert(volumes(out@.push(c)) =~= volumes(out@).push(c@));
            out.push(c);
        }
        i += 1;
    }
    assert(listed@.take(i as int) =~= listed@);
    out
}

/// Provisions the configured install disk.
pub struct VolumeProvisionerController {
    provider: Provider,
}

impl VolumeProvisionerController {
    /// The configuration.
    pub closed spec fn config(self) -> crate::config::types::MachineConfig {
        self.provider.config()
    }

    pub fn new(provider: Provider) -> (r: VolumeProvisionerController)
        ensures
            r.config() == provider.config(),
    {
        VolumeProvisionerController { provider }
    }

    /// The controller's name, under which it owns what it publishes.
    pub fn name(&self) -> (r: &'static str)
        ensures
            r@ == "volume-provisioner"@,
    {
        "volume-provisioner"
    }

    /// Discovered volumes are watched.
    pub fn inputs(&self) -> (r: Vec<Input>)
        ensures
            crate::controllers::inputs_of(r@) == seq![
                InputView {
                    namespace: NS@,
                    typ: ResourceType::DiscoveredVolume,
                    kind: InputKind::Weak,
                },
            ],
    {
        let r = vec![input(NS, ResourceType::DiscoveredVolume, InputKind::Weak)];
        assert(crate::controllers::inputs_of(r@) =~= seq![
            InputView {
                namespace: NS@,
                typ: ResourceType::DiscoveredVolume,
                kind: InputKind::Weak,
            },
        ]);
        r
    }

    pub fn outputs(&self) -> (r: Vec<Output>)
        ensures
            r@ == seq![Output { typ: ResourceType::VolumeStatus, kind: OutputKind::Exclusive }],
    {
        let r = vec![exclusive(ResourceType::VolumeStatus)];
        assert(r@ =~= seq![
            Output { typ: ResourceType::VolumeStatus, kind: OutputKind::Exclusive },
        ]);
        r
    }

    /// Begins provisioning, given the discovered volumes.
    pub fn reconcile(&self, listed: &Vec<ResourceObject>) -> (r: (ProvisionRun, ProvisionAction))
        ensures
            is_run(r.0@),
            match self.config().machine.install {
                Some(install) => (r.0@, r.1@) == begin(
                    install.disk@,
                    install.wipe,
                    discovered_of(listed@),
                ),
                None => r.0@.stage == ProvisionStage::Over && r.1@ == ProvisionActionView::Idle,
            },
    {
        let install = match self.provider.install() {
            Some(i) => i,
            None => {
                let run = ProvisionRun {
                    disk: String::new(),
                    devices: Vec::new(),
                    stage: ProvisionStage::Over,
                };
                return (run, ProvisionAction::Idle);
            },
        };
        let discovered = discovered_volumes(listed);
        let disk = install.disk.clone();
        let mut run = ProvisionRun {
            disk: install.disk.clone(),
            devices: Vec::new(),
            stage: ProvisionStage::Over,
        };
        assert(run@.devices =~= seq![]);
        match plan_provisioning(disk.as_str(), install.wipe, discovered.as_slice()) {
            ProvisionDecision::RefuseForeign => {
                let mut message = "install disk ".to_owned();
                message.append(disk.as_str());
                message.append(" has foreign data; set install.wipe to overwrite");
                (run, ProvisionAction::Fail { message })
            },
            ProvisionDecision::Skip => {
                let statuses = provisioned_status_from_discovered(
                    disk.as_str(),
                    discovered.as_slice(),
                );
                (run, ProvisionAction::Publish { statuses })
            },
            ProvisionDecision::Provision => {
                assert(discovered@.len() == discovered_of(listed@).len());
                if discovered.len() > 0 && install.wipe {
                    run.stage = ProvisionStage::Wiping;
                    (run, ProvisionAction::Wipe { disk })
                } else {
                    run.stage = ProvisionStage::Creating;
                    (run, ProvisionAction::CreatePartitions { disk, plan: fixed_layout() })
                }
            },
        }
    }
}

/// An action that changes what is on a disk.
pub open spec fn is_destructive(a: ProvisionActionView) -> bool {
    a is Wipe || a is CreatePartitions || a is Format
}

/// Foreign data is safe: a disk that is not blank and has not our layout is
/// neither wiped nor written unless wiping was asked for; it is refused.
pub proof fn foreign_data_is_safe_without_wipe(disk: Seq<char>, found: Seq<VolumeView>)
    requires
        !is_blank(disk, found),
        !is_ours(disk, found),
    ensures
        begin(disk, false, found).1 is Fail,
        begin(disk, false, found).0.stage is Over,
{
}

/// A disk with our layout is left as it is, even where wiping was asked for.
pub proof fn our_layout_is_kept(disk: Seq<char>, wipe: bool, found: Seq<VolumeView>)
    requires
        is_ours(disk, found),
    ensures
        !is_destructive(begin(disk, wipe, found).1),
        begin(disk, wipe, found).0.stage is Over,
{
    let i = choose|i: int|
        0 <= i < found.len() && is_on(disk, #[trigger] found[i]) && found[i].partition_label
            == "EFI"@;
    assert(!is_blank(disk, found));
}

/// Only a disk that was blank, or that may be wiped, is written.
pub proof fn what_is_written_was_blank_or_may_be_wiped(
    disk: Seq<char>,
    wipe: bool,
    found: Seq<VolumeView>,
)
    requires
        is_destructive(begin(disk, wipe, found).1),
    ensures
        is_blank(disk, found) || wipe,
        begin(disk, wipe, found).1 is Wipe ==> wipe,
{
}

/// What other disks hold does not matter to the decision.
pub proof fn other_disks_do_not_matter(
    disk: Seq<char>,
    wipe: bool,
    found: Seq<VolumeView>,
    other: VolumeView,
)
    requires
        !is_on(disk, other),
    ensures
        decision(disk, wipe, found.push(other)) == decision(disk, wipe, found),
{
    let more = found.push(other);
    let n = found.len() as int;
    assert(more.take(n) =~= found);
    assert(more.take(n + 1) =~= more);
    lemma_next(disk, more, n);
    assert(carries(disk, more, "EFI"@) == carries(disk, found, "EFI"@));
    assert(carries(disk, more, "STATE"@) == carries(disk, found, "STATE"@));
    assert(carries(disk, more, "EPHEMERAL"@) == carries(disk, found, "EPHEMERAL"@));
    if is_ours(disk, found) {
        assert forall|i: int| 0 <= i < more.len() && is_on(
            disk,
            #[trigger] more[i],
        ) implies is_our_label(more[i].partition_label) by {
            assert(i < n ==> more[i] == found[i]);
        }
    }
    if is_ours(disk, more) {
        assert forall|i: int| 0 <= i < found.len() && is_on(
            disk,
            #[trigger] found[i],
        ) implies is_our_label(found[i].partition_label) by {
            assert(more[i] == found[i]);
        }
    }
}

/// Provisioning is done once: what it makes, and discovery then finds, is our
/// layout, and the disk is skipped from there on.
pub proof fn what_was_provisioned_is_skipped(disk: Seq<char>, wipe: bool, found: Seq<VolumeView>)
    requires
        found.len() == layout().len(),
        forall|i: int|
            0 <= i < found.len() ==> (#[trigger] found[i]).disk == crate::paths::base_name(disk)
                && found[i].partition_label == layout()[i].label,
    ensures
        decision(disk, wipe, found) == ProvisionDecision::Skip,
{
    assert(is_on(disk, found[0]) && found[0].partition_label == "EFI"@);
    assert(is_on(disk, found[1]) && found[1].partition_label == "STATE"@);
    assert(is_on(disk, found[2]) && found[2].partition_label == "EPHEMERAL"@);
    assert(!is_blank(disk, found));
    assert forall|i: int| 0 <= i < found.len() && is_on(
        disk,
        #[trigger] found[i],
    ) implies is_our_label(found[i].partition_label) by {
        assert(i == 0 || i == 1 || i == 2);
    }
}

/// What is done after `devices` were made on the disk and the first `n` of
/// them were formatted.
pub open spec fn after_formats(v: ProvisionView, devices: Vec<String>, n: nat) -> (
    ProvisionView,
    ProvisionActionView,
)
    decreases n,
{
    if n == 0 {
        next(v, ProvisionEvent::Created { devices })
    } else {
        next(after_formats(v, devices, (n - 1) as nat).0, ProvisionEvent::Formatted)
    }
}

/// The filesystem and the label of the `i`-th partition.
pub open spec fn role(i: int) -> (FsType, Seq<char>) {
    if i == 0 {
        (FsType::Vfat, "EFI"@)
    } else if i == 1 {
        (FsType::Ext4, "STATE"@)
    } else {
        (FsType::Ext4, "EPHEMERAL"@)
    }
}

proof fn lemma_after_formats(v: ProvisionView, devices: Vec<String>, n: nat)
    requires
        devices@.len() == 3,
        n <= 3,
    ensures
        after_formats(v, devices, n).0.devices == crate::text::texts(devices@),
        after_formats(v, devices, n).0.disk == v.disk,
        n < 3 ==> after_formats(v, devices, n).0.stage == (ProvisionStage::Formatting {
            k: n as usize,
        }),
        n < 3 ==> after_formats(v, devices, n).1 == (ProvisionActionView::Format {
            device: devices@[n as int]@,
            fs: role(n as int).0,
            label: role(n as int).1,
        }),
        n == 3 ==> after_formats(v, devices, n).0.stage is Over,
        n == 3 ==> after_formats(v, devices, n).1 == (ProvisionActionView::Publish {
            statuses: made_statuses(crate::text::texts(devices@)),
        }),
    decreases n,
{
    if n > 0 {
        lemma_after_formats(v, devices, (n - 1) as nat);
    }
}

/// The partitions that were made are formatted one after the other, each with
/// its own filesystem and label, and each exactly once: the `i`-th format is of
/// the `i`-th device. Once the last is done the volumes are published, and each
/// of them names the device that was formatted with its label.
pub proof fn every_partition_is_formatted_once(
    v: ProvisionView,
    devices: Vec<String>,
    i: nat,
    j: nat,
)
    requires
        devices@.len() == 3,
        i < j < 3,
    ensures
        after_formats(v, devices, i).1 == (ProvisionActionView::Format {
            device: devices@[i as int]@,
            fs: role(i as int).0,
            label: role(i as int).1,
        }),
        after_formats(v, devices, j).1 == (ProvisionActionView::Format {
            device: devices@[j as int]@,
            fs: role(j as int).0,
            label: role(j as int).1,
        }),
        devices@[i as int]@ != devices@[j as int]@ ==> after_formats(v, devices, i).1->device
            != after_formats(v, devices, j).1->device,
{
    lemma_after_formats(v, devices, i);
    lemma_after_formats(v, devices, j);
}

/// A volume that is published as provisioned stands on the device that was
/// formatted with its label; every device that was made is published, and no
/// other.
pub proof fn what_is_published_was_formatted(v: ProvisionView, devices: Vec<String>, i: nat)
    requires
        devices@.len() == 3,
        i < 3,
    ensures
        after_formats(v, devices, 3).0.stage is Over,
        after_formats(v, devices, 3).1 matches ProvisionActionView::Publish { statuses } && {
            &&& statuses.len() == 3
            &&& statuses[i as int].namespace == "block"@
            &&& statuses[i as int].id == role(i as int).1
            &&& statuses[i as int].spec matches ResourceView::VolumeStatus {
                name,
                device,
                fs,
                label,
                phase,
            }
            &&& name == role(i as int).1
            &&& label == role(i as int).1
            &&& device == devices@[i as int]@
            &&& fs == (if i == 0 {
                "vfat"@
            } else {
                "ext4"@
            })
            &&& phase is Provisioned
            &&& after_formats(v, devices, i).1 matches ProvisionActionView::Format {
                device: made,
                label: named,
                ..
            }
            &&& made == device
            &&& named == label
        },
{
    lemma_after_formats(v, devices, i);
    lemma_after_formats(v, devices, 3);
    let statuses = made_statuses(crate::text::texts(devices@));
    assert(count_of(crate::text::texts(devices@)) == 3);
    assert(crate::text::texts(devices@)[i as int] == devices@[i as int]@);
}

/// Where fewer devices came back than partitions were asked for, those that
/// came back are formatted, each as the partition of its place, and nothing is
/// published that was not formatted.
pub proof fn no_volume_is_published_without_its_device(devices: Seq<Seq<char>>, i: int)
    requires
        0 <= i < made_statuses(devices).len(),
    ensures
        i < devices.len(),
        i < 3,
        made_statuses(devices)[i].spec matches ResourceView::VolumeStatus { device, label, .. }
            && device == devices[i] && label == role(i).1,
{
}

/// Any step that formats, formats a device that partitioning returned, with
/// the filesystem and label of that device's place in the layout.
pub proof fn a_format_is_of_a_partition_that_was_made(
    v: ProvisionView,
    e: ProvisionEvent,
    action: ProvisionAction,
)
    requires
        is_run(v),
        can_follow(v.stage, e),
        action@ == next(v, e).1,
    ensures
        action matches ProvisionAction::Format { device, fs, label } ==> {
            let w = next(v, e).0;
            &&& w.stage matches ProvisionStage::Formatting { k }
            &&& k < w.devices.len()
            &&& device@ == w.devices[k as int]
            &&& (fs, label@) == role(k as int)
            &&& e is Formatted ==> w.devices == v.devices && k == v.stage->k + 1
            &&& e matches ProvisionEvent::Created { devices } ==> k == 0 && w.devices
                == crate::text::texts(devices@)
        },
{
}

/// What is partitioned is the disk that provisioning began with, and the
/// partitions that are asked for are 512 MiB to boot from, 1 GiB of state and
/// all the rest.
pub proof fn the_install_disk_is_laid_out(
    disk: Seq<char>,
    wipe: bool,
    found: Seq<VolumeView>,
    v: ProvisionView,
    e: ProvisionEvent,
)
    requires
        is_run(v),
        can_follow(v.stage, e),
    ensures
        next(v, e).0.disk == v.disk,
        begin(disk, wipe, found).0.disk == disk,
        begin(disk, wipe, found).1 matches ProvisionActionView::Wipe { disk: wiped } ==> wiped
            == disk,
        begin(disk, wipe, found).1 matches ProvisionActionView::CreatePartitions {
            disk: made,
            plan,
        } ==> made == disk && plan == layout(),
        e is Wiped ==> next(v, e).1 == (ProvisionActionView::CreatePartitions {
            disk: v.disk,
            plan: layout(),
        }),
        layout().len() == 3,
        layout()[0].size_bytes == 512 * 1024 * 1024,
        layout()[1].size_bytes == 1024 * 1024 * 1024,
        layout()[2].size_bytes == 0,
        layout()[0].part_type is EfiSystem,
        layout()[1].part_type is LinuxFilesystem,
        layout()[2].part_type is LinuxFilesystem,
        forall|i: int|
            0 <= i < 3 ==> ((#[trigger] layout()[i]).fs, layout()[i].label) == role(i),
{
}

/// Something is laid out only after the guard let it: a blank disk is
/// partitioned at once, and a disk that is wiped is partitioned afterwards.
pub proof fn a_blank_disk_is_provisioned(disk: Seq<char>, wipe: bool, found: Seq<VolumeView>)
    requires
        forall|i: int|
            0 <= i < found.len() ==> (#[trigger] found[i]).device != disk && found[i].disk
                != crate::paths::base_name(disk),
    ensures
        decision(disk, wipe, found) == ProvisionDecision::Provision,
        is_destructive(begin(disk, wipe, found).1),
        !wipe || found.len() == 0 ==> begin(disk, wipe, found).1 is CreatePartitions,
        wipe && found.len() > 0 ==> begin(disk, wipe, found).1 is Wipe,
{
    assert(is_blank(disk, found));
}

/// A single foreign volume on the disk stops provisioning, however many of ours
/// are beside it, unless wiping was asked for.
pub proof fn one_foreign_volume_is_enough(disk: Seq<char>, found: Seq<VolumeView>, i: int)
    requires
        0 <= i < found.len(),
        found[i].disk == crate::paths::base_name(disk) || found[i].device == disk,
        found[i].partition_label != "EFI"@,
        found[i].partition_label != "STATE"@,
        found[i].partition_label != "EPHEMERAL"@,
    ensures
        decision(disk, false, found) == ProvisionDecision::RefuseForeign,
        decision(disk, true, found) == ProvisionDecision::Provision,
        begin(disk, false, found).1 is Fail,
        begin(disk, true, found).1 is Wipe,
{
    assert(is_on(disk, found[i]));
    assert(!is_our_label(found[i].partition_label));
}

/// A disk on which one of our partitions is missing is not taken for a
/// provisioned one.
pub proof fn a_missing_partition_is_noticed(
    disk: Seq<char>,
    wipe: bool,
    found: Seq<VolumeView>,
    label: Seq<char>,
)
    requires
        label == "EFI"@ || label == "STATE"@ || label == "EPHEMERAL"@,
        forall|i: int|
            0 <= i < found.len() && ((#[trigger] found[i]).disk == crate::paths::base_name(disk)
                || found[i].device == disk) ==> found[i].partition_label != label,
    ensures
        decision(disk, wipe, found) != ProvisionDecision::Skip,
{
    assert(!carries(disk, found, label));
}

/// On a disk that is provisioned already, each of our volumes is published as
/// it was found, and nothing else is published.
pub proof fn our_volumes_are_published_as_found(disk: Seq<char>, found: Seq<VolumeView>)
    ensures
        forall|i: int|
            0 <= i < found.len() && (#[trigger] found[i]).disk == crate::paths::base_name(disk)
                && (found[i].partition_label == "EFI"@ || found[i].partition_label == "STATE"@
                || found[i].partition_label == "EPHEMERAL"@) ==> found_statuses(
                disk,
                found,
            ).contains(published(found[i])),
        forall|k: int|
            0 <= k < found_statuses(disk, found).len() ==> exists|i: int|
                0 <= i < found.len() && (#[trigger] found[i]).disk == crate::paths::base_name(disk)
                    && #[trigger] found_statuses(disk, found)[k] == published(found[i]),
    decreases found.len(),
{
    if found.len() > 0 {
        let less = found.drop_last();
        our_volumes_are_published_as_found(disk, less);
        let before = found_statuses(disk, less);
        let all = found_statuses(disk, found);
        assert forall|i: int| 0 <= i < found.len() && (#[trigger] found[i]).disk
            == crate::paths::base_name(disk) && (found[i].partition_label == "EFI"@
            || found[i].partition_label == "STATE"@ || found[i].partition_label
            == "EPHEMERAL"@) implies all.contains(published(found[i])) by {
            if i < less.len() {
                assert(less[i] == found[i]);
                let k = choose|k: int| 0 <= k < before.len() && before[k] == published(less[i]);
                assert(all[k] == before[k]);
            } else {
                assert(all[all.len() - 1] == published(found[i]));
            }
        }
        assert forall|k: int| 0 <= k < all.len() implies exists|i: int|
            0 <= i < found.len() && (#[trigger] found[i]).disk == crate::paths::base_name(disk)
                && #[trigger] all[k] == published(found[i]) by {
            if k < before.len() {
                assert(all[k] == before[k]);
                let i = choose|i: int|
                    0 <= i < less.len() && (#[trigger] less[i]).disk == crate::paths::base_name(
                        disk,
                    ) && before[k] == published(less[i]);
                assert(found[i] == less[i]);
            } else {
                assert(found[found.len() - 1] == found.last());
            }
        }
    }
}

/// What is published of a volume of ours that was found.
pub open spec fn published(v: VolumeView) -> ObjectView {
    ObjectView {
        namespace: "block"@,
        id: v.partition_label,
        spec: ResourceView::VolumeStatus {
            name: v.partition_label,
            device: v.device,
            fs: match v.fs_type {
                Some(t) => t,
                None => Seq::empty(),
            },
            label: v.partition_label,
            phase: VolumePhase::Provisioned,
        },
    }
}

/// Every volume among the listed resources is seen, and nothing else is.
pub proof fn every_listed_volume_is_seen(listed: Seq<ResourceObject>)
    ensures
        forall|i: int, v: DiscoveredVolume|
            0 <= i < listed.len() && (#[trigger] listed[i]).spec == Resource::DiscoveredVolume(v)
                ==> discovered_of(listed).contains(#[trigger] v@),
        discovered_of(listed).len() <= listed.len(),
    decreases listed.len(),
{
    if listed.len() > 0 {
        let less = listed.drop_last();
        every_listed_volume_is_seen(less);
        let before = discovered_of(less);
        let all = discovered_of(listed);
        assert forall|i: int, v: DiscoveredVolume|
            0 <= i < listed.len() && (#[trigger] listed[i]).spec == Resource::DiscoveredVolume(
                v,
            ) implies all.contains(#[trigger] v@) by {
            if i < less.len() {
                assert(less[i] == listed[i]);
                let k = choose|k: int| 0 <= k < before.len() && before[k] == v@;
                assert(all[k] == before[k]);
            } else {
                assert(all[all.len() - 1] == v@);
            }
        }
    }
}

/// Where anything fails, provisioning ends with the reason: nothing more is
/// written and no volume is published.
pub proof fn a_failure_ends_provisioning(v: ProvisionView, message: String)
    ensures
        next(v, ProvisionEvent::Failed { message }).1 == (ProvisionActionView::Fail {
            message: message@,
        }),
        next(v, ProvisionEvent::Failed { message }).0.stage is Over,
{
}

} // verus!
