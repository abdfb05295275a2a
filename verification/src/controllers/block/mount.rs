//! Mounts provisioned system volumes where they belong.

use crate::controllers::block::NS;
use crate::controllers::{exclusive, input, Input, InputKind, InputView, Output, OutputKind};
use crate::resources::{
    MountStatus, ObjectView, Resource, ResourceObject, ResourceType, ResourceView, VolumePhase,
};
use crate::text::same;
use vstd::prelude::*;
use vstd::string::*;

verus! {

/// Where a system volume is mounted, by its label.
pub open spec fn place_of(label: Seq<char>) -> Option<Seq<char>> {
    if label == "EFI"@ {
        Some("/boot"@)
    } else if label == "STATE"@ {
        Some("/system/state"@)
    } else if label == "EPHEMERAL"@ {
        Some("/var"@)
    } else {
        None
    }
}

/// Where a system volume is mounted, by its label; nothing else is mounted.
pub fn mountpoint(label: &str) -> (r: Option<&'static str>)
    ensures
        match r {
            Some(p) => place_of(label@) == Some(p@),
            None => place_of(label@) is None,
        },
{
    if same(label, "EFI") {
        Some("/boot")
    } else if same(label, "STATE") {
        Some("/system/state")
    } else if same(label, "EPHEMERAL") {
        Some("/var")
    } else {
        None
    }
}

/// A mount: what is mounted where.
#[derive(Debug, PartialEq, Eq)]
pub struct MountSpec {
    pub source: String,
    pub target: String,
    pub fstype: String,
    pub flags: u64,
    pub data: Option<String>,
}

/// A system volume and the place that it is mounted at.
pub struct Mountable {
    label: String,
    device: String,
    fs: String,
    target: String,
}

/// What is known of a system volume to be mounted.
#[verifier::ext_equal]
pub struct MountableView {
    pub label: Seq<char>,
    pub device: Seq<char>,
    pub fs: Seq<char>,
    pub target: Seq<char>,
}

impl View for Mountable {
    type V = MountableView;

    closed spec fn view(&self) -> MountableView {
        MountableView {
            label: self.label@,
            device: self.device@,
            fs: self.fs@,
            target: self.target@,
        }
    }
}

/// The provisioned system volumes among the resources, in their order.
pub open spec fn mountables(listed: Seq<ResourceObject>) -> Seq<MountableView>
    decreases listed.len(),
{
    if listed.len() == 0 {
        seq![]
    } else {
        let before = mountables(listed.drop_last());
        match listed.last().spec {
            Resource::VolumeStatus(v) => match place_of(v.label@) {
                Some(target) => if v.phase == VolumePhase::Provisioned {
                    before.push(
                        MountableView { label: v.label@, device: v.device@, fs: v.fs@, target },
                    )
                } else {
                    before
                },
                None => before,
            },
            _ => before,
        }
    }
}

/// A mounted volume as a resource.
pub open spec fn mounted_object(m: MountableView) -> ObjectView {
    ObjectView {
        namespace: NS@,
        id: m.label,
        spec: ResourceView::MountStatus {
            volume: m.label,
            source: m.device,
            target: m.target,
            fstype: m.fs,
            mounted: true,
        },
    }
}

/// Mounted volumes as resources.
pub open spec fn mounted_objects(v: Seq<MountableView>) -> Seq<ObjectView> {
    Seq::new(v.len(), |i: int| mounted_object(v[i]))
}

/// What the controller wants done next.
pub enum MountAction {
    /// See whether something is mounted there.
    Query { target: String },
    /// Mount.
    Mount { spec: MountSpec },
    /// Publish what is mounted.
    Publish { statuses: Vec<ResourceObject> },
    /// Give up.
    Fail { message: String },
}

/// What came of it.
pub enum MountEvent {
    Queried { mounted: bool },
    Mounted,
    Failed { message: String },
}

/// What an action says.
#[verifier::ext_equal]
pub enum MountActionView {
    Query { target: Seq<char> },
    Mount { source: Seq<char>, target: Seq<char>, fstype: Seq<char> },
    Publish { statuses: Seq<ObjectView> },
    Fail { message: Seq<char> },
}

impl MountAction {
    /// The action says `a`; a mount has no flags and no options.
    pub open spec fn says(self, a: MountActionView) -> bool {
        match self {
            MountAction::Query { target } => a == (MountActionView::Query { target: target@ }),
            MountAction::Mount { spec } => a == (MountActionView::Mount {
                source: spec.source@,
                target: spec.target@,
                fstype: spec.fstype@,
            }) && spec.flags == 0 && spec.data is None,
            MountAction::Publish { statuses } => a == (MountActionView::Publish {
                statuses: crate::resources::objects(statuses@),
            }),
            MountAction::Fail { message } => a == (MountActionView::Fail { message: message@ }),
        }
    }
}

/// How far mounting has come: the volume at `k` is looked at or mounted.
#[derive(Clone, Copy, Debug, PartialEq, Eq)]
pub enum MountStage {
    Querying { k: usize },
    Mounting { k: usize },
    Over,
}

/// Volumes being mounted.
pub struct MountRun {
    volumes: Vec<Mountable>,
    stage: MountStage,
}

/// What is known of volumes being mounted.
#[verifier::ext_equal]
pub struct MountRunView {
    pub volumes: Seq<MountableView>,
    pub stage: MountStage,
}

/// What is known of volumes.
pub closed spec fn mountable_views(v: Seq<Mountable>) -> Seq<MountableView> {
    Seq::new(v.len(), |i: int| v[i]@)
}

impl View for MountRun {
    type V = MountRunView;

    closed spec fn view(&self) -> MountRunView {
        MountRunView { volumes: mountable_views(self.volumes@), stage: self.stage }
    }
}

/// Looks at the `k`-th volume, or publishes them all.
pub open spec fn turn_to(volumes: Seq<MountableView>, k: int) -> (MountRunView, MountActionView) {
    if k >= volumes.len() {
        (
            MountRunView { volumes, stage: MountStage::Over },
            MountActionView::Publish { statuses: mounted_objects(volumes) },
        )
    } else {
        (
            MountRunView { volumes, stage: MountStage::Querying { k: k as usize } },
            MountActionView::Query { target: volumes[k].target },
        )
    }
}

/// The events that can follow at each stage.
pub open spec fn can_follow(stage: MountStage, e: MountEvent) -> bool {
    match e {
        MountEvent::Queried { .. } => stage is Querying,
        MountEvent::Mounted => stage is Mounting,
        MountEvent::Failed { .. } => stage !is Over,
    }
}

/// How mounting goes on after an event: only what is not mounted is mounted.
pub open spec fn next(v: MountRunView, e: MountEvent) -> (MountRunView, MountActionView) {
    match e {
        MountEvent::Queried { mounted } => {
            let k = v.stage->Querying_k as int;
            if mounted {
                turn_to(v.volumes, k + 1)
            } else {
                (
                    MountRunView { stage: MountStage::Mounting { k: k as usize }, ..v },
                    MountActionView::Mount {
                        source: v.volumes[k].device,
                        target: v.volumes[k].target,
                        fstype: v.volumes[k].fs,
                    },
                )
            }
        },
        MountEvent::Mounted => turn_to(v.volumes, v.stage->Mounting_k + 1),
        MountEvent::Failed { message } => (
            MountRunView { stage: MountStage::Over, ..v },
            MountActionView::Fail { message: message@ },
        ),
    }
}

/// What holds of volumes being mounted at every moment.
pub open spec fn is_run(v: MountRunView) -> bool {
    &&& v.volumes.len() <= usize::MAX
    &&& v.stage matches MountStage::Querying { k } ==> k < v.volumes.len()
    &&& v.stage matches MountStage::Mounting { k } ==> k < v.volumes.len()
}

impl MountRun {
    fn turn(&mut self, k: usize) -> (r: MountAction)
        requires
            old(self)@.volumes.len() <= usize::MAX,
        ensures
            is_run(final(self)@),
            final(self)@ == turn_to(old(self)@.volumes, k as int).0,
            r.says(turn_to(old(self)@.volumes, k as int).1),
    {
        if k >= self.volumes.len() {
            let mut statuses: Vec<ResourceObject> = Vec::new();
            let ghost views = self@.volumes;
            let mut i: usize = 0;
            while i < self.volumes.len()
                invariant
                    i <= self.volumes@.len(),
                    views == self@.volumes,
                    views.len() == self.volumes@.len(),
                    self@ == old(self)@,
                    statuses@.len() == i,
                    forall|j: int|
                        0 <= j < i ==> (#[trigger] statuses@[j])@ == mounted_object(views[j]),
                decreases self.volumes@.len() - i,
            {
                let m = &self.volumes[i];
                assert(views[i as int] == m@);
                statuses.push(
                    ResourceObject::new(
                        NS,
                        m.label.as_str(),
                        Resource::MountStatus(
                            MountStatus {
                                volume: m.label.clone(),
                                source: m.device.clone(),
                                target: m.target.clone(),
                                fstype: m.fs.clone(),
                                mounted: true,
                            },
                        ),
                    ),
                );
                i += 1;
            }
            assert(crate::resources::objects(statuses@) =~= mounted_objects(views));
            self.stage = MountStage::Over;
            MountAction::Publish { statuses }
        } else {
            assert(self@.volumes[k as int] == self.volumes@[k as int]@);
            self.stage = MountStage::Querying { k };
            MountAction::Query { target: self.volumes[k].target.clone() }
        }
    }

    /// Takes an event in and gives the next action.
    pub fn step(&mut self, event: MountEvent) -> (r: MountAction)
        requires
            is_run(old(self)@),
            can_follow(old(self)@.stage, event),
        ensures
            is_run(final(self)@),
            final(self)@ == next(old(self)@, event).0,
            r.says(next(old(self)@, event).1),
    {
        match event {
            MountEvent::Queried { mounted } => {
                let k: usize = match self.stage {
                    MountStage::Querying { k } => k,
                    _ => 0,
                };
                if mounted {
                    self.turn(k + 1)
                } else {
                    assert(self@.volumes[k as int] == self.volumes@[k as int]@);
                    self.stage = MountStage::Mounting { k };
                    MountAction::Mount {
                        spec: MountSpec {
                            source: self.volumes[k].device.clone(),
                            target: self.volumes[k].target.clone(),
                            fstype: self.volumes[k].fs.clone(),
                            flags: 0,
                            data: None,
                        },
                    }
                }
            },
            MountEvent::Mounted => {
                let k: usize = match self.stage {
                    MountStage::Mounting { k } => k,
                    _ => 0,
                };
                self.turn(k + 1)
            },
            MountEvent::Failed { message } => {
                self.stage = MountStage::Over;
                MountAction::Fail { message }
            },
        }
    }
}

/// Mounts system volumes.
pub struct VolumeMountController {}

impl VolumeMountController {
    pub fn new() -> (r: VolumeMountController) {
        VolumeMountController {  }
    }

    /// The controller's name, under which it owns what it publishes.
    pub fn name(&self) -> (r: &'static str)
        ensures
            r@ == "volume-mount"@,
    {
        "volume-mount"
    }

    /// System volumes are watched.
    pub fn inputs(&self) -> (r: Vec<Input>)
        ensures
            crate::controllers::inputs_of(r@) == seq![
                InputView {
                    namespace: NS@,
                    typ: ResourceType::VolumeStatus,
                    kind: InputKind::Weak,
                },
            ],
    {
        let r = vec![input(NS, ResourceType::VolumeStatus, InputKind::Weak)];
        assert(crate::controllers::inputs_of(r@) =~= seq![
            InputView { namespace: NS@, typ: ResourceType::VolumeStatus, kind: InputKind::Weak },
        ]);
        r
    }

    pub fn outputs(&self) -> (r: Vec<Output>)
        ensures
            r@ == seq![Output { typ: ResourceType::MountStatus, kind: OutputKind::Exclusive }],
    {
        let r = vec![exclusive(ResourceType::MountStatus)];
        assert(r@ =~= seq![
            Output { typ: ResourceType::MountStatus, kind: OutputKind::Exclusive },
        ]);
        r
    }

    /// Begins mounting, given the system volumes.
    pub fn reconcile(&self, listed: &Vec<ResourceObject>) -> (r: (MountRun, MountAction))
        ensures
            is_run(r.0@),
            r.0@ == turn_to(mountables(listed@), 0).0,
            r.1.says(turn_to(mountables(listed@), 0).1),
    {
        let mut volumes: Vec<Mountable> = Vec::new();
        let mut i: usize = 0;
        assert(mountable_views(volumes@) =~= mountables(listed@.take(0)));
        while i < listed.len()
            invariant
                i <= listed@.len(),
                mountable_views(volumes@) == mountables(listed@.take(i as int)),
            decreases listed@.len() - i,
        {
            proof {
                assert(listed@.take(i + 1).drop_last() =~= listed@.take(i as int));
                assert(listed@.take(i + 1).last() == listed@[i as int]);
            }
            if let Resource::VolumeStatus(v) = &listed[i].spec {
                if let Some(target) = mountpoint(v.label.as_str()) {
                    if v.phase == VolumePhase::Provisioned {
                        let m = Mountable {
                            label: v.label.clone(),
                            device: v.device.clone(),
                            fs: v.fs.clone(),
                            target: target.to_owned(),
                        };
                        assert(mountable_views(volumes@.push(m)) =~= mountable_views(
                            volumes@,
                        ).push(m@));
                        volumes.push(m);
                    }
                }
            }
            i += 1;
        }
        assert(listed@.take(i as int) =~= listed@);
        let mut run = MountRun { volumes, stage: MountStage::Over };
        assert(run.volumes.len() == run@.volumes.len());
        let action = run.turn(0);
        (run, action)
    }
}

/// What is mounted already is not mounted again.
pub proof fn what_is_mounted_is_left_alone(v: MountRunView)
    requires
        v.stage is Querying,
    ensures
        next(v, MountEvent::Queried { mounted: true }).1 !is Mount,
{
}

/// The boot partition, the state and the rest have their places; nothing else
/// has one.
pub proof fn every_system_volume_has_its_place(label: Seq<char>)
    ensures
        place_of("EFI"@) == Some("/boot"@),
        place_of("STATE"@) == Some("/system/state"@),
        place_of("EPHEMERAL"@) == Some("/var"@),
        label != "EFI"@ && label != "STATE"@ && label != "EPHEMERAL"@ ==> place_of(label) is None,
{
    reveal_strlit("EFI");
    reveal_strlit("STATE");
    reveal_strlit("EPHEMERAL");
    assert("EFI"@.len() != "STATE"@.len());
    assert("EFI"@.len() != "EPHEMERAL"@.len());
    assert("STATE"@.len() != "EPHEMERAL"@.len());
}

/// The volumes to mount of two lists are those of the first and then those of
/// the second. A system volume that is provisioned is to be mounted, from its
/// device, as what it is formatted with and at the place of its label; nothing
/// else is.
pub proof fn every_provisioned_volume_is_mounted(
    a: Seq<ResourceObject>,
    b: Seq<ResourceObject>,
    o: ResourceObject,
)
    ensures
        mountables(a + b) == mountables(a) + mountables(b),
        o.spec matches Resource::VolumeStatus(v) ==> (if v.phase is Provisioned && (v.label@
            == "EFI"@ || v.label@ == "STATE"@ || v.label@ == "EPHEMERAL"@) {
            let m = mountables(seq![o]);
            &&& m.len() == 1
            &&& m[0].label == v.label@
            &&& m[0].device == v.device@
            &&& m[0].fs == v.fs@
            &&& Some(m[0].target) == place_of(v.label@)
        } else {
            mountables(seq![o]).len() == 0
        }),
        o.spec !is VolumeStatus ==> mountables(seq![o]).len() == 0,
    decreases b.len(),
{
    assert(seq![o].drop_last() =~= Seq::empty());
    assert(mountables(seq![o].drop_last()) =~= Seq::empty());
    assert(seq![o].last() == o);
    if b.len() == 0 {
        assert(a + b =~= a);
        assert(mountables(a) + mountables(b) =~= mountables(a));
    } else {
        every_provisioned_volume_is_mounted(a, b.drop_last(), o);
        assert((a + b).drop_last() =~= a + b.drop_last());
        assert((a + b).last() == b.last());
        assert(mountables(a + b) =~= mountables(a) + mountables(b));
    }
}

/// What is done when the first `n` volumes have been dealt with; `there` says
/// what was mounted already.
pub open spec fn after_mounts(volumes: Seq<MountableView>, there: Seq<bool>, n: nat) -> (
    MountRunView,
    MountActionView,
)
    decreases n,
{
    if n == 0 {
        turn_to(volumes, 0)
    } else {
        let before = after_mounts(volumes, there, (n - 1) as nat).0;
        let asked = next(before, MountEvent::Queried { mounted: there[n - 1] });
        if there[n - 1] {
            asked
        } else {
            next(asked.0, MountEvent::Mounted)
        }
    }
}

/// The volumes are dealt with one after the other: each place is looked at, and
/// where nothing is mounted there yet, the volume's device is mounted at its
/// place, as what it is formatted with. When all are done, all are published as
/// mounted.
pub proof fn every_volume_is_mounted_at_its_place(
    volumes: Seq<MountableView>,
    there: Seq<bool>,
    n: nat,
)
    requires
        volumes.len() <= usize::MAX,
        there.len() == volumes.len(),
        n <= volumes.len(),
    ensures
        after_mounts(volumes, there, n).0.volumes == volumes,
        n < volumes.len() ==> {
            let r = after_mounts(volumes, there, n);
            let asked = next(r.0, MountEvent::Queried { mounted: false });
            &&& r.1 == (MountActionView::Query { target: volumes[n as int].target })
            &&& r.0.stage == (MountStage::Querying { k: n as usize })
            &&& asked.1 == (MountActionView::Mount {
                source: volumes[n as int].device,
                target: volumes[n as int].target,
                fstype: volumes[n as int].fs,
            })
            &&& asked.0.stage == (MountStage::Mounting { k: n as usize })
        },
        n == volumes.len() ==> (after_mounts(volumes, there, n).1 matches MountActionView::Publish {
            statuses,
        } && statuses.len() == volumes.len() && forall|i: int|
            0 <= i < volumes.len() ==> #[trigger] statuses[i] == (ObjectView {
                namespace: "block"@,
                id: volumes[i].label,
                spec: ResourceView::MountStatus {
                    volume: volumes[i].label,
                    source: volumes[i].device,
                    target: volumes[i].target,
                    fstype: volumes[i].fs,
                    mounted: true,
                },
            })),
    decreases n,
{
    if n > 0 {
        every_volume_is_mounted_at_its_place(volumes, there, (n - 1) as nat);
    }
}

/// A mount that is asked for has no flags and no options, whatever it is of.
pub proof fn a_mount_has_no_flags(action: MountAction, a: MountActionView)
    requires
        action.says(a),
    ensures
        action matches MountAction::Mount { spec } ==> {
            &&& spec.flags == 0
            &&& spec.data is None
            &&& a == (MountActionView::Mount {
                source: spec.source@,
                target: spec.target@,
                fstype: spec.fstype@,
            })
        },
{
}

/// Where a mount fails nothing is published, and nothing more is mounted.
pub proof fn a_failed_mount_ends_the_run(v: MountRunView, message: String)
    ensures
        next(v, MountEvent::Failed { message }).1 == (MountActionView::Fail { message: message@ }),
        next(v, MountEvent::Failed { message }).0.stage is Over,
{
}

} // verus!
