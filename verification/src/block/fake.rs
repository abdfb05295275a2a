//! An in-memory backend that plays provisioning through, so that what was
//! provisioned can be listed, and that records every destructive call.

use crate::block::{
    duplicate_error, numbered_device, BlockBackend, BlockError, BlockProvisioner, DiskInfo, DiskView,
    FsType, PartView, PartitionPlan, PlanView, VolumeInfo,
};
use crate::paths::leaf_of;
use crate::text::{copy_strings, push_big_dec, same};
use vstd::prelude::*;
use vstd::string::*;

verus! {

/// The in-memory backend.
pub struct FakeBlockBackend {
    disks: Vec<DiskInfo>,
    volumes: Vec<VolumeInfo>,
    wipes: Vec<String>,
    creates: Vec<String>,
    adds: Vec<(String, Vec<String>)>,
    formats: Vec<(String, FsType, String)>,
}

/// What the in-memory backend holds and has recorded.
#[verifier::ext_equal]
pub struct FakeView {
    pub disks: Seq<DiskView>,
    pub volumes: Seq<PartView>,
    pub wipes: Seq<Seq<char>>,
    pub creates: Seq<Seq<char>>,
    pub adds: Seq<(Seq<char>, Seq<Seq<char>>)>,
    pub formats: Seq<(Seq<char>, FsType, Seq<char>)>,
}

/// The appends as texts.
pub open spec fn add_views(v: Seq<(String, Vec<String>)>) -> Seq<(Seq<char>, Seq<Seq<char>>)> {
    Seq::new(v.len(), |i: int| (v[i].0@, crate::text::texts(v[i].1@)))
}

/// The format calls as texts.
pub open spec fn format_views(v: Seq<(String, FsType, String)>) -> Seq<
    (Seq<char>, FsType, Seq<char>),
> {
    Seq::new(v.len(), |i: int| (v[i].0@, v[i].1, v[i].2@))
}

impl View for FakeBlockBackend {
    type V = FakeView;

    closed spec fn view(&self) -> FakeView {
        FakeView {
            disks: crate::block::disk_views(self.disks@),
            volumes: crate::block::part_views(self.volumes@),
            wipes: crate::text::texts(self.wipes@),
            creates: crate::text::texts(self.creates@),
            adds: add_views(self.adds@),
            formats: format_views(self.formats@),
        }
    }
}

/// The bare device name of a path or name.
pub fn disk_leaf(disk: &str) -> (r: String)
    ensures
        r@ == crate::paths::base_name(disk@),
{
    leaf_of(disk)
}

/// The device of a disk's partition.
pub fn part_device(disk: &str, num: usize) -> (r: String)
    ensures
        r@ == crate::block::part_name(disk@, num as nat),
{
    numbered_device(disk, num as u128)
}

/// The volume that a planned partition becomes.
pub open spec fn made(disk: Seq<char>, num: nat, p: PlanView) -> PartView {
    PartView {
        device: crate::block::part_name(disk, num),
        disk: crate::paths::base_name(disk),
        partition_uuid: "uuid-"@ + crate::text::dec(num),
        partition_label: p.label,
        partition_type_guid: crate::block::guid_of(p.part_type),
        fs_type: None,
        fs_label: None,
        fs_uuid: None,
        size_bytes: p.size_bytes,
    }
}

/// The volumes that a plan becomes, numbered behind `existing` others.
pub open spec fn made_all(
    disk: Seq<char>,
    existing: nat,
    plan: Seq<PlanView>,
) -> Seq<PartView> {
    Seq::new(plan.len(), |i: int| made(disk, (existing + i + 1) as nat, plan[i]))
}

/// The devices of the partitions that a plan becomes.
pub open spec fn made_devices(disk: Seq<char>, existing: nat, count: nat) -> Seq<Seq<char>> {
    Seq::new(count, |i: int| crate::block::part_name(disk, (existing + i + 1) as nat))
}

/// The volumes on the disk with this bare name.
pub open spec fn on_disk(
    volumes: Seq<PartView>,
    leaf: Seq<char>,
) -> Seq<PartView> {
    volumes.filter(|v: PartView| v.disk == leaf)
}

/// The volumes on other disks.
pub open spec fn off_disk(
    volumes: Seq<PartView>,
    leaf: Seq<char>,
) -> Seq<PartView> {
    volumes.filter(|v: PartView| v.disk != leaf)
}

/// The volumes after a disk has been laid out afresh: what was on it is gone.
pub open spec fn laid_out(
    volumes: Seq<PartView>,
    disk: Seq<char>,
    plan: Seq<PlanView>,
) -> Seq<PartView> {
    off_disk(volumes, crate::paths::base_name(disk)) + made_all(disk, 0, plan)
}

/// Whether a volume on the disk carries this label.
pub open spec fn has_label(
    volumes: Seq<PartView>,
    leaf: Seq<char>,
    label: Seq<char>,
) -> bool {
    exists|i: int|
        0 <= i < volumes.len() && (#[trigger] volumes[i]).disk == leaf && volumes[i].partition_label
            == label
}

/// The volumes after `device` has been formatted: the first volume with that
/// device carries the filesystem and its label.
pub open spec fn formatted(
    volumes: Seq<PartView>,
    device: Seq<char>,
    fs: FsType,
    label: Seq<char>,
) -> Seq<PartView>
    decreases volumes.len(),
{
    if volumes.len() == 0 {
        volumes
    } else if volumes[0].device == device {
        volumes.update(
            0,
            PartView { fs_type: Some(fs), fs_label: Some(label), ..volumes[0] },
        )
    } else {
        seq![volumes[0]] + formatted(volumes.skip(1), device, fs, label)
    }
}

fn copy_disks(v: &Vec<DiskInfo>) -> (r: Vec<DiskInfo>)
    ensures
        r@ == v@,
{
    let mut out: Vec<DiskInfo> = Vec::new();
    let mut i: usize = 0;
    while i < v.len()
        invariant
            i <= v@.len(),
            out@ == v@.take(i as int),
        decreases v@.len() - i,
    {
        out.push(v[i].clone());
        i += 1;
        assert(v@.take(i as int) =~= v@.take(i - 1).push(v@[i - 1]));
    }
    assert(v@.take(i as int) =~= v@);
    out
}

fn copy_volumes(v: &Vec<VolumeInfo>) -> (r: Vec<VolumeInfo>)
    ensures
        r@ == v@,
{
    let mut out: Vec<VolumeInfo> = Vec::new();
    let mut i: usize = 0;
    while i < v.len()
        invariant
            i <= v@.len(),
            out@ == v@.take(i as int),
        decreases v@.len() - i,
    {
        out.push(v[i].clone());
        i += 1;
        assert(v@.take(i as int) =~= v@.take(i - 1).push(v@[i - 1]));
    }
    assert(v@.take(i as int) =~= v@);
    out
}

impl FakeBlockBackend {
    /// A backend without disks.
    pub fn new() -> (r: FakeBlockBackend)
        ensures
            r@ == (FakeView {
                disks: seq![],
                volumes: seq![],
                wipes: seq![],
                creates: seq![],
                adds: seq![],
                formats: seq![],
            }),
    {
        let r = FakeBlockBackend {
            disks: Vec::new(),
            volumes: Vec::new(),
            wipes: Vec::new(),
            creates: Vec::new(),
            adds: Vec::new(),
            formats: Vec::new(),
        };
        assert(r@ =~= (FakeView {
            disks: seq![],
            volumes: seq![],
            wipes: seq![],
            creates: seq![],
            adds: seq![],
            formats: seq![],
        }));
        r
    }

    /// The backend with one more disk.
    pub fn with_disk(self, disk: DiskInfo) -> (r: FakeBlockBackend)
        ensures
            r@ == (FakeView { disks: self@.disks.push(disk@), ..self@ }),
    {
        let mut r = self;
        r.disks.push(disk);
        assert(r@ =~= (FakeView { disks: self@.disks.push(disk@), ..self@ }));
        r
    }

    /// The backend with one more volume.
    pub fn with_volume(self, volume: VolumeInfo) -> (r: FakeBlockBackend)
        ensures
            r@ == (FakeView { volumes: self@.volumes.push(volume@), ..self@ }),
    {
        let mut r = self;
        r.volumes.push(volume);
        assert(r@ =~= (FakeView { volumes: self@.volumes.push(volume@), ..self@ }));
        r
    }

    /// The disks that were wiped.
    pub fn wipes(&self) -> (r: Vec<String>)
        ensures
            crate::text::texts(r@) == self@.wipes,
    {
        copy_strings(&self.wipes)
    }

    /// The disks on which partitions were created.
    pub fn creates(&self) -> (r: Vec<String>)
        ensures
            crate::text::texts(r@) == self@.creates,
    {
        copy_strings(&self.creates)
    }

    /// The disk and the appended labels of each append.
    pub fn adds(&self) -> (r: Vec<(String, Vec<String>)>)
        ensures
            add_views(r@) == self@.adds,
    {
        let mut out: Vec<(String, Vec<String>)> = Vec::new();
        let mut i: usize = 0;
        while i < self.adds.len()
            invariant
                i <= self.adds@.len(),
                add_views(out@) == add_views(self.adds@).take(i as int),
            decreases self.adds@.len() - i,
        {
            let copy = (self.adds[i].0.clone(), copy_strings(&self.adds[i].1));
            proof {
                let all = add_views(self.adds@);
                assert(add_views(out@.push(copy)) =~= add_views(out@).push(all[i as int]));
                assert(all.take(i + 1) =~= all.take(i as int).push(all[i as int]));
            }
            out.push(copy);
            i += 1;
        }
        assert(add_views(self.adds@).take(i as int) =~= add_views(self.adds@));
        out
    }

    /// The device, filesystem and label of each format call.
    pub fn formats(&self) -> (r: Vec<(String, FsType, String)>)
        ensures
            format_views(r@) == self@.formats,
    {
        let mut out: Vec<(String, FsType, String)> = Vec::new();
        let mut i: usize = 0;
        while i < self.formats.len()
            invariant
                i <= self.formats@.len(),
                format_views(out@) == format_views(self.formats@).take(i as int),
            decreases self.formats@.len() - i,
        {
            let copy = (self.formats[i].0.clone(), self.formats[i].1, self.formats[i].2.clone());
            proof {
                let all = format_views(self.formats@);
                assert(format_views(out@.push(copy)) =~= format_views(out@).push(all[i as int]));
                assert(all.take(i + 1) =~= all.take(i as int).push(all[i as int]));
            }
            out.push(copy);
            i += 1;
        }
        assert(format_views(self.formats@).take(i as int) =~= format_views(self.formats@));
        out
    }

    /// Drops the volumes of a disk.
    fn drop_disk(&mut self, disk: &str)
        ensures
            final(self)@ == (FakeView {
                volumes: off_disk(old(self)@.volumes, crate::paths::base_name(disk@)),
                ..old(self)@
            }),
    {
        let ghost start = self@;
        let leaf = disk_leaf(disk);
        let ghost all = self@.volumes;
        let mut kept: Vec<VolumeInfo> = Vec::new();
        let mut i: usize = 0;
        proof {
            reveal(Seq::filter);
            assert(crate::block::part_views(kept@) =~= off_disk(all.take(0), leaf@));
        }
        while i < self.volumes.len()
            invariant
                i <= self.volumes@.len(),
                self@ == start,
                all == self@.volumes,
                all.len() == self.volumes@.len(),
                crate::block::part_views(kept@) == off_disk(all.take(i as int), leaf@),
            decreases self.volumes@.len() - i,
        {
            proof {
                reveal(Seq::filter);
                assert(all.take(i + 1).drop_last() =~= all.take(i as int));
                assert(all[i as int] == self.volumes@[i as int]@);
            }
            if self.volumes[i].disk != leaf {
                let v = self.volumes[i].clone();
                assert(crate::block::part_views(kept@.push(v)) =~= crate::block::part_views(
                    kept@,
                ).push(v@));
                kept.push(v);
            }
            i += 1;
        }
        assert(all.take(i as int) =~= all);
        self.volumes = kept;
        assert(self@ =~= (FakeView {
            volumes: off_disk(start.volumes, crate::paths::base_name(disk@)),
            ..start
        }));
    }

    /// Makes the planned partitions, numbered behind `existing` others.
    fn make(&mut self, disk: &str, existing: u64, plan: &[PartitionPlan]) -> (devices: Vec<String>)
        ensures
            final(self)@ == (FakeView {
                volumes: old(self)@.volumes + made_all(
                    disk@,
                    existing as nat,
                    crate::block::plans(plan@),
                ),
                ..old(self)@
            }),
            crate::text::texts(devices@) == made_devices(disk@, existing as nat, plan@.len()),
    {
        let ghost start = self@;
        let ghost all = made_all(disk@, existing as nat, crate::block::plans(plan@));
        let ghost names = made_devices(disk@, existing as nat, plan@.len());
        let leaf = disk_leaf(disk);
        let mut devices: Vec<String> = Vec::new();
        let mut i: usize = 0;
        assert(self@ =~= (FakeView { volumes: start.volumes + all.take(0), ..start }));
        while i < plan.len()
            invariant
                i <= plan@.len(),
                leaf@ == crate::paths::base_name(disk@),
                all == made_all(disk@, existing as nat, crate::block::plans(plan@)),
                names == made_devices(disk@, existing as nat, plan@.len()),
                self@ == (FakeView { volumes: start.volumes + all.take(i as int), ..start }),
                crate::text::texts(devices@) == names.take(i as int),
            decreases plan@.len() - i,
        {
            let num: u128 = existing as u128 + i as u128 + 1;
            let device = numbered_device(disk, num);
            let mut uuid = "uuid-".to_owned();
            push_big_dec(&mut uuid, num);
            let ghost before = self@;
            let v = VolumeInfo {
                device: device.clone(),
                disk: leaf.clone(),
                partition_uuid: uuid,
                partition_label: plan[i].label.clone(),
                partition_type_guid: plan[i].part_type.type_guid().to_owned(),
                fs_type: None,
                fs_label: None,
                fs_uuid: None,
                size_bytes: plan[i].size_bytes,
            };
            proof {
                assert(v@ =~= all[i as int]);
                assert(all.take(i + 1) =~= all.take(i as int).push(all[i as int]));
                assert(names.take(i + 1) =~= names.take(i as int).push(device@));
                assert(crate::text::texts(devices@.push(device)) =~= crate::text::texts(
                    devices@,
                ).push(device@));
            }
            self.volumes.push(v);
            proof {
                assert(self@.volumes =~= before.volumes.push(v@));
                assert(self@ =~= (FakeView {
                    volumes: start.volumes + all.take(i + 1),
                    ..start
                }));
            }
            devices.push(device);
            i += 1;
        }
        assert(all.take(i as int) =~= all);
        assert(names.take(i as int) =~= names);
        devices
    }

    /// Whether a volume on the disk carries this label.
    fn labelled(&self, leaf: &String, label: &String) -> (r: bool)
        ensures
            r == has_label(self@.volumes, leaf@, label@),
    {
        let mut i: usize = 0;
        while i < self.volumes.len()
            invariant
                i <= self.volumes@.len(),
                forall|k: int|
                    0 <= k < i ==> !((#[trigger] self@.volumes[k]).disk == leaf@
                        && self@.volumes[k].partition_label == label@),
            decreases self.volumes@.len() - i,
        {
            assert(self@.volumes[i as int] == self.volumes@[i as int]@);
            if self.volumes[i].disk == *leaf && self.volumes[i].partition_label == *label {
                return true;
            }
            i += 1;
        }
        false
    }

    /// The number of volumes on the disk.
    fn count(&self, leaf: &String) -> (n: usize)
        ensures
            n == on_disk(self@.volumes, leaf@).len(),
    {
        let mut n: usize = 0;
        let mut i: usize = 0;
        let ghost all = self@.volumes;
        assert(on_disk(all.take(0), leaf@).len() == 0) by {
            reveal(Seq::filter);
        }
        while i < self.volumes.len()
            invariant
                i <= self.volumes@.len(),
                all == self@.volumes,
                all.len() == self.volumes@.len(),
                n == on_disk(all.take(i as int), leaf@).len(),
                n <= i,
            decreases self.volumes@.len() - i,
        {
            proof {
                reveal(Seq::filter);
                assert(all.take(i + 1).drop_last() =~= all.take(i as int));
                assert(all[i as int] == self.volumes@[i as int]@);
            }
            if self.volumes[i].disk == *leaf {
                n += 1;
            }
            i += 1;
        }
        assert(all.take(i as int) =~= all);
        n
    }
}

impl Default for FakeBlockBackend {
    fn default() -> (r: FakeBlockBackend)
        ensures
            r@ == (FakeView {
                disks: seq![],
                volumes: seq![],
                wipes: seq![],
                creates: seq![],
                adds: seq![],
                formats: seq![],
            }),
    {
        FakeBlockBackend::new()
    }
}

impl BlockBackend for FakeBlockBackend {
    fn list_disks(&self) -> (r: Result<Vec<DiskInfo>, BlockError>)
        ensures
            r matches Ok(v) && crate::block::disk_views(v@) == self@.disks,
    {
        Ok(copy_disks(&self.disks))
    }

    fn list_volumes(&self) -> (r: Result<Vec<VolumeInfo>, BlockError>)
        ensures
            r matches Ok(v) && crate::block::part_views(v@) == self@.volumes,
    {
        Ok(copy_volumes(&self.volumes))
    }
}

impl BlockProvisioner for FakeBlockBackend {
    fn wipe(&mut self, disk: &str) -> (r: Result<(), BlockError>)
        ensures
            r is Ok,
            final(self)@ == (FakeView {
                wipes: old(self)@.wipes.push(disk@),
                volumes: off_disk(old(self)@.volumes, crate::paths::base_name(disk@)),
                ..old(self)@
            }),
    {
        let ghost start = self@;
        self.drop_disk(disk);
        self.wipes.push(disk.to_owned());
        assert(self@ =~= (FakeView {
            wipes: start.wipes.push(disk@),
            volumes: off_disk(start.volumes, crate::paths::base_name(disk@)),
            ..start
        }));
        Ok(())
    }

    fn create_partitions(&mut self, disk: &str, plan: &[PartitionPlan]) -> (r: Result<
        Vec<String>,
        BlockError,
    >)
        ensures
            r matches Ok(devices) && crate::text::texts(devices@) == made_devices(
                disk@,
                0,
                plan@.len(),
            ),
            final(self)@ == (FakeView {
                creates: old(self)@.creates.push(disk@),
                volumes: laid_out(old(self)@.volumes, disk@, crate::block::plans(plan@)),
                ..old(self)@
            }),
    {
        self.drop_disk(disk);
        let ghost start = self@;
        self.creates.push(disk.to_owned());
        assert(self@ =~= (FakeView { creates: start.creates.push(disk@), ..start }));
        Ok(self.make(disk, 0, plan))
    }

    fn add_partitions(&mut self, disk: &str, plan: &[PartitionPlan]) -> (r: Result<
        Vec<String>,
        BlockError,
    >)
        ensures
            ({
                let leaf = crate::paths::base_name(disk@);
                let volumes = old(self)@.volumes;
                let views = crate::block::plans(plan@);
                let existing = on_disk(volumes, leaf).len();
                match r {
                    Ok(devices) => {
                        &&& forall|i: int|
                            0 <= i < views.len() ==> !has_label(
                                volumes,
                                leaf,
                                (#[trigger] views[i]).label,
                            )
                        &&& crate::text::texts(devices@) == made_devices(
                            disk@,
                            existing,
                            views.len(),
                        )
                        &&& final(self)@ == (FakeView {
                            adds: old(self)@.adds.push((disk@, crate::block::plan_labels(views))),
                            volumes: volumes + made_all(disk@, existing, views),
                            ..old(self)@
                        })
                    },
                    Err(e) => {
                        &&& final(self)@ == old(self)@
                        &&& exists|i: int|
                            0 <= i < views.len() && has_label(
                                volumes,
                                leaf,
                                (#[trigger] views[i]).label,
                            ) && (forall|k: int|
                                0 <= k < i ==> !has_label(
                                    volumes,
                                    leaf,
                                    (#[trigger] views[k]).label,
                                )) && (e matches BlockError::Gpt { device, message } && device@
                                == disk@ && message@ == crate::block::duplicate_message(
                                views[i].label,
                                disk@,
                            ))
                    },
                }
            }),
    {
        let ghost start = self@;
        let ghost views = crate::block::plans(plan@);
        let leaf = disk_leaf(disk);
        let mut labels: Vec<String> = Vec::new();
        let mut i: usize = 0;
        while i < plan.len()
            invariant
                i <= plan@.len(),
                self@ == start,
                views == crate::block::plans(plan@),
                leaf@ == crate::paths::base_name(disk@),
                forall|k: int|
                    0 <= k < i ==> !has_label(start.volumes, leaf@, (#[trigger] views[k]).label),
                crate::text::texts(labels@) == crate::block::plan_labels(views).take(i as int),
            decreases plan@.len() - i,
        {
            assert(views[i as int].label == plan@[i as int].label@);
            if self.labelled(&leaf, &plan[i].label) {
                return Err(duplicate_error(disk, plan[i].label.as_str(), disk));
            }
            let label = plan[i].label.clone();
            proof {
                let all = crate::block::plan_labels(views);
                assert(all.take(i + 1) =~= all.take(i as int).push(label@));
                assert(crate::text::texts(labels@.push(label)) =~= crate::text::texts(
                    labels@,
                ).push(label@));
            }
            labels.push(label);
            i += 1;
        }
        assert(crate::block::plan_labels(views).take(i as int) =~= crate::block::plan_labels(
            views,
        ));
        let add = (disk.to_owned(), labels);
        self.adds.push(add);
        assert(self@ =~= (FakeView {
            adds: start.adds.push((disk@, crate::block::plan_labels(views))),
            ..start
        }));
        let existing = self.count(&leaf);
        Ok(self.make(disk, existing as u64, plan))
    }

    fn format(&mut self, device: &str, fs: FsType, label: &str) -> (r: Result<(), BlockError>)
        ensures
            r is Ok,
            final(self)@ == (FakeView {
                formats: old(self)@.formats.push((device@, fs, label@)),
                volumes: formatted(old(self)@.volumes, device@, fs, label@),
                ..old(self)@
            }),
    {
        let ghost start = self@;
        self.formats.push((device.to_owned(), fs, label.to_owned()));
        assert(self@ =~= (FakeView {
            formats: start.formats.push((device@, fs, label@)),
            ..start
        }));
        let ghost all = self@.volumes;
        let mut i: usize = 0;
        assert(all.skip(0) =~= all);
        assert(all.take(0) + formatted(all.skip(0), device@, fs, label@) =~= formatted(
            all,
            device@,
            fs,
            label@,
        ));
        while i < self.volumes.len()
            invariant
                i <= self.volumes@.len(),
                self@ == (FakeView { formats: start.formats.push((device@, fs, label@)), ..start }),
                all == self@.volumes,
                all.len() == self.volumes@.len(),
                all == start.volumes,
                start == old(self)@,
                all.take(i as int) + formatted(all.skip(i as int), device@, fs, label@)
                    == formatted(all, device@, fs, label@),
            decreases self.volumes@.len() - i,
        {
            let ghost rest = all.skip(i as int);
            assert(rest[0] == self.volumes@[i as int]@);
            if same(self.volumes[i].device.as_str(), device) {
                let mut v = self.volumes[i].clone();
                v.fs_type = Some(fs);
                v.fs_label = Some(label.to_owned());
                let ghost shown = v@;
                self.volumes.set(i, v);
                proof {
                    assert(shown =~= (PartView {
                        fs_type: Some(fs),
                        fs_label: Some(label@),
                        ..all[i as int]
                    }));
                    assert(self@.volumes =~= all.update(i as int, shown));
                    assert(all.update(i as int, shown) =~= all.take(i as int) + rest.update(
                        0,
                        shown,
                    ));
                    assert(self@ =~= (FakeView {
                        formats: start.formats.push((device@, fs, label@)),
                        volumes: formatted(start.volumes, device@, fs, label@),
                        ..start
                    }));
                }
                return Ok(());
            }
            proof {
                assert(rest.skip(1) =~= all.skip(i + 1));
                assert(all.take(i + 1) + formatted(all.skip(i + 1), device@, fs, label@)
                    =~= all.take(i as int) + formatted(rest, device@, fs, label@));
            }
            i += 1;
        }
        assert(formatted(all, device@, fs, label@) =~= all);
        Ok(())
    }
}

/// After a wipe nothing of the disk is left, and everything else is.
pub proof fn wiping_drops_the_disk_alone(volumes: Seq<PartView>, leaf: Seq<char>, v: PartView)
    ensures
        off_disk(volumes, leaf).contains(v) <==> volumes.contains(v) && v.disk != leaf,
    decreases volumes.len(),
{
    reveal(Seq::filter);
    if volumes.len() > 0 {
        let init = volumes.drop_last();
        wiping_drops_the_disk_alone(init, leaf, v);
        let kept = off_disk(init, leaf);
        let all = off_disk(volumes, leaf);
        if volumes.last().disk != leaf {
            assert(all == kept.push(volumes.last()));
            if kept.contains(v) {
                let i = choose|i: int| 0 <= i < kept.len() && kept[i] == v;
                assert(all[i] == v);
            }
            assert(all[kept.len() as int] == volumes.last());
            if all.contains(v) {
                let i = choose|i: int| 0 <= i < all.len() && all[i] == v;
                assert(i < kept.len() ==> kept[i] == v);
            }
        }
        if init.contains(v) {
            let i = choose|i: int| 0 <= i < init.len() && init[i] == v;
            assert(volumes[i] == v);
        }
        assert(volumes[volumes.len() - 1] == volumes.last());
        if volumes.contains(v) {
            let i = choose|i: int| 0 <= i < volumes.len() && volumes[i] == v;
            assert(i < init.len() ==> init[i] == v);
        }
    }
}

/// Wiping a disk again changes nothing.
pub proof fn wiping_again_changes_nothing(volumes: Seq<PartView>, leaf: Seq<char>)
    ensures
        off_disk(off_disk(volumes, leaf), leaf) == off_disk(volumes, leaf),
    decreases volumes.len(),
{
    reveal(Seq::filter);
    if volumes.len() > 0 {
        let init = volumes.drop_last();
        wiping_again_changes_nothing(init, leaf);
        if volumes.last().disk != leaf {
            let all = off_disk(volumes, leaf);
            assert(all.drop_last() =~= off_disk(init, leaf));
        }
    }
}

proof fn lemma_off_disk_adds(a: Seq<PartView>, b: Seq<PartView>, leaf: Seq<char>)
    ensures
        off_disk(a + b, leaf) == off_disk(a, leaf) + off_disk(b, leaf),
    decreases b.len(),
{
    reveal(Seq::filter);
    if b.len() > 0 {
        lemma_off_disk_adds(a, b.drop_last(), leaf);
        assert((a + b).drop_last() =~= a + b.drop_last());
        assert((a + b).last() == b.last());
        assert(off_disk(a + b, leaf) =~= off_disk(a, leaf) + off_disk(b, leaf));
    } else {
        assert(a + b =~= a);
        assert(off_disk(a, leaf) + off_disk(b, leaf) =~= off_disk(a, leaf));
    }
}

proof fn lemma_none_off_disk(v: Seq<PartView>, leaf: Seq<char>)
    requires
        forall|i: int| 0 <= i < v.len() ==> (#[trigger] v[i]).disk == leaf,
    ensures
        off_disk(v, leaf).len() == 0,
    decreases v.len(),
{
    reveal(Seq::filter);
    if v.len() > 0 {
        let init = v.drop_last();
        assert forall|i: int| 0 <= i < init.len() implies (#[trigger] init[i]).disk == leaf by {
            assert(init[i] == v[i]);
        }
        lemma_none_off_disk(init, leaf);
        assert(v[v.len() - 1].disk == leaf);
    }
}

/// Laying a disk out again with the same plan converges: the volumes are those
/// of the first time, and so are the devices, which hang on the disk and the
/// plan alone.
pub proof fn laying_out_again_converges(
    volumes: Seq<PartView>,
    disk: Seq<char>,
    plan: Seq<PlanView>,
)
    ensures
        laid_out(laid_out(volumes, disk, plan), disk, plan) == laid_out(volumes, disk, plan),
        made_all(disk, 0, plan).len() == plan.len(),
        forall|i: int|
            0 <= i < plan.len() ==> (#[trigger] made_devices(disk, 0, plan.len())[i])
                == made_all(disk, 0, plan)[i].device,
{
    let leaf = crate::paths::base_name(disk);
    let made = made_all(disk, 0, plan);
    let kept = off_disk(volumes, leaf);
    lemma_off_disk_adds(kept, made, leaf);
    wiping_again_changes_nothing(volumes, leaf);
    lemma_none_off_disk(made, leaf);
    assert(off_disk(kept + made, leaf) =~= kept);
}

/// Formatting a device again in the same way changes nothing.
pub proof fn formatting_again_changes_nothing(
    volumes: Seq<PartView>,
    device: Seq<char>,
    fs: FsType,
    label: Seq<char>,
)
    ensures
        formatted(formatted(volumes, device, fs, label), device, fs, label) == formatted(
            volumes,
            device,
            fs,
            label,
        ),
    decreases volumes.len(),
{
    let once = formatted(volumes, device, fs, label);
    if volumes.len() > 0 {
        if volumes[0].device == device {
            assert(formatted(once, device, fs, label) =~= once);
        } else {
            let rest = formatted(volumes.skip(1), device, fs, label);
            formatting_again_changes_nothing(volumes.skip(1), device, fs, label);
            assert(once[0] == volumes[0]);
            assert(once.skip(1) =~= rest);
        }
    }
}

/// What a plan became carries the plan's labels, so appending it once more is
/// refused.
pub proof fn appending_again_is_refused(
    volumes: Seq<PartView>,
    disk: Seq<char>,
    existing: nat,
    plan: Seq<PlanView>,
    i: int,
)
    requires
        0 <= i < plan.len(),
    ensures
        has_label(
            volumes + made_all(disk, existing, plan),
            crate::paths::base_name(disk),
            plan[i].label,
        ),
{
    let after = volumes + made_all(disk, existing, plan);
    assert(after[volumes.len() + i] == made(disk, (existing + i + 1) as nat, plan[i]));
}

/// Formatting changes one volume alone, the first on the device, and of it only
/// the filesystem and its label.
pub proof fn formatting_changes_the_device_alone(
    volumes: Seq<PartView>,
    device: Seq<char>,
    fs: FsType,
    label: Seq<char>,
    i: int,
)
    requires
        0 <= i < volumes.len(),
    ensures
        formatted(volumes, device, fs, label).len() == volumes.len(),
        volumes[i].device != device ==> formatted(volumes, device, fs, label)[i] == volumes[i],
        volumes[i].device == device && (forall|j: int|
            0 <= j < i ==> (#[trigger] volumes[j]).device != device) ==> {
            let v = formatted(volumes, device, fs, label)[i];
            &&& v.fs_type == Some(fs)
            &&& v.fs_label == Some(label)
            &&& v.device == device
            &&& v.disk == volumes[i].disk
            &&& v.partition_label == volumes[i].partition_label
            &&& v.partition_uuid == volumes[i].partition_uuid
            &&& v.partition_type_guid == volumes[i].partition_type_guid
            &&& v.size_bytes == volumes[i].size_bytes
        },
    decreases volumes.len(),
{
    if volumes[0].device != device {
        let rest = volumes.skip(1);
        lemma_formatted_len(rest, device, fs, label);
        if i > 0 {
            formatting_changes_the_device_alone(rest, device, fs, label, i - 1);
            assert(rest[i - 1] == volumes[i]);
            assert(formatted(volumes, device, fs, label)[i] == formatted(
                rest,
                device,
                fs,
                label,
            )[i - 1]);
            if forall|j: int| 0 <= j < i ==> (#[trigger] volumes[j]).device != device {
                assert forall|j: int| 0 <= j < i - 1 implies (#[trigger] rest[j]).device
                    != device by {
                    assert(rest[j] == volumes[j + 1]);
                }
            }
        }
    } else if i > 0 {
        assert(volumes[0].device == device);
    }
}

proof fn lemma_formatted_len(
    volumes: Seq<PartView>,
    device: Seq<char>,
    fs: FsType,
    label: Seq<char>,
)
    ensures
        formatted(volumes, device, fs, label).len() == volumes.len(),
    decreases volumes.len(),
{
    if volumes.len() > 0 && volumes[0].device != device {
        lemma_formatted_len(volumes.skip(1), device, fs, label);
    }
}

/// Every planned partition becomes a volume on its disk: with the plan's label,
/// type and size, on the device that is handed out for it, and with nothing on
/// it yet. No two of them share a device.
pub proof fn every_planned_partition_is_made(
    disk: Seq<char>,
    existing: nat,
    plan: Seq<PartitionPlan>,
    i: int,
    j: int,
)
    requires
        0 <= i < plan.len(),
        0 <= j < plan.len(),
        i != j,
    ensures
        ({
            let views = crate::block::plans(plan);
            let all = made_all(disk, existing, views);
            let devices = made_devices(disk, existing, plan.len());
            &&& all.len() == plan.len()
            &&& devices.len() == plan.len()
            &&& all[i].device == devices[i]
            &&& devices[i] == crate::block::part_name(disk, (existing + i + 1) as nat)
            &&& devices[i] != devices[j]
            &&& all[i].disk == crate::paths::base_name(disk)
            &&& all[i].partition_label == plan[i].label@
            &&& all[i].partition_type_guid == crate::block::guid_of(plan[i].part_type)
            &&& all[i].size_bytes == plan[i].size_bytes
            &&& all[i].fs_type is None
        }),
{
    crate::block::each_partition_has_its_own_device(
        disk,
        (existing + i + 1) as nat,
        (existing + j + 1) as nat,
    );
}

} // verus!
