//! Publishes the disks and volumes that a backend lists.

use crate::block::{DiskInfo, DiskView, FsType, PartView, VolumeInfo};
use crate::controllers::block::NS;
use crate::controllers::{exclusive, Input, Output, OutputKind, Publication, PublicationView};
use crate::paths::leaf_of;
use crate::resources::{
    DiscoveredVolume, DiskStatus, ObjectView, Resource, ResourceObject, ResourceType, ResourceView,
    VolumeView,
};
use vstd::prelude::*;
use vstd::string::*;

verus! {

/// Publishes disks and volumes.
pub struct DiskDiscoveryController {}

/// A disk as a resource.
pub open spec fn disk_object(d: DiskView) -> ObjectView {
    ObjectView {
        namespace: NS@,
        id: d.name,
        spec: ResourceView::DiskStatus {
            name: d.name,
            path: d.path,
            size_bytes: d.size_bytes,
            model: d.model,
            serial: d.serial,
            rotational: d.rotational,
            read_only: d.read_only,
        },
    }
}

/// A volume as a resource, under the bare name of its device.
pub open spec fn volume_object(v: PartView) -> ObjectView {
    ObjectView {
        namespace: NS@,
        id: crate::paths::base_name(v.device),
        spec: ResourceView::DiscoveredVolume(
            VolumeView {
                device: v.device,
                disk: v.disk,
                partition_uuid: v.partition_uuid,
                partition_label: v.partition_label,
                partition_type_guid: v.partition_type_guid,
                fs_type: match v.fs_type {
                    Some(t) => Some(crate::block::fs_name(t)),
                    None => None,
                },
                fs_label: v.fs_label,
                fs_uuid: v.fs_uuid,
                size_bytes: v.size_bytes,
            },
        ),
    }
}

/// Disks as resources.
pub open spec fn disk_objects(v: Seq<DiskView>) -> Seq<ObjectView> {
    Seq::new(v.len(), |i: int| disk_object(v[i]))
}

/// Volumes as resources.
pub open spec fn volume_objects(v: Seq<PartView>) -> Seq<ObjectView> {
    Seq::new(v.len(), |i: int| volume_object(v[i]))
}

/// The resource id of a volume: the bare name of its device.
pub fn leaf(device: &str) -> (r: String)
    ensures
        r@ == crate::paths::base_name(device@),
{
    leaf_of(device)
}

fn disk_resource(d: DiskInfo) -> (r: ResourceObject)
    ensures
        r@ == disk_object(d@),
{
    let id = d.name.clone();
    ResourceObject::new(
        NS,
        id.as_str(),
        Resource::DiskStatus(
            DiskStatus {
                name: d.name,
                path: d.path,
                size_bytes: d.size_bytes,
                model: d.model,
                serial: d.serial,
                rotational: d.rotational,
                read_only: d.read_only,
            },
        ),
    )
}

fn fs_text(t: Option<FsType>) -> (r: Option<String>)
    ensures
        crate::resources::opt_text(r) == (match t {
            Some(t) => Some(crate::block::fs_name(t)),
            None => None,
        }),
{
    match t {
        Some(t) => Some(t.as_str().to_owned()),
        None => None,
    }
}

fn volume_resource(v: VolumeInfo) -> (r: ResourceObject)
    ensures
        r@ == volume_object(v@),
{
    let id = leaf(v.device.as_str());
    ResourceObject::new(
        NS,
        id.as_str(),
        Resource::DiscoveredVolume(
            DiscoveredVolume {
                device: v.device,
                disk: v.disk,
                partition_uuid: v.partition_uuid,
                partition_label: v.partition_label,
                partition_type_guid: v.partition_type_guid,
                fs_type: fs_text(v.fs_type),
                fs_label: v.fs_label,
                fs_uuid: v.fs_uuid,
                size_bytes: v.size_bytes,
            },
        ),
    )
}

impl DiskDiscoveryController {
    pub fn new() -> (r: DiskDiscoveryController) {
        DiskDiscoveryController {  }
    }

    /// The controller's name, under which it owns what it publishes.
    pub fn name(&self) -> (r: &'static str)
        ensures
            r@ == "disk-discovery"@,
    {
        "disk-discovery"
    }

    /// Nothing is watched: devices are listed once, at boot.
    pub fn inputs(&self) -> (r: Vec<Input>)
        ensures
            r@.len() == 0,
    {
        Vec::new()
    }

    pub fn outputs(&self) -> (r: Vec<Output>)
        ensures
            r@ == seq![
                Output { typ: ResourceType::DiskStatus, kind: OutputKind::Exclusive },
                Output { typ: ResourceType::DiscoveredVolume, kind: OutputKind::Exclusive },
            ],
    {
        let r = vec![
            exclusive(ResourceType::DiskStatus),
            exclusive(ResourceType::DiscoveredVolume),
        ];
        assert(r@ =~= seq![
            Output { typ: ResourceType::DiskStatus, kind: OutputKind::Exclusive },
            Output { typ: ResourceType::DiscoveredVolume, kind: OutputKind::Exclusive },
        ]);
        r
    }

    /// What is published of the listed disks and volumes. The volumes come
    /// first: whoever sees a disk sees its volumes too.
    pub fn reconcile(&self, disks: Vec<DiskInfo>, volumes: Vec<VolumeInfo>) -> (r: Vec<Publication>)
        ensures
            crate::controllers::publications(r@) == seq![
                PublicationView {
                    typ: ResourceType::DiscoveredVolume,
                    objects: volume_objects(crate::block::part_views(volumes@)),
                },
                PublicationView {
                    typ: ResourceType::DiskStatus,
                    objects: disk_objects(crate::block::disk_views(disks@)),
                },
            ],
    {
        let mut disk_objs: Vec<ResourceObject> = Vec::new();
        let mut i: usize = 0;
        while i < disks.len()
            invariant
                i <= disks@.len(),
                disk_objs@.len() == i,
                forall|k: int| 0 <= k < i ==> (#[trigger] disk_objs@[k])@ == disk_object(disks@[k]@),
            decreases disks@.len() - i,
        {
            disk_objs.push(disk_resource(disks[i].clone()));
            i += 1;
        }
        let mut vol_objs: Vec<ResourceObject> = Vec::new();
        let mut k: usize = 0;
        while k < volumes.len()
            invariant
                k <= volumes@.len(),
                vol_objs@.len() == k,
                forall|j: int|
                    0 <= j < k ==> (#[trigger] vol_objs@[j])@ == volume_object(volumes@[j]@),
            decreases volumes@.len() - k,
        {
            vol_objs.push(volume_resource(volumes[k].clone()));
            k += 1;
        }
        let ghost d = disk_objects(crate::block::disk_views(disks@));
        let ghost v = volume_objects(crate::block::part_views(volumes@));
        assert(crate::resources::objects(disk_objs@) =~= d);
        assert(crate::resources::objects(vol_objs@) =~= v);
        let r = vec![
            Publication { typ: ResourceType::DiscoveredVolume, objects: vol_objs },
            Publication { typ: ResourceType::DiskStatus, objects: disk_objs },
        ];
        assert(crate::controllers::publications(r@) =~= seq![
            PublicationView { typ: ResourceType::DiscoveredVolume, objects: v },
            PublicationView { typ: ResourceType::DiskStatus, objects: d },
        ]);
        r
    }
}

/// Every disk that is listed is published, under its name and with all that is
/// known of it.
pub proof fn every_disk_is_published(disks: Seq<DiskInfo>, i: int)
    requires
        0 <= i < disks.len(),
    ensures
        disk_objects(crate::block::disk_views(disks)).len() == disks.len(),
        ({
            let o = disk_objects(crate::block::disk_views(disks))[i];
            &&& o.namespace == "block"@
            &&& o.id == disks[i].name@
            &&& o.spec == (ResourceView::DiskStatus {
                name: disks[i].name@,
                path: disks[i].path@,
                size_bytes: disks[i].size_bytes,
                model: disks[i].model@,
                serial: disks[i].serial@,
                rotational: disks[i].rotational,
                read_only: disks[i].read_only,
            })
        }),
{
}

/// Every volume that is listed is published, under the bare name of its device
/// and with all that is known of it.
pub proof fn every_volume_is_published(volumes: Seq<VolumeInfo>, i: int)
    requires
        0 <= i < volumes.len(),
    ensures
        volume_objects(crate::block::part_views(volumes)).len() == volumes.len(),
        ({
            let o = volume_objects(crate::block::part_views(volumes))[i];
            let v = volumes[i];
            &&& o.namespace == "block"@
            &&& o.id == crate::paths::base_name(v.device@)
            &&& o.spec matches ResourceView::DiscoveredVolume(w)
            &&& w.device == v.device@
            &&& w.disk == v.disk@
            &&& w.partition_uuid == v.partition_uuid@
            &&& w.partition_label == v.partition_label@
            &&& w.partition_type_guid == v.partition_type_guid@
            &&& w.size_bytes == v.size_bytes
            &&& v.fs_type is None <==> w.fs_type is None
            &&& v.fs_type == Some(FsType::Ext4) ==> w.fs_type == Some("ext4"@)
            &&& v.fs_type == Some(FsType::Vfat) ==> w.fs_type == Some("vfat"@)
            &&& v.fs_type == Some(FsType::Xfs) ==> w.fs_type == Some("xfs"@)
            &&& v.fs_type == Some(FsType::Swap) ==> w.fs_type == Some("swap"@)
            &&& match v.fs_label {
                Some(s) => w.fs_label == Some(s@),
                None => w.fs_label is None,
            }
            &&& match v.fs_uuid {
                Some(s) => w.fs_uuid == Some(s@),
                None => w.fs_uuid is None,
            }
        }),
{
}

} // verus!
