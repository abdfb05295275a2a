//! The rules of the backend that works on real disks: which of the kernel's
//! block devices count as disks, how partitions are named, sized and
//! registered, and which command makes a filesystem. Reading `/sys`, reading
//! and writing partition tables and running commands happen outside; their
//! results are handed in.

use crate::block::fsprobe::{probe_fs, FsProbe};
use crate::block::{
    numbered_device, saturating_product, BlockError, DiskInfo, DiskView, FsType, PartView,
    VolumeInfo,
};
use crate::order::sort_order;
use crate::paths::join;
use crate::text::{parse_u64, push_dec, same, starts_with, trim};
use vstd::prelude::*;
use vstd::string::*;

verus! {

/// The backend's roots: where the kernel describes devices, and where the
/// device nodes are.
pub struct SysfsBlock {
    sys_root: String,
    dev_root: String,
}

/// What was read of one entry of the block directory: the content of each
/// file, where the file could be read.
pub struct DiskFiles {
    pub name: String,
    pub size: Option<String>,
    pub model: Option<String>,
    pub serial: Option<String>,
    pub rotational: Option<String>,
    pub ro: Option<String>,
}

/// One entry of a partition table.
pub struct TableEntry {
    pub index: u32,
    pub uuid: String,
    pub label: String,
    pub type_guid: String,
    pub size: Option<u64>,
}

/// A partition of a disk's table, by the name of its device.
pub struct PartEntry {
    pub device: String,
    pub uuid: String,
    pub label: String,
    pub type_guid: String,
    pub size_bytes: u64,
}

/// The device of a disk's partition.
pub fn part_device(disk: &str, num: u32) -> (r: String)
    ensures
        r@ == crate::block::part_name(disk@, num as nat),
{
    numbered_device(disk, num as u128)
}

/// The content of a file without white space at its ends.
pub open spec fn trimmed_opt(o: Option<String>) -> Option<Seq<char>> {
    match o {
        Some(s) => Some(crate::text::trimmed(s@)),
        None => None,
    }
}

/// The content of a file without white space at its ends.
pub fn read_trim(content: &Option<String>) -> (r: Option<String>)
    ensures
        crate::resources::opt_text(r) == trimmed_opt(*content),
{
    match content {
        Some(s) => Some(trim(s.as_str())),
        None => None,
    }
}

/// A trimmed content, or nothing.
pub open spec fn text_or_empty(o: Option<String>) -> Seq<char> {
    match trimmed_opt(o) {
        Some(s) => s,
        None => Seq::empty(),
    }
}

/// A size in bytes from a content that counts sectors of 512 bytes; what
/// writes no number counts as 0, and what is too large as the largest number.
pub open spec fn size_of(o: Option<String>) -> u64 {
    match trimmed_opt(o) {
        Some(s) => match crate::text::u64_of(s) {
            Some(n) => crate::block::saturated(n, 512),
            None => 0,
        },
        None => 0,
    }
}

/// Whether an entry is a disk: devices that live in memory are not.
pub open spec fn is_disk(name: Seq<char>) -> bool {
    !crate::text::begins(name, "ram"@) && !crate::text::begins(name, "zram"@)
}

/// The disk that an entry describes.
pub open spec fn disk_of(dev_root: Seq<char>, f: DiskFiles) -> DiskView {
    DiskView {
        name: f.name@,
        path: crate::paths::below(dev_root, f.name@),
        size_bytes: size_of(f.size),
        model: text_or_empty(f.model),
        serial: text_or_empty(f.serial),
        rotational: trimmed_opt(f.rotational) == Some("1"@),
        read_only: trimmed_opt(f.ro) == Some("1"@),
    }
}

/// The disks among the entries, in the order of the entries.
pub open spec fn disks_of(dev_root: Seq<char>, found: Seq<DiskFiles>) -> Seq<DiskView>
    decreases found.len(),
{
    if found.len() == 0 {
        seq![]
    } else {
        let before = disks_of(dev_root, found.drop_last());
        if is_disk(found.last().name@) {
            before.push(disk_of(dev_root, found.last()))
        } else {
            before
        }
    }
}

/// The names of disks.
pub open spec fn disk_names(disks: Seq<DiskView>) -> Seq<Seq<char>> {
    Seq::new(disks.len(), |i: int| disks[i].name)
}

/// `sorted` lists `disks` by name.
pub open spec fn is_sorted_of(disks: Seq<DiskView>, sorted: Seq<DiskView>) -> bool {
    exists|order: Seq<usize>| #[trigger]
        crate::order::is_order(disk_names(disks), order) && sorted == Seq::new(
            disks.len(),
            |i: int| disks[order[i] as int],
        )
}

/// The partitions of a disk's table.
pub open spec fn entry_of(disk: Seq<char>, e: TableEntry) -> PartEntryView {
    PartEntryView {
        device: crate::block::part_name(disk, e.index as nat),
        uuid: e.uuid@,
        label: e.label@,
        type_guid: e.type_guid@,
        size_bytes: match e.size {
            Some(n) => n,
            None => 0,
        },
    }
}

/// What is known of a partition of a table.
#[verifier::ext_equal]
pub struct PartEntryView {
    pub device: Seq<char>,
    pub uuid: Seq<char>,
    pub label: Seq<char>,
    pub type_guid: Seq<char>,
    pub size_bytes: u64,
}

impl View for PartEntry {
    type V = PartEntryView;

    open spec fn view(&self) -> PartEntryView {
        PartEntryView {
            device: self.device@,
            uuid: self.uuid@,
            label: self.label@,
            type_guid: self.type_guid@,
            size_bytes: self.size_bytes,
        }
    }
}

/// What a partition and the first bytes of its device amount to.
pub open spec fn volume_of(
    dev_root: Seq<char>,
    disk: Seq<char>,
    p: PartEntryView,
    head: Option<Seq<u8>>,
) -> PartView {
    let fs = match head {
        Some(b) => crate::block::fsprobe::fs_of(b),
        None => None,
    };
    PartView {
        device: crate::paths::below(dev_root, p.device),
        disk,
        partition_uuid: p.uuid,
        partition_label: p.label,
        partition_type_guid: p.type_guid,
        fs_type: fs,
        fs_label: if fs is Some {
            crate::block::fsprobe::label_of(head->0)
        } else {
            None
        },
        fs_uuid: if fs is Some {
            crate::block::fsprobe::uuid_of(head->0)
        } else {
            None
        },
        size_bytes: p.size_bytes,
    }
}

/// The bytes of an optional buffer.
pub open spec fn opt_bytes(o: Option<Vec<u8>>) -> Option<Seq<u8>> {
    match o {
        Some(b) => Some(b@),
        None => None,
    }
}

/// What was read of a disk: its name and, where its partition table could be
/// read, its partitions with the first bytes of their devices.
pub struct DiskTable {
    pub name: String,
    pub parts: Option<Vec<(PartEntry, Option<Vec<u8>>)>>,
}

/// The volumes of one disk; a disk whose table could not be read has none.
pub open spec fn table_volumes(dev_root: Seq<char>, t: DiskTable) -> Seq<PartView> {
    match t.parts {
        Some(parts) => Seq::new(
            parts@.len(),
            |i: int| volume_of(dev_root, t.name@, parts@[i].0@, opt_bytes(parts@[i].1)),
        ),
        None => seq![],
    }
}

/// The volumes of the disks, disk by disk.
pub open spec fn all_volumes(dev_root: Seq<char>, tables: Seq<DiskTable>) -> Seq<PartView>
    decreases tables.len(),
{
    if tables.len() == 0 {
        seq![]
    } else {
        all_volumes(dev_root, tables.drop_last()) + table_volumes(dev_root, tables.last())
    }
}

fn is_one(content: &Option<String>) -> (r: bool)
    ensures
        r == (trimmed_opt(*content) == Some("1"@)),
{
    match read_trim(content) {
        Some(s) => same(s.as_str(), "1"),
        None => false,
    }
}

fn or_empty(content: &Option<String>) -> (r: String)
    ensures
        r@ == text_or_empty(*content),
{
    match read_trim(content) {
        Some(s) => s,
        None => String::new(),
    }
}

fn size_in_bytes(content: &Option<String>) -> (r: u64)
    ensures
        r == size_of(*content),
{
    match read_trim(content) {
        Some(s) => match parse_u64(s.as_str()) {
            Some(n) => saturating_product(n, 512),
            None => 0,
        },
        None => 0,
    }
}

impl SysfsBlock {
    /// Where the kernel describes devices.
    pub closed spec fn sys(self) -> Seq<char> {
        self.sys_root@
    }

    /// Where the device nodes are.
    pub closed spec fn dev(self) -> Seq<char> {
        self.dev_root@
    }

    /// The backend of a running system.
    pub fn new() -> (r: SysfsBlock)
        ensures
            r.sys() == "/sys"@,
            r.dev() == "/dev"@,
    {
        SysfsBlock { sys_root: "/sys".to_owned(), dev_root: "/dev".to_owned() }
    }

    /// A backend with other roots.
    pub fn with_roots(sys_root: &str, dev_root: &str) -> (r: SysfsBlock)
        ensures
            r.sys() == sys_root@,
            r.dev() == dev_root@,
    {
        SysfsBlock { sys_root: sys_root.to_owned(), dev_root: dev_root.to_owned() }
    }

    /// The directory in which the kernel lists block devices.
    pub fn block_dir(&self) -> (r: String)
        ensures
            r@ == crate::paths::below(self.sys(), "block"@),
    {
        join(self.sys_root.as_str(), "block")
    }

    /// Where the device nodes are.
    pub fn device_root(&self) -> (r: String)
        ensures
            r@ == self.dev(),
    {
        self.dev_root.clone()
    }

    /// The path of a device node.
    pub fn device_path(&self, device: &str) -> (r: String)
        ensures
            r@ == crate::paths::below(self.dev(), device@),
    {
        join(self.dev_root.as_str(), device)
    }

    /// The path of a disk that is given by its name or by its path.
    pub fn disk_path(&self, disk: &str) -> (r: String)
        ensures
            r@ == (if crate::text::begins(disk@, "/"@) {
                disk@
            } else {
                crate::paths::below(self.dev(), disk@)
            }),
    {
        if starts_with(disk, "/") {
            disk.to_owned()
        } else {
            join(self.dev_root.as_str(), disk)
        }
    }

    /// The disks among the entries of the block directory, by name.
    pub fn list_disks(&self, found: &Vec<DiskFiles>) -> (r: Vec<DiskInfo>)
        ensures
            is_sorted_of(disks_of(self.dev(), found@), crate::block::disk_views(r@)),
    {
        let mut disks: Vec<DiskInfo> = Vec::new();
        let mut names: Vec<String> = Vec::new();
        let ghost dev = self.dev();
        let mut i: usize = 0;
        assert(crate::block::disk_views(disks@) =~= disks_of(dev, found@.take(0)));
        while i < found.len()
            invariant
                i <= found@.len(),
                dev == self.dev(),
                crate::block::disk_views(disks@) == disks_of(dev, found@.take(i as int)),
                crate::text::texts(names@) == disk_names(crate::block::disk_views(disks@)),
            decreases found@.len() - i,
        {
            let f = &found[i];
            proof {
                assert(found@.take(i + 1).drop_last() =~= found@.take(i as int));
                assert(found@.take(i + 1).last() == *f);
            }
            let name = f.name.as_str();
            if !starts_with(name, "ram") && !starts_with(name, "zram") {
                let d = DiskInfo {
                    name: f.name.clone(),
                    path: join(self.dev_root.as_str(), name),
                    size_bytes: size_in_bytes(&f.size),
                    model: or_empty(&f.model),
                    serial: or_empty(&f.serial),
                    rotational: is_one(&f.rotational),
                    read_only: is_one(&f.ro),
                };
                let n = f.name.clone();
                proof {
                    assert(d@ =~= disk_of(dev, *f));
                    let views = crate::block::disk_views(disks@);
                    assert(crate::block::disk_views(disks@.push(d)) =~= views.push(d@));
                    assert(crate::text::texts(names@.push(n)) =~= crate::text::texts(names@).push(
                        n@,
                    ));
                    assert(disk_names(views.push(d@)) =~= disk_names(views).push(d@.name));
                }
                disks.push(d);
                names.push(n);
            }
            i += 1;
        }
        assert(found@.take(i as int) =~= found@);
        let order = sort_order(&names);
        let ghost views = crate::block::disk_views(disks@);
        let mut out: Vec<DiskInfo> = Vec::new();
        let mut k: usize = 0;
        while k < order.len()
            invariant
                k <= order@.len(),
                views == crate::block::disk_views(disks@),
                crate::order::is_order(disk_names(views), order@),
                crate::block::disk_views(out@) == Seq::new(
                    k as nat,
                    |j: int| views[order@[j] as int],
                ),
            decreases order@.len() - k,
        {
            assert(order@[k as int] < disk_names(views).len());
            let d = disks[order[k]].clone();
            assert(crate::block::disk_views(out@.push(d)) =~= crate::block::disk_views(out@).push(
                d@,
            ));
            out.push(d);
            k += 1;
            assert(crate::block::disk_views(out@) =~= Seq::new(
                k as nat,
                |j: int| views[order@[j] as int],
            ));
        }
        assert(crate::order::is_order(disk_names(views), order@));
        out
    }

    /// The partitions of a disk's table, by the names of their devices.
    pub fn read_partitions(&self, disk: &str, table: &Vec<TableEntry>) -> (r: Vec<PartEntry>)
        ensures
            r@.len() == table@.len(),
            forall|i: int|
                0 <= i < r@.len() ==> (#[trigger] r@[i])@ == entry_of(disk@, table@[i]),
    {
        let mut out: Vec<PartEntry> = Vec::new();
        let mut i: usize = 0;
        while i < table.len()
            invariant
                i <= table@.len(),
                out@.len() == i,
                forall|k: int| 0 <= k < i ==> (#[trigger] out@[k])@ == entry_of(disk@, table@[k]),
            decreases table@.len() - i,
        {
            let e = &table[i];
            out.push(
                PartEntry {
                    device: part_device(disk, e.index),
                    uuid: e.uuid.clone(),
                    label: e.label.clone(),
                    type_guid: e.type_guid.clone(),
                    size_bytes: match e.size {
                        Some(n) => n,
                        None => 0,
                    },
                },
            );
            i += 1;
        }
        out
    }

    /// What a partition and the first bytes of its device amount to.
    fn volume(&self, disk: &String, p: &PartEntry, head: &Option<Vec<u8>>) -> (r: VolumeInfo)
        ensures
            r@ == volume_of(self.dev(), disk@, p@, opt_bytes(*head)),
    {
        let probe = match head {
            Some(b) => probe_fs(b.as_slice()),
            None => None,
        };
        let (fs_type, fs_label, fs_uuid) = match probe {
            Some(FsProbe { fs_type, label, uuid }) => (Some(fs_type), label, uuid),
            None => (None, None, None),
        };
        let r = VolumeInfo {
            device: self.device_path(p.device.as_str()),
            disk: disk.clone(),
            partition_uuid: p.uuid.clone(),
            partition_label: p.label.clone(),
            partition_type_guid: p.type_guid.clone(),
            fs_type,
            fs_label,
            fs_uuid,
            size_bytes: p.size_bytes,
        };
        r
    }

    /// The volumes of the disks, disk by disk; a disk whose partition table
    /// could not be read is passed over.
    pub fn list_volumes(&self, tables: &Vec<DiskTable>) -> (r: Vec<VolumeInfo>)
        ensures
            crate::block::part_views(r@) == all_volumes(self.dev(), tables@),
    {
        let mut out: Vec<VolumeInfo> = Vec::new();
        let ghost dev = self.dev();
        let mut i: usize = 0;
        assert(crate::block::part_views(out@) =~= all_volumes(dev, tables@.take(0)));
        while i < tables.len()
            invariant
                i <= tables@.len(),
                dev == self.dev(),
                crate::block::part_views(out@) == all_volumes(dev, tables@.take(i as int)),
            decreases tables@.len() - i,
        {
            let ghost before = crate::block::part_views(out@);
            let ghost here = table_volumes(dev, tables@[i as int]);
            proof {
                assert(tables@.take(i + 1).drop_last() =~= tables@.take(i as int));
                assert(tables@.take(i + 1).last() == tables@[i as int]);
            }
            if let Some(parts) = &tables[i].parts {
                let mut k: usize = 0;
                assert(before + here.take(0) =~= before);
                while k < parts.len()
                    invariant
                        i < tables@.len(),
                        k <= parts@.len(),
                        tables@[i as int].parts == Some(*parts),
                        dev == self.dev(),
                        here == table_volumes(dev, tables@[i as int]),
                        here.len() == parts@.len(),
                        crate::block::part_views(out@) == before + here.take(k as int),
                    decreases parts@.len() - k,
                {
                    let v = self.volume(&tables[i].name, &parts[k].0, &parts[k].1);
                    proof {
                        assert(v@ == here[k as int]);
                        assert(here.take(k + 1) =~= here.take(k as int).push(v@));
                        assert(crate::block::part_views(out@.push(v)) =~= crate::block::part_views(
                            out@,
                        ).push(v@));
                        assert(before + here.take(k + 1) =~= (before + here.take(k as int)).push(
                            v@,
                        ));
                    }
                    out.push(v);
                    k += 1;
                }
                assert(here.take(k as int) =~= here);
            } else {
                assert(before + here =~= before);
            }
            i += 1;
        }
        assert(tables@.take(i as int) =~= tables@);
        out
    }
}

impl Default for SysfsBlock {
    fn default() -> (r: SysfsBlock)
        ensures
            r.sys() == "/sys"@,
            r.dev() == "/dev"@,
    {
        SysfsBlock::new()
    }
}

/// What the kernel answers when it is told of a partition.
pub enum KernelAnswer {
    Added,
    /// The device is busy (`EBUSY`).
    Busy,
    /// The partition exists (`EEXIST`).
    Exists,
    Failed { message: String },
}

/// What the kernel is told of a partition: its number, and where it starts and
/// how long it is, in bytes.
#[derive(Clone, Copy, Debug, PartialEq, Eq, Structural)]
pub struct PartitionNotice {
    pub number: u32,
    pub start: u64,
    pub length: u64,
}

/// Whether a partition, given by its number and its first and last block, can
/// be told in bytes.
pub open spec fn can_be_told(block_size: u64, part: (u32, u64, u64)) -> bool {
    &&& part.1 <= part.2
    &&& part.2 - part.1 + 1 <= u64::MAX
    &&& part.1 * block_size <= u64::MAX
    &&& (part.2 - part.1 + 1) * block_size <= u64::MAX
}

/// What the kernel is told of a partition.
pub open spec fn notice_of(block_size: u64, part: (u32, u64, u64)) -> PartitionNotice {
    PartitionNotice {
        number: part.0,
        start: (part.1 * block_size) as u64,
        length: ((part.2 - part.1 + 1) * block_size) as u64,
    }
}

/// What is reported where the kernel did not take the partition `number`.
pub open spec fn refused_partition(
    path: Seq<char>,
    number: u32,
    message: Seq<char>,
) -> crate::block::ErrorView {
    crate::block::ErrorView::Gpt {
        device: path,
        message: "BLKPG add partition "@ + crate::text::dec(number as nat) + ": "@ + message,
    }
}

/// Whether the first answer that is a failure is the one at `k`.
pub open spec fn fails_at(answers: Seq<KernelAnswer>, k: int) -> bool {
    &&& 0 <= k < answers.len()
    &&& answers[k] is Failed
    &&& forall|j: int| 0 <= j < k ==> !((#[trigger] answers[j]) is Failed)
}

/// Telling the kernel of partitions one by one: which is next, after it gave
/// `answers` to the first of them. That it knew a partition before, from an
/// attempt that was cut short, is as good as that it takes it.
pub fn blkpg_add_partitions(
    path: &str,
    block_size: u64,
    parts: &Vec<(u32, u64, u64)>,
    answers: &Vec<KernelAnswer>,
) -> (r: Result<Option<PartitionNotice>, BlockError>)
    requires
        answers@.len() <= parts@.len(),
        forall|i: int| 0 <= i < parts@.len() ==> can_be_told(block_size, #[trigger] parts@[i]),
    ensures
        match r {
            Ok(next) => {
                &&& forall|k: int| 0 <= k < answers@.len() ==> !((#[trigger] answers@[k]) is Failed)
                &&& next == (if answers@.len() < parts@.len() {
                    Some(notice_of(block_size, parts@[answers@.len() as int]))
                } else {
                    None
                })
            },
            Err(e) => exists|k: int| #[trigger]
                fails_at(answers@, k) && e@ == refused_partition(
                    path@,
                    parts@[k].0,
                    answers@[k]->Failed_message@,
                ),
        },
{
    let mut k: usize = 0;
    while k < answers.len()
        invariant
            k <= answers@.len() <= parts@.len(),
            forall|j: int| 0 <= j < k ==> !((#[trigger] answers@[j]) is Failed),
        decreases answers@.len() - k,
    {
        match &answers[k] {
            KernelAnswer::Failed { message: m } => {
                let mut message = "BLKPG add partition ".to_owned();
                push_dec(&mut message, parts[k].0 as u64);
                message.append(": ");
                message.append(m.as_str());
                assert(fails_at(answers@, k as int));
                return Err(BlockError::Gpt { device: path.to_owned(), message });
            },
            _ => {},
        }
        k += 1;
    }
    if k == parts.len() {
        return Ok(None);
    }
    let (number, first, last) = parts[k];
    assert(can_be_told(block_size, parts@[k as int]));
    let start: u64 = first * block_size;
    let length: u64 = (last - first + 1) * block_size;
    Ok(Some(PartitionNotice { number, start, length }))
}

/// How much is zeroed at either end of a disk to destroy its partition table.
pub const WIPE_BYTES: u64 = 1048576;

/// The offset at which the end of a disk of `len` bytes is zeroed, besides its
/// beginning: none where the disk is no longer than that.
pub fn wipe_tail(len: u64) -> (r: Option<u64>)
    ensures
        r == (if len > WIPE_BYTES {
            Some((len - WIPE_BYTES) as u64)
        } else {
            None
        }),
{
    if len > WIPE_BYTES {
        Some(len - WIPE_BYTES)
    } else {
        None
    }
}

/// The program that makes a filesystem.
pub open spec fn mkfs_program(fs: FsType) -> Seq<char> {
    match fs {
        FsType::Ext4 => "mkfs.ext4"@,
        FsType::Vfat => "mkfs.vfat"@,
        FsType::Xfs => "mkfs.xfs"@,
        FsType::Swap => "mkswap"@,
    }
}

/// The arguments of the program that makes a filesystem.
pub open spec fn mkfs_arguments(fs: FsType, device: Seq<char>, label: Seq<char>) -> Seq<Seq<char>> {
    match fs {
        FsType::Ext4 => seq!["-F"@, "-L"@, label, device],
        FsType::Vfat => seq!["-n"@, label, device],
        FsType::Xfs => seq!["-f"@, "-L"@, label, device],
        FsType::Swap => seq!["-L"@, label, device],
    }
}

/// The command that makes a filesystem on `device` with `label`.
pub fn mkfs_command(device: &str, fs: FsType, label: &str) -> (r: (&'static str, Vec<String>))
    ensures
        r.0@ == mkfs_program(fs),
        crate::text::texts(r.1@) == mkfs_arguments(fs, device@, label@),
{
    let (program, args) = match fs {
        FsType::Ext4 => (
            "mkfs.ext4",
            vec!["-F".to_owned(), "-L".to_owned(), label.to_owned(), device.to_owned()],
        ),
        FsType::Vfat => (
            "mkfs.vfat",
            vec!["-n".to_owned(), label.to_owned(), device.to_owned()],
        ),
        FsType::Xfs => (
            "mkfs.xfs",
            vec!["-f".to_owned(), "-L".to_owned(), label.to_owned(), device.to_owned()],
        ),
        FsType::Swap => ("mkswap", vec!["-L".to_owned(), label.to_owned(), device.to_owned()]),
    };
    assert(crate::text::texts(args@) =~= mkfs_arguments(fs, device@, label@));
    (program, args)
}

/// How a command ended.
pub enum CommandEnd {
    /// It could not be run.
    NotRun { message: String },
    /// It ended; the status as text, and whether it stands for success.
    Ended { success: bool, status: String },
}

/// The message about a filesystem that was not made.
pub open spec fn mkfs_message(program: Seq<char>, end: CommandEnd) -> Seq<char> {
    match end {
        CommandEnd::NotRun { message } => program + ": "@ + message@,
        CommandEnd::Ended { success, status } => program + " exited "@ + status@,
    }
}

/// Whether the filesystem was made.
pub fn format_result(device: &str, fs: FsType, end: CommandEnd) -> (r: Result<(), BlockError>)
    ensures
        match r {
            Ok(_) => end matches CommandEnd::Ended { success, status } && success,
            Err(e) => !(end matches CommandEnd::Ended { success, status } && success) && e@ == (
            crate::block::ErrorView::Mkfs {
                device: device@,
                message: mkfs_message(mkfs_program(fs), end),
            }),
        },
{
    let program: &'static str = match fs {
        FsType::Ext4 => "mkfs.ext4",
        FsType::Vfat => "mkfs.vfat",
        FsType::Xfs => "mkfs.xfs",
        FsType::Swap => "mkswap",
    };
    let mut message = program.to_owned();
    match end {
        CommandEnd::NotRun { message: m } => {
            message.append(": ");
            message.append(m.as_str());
        },
        CommandEnd::Ended { success, status } => {
            if success {
                return Ok(());
            }
            message.append(" exited ");
            message.append(status.as_str());
        },
    }
    Err(BlockError::Mkfs { device: device.to_owned(), message })
}

/// The disks of two lists of entries are those of the first and then those of
/// the second. A device that lives in memory is no disk; every other entry is
/// one, under its name and with the content of its files.
pub proof fn every_disk_is_listed(
    dev_root: Seq<char>,
    a: Seq<DiskFiles>,
    b: Seq<DiskFiles>,
    f: DiskFiles,
)
    ensures
        disks_of(dev_root, a + b) == disks_of(dev_root, a) + disks_of(dev_root, b),
        (f.name@.len() >= 3 && f.name@.take(3) == "ram"@) || (f.name@.len() >= 4 && f.name@.take(4)
            == "zram"@) ==> disks_of(dev_root, seq![f]).len() == 0,
        !((f.name@.len() >= 3 && f.name@.take(3) == "ram"@) || (f.name@.len() >= 4 && f.name@.take(
            4,
        ) == "zram"@)) ==> {
            let d = disks_of(dev_root, seq![f]);
            &&& d.len() == 1
            &&& d[0].name == f.name@
            &&& d[0].path == crate::paths::below(dev_root, f.name@)
        },
    decreases b.len(),
{
    reveal_strlit("ram");
    reveal_strlit("zram");
    assert(seq![f].drop_last() =~= Seq::empty());
    assert(disks_of(dev_root, seq![f].drop_last()) =~= Seq::empty());
    assert(seq![f].last() == f);
    if b.len() == 0 {
        assert(a + b =~= a);
        assert(disks_of(dev_root, a) + disks_of(dev_root, b) =~= disks_of(dev_root, a));
    } else {
        every_disk_is_listed(dev_root, a, b.drop_last(), f);
        assert((a + b).drop_last() =~= a + b.drop_last());
        assert((a + b).last() == b.last());
        assert(disks_of(dev_root, a + b) =~= disks_of(dev_root, a) + disks_of(dev_root, b));
    }
}

/// What the kernel writes of a disk is read: its size counts sectors of 512
/// bytes, and a 1 says that it rotates or is read-only. A line break behind the
/// value does not matter.
pub proof fn what_the_kernel_writes_is_read(
    dev_root: Seq<char>,
    f: DiskFiles,
    sectors: u64,
    size: String,
    rotational: String,
    ro: String,
)
    requires
        f.size == Some(size),
        f.rotational == Some(rotational),
        f.ro == Some(ro),
        size@ == crate::text::dec(sectors as nat) + "\n"@,
        rotational@ == "1\n"@ || rotational@ == "0\n"@,
        ro@ == "1\n"@ || ro@ == "0\n"@,
    ensures
        sectors * 512 <= u64::MAX ==> disk_of(dev_root, f).size_bytes == sectors * 512,
        disk_of(dev_root, f).rotational <==> rotational@ == "1\n"@,
        disk_of(dev_root, f).read_only <==> ro@ == "1\n"@,
{
    reveal_strlit("\n");
    reveal_strlit("1\n");
    reveal_strlit("0\n");
    reveal_strlit("1");
    reveal_strlit("0");
    let none = Seq::<char>::empty();
    let d = crate::text::dec(sectors as nat);
    crate::text::lemma_dec_reads_back(sectors as nat);
    crate::text::a_written_number_is_read_back(sectors);
    assert('0' <= d[0] <= '9');
    assert('0' <= d[d.len() - 1] <= '9');
    crate::text::trimming_takes_off_white_space_only(none, d, "\n"@);
    assert(none + d + "\n"@ =~= size@);
    crate::text::trimming_takes_off_white_space_only(none, "1"@, "\n"@);
    crate::text::trimming_takes_off_white_space_only(none, "0"@, "\n"@);
    assert(none + "1"@ + "\n"@ =~= "1\n"@);
    assert(none + "0"@ + "\n"@ =~= "0\n"@);
    assert("1"@[0] == '1' && "0"@[0] == '0');
    assert("1\n"@[0] == '1' && "0\n"@[0] == '0');
}

/// Sorting disks neither drops nor adds one, and puts them in the order of their
/// names.
pub proof fn sorted_disks_are_the_same_disks(
    disks: Seq<DiskView>,
    sorted: Seq<DiskView>,
    i: int,
    j: int,
)
    requires
        is_sorted_of(disks, sorted),
        disks.len() <= usize::MAX,
        0 <= i < j < disks.len(),
    ensures
        sorted.len() == disks.len(),
        sorted.contains(disks[i]),
        disks.contains(sorted[i]),
        !crate::order::text_less(sorted[j].name, sorted[i].name),
{
    let order = choose|order: Seq<usize>| #[trigger]
        crate::order::is_order(disk_names(disks), order) && sorted == Seq::new(
            disks.len(),
            |i: int| disks[order[i] as int],
        );
    crate::order::lemma_order_has(disk_names(disks), order, i as usize);
    let k = choose|k: int| 0 <= k < order.len() && order[k] == i as usize;
    assert(sorted[k] == disks[i]);
    assert(order[i] < disk_names(disks).len());
    assert(order[j] < disk_names(disks).len());
    assert(sorted[i] == disks[order[i] as int]);
    assert(crate::order::listed_first(disk_names(disks), order[i] as int, order[j] as int));
    let x = vstd::utf8::encode_utf8(sorted[i].name);
    let y = vstd::utf8::encode_utf8(sorted[j].name);
    crate::order::bytes_less_is_total(x, y);
    crate::order::bytes_less_is_total(x, x);
}

/// The volumes of two lists of tables are those of the first and then those of
/// the second; each partition of a table that could be read is one of them, on
/// its disk and with its label, type and size.
pub proof fn every_partition_is_a_volume(
    dev_root: Seq<char>,
    a: Seq<DiskTable>,
    b: Seq<DiskTable>,
    t: DiskTable,
    i: int,
)
    ensures
        all_volumes(dev_root, a + b) == all_volumes(dev_root, a) + all_volumes(dev_root, b),
        t.parts is None ==> all_volumes(dev_root, seq![t]).len() == 0,
        t.parts matches Some(parts) ==> all_volumes(dev_root, seq![t]).len() == parts@.len() && (0
            <= i < parts@.len() ==> {
            let v = all_volumes(dev_root, seq![t])[i];
            let p = parts@[i].0;
            &&& v.device == crate::paths::below(dev_root, p.device@)
            &&& v.disk == t.name@
            &&& v.partition_uuid == p.uuid@
            &&& v.partition_label == p.label@
            &&& v.partition_type_guid == p.type_guid@
            &&& v.size_bytes == p.size_bytes
            &&& parts@[i].1 is None ==> v.fs_type is None
            &&& v.fs_type is None ==> v.fs_label is None && v.fs_uuid is None
        }),
    decreases b.len(),
{
    assert(seq![t].drop_last() =~= Seq::empty());
    assert(all_volumes(dev_root, seq![t].drop_last()) =~= Seq::empty());
    assert(seq![t].last() == t);
    assert(all_volumes(dev_root, seq![t]) =~= table_volumes(dev_root, t));
    if b.len() == 0 {
        assert(a + b =~= a);
        assert(all_volumes(dev_root, a) + all_volumes(dev_root, b) =~= all_volumes(dev_root, a));
    } else {
        every_partition_is_a_volume(dev_root, a, b.drop_last(), t, i);
        assert((a + b).drop_last() =~= a + b.drop_last());
        assert((a + b).last() == b.last());
        assert(all_volumes(dev_root, a + b) =~= all_volumes(dev_root, a) + all_volumes(
            dev_root,
            b,
        ));
    }
}

/// A table's entry is the partition with its number; what it says is kept.
pub proof fn an_entry_is_the_partition_with_its_number(disk: Seq<char>, e: TableEntry)
    ensures
        entry_of(disk, e).device == crate::block::part_name(disk, e.index as nat),
        entry_of(disk, e).uuid == e.uuid@,
        entry_of(disk, e).label == e.label@,
        entry_of(disk, e).type_guid == e.type_guid@,
        e.size matches Some(n) ==> entry_of(disk, e).size_bytes == n,
        e.size is None ==> entry_of(disk, e).size_bytes == 0,
{
}

/// What the kernel is told of partitions fits together: a partition begins where
/// its first block does and ends behind its last, so one that follows another
/// block for block begins where that ends.
pub proof fn the_kernel_is_told_where_a_partition_lies(
    block_size: u64,
    a: (u32, u64, u64),
    b: (u32, u64, u64),
)
    requires
        can_be_told(block_size, a),
        can_be_told(block_size, b),
        b.1 == a.2 + 1,
    ensures
        notice_of(block_size, a).number == a.0,
        notice_of(block_size, a).start == a.1 * block_size,
        notice_of(block_size, a).start + notice_of(block_size, a).length == notice_of(
            block_size,
            b,
        ).start,
        block_size > 0 ==> notice_of(block_size, a).length > 0,
{
    let n = block_size as int;
    let first = a.1 as int;
    let last = a.2 as int;
    assert(0 <= first * n) by (nonlinear_arith)
        requires
            0 <= first,
            0 <= n,
    ;
    assert(0 <= (last - first + 1) * n) by (nonlinear_arith)
        requires
            first <= last,
            0 <= n,
    ;
    assert(0 <= (last + 1) * n) by (nonlinear_arith)
        requires
            0 <= last,
            0 <= n,
    ;
    assert(first * n + (last - first + 1) * n == (last + 1) * n) by (nonlinear_arith);
    if n > 0 {
        assert((last - first + 1) * n > 0) by (nonlinear_arith)
            requires
                first <= last,
                n > 0,
        ;
    }
}

/// The command that makes a filesystem is the one for its type, is given the
/// label, and works on the device alone.
pub proof fn the_right_filesystem_is_made(device: Seq<char>, fs: FsType, label: Seq<char>)
    ensures
        mkfs_program(FsType::Ext4) == "mkfs.ext4"@,
        mkfs_program(FsType::Vfat) == "mkfs.vfat"@,
        mkfs_program(FsType::Xfs) == "mkfs.xfs"@,
        mkfs_program(FsType::Swap) == "mkswap"@,
        ({
            let args = mkfs_arguments(fs, device, label);
            let n = args.len() as int;
            &&& n >= 3
            &&& args[n - 1] == device
            &&& args[n - 2] == label
            &&& args[n - 3] == if fs is Vfat {
                "-n"@
            } else {
                "-L"@
            }
            &&& fs is Ext4 ==> args[0] == "-F"@
            &&& fs is Xfs ==> args[0] == "-f"@
        }),
{
}

/// The model and the serial number of a disk are what their own files say,
/// without the white space that the kernel fills them up with; a file that could
/// not be read says nothing.
pub proof fn a_disk_is_called_what_its_files_say(
    dev_root: Seq<char>,
    f: DiskFiles,
    text: Seq<char>,
    gap: Seq<char>,
    content: String,
)
    requires
        text.len() > 0,
        !crate::text::is_space(text[0]),
        !crate::text::is_space(text.last()),
        crate::text::is_blank(gap),
        content@ == text + gap,
    ensures
        f.model == Some(content) ==> disk_of(dev_root, f).model == text,
        f.model is None ==> disk_of(dev_root, f).model.len() == 0,
        f.serial == Some(content) ==> disk_of(dev_root, f).serial == text,
        f.serial is None ==> disk_of(dev_root, f).serial.len() == 0,
        f.size is None ==> disk_of(dev_root, f).size_bytes == 0,
        f.rotational is None ==> !disk_of(dev_root, f).rotational,
        f.ro is None ==> !disk_of(dev_root, f).read_only,
{
    let none = Seq::<char>::empty();
    crate::text::trimming_takes_off_white_space_only(none, text, gap);
    assert(none + text + gap =~= content@);
}

/// What is found on a partition is what the first bytes of its own device tell.
pub proof fn a_volume_is_what_its_device_tells(
    dev_root: Seq<char>,
    disk: Seq<char>,
    p: PartEntryView,
    head: Seq<u8>,
)
    ensures
        volume_of(dev_root, disk, p, Some(head)).fs_type == crate::block::fsprobe::fs_of(head),
        crate::block::fsprobe::fs_of(head) is Some ==> volume_of(
            dev_root,
            disk,
            p,
            Some(head),
        ).fs_label == crate::block::fsprobe::label_of(head) && volume_of(
            dev_root,
            disk,
            p,
            Some(head),
        ).fs_uuid == crate::block::fsprobe::uuid_of(head),
        volume_of(dev_root, disk, p, None).fs_type is None,
{
}

/// What is reported where the kernel did not take a partition names the device
/// and the partition, and gives the kernel's reason.
pub proof fn a_refused_partition_is_named(path: Seq<char>, number: u32, message: Seq<char>)
    ensures
        refused_partition(path, number, message) matches crate::block::ErrorView::Gpt {
            device,
            message: shown,
        } && device == path && crate::text::shows(shown, crate::text::dec(number as nat))
            && crate::text::shows(shown, ": "@ + message),
{
    let none = Seq::<char>::empty();
    let a = "BLKPG add partition "@;
    let n = crate::text::dec(number as nat);
    let shown = a + n + ": "@ + message;
    crate::text::lemma_shows(shown, a, n, ": "@ + message);
    crate::text::lemma_shows(shown, a + n, ": "@ + message, none);
}

} // verus!
