//! Block devices: what a backend reports of disks and partitions, what is
//! planned for them, and the two backends' rules.

use vstd::prelude::*;
use vstd::string::*;

pub mod fake;
pub mod fsprobe;
pub mod run;
pub mod sysfs;

verus! {

/// Why a block operation failed.
#[derive(Debug)]
pub enum BlockError {
    Io { path: String, message: String },
    Gpt { device: String, message: String },
    Wipe { disk: String, message: String },
    Mkfs { device: String, message: String },
}

/// How a block error is shown.
pub open spec fn error_text(e: BlockError) -> Seq<char> {
    match e {
        BlockError::Io { path, message } => "io "@ + path@ + ": "@ + message@,
        BlockError::Gpt { device, message } => "gpt "@ + device@ + ": "@ + message@,
        BlockError::Wipe { disk, message } => "wipe "@ + disk@ + ": "@ + message@,
        BlockError::Mkfs { device, message } => "mkfs "@ + device@ + ": "@ + message@,
    }
}

impl BlockError {
    /// How the error is shown.
    pub fn to_string(&self) -> (r: String)
        ensures
            r@ == error_text(*self),
    {
        let (what, on, message) = match self {
            BlockError::Io { path, message } => ("io ", path, message),
            BlockError::Gpt { device, message } => ("gpt ", device, message),
            BlockError::Wipe { disk, message } => ("wipe ", disk, message),
            BlockError::Mkfs { device, message } => ("mkfs ", device, message),
        };
        let mut s = what.to_owned();
        s.append(on.as_str());
        s.append(": ");
        s.append(message.as_str());
        s
    }
}

/// What a block error says.
#[verifier::ext_equal]
pub enum ErrorView {
    Io { path: Seq<char>, message: Seq<char> },
    Gpt { device: Seq<char>, message: Seq<char> },
    Wipe { disk: Seq<char>, message: Seq<char> },
    Mkfs { device: Seq<char>, message: Seq<char> },
}

impl View for BlockError {
    type V = ErrorView;

    open spec fn view(&self) -> ErrorView {
        match *self {
            BlockError::Io { path, message } => ErrorView::Io { path: path@, message: message@ },
            BlockError::Gpt { device, message } => ErrorView::Gpt {
                device: device@,
                message: message@,
            },
            BlockError::Wipe { disk, message } => ErrorView::Wipe {
                disk: disk@,
                message: message@,
            },
            BlockError::Mkfs { device, message } => ErrorView::Mkfs {
                device: device@,
                message: message@,
            },
        }
    }
}

/// A filesystem type that is told by its magic bytes.
#[derive(Clone, Copy, Debug, PartialEq, Eq, Structural)]
pub enum FsType {
    Ext4,
    Vfat,
    Xfs,
    Swap,
}

/// The name of a filesystem type.
pub open spec fn fs_name(fs: FsType) -> Seq<char> {
    match fs {
        FsType::Ext4 => "ext4"@,
        FsType::Vfat => "vfat"@,
        FsType::Xfs => "xfs"@,
        FsType::Swap => "swap"@,
    }
}

impl FsType {
    /// The name of the filesystem type.
    pub fn as_str(self) -> (r: &'static str)
        ensures
            r@ == fs_name(self),
    {
        match self {
            FsType::Ext4 => "ext4",
            FsType::Vfat => "vfat",
            FsType::Xfs => "xfs",
            FsType::Swap => "swap",
        }
    }
}

/// A disk.
#[derive(Debug, PartialEq, Eq)]
pub struct DiskInfo {
    pub name: String,
    pub path: String,
    pub size_bytes: u64,
    pub model: String,
    pub serial: String,
    pub rotational: bool,
    pub read_only: bool,
}

impl Clone for DiskInfo {
    fn clone(&self) -> (r: DiskInfo)
        ensures
            r == *self,
    {
        DiskInfo {
            name: self.name.clone(),
            path: self.path.clone(),
            size_bytes: self.size_bytes,
            model: self.model.clone(),
            serial: self.serial.clone(),
            rotational: self.rotational,
            read_only: self.read_only,
        }
    }
}

/// What is known of a disk.
#[verifier::ext_equal]
pub struct DiskView {
    pub name: Seq<char>,
    pub path: Seq<char>,
    pub size_bytes: u64,
    pub model: Seq<char>,
    pub serial: Seq<char>,
    pub rotational: bool,
    pub read_only: bool,
}

impl View for DiskInfo {
    type V = DiskView;

    open spec fn view(&self) -> DiskView {
        DiskView {
            name: self.name@,
            path: self.path@,
            size_bytes: self.size_bytes,
            model: self.model@,
            serial: self.serial@,
            rotational: self.rotational,
            read_only: self.read_only,
        }
    }
}

/// A partition and the filesystem that was found on it.
#[derive(Debug, PartialEq, Eq)]
pub struct VolumeInfo {
    pub device: String,
    pub disk: String,
    pub partition_uuid: String,
    pub partition_label: String,
    pub partition_type_guid: String,
    pub fs_type: Option<FsType>,
    pub fs_label: Option<String>,
    pub fs_uuid: Option<String>,
    pub size_bytes: u64,
}

/// A copy of an optional string.
pub fn copy_opt(o: &Option<String>) -> (r: Option<String>)
    ensures
        r == *o,
{
    match o {
        Some(s) => Some(s.clone()),
        None => None,
    }
}

impl Clone for VolumeInfo {
    fn clone(&self) -> (r: VolumeInfo)
        ensures
            r == *self,
    {
        VolumeInfo {
            device: self.device.clone(),
            disk: self.disk.clone(),
            partition_uuid: self.partition_uuid.clone(),
            partition_label: self.partition_label.clone(),
            partition_type_guid: self.partition_type_guid.clone(),
            fs_type: self.fs_type,
            fs_label: copy_opt(&self.fs_label),
            fs_uuid: copy_opt(&self.fs_uuid),
            size_bytes: self.size_bytes,
        }
    }
}

/// What is known of a partition.
#[verifier::ext_equal]
pub struct PartView {
    pub device: Seq<char>,
    pub disk: Seq<char>,
    pub partition_uuid: Seq<char>,
    pub partition_label: Seq<char>,
    pub partition_type_guid: Seq<char>,
    pub fs_type: Option<FsType>,
    pub fs_label: Option<Seq<char>>,
    pub fs_uuid: Option<Seq<char>>,
    pub size_bytes: u64,
}

impl View for VolumeInfo {
    type V = PartView;

    open spec fn view(&self) -> PartView {
        PartView {
            device: self.device@,
            disk: self.disk@,
            partition_uuid: self.partition_uuid@,
            partition_label: self.partition_label@,
            partition_type_guid: self.partition_type_guid@,
            fs_type: self.fs_type,
            fs_label: crate::resources::opt_text(self.fs_label),
            fs_uuid: crate::resources::opt_text(self.fs_uuid),
            size_bytes: self.size_bytes,
        }
    }
}

/// The two partition types that are laid out.
#[derive(Clone, Copy, Debug, PartialEq, Eq, Structural)]
pub enum PartType {
    EfiSystem,
    LinuxFilesystem,
}

/// The GUID of a partition type.
pub open spec fn guid_of(t: PartType) -> Seq<char> {
    match t {
        PartType::EfiSystem => "C12A7328-F81F-11D2-BA4B-00A0C93EC93B"@,
        PartType::LinuxFilesystem => "0FC63DAF-8483-4772-8E79-3D69D8477DE4"@,
    }
}

impl PartType {
    /// The GUID of the partition type.
    pub fn type_guid(self) -> (r: &'static str)
        ensures
            r@ == guid_of(self),
    {
        match self {
            PartType::EfiSystem => "C12A7328-F81F-11D2-BA4B-00A0C93EC93B",
            PartType::LinuxFilesystem => "0FC63DAF-8483-4772-8E79-3D69D8477DE4",
        }
    }
}

/// A partition to be made; a size of 0 stands for all the space that is left.
#[derive(Debug, PartialEq, Eq)]
pub struct PartitionPlan {
    pub label: String,
    pub part_type: PartType,
    pub fs: FsType,
    pub size_bytes: u64,
}

/// What is planned for a partition.
#[verifier::ext_equal]
pub struct PlanView {
    pub label: Seq<char>,
    pub part_type: PartType,
    pub fs: FsType,
    pub size_bytes: u64,
}

impl View for PartitionPlan {
    type V = PlanView;

    open spec fn view(&self) -> PlanView {
        PlanView {
            label: self.label@,
            part_type: self.part_type,
            fs: self.fs,
            size_bytes: self.size_bytes,
        }
    }
}

/// What is planned for a list of partitions.
pub open spec fn plans(v: Seq<PartitionPlan>) -> Seq<PlanView> {
    Seq::new(v.len(), |i: int| v[i]@)
}

/// What is known of a list of disks.
pub open spec fn disk_views(v: Seq<DiskInfo>) -> Seq<DiskView> {
    Seq::new(v.len(), |i: int| v[i]@)
}

/// What is known of a list of partitions.
pub open spec fn part_views(v: Seq<VolumeInfo>) -> Seq<PartView> {
    Seq::new(v.len(), |i: int| v[i]@)
}

/// The labels of a plan.
pub open spec fn plan_labels(plan: Seq<PlanView>) -> Seq<Seq<char>> {
    Seq::new(plan.len(), |i: int| plan[i].label)
}

/// Lists disks and their partitions.
pub trait BlockBackend {
    fn list_disks(&self) -> Result<Vec<DiskInfo>, BlockError>;

    fn list_volumes(&self) -> Result<Vec<VolumeInfo>, BlockError>;
}

/// Changes what is on a disk. A provisioner can also list what is there. Wiping,
/// laying out afresh and formatting are idempotent to the caller: making the
/// same layout again, or formatting again a device that is already as asked
/// for, converges.
pub trait BlockProvisioner: BlockBackend {
    /// Destroys the partition table on `disk`.
    fn wipe(&mut self, disk: &str) -> Result<(), BlockError>;

    /// Writes a fresh partition table with `plan` and returns the device paths.
    fn create_partitions(&mut self, disk: &str, plan: &[PartitionPlan]) -> Result<
        Vec<String>,
        BlockError,
    >;

    /// Appends `plan` to the partition table and returns the device paths.
    fn add_partitions(&mut self, disk: &str, plan: &[PartitionPlan]) -> Result<
        Vec<String>,
        BlockError,
    >;

    /// Makes a filesystem on `device` with `label`.
    fn format(&mut self, device: &str, fs: FsType, label: &str) -> Result<(), BlockError>;
}

/// The product of two numbers, or the largest number where it is too large.
pub open spec fn saturated(a: u64, b: u64) -> u64 {
    if a * b <= u64::MAX {
        (a * b) as u64
    } else {
        u64::MAX
    }
}

/// The product of two numbers, or the largest number where it is too large.
pub fn saturating_product(a: u64, b: u64) -> (r: u64)
    ensures
        r == saturated(a, b),
{
    match a.checked_mul(b) {
        Some(p) => p,
        None => u64::MAX,
    }
}

/// Whether a disk name ends in a digit.
pub open spec fn ends_in_digit(disk: Seq<char>) -> bool {
    disk.len() > 0 && '0' <= disk.last() <= '9'
}

/// The device of a disk's partition: a `p` stands before the number where the
/// disk's name ends in a digit.
pub open spec fn part_name(disk: Seq<char>, num: nat) -> Seq<char> {
    if ends_in_digit(disk) {
        disk + "p"@ + crate::text::dec(num)
    } else {
        disk + crate::text::dec(num)
    }
}

/// The device of a disk's partition.
pub fn numbered_device(disk: &str, num: u128) -> (r: String)
    ensures
        r@ == part_name(disk@, num as nat),
{
    let v = crate::text::chars_of(disk);
    let mut s = disk.to_owned();
    if v.len() > 0 && '0' <= v[v.len() - 1] && v[v.len() - 1] <= '9' {
        s.append("p");
    }
    crate::text::push_big_dec(&mut s, num);
    s
}

/// Why labels that are already there are not appended.
pub open spec fn duplicate_message(label: Seq<char>, disk: Seq<char>) -> Seq<char> {
    "partition "@ + label + " already exists on "@ + disk + "; refusing to append"@
}

/// The refusal to append `label` to `disk`.
pub fn duplicate_error(device: &str, label: &str, disk: &str) -> (r: BlockError)
    ensures
        r matches BlockError::Gpt { device: d, message: m } && d@ == device@ && m@
            == duplicate_message(label@, disk@),
{
    let mut message = "partition ".to_owned();
    message.append(label);
    message.append(" already exists on ");
    message.append(disk);
    message.append("; refusing to append");
    BlockError::Gpt { device: device.to_owned(), message }
}

/// The partitions of a disk have devices of their own: the device tells the
/// number, and it begins with the disk.
pub proof fn each_partition_has_its_own_device(disk: Seq<char>, a: nat, b: nat)
    ensures
        part_name(disk, a) == part_name(disk, b) ==> a == b,
        part_name(disk, a).len() > disk.len(),
        part_name(disk, a).take(disk.len() as int) == disk,
        disk.len() > 0 && '0' <= disk.last() <= '9' ==> part_name(disk, a)[disk.len() as int]
            == 'p' && crate::text::digits_value(part_name(disk, a).skip(disk.len() as int + 1)) == a,
        disk.len() == 0 || disk.last() < '0' || '9' < disk.last() ==> crate::text::digits_value(
            part_name(disk, a).skip(disk.len() as int),
        ) == a,
{
    reveal_strlit("p");
    crate::text::lemma_dec_reads_back(a);
    crate::text::lemma_dec_reads_back(b);
    let n = disk.len() as int;
    assert(part_name(disk, a).take(n) =~= disk);
    if ends_in_digit(disk) {
        assert(part_name(disk, a).skip(n + 1) =~= crate::text::dec(a));
        assert(part_name(disk, b).skip(n + 1) =~= crate::text::dec(b));
    } else {
        assert(part_name(disk, a).skip(n) =~= crate::text::dec(a));
        assert(part_name(disk, b).skip(n) =~= crate::text::dec(b));
    }
}

/// A product is exact where it fits, and never too large.
pub proof fn a_product_is_exact_where_it_fits(a: u64, b: u64)
    ensures
        saturated(a, b) <= a * b,
        a * b <= u64::MAX ==> saturated(a, b) == a * b,
        a * b > u64::MAX ==> saturated(a, b) == u64::MAX,
{
    assert(a * b >= 0) by (nonlinear_arith);
}

/// The filesystem types have different names.
pub proof fn a_filesystem_is_told_by_its_name(a: FsType, b: FsType)
    ensures
        fs_name(a) == fs_name(b) ==> a == b,
        fs_name(FsType::Ext4) == "ext4"@,
        fs_name(FsType::Vfat) == "vfat"@,
        fs_name(FsType::Xfs) == "xfs"@,
        fs_name(FsType::Swap) == "swap"@,
{
    reveal_strlit("ext4");
    reveal_strlit("vfat");
    reveal_strlit("xfs");
    reveal_strlit("swap");
    assert("ext4"@[0] == 'e');
    assert("vfat"@[0] == 'v');
    assert("xfs"@[0] == 'x');
    assert("swap"@[0] == 's');
}

/// The partition types have the GUIDs under which firmware and systems know
/// them.
pub proof fn a_partition_type_has_its_guid()
    ensures
        guid_of(PartType::EfiSystem) == "C12A7328-F81F-11D2-BA4B-00A0C93EC93B"@,
        guid_of(PartType::LinuxFilesystem) == "0FC63DAF-8483-4772-8E79-3D69D8477DE4"@,
{
}

/// What failed, on what, and why: all three are shown.
pub proof fn a_block_error_shows_its_reason(on: String, message: String)
    ensures
        error_text(BlockError::Io { path: on, message }) == "io "@ + on@ + ": "@ + message@,
        error_text(BlockError::Gpt { device: on, message }) == "gpt "@ + on@ + ": "@ + message@,
        error_text(BlockError::Wipe { disk: on, message }) == "wipe "@ + on@ + ": "@ + message@,
        error_text(BlockError::Mkfs { device: on, message }) == "mkfs "@ + on@ + ": "@ + message@,
{
}

} // verus!
