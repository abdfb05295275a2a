//! Disk images: a partition table and one FAT32 partition to boot from.
//!
//! The partitions for state are not there: a node adds them on its first boot,
//! sized to its disk.

use crate::block::{FsType, PartType, PartitionPlan, PlanView};
use crate::imager::arch::PartScheme;
use crate::imager::tree::{flatten, Item, Named};
use crate::imager::Error;
use crate::text::push_dec;
use vstd::prelude::*;
use vstd::string::*;

verus! {

/// Bytes in a block of an image.
pub const LB: u64 = 512;

/// The size of the EFI partition.
pub const EFI_SIZE: u64 = 536_870_912;

/// Room for the protective MBR and both copies of the GPT.
pub const GPT_OVERHEAD: u64 = 4_194_304;

/// The first block of the partition of an MBR image.
pub const START_LBA: u64 = 2048;

/// How an image is laid out.
#[derive(Debug, PartialEq, Eq)]
pub enum Layout {
    /// The block that keeps others off the disk, and the one partition of the
    /// GPT.
    Gpt { lba0: Vec<u8>, partition: PartitionPlan },
    /// The block with the partition table, and the bytes that its one partition
    /// takes, from `start` up to `end`.
    Mbr { lba0: Vec<u8>, start: u64, end: u64 },
}

/// What a layout says.
#[verifier::ext_equal]
pub enum LayoutView {
    Gpt { lba0: Seq<u8>, partition: PlanView },
    Mbr { lba0: Seq<u8>, start: u64, end: u64 },
}

impl View for Layout {
    type V = LayoutView;

    open spec fn view(&self) -> LayoutView {
        match *self {
            Layout::Gpt { lba0, partition } => LayoutView::Gpt {
                lba0: lba0@,
                partition: partition@,
            },
            Layout::Mbr { lba0, start, end } => LayoutView::Mbr { lba0: lba0@, start, end },
        }
    }
}

/// A number in four bytes, the lowest first.
pub open spec fn le_bytes(n: u32) -> Seq<u8> {
    seq![
        (n % 256) as u8,
        (n / 256 % 256) as u8,
        (n / 65536 % 256) as u8,
        (n / 16777216) as u8,
    ]
}

/// The number in four bytes, the lowest first.
pub open spec fn le_value(b: Seq<u8>) -> int {
    b[0] + 256 * b[1] + 65536 * b[2] + 16777216 * b[3]
}

/// A block with a partition table: nothing but its first entry, and the
/// signature at its end.
pub open spec fn table_block(entry: Seq<u8>) -> Seq<u8> {
    Seq::new(446, |i: int| 0u8) + entry + Seq::new(48, |i: int| 0u8) + seq![0x55u8, 0xAAu8]
}

/// The entry that keeps others off a disk with a GPT of `blocks` blocks behind
/// the first.
pub open spec fn protective_entry(blocks: u32) -> Seq<u8> {
    seq![0u8, 0u8, 2u8, 0u8, 0xEEu8, 0xFFu8, 0xFFu8, 0xFFu8] + le_bytes(1) + le_bytes(blocks)
}

/// The entry of a bootable FAT32 partition.
pub open spec fn boot_entry(first: u32, blocks: u32) -> Seq<u8> {
    seq![0x80u8, 0xFEu8, 0xFFu8, 0xFFu8, 0x0Cu8, 0xFEu8, 0xFFu8, 0xFFu8] + le_bytes(first)
        + le_bytes(blocks)
}

/// A number of blocks as an MBR can hold it.
pub open spec fn clamped(n: int) -> u32 {
    if n > u32::MAX {
        u32::MAX
    } else {
        n as u32
    }
}

/// What is shown for an image that is too small for a GPT.
pub open spec fn small_message(size: u64) -> Seq<char> {
    "image size "@ + crate::text::dec(size as nat) + " too small (need at least "@
        + crate::text::dec((EFI_SIZE + GPT_OVERHEAD) as nat) + " bytes)"@
}

/// The one partition of a GPT image.
pub open spec fn efi_plan() -> PlanView {
    PlanView {
        label: "EFI"@,
        part_type: PartType::EfiSystem,
        fs: FsType::Vfat,
        size_bytes: EFI_SIZE,
    }
}

/// The one partition of a GPT image: an EFI system partition of 512 MiB, called
/// `EFI`.
pub fn efi_partition() -> (r: PartitionPlan)
    ensures
        r@ == efi_plan(),
{
    PartitionPlan {
        label: "EFI".to_owned(),
        part_type: PartType::EfiSystem,
        fs: FsType::Vfat,
        size_bytes: EFI_SIZE,
    }
}

/// The layout of an image of `size` bytes, or what is shown where it is too
/// small.
pub open spec fn layout(size: u64, scheme: PartScheme) -> Result<LayoutView, Seq<char>> {
    match scheme {
        PartScheme::Gpt => if size >= EFI_SIZE + GPT_OVERHEAD {
            Ok(
                LayoutView::Gpt {
                    lba0: table_block(protective_entry(clamped(size / LB - 1))),
                    partition: efi_plan(),
                },
            )
        } else {
            Err(small_message(size))
        },
        PartScheme::Mbr => if size > (START_LBA + 2048) * LB {
            let blocks = clamped(size / LB - START_LBA);
            Ok(
                LayoutView::Mbr {
                    lba0: table_block(boot_entry(START_LBA as u32, blocks)),
                    start: (START_LBA * LB) as u64,
                    end: ((START_LBA + blocks) * LB) as u64,
                },
            )
        } else {
            Err("image too small"@)
        },
    }
}

/// Calls `gpt::mbr::ProtectiveMBR::with_lb_size` and its `as_bytes`: a block
/// that is zero but for its first partition entry, of type 0xEE from block 1 on
/// over `blocks` blocks, and its signature. The bytes go to a vector, so there
/// is nothing to fail.
#[verifier::external_body]
fn protective_mbr(blocks: u32) -> (r: Vec<u8>)
    ensures
        r@ == table_block(protective_entry(blocks)),
{
    gpt::mbr::ProtectiveMBR::with_lb_size(blocks).as_bytes().unwrap()
}

fn push_le(out: &mut Vec<u8>, n: u32)
    ensures
        final(out)@ == old(out)@ + le_bytes(n),
{
    out.push((n % 256) as u8);
    out.push((n / 256 % 256) as u8);
    out.push((n / 65536 % 256) as u8);
    out.push((n / 16777216) as u8);
    assert(out@ =~= old(out)@ + le_bytes(n));
}

fn push_zeros(out: &mut Vec<u8>, n: usize)
    ensures
        final(out)@ == old(out)@ + Seq::new(n as nat, |i: int| 0u8),
{
    let mut i: usize = 0;
    let ghost before = out@;
    assert(out@ =~= before + Seq::new(0, |i: int| 0u8));
    while i < n
        invariant
            i <= n,
            out@ == before + Seq::new(i as nat, |i: int| 0u8),
        decreases n - i,
    {
        out.push(0);
        i += 1;
        assert(out@ =~= before + Seq::new(i as nat, |i: int| 0u8));
    }
}

/// The block with the partition table of an MBR image.
fn boot_block(first: u32, blocks: u32) -> (r: Vec<u8>)
    ensures
        r@ == table_block(boot_entry(first, blocks)),
{
    let mut out: Vec<u8> = Vec::new();
    push_zeros(&mut out, 446);
    out.push(0x80);
    out.push(0xFE);
    out.push(0xFF);
    out.push(0xFF);
    out.push(0x0C);
    out.push(0xFE);
    out.push(0xFF);
    out.push(0xFF);
    push_le(&mut out, first);
    push_le(&mut out, blocks);
    push_zeros(&mut out, 48);
    out.push(0x55);
    out.push(0xAA);
    assert(out@ =~= table_block(boot_entry(first, blocks)));
    out
}

fn clamp(n: u64) -> (r: u32)
    ensures
        r == clamped(n as int),
{
    if n > 0xFFFF_FFFF {
        0xFFFF_FFFF
    } else {
        n as u32
    }
}

/// How an image of `size` bytes is laid out.
pub fn write_image(size: u64, scheme: PartScheme) -> (r: Result<Layout, Error>)
    ensures
        match r {
            Ok(l) => layout(size, scheme) == Ok::<LayoutView, Seq<char>>(l@),
            Err(e) => layout(size, scheme) == Err::<LayoutView, Seq<char>>(e.message@),
        },
{
    match scheme {
        PartScheme::Gpt => {
            if size < EFI_SIZE + GPT_OVERHEAD {
                let mut message = "image size ".to_owned();
                push_dec(&mut message, size);
                message.append(" too small (need at least ");
                push_dec(&mut message, EFI_SIZE + GPT_OVERHEAD);
                message.append(" bytes)");
                return Err(Error { message });
            }
            let blocks = clamp(size / LB - 1);
            let lba0 = protective_mbr(blocks);
            Ok(Layout::Gpt { lba0, partition: efi_partition() })
        },
        PartScheme::Mbr => {
            if size <= (START_LBA + 2048) * LB {
                return Err(Error { message: "image too small".to_owned() });
            }
            let blocks = clamp(size / LB - START_LBA);
            let lba0 = boot_block(2048, blocks);
            let start: u64 = START_LBA * LB;
            let end: u64 = (START_LBA + blocks as u64) * LB;
            Ok(Layout::Mbr { lba0, start, end })
        },
    }
}

/// The bytes that a partition takes, from its first block to its last.
pub fn partition_bytes(first_lba: u64, last_lba: u64) -> (r: (u64, u64))
    requires
        first_lba <= last_lba,
        (last_lba + 1) * LB <= u64::MAX,
    ensures
        r.0 == first_lba * LB,
        r.1 == (last_lba + 1) * LB,
{
    (first_lba * LB, (last_lba + 1) * LB)
}

/// The label of the FAT32 file system, padded to 11 bytes.
pub fn volume_label(scheme: PartScheme) -> (r: &'static str)
    ensures
        r@ == match scheme {
            PartScheme::Gpt => "EFI        "@,
            PartScheme::Mbr => "BOOT       "@,
        },
{
    match scheme {
        PartScheme::Gpt => "EFI        ",
        PartScheme::Mbr => "BOOT       ",
    }
}

/// Whether a tree holds no symbolic link.
pub open spec fn resolved(entries: Seq<Named>) -> bool {
    forall|i: int|
        0 <= i < crate::imager::tree::items(Seq::empty(), entries).len() ==> !((
        #[trigger] crate::imager::tree::items(Seq::empty(), entries)[i]) is Link)
}

/// What is to be created in the file system of an image, in order: directories
/// before what is in them. FAT has no symbolic links: those in the tree have
/// been followed.
pub fn copy_tree<'a>(staging: &'a Vec<Named>) -> (r: Vec<Item<'a>>)
    requires
        resolved(staging@),
    ensures
        crate::imager::tree::item_views(r@) == crate::imager::tree::items(
            Seq::empty(),
            staging@,
        ),
        forall|i: int| 0 <= i < r@.len() ==> !((#[trigger] r@[i]) is Link),
{
    assert(""@ =~= Seq::<char>::empty()) by {
        reveal_strlit("");
    }
    let r = flatten("", staging);
    proof {
        let views = crate::imager::tree::item_views(r@);
        assert forall|i: int| 0 <= i < r@.len() implies !((#[trigger] r@[i]) is Link) by {
            assert(views[i] == r@[i]@);
        }
    }
    r
}

proof fn lemma_le(n: u32)
    ensures
        le_bytes(n).len() == 4,
        le_value(le_bytes(n)) == n,
{
    assert(n == n % 256 + 256 * (n / 256 % 256) + 65536 * (n / 65536 % 256) + 16777216 * (n
        / 16777216)) by (bit_vector);
}

/// The partition of an MBR image lies within the image, and its table says
/// where: its entry is bootable, of type FAT32, and its first block and its
/// number of blocks are those of the bytes that it takes.
pub proof fn the_mbr_names_its_partition(size: u64)
    requires
        layout(size, PartScheme::Mbr) is Ok,
    ensures
        ({
            let l = layout(size, PartScheme::Mbr)->Ok_0;
            let (b, start, end) = (l->Mbr_lba0, l->Mbr_start, l->Mbr_end);
            &&& l is Mbr
            &&& b.len() == 512
            &&& b[446] == 0x80
            &&& b[450] == 0x0C
            &&& le_value(b.subrange(454, 458)) * LB == start
            &&& (le_value(b.subrange(454, 458)) + le_value(b.subrange(458, 462))) * LB == end
            &&& b[510] == 0x55 && b[511] == 0xAA
            &&& start < end <= size
        }),
{
    let blocks = clamped(size / LB - START_LBA);
    let b = table_block(boot_entry(START_LBA as u32, blocks));
    lemma_le(START_LBA as u32);
    lemma_le(blocks);
    assert(b.subrange(454, 458) =~= le_bytes(START_LBA as u32));
    assert(b.subrange(458, 462) =~= le_bytes(blocks));
}

/// The first block of a GPT image is a protective MBR: one entry of the type
/// that stands for a GPT, from block 1 to the end of the image. The GPT has the
/// EFI partition, and there is room for it.
pub proof fn a_gpt_is_protected(size: u64)
    requires
        layout(size, PartScheme::Gpt) is Ok,
    ensures
        ({
            let l = layout(size, PartScheme::Gpt)->Ok_0;
            let b = l->Gpt_lba0;
            &&& l is Gpt
            &&& b.len() == 512
            &&& b[450] == 0xEE
            &&& le_value(b.subrange(454, 458)) == 1
            &&& size / LB <= u32::MAX ==> le_value(b.subrange(458, 462)) == size / LB - 1
            &&& b[510] == 0x55 && b[511] == 0xAA
            &&& l->partition == efi_plan()
            &&& l->partition.size_bytes + GPT_OVERHEAD <= size
        }),
{
    let blocks = clamped(size / LB - 1);
    let b = table_block(protective_entry(blocks));
    lemma_le(1);
    lemma_le(blocks);
    assert(b.subrange(454, 458) =~= le_bytes(1));
    assert(b.subrange(458, 462) =~= le_bytes(blocks));
}

/// The partition of a GPT image is the first of those that a node is provisioned
/// with, so laying a disk out afresh reproduces it.
pub proof fn the_image_begins_the_layout_of_a_node()
    ensures
        efi_plan() == crate::controllers::block::provision::layout()[0],
{
}

/// An image is refused if and only if it is too small for what goes into it: with
/// a GPT, 512 MiB for the boot partition and 4 MiB for the tables; with an MBR,
/// 2 MiB.
pub proof fn an_image_is_refused_only_where_it_is_too_small(size: u64)
    ensures
        layout(size, PartScheme::Gpt) is Ok <==> size >= 516 * 1024 * 1024,
        layout(size, PartScheme::Mbr) is Ok <==> size > 2 * 1024 * 1024,
{
}

/// The partition of an MBR image begins at 1 MiB and takes all the whole blocks
/// of the image behind it, as far as a table can count them.
pub proof fn the_partition_takes_the_whole_image(size: u64)
    requires
        size > 2 * 1024 * 1024,
        size / 512 - 2048 <= u32::MAX,
    ensures
        layout(size, PartScheme::Mbr) matches Ok(LayoutView::Mbr { lba0, start, end }) && {
            &&& start == 1024 * 1024
            &&& end == size - size % 512
        },
{
}

/// The one partition of a GPT image is an EFI system partition called `EFI`, of
/// 512 MiB and formatted as FAT.
pub proof fn the_boot_partition_is_an_efi_partition(size: u64)
    requires
        size >= 516 * 1024 * 1024,
    ensures
        layout(size, PartScheme::Gpt) matches Ok(LayoutView::Gpt { lba0, partition }) && {
            &&& partition.label == "EFI"@
            &&& partition.part_type is EfiSystem
            &&& partition.fs is Vfat
            &&& partition.size_bytes == 512 * 1024 * 1024
        },
{
}

/// Every file of the staging tree goes into the image, with its content.
pub proof fn every_staged_file_is_copied(
    staging: Seq<Named>,
    path: Seq<Seq<char>>,
    mode: u32,
    data: Vec<u8>,
)
    requires
        staging.len() <= usize::MAX,
        crate::imager::tree::is_named(staging),
        crate::imager::tree::stands_at(
            staging,
            path,
            crate::imager::tree::Node::File { mode, data },
        ),
    ensures
        crate::imager::tree::items(Seq::empty(), staging).contains(
            crate::imager::tree::ItemView::File {
                path: crate::text::join(path, "/"@),
                mode,
                data: data@,
            },
        ),
{
    crate::imager::tree::everything_is_listed(
        Seq::empty(),
        staging,
        path,
        crate::imager::tree::Node::File { mode, data },
    );
}

/// An image with more blocks than a table can count is covered as far as it can
/// count, in either scheme.
pub proof fn a_large_image_is_covered_as_far_as_can_be_counted(size: u64)
    requires
        size / 512 - 2048 > u32::MAX,
    ensures
        layout(size, PartScheme::Gpt) matches Ok(LayoutView::Gpt { lba0, partition }) && le_value(
            lba0.subrange(458, 462),
        ) == u32::MAX,
        layout(size, PartScheme::Mbr) matches Ok(LayoutView::Mbr { lba0, start, end }) && end
            == start + u32::MAX * 512,
{
    let b = table_block(protective_entry(u32::MAX));
    lemma_le(1);
    lemma_le(u32::MAX);
    assert(clamped(size / LB - 1) == u32::MAX);
    assert(b.subrange(458, 462) =~= le_bytes(u32::MAX));
}

/// What is shown for an image that is too small gives its size and the least
/// that is needed, the partition and the two tables, in bytes.
pub proof fn a_small_image_is_told_what_it_lacks(size: u64)
    ensures
        crate::text::shows(small_message(size), "image size "@ + crate::text::dec(size as nat)),
        crate::text::shows(
            small_message(size),
            crate::text::dec((EFI_SIZE + GPT_OVERHEAD) as nat) + " bytes)"@,
        ),
{
    let none = Seq::<char>::empty();
    let n = crate::text::dec(size as nat);
    let least = crate::text::dec((EFI_SIZE + GPT_OVERHEAD) as nat);
    let mid = " too small (need at least "@;
    let m = small_message(size);
    crate::text::lemma_shows(m, none, "image size "@ + n, mid + (least + " bytes)"@));
    crate::text::lemma_shows(m, "image size "@ + n + mid, least + " bytes)"@, none);
}

} // verus!
