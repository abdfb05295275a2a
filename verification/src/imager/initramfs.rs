//! The initramfs: a root filesystem, the init program, a console device and the
//! list of modules to be loaded early, as a gzipped cpio archive.

use crate::imager::codec::gzip;
use crate::imager::cpio::CpioWriter;
use crate::imager::tree::{flatten, Item, Named};
use crate::imager::Error;
use crate::text::same;
use vstd::prelude::*;
use vstd::string::*;
use vstd::utf8::*;

verus! {

/// Directories that every initramfs has.
pub const BASE_DIRS: [&'static str; 11] = [
    "dev",
    "proc",
    "sys",
    "run",
    "tmp",
    "etc",
    "etc/machined",
    "boot",
    "system",
    "system/state",
    "var",
];

/// The entries for `BASE_DIRS`.
pub open spec fn base_entries() -> Seq<crate::imager::cpio::Entry> {
    Seq::new(11, |i: int| crate::imager::cpio::dir_entry(BASE_DIRS@[i]@, 0o755))
}

/// The list of modules to be loaded, one absolute path to a line.
pub open spec fn modules_load(module_paths: Seq<Seq<char>>, kver: Seq<char>) -> Seq<char>
    decreases module_paths.len(),
{
    if module_paths.len() == 0 {
        Seq::empty()
    } else {
        modules_load(module_paths.drop_last(), kver) + "/lib/modules/"@ + kver + "/"@
            + module_paths.last() + "\n"@
    }
}

/// The entry for a thing of the root filesystem.
pub open spec fn entry_of(item: crate::imager::tree::ItemView) -> crate::imager::cpio::Entry {
    match item {
        crate::imager::tree::ItemView::Link { path, target } => crate::imager::cpio::symlink_entry(
            path,
            target,
        ),
        crate::imager::tree::ItemView::Dir { path } => crate::imager::cpio::dir_entry(path, 0o755),
        crate::imager::tree::ItemView::File { path, mode, data } => crate::imager::cpio::file_entry(
            path,
            mode & 0o7777,
            data,
        ),
    }
}

/// The entries for things of the root filesystem.
pub open spec fn entries_of(items: Seq<crate::imager::tree::ItemView>) -> Seq<
    crate::imager::cpio::Entry,
> {
    Seq::new(items.len(), |i: int| entry_of(items[i]))
}

/// All entries of an initramfs, in order.
pub open spec fn entries(
    items: Seq<crate::imager::tree::ItemView>,
    machined: Seq<u8>,
    module_paths: Seq<Seq<char>>,
    kver: Seq<char>,
    image_id: Seq<char>,
) -> Seq<crate::imager::cpio::Entry> {
    base_entries() + seq![
        crate::imager::cpio::device_entry("dev/console"@, 0o600, 5, 1),
        crate::imager::cpio::file_entry("init"@, 0o755, machined),
        crate::imager::cpio::file_entry(
            "etc/machined/modules.load"@,
            0o644,
            encode_utf8(modules_load(module_paths, kver)),
        ),
        crate::imager::cpio::file_entry("etc/machined/image-id"@, 0o644, encode_utf8(image_id)),
    ] + entries_of(items)
}

/// The archive that holds `entries`.
pub open spec fn archive(entries: Seq<crate::imager::cpio::Entry>) -> Seq<u8> {
    crate::imager::cpio::encode_all(1, entries) + crate::imager::cpio::encode(
        entries.len() + 1,
        crate::imager::cpio::trailer(),
    )
}

/// Whether the root filesystem has something called `init` at its top.
pub open spec fn has_init(rootfs: Seq<Named>) -> bool {
    exists|i: int| 0 <= i < rootfs.len() && (#[trigger] rootfs[i]).name@ == "init"@
}

/// What is shown for a root filesystem with an `init` of its own.
pub open spec fn init_message() -> Seq<char> {
    "rootfs contains a top-level `init`, which collides with machined-as-/init"@
}

proof fn lemma_encode_push(
    done: Seq<crate::imager::cpio::Entry>,
    e: crate::imager::cpio::Entry,
)
    ensures
        crate::imager::cpio::encode_all(1, done.push(e)) == crate::imager::cpio::encode_all(1, done)
            + crate::imager::cpio::encode(done.len() + 1, e),
{
    assert(done.push(e).drop_last() =~= done);
}

/// The list of modules to be loaded.
pub fn module_list(module_paths: &Vec<String>, kver: &str) -> (r: String)
    ensures
        r@ == modules_load(crate::text::texts(module_paths@), kver@),
{
    let ghost all = crate::text::texts(module_paths@);
    let mut out = String::new();
    let mut i: usize = 0;
    assert(out@ =~= modules_load(all.take(0), kver@));
    while i < module_paths.len()
        invariant
            i <= module_paths@.len(),
            all == crate::text::texts(module_paths@),
            out@ == modules_load(all.take(i as int), kver@),
        decreases module_paths@.len() - i,
    {
        out.append("/lib/modules/");
        out.append(kver);
        out.append("/");
        out.append(module_paths[i].as_str());
        out.append("\n");
        i += 1;
        assert(all.take(i as int).drop_last() =~= all.take(i - 1));
        assert(all.take(i as int).last() == module_paths@[i - 1]@);
    }
    assert(all.take(i as int) =~= all);
    out
}

/// Whether the root filesystem has something called `init` at its top.
fn find_init(rootfs: &Vec<Named>) -> (r: bool)
    ensures
        r == has_init(rootfs@),
{
    let mut i: usize = 0;
    while i < rootfs.len()
        invariant
            i <= rootfs@.len(),
            forall|k: int| 0 <= k < i ==> (#[trigger] rootfs@[k]).name@ != "init"@,
        decreases rootfs@.len() - i,
    {
        if same(rootfs[i].name.as_str(), "init") {
            assert(rootfs@[i as int].name@ == "init"@);
            return true;
        }
        i += 1;
    }
    false
}

/// The archive of an initramfs, uncompressed.
pub fn build_archive(
    rootfs: &Vec<Named>,
    machined: &[u8],
    module_paths: &Vec<String>,
    kver: &str,
    image_id: &str,
) -> (r: Result<Vec<u8>, Error>)
    requires
        crate::imager::tree::items(Seq::empty(), rootfs@).len() + 16 < u32::MAX,
    ensures
        match r {
            Ok(bytes) => !has_init(rootfs@) && bytes@ == archive(
                entries(
                    crate::imager::tree::items(Seq::empty(), rootfs@),
                    machined@,
                    crate::text::texts(module_paths@),
                    kver@,
                    image_id@,
                ),
            ),
            Err(e) => has_init(rootfs@) && e.message@ == init_message(),
        },
{
    if find_init(rootfs) {
        let message =
            "rootfs contains a top-level `init`, which collides with machined-as-/init".to_owned();
        return Err(Error { message });
    }
    let mut w = CpioWriter::new();
    let ghost mut done: Seq<crate::imager::cpio::Entry> = Seq::empty();
    let mut d: usize = 0;
    while d < 11
        invariant
            d <= 11,
            done == base_entries().take(d as int),
            w.wf(),
            w.next_ino() == done.len() + 1,
            w.bytes() == crate::imager::cpio::encode_all(1, done),
        decreases 11 - d,
    {
        w.dir(BASE_DIRS[d], 0o755);
        d += 1;
        proof {
            let e = crate::imager::cpio::dir_entry(BASE_DIRS@[d - 1]@, 0o755);
            lemma_encode_push(done, e);
            done = done.push(e);
            assert(done =~= base_entries().take(d as int));
        }
    }
    let ghost items = crate::imager::tree::items(Seq::empty(), rootfs@);
    let ghost all = entries(
        items,
        machined@,
        crate::text::texts(module_paths@),
        kver@,
        image_id@,
    );
    w.char_device("dev/console", 0o600, 5, 1);
    w.file("init", 0o755, machined);
    let modules_load = module_list(module_paths, kver);
    w.file("etc/machined/modules.load", 0o644, modules_load.as_str().as_bytes());
    w.file("etc/machined/image-id", 0o644, image_id.as_bytes());
    proof {
        assert(all[11] == crate::imager::cpio::device_entry("dev/console"@, 0o600, 5, 1));
        lemma_encode_push(done, all[11]);
        lemma_encode_push(done.push(all[11]), all[12]);
        lemma_encode_push(done.push(all[11]).push(all[12]), all[13]);
        lemma_encode_push(done.push(all[11]).push(all[12]).push(all[13]), all[14]);
        done = done.push(all[11]).push(all[12]).push(all[13]).push(all[14]);
        assert(done =~= all.take(15));
    }
    assert(""@ =~= Seq::<char>::empty()) by {
        reveal_strlit("");
    }
    let things = flatten("", rootfs);
    let mut i: usize = 0;
    while i < things.len()
        invariant
            i <= things@.len(),
            things@.len() == items.len(),
            items.len() + 16 < u32::MAX,
            crate::imager::tree::item_views(things@) == items,
            all.len() == items.len() + 15,
            forall|k: int| 0 <= k < items.len() ==> all[k + 15] == entry_of(#[trigger] items[k]),
            done == all.take(i + 15),
            w.wf(),
            w.next_ino() == done.len() + 1,
            w.bytes() == crate::imager::cpio::encode_all(1, done),
        decreases things@.len() - i,
    {
        assert(items[i as int] == things@[i as int]@);
        match &things[i] {
            Item::Link { path, target } => {
                w.symlink(path.as_str(), target.as_str());
            },
            Item::Dir { path } => {
                w.dir(path.as_str(), 0o755);
            },
            Item::File { path, mode, data } => {
                w.file(path.as_str(), *mode & 0o7777, data.as_slice());
            },
        }
        i += 1;
        proof {
            let e = all[i + 14];
            assert(e == entry_of(items[i - 1]));
            lemma_encode_push(done, e);
            done = done.push(e);
            assert(done =~= all.take(i + 15));
        }
    }
    assert(all.take(i + 15) =~= all);
    Ok(w.finish())
}

/// The initramfs: the archive of `build_archive`, gzipped. It is refused if and
/// only if the root filesystem has an `init` of its own.
pub fn build_initramfs(
    rootfs: &Vec<Named>,
    machined: &[u8],
    module_paths: &Vec<String>,
    kver: &str,
    image_id: &str,
) -> (r: Result<Vec<u8>, Error>)
    requires
        crate::imager::tree::items(Seq::empty(), rootfs@).len() + 16 < u32::MAX,
    ensures
        match r {
            Ok(bytes) => {
                let plain = archive(
                    entries(
                        crate::imager::tree::items(Seq::empty(), rootfs@),
                        machined@,
                        crate::text::texts(module_paths@),
                        kver@,
                        image_id@,
                    ),
                );
                &&& !has_init(rootfs@)
                &&& bytes@ == crate::imager::codec::gzip_of(plain)
                &&& crate::imager::codec::gunzip_of(bytes@) == Some(plain)
            },
            Err(e) => has_init(rootfs@) && e.message@ == init_message(),
        },
{
    let plain = build_archive(rootfs, machined, module_paths, kver, image_id)?;
    match gzip(plain.as_slice()) {
        Ok(bytes) => Ok(bytes),
        Err(message) => Err(Error { message }),
    }
}

/// An initramfs is deterministic: the order in which directories list their
/// entries does not change a byte of it.
pub proof fn an_initramfs_is_deterministic(
    a: Seq<Named>,
    b: Seq<Named>,
    machined: Seq<u8>,
    module_paths: Seq<Seq<char>>,
    kver: Seq<char>,
    image_id: Seq<char>,
)
    requires
        crate::imager::tree::same_dir(a, b),
        a.len() <= usize::MAX,
    ensures
        has_init(a) == has_init(b),
        archive(
            entries(
                crate::imager::tree::items(Seq::empty(), a),
                machined,
                module_paths,
                kver,
                image_id,
            ),
        ) == archive(
            entries(
                crate::imager::tree::items(Seq::empty(), b),
                machined,
                module_paths,
                kver,
                image_id,
            ),
        ),
{
    crate::imager::tree::listing_order_does_not_matter(Seq::empty(), a, b);
    if has_init(a) {
        let i = choose|i: int| 0 <= i < a.len() && (#[trigger] a[i]).name@ == "init"@;
        assert(crate::imager::tree::holds(b, a[i]));
    }
    if has_init(b) {
        let i = choose|i: int| 0 <= i < b.len() && (#[trigger] b[i]).name@ == "init"@;
        crate::imager::tree::lemma_same_dir_back(a, b, i);
    }
}

/// Reading an initramfs gives back its entries: the base directories, the
/// console, the init program, the list of modules, the image's name and the
/// root filesystem. (Entries that do not fit the format are left out: a number
/// too large for its field, or the name that ends an archive.)
pub proof fn an_initramfs_reads_back(
    items: Seq<crate::imager::tree::ItemView>,
    machined: Seq<u8>,
    module_paths: Seq<Seq<char>>,
    kver: Seq<char>,
    image_id: Seq<char>,
)
    requires
        crate::imager::cpio::are_plain(1, entries(items, machined, module_paths, kver, image_id)),
        items.len() + 16 < u32::MAX,
    ensures
        crate::imager::cpio::read_archive(
            archive(entries(items, machined, module_paths, kver, image_id)),
        ) == Some(entries(items, machined, module_paths, kver, image_id)),
{
    crate::imager::cpio::reading_gives_back_the_archive(
        entries(items, machined, module_paths, kver, image_id),
    );
}

/// Whether a root filesystem can be put into an archive: everything in it has a
/// name, names and contents fit their fields, and nothing is called like the
/// entry that ends an archive.
pub open spec fn is_storable(rootfs: Seq<Named>) -> bool {
    forall|path: Seq<Seq<char>>, node: crate::imager::tree::Node| #[trigger]
        crate::imager::tree::stands_at(rootfs, path, node) ==> {
            let name = crate::text::join(path, "/"@);
            &&& path.last().len() > 0
            &&& encode_utf8(name).len() < 0xffff_ffff
            &&& name != "TRAILER!!!"@
            &&& node matches crate::imager::tree::Node::File { data, .. } ==> data@.len() < 0x1_0000_0000
            &&& node matches crate::imager::tree::Node::Link { target } ==> encode_utf8(target@).len() < 0x1_0000_0000
        }
}

/// The entries that are read back out of an initramfs.
pub open spec fn read_back(
    rootfs: Seq<Named>,
    machined: Seq<u8>,
    module_paths: Seq<Seq<char>>,
    kver: Seq<char>,
    image_id: Seq<char>,
) -> Option<Seq<crate::imager::cpio::Entry>> {
    crate::imager::cpio::read_archive(
        archive(
            entries(
                crate::imager::tree::items(Seq::empty(), rootfs),
                machined,
                module_paths,
                kver,
                image_id,
            ),
        ),
    )
}

/// What is put into an initramfs besides the root filesystem fits its fields,
/// and there are not too many entries to count.
pub open spec fn is_small(
    rootfs: Seq<Named>,
    machined: Seq<u8>,
    module_paths: Seq<Seq<char>>,
    kver: Seq<char>,
    image_id: Seq<char>,
) -> bool {
    &&& rootfs.len() <= usize::MAX
    &&& crate::imager::tree::items(Seq::empty(), rootfs).len() + 16 < u32::MAX
    &&& machined.len() < 0x1_0000_0000
    &&& encode_utf8(modules_load(module_paths, kver)).len() < 0x1_0000_0000
    &&& encode_utf8(image_id).len() < 0x1_0000_0000
}

proof fn lemma_ascii_name(name: Seq<char>)
    requires
        name.len() < 100,
        vstd::utf8::is_ascii_chars(name),
    ensures
        encode_utf8(name).len() < 100,
{
    is_ascii_chars_encode_utf8(name);
}

/// An entry can be told from the trailer and fits its fields.
spec fn is_fine(e: crate::imager::cpio::Entry) -> bool {
    &&& e.mode < 0x1_0000_0000
    &&& e.rmajor < 0x1_0000_0000
    &&& e.rminor < 0x1_0000_0000
    &&& e.data.len() < 0x1_0000_0000
    &&& e.name.len() + 1 < 0x1_0000_0000
    &&& e.name != crate::imager::cpio::trailer().name
}

proof fn lemma_is_fine(name: Seq<char>, e: crate::imager::cpio::Entry)
    requires
        e.name == encode_utf8(name),
        e.name.len() < 0xffff_ffff,
        name != "TRAILER!!!"@,
        e.mode < 0x1_0000_0000,
        e.rmajor < 0x1_0000_0000,
        e.rminor < 0x1_0000_0000,
        e.data.len() < 0x1_0000_0000,
    ensures
        is_fine(e),
{
    if e.name == crate::imager::cpio::trailer().name {
        crate::order::lemma_encode_injective(name, "TRAILER!!!"@);
    }
}

proof fn lemma_fixed_name(name: Seq<char>)
    requires
        name.len() < 100,
        name.len() > 0,
        name[0] != 'T',
        vstd::utf8::is_ascii_chars(name),
    ensures
        encode_utf8(name).len() < 0xffff_ffff,
        name != "TRAILER!!!"@,
{
    lemma_ascii_name(name);
    reveal_strlit("TRAILER!!!");
}

proof fn lemma_base_names(i: int)
    requires
        0 <= i < 11,
    ensures
        0 < BASE_DIRS@[i]@.len() < 100,
        BASE_DIRS@[i]@[0] != 'T',
        vstd::utf8::is_ascii_chars(BASE_DIRS@[i]@),
{
    reveal_strlit("dev");
    reveal_strlit("proc");
    reveal_strlit("sys");
    reveal_strlit("run");
    reveal_strlit("tmp");
    reveal_strlit("etc");
    reveal_strlit("etc/machined");
    reveal_strlit("boot");
    reveal_strlit("system");
    reveal_strlit("system/state");
    reveal_strlit("var");
    if i == 0 {
        assert(BASE_DIRS@[0]@ == "dev"@);
    } else if i == 1 {
        assert(BASE_DIRS@[1]@ == "proc"@);
    } else if i == 2 {
        assert(BASE_DIRS@[2]@ == "sys"@);
    } else if i == 3 {
        assert(BASE_DIRS@[3]@ == "run"@);
    } else if i == 4 {
        assert(BASE_DIRS@[4]@ == "tmp"@);
    } else if i == 5 {
        assert(BASE_DIRS@[5]@ == "etc"@);
    } else if i == 6 {
        assert(BASE_DIRS@[6]@ == "etc/machined"@);
    } else if i == 7 {
        assert(BASE_DIRS@[7]@ == "boot"@);
    } else if i == 8 {
        assert(BASE_DIRS@[8]@ == "system"@);
    } else if i == 9 {
        assert(BASE_DIRS@[9]@ == "system/state"@);
    } else {
        assert(BASE_DIRS@[10]@ == "var"@);
    }
}

proof fn lemma_items_are_fine(rootfs: Seq<Named>, k: int)
    requires
        is_storable(rootfs),
        0 <= k < crate::imager::tree::items(Seq::empty(), rootfs).len(),
    ensures
        is_fine(entry_of(crate::imager::tree::items(Seq::empty(), rootfs)[k])),
{
    let items = crate::imager::tree::items(Seq::empty(), rootfs);
    crate::imager::tree::nothing_else_is_listed(Seq::empty(), rootfs, k);
    let (path, node) = choose|path: Seq<Seq<char>>, node: crate::imager::tree::Node| #[trigger]
        crate::imager::tree::stands_at(rootfs, path, node) && items[k]
            == crate::imager::tree::listed(
            crate::imager::tree::path_below(Seq::empty(), path),
            node,
        );
    let name = crate::text::join(path, "/"@);
    assert(crate::imager::tree::path_below(Seq::empty(), path) == name);
    lemma_is_fine(name, entry_of(items[k]));
}

proof fn lemma_fixed_is_fine(e: crate::imager::cpio::Entry, name: Seq<char>)
    requires
        e.name == encode_utf8(name),
        name == "dev/console"@ || name == "init"@ || name == "etc/machined/modules.load"@ || name
            == "etc/machined/image-id"@,
        e.mode < 0x1_0000_0000,
        e.rmajor < 0x1_0000_0000,
        e.rminor < 0x1_0000_0000,
        e.data.len() < 0x1_0000_0000,
    ensures
        is_fine(e),
{
    reveal_strlit("dev/console");
    reveal_strlit("init");
    reveal_strlit("etc/machined/modules.load");
    reveal_strlit("etc/machined/image-id");
    lemma_fixed_name(name);
    lemma_is_fine(name, e);
}

proof fn lemma_base_is_fine(i: int)
    requires
        0 <= i < 11,
    ensures
        is_fine(crate::imager::cpio::dir_entry(BASE_DIRS@[i]@, 0o755)),
{
    lemma_base_names(i);
    lemma_fixed_name(BASE_DIRS@[i]@);
    lemma_is_fine(BASE_DIRS@[i]@, crate::imager::cpio::dir_entry(BASE_DIRS@[i]@, 0o755));
}

proof fn lemma_one_is_fine(
    rootfs: Seq<Named>,
    machined: Seq<u8>,
    module_paths: Seq<Seq<char>>,
    kver: Seq<char>,
    image_id: Seq<char>,
    i: int,
)
    requires
        is_storable(rootfs),
        is_small(rootfs, machined, module_paths, kver, image_id),
        0 <= i < crate::imager::tree::items(Seq::empty(), rootfs).len() + 15,
    ensures
        is_fine(
            entries(
                crate::imager::tree::items(Seq::empty(), rootfs),
                machined,
                module_paths,
                kver,
                image_id,
            )[i],
        ),
{
    let items = crate::imager::tree::items(Seq::empty(), rootfs);
    let all = entries(items, machined, module_paths, kver, image_id);
    if i < 11 {
        lemma_base_is_fine(i);
        assert(all[i] == base_entries()[i]);
    } else if i == 11 {
        lemma_fixed_is_fine(all[i], "dev/console"@);
    } else if i == 12 {
        lemma_fixed_is_fine(all[i], "init"@);
    } else if i == 13 {
        lemma_fixed_is_fine(all[i], "etc/machined/modules.load"@);
    } else if i == 14 {
        lemma_fixed_is_fine(all[i], "etc/machined/image-id"@);
    } else {
        lemma_items_are_fine(rootfs, i - 15);
        assert(all[i] == entry_of(items[i - 15]));
    }
}

proof fn lemma_all_are_fine(
    rootfs: Seq<Named>,
    machined: Seq<u8>,
    module_paths: Seq<Seq<char>>,
    kver: Seq<char>,
    image_id: Seq<char>,
)
    requires
        is_storable(rootfs),
        is_small(rootfs, machined, module_paths, kver, image_id),
    ensures
        ({
            let all = entries(
                crate::imager::tree::items(Seq::empty(), rootfs),
                machined,
                module_paths,
                kver,
                image_id,
            );
            &&& read_back(rootfs, machined, module_paths, kver, image_id) == Some(all)
            &&& all.len() == crate::imager::tree::items(Seq::empty(), rootfs).len() + 15
        }),
{
    let items = crate::imager::tree::items(Seq::empty(), rootfs);
    let all = entries(items, machined, module_paths, kver, image_id);
    assert forall|i: int| 0 <= i < all.len() implies is_fine(#[trigger] all[i]) by {
        lemma_one_is_fine(rootfs, machined, module_paths, kver, image_id, i);
    }
    assert forall|i: int| 0 <= i < all.len() implies crate::imager::cpio::fits(
        (1 + i) as nat,
        #[trigger] all[i],
    ) by {
        assert(is_fine(all[i]));
    }
    assert forall|i: int| 0 <= i < all.len() implies (#[trigger] all[i]).name
        != crate::imager::cpio::trailer().name by {
        assert(is_fine(all[i]));
    }
    an_initramfs_reads_back(items, machined, module_paths, kver, image_id);
}

proof fn lemma_thing_is_archived(
    rootfs: Seq<Named>,
    machined: Seq<u8>,
    module_paths: Seq<Seq<char>>,
    kver: Seq<char>,
    image_id: Seq<char>,
    path: Seq<Seq<char>>,
    node: crate::imager::tree::Node,
)
    requires
        is_storable(rootfs),
        is_small(rootfs, machined, module_paths, kver, image_id),
        crate::imager::tree::stands_at(rootfs, path, node),
    ensures
        read_back(rootfs, machined, module_paths, kver, image_id) is Some,
        read_back(rootfs, machined, module_paths, kver, image_id)->0.contains(
            entry_of(crate::imager::tree::listed(crate::text::join(path, "/"@), node)),
        ),
{
    let items = crate::imager::tree::items(Seq::empty(), rootfs);
    let all = entries(items, machined, module_paths, kver, image_id);
    lemma_all_are_fine(rootfs, machined, module_paths, kver, image_id);
    crate::imager::tree::everything_is_listed(Seq::empty(), rootfs, path, node);
    let item = crate::imager::tree::listed(crate::text::join(path, "/"@), node);
    assert(items.contains(item));
    let k = choose|k: int| 0 <= k < items.len() && items[k] == item;
    assert(all[k + 15] == entry_of(items[k]));
}

/// Every file of the root filesystem is in the initramfs. Reading it back gives
/// an entry under the file's path whose content is the file's content, byte for
/// byte; the entry is that of a regular file and has the file's permissions.
pub proof fn every_file_is_in_the_initramfs(
    rootfs: Seq<Named>,
    machined: Seq<u8>,
    module_paths: Seq<Seq<char>>,
    kver: Seq<char>,
    image_id: Seq<char>,
    path: Seq<Seq<char>>,
    mode: u32,
    data: Vec<u8>,
)
    requires
        is_storable(rootfs),
        is_small(rootfs, machined, module_paths, kver, image_id),
        crate::imager::tree::stands_at(
            rootfs,
            path,
            crate::imager::tree::Node::File { mode, data },
        ),
    ensures
        ({
            let read = read_back(rootfs, machined, module_paths, kver, image_id);
            &&& read is Some
            &&& exists|k: int|
                0 <= k < read->0.len() && (#[trigger] read->0[k]).name == encode_utf8(
                    crate::text::join(path, "/"@),
                ) && read->0[k].data == data@ && read->0[k].mode == 0o100000 + mode % 0o10000
        }),
{
    let node = crate::imager::tree::Node::File { mode, data };
    lemma_thing_is_archived(rootfs, machined, module_paths, kver, image_id, path, node);
    let e = entry_of(crate::imager::tree::listed(crate::text::join(path, "/"@), node));
    let all = read_back(rootfs, machined, module_paths, kver, image_id)->0;
    let k = choose|k: int| 0 <= k < all.len() && all[k] == e;
    assert(0o100000u32 | (mode & 0o7777u32) == 0o100000 + mode % 0o10000) by (bit_vector);
    assert(all[k].data == data@);
}

/// Every symbolic link of the root filesystem is in the initramfs, with its
/// target.
pub proof fn every_link_is_in_the_initramfs(
    rootfs: Seq<Named>,
    machined: Seq<u8>,
    module_paths: Seq<Seq<char>>,
    kver: Seq<char>,
    image_id: Seq<char>,
    path: Seq<Seq<char>>,
    target: String,
)
    requires
        is_storable(rootfs),
        is_small(rootfs, machined, module_paths, kver, image_id),
        crate::imager::tree::stands_at(rootfs, path, crate::imager::tree::Node::Link { target }),
    ensures
        ({
            let read = read_back(rootfs, machined, module_paths, kver, image_id);
            &&& read is Some
            &&& exists|k: int|
                0 <= k < read->0.len() && (#[trigger] read->0[k]).name == encode_utf8(
                    crate::text::join(path, "/"@),
                ) && read->0[k].data == encode_utf8(target@) && read->0[k].mode == 0o120777
        }),
{
    let node = crate::imager::tree::Node::Link { target };
    lemma_thing_is_archived(rootfs, machined, module_paths, kver, image_id, path, node);
    let e = entry_of(crate::imager::tree::listed(crate::text::join(path, "/"@), node));
    let all = read_back(rootfs, machined, module_paths, kver, image_id)->0;
    let k = choose|k: int| 0 <= k < all.len() && all[k] == e;
    assert(0o120000u32 | 0o777u32 == 0o120777) by (bit_vector);
    assert(all[k].data == encode_utf8(target@));
}

/// Every directory of the root filesystem is in the initramfs.
pub proof fn every_directory_is_in_the_initramfs(
    rootfs: Seq<Named>,
    machined: Seq<u8>,
    module_paths: Seq<Seq<char>>,
    kver: Seq<char>,
    image_id: Seq<char>,
    path: Seq<Seq<char>>,
    inner: Vec<Named>,
)
    requires
        is_storable(rootfs),
        is_small(rootfs, machined, module_paths, kver, image_id),
        crate::imager::tree::stands_at(
            rootfs,
            path,
            crate::imager::tree::Node::Dir { entries: inner },
        ),
    ensures
        ({
            let read = read_back(rootfs, machined, module_paths, kver, image_id);
            &&& read is Some
            &&& exists|k: int|
                0 <= k < read->0.len() && (#[trigger] read->0[k]).name == encode_utf8(
                    crate::text::join(path, "/"@),
                ) && read->0[k].mode == 0o40755
        }),
{
    let node = crate::imager::tree::Node::Dir { entries: inner };
    lemma_thing_is_archived(rootfs, machined, module_paths, kver, image_id, path, node);
    let e = entry_of(crate::imager::tree::listed(crate::text::join(path, "/"@), node));
    let all = read_back(rootfs, machined, module_paths, kver, image_id)->0;
    let k = choose|k: int| 0 <= k < all.len() && all[k] == e;
    assert(0o040000u32 | 0o755u32 == 0o40755) by (bit_vector);
    assert(all[k].mode == 0o40755);
}

/// What the machine boots with is in the initramfs whatever its root filesystem
/// is: the init program, executable, with exactly the bytes that were given; the
/// console device; and the list of modules and the image's name for the program
/// to read.
pub proof fn what_the_machine_boots_with_is_in_the_initramfs(
    rootfs: Seq<Named>,
    machined: Seq<u8>,
    module_paths: Seq<Seq<char>>,
    kver: Seq<char>,
    image_id: Seq<char>,
)
    requires
        is_storable(rootfs),
        is_small(rootfs, machined, module_paths, kver, image_id),
    ensures
        ({
            let read = read_back(rootfs, machined, module_paths, kver, image_id);
            &&& read is Some
            &&& read->0.contains(
                crate::imager::cpio::Entry {
                    name: encode_utf8("init"@),
                    mode: 0o100755,
                    rmajor: 0,
                    rminor: 0,
                    data: machined,
                },
            )
            &&& read->0.contains(
                crate::imager::cpio::Entry {
                    name: encode_utf8("dev/console"@),
                    mode: 0o20600,
                    rmajor: 5,
                    rminor: 1,
                    data: Seq::empty(),
                },
            )
            &&& read->0.contains(
                crate::imager::cpio::Entry {
                    name: encode_utf8("etc/machined/image-id"@),
                    mode: 0o100644,
                    rmajor: 0,
                    rminor: 0,
                    data: encode_utf8(image_id),
                },
            )
            &&& read->0.contains(
                crate::imager::cpio::Entry {
                    name: encode_utf8("etc/machined/modules.load"@),
                    mode: 0o100644,
                    rmajor: 0,
                    rminor: 0,
                    data: encode_utf8(modules_load(module_paths, kver)),
                },
            )
        }),
{
    lemma_all_are_fine(rootfs, machined, module_paths, kver, image_id);
    let items = crate::imager::tree::items(Seq::empty(), rootfs);
    let all = entries(items, machined, module_paths, kver, image_id);
    assert(0o100000u32 | 0o755u32 == 0o100755) by (bit_vector);
    assert(0o020000u32 | 0o600u32 == 0o20600) by (bit_vector);
    assert(0o100000u32 | 0o644u32 == 0o100644) by (bit_vector);
    let init = crate::imager::cpio::Entry {
        name: encode_utf8("init"@),
        mode: 0o100755,
        rmajor: 0,
        rminor: 0,
        data: machined,
    };
    assert(all[12] == init);
    assert(all[11] == (crate::imager::cpio::Entry {
        name: encode_utf8("dev/console"@),
        mode: 0o20600,
        rmajor: 5,
        rminor: 1,
        data: Seq::empty(),
    }));
    assert(all[13] == (crate::imager::cpio::Entry {
        name: encode_utf8("etc/machined/modules.load"@),
        mode: 0o100644,
        rmajor: 0,
        rminor: 0,
        data: encode_utf8(modules_load(module_paths, kver)),
    }));
    assert(all[14] == (crate::imager::cpio::Entry {
        name: encode_utf8("etc/machined/image-id"@),
        mode: 0o100644,
        rmajor: 0,
        rminor: 0,
        data: encode_utf8(image_id),
    }));
}

/// The mount points are there: an initramfs has a directory for each.
pub proof fn the_mount_points_are_in_the_initramfs(
    rootfs: Seq<Named>,
    machined: Seq<u8>,
    module_paths: Seq<Seq<char>>,
    kver: Seq<char>,
    image_id: Seq<char>,
    name: Seq<char>,
)
    requires
        is_storable(rootfs),
        is_small(rootfs, machined, module_paths, kver, image_id),
        name == "dev"@ || name == "proc"@ || name == "sys"@ || name == "run"@ || name == "tmp"@
            || name == "etc"@ || name == "etc/machined"@ || name == "boot"@ || name == "system"@
            || name == "system/state"@ || name == "var"@,
    ensures
        ({
            let read = read_back(rootfs, machined, module_paths, kver, image_id);
            &&& read is Some
            &&& exists|k: int|
                0 <= k < read->0.len() && (#[trigger] read->0[k]).name == encode_utf8(name)
                    && read->0[k].mode == 0o40755
        }),
{
    lemma_all_are_fine(rootfs, machined, module_paths, kver, image_id);
    let items = crate::imager::tree::items(Seq::empty(), rootfs);
    let all = entries(items, machined, module_paths, kver, image_id);
    assert(0o040000u32 | 0o755u32 == 0o40755) by (bit_vector);
    assert forall|i: int| 0 <= i < 11 implies (#[trigger] all[i]).name == encode_utf8(
        BASE_DIRS@[i]@,
    ) && all[i].mode == 0o40755 by {
        assert(all[i] == crate::imager::cpio::dir_entry(BASE_DIRS@[i]@, 0o755));
    }
    let k: int = if name == "dev"@ {
        0
    } else if name == "proc"@ {
        1
    } else if name == "sys"@ {
        2
    } else if name == "run"@ {
        3
    } else if name == "tmp"@ {
        4
    } else if name == "etc"@ {
        5
    } else if name == "etc/machined"@ {
        6
    } else if name == "boot"@ {
        7
    } else if name == "system"@ {
        8
    } else if name == "system/state"@ {
        9
    } else {
        10
    };
    assert(BASE_DIRS@[k]@ == name);
    assert(all[k].name == encode_utf8(name) && all[k].mode == 0o40755);
    assert(read_back(rootfs, machined, module_paths, kver, image_id)->0[k] == all[k]);
}

/// The lines of the list of modules.
pub open spec fn module_lines(module_paths: Seq<Seq<char>>, kver: Seq<char>) -> Seq<Seq<char>> {
    Seq::new(
        module_paths.len(),
        |i: int| "/lib/modules/"@ + kver + "/"@ + module_paths[i],
    )
}

proof fn lemma_modules_load(module_paths: Seq<Seq<char>>, kver: Seq<char>)
    ensures
        modules_load(module_paths, kver) == crate::text::join(
            module_lines(module_paths, kver).push(Seq::empty()),
            seq!['\n'],
        ),
    decreases module_paths.len(),
{
    reveal_strlit("\n");
    let none = Seq::<char>::empty();
    let sep = seq!['\n'];
    let lines = module_lines(module_paths, kver);
    let all = lines.push(none);
    if module_paths.len() == 0 {
        assert(all.len() == 1 && all[0] == none);
        assert(modules_load(module_paths, kver) =~= none);
    } else {
        let less = module_paths.drop_last();
        lemma_modules_load(less, kver);
        let before = module_lines(less, kver);
        assert(all.drop_last() =~= lines);
        assert(lines.drop_last() =~= before);
        assert(before.push(none).drop_last() =~= before);
        assert("\n"@ =~= sep);
        let last = lines.last();
        assert(crate::text::join(all, sep) =~= crate::text::join(lines, sep) + sep);
        if lines.len() == 1 {
            assert(lines[0] == last);
            assert(crate::text::join(lines, sep) == last);
            assert(before.push(none)[0] == none);
            assert(modules_load(less, kver) =~= none);
            assert(modules_load(module_paths, kver) =~= last + sep);
        } else {
            assert(crate::text::join(lines, sep) == crate::text::join(before, sep) + sep + last);
            assert(crate::text::join(before.push(none), sep) =~= crate::text::join(before, sep)
                + sep);
            assert(modules_load(module_paths, kver) =~= crate::text::join(before, sep) + sep + last
                + sep);
        }
    }
}

/// The list of modules has one line for each module, in the order in which they
/// are to be loaded: the module's absolute path.
pub proof fn every_module_has_its_line(module_paths: Seq<Seq<char>>, kver: Seq<char>)
    requires
        !kver.contains('\n'),
        forall|i: int| 0 <= i < module_paths.len() ==> !(#[trigger] module_paths[i]).contains('\n'),
    ensures
        ({
            let lines = crate::text::split(modules_load(module_paths, kver), '\n');
            &&& lines.len() == module_paths.len() + 1
            &&& forall|i: int|
                0 <= i < module_paths.len() ==> #[trigger] lines[i] == "/lib/modules/"@ + kver
                    + "/"@ + module_paths[i]
            &&& lines.last().len() == 0
        }),
{
    lemma_modules_load(module_paths, kver);
    let parts = module_lines(module_paths, kver).push(Seq::empty());
    reveal_strlit("/lib/modules/");
    reveal_strlit("/");
    assert forall|i: int| 0 <= i < parts.len() implies !(#[trigger] parts[i]).contains('\n') by {
        if i < module_paths.len() {
            let p = module_paths[i];
            let line = parts[i];
            assert(line == "/lib/modules/"@ + kver + "/"@ + p);
            assert forall|x: int| 0 <= x < line.len() implies line[x] != '\n' by {
                if x < 13 {
                    assert(line[x] == "/lib/modules/"@[x]);
                } else if x < 13 + kver.len() {
                    assert(line[x] == kver[x - 13]);
                    assert(kver.contains(kver[x - 13]));
                } else if x > 13 + kver.len() {
                    assert(line[x] == p[x - 14 - kver.len()]);
                    assert(p.contains(p[x - 14 - kver.len()]));
                }
            }
        }
    }
    crate::text::what_was_joined_is_split_again(parts, '\n');
}

/// Nothing else passes for the init program: what is called `init` in an
/// initramfs that was not refused is the program that was given.
pub proof fn init_is_the_program_that_was_given(
    rootfs: Seq<Named>,
    machined: Seq<u8>,
    module_paths: Seq<Seq<char>>,
    kver: Seq<char>,
    image_id: Seq<char>,
    k: int,
)
    requires
        is_storable(rootfs),
        is_small(rootfs, machined, module_paths, kver, image_id),
        forall|i: int| 0 <= i < rootfs.len() ==> (#[trigger] rootfs[i]).name@ != "init"@,
        0 <= k < read_back(rootfs, machined, module_paths, kver, image_id)->0.len(),
        read_back(rootfs, machined, module_paths, kver, image_id)->0[k].name == encode_utf8(
            "init"@,
        ),
    ensures
        !has_init(rootfs),
        read_back(rootfs, machined, module_paths, kver, image_id)->0[k].data == machined,
        read_back(rootfs, machined, module_paths, kver, image_id)->0[k].mode == 0o100755,
{
    lemma_all_are_fine(rootfs, machined, module_paths, kver, image_id);
    let items = crate::imager::tree::items(Seq::empty(), rootfs);
    let all = entries(items, machined, module_paths, kver, image_id);
    assert(0o100000u32 | 0o755u32 == 0o100755) by (bit_vector);
    reveal_strlit("init");
    if k < 11 {
        assert(all[k] == crate::imager::cpio::dir_entry(BASE_DIRS@[k]@, 0o755));
        crate::order::lemma_encode_injective(BASE_DIRS@[k]@, "init"@);
        lemma_no_base_is_init(k);
    } else if k == 11 {
        reveal_strlit("dev/console");
        crate::order::lemma_encode_injective("dev/console"@, "init"@);
    } else if k == 13 {
        reveal_strlit("etc/machined/modules.load");
        crate::order::lemma_encode_injective("etc/machined/modules.load"@, "init"@);
    } else if k == 14 {
        reveal_strlit("etc/machined/image-id");
        crate::order::lemma_encode_injective("etc/machined/image-id"@, "init"@);
    } else if k >= 15 {
        assert(all[k] == entry_of(items[k - 15]));
        crate::imager::tree::nothing_else_is_listed(Seq::empty(), rootfs, k - 15);
        let (path, node) = choose|path: Seq<Seq<char>>, node: crate::imager::tree::Node| #[trigger]
            crate::imager::tree::stands_at(rootfs, path, node) && items[k - 15]
                == crate::imager::tree::listed(
                crate::imager::tree::path_below(Seq::empty(), path),
                node,
            );
        let name = crate::text::join(path, "/"@);
        crate::order::lemma_encode_injective(name, "init"@);
        let i = choose|i: int|
            0 <= i < rootfs.len() && crate::imager::tree::leads_to(#[trigger] rootfs[i], path, node);
        if path.len() == 1 {
            assert(name == path[0]);
            assert(rootfs[i].name@ != "init"@);
        } else {
            reveal_strlit("/");
            crate::text::lemma_join_from_the_front(path, "/"@);
            assert(name[path[0].len() as int] == '/');
        }
    }
}

proof fn lemma_no_base_is_init(i: int)
    requires
        0 <= i < 11,
    ensures
        BASE_DIRS@[i]@ != "init"@,
{
    reveal_strlit("init");
    assert(BASE_DIRS@[i]@.len() > 0 && BASE_DIRS@[i]@[0] != 'i') by {
        reveal_strlit("dev");
        reveal_strlit("proc");
        reveal_strlit("sys");
        reveal_strlit("run");
        reveal_strlit("tmp");
        reveal_strlit("etc");
        reveal_strlit("etc/machined");
        reveal_strlit("boot");
        reveal_strlit("system");
        reveal_strlit("system/state");
        reveal_strlit("var");
        assert(i == 0 || i == 1 || i == 2 || i == 3 || i == 4 || i == 5 || i == 6 || i == 7 || i == 8
            || i == 9 || i == 10);
    }
}

} // verus!
