//! The manifest of pinned artifacts: every input to an image that comes from
//! outside, with its URL and its SHA-256.

use crate::text::same;
use vstd::prelude::*;
use vstd::string::*;

verus! {

/// An input to an image.
#[derive(Debug, PartialEq, Eq)]
pub struct Artifact {
    pub name: String,
    pub url: String,
    pub sha256: String,
    /// What becomes of it: `apk` is unpacked into the root filesystem of the
    /// initramfs; of a `boot-tarball`, a single `.tar.gz`, what is below `bin` goes
    /// to `/boot/bin`; a `boot-binary` goes to `/boot/bin`, and an `oci-image`, an
    /// image archive, to `/boot/images`, each under its `rename` or its name; of
    /// `cni-plugins`, a release tarball, `bridge`, `host-local` and `loopback` go
    /// to `/boot/cni/bin`; an `sd-boot-efi` is the boot loader of a machine with
    /// UEFI.
    pub kind: String,
    /// What a `boot-binary` or an `oci-image` is staged as, if not under its name.
    pub rename: Option<String>,
}

/// What an artifact says.
#[verifier::ext_equal]
pub struct ArtifactView {
    pub name: Seq<char>,
    pub url: Seq<char>,
    pub sha256: Seq<char>,
    pub kind: Seq<char>,
    pub rename: Option<Seq<char>>,
}

impl View for Artifact {
    type V = ArtifactView;

    open spec fn view(&self) -> ArtifactView {
        ArtifactView {
            name: self.name@,
            url: self.url@,
            sha256: self.sha256@,
            kind: self.kind@,
            rename: crate::resources::opt_text(self.rename),
        }
    }
}

impl Clone for Artifact {
    fn clone(&self) -> (r: Artifact)
        ensures
            r@ == self@,
    {
        Artifact {
            name: self.name.clone(),
            url: self.url.clone(),
            sha256: self.sha256.clone(),
            kind: self.kind.clone(),
            rename: crate::block::copy_opt(&self.rename),
        }
    }
}

/// Artifacts by architecture. No architecture is listed twice.
#[derive(Debug)]
pub struct Manifest {
    pub artifact: Vec<(String, Vec<Artifact>)>,
}

/// Where `arch` is listed first.
pub open spec fn place_of(artifact: Seq<(String, Vec<Artifact>)>, arch: Seq<char>) -> Option<int>
    decreases artifact.len(),
{
    if artifact.len() == 0 {
        None
    } else {
        match place_of(artifact.drop_last(), arch) {
            Some(i) => Some(i),
            None => if artifact.last().0@ == arch {
                Some(artifact.len() - 1)
            } else {
                None
            },
        }
    }
}

impl Manifest {
    /// No architecture is listed twice.
    pub open spec fn wf(&self) -> bool {
        forall|i: int, j: int|
            0 <= i < j < self.artifact@.len() ==> self.artifact@[i].0@ != self.artifact@[j].0@
    }

    /// The artifacts of an architecture, if it is listed.
    pub fn for_arch(&self, arch: &str) -> (r: Option<&[Artifact]>)
        ensures
            match r {
                Some(list) => place_of(self.artifact@, arch@) is Some && list@
                    == self.artifact@[place_of(self.artifact@, arch@)->0].1@,
                None => place_of(self.artifact@, arch@) is None,
            },
    {
        let ghost all = self.artifact@;
        let mut i: usize = 0;
        assert(all.take(0) =~= Seq::empty());
        while i < self.artifact.len()
            invariant
                i <= self.artifact@.len(),
                all == self.artifact@,
                place_of(all.take(i as int), arch@) is None,
            decreases self.artifact@.len() - i,
        {
            assert(all.take(i + 1).drop_last() =~= all.take(i as int));
            if same(self.artifact[i].0.as_str(), arch) {
                proof {
                    assert(place_of(all.take(i + 1), arch@) == Some(i as int));
                    lemma_place_stays(all, arch@, i + 1);
                }
                return Some(self.artifact[i].1.as_slice());
            }
            i += 1;
        }
        assert(all.take(i as int) =~= all);
        None
    }
}

proof fn lemma_place_stays(all: Seq<(String, Vec<Artifact>)>, arch: Seq<char>, n: int)
    requires
        0 <= n <= all.len(),
        place_of(all.take(n), arch) is Some,
    ensures
        place_of(all, arch) == place_of(all.take(n), arch),
    decreases all.len() - n,
{
    if n < all.len() {
        assert(all.take(n + 1).drop_last() =~= all.take(n));
        lemma_place_stays(all, arch, n + 1);
    } else {
        assert(all.take(n) =~= all);
    }
}

proof fn lemma_place(all: Seq<(String, Vec<Artifact>)>, arch: Seq<char>)
    ensures
        match place_of(all, arch) {
            Some(i) => 0 <= i < all.len() && all[i].0@ == arch,
            None => forall|k: int| 0 <= k < all.len() ==> (#[trigger] all[k]).0@ != arch,
        },
    decreases all.len(),
{
    if all.len() > 0 {
        lemma_place(all.drop_last(), arch);
        assert forall|k: int| 0 <= k < all.len() - 1 implies (#[trigger] all[k]) == all.drop_last()[k] by {}
    }
}

/// The artifacts of an architecture are those that the manifest lists for it,
/// and there are some as soon as it lists any.
pub proof fn an_architecture_is_found_where_it_is_listed(m: Manifest, arch: Seq<char>, i: int)
    requires
        m.wf(),
        0 <= i < m.artifact@.len(),
        m.artifact@[i].0@ == arch,
    ensures
        place_of(m.artifact@, arch) == Some(i),
{
    lemma_place(m.artifact@, arch);
}

/// An architecture that is not listed has no artifacts.
pub proof fn an_unlisted_architecture_is_not_found(m: Manifest, arch: Seq<char>)
    requires
        forall|i: int| 0 <= i < m.artifact@.len() ==> (#[trigger] m.artifact@[i]).0@ != arch,
    ensures
        place_of(m.artifact@, arch) is None,
{
    lemma_place(m.artifact@, arch);
}

} // verus!
