//! An in-memory runtime. Without a version it cannot be reached.

use crate::cri::{ContainerSpec, ContainerState, CriClient, CriError, PodSpec, RuntimeVersion};
use crate::text::{push_dec, same};
use vstd::prelude::*;
use vstd::string::*;

verus! {

/// A container of the in-memory runtime.
struct FakeContainer {
    sandbox: String,
    name: String,
    id: String,
    state: ContainerState,
}

/// What is known of a container.
#[verifier::ext_equal]
pub struct ContainerView {
    pub sandbox: Seq<char>,
    pub name: Seq<char>,
    pub id: Seq<char>,
    pub state: ContainerState,
}

impl View for FakeContainer {
    type V = ContainerView;

    closed spec fn view(&self) -> ContainerView {
        ContainerView {
            sandbox: self.sandbox@,
            name: self.name@,
            id: self.id@,
            state: self.state,
        }
    }
}

/// An in-memory runtime.
pub struct FakeCriClient {
    version: Option<RuntimeVersion>,
    ready: bool,
    calls: usize,
    images: Vec<String>,
    sandboxes: Vec<(String, String)>,
    containers: Vec<FakeContainer>,
}

/// What the in-memory runtime holds: its name and version, whether it is
/// ready, how often it was probed, its images, its sandboxes by pod name and
/// id, and its containers.
#[verifier::ext_equal]
pub struct FakeCriView {
    pub version: Option<(Seq<char>, Seq<char>)>,
    pub ready: bool,
    pub calls: nat,
    pub images: Set<Seq<char>>,
    pub sandboxes: Seq<(Seq<char>, Seq<char>)>,
    pub containers: Seq<ContainerView>,
}

/// Sandboxes as texts.
pub open spec fn pair_texts(v: Seq<(String, String)>) -> Seq<(Seq<char>, Seq<char>)> {
    Seq::new(v.len(), |i: int| (v[i].0@, v[i].1@))
}

spec fn container_views(v: Seq<FakeContainer>) -> Seq<ContainerView> {
    Seq::new(v.len(), |i: int| v[i]@)
}

impl View for FakeCriClient {
    type V = FakeCriView;

    closed spec fn view(&self) -> FakeCriView {
        FakeCriView {
            version: match self.version {
                Some(v) => Some((v.runtime_name@, v.runtime_version@)),
                None => None,
            },
            ready: self.ready,
            calls: self.calls as nat,
            images: crate::text::texts(self.images@).to_set(),
            sandboxes: pair_texts(self.sandboxes@),
            containers: container_views(self.containers@),
        }
    }
}

/// How often the runtime was probed after one more probe; the counter stops at
/// the largest number.
pub open spec fn probed(calls: nat) -> nat {
    if calls < usize::MAX {
        calls + 1
    } else {
        calls
    }
}

/// The error of a runtime that cannot be reached.
pub open spec fn is_unreachable(e: CriError) -> bool {
    e matches CriError::Connect(m) && m@ == "unreachable"@
}

/// The id of the first sandbox of the pod with this name.
pub open spec fn sandbox_id(v: Seq<(Seq<char>, Seq<char>)>, name: Seq<char>) -> Option<Seq<char>>
    decreases v.len(),
{
    if v.len() == 0 {
        None
    } else if v[0].0 == name {
        Some(v[0].1)
    } else {
        sandbox_id(v.skip(1), name)
    }
}

/// The id of the first container with this name in a sandbox.
pub open spec fn container_id(
    v: Seq<ContainerView>,
    sandbox: Seq<char>,
    name: Seq<char>,
) -> Option<Seq<char>>
    decreases v.len(),
{
    if v.len() == 0 {
        None
    } else if v[0].sandbox == sandbox && v[0].name == name {
        Some(v[0].id)
    } else {
        container_id(v.skip(1), sandbox, name)
    }
}

/// The index of the first container with this id, or the number of containers.
pub open spec fn container_at(v: Seq<ContainerView>, id: Seq<char>) -> nat
    decreases v.len(),
{
    if v.len() == 0 || v[0].id == id {
        0
    } else {
        1 + container_at(v.skip(1), id)
    }
}

/// The id of the next sandbox or container.
pub open spec fn next_id(kind: Seq<char>, count: nat) -> Seq<char> {
    kind + crate::text::dec(count)
}

fn unreachable_error() -> (e: CriError)
    ensures
        is_unreachable(e),
{
    CriError::Connect("unreachable".to_owned())
}

impl FakeCriClient {
    /// A runtime that cannot be reached.
    pub fn new() -> (r: FakeCriClient)
        ensures
            r@ == (FakeCriView {
                version: None,
                ready: false,
                calls: 0,
                images: Set::empty(),
                sandboxes: seq![],
                containers: seq![],
            }),
    {
        let r = FakeCriClient {
            version: None,
            ready: false,
            calls: 0,
            images: Vec::new(),
            sandboxes: Vec::new(),
            containers: Vec::new(),
        };
        assert(r@.images =~= Set::empty());
        assert(r@.sandboxes =~= seq![]);
        assert(r@.containers =~= seq![]);
        r
    }

    /// The runtime with a name and a version: it can be reached. Without one, every
    /// call fails.
    pub fn with_version(self, name: &str, version: &str) -> (r: FakeCriClient)
        ensures
            r@ == (FakeCriView { version: Some((name@, version@)), ..self@ }),
    {
        let mut r = self;
        r.version = Some(
            RuntimeVersion { runtime_name: name.to_owned(), runtime_version: version.to_owned() },
        );
        r
    }

    pub fn with_ready(self, ready: bool) -> (r: FakeCriClient)
        ensures
            r@ == (FakeCriView { ready, ..self@ }),
    {
        let mut r = self;
        r.ready = ready;
        r
    }

    /// The runtime with one more image.
    pub fn with_image(self, image: &str) -> (r: FakeCriClient)
        ensures
            r@ == (FakeCriView { images: self@.images.insert(image@), ..self@ }),
    {
        let mut r = self;
        r.add_image(image);
        r
    }

    fn add_image(&mut self, image: &str)
        ensures
            final(self)@ == (FakeCriView {
                images: old(self)@.images.insert(image@),
                ..old(self)@
            }),
    {
        let ghost before = crate::text::texts(self.images@);
        if self.has_image(image) {
            assert(self@.images =~= old(self)@.images.insert(image@));
            return;
        }
        let name = image.to_owned();
        proof {
            assert(crate::text::texts(self.images@.push(name)) =~= before.push(name@));
            crate::text::lemma_to_set_push(before, image@);
        }
        self.images.push(name);
    }

    fn has_image(&self, image: &str) -> (r: bool)
        ensures
            r == self@.images.contains(image@),
    {
        let ghost all = crate::text::texts(self.images@);
        let mut i: usize = 0;
        while i < self.images.len()
            invariant
                i <= self.images@.len(),
                all == crate::text::texts(self.images@),
                forall|k: int| 0 <= k < i ==> all[k] != image@,
            decreases self.images@.len() - i,
        {
            assert(all[i as int] == self.images@[i as int]@);
            if same(self.images[i].as_str(), image) {
                assert(all.contains(image@));
                return true;
            }
            i += 1;
        }
        assert(!all.contains(image@));
        false
    }

    /// How often the runtime was probed.
    pub fn calls(&self) -> (r: usize)
        ensures
            r == self@.calls,
    {
        self.calls
    }

    /// The number of sandboxes.
    pub fn sandbox_count(&self) -> (r: usize)
        ensures
            r == self@.sandboxes.len(),
    {
        self.sandboxes.len()
    }

    fn count_call(&mut self)
        ensures
            final(self)@ == (FakeCriView { calls: probed(old(self)@.calls), ..old(self)@ }),
    {
        if self.calls < usize::MAX {
            self.calls = self.calls + 1;
        }
    }

    fn index_of(&self, id: &str) -> (r: usize)
        ensures
            r == container_at(self@.containers, id@),
            r <= self@.containers.len(),
    {
        let ghost all = self@.containers;
        let mut i: usize = 0;
        assert(all.skip(0) =~= all);
        while i < self.containers.len()
            invariant
                i <= self.containers@.len(),
                all == self@.containers,
                all.len() == self.containers@.len(),
                container_at(all, id@) == i + container_at(all.skip(i as int), id@),
            decreases self.containers@.len() - i,
        {
            assert(all.skip(i as int)[0] == self.containers@[i as int]@);
            if same(self.containers[i].id.as_str(), id) {
                return i;
            }
            assert(all.skip(i as int).skip(1) =~= all.skip(i + 1));
            i += 1;
        }
        i
    }
}

impl Default for FakeCriClient {
    fn default() -> (r: FakeCriClient)
        ensures
            r@ == (FakeCriView {
                version: None,
                ready: false,
                calls: 0,
                images: Set::empty(),
                sandboxes: seq![],
                containers: seq![],
            }),
    {
        FakeCriClient::new()
    }
}

impl CriClient for FakeCriClient {
    fn version(&mut self) -> (r: Result<RuntimeVersion, CriError>)
        ensures
            final(self)@ == (FakeCriView { calls: probed(old(self)@.calls), ..old(self)@ }),
            match r {
                Ok(v) => old(self)@.version == Some((v.runtime_name@, v.runtime_version@)),
                Err(e) => old(self)@.version is None && is_unreachable(e),
            },
    {
        self.count_call();
        match &self.version {
            Some(v) => Ok(
                RuntimeVersion {
                    runtime_name: v.runtime_name.clone(),
                    runtime_version: v.runtime_version.clone(),
                },
            ),
            None => Err(unreachable_error()),
        }
    }

    fn ready(&mut self) -> (r: Result<bool, CriError>)
        ensures
            final(self)@ == (FakeCriView { calls: probed(old(self)@.calls), ..old(self)@ }),
            match r {
                Ok(ready) => old(self)@.version is Some && ready == old(self)@.ready,
                Err(e) => old(self)@.version is None && is_unreachable(e),
            },
    {
        self.count_call();
        if self.version.is_none() {
            Err(unreachable_error())
        } else {
            Ok(self.ready)
        }
    }

    fn image_present(&self, image: &str) -> (r: Result<bool, CriError>)
        ensures
            match r {
                Ok(present) => self@.version is Some && present == self@.images.contains(image@),
                Err(e) => self@.version is None && is_unreachable(e),
            },
    {
        if self.version.is_none() {
            return Err(unreachable_error());
        }
        Ok(self.has_image(image))
    }

    fn pull_image(&mut self, image: &str) -> (r: Result<(), CriError>)
        ensures
            match r {
                Ok(_) => old(self)@.version is Some && final(self)@ == (FakeCriView {
                    images: old(self)@.images.insert(image@),
                    ..old(self)@
                }),
                Err(e) => old(self)@.version is None && is_unreachable(e) && final(self)@
                    == old(self)@,
            },
    {
        if self.version.is_none() {
            return Err(unreachable_error());
        }
        self.add_image(image);
        Ok(())
    }

    fn find_sandbox(&self, name: &str) -> (r: Result<Option<String>, CriError>)
        ensures
            match r {
                Ok(id) => self@.version is Some && crate::resources::opt_text(id) == sandbox_id(
                    self@.sandboxes,
                    name@,
                ),
                Err(e) => self@.version is None && is_unreachable(e),
            },
    {
        if self.version.is_none() {
            return Err(unreachable_error());
        }
        let ghost all = self@.sandboxes;
        let mut i: usize = 0;
        assert(all.skip(0) =~= all);
        while i < self.sandboxes.len()
            invariant
                i <= self.sandboxes@.len(),
                self@.version is Some,
                all == self@.sandboxes,
                all.len() == self.sandboxes@.len(),
                sandbox_id(all, name@) == sandbox_id(all.skip(i as int), name@),
            decreases self.sandboxes@.len() - i,
        {
            assert(all.skip(i as int)[0] == (
                self.sandboxes@[i as int].0@,
                self.sandboxes@[i as int].1@,
            ));
            if same(self.sandboxes[i].0.as_str(), name) {
                return Ok(Some(self.sandboxes[i].1.clone()));
            }
            assert(all.skip(i as int).skip(1) =~= all.skip(i + 1));
            i += 1;
        }
        Ok(None)
    }

    fn run_pod_sandbox(&mut self, pod: &PodSpec) -> (r: Result<String, CriError>)
        ensures
            ({
                let id = next_id("sandbox-"@, old(self)@.sandboxes.len());
                match r {
                    Ok(made) => {
                        &&& old(self)@.version is Some
                        &&& made@ == id
                        &&& final(self)@ == (FakeCriView {
                            sandboxes: old(self)@.sandboxes.push((pod.name@, id)),
                            ..old(self)@
                        })
                    },
                    Err(e) => old(self)@.version is None && is_unreachable(e) && final(self)@
                        == old(self)@,
                }
            }),
    {
        if self.version.is_none() {
            return Err(unreachable_error());
        }
        let ghost before = self@;
        let mut id = "sandbox-".to_owned();
        push_dec(&mut id, self.sandboxes.len() as u64);
        self.sandboxes.push((pod.name.clone(), id.clone()));
        assert(self@ =~= (FakeCriView {
            sandboxes: before.sandboxes.push((pod.name@, id@)),
            ..before
        }));
        Ok(id)
    }

    fn find_container(&self, sandbox: &str, name: &str) -> (r: Result<Option<String>, CriError>)
        ensures
            match r {
                Ok(id) => self@.version is Some && crate::resources::opt_text(id) == container_id(
                    self@.containers,
                    sandbox@,
                    name@,
                ),
                Err(e) => self@.version is None && is_unreachable(e),
            },
    {
        if self.version.is_none() {
            return Err(unreachable_error());
        }
        let ghost all = self@.containers;
        let mut i: usize = 0;
        assert(all.skip(0) =~= all);
        while i < self.containers.len()
            invariant
                i <= self.containers@.len(),
                self@.version is Some,
                all == self@.containers,
                all.len() == self.containers@.len(),
                container_id(all, sandbox@, name@) == container_id(
                    all.skip(i as int),
                    sandbox@,
                    name@,
                ),
            decreases self.containers@.len() - i,
        {
            assert(all.skip(i as int)[0] == self.containers@[i as int]@);
            if same(self.containers[i].sandbox.as_str(), sandbox) && same(
                self.containers[i].name.as_str(),
                name,
            ) {
                return Ok(Some(self.containers[i].id.clone()));
            }
            assert(all.skip(i as int).skip(1) =~= all.skip(i + 1));
            i += 1;
        }
        Ok(None)
    }

    fn create_container(&mut self, sandbox: &str, spec: &ContainerSpec) -> (r: Result<
        String,
        CriError,
    >)
        ensures
            ({
                let id = next_id("container-"@, old(self)@.containers.len());
                match r {
                    Ok(made) => {
                        &&& old(self)@.version is Some
                        &&& made@ == id
                        &&& final(self)@ == (FakeCriView {
                            containers: old(self)@.containers.push(
                                ContainerView {
                                    sandbox: sandbox@,
                                    name: spec.name@,
                                    id,
                                    state: ContainerState::Created,
                                },
                            ),
                            ..old(self)@
                        })
                    },
                    Err(e) => old(self)@.version is None && is_unreachable(e) && final(self)@
                        == old(self)@,
                }
            }),
    {
        if self.version.is_none() {
            return Err(unreachable_error());
        }
        let ghost before = self@;
        let mut id = "container-".to_owned();
        push_dec(&mut id, self.containers.len() as u64);
        let c = FakeContainer {
            sandbox: sandbox.to_owned(),
            name: spec.name.clone(),
            id: id.clone(),
            state: ContainerState::Created,
        };
        self.containers.push(c);
        assert(self@ =~= (FakeCriView { containers: before.containers.push(c@), ..before }));
        Ok(id)
    }

    fn start_container(&mut self, id: &str) -> (r: Result<(), CriError>)
        ensures
            ({
                let at = container_at(old(self)@.containers, id@) as int;
                if old(self)@.version is None {
                    &&& r matches Err(e) && is_unreachable(e)
                    &&& final(self)@ == old(self)@
                } else if at < old(self)@.containers.len() {
                    &&& r is Ok
                    &&& final(self)@ == (FakeCriView {
                        containers: old(self)@.containers.update(
                            at,
                            ContainerView {
                                state: ContainerState::Running,
                                ..old(self)@.containers[at]
                            },
                        ),
                        ..old(self)@
                    })
                } else {
                    &&& r matches Err(CriError::Rpc(m)) && m@ == "no such container"@
                    &&& final(self)@ == old(self)@
                }
            }),
    {
        if self.version.is_none() {
            return Err(unreachable_error());
        }
        let ghost before = self@;
        let at = self.index_of(id);
        if at >= self.containers.len() {
            return Err(CriError::Rpc("no such container".to_owned()));
        }
        let c = FakeContainer {
            sandbox: self.containers[at].sandbox.clone(),
            name: self.containers[at].name.clone(),
            id: self.containers[at].id.clone(),
            state: ContainerState::Running,
        };
        assert(before.containers[at as int] == self.containers@[at as int]@);
        self.containers.set(at, c);
        assert(self@ =~= (FakeCriView {
            containers: before.containers.update(at as int, c@),
            ..before
        }));
        Ok(())
    }

    fn container_state(&self, id: &str) -> (r: Result<ContainerState, CriError>)
        ensures
            ({
                let at = container_at(self@.containers, id@) as int;
                if self@.version is None {
                    r matches Err(e) && is_unreachable(e)
                } else if at < self@.containers.len() {
                    r == Ok::<ContainerState, CriError>(self@.containers[at].state)
                } else {
                    r matches Err(CriError::Rpc(m)) && m@ == "no such container"@
                }
            }),
    {
        if self.version.is_none() {
            return Err(unreachable_error());
        }
        let at = self.index_of(id);
        if at >= self.containers.len() {
            return Err(CriError::Rpc("no such container".to_owned()));
        }
        assert(self@.containers[at as int] == self.containers@[at as int]@);
        Ok(self.containers[at].state)
    }
}

/// A sandbox that was made is found again by its pod's name, so a pod that
/// looks for its sandbox first never gets a second one.
pub proof fn a_made_sandbox_is_found(
    v: Seq<(Seq<char>, Seq<char>)>,
    name: Seq<char>,
    id: Seq<char>,
)
    ensures
        sandbox_id(v.push((name, id)), name) is Some,
        sandbox_id(v, name) is None ==> sandbox_id(v.push((name, id)), name) == Some(id),
    decreases v.len(),
{
    let w = v.push((name, id));
    if v.len() > 0 {
        assert(w[0] == v[0]);
        if v[0].0 != name {
            assert(w.skip(1) =~= v.skip(1).push((name, id)));
            a_made_sandbox_is_found(v.skip(1), name, id);
        }
    } else {
        assert(w[0] == (name, id));
    }
}

/// A container that was made is found again in its sandbox by its name, and not
/// in another sandbox or under another name.
pub proof fn a_made_container_is_found(
    v: Seq<ContainerView>,
    c: ContainerView,
    sandbox: Seq<char>,
    name: Seq<char>,
)
    ensures
        container_id(v, c.sandbox, c.name) is None ==> container_id(v.push(c), c.sandbox, c.name)
            == Some(c.id),
        container_id(v, c.sandbox, c.name) is Some ==> container_id(v.push(c), c.sandbox, c.name)
            == container_id(v, c.sandbox, c.name),
        sandbox != c.sandbox || name != c.name ==> container_id(v.push(c), sandbox, name)
            == container_id(v, sandbox, name),
    decreases v.len(),
{
    let w = v.push(c);
    if v.len() > 0 {
        assert(w[0] == v[0]);
        assert(w.skip(1) =~= v.skip(1).push(c));
        a_made_container_is_found(v.skip(1), c, sandbox, name);
    } else {
        assert(w[0] == c);
        assert(w.skip(1) =~= v);
    }
}

/// Sandboxes and containers get ids of their own.
pub proof fn an_id_is_given_once(kind: Seq<char>, a: nat, b: nat)
    ensures
        next_id(kind, a) == next_id(kind, b) ==> a == b,
        next_id("sandbox-"@, a) != next_id("container-"@, b),
{
    crate::text::lemma_dec_reads_back(a);
    crate::text::lemma_dec_reads_back(b);
    let n = kind.len() as int;
    assert(next_id(kind, a).skip(n) =~= crate::text::dec(a));
    assert(next_id(kind, b).skip(n) =~= crate::text::dec(b));
    reveal_strlit("sandbox-");
    reveal_strlit("container-");
    assert(next_id("sandbox-"@, a)[0] == 's');
    assert(next_id("container-"@, b)[0] == 'c');
}

/// The container that is meant by an id is the first that has it.
pub proof fn the_first_container_with_an_id_is_meant(v: Seq<ContainerView>, id: Seq<char>, i: int)
    requires
        0 <= i < v.len(),
        v[i].id == id,
        forall|j: int| 0 <= j < i ==> (#[trigger] v[j]).id != id,
    ensures
        container_at(v, id) == i,
    decreases v.len(),
{
    if i > 0 {
        assert(v[0].id != id);
        let rest = v.skip(1);
        assert forall|j: int| 0 <= j < i - 1 implies (#[trigger] rest[j]).id != id by {
            assert(rest[j] == v[j + 1]);
        }
        assert(rest[i - 1] == v[i]);
        the_first_container_with_an_id_is_meant(rest, id, i - 1);
    }
}

/// An id that no container has means none.
pub proof fn an_unknown_id_means_no_container(v: Seq<ContainerView>, id: Seq<char>)
    requires
        forall|j: int| 0 <= j < v.len() ==> (#[trigger] v[j]).id != id,
    ensures
        container_at(v, id) == v.len(),
    decreases v.len(),
{
    if v.len() > 0 {
        assert(v[0].id != id);
        let rest = v.skip(1);
        assert forall|j: int| 0 <= j < rest.len() implies (#[trigger] rest[j]).id != id by {
            assert(rest[j] == v[j + 1]);
        }
        an_unknown_id_means_no_container(rest, id);
    }
}

} // verus!
