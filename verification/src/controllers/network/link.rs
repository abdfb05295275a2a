//! Brings links up and sizes them.

use crate::controllers::network::{
    ChangeRun, LinkState, NetAction, NetActionView, NetEvent, NS,
};
use crate::controllers::{exclusive, input, Input, InputKind, InputView, Output, OutputKind};
use crate::resources::{
    LinkSpec, LinkStatus, Resource, ResourceObject, ResourceType, ResourceView,
};
use vstd::prelude::*;
use vstd::string::*;

verus! {

/// The finalizer with which specs are held until they are taken back.
pub const FINALIZER: &'static str = "link-controller";

/// How far a link has come.
#[derive(Clone, Copy, Debug, PartialEq, Eq, Structural)]
pub enum LinkStage {
    Upping,
    Sizing,
    Listing,
    Telling,
    Over,
}

/// A link being brought to its spec.
#[derive(Debug)]
pub struct LinkRun {
    name: String,
    mtu: Option<u32>,
    stage: LinkStage,
}

/// What is known of a link being brought to its spec.
#[verifier::ext_equal]
pub struct LinkRunView {
    pub name: Seq<char>,
    pub mtu: Option<u32>,
    pub stage: LinkStage,
}

impl View for LinkRun {
    type V = LinkRunView;

    closed spec fn view(&self) -> LinkRunView {
        LinkRunView { name: self.name@, mtu: self.mtu, stage: self.stage }
    }
}

/// What is published of the first listed link with this name.
pub open spec fn status_of(links: Seq<LinkState>, name: Seq<char>) -> Option<ResourceView>
    decreases links.len(),
{
    if links.len() == 0 {
        None
    } else if links[0].name@ == name {
        Some(
            ResourceView::LinkStatus {
                name: links[0].name@,
                up: links[0].up,
                mtu: links[0].mtu,
                mac: links[0].mac@,
            },
        )
    } else {
        status_of(links.skip(1), name)
    }
}

/// The events that can follow at each stage.
pub open spec fn can_follow(stage: LinkStage, e: NetEvent) -> bool {
    match e {
        NetEvent::Done => stage is Upping || stage is Sizing || stage is Telling,
        NetEvent::Links { .. } => stage is Listing,
        NetEvent::Failed { .. } => stage is Upping || stage is Sizing || stage is Listing,
    }
}

/// How a link goes on after an event: it is brought up or down, sized where a
/// size is asked for, and what the kernel then lists of it is published.
pub open spec fn next(v: LinkRunView, e: NetEvent) -> (LinkRunView, NetActionView) {
    let listing = (LinkRunView { stage: LinkStage::Listing, ..v }, NetActionView::ListLinks);
    let done = (LinkRunView { stage: LinkStage::Over, ..v }, NetActionView::Done);
    match e {
        NetEvent::Failed { not_found, message } => (
            LinkRunView { stage: LinkStage::Over, ..v },
            NetActionView::Fail { message: message@ },
        ),
        NetEvent::Links { links } => match status_of(links@, v.name) {
            Some(spec) => (
                LinkRunView { stage: LinkStage::Telling, ..v },
                NetActionView::Publish { id: v.name, spec },
            ),
            None => done,
        },
        NetEvent::Done => match v.stage {
            LinkStage::Upping => match v.mtu {
                Some(mtu) => (
                    LinkRunView { stage: LinkStage::Sizing, ..v },
                    NetActionView::SetMtu { name: v.name, mtu },
                ),
                None => listing,
            },
            LinkStage::Sizing => listing,
            _ => done,
        },
    }
}

/// How a link begins to be brought to its spec.
pub open spec fn applying(s: LinkSpec) -> (LinkRunView, NetActionView) {
    (
        LinkRunView { name: s.name@, mtu: s.mtu, stage: LinkStage::Upping },
        NetActionView::SetLinkUp { name: s.name@, up: s.up },
    )
}

fn find_link(links: &Vec<LinkState>, name: &String) -> (r: Option<usize>)
    ensures
        match r {
            Some(i) => i < links@.len() && status_of(links@, name@) == Some(
                ResourceView::LinkStatus {
                    name: links@[i as int].name@,
                    up: links@[i as int].up,
                    mtu: links@[i as int].mtu,
                    mac: links@[i as int].mac@,
                },
            ),
            None => status_of(links@, name@) is None,
        },
{
    let mut i: usize = 0;
    assert(links@.skip(0) =~= links@);
    while i < links.len()
        invariant
            i <= links@.len(),
            status_of(links@, name@) == status_of(links@.skip(i as int), name@),
        decreases links@.len() - i,
    {
        assert(links@.skip(i as int)[0] == links@[i as int]);
        if links[i].name == *name {
            return Some(i);
        }
        assert(links@.skip(i as int).skip(1) =~= links@.skip(i + 1));
        i += 1;
    }
    None
}

impl LinkRun {
    /// Takes an event in and gives the next action.
    pub fn step(&mut self, event: NetEvent) -> (r: NetAction)
        requires
            can_follow(old(self)@.stage, event),
        ensures
            (final(self)@, r@) == next(old(self)@, event),
    {
        match event {
            NetEvent::Failed { not_found: _, message } => {
                self.stage = LinkStage::Over;
                NetAction::Fail { message }
            },
            NetEvent::Links { links } => match find_link(&links, &self.name) {
                Some(i) => {
                    let spec = Resource::LinkStatus(
                        LinkStatus {
                            name: links[i].name.clone(),
                            up: links[i].up,
                            mtu: links[i].mtu,
                            mac: links[i].mac.clone(),
                        },
                    );
                    self.stage = LinkStage::Telling;
                    NetAction::Publish { id: self.name.clone(), spec }
                },
                None => {
                    self.stage = LinkStage::Over;
                    NetAction::Done
                },
            },
            NetEvent::Done => match self.stage {
                LinkStage::Upping => match self.mtu {
                    Some(mtu) => {
                        self.stage = LinkStage::Sizing;
                        NetAction::SetMtu { name: self.name.clone(), mtu }
                    },
                    None => {
                        self.stage = LinkStage::Listing;
                        NetAction::ListLinks
                    },
                },
                LinkStage::Sizing => {
                    self.stage = LinkStage::Listing;
                    NetAction::ListLinks
                },
                _ => {
                    self.stage = LinkStage::Over;
                    NetAction::Done
                },
            },
        }
    }
}

/// Brings links up and sizes them.
pub struct LinkController {}

impl LinkController {
    pub fn new() -> (r: LinkController) {
        LinkController {  }
    }

    pub fn name(&self) -> (r: &'static str)
        ensures
            r@ == "link"@,
    {
        "link"
    }

    pub fn inputs(&self) -> (r: Vec<Input>)
        ensures
            crate::controllers::inputs_of(r@) == seq![
                InputView {
                    namespace: NS@,
                    typ: ResourceType::LinkSpec,
                    kind: InputKind::Strong,
                },
            ],
    {
        let r = vec![input(NS, ResourceType::LinkSpec, InputKind::Strong)];
        assert(crate::controllers::inputs_of(r@) =~= seq![
            InputView { namespace: NS@, typ: ResourceType::LinkSpec, kind: InputKind::Strong },
        ]);
        r
    }

    pub fn outputs(&self) -> (r: Vec<Output>)
        ensures
            r@ == seq![Output { typ: ResourceType::LinkStatus, kind: OutputKind::Exclusive }],
    {
        let r = vec![exclusive(ResourceType::LinkStatus)];
        assert(r@ =~= seq![Output { typ: ResourceType::LinkStatus, kind: OutputKind::Exclusive }]);
        r
    }

    /// Brings the link of a spec to what the spec says.
    pub fn apply(&self, obj: &ResourceObject) -> (r: (LinkRun, NetAction))
        ensures
            match obj.spec {
                Resource::LinkSpec(s) => {
                    &&& (r.0@, r.1@) == applying(s)
                    &&& r.1@ == (NetActionView::SetLinkUp { name: s.name@, up: s.up })
                    &&& r.0@ == (LinkRunView {
                        name: s.name@,
                        mtu: s.mtu,
                        stage: LinkStage::Upping,
                    })
                },
                _ => r.1@ == NetActionView::Done && r.0@.stage == LinkStage::Over,
            },
    {
        match &obj.spec {
            Resource::LinkSpec(s) => (
                LinkRun { name: s.name.clone(), mtu: s.mtu, stage: LinkStage::Upping },
                NetAction::SetLinkUp { name: s.name.clone(), up: s.up },
            ),
            _ => (
                LinkRun { name: String::new(), mtu: None, stage: LinkStage::Over },
                NetAction::Done,
            ),
        }
    }

    /// Brings the link of a spec down, and then destroys its status. The link
    /// itself is never deleted; one that is gone already is as good.
    pub fn revert(&self, obj: &ResourceObject) -> (r: (ChangeRun, NetAction))
        ensures
            crate::controllers::network::is_change(r.0@),
            match obj.spec {
                Resource::LinkSpec(s) => {
                    &&& r.1@ == (NetActionView::SetLinkUp { name: s.name@, up: false })
                    &&& r.0@ == crate::controllers::network::changing(
                        NetActionView::Destroy { typ: ResourceType::LinkStatus, id: s.name@ },
                        true,
                    )
                },
                _ => r.1@ == NetActionView::Done && r.0@
                    == crate::controllers::network::no_change(),
            },
    {
        match &obj.spec {
            Resource::LinkSpec(s) => {
                let follow = NetAction::Destroy {
                    typ: ResourceType::LinkStatus,
                    id: s.name.clone(),
                };
                (
                    ChangeRun::begin(follow, true),
                    NetAction::SetLinkUp { name: s.name.clone(), up: false },
                )
            },
            _ => (ChangeRun::nothing(), NetAction::Done),
        }
    }
}

/// What is done to a link where all of it succeeds and the kernel then lists
/// `links`.
pub open spec fn actions_of(s: LinkSpec, links: Vec<LinkState>) -> Seq<NetActionView> {
    let (v, up) = applying(s);
    let (w, second) = next(v, NetEvent::Done);
    if w.stage is Sizing {
        let (x, third) = next(w, NetEvent::Done);
        seq![up, second, third, next(x, NetEvent::Links { links }).1]
    } else {
        seq![up, second, next(w, NetEvent::Links { links }).1]
    }
}

/// A link is brought to what its spec says: up or down, and to the size that is
/// asked for, if one is. What is published of it is what the kernel then lists
/// under its name.
pub proof fn a_link_is_brought_to_its_spec(s: LinkSpec, links: Vec<LinkState>, i: int)
    requires
        0 <= i < links@.len(),
        links@[i].name@ == s.name@,
        forall|j: int| 0 <= j < i ==> (#[trigger] links@[j]).name@ != s.name@,
    ensures
        ({
            let up = NetActionView::SetLinkUp { name: s.name@, up: s.up };
            let told = NetActionView::Publish {
                id: s.name@,
                spec: ResourceView::LinkStatus {
                    name: s.name@,
                    up: links@[i].up,
                    mtu: links@[i].mtu,
                    mac: links@[i].mac@,
                },
            };
            match s.mtu {
                Some(mtu) => actions_of(s, links) == seq![
                    up,
                    NetActionView::SetMtu { name: s.name@, mtu },
                    NetActionView::ListLinks,
                    told,
                ],
                None => actions_of(s, links) == seq![up, NetActionView::ListLinks, told],
            }
        }),
{
    lemma_status_of(links@, s.name@, i);
}

proof fn lemma_status_of(links: Seq<LinkState>, name: Seq<char>, i: int)
    requires
        0 <= i < links.len(),
        links[i].name@ == name,
        forall|j: int| 0 <= j < i ==> (#[trigger] links[j]).name@ != name,
    ensures
        status_of(links, name) == Some(
            ResourceView::LinkStatus {
                name,
                up: links[i].up,
                mtu: links[i].mtu,
                mac: links[i].mac@,
            },
        ),
    decreases links.len(),
{
    if i > 0 {
        assert(links[0].name@ != name);
        let rest = links.skip(1);
        assert forall|j: int| 0 <= j < i - 1 implies (#[trigger] rest[j]).name@ != name by {
            assert(rest[j] == links[j + 1]);
        }
        assert(rest[i - 1] == links[i]);
        lemma_status_of(rest, name, i - 1);
    }
}

/// Nothing is published of a link that the kernel does not list.
pub proof fn an_unlisted_link_is_not_published(s: LinkSpec, links: Vec<LinkState>)
    requires
        forall|j: int| 0 <= j < links@.len() ==> (#[trigger] links@[j]).name@ != s.name@,
    ensures
        actions_of(s, links).last() is Done,
{
    lemma_no_status(links@, s.name@);
}

proof fn lemma_no_status(links: Seq<LinkState>, name: Seq<char>)
    requires
        forall|j: int| 0 <= j < links.len() ==> (#[trigger] links[j]).name@ != name,
    ensures
        status_of(links, name) is None,
    decreases links.len(),
{
    if links.len() > 0 {
        assert(links[0].name@ != name);
        let rest = links.skip(1);
        assert forall|j: int| 0 <= j < rest.len() implies (#[trigger] rest[j]).name@ != name by {
            assert(rest[j] == links[j + 1]);
        }
        lemma_no_status(rest, name);
    }
}

/// A link that cannot be brought up, sized or listed fails with the kernel's
/// reason, and nothing is published of it.
pub proof fn a_link_that_failed_is_not_published(v: LinkRunView, not_found: bool, message: String)
    ensures
        next(v, NetEvent::Failed { not_found, message }).1 == (NetActionView::Fail {
            message: message@,
        }),
        next(v, NetEvent::Failed { not_found, message }).0.stage is Over,
{
}

} // verus!
