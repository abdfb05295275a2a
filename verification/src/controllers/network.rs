//! Network controllers: the configuration becomes desired specs, and specs
//! become kernel state. The kernel and the resource store stand outside: a run
//! says what to do next and is told what came of it.

use crate::ip::{AddrCidr, IpAddr};
use crate::resources::{Resource, ResourceObject, ResourceType, ResourceView};
use vstd::prelude::*;
use vstd::string::*;

pub mod address;
pub mod config_controller;
pub mod hostname;
pub mod link;
pub mod resolver;
pub mod route;

verus! {

/// The namespace of network resources.
pub const NS: &'static str = "network";

/// A link as the kernel lists it.
#[derive(Debug)]
pub struct LinkState {
    pub name: String,
    pub up: bool,
    pub mtu: u32,
    pub mac: String,
}

/// A route as the kernel takes it.
#[derive(Debug)]
pub struct RouteReq {
    pub destination: Option<AddrCidr>,
    pub gateway: Option<IpAddr>,
    pub link: String,
    pub metric: u32,
}

/// What is to be done next.
#[derive(Debug)]
pub enum NetAction {
    SetLinkUp { name: String, up: bool },
    SetMtu { name: String, mtu: u32 },
    ListLinks,
    AddAddress { link: String, address: AddrCidr },
    DelAddress { link: String, address: AddrCidr },
    AddRoute { route: RouteReq },
    DelRoute { route: RouteReq },
    /// Create the status resource with this id, or update it.
    Publish { id: String, spec: Resource },
    /// Destroy the status resource with this id, if it is there.
    Destroy { typ: ResourceType, id: String },
    /// The spec has been dealt with.
    Done,
    /// The spec could not be dealt with; it is held, and tried again.
    Fail { message: String },
}

/// What came of it.
#[derive(Debug)]
pub enum NetEvent {
    Done,
    Links { links: Vec<LinkState> },
    /// It failed; whether because there is no such link.
    Failed { not_found: bool, message: String },
}

/// What an action says.
#[verifier::ext_equal]
pub enum NetActionView {
    SetLinkUp { name: Seq<char>, up: bool },
    SetMtu { name: Seq<char>, mtu: u32 },
    ListLinks,
    AddAddress { link: Seq<char>, address: AddrCidr },
    DelAddress { link: Seq<char>, address: AddrCidr },
    AddRoute { route: RouteView },
    DelRoute { route: RouteView },
    Publish { id: Seq<char>, spec: ResourceView },
    Destroy { typ: ResourceType, id: Seq<char> },
    Done,
    Fail { message: Seq<char> },
}

/// What a route says.
#[verifier::ext_equal]
pub struct RouteView {
    pub destination: Option<AddrCidr>,
    pub gateway: Option<IpAddr>,
    pub link: Seq<char>,
    pub metric: u32,
}

impl View for RouteReq {
    type V = RouteView;

    open spec fn view(&self) -> RouteView {
        RouteView {
            destination: self.destination,
            gateway: self.gateway,
            link: self.link@,
            metric: self.metric,
        }
    }
}

impl View for NetAction {
    type V = NetActionView;

    open spec fn view(&self) -> NetActionView {
        match *self {
            NetAction::SetLinkUp { name, up } => NetActionView::SetLinkUp { name: name@, up },
            NetAction::SetMtu { name, mtu } => NetActionView::SetMtu { name: name@, mtu },
            NetAction::ListLinks => NetActionView::ListLinks,
            NetAction::AddAddress { link, address } => NetActionView::AddAddress {
                link: link@,
                address,
            },
            NetAction::DelAddress { link, address } => NetActionView::DelAddress {
                link: link@,
                address,
            },
            NetAction::AddRoute { route } => NetActionView::AddRoute { route: route@ },
            NetAction::DelRoute { route } => NetActionView::DelRoute { route: route@ },
            NetAction::Publish { id, spec } => NetActionView::Publish { id: id@, spec: spec@ },
            NetAction::Destroy { typ, id } => NetActionView::Destroy { typ, id: id@ },
            NetAction::Done => NetActionView::Done,
            NetAction::Fail { message } => NetActionView::Fail { message: message@ },
        }
    }
}

/// What is to be done to the resource store.
#[derive(Debug)]
pub enum StoreWrite {
    /// Create an object.
    Create { object: ResourceObject },
    /// Replace the spec of the network resource with this type and id, if it
    /// still has this version.
    Update { typ: ResourceType, id: String, version: u64, spec: Resource },
    /// Destroy the network resource with this type and id, if it still has
    /// this version.
    Destroy { typ: ResourceType, id: String, version: u64 },
}

/// What a write says.
#[verifier::ext_equal]
pub enum StoreWriteView {
    Create { object: crate::resources::ObjectView },
    Update { typ: ResourceType, id: Seq<char>, version: u64, spec: ResourceView },
    Destroy { typ: ResourceType, id: Seq<char>, version: u64 },
}

impl View for StoreWrite {
    type V = StoreWriteView;

    open spec fn view(&self) -> StoreWriteView {
        match *self {
            StoreWrite::Create { object } => StoreWriteView::Create { object: object@ },
            StoreWrite::Update { typ, id, version, spec } => StoreWriteView::Update {
                typ,
                id: id@,
                version,
                spec: spec@,
            },
            StoreWrite::Destroy { typ, id, version } => StoreWriteView::Destroy {
                typ,
                id: id@,
                version,
            },
        }
    }
}

/// How a status is published, given the version of the one that is there: it is
/// updated, or else created.
pub fn publish_status(existing: Option<u64>, id: &str, spec: Resource) -> (r: StoreWrite)
    ensures
        r@ == match existing {
            Some(version) => StoreWriteView::Update {
                typ: spec.kind(),
                id: id@,
                version,
                spec: spec@,
            },
            None => StoreWriteView::Create {
                object: crate::resources::ObjectView { namespace: NS@, id: id@, spec: spec@ },
            },
        },
{
    match existing {
        Some(version) => {
            let typ = spec.resource_type();
            StoreWrite::Update { typ, id: id.to_owned(), version, spec }
        },
        None => StoreWrite::Create { object: ResourceObject::new(NS, id, spec) },
    }
}

/// How a status is taken back, given the version of the one that is there: it
/// is destroyed, if it is there.
pub fn destroy_status(existing: Option<u64>, typ: ResourceType, id: &str) -> (r: Option<StoreWrite>)
    ensures
        match r {
            Some(w) => existing is Some && w@ == (StoreWriteView::Destroy {
                typ,
                id: id@,
                version: existing->0,
            }),
            None => existing is None,
        },
{
    match existing {
        Some(version) => Some(StoreWrite::Destroy { typ, id: id.to_owned(), version }),
        None => None,
    }
}

/// How far a change has come.
#[derive(Clone, Copy, Debug, PartialEq, Eq, Structural)]
pub enum ChangeStage {
    /// The kernel is being changed.
    Changing,
    /// The status is being published or destroyed.
    Telling,
    Over,
}

/// A change of the kernel that a status follows. Where it takes something
/// back, a link that is gone already is no failure.
#[derive(Debug)]
pub struct ChangeRun {
    follow: Option<NetAction>,
    forgiving: bool,
    stage: ChangeStage,
}

/// What is known of a change.
#[verifier::ext_equal]
pub struct ChangeView {
    pub follow: Option<NetActionView>,
    pub forgiving: bool,
    pub stage: ChangeStage,
}

/// What an optional action says.
pub open spec fn opt_action(a: Option<NetAction>) -> Option<NetActionView> {
    match a {
        Some(a) => Some(a@),
        None => None,
    }
}

impl View for ChangeRun {
    type V = ChangeView;

    closed spec fn view(&self) -> ChangeView {
        ChangeView {
            follow: opt_action(self.follow),
            forgiving: self.forgiving,
            stage: self.stage,
        }
    }
}

/// A change has begun; `follow` comes behind it.
pub open spec fn changing(follow: NetActionView, forgiving: bool) -> ChangeView {
    ChangeView { follow: Some(follow), forgiving, stage: ChangeStage::Changing }
}

/// Nothing is to be changed.
pub open spec fn no_change() -> ChangeView {
    ChangeView { follow: None, forgiving: false, stage: ChangeStage::Over }
}

/// The events that can follow at each stage.
pub open spec fn can_follow(stage: ChangeStage, e: NetEvent) -> bool {
    match e {
        NetEvent::Done => stage is Changing || stage is Telling,
        NetEvent::Links { .. } => false,
        NetEvent::Failed { .. } => stage is Changing,
    }
}

/// What holds of a change at every moment.
pub open spec fn is_change(v: ChangeView) -> bool {
    v.stage is Changing ==> v.follow is Some
}

/// How a change goes on after an event.
pub open spec fn next_change(v: ChangeView, e: NetEvent) -> (ChangeView, NetActionView) {
    let over = ChangeView { follow: None, forgiving: v.forgiving, stage: ChangeStage::Over };
    let telling = ChangeView {
        follow: None,
        forgiving: v.forgiving,
        stage: ChangeStage::Telling,
    };
    match e {
        NetEvent::Failed { not_found, message } => if v.forgiving && not_found {
            (telling, v.follow->0)
        } else {
            (over, NetActionView::Fail { message: message@ })
        },
        _ => if v.stage is Changing {
            (telling, v.follow->0)
        } else {
            (over, NetActionView::Done)
        },
    }
}

impl ChangeRun {
    pub(crate) fn begin(follow: NetAction, forgiving: bool) -> (r: ChangeRun)
        ensures
            r@ == changing(follow@, forgiving),
    {
        ChangeRun { follow: Some(follow), forgiving, stage: ChangeStage::Changing }
    }

    pub(crate) fn nothing() -> (r: ChangeRun)
        ensures
            r@ == no_change(),
    {
        ChangeRun { follow: None, forgiving: false, stage: ChangeStage::Over }
    }

    /// Takes an event in and gives the next action.
    pub fn step(&mut self, event: NetEvent) -> (r: NetAction)
        requires
            is_change(old(self)@),
            can_follow(old(self)@.stage, event),
        ensures
            is_change(final(self)@),
            (final(self)@, r@) == next_change(old(self)@, event),
    {
        let follow = self.follow.take();
        let goes_on = match event {
            NetEvent::Failed { not_found, message } => {
                if !(self.forgiving && not_found) {
                    self.stage = ChangeStage::Over;
                    return NetAction::Fail { message };
                }
                true
            },
            _ => self.stage == ChangeStage::Changing,
        };
        match follow {
            Some(action) => if goes_on {
                self.stage = ChangeStage::Telling;
                action
            } else {
                self.stage = ChangeStage::Over;
                NetAction::Done
            },
            None => {
                self.stage = ChangeStage::Over;
                NetAction::Done
            },
        }
    }
}

/// The actions of a change that begins with `first`, where `answer` comes of that
/// and all that follows is done.
pub open spec fn actions_of(
    v: ChangeView,
    first: NetActionView,
    answer: NetEvent,
) -> Seq<NetActionView> {
    let (w, second) = next_change(v, answer);
    if w.stage is Telling {
        seq![first, second, next_change(w, NetEvent::Done).1]
    } else {
        seq![first, second]
    }
}

/// The statuses after actions: what is published is there under its id, and what
/// is destroyed is not.
pub open spec fn told(
    statuses: Map<Seq<char>, ResourceView>,
    actions: Seq<NetActionView>,
) -> Map<Seq<char>, ResourceView>
    decreases actions.len(),
{
    if actions.len() == 0 {
        statuses
    } else {
        let before = told(statuses, actions.drop_last());
        match actions.last() {
            NetActionView::Publish { id, spec } => before.insert(id, spec),
            NetActionView::Destroy { typ, id } => before.remove(id),
            _ => before,
        }
    }
}

/// A change that fails publishes nothing: only what the kernel has taken is
/// told of.
pub proof fn what_failed_is_not_told(v: ChangeView, message: String)
    requires
        v.stage is Changing,
    ensures
        next_change(v, NetEvent::Failed { not_found: false, message }).1 is Fail,
        next_change(v, NetEvent::Failed { not_found: false, message }).0.stage is Over,
{
}

/// A change that the kernel takes is told of, once, and then it is over.
pub proof fn what_was_done_is_told_once(follow: NetActionView, forgiving: bool)
    ensures
        ({
            let first = next_change(changing(follow, forgiving), NetEvent::Done);
            &&& first.1 == follow
            &&& first.0.stage is Telling
            &&& next_change(first.0, NetEvent::Done).1 is Done
            &&& next_change(first.0, NetEvent::Done).0.stage is Over
        }),
        no_change().stage is Over,
{
}

/// What is taken back from a link that is gone is as good as taken back: its
/// status goes too. To add something to a link that is not there fails, and so
/// does every other failure.
pub proof fn only_a_missing_link_is_forgiven(
    follow: NetActionView,
    forgiving: bool,
    not_found: bool,
    message: String,
)
    ensures
        ({
            let r = next_change(
                changing(follow, forgiving),
                NetEvent::Failed { not_found, message },
            );
            if forgiving && not_found {
                r.1 == follow && r.0.stage is Telling
            } else {
                r.1 == (NetActionView::Fail { message: message@ }) && r.0.stage is Over
            }
        }),
{
}

} // verus!
