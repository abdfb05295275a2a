//! Adds routes.

use crate::controllers::network::{
    ChangeRun, ChangeView, NetAction, NetActionView, NetEvent, RouteReq, RouteView, NS,
};
use crate::controllers::{exclusive, input, Input, InputKind, InputView, Output, OutputKind};
use crate::resources::{
    Resource, ResourceObject, ResourceType, ResourceView, RouteSpec, RouteStatus,
};
use vstd::prelude::*;
use vstd::string::*;

verus! {

/// The finalizer with which specs are held until they are taken back.
pub const FINALIZER: &'static str = "route-controller";

/// Adds routes.
pub struct RouteController {}

/// The route that a spec asks for.
pub open spec fn route_of(s: RouteSpec) -> RouteView {
    RouteView {
        destination: s.destination,
        gateway: s.gateway,
        link: s.link@,
        metric: s.metric,
    }
}

/// The status of a route that was added.
pub open spec fn status_of(s: RouteSpec) -> ResourceView {
    ResourceView::RouteStatus {
        destination: s.destination,
        gateway: s.gateway,
        link: s.link@,
    }
}

/// How the route of a spec is added: what is known then, and the first action.
pub open spec fn applying(obj: ResourceObject) -> (ChangeView, NetActionView) {
    match obj.spec {
        Resource::RouteSpec(s) => (
            crate::controllers::network::changing(
                NetActionView::Publish { id: obj.metadata.id@, spec: status_of(s) },
                false,
            ),
            NetActionView::AddRoute { route: route_of(s) },
        ),
        _ => (crate::controllers::network::no_change(), NetActionView::Done),
    }
}

/// How the route of a spec is taken back.
pub open spec fn reverting(obj: ResourceObject) -> (ChangeView, NetActionView) {
    match obj.spec {
        Resource::RouteSpec(s) => (
            crate::controllers::network::changing(
                NetActionView::Destroy { typ: ResourceType::RouteStatus, id: obj.metadata.id@ },
                true,
            ),
            NetActionView::DelRoute { route: route_of(s) },
        ),
        _ => (crate::controllers::network::no_change(), NetActionView::Done),
    }
}

fn request(s: &RouteSpec) -> (r: RouteReq)
    ensures
        r@ == route_of(*s),
{
    RouteReq {
        destination: s.destination,
        gateway: s.gateway,
        link: s.link.clone(),
        metric: s.metric,
    }
}

impl RouteController {
    pub fn new() -> (r: RouteController) {
        RouteController {  }
    }

    pub fn name(&self) -> (r: &'static str)
        ensures
            r@ == "route"@,
    {
        "route"
    }

    /// Besides routes, addresses are watched: a gateway cannot be reached
    /// before the address on its link is there, and a route that failed for
    /// that is tried again when the address lands.
    pub fn inputs(&self) -> (r: Vec<Input>)
        ensures
            crate::controllers::inputs_of(r@) == seq![
                InputView {
                    namespace: NS@,
                    typ: ResourceType::RouteSpec,
                    kind: InputKind::Strong,
                },
                InputView {
                    namespace: NS@,
                    typ: ResourceType::AddressStatus,
                    kind: InputKind::Weak,
                },
            ],
    {
        let r = vec![
            input(NS, ResourceType::RouteSpec, InputKind::Strong),
            input(NS, ResourceType::AddressStatus, InputKind::Weak),
        ];
        assert(crate::controllers::inputs_of(r@) =~= seq![
            InputView { namespace: NS@, typ: ResourceType::RouteSpec, kind: InputKind::Strong },
            InputView { namespace: NS@, typ: ResourceType::AddressStatus, kind: InputKind::Weak },
        ]);
        r
    }

    pub fn outputs(&self) -> (r: Vec<Output>)
        ensures
            r@ == seq![Output { typ: ResourceType::RouteStatus, kind: OutputKind::Exclusive }],
    {
        let r = vec![exclusive(ResourceType::RouteStatus)];
        assert(r@ =~= seq![
            Output { typ: ResourceType::RouteStatus, kind: OutputKind::Exclusive },
        ]);
        r
    }

    /// Adds the route of a spec, and then publishes it.
    pub fn apply(&self, obj: &ResourceObject) -> (r: (ChangeRun, NetAction))
        ensures
            crate::controllers::network::is_change(r.0@),
            (r.0@, r.1@) == applying(*obj),
    {
        match &obj.spec {
            Resource::RouteSpec(s) => {
                let follow = NetAction::Publish {
                    id: obj.metadata.id.clone(),
                    spec: Resource::RouteStatus(
                        RouteStatus {
                            destination: s.destination,
                            gateway: s.gateway,
                            link: s.link.clone(),
                        },
                    ),
                };
                (ChangeRun::begin(follow, false), NetAction::AddRoute { route: request(s) })
            },
            _ => (ChangeRun::nothing(), NetAction::Done),
        }
    }

    /// Takes the route of a spec back, and then destroys its status.
    pub fn revert(&self, obj: &ResourceObject) -> (r: (ChangeRun, NetAction))
        ensures
            crate::controllers::network::is_change(r.0@),
            (r.0@, r.1@) == reverting(*obj),
            match obj.spec {
                Resource::RouteSpec(s) => {
                    &&& r.1@ == (NetActionView::DelRoute { route: route_of(s) })
                    &&& r.0@ == crate::controllers::network::changing(
                        NetActionView::Destroy {
                            typ: ResourceType::RouteStatus,
                            id: obj.metadata.id@,
                        },
                        true,
                    )
                },
                _ => r.1@ == NetActionView::Done && r.0@
                    == crate::controllers::network::no_change(),
            },
    {
        match &obj.spec {
            Resource::RouteSpec(s) => {
                let follow = NetAction::Destroy {
                    typ: ResourceType::RouteStatus,
                    id: obj.metadata.id.clone(),
                };
                (ChangeRun::begin(follow, true), NetAction::DelRoute { route: request(s) })
            },
            _ => (ChangeRun::nothing(), NetAction::Done),
        }
    }
}

/// A route converges: where adding it fails, the call fails and tells of nothing;
/// the next call adds it again, as its spec says, and where that succeeds, so does
/// the call, and the route's status is there.
pub proof fn a_route_that_failed_is_added_by_the_next_call(
    obj: ResourceObject,
    s: RouteSpec,
    statuses: Map<Seq<char>, ResourceView>,
    not_found: bool,
    message: String,
)
    requires
        obj.spec == Resource::RouteSpec(s),
    ensures
        ({
            let (run, add) = applying(obj);
            let first = crate::controllers::network::actions_of(
                run,
                add,
                NetEvent::Failed { not_found, message },
            );
            let second = crate::controllers::network::actions_of(run, add, NetEvent::Done);
            let between = crate::controllers::network::told(statuses, first);
            &&& add == (NetActionView::AddRoute { route: route_of(s) })
            &&& first == seq![add, NetActionView::Fail { message: message@ }]
            &&& between == statuses
            &&& second == seq![
                add,
                NetActionView::Publish { id: obj.metadata.id@, spec: status_of(s) },
                NetActionView::Done,
            ]
            &&& crate::controllers::network::told(between, second) == statuses.insert(
                obj.metadata.id@,
                status_of(s),
            )
        }),
{
    let (run, add) = applying(obj);
    let first = crate::controllers::network::actions_of(
        run,
        add,
        NetEvent::Failed { not_found, message },
    );
    let second = crate::controllers::network::actions_of(run, add, NetEvent::Done);
    reveal_with_fuel(crate::controllers::network::told, 4);
    assert(first.drop_last().drop_last() =~= Seq::empty());
    assert(second.drop_last().drop_last().drop_last() =~= Seq::empty());
}

/// A route comes and goes as its spec says: to its destination, through its
/// gateway, over its link and with its metric. Reverting the spec takes the same
/// route back and leaves no status behind.
pub proof fn a_route_comes_and_goes_with_its_spec(
    obj: ResourceObject,
    s: RouteSpec,
    statuses: Map<Seq<char>, ResourceView>,
)
    requires
        obj.spec == Resource::RouteSpec(s),
    ensures
        ({
            let (run, add) = applying(obj);
            let (back, del) = reverting(obj);
            let there = crate::controllers::network::told(
                statuses,
                crate::controllers::network::actions_of(run, add, NetEvent::Done),
            );
            &&& add matches NetActionView::AddRoute { route }
            &&& del == (NetActionView::DelRoute { route })
            &&& route.destination == s.destination
            &&& route.gateway == s.gateway
            &&& route.link == s.link@
            &&& route.metric == s.metric
            &&& there.contains_key(obj.metadata.id@)
            &&& there[obj.metadata.id@] == (ResourceView::RouteStatus {
                destination: s.destination,
                gateway: s.gateway,
                link: s.link@,
            })
            &&& crate::controllers::network::told(
                there,
                crate::controllers::network::actions_of(back, del, NetEvent::Done),
            ) == statuses.remove(obj.metadata.id@)
        }),
{
    let (run, add) = applying(obj);
    let (back, del) = reverting(obj);
    let first = crate::controllers::network::actions_of(run, add, NetEvent::Done);
    let second = crate::controllers::network::actions_of(back, del, NetEvent::Done);
    let there = crate::controllers::network::told(statuses, first);
    reveal_with_fuel(crate::controllers::network::told, 4);
    assert(first.drop_last().drop_last().drop_last() =~= Seq::empty());
    assert(second.drop_last().drop_last().drop_last() =~= Seq::empty());
    assert(there == statuses.insert(obj.metadata.id@, status_of(s)));
    assert(crate::controllers::network::told(there, second) =~= statuses.remove(obj.metadata.id@));
}

} // verus!
