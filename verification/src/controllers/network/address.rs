//! Gives links their addresses.

use crate::controllers::network::{ChangeRun, ChangeView, NetAction, NetActionView, NetEvent, NS};
use crate::controllers::{exclusive, input, Input, InputKind, InputView, Output, OutputKind};
use crate::resources::{
    AddressSpec, AddressStatus, Resource, ResourceObject, ResourceType, ResourceView,
};
use vstd::prelude::*;
use vstd::string::*;

verus! {

/// The finalizer with which specs are held until they are taken back.
pub const FINALIZER: &'static str = "address-controller";

/// Gives links their addresses.
pub struct AddressController {}

/// How the address of a spec is added: what is known then, and the first action.
pub open spec fn applying(obj: ResourceObject) -> (ChangeView, NetActionView) {
    match obj.spec {
        Resource::AddressSpec(s) => (
            crate::controllers::network::changing(
                NetActionView::Publish {
                    id: obj.metadata.id@,
                    spec: ResourceView::AddressStatus { link: s.link@, address: s.address },
                },
                false,
            ),
            NetActionView::AddAddress { link: s.link@, address: s.address },
        ),
        _ => (crate::controllers::network::no_change(), NetActionView::Done),
    }
}

/// How the address of a spec is taken back.
pub open spec fn reverting(obj: ResourceObject) -> (ChangeView, NetActionView) {
    match obj.spec {
        Resource::AddressSpec(s) => (
            crate::controllers::network::changing(
                NetActionView::Destroy { typ: ResourceType::AddressStatus, id: obj.metadata.id@ },
                true,
            ),
            NetActionView::DelAddress { link: s.link@, address: s.address },
        ),
        _ => (crate::controllers::network::no_change(), NetActionView::Done),
    }
}

impl AddressController {
    pub fn new() -> (r: AddressController) {
        AddressController {  }
    }

    pub fn name(&self) -> (r: &'static str)
        ensures
            r@ == "address"@,
    {
        "address"
    }

    pub fn inputs(&self) -> (r: Vec<Input>)
        ensures
            crate::controllers::inputs_of(r@) == seq![
                InputView {
                    namespace: NS@,
                    typ: ResourceType::AddressSpec,
                    kind: InputKind::Strong,
                },
            ],
    {
        let r = vec![input(NS, ResourceType::AddressSpec, InputKind::Strong)];
        assert(crate::controllers::inputs_of(r@) =~= seq![
            InputView { namespace: NS@, typ: ResourceType::AddressSpec, kind: InputKind::Strong },
        ]);
        r
    }

    pub fn outputs(&self) -> (r: Vec<Output>)
        ensures
            r@ == seq![Output { typ: ResourceType::AddressStatus, kind: OutputKind::Exclusive }],
    {
        let r = vec![exclusive(ResourceType::AddressStatus)];
        assert(r@ =~= seq![
            Output { typ: ResourceType::AddressStatus, kind: OutputKind::Exclusive },
        ]);
        r
    }

    /// Adds the address of a spec, and then publishes it.
    pub fn apply(&self, obj: &ResourceObject) -> (r: (ChangeRun, NetAction))
        ensures
            crate::controllers::network::is_change(r.0@),
            (r.0@, r.1@) == applying(*obj),
            match obj.spec {
                Resource::AddressSpec(s) => {
                    &&& r.1@ == (NetActionView::AddAddress { link: s.link@, address: s.address })
                    &&& r.0@ == crate::controllers::network::changing(
                        NetActionView::Publish {
                            id: obj.metadata.id@,
                            spec: ResourceView::AddressStatus { link: s.link@, address: s.address },
                        },
                        false,
                    )
                },
                _ => r.1@ == NetActionView::Done && r.0@
                    == crate::controllers::network::no_change(),
            },
    {
        match &obj.spec {
            Resource::AddressSpec(s) => {
                let follow = NetAction::Publish {
                    id: obj.metadata.id.clone(),
                    spec: Resource::AddressStatus(
                        AddressStatus { link: s.link.clone(), address: s.address },
                    ),
                };
                (
                    ChangeRun::begin(follow, false),
                    NetAction::AddAddress { link: s.link.clone(), address: s.address },
                )
            },
            _ => (ChangeRun::nothing(), NetAction::Done),
        }
    }

    /// Takes the address of a spec back, and then destroys its status.
    pub fn revert(&self, obj: &ResourceObject) -> (r: (ChangeRun, NetAction))
        ensures
            crate::controllers::network::is_change(r.0@),
            (r.0@, r.1@) == reverting(*obj),
            match obj.spec {
                Resource::AddressSpec(s) => {
                    &&& r.1@ == (NetActionView::DelAddress { link: s.link@, address: s.address })
                    &&& r.0@ == crate::controllers::network::changing(
                        NetActionView::Destroy {
                            typ: ResourceType::AddressStatus,
                            id: obj.metadata.id@,
                        },
                        true,
                    )
                },
                _ => r.1@ == NetActionView::Done && r.0@
                    == crate::controllers::network::no_change(),
            },
    {
        match &obj.spec {
            Resource::AddressSpec(s) => {
                let follow = NetAction::Destroy {
                    typ: ResourceType::AddressStatus,
                    id: obj.metadata.id.clone(),
                };
                (
                    ChangeRun::begin(follow, true),
                    NetAction::DelAddress { link: s.link.clone(), address: s.address },
                )
            },
            _ => (ChangeRun::nothing(), NetAction::Done),
        }
    }
}

/// An address comes and goes as its spec says: applying a spec adds exactly its
/// address to its link and then publishes the address under the spec's id;
/// reverting it takes the same address off the same link and leaves no status
/// behind.
pub proof fn an_address_comes_and_goes_with_its_spec(
    obj: ResourceObject,
    s: AddressSpec,
    statuses: Map<Seq<char>, ResourceView>,
)
    requires
        obj.spec == Resource::AddressSpec(s),
    ensures
        ({
            let (run, add) = applying(obj);
            let (back, del) = reverting(obj);
            let there = crate::controllers::network::told(
                statuses,
                crate::controllers::network::actions_of(run, add, NetEvent::Done),
            );
            &&& add == (NetActionView::AddAddress { link: s.link@, address: s.address })
            &&& del == (NetActionView::DelAddress { link: s.link@, address: s.address })
            &&& there.contains_key(obj.metadata.id@)
            &&& there[obj.metadata.id@] == (ResourceView::AddressStatus {
                link: s.link@,
                address: s.address,
            })
            &&& crate::controllers::network::told(
                there,
                crate::controllers::network::actions_of(back, del, NetEvent::Done),
            ) == statuses.remove(obj.metadata.id@)
        }),
{
    let (run, add) = applying(obj);
    let (back, del) = reverting(obj);
    let first = crate::controllers::network::actions_of(run, add, NetEvent::Done);
    let second = crate::controllers::network::actions_of(back, del, NetEvent::Done);
    let there = crate::controllers::network::told(statuses, first);
    reveal_with_fuel(crate::controllers::network::told, 4);
    assert(first.drop_last().drop_last().drop_last() =~= Seq::empty());
    assert(second.drop_last().drop_last().drop_last() =~= Seq::empty());
    assert(there == statuses.insert(
        obj.metadata.id@,
        ResourceView::AddressStatus { link: s.link@, address: s.address },
    ));
    assert(crate::controllers::network::told(there, second) =~= statuses.remove(obj.metadata.id@));
}

/// An address that the kernel did not take is not published.
pub proof fn an_address_that_failed_is_not_published(
    obj: ResourceObject,
    statuses: Map<Seq<char>, ResourceView>,
    not_found: bool,
    message: String,
)
    requires
        obj.spec is AddressSpec,
    ensures
        ({
            let (run, add) = applying(obj);
            let actions = crate::controllers::network::actions_of(
                run,
                add,
                NetEvent::Failed { not_found, message },
            );
            &&& actions == seq![add, NetActionView::Fail { message: message@ }]
            &&& crate::controllers::network::told(statuses, actions) == statuses
        }),
{
    let (run, add) = applying(obj);
    let actions = crate::controllers::network::actions_of(
        run,
        add,
        NetEvent::Failed { not_found, message },
    );
    reveal_with_fuel(crate::controllers::network::told, 4);
    assert(actions.drop_last().drop_last() =~= Seq::empty());
}

} // verus!
