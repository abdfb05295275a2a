//! Sets the hostname.

use crate::controllers::network::NS;
use crate::controllers::{input, Input, InputKind, InputView, Output};
use crate::resources::{Resource, ResourceObject, ResourceType};
use vstd::prelude::*;
use vstd::string::*;

verus! {

/// Sets the hostname.
pub struct HostnameController {}

/// The hostnames among the resources, in their order.
pub open spec fn hostnames(listed: Seq<ResourceObject>) -> Seq<Seq<char>>
    decreases listed.len(),
{
    if listed.len() == 0 {
        seq![]
    } else {
        let before = hostnames(listed.drop_last());
        match listed.last().spec {
            Resource::HostnameSpec(s) => before.push(s.hostname@),
            _ => before,
        }
    }
}

impl HostnameController {
    pub fn new() -> (r: HostnameController) {
        HostnameController {  }
    }

    pub fn name(&self) -> (r: &'static str)
        ensures
            r@ == "hostname"@,
    {
        "hostname"
    }

    pub fn inputs(&self) -> (r: Vec<Input>)
        ensures
            crate::controllers::inputs_of(r@) == seq![
                InputView {
                    namespace: NS@,
                    typ: ResourceType::HostnameSpec,
                    kind: InputKind::Strong,
                },
            ],
    {
        let r = vec![input(NS, ResourceType::HostnameSpec, InputKind::Strong)];
        assert(crate::controllers::inputs_of(r@) =~= seq![
            InputView { namespace: NS@, typ: ResourceType::HostnameSpec, kind: InputKind::Strong },
        ]);
        r
    }

    pub fn outputs(&self) -> (r: Vec<Output>)
        ensures
            r@.len() == 0,
    {
        Vec::new()
    }

    /// The hostnames to set, one after the other.
    pub fn reconcile(&self, listed: &Vec<ResourceObject>) -> (r: Vec<String>)
        ensures
            crate::text::texts(r@) == hostnames(listed@),
    {
        let mut out: Vec<String> = Vec::new();
        let mut i: usize = 0;
        assert(crate::text::texts(out@) =~= hostnames(listed@.take(0)));
        while i < listed.len()
            invariant
                i <= listed@.len(),
                crate::text::texts(out@) == hostnames(listed@.take(i as int)),
            decreases listed@.len() - i,
        {
            proof {
                assert(listed@.take(i + 1).drop_last() =~= listed@.take(i as int));
                assert(listed@.take(i + 1).last() == listed@[i as int]);
            }
            if let Resource::HostnameSpec(s) = &listed[i].spec {
                let h = s.hostname.clone();
                assert(crate::text::texts(out@.push(h)) =~= crate::text::texts(out@).push(h@));
                out.push(h);
            }
            i += 1;
        }
        assert(listed@.take(i as int) =~= listed@);
        out
    }
}

/// The hostnames of two lists are those of the first and then those of the
/// second; a hostname's spec counts with its hostname, and nothing else counts.
pub proof fn every_hostname_is_set(a: Seq<ResourceObject>, b: Seq<ResourceObject>, o: ResourceObject)
    ensures
        hostnames(a + b) == hostnames(a) + hostnames(b),
        hostnames(seq![o]) == match o.spec {
            Resource::HostnameSpec(s) => seq![s.hostname@],
            _ => Seq::<Seq<char>>::empty(),
        },
    decreases b.len(),
{
    assert(seq![o].drop_last() =~= Seq::empty());
    assert(hostnames(seq![o].drop_last()) =~= Seq::empty());
    assert(seq![o].last() == o);
    if b.len() == 0 {
        assert(a + b =~= a);
        assert(hostnames(a) + hostnames(b) =~= hostnames(a));
    } else {
        every_hostname_is_set(a, b.drop_last(), o);
        assert((a + b).drop_last() =~= a + b.drop_last());
        assert((a + b).last() == b.last());
        assert(hostnames(a + b) =~= hostnames(a) + hostnames(b));
    }
}

} // verus!
