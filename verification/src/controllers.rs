//! Controllers: each watches some kinds of resource, decides what has to be
//! done, and publishes others. What is done to the machine, and the store that
//! resources live in, stand outside: a controller says what to do next and is
//! told what came of it.

use crate::resources::{ResourceObject, ResourceType};
use vstd::prelude::*;
use vstd::string::*;

pub mod block;
pub mod network;
pub mod runtime;
pub mod time;

verus! {

/// How a watched kind wakes a controller.
#[derive(Clone, Copy, Debug, PartialEq, Eq, Structural)]
pub enum InputKind {
    /// The controller holds what it watches until it is done with it.
    Strong,
    /// The controller is merely woken.
    Weak,
}

/// A kind of resource that a controller watches.
#[derive(Debug)]
pub struct Input {
    pub namespace: String,
    pub typ: ResourceType,
    pub kind: InputKind,
}

/// How a published kind is shared.
#[derive(Clone, Copy, Debug, PartialEq, Eq, Structural)]
pub enum OutputKind {
    /// No other controller publishes it.
    Exclusive,
}

/// A kind of resource that a controller publishes.
#[derive(Clone, Copy, Debug, PartialEq, Eq, Structural)]
pub struct Output {
    pub typ: ResourceType,
    pub kind: OutputKind,
}

/// What is watched.
#[verifier::ext_equal]
pub struct InputView {
    pub namespace: Seq<char>,
    pub typ: ResourceType,
    pub kind: InputKind,
}

impl View for Input {
    type V = InputView;

    open spec fn view(&self) -> InputView {
        InputView { namespace: self.namespace@, typ: self.typ, kind: self.kind }
    }
}

/// What is watched.
pub open spec fn inputs_of(v: Seq<Input>) -> Seq<InputView> {
    Seq::new(v.len(), |i: int| v[i]@)
}

/// An input.
pub fn input(namespace: &str, typ: ResourceType, kind: InputKind) -> (r: Input)
    ensures
        r@ == (InputView { namespace: namespace@, typ, kind }),
{
    Input { namespace: namespace.to_owned(), typ, kind }
}

/// An output that no other controller publishes.
pub fn exclusive(typ: ResourceType) -> (r: Output)
    ensures
        r == (Output { typ, kind: OutputKind::Exclusive }),
{
    Output { typ, kind: OutputKind::Exclusive }
}

/// Everything of one kind that a controller publishes: what it published
/// before and is not in here is taken back.
#[derive(Debug)]
pub struct Publication {
    pub typ: ResourceType,
    pub objects: Vec<ResourceObject>,
}

/// What is published.
#[verifier::ext_equal]
pub struct PublicationView {
    pub typ: ResourceType,
    pub objects: Seq<crate::resources::ObjectView>,
}

impl View for Publication {
    type V = PublicationView;

    open spec fn view(&self) -> PublicationView {
        PublicationView { typ: self.typ, objects: crate::resources::objects(self.objects@) }
    }
}

/// What is published, in its order.
pub open spec fn publications(v: Seq<Publication>) -> Seq<PublicationView> {
    Seq::new(v.len(), |i: int| v[i]@)
}

} // verus!
