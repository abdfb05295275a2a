//! The management service: which action each request asks for and how it is
//! answered. The transport and the resource store stand outside; they hand
//! over what was asked and listed, and send what comes back.

use crate::apiserver::mapping::{parse_resource_type, resource_to_fields};
use crate::resources::{ResourceObject, ResourceType};
use crate::text::joined;
use vstd::prelude::*;
use vstd::string::*;

verus! {

/// A node lifecycle action that a request asks for.
#[derive(Debug, PartialEq, Eq)]
pub enum NodeAction {
    Reboot,
    Shutdown,
    Reset,
    Upgrade { url: String, sha256: String },
}

/// What kind of failure a request is answered with.
#[derive(Clone, Copy, Debug, PartialEq, Eq, Structural)]
pub enum Code {
    InvalidArgument,
    Unavailable,
}

/// A failed request's answer.
#[derive(Debug, PartialEq, Eq)]
pub struct Status {
    pub code: Code,
    pub message: String,
}

/// What the node runs.
#[derive(Debug)]
pub struct VersionResponse {
    pub version: String,
    pub image_id: String,
}

/// One listed resource.
#[derive(Debug)]
pub struct ResourceEntry {
    pub id: String,
    pub fields: Vec<(String, String)>,
}

/// What a listed resource says.
#[verifier::ext_equal]
pub struct EntryView {
    pub id: Seq<char>,
    pub fields: Seq<(Seq<char>, Seq<char>)>,
}

impl View for ResourceEntry {
    type V = EntryView;

    open spec fn view(&self) -> EntryView {
        EntryView { id: self.id@, fields: crate::apiserver::mapping::pairs(self.fields@) }
    }
}

/// How an object is listed.
pub open spec fn entry_of(o: crate::resources::ObjectView) -> EntryView {
    EntryView { id: o.id, fields: crate::apiserver::mapping::fields_of(o.spec) }
}

/// The management service of one node.
#[derive(Debug)]
pub struct Machine {
    version: String,
    image_id: String,
}

impl Machine {
    pub closed spec fn version_text(self) -> Seq<char> {
        self.version@
    }

    pub closed spec fn image_text(self) -> Seq<char> {
        self.image_id@
    }

    /// The service of a node that runs `version` from the image `image_id`.
    pub fn new(version: String, image_id: String) -> (r: Machine)
        ensures
            r.version_text() == version@,
            r.image_text() == image_id@,
    {
        Machine { version, image_id }
    }

    /// What the node runs.
    pub fn version(&self) -> (r: VersionResponse)
        ensures
            r.version@ == self.version_text(),
            r.image_id@ == self.image_text(),
    {
        VersionResponse { version: self.version.clone(), image_id: self.image_id.clone() }
    }

    /// The kind of resource that a list request asks for. It is refused as an
    /// invalid argument if and only if there is no kind of that name.
    pub fn requested_type(&self, name: &str) -> (r: Result<ResourceType, Status>)
        ensures
            match r {
                Ok(t) => crate::resources::kind_name(t) == name@,
                Err(s) => {
                    &&& forall|t: ResourceType| #[trigger] crate::resources::kind_name(t) != name@
                    &&& s.code == Code::InvalidArgument
                    &&& s.message@ == "unknown resource type: "@ + name@
                },
            },
    {
        match parse_resource_type(name) {
            Some(t) => Ok(t),
            None => Err(
                Status {
                    code: Code::InvalidArgument,
                    message: joined("unknown resource type: ", name),
                },
            ),
        }
    }

    /// How the objects that the store lists are answered: one entry each, in
    /// the same order.
    pub fn list_resources(&self, listed: &Vec<ResourceObject>) -> (r: Vec<ResourceEntry>)
        ensures
            r@.len() == listed@.len(),
            forall|i: int| 0 <= i < r@.len() ==> (#[trigger] r@[i])@ == entry_of(listed@[i]@),
    {
        let mut out: Vec<ResourceEntry> = Vec::new();
        let mut i: usize = 0;
        while i < listed.len()
            invariant
                i <= listed@.len(),
                out@.len() == i,
                forall|k: int| 0 <= k < i ==> (#[trigger] out@[k])@ == entry_of(listed@[k]@),
            decreases listed@.len() - i,
        {
            out.push(
                ResourceEntry {
                    id: listed[i].metadata.id.clone(),
                    fields: resource_to_fields(&listed[i].spec),
                },
            );
            i += 1;
        }
        out
    }

    /// The action that a reboot request asks for.
    pub fn reboot(&self) -> (r: NodeAction)
        ensures
            r == NodeAction::Reboot,
    {
        NodeAction::Reboot
    }

    /// The action that a shutdown request asks for.
    pub fn shutdown(&self) -> (r: NodeAction)
        ensures
            r == NodeAction::Shutdown,
    {
        NodeAction::Shutdown
    }

    /// The action that a reset request asks for.
    pub fn reset(&self) -> (r: NodeAction)
        ensures
            r == NodeAction::Reset,
    {
        NodeAction::Reset
    }

    /// The action that an upgrade request asks for.
    pub fn upgrade(&self, url: String, sha256: String) -> (r: NodeAction)
        ensures
            r == (NodeAction::Upgrade { url, sha256 }),
    {
        NodeAction::Upgrade { url, sha256 }
    }

    /// The answer to a request for an action, given whether the daemon took
    /// the action: a daemon that is going down takes none.
    pub fn action_answer(&self, taken: bool) -> (r: Result<(), Status>)
        ensures
            match r {
                Ok(_) => taken,
                Err(s) => !taken && s.code == Code::Unavailable && s.message@
                    == "daemon is shutting down"@,
            },
    {
        if taken {
            Ok(())
        } else {
            Err(Status { code: Code::Unavailable, message: "daemon is shutting down".to_owned() })
        }
    }
}

/// A listed object is answered under its own id, with the fields of its own
/// spec.
pub proof fn an_object_is_answered_as_it_is(o: ResourceObject)
    ensures
        entry_of(o@).id == o.metadata.id@,
        entry_of(o@).fields == crate::apiserver::mapping::fields_of(o.spec@),
{
}

} // verus!
