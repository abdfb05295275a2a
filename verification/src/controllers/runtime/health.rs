//! Publishes whether the container runtime is ready.

use crate::config::provider::Provider;
use crate::controllers::runtime::NS;
use crate::controllers::{exclusive, Input, Output, OutputKind};
use crate::cri::{CriError, RuntimeVersion};
use crate::resources::{
    ObjectView, Resource, ResourceObject, ResourceType, ResourceView, RuntimeStatus,
};
use vstd::prelude::*;
use vstd::string::*;

verus! {

/// Publishes whether the container runtime is ready.
pub struct RuntimeHealthController {
    provider: Provider,
}

/// What is to be done.
#[derive(Debug)]
pub enum HealthAction {
    /// Ask the runtime whether it is ready, and which it is.
    Probe,
    /// Publish its status.
    Publish { status: ResourceObject },
}

/// The runtime's status as a resource.
pub open spec fn status_object(ready: bool, name: Seq<char>, version: Seq<char>) -> ObjectView {
    ObjectView {
        namespace: NS@,
        id: "containerd"@,
        spec: ResourceView::RuntimeStatus { ready, name, version },
    }
}

/// The runtime's status as a resource.
pub fn status_obj(ready: bool, name: &str, version: &str) -> (r: ResourceObject)
    ensures
        r@ == status_object(ready, name@, version@),
{
    ResourceObject::new(
        NS,
        "containerd",
        Resource::RuntimeStatus(
            RuntimeStatus { ready, name: name.to_owned(), version: version.to_owned() },
        ),
    )
}

/// The status that a runtime's answers amount to: it is not ready, and nothing
/// is known of it, where it failed to answer.
pub open spec fn answered(
    ready: Result<bool, CriError>,
    version: Result<RuntimeVersion, CriError>,
) -> ObjectView {
    match (ready, version) {
        (Ok(ready), Ok(v)) => status_object(ready, v.runtime_name@, v.runtime_version@),
        _ => status_object(false, Seq::empty(), Seq::empty()),
    }
}

impl RuntimeHealthController {
    /// The configuration.
    pub closed spec fn config(self) -> crate::config::types::MachineConfig {
        self.provider.config()
    }

    pub fn new(provider: Provider) -> (r: RuntimeHealthController)
        ensures
            r.config() == provider.config(),
    {
        RuntimeHealthController { provider }
    }

    /// The controller's name, under which it owns what it publishes.
    pub fn name(&self) -> (r: &'static str)
        ensures
            r@ == "runtime-health"@,
    {
        "runtime-health"
    }

    pub fn inputs(&self) -> (r: Vec<Input>)
        ensures
            r@.len() == 0,
    {
        Vec::new()
    }

    pub fn outputs(&self) -> (r: Vec<Output>)
        ensures
            r@ == seq![Output { typ: ResourceType::RuntimeStatus, kind: OutputKind::Exclusive }],
    {
        let r = vec![exclusive(ResourceType::RuntimeStatus)];
        assert(r@ =~= seq![
            Output { typ: ResourceType::RuntimeStatus, kind: OutputKind::Exclusive },
        ]);
        r
    }

    /// The seconds after which the controller runs again.
    pub fn resync_interval(&self) -> (r: Option<u64>)
        ensures
            r == Some(10u64),
    {
        Some(10)
    }

    /// Begins: a runtime that is left alone is not asked.
    pub fn reconcile(&self) -> (r: HealthAction)
        ensures
            match r {
                HealthAction::Publish { status } => self.config().machine.runtime.disabled
                    && status@ == status_object(false, Seq::empty(), Seq::empty()),
                HealthAction::Probe => !self.config().machine.runtime.disabled,
            },
    {
        if self.provider.runtime().disabled {
            let none = String::new();
            HealthAction::Publish { status: status_obj(false, none.as_str(), none.as_str()) }
        } else {
            HealthAction::Probe
        }
    }

    /// The status to publish, given the runtime's answers. That it did not
    /// answer is no failure of the controller.
    pub fn probed(
        &self,
        ready: Result<bool, CriError>,
        version: Result<RuntimeVersion, CriError>,
    ) -> (r: ResourceObject)
        ensures
            r@ == answered(ready, version),
    {
        match (ready, version) {
            (Ok(ready), Ok(v)) => status_obj(
                ready,
                v.runtime_name.as_str(),
                v.runtime_version.as_str(),
            ),
            _ => {
                let none = String::new();
                status_obj(false, none.as_str(), none.as_str())
            },
        }
    }
}

/// A runtime is published as ready if and only if it said so and also said which
/// it is; its name and version are then those that it gave. One that failed to
/// answer either is not ready, and nothing is said of it.
pub proof fn a_runtime_is_ready_when_it_says_so(
    ready: Result<bool, CriError>,
    version: Result<RuntimeVersion, CriError>,
)
    ensures
        ({
            let o = answered(ready, version);
            &&& o.namespace == "runtime"@
            &&& o.id == "containerd"@
            &&& o.spec matches ResourceView::RuntimeStatus { ready: is_ready, name, version: told }
            &&& is_ready <==> ready == Ok::<bool, CriError>(true) && version is Ok
            &&& ready is Ok && version is Ok ==> name == version->Ok_0.runtime_name@ && told
                == version->Ok_0.runtime_version@
            &&& ready is Err || version is Err ==> name.len() == 0 && told.len() == 0
        }),
{
}

} // verus!
