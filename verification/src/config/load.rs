//! The loaded configuration as a resource, and what can go wrong in loading.

use crate::resources::{MachineConfigSpec, ObjectView, Resource, ResourceObject, ResourceView};
use vstd::prelude::*;
use vstd::string::*;

verus! {

/// Why a configuration could not be loaded.
#[derive(Debug)]
pub enum ConfigError {
    Io { path: String, message: String },
    Parse { message: String },
}

/// How a loading error is shown.
pub open spec fn error_text(e: ConfigError) -> Seq<char> {
    match e {
        ConfigError::Io { path, message } => "reading config "@ + path@ + ": "@ + message@,
        ConfigError::Parse { message } => "parsing config: "@ + message@,
    }
}

impl ConfigError {
    /// How the error is shown.
    pub fn to_string(&self) -> (r: String)
        ensures
            r@ == error_text(*self),
    {
        match self {
            ConfigError::Io { path, message } => {
                let mut s = "reading config ".to_owned();
                s.append(path.as_str());
                s.append(": ");
                s.append(message.as_str());
                s
            },
            ConfigError::Parse { message } => crate::text::joined(
                "parsing config: ",
                message.as_str(),
            ),
        }
    }
}

/// The resource that stands for the configuration; `raw_yaml` is the document
/// that it was parsed from.
pub fn to_resource(raw_yaml: String) -> (r: ResourceObject)
    ensures
        r@ == (ObjectView {
            namespace: "runtime"@,
            id: "machine-config"@,
            spec: ResourceView::MachineConfig { raw_yaml: raw_yaml@ },
        }),
{
    ResourceObject::new(
        "runtime",
        "machine-config",
        Resource::MachineConfig(MachineConfigSpec { raw_yaml }),
    )
}

/// A loading error shows what went wrong, and for a file also which.
pub proof fn an_error_shows_its_cause(e: ConfigError)
    ensures
        e matches ConfigError::Io { path, message } ==> crate::text::shows(error_text(e), path@)
            && crate::text::shows(error_text(e), ": "@ + message@),
        e matches ConfigError::Parse { message } ==> crate::text::shows(error_text(e), message@),
{
    let m = error_text(e);
    let none = Seq::<char>::empty();
    match e {
        ConfigError::Io { path, message } => {
            crate::text::lemma_shows(m, "reading config "@, path@, ": "@ + message@);
            crate::text::lemma_shows(m, "reading config "@ + path@, ": "@ + message@, none);
        },
        ConfigError::Parse { message } => {
            crate::text::lemma_shows(m, "parsing config: "@, message@, none);
        },
    }
}

} // verus!
