//! A read-only view of the machine configuration.

use crate::config::types::{
    InstallSection, MachineConfig, NetworkSection, PodConfig, RuntimeSection, ServiceConfig,
    Sysctl, TimeSection,
};
use vstd::prelude::*;
use vstd::string::*;

verus! {

/// A read-only view of a loaded configuration.
#[derive(Debug)]
pub struct Provider {
    config: MachineConfig,
}

impl Provider {
    /// The configuration.
    pub closed spec fn config(self) -> MachineConfig {
        self.config
    }

    pub fn new(config: MachineConfig) -> (r: Provider)
        ensures
            r.config() == config,
    {
        Provider { config }
    }

    pub fn hostname(&self) -> (r: Option<&str>)
        ensures
            match r {
                Some(h) => self.config().machine.hostname matches Some(s) && h@ == s@,
                None => self.config().machine.hostname is None,
            },
    {
        match &self.config.machine.hostname {
            Some(h) => Some(h.as_str()),
            None => None,
        }
    }

    pub fn sysctls(&self) -> (r: &[Sysctl])
        ensures
            r@ == self.config().machine.sysctls@,
    {
        self.config.machine.sysctls.as_slice()
    }

    pub fn services(&self) -> (r: &[ServiceConfig])
        ensures
            r@ == self.config().machine.services@,
    {
        self.config.machine.services.as_slice()
    }

    pub fn network(&self) -> (r: &NetworkSection)
        ensures
            *r == self.config().machine.network,
    {
        &self.config.machine.network
    }

    pub fn install(&self) -> (r: Option<&InstallSection>)
        ensures
            match r {
                Some(i) => self.config().machine.install == Some(*i),
                None => self.config().machine.install is None,
            },
    {
        match &self.config.machine.install {
            Some(i) => Some(i),
            None => None,
        }
    }

    pub fn time(&self) -> (r: &TimeSection)
        ensures
            *r == self.config().machine.time,
    {
        &self.config.machine.time
    }

    pub fn runtime(&self) -> (r: &RuntimeSection)
        ensures
            *r == self.config().machine.runtime,
    {
        &self.config.machine.runtime
    }

    pub fn pods(&self) -> (r: &[PodConfig])
        ensures
            r@ == self.config().machine.pods@,
    {
        self.config.machine.pods.as_slice()
    }
}

} // verus!
