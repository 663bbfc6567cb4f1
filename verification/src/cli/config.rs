//! The configuration a command runs with: how to reach the hosts and what is
//! deployed on them.
use crate::config::connection::{Connection, ConnectionView};
use crate::config::deployment::{Deployment, DeploymentView};
use crate::text::copy_string;
use vstd::prelude::*;

verus! {

/// A deployment together with the connection used to reach its hosts.
#[derive(PartialEq, Debug, Clone)]
pub struct DeploymentConfig {
    pub connection: Connection,
    pub deployment: Deployment,
}

impl View for DeploymentConfig {
    type V = (ConnectionView, DeploymentView);

    open spec fn view(&self) -> (ConnectionView, DeploymentView) {
        (self.connection@, self.deployment@)
    }
}

impl DeploymentConfig {
    /// A copy with the same contents.
    pub fn copy(&self) -> (c: DeploymentConfig)
        ensures
            c@ == self@,
    {
        DeploymentConfig { connection: self.connection.copy(), deployment: self.deployment.copy() }
    }

    /// The directory the deployment is installed in.
    pub fn install_dir(&self) -> (d: String)
        ensures
            d@ == self.deployment.install_dir@,
    {
        copy_string(&self.deployment.install_dir)
    }
}

} // verus!
