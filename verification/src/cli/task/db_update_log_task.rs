//! Saving the deployment after the log service has been scaled.
use crate::cli::config::DeploymentConfig;
use crate::cli::task::task_base::TaskId;
use vstd::prelude::*;

verus! {

/// A task that saves the deployment after the log service has been scaled.
#[derive(Clone, Debug)]
pub struct DbDeploymentUpdateLogTask {
    pub task_id: TaskId,
    pub config: DeploymentConfig,
    pub cluster_name: String,
}

impl DbDeploymentUpdateLogTask {
    /// A task that saves `config` for `cluster_name`.
    pub fn new(task_id: TaskId, config: DeploymentConfig, cluster_name: String) -> (t: Self)
        ensures
            t.task_id == task_id,
            t.config == config,
            t.cluster_name == cluster_name,
    {
        DbDeploymentUpdateLogTask { task_id, config, cluster_name }
    }
}

} // verus!
