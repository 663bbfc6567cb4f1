//! Installing the MonographDB database on a host with the uploaded install script.
use crate::cli::config::DeploymentConfig;
use crate::cli::task::task_base::{task_host_view, TaskExecutionContext, TaskHost, TaskId};
use crate::cli::MONOGRAPH_INSTALL_SCRIPT;
use vstd::prelude::*;

verus! {

/// A task that runs the database install script on one host.
#[derive(Clone, Debug)]
pub struct MonographInstall {
    pub config: DeploymentConfig,
    pub task_id: TaskId,
}

impl MonographInstall {
    /// A task for `config`.
    pub fn new(config: DeploymentConfig, task_id: TaskId) -> (t: Self)
        ensures
            t.config == config,
            t.task_id == task_id,
    {
        MonographInstall { config, task_id }
    }

    /// The single install task, run on `task_host`.
    pub fn from_config(config: &DeploymentConfig, task_host: TaskHost) -> (tasks: Vec<TaskExecutionContext<MonographInstall>>)
        ensures
            tasks@.len() == 1,
            tasks@[0].task_input@.len() == 0,
            tasks@[0].task.task_id.cmd@ == "install"@,
            tasks@[0].task.task_id.task@ == "monograph-install"@,
            tasks@[0].task.config@ == config@,
            task_host_view(tasks@[0].task_host) == task_host_view(task_host),
    {
        let task = MonographInstall::new(
            config.copy(),
            TaskId { cmd: String::from_str("install"), task: String::from_str("monograph-install") },
        );
        vec![TaskExecutionContext { task_input: Vec::new(), task, task_host }]
    }

    /// The shell line that runs the install script with the release's
    /// libraries on the library path.
    pub fn install_command(&self) -> (cmd: String)
        ensures
            cmd@ == "export LD_LIBRARY_PATH="@ + self.config.deployment.install_dir@
                + "/monographdb-release/install/lib:$LD_LIBRARY_PATH; /bin/bash "@
                + self.config.deployment.install_dir@ + "/"@ + MONOGRAPH_INSTALL_SCRIPT@,
    {
        proof {
            reveal_strlit("export LD_LIBRARY_PATH=");
            reveal_strlit("/monographdb-release/install/lib:$LD_LIBRARY_PATH; /bin/bash ");
            reveal_strlit("/");
        }
        let dir = self.config.install_dir();
        let mut cmd = String::from_str("export LD_LIBRARY_PATH=");
        cmd.append(dir.as_str());
        cmd.append("/monographdb-release/install/lib:$LD_LIBRARY_PATH; /bin/bash ");
        cmd.append(dir.as_str());
        cmd.append("/");
        cmd.append(MONOGRAPH_INSTALL_SCRIPT);
        cmd
    }

    /// Where the installed database keeps its data: `{install_dir}/datafarm`.
    pub fn datafarm_path(&self) -> (p: String)
        ensures
            p@ == self.config.deployment.install_dir@ + "/datafarm"@,
    {
        proof {
            reveal_strlit("/datafarm");
        }
        let mut p = self.config.install_dir();
        p.append("/datafarm");
        p
    }
}

} // verus!
