//! Checking that each host can be reached over SSH before the work starts.
use crate::cli::config::DeploymentConfig;
use crate::cli::task::task_base::{TaskExecutionContext, TaskHost, TaskId};
use crate::cli::task::upload_task::runs_on;
use crate::text::copy_string;
use vstd::prelude::*;

verus! {

/// A task that runs `true` on a host over SSH.
#[derive(Clone, Debug)]
pub struct SshCheckTask {
    pub task_id: TaskId,
    pub config: DeploymentConfig,
}

impl SshCheckTask {
    /// One check per host of `hosts`, in order, under the `ssh-check`
    /// command and the name `task_name`, run as the connection's user and port.
    pub fn from_hosts(config: &DeploymentConfig, hosts: &Vec<String>, task_name: &str) -> (tasks: Vec<TaskExecutionContext<SshCheckTask>>)
        ensures
            tasks@.len() == hosts@.len(),
            forall|i: int| 0 <= i < tasks@.len() ==> {
                let t = #[trigger] tasks@[i];
                &&& t.task.task_id.cmd@ == "ssh-check"@
                &&& t.task.task_id.task@ == task_name@
                &&& t.task.config@ == config@
                &&& t.task_input@.len() == 0
                &&& runs_on(t.task_host, *config, hosts@[i]@)
            },
    {
        proof {
            reveal_strlit("ssh-check");
        }
        let mut tasks: Vec<TaskExecutionContext<SshCheckTask>> = Vec::new();
        let mut i: usize = 0;
        while i < hosts.len()
            invariant
                0 <= i <= hosts.len(),
                tasks@.len() == i,
                forall|k: int| 0 <= k < i ==> {
                    let t = #[trigger] tasks@[k];
                    &&& t.task.task_id.cmd@ == "ssh-check"@
                    &&& t.task.task_id.task@ == task_name@
                    &&& t.task.config@ == config@
                    &&& t.task_input@.len() == 0
                    &&& runs_on(t.task_host, *config, hosts@[k]@)
                },
            decreases hosts.len() - i,
        {
            let task = SshCheckTask {
                task_id: TaskId { cmd: String::from_str("ssh-check"), task: String::from_str(task_name) },
                config: config.copy(),
            };
            let task_host = TaskHost::Remote {
                user: copy_string(&config.connection.username),
                port: config.connection.ssh_port() as usize,
                hosts: copy_string(&hosts[i]),
            };
            tasks.push(TaskExecutionContext { task_input: Vec::new(), task, task_host });
            i = i + 1;
        }
        tasks
    }

    /// The error of a check that exited with a status other than 0.
    pub fn failure_message(host: &str, output: &str) -> (m: String)
        ensures
            m@ == "SSH check failed on "@ + host@ + ": "@ + output@,
    {
        proof {
            reveal_strlit("SSH check failed on ");
            reveal_strlit(": ");
        }
        let mut m = String::from_str("SSH check failed on ");
        m.append(host);
        m.append(": ");
        m.append(output);
        m
    }
}

} // verus!
