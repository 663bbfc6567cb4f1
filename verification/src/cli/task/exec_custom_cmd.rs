//! Running a user's shell command on every host of the deployment.
use crate::cli::config::DeploymentConfig;
use crate::cli::task::task_base::{TaskExecutionContext, TaskHost, TaskId};
use crate::text::copy_string;
use vstd::prelude::*;

verus! {

/// A task that runs a user's command on one host.
#[derive(Clone, Debug)]
pub struct ExecCustomCommand {
    pub cmd: String,
    pub task_id: TaskId,
    pub config: DeploymentConfig,
}

/// The hosts of all services, service after service.
pub open spec fn all_hosts_view(groups: Seq<Vec<String>>) -> Seq<Seq<char>> {
    groups.map_values(|g: Vec<String>| g.deep_view()).flatten()
}

fn flatten_hosts(groups: &Vec<Vec<String>>) -> (hosts: Vec<String>)
    ensures
        hosts.deep_view() == all_hosts_view(groups@),
{
    let ghost gv = groups@.map_values(|g: Vec<String>| g.deep_view());
    let mut hosts: Vec<String> = Vec::new();
    let mut g: usize = 0;
    while g < groups.len()
        invariant
            0 <= g <= groups.len(),
            gv == groups@.map_values(|g: Vec<String>| g.deep_view()),
            hosts.deep_view() =~= gv.take(g as int).flatten(),
        decreases groups.len() - g,
    {
        let group = &groups[g];
        assert(gv[g as int] == group.deep_view());
        let ghost base = hosts.deep_view();
        let mut k: usize = 0;
        while k < group.len()
            invariant
                0 <= k <= group.len(),
                hosts.deep_view() =~= base + group.deep_view().take(k as int),
            decreases group.len() - k,
        {
            let ghost before = hosts.deep_view();
            hosts.push(copy_string(&group[k]));
            assert(hosts.deep_view() =~= before.push(group[k as int]@));
            k = k + 1;
        }
        proof {
            assert(group.deep_view().take(group.len() as int) =~= group.deep_view());
            assert(gv.take(g + 1) =~= gv.take(g as int).push(gv[g as int]));
            gv.take(g as int).lemma_flatten_push(gv[g as int]);
        }
        g = g + 1;
    }
    assert(gv.take(groups.len() as int) =~= gv);
    hosts
}

impl ExecCustomCommand {
    /// A task that runs `cmd`.
    pub fn new(cmd: String, task_id: TaskId, config: DeploymentConfig) -> (t: Self)
        ensures
            t.cmd == cmd,
            t.task_id == task_id,
            t.config == config,
    {
        ExecCustomCommand { cmd, task_id, config }
    }

    /// One task per host of `service_hosts` (the host lists of the
    /// deployment's services, in turn), each running `cmd_string` over SSH
    /// as the connection's user and port.
    pub fn from_config(cmd_string: String, config: &DeploymentConfig, service_hosts: &Vec<Vec<String>>)
        -> (tasks: Vec<TaskExecutionContext<ExecCustomCommand>>)
        ensures
            tasks@.len() == all_hosts_view(service_hosts@).len(),
            forall|i: int| 0 <= i < tasks@.len() ==> {
                let t = #[trigger] tasks@[i];
                &&& t.task_input@.len() == 0
                &&& t.task.cmd@ == cmd_string@
                &&& t.task.task_id.cmd@ == "exec_cmd"@
                &&& t.task.task_id.task@ == ""@
                &&& t.task.config@ == config@
                &&& t.task_host matches TaskHost::Remote { user, port, hosts }
                &&& user@ == config.connection.username@
                &&& port == config.connection.ssh_port_spec() as usize
                &&& hosts@ == all_hosts_view(service_hosts@)[i]
            },
    {
        let all_hosts = flatten_hosts(service_hosts);
        let conn_user = &config.connection.username;
        let ssh_port = config.connection.ssh_port();
        let mut tasks: Vec<TaskExecutionContext<ExecCustomCommand>> = Vec::new();
        let mut i: usize = 0;
        while i < all_hosts.len()
            invariant
                0 <= i <= all_hosts.len(),
                all_hosts.deep_view() == all_hosts_view(service_hosts@),
                ssh_port == config.connection.ssh_port_spec(),
                conn_user == &config.connection.username,
                tasks@.len() == i,
                forall|k: int| 0 <= k < i ==> {
                    let t = #[trigger] tasks@[k];
                    &&& t.task_input@.len() == 0
                    &&& t.task.cmd@ == cmd_string@
                    &&& t.task.task_id.cmd@ == "exec_cmd"@
                    &&& t.task.task_id.task@ == ""@
                    &&& t.task.config@ == config@
                    &&& t.task_host matches TaskHost::Remote { user, port, hosts }
                    &&& user@ == config.connection.username@
                    &&& port == config.connection.ssh_port_spec() as usize
                    &&& hosts@ == all_hosts_view(service_hosts@)[k]
                },
            decreases all_hosts.len() - i,
        {
            let task_host = TaskHost::Remote {
                user: copy_string(conn_user),
                port: ssh_port as usize,
                hosts: copy_string(&all_hosts[i]),
            };
            let task = ExecCustomCommand::new(
                copy_string(&cmd_string),
                TaskId { cmd: String::from_str("exec_cmd"), task: String::from_str("") },
                config.copy(),
            );
            tasks.push(TaskExecutionContext { task_input: Vec::new(), task, task_host });
            i = i + 1;
        }
        tasks
    }
}

} // verus!
