//! Task groups: the tasks of a command, in the order they run, cut into
//! stages at barriers.
use crate::cli::config::DeploymentConfig;
use crate::cli::task::cassandra_ctl_task::{storage_hosts, CassandraCtlTask, CASSANDRA_CMD_STR};
use crate::cli::task::exec_custom_cmd::{all_hosts_view, ExecCustomCommand};
use crate::cli::task::monograph_install_task::MonographInstall;
use crate::cli::task::task_base::{stage_end, TaskExecutionContext, TaskHost, TaskValue};
use crate::cli::task::upload_task::{cass_conf_items, data_dir_item, hosts_plan, runs_on, upload_is, UploadTask};
use crate::cli::CommandArgs;
use crate::text::copy_string;
use vstd::prelude::*;

verus! {

/// A task of a group, whichever kind it is.
#[derive(Clone, Debug)]
pub enum PlannedTask {
    Upload(TaskExecutionContext<UploadTask>),
    CassandraCtl(TaskExecutionContext<CassandraCtlTask>),
    Install(TaskExecutionContext<MonographInstall>),
    Exec(TaskExecutionContext<ExecCustomCommand>),
}

/// A task context that can stand in a group.
pub trait Planned: Sized {
    /// The group task it becomes.
    spec fn planned(self) -> PlannedTask;

    /// Makes it a group task.
    fn into_planned(self) -> (p: PlannedTask)
        ensures
            p == self.planned(),
    ;
}

impl Planned for TaskExecutionContext<UploadTask> {
    open spec fn planned(self) -> PlannedTask {
        PlannedTask::Upload(self)
    }

    fn into_planned(self) -> (p: PlannedTask) {
        PlannedTask::Upload(self)
    }
}

impl Planned for TaskExecutionContext<CassandraCtlTask> {
    open spec fn planned(self) -> PlannedTask {
        PlannedTask::CassandraCtl(self)
    }

    fn into_planned(self) -> (p: PlannedTask) {
        PlannedTask::CassandraCtl(self)
    }
}

impl Planned for TaskExecutionContext<MonographInstall> {
    open spec fn planned(self) -> PlannedTask {
        PlannedTask::Install(self)
    }

    fn into_planned(self) -> (p: PlannedTask) {
        PlannedTask::Install(self)
    }
}

impl Planned for TaskExecutionContext<ExecCustomCommand> {
    open spec fn planned(self) -> PlannedTask {
        PlannedTask::Exec(self)
    }

    fn into_planned(self) -> (p: PlannedTask) {
        PlannedTask::Exec(self)
    }
}

fn append_planned<T: Planned>(dst: &mut Vec<PlannedTask>, src: Vec<T>)
    ensures
        final(dst)@ == old(dst)@ + src@.map_values(|x: T| x.planned()),
{
    let ghost orig = src@;
    let ghost base = dst@;
    let mut src = src;
    let total = src.len();
    let mut k: usize = 0;
    while src.len() > 0
        invariant
            k + src@.len() == orig.len(),
            orig.len() == total,
            src@ == orig.skip(k as int),
            dst@ == base + orig.take(k as int).map_values(|x: T| x.planned()),
        decreases src@.len(),
    {
        assert(src@[0] == orig[k as int]);
        let x = src.remove(0);
        dst.push(x.into_planned());
        proof {
            assert(orig.take(k + 1) =~= orig.take(k as int).push(x));
            assert(orig.take(k + 1).map_values(|x: T| x.planned()) =~= orig.take(k as int).map_values(|x: T| x.planned()).push(x.planned()));
            assert(src@ =~= orig.skip(k + 1));
        }
        k = k + 1;
    }
    assert(orig.take(k as int) =~= orig);
}

/// The shell line that removes the install's coordinator data and
/// transaction log from the data directory.
pub open spec fn rm_log_data_cmd(install_dir: Seq<char>) -> Seq<char> {
    "rm -rf "@ + install_dir + "/datafarm/cc_ng "@ + install_dir + "/datafarm/tx_log"@
}

/// The stage sizes of an install: with Cassandra its configuration uploads
/// (`cass_uploads`), its starts (`cass_starts`) and the install; else the
/// install alone; then, with more than one MonographDB host, the data
/// directory uploads to the others; last the clean-up on every host (`cleanups`).
pub open spec fn install_barrier(cassandra: bool, cass_uploads: nat, cass_starts: nat, hosts: nat, cleanups: nat) -> Seq<usize> {
    (if cassandra { seq![cass_uploads as usize, cass_starts as usize, 1usize] } else { seq![1usize] })
        + (if hosts > 1 { seq![(hosts - 1) as usize] } else { Seq::empty() })
        + seq![cleanups as usize]
}

/// The tasks of the `install` command.
pub struct InstallDBTaskGroup;

proof fn lemma_stage_end_concat(a: Seq<usize>, b: Seq<usize>)
    ensures
        stage_end(a + b, (a + b).len() as int) == stage_end(a, a.len() as int) + stage_end(b, b.len() as int),
    decreases b.len(),
{
    if b.len() > 0 {
        lemma_stage_end_concat(a, b.drop_last());
        assert((a + b).drop_last() =~= a + b.drop_last());
        lemma_stage_end_prefix(a + b, (a + b).len() - 1);
        lemma_stage_end_prefix(b, b.len() - 1);
        assert((a + b).take((a + b).len() - 1) =~= a + b.drop_last());
        assert(b.take(b.len() - 1) =~= b.drop_last());
    }
}

proof fn lemma_stage_end_prefix(s: Seq<usize>, n: int)
    requires
        0 <= n <= s.len(),
    ensures
        stage_end(s, n) == stage_end(s.take(n), n),
    decreases n,
{
    if n > 0 {
        lemma_stage_end_prefix(s, n - 1);
        lemma_stage_end_prefix(s.take(n), n - 1);
        assert(s.take(n).take(n - 1) =~= s.take(n - 1));
    }
}

impl InstallDBTaskGroup {
    /// The tasks of installing the database, cut into stages: where the
    /// store is Cassandra, first the uploads of its configuration generated
    /// per host (`cass_config`), then its starts, then the install on the
    /// first MonographDB host; else the install alone. With more than one
    /// MonographDB host the data directory the install made is then uploaded
    /// to each of the others. Last, on every host of `service_hosts`, the
    /// install's coordinator data and transaction log are removed. The
    /// result is the barrier (the stage sizes) and the tasks; the stages add
    /// up to all the tasks.
    pub fn tasks(&self, config: &DeploymentConfig, monograph_hosts: &Vec<String>, cass_config: &Vec<(String, Vec<String>)>,
        service_hosts: &Vec<Vec<String>>) -> (plan: (Vec<usize>, Vec<PlannedTask>))
        requires
            monograph_hosts@.len() >= 1,
            config.deployment.storage_service.cassandra is Some || monograph_hosts@.len() > 1,
        ensures
            ({
                let cassandra = config.deployment.storage_service.cassandra is Some;
                let cass_plan = hosts_plan(cass_config@.map_values(|e: (String, Vec<String>)| e.0@), cass_conf_items(cass_config@));
                let cu = if cassandra { cass_plan.len() } else { 0 };
                let cs = if cassandra { storage_hosts(config).len() } else { 0 };
                let n = monograph_hosts@.len();
                let install_at = cu + cs;
                let rm_at = install_at + n;
                let cleanups = all_hosts_view(service_hosts@);
                &&& plan.0@ == install_barrier(cassandra, cass_plan.len(), storage_hosts(config).len(), n, cleanups.len())
                &&& plan.1@.len() == rm_at + cleanups.len()
                &&& stage_end(plan.0@, plan.0@.len() as int) == plan.1@.len()
                &&& forall|i: int| 0 <= i < cu ==> (#[trigger] plan.1@[i] matches PlannedTask::Upload(t)
                    && upload_is(t, *config, "install"@, cass_plan[i].1, cass_plan[i].0))
                &&& forall|i: int| cu <= i < install_at ==> (#[trigger] plan.1@[i] matches PlannedTask::CassandraCtl(t)
                    && t.task.task_id.cmd@ == "start"@ && t.task.task_id.task@ == "cassandra-start"@ && t.task.config@ == config@
                    && t.task_input@.len() == 1 && t.task_input@[0].0@ == CASSANDRA_CMD_STR@
                    && (t.task_input@[0].1 matches TaskValue::Str(w) && w@ == "start"@)
                    && runs_on(t.task_host, *config, storage_hosts(config)[i - cu]))
                &&& plan.1@[install_at as int] matches PlannedTask::Install(t)
                    && t.task.task_id.cmd@ == "install"@ && t.task.task_id.task@ == "monograph-install"@ && t.task.config@ == config@
                    && t.task_input@.len() == 0 && runs_on(t.task_host, *config, monograph_hosts@[0]@)
                &&& forall|i: int| install_at < i < rm_at ==> (#[trigger] plan.1@[i] matches PlannedTask::Upload(t)
                    && upload_is(t, *config, "install"@, data_dir_item(*config), monograph_hosts@[i - install_at]@))
                &&& forall|i: int| rm_at <= i < rm_at + cleanups.len() ==> (#[trigger] plan.1@[i] matches PlannedTask::Exec(t)
                    && t.task.cmd@ == rm_log_data_cmd(config.deployment.install_dir@) && t.task.task_id.cmd@ == "exec_cmd"@
                    && t.task.config@ == config@ && t.task_input@.len() == 0 && runs_on(t.task_host, *config, cleanups[i - rm_at]))
            }),
    {
        proof {
            reveal_strlit("rm -rf ");
            reveal_strlit("/datafarm/cc_ng ");
            reveal_strlit("/datafarm/tx_log");
        }
        let ghost cass_plan = hosts_plan(cass_config@.map_values(|e: (String, Vec<String>)| e.0@), cass_conf_items(cass_config@));
        let cassandra = config.deployment.storage_service.cassandra.is_some();
        let install_host = TaskHost::Remote {
            user: copy_string(&config.connection.username),
            port: config.connection.ssh_port() as usize,
            hosts: copy_string(&monograph_hosts[0]),
        };
        let mut barrier: Vec<usize> = Vec::new();
        let mut executable: Vec<PlannedTask> = Vec::new();
        if cassandra {
            let uploads = UploadTask::build_upload_cass_conf_task(config, cass_config);
            let starts = CassandraCtlTask::from_config(CommandArgs::Install { cluster: copy_string(&config.deployment.cluster_name) }, config);
            let install = MonographInstall::from_config(config, install_host);
            barrier.push(uploads.len());
            barrier.push(starts.len());
            barrier.push(install.len());
            assert(cass_plan.len() == uploads@.len() && storage_hosts(config).len() == starts@.len());
            append_planned(&mut executable, uploads);
            let ghost e1 = executable@;
            append_planned(&mut executable, starts);
            let ghost e2 = executable@;
            append_planned(&mut executable, install);
            proof {
                assert forall|i: int| 0 <= i < cass_plan.len() implies (#[trigger] executable@[i] matches PlannedTask::Upload(t)
                    && upload_is(t, *config, "install"@, cass_plan[i].1, cass_plan[i].0)) by {
                    assert(executable@[i] == e1[i]);
                }
                assert forall|i: int| cass_plan.len() <= i < cass_plan.len() + storage_hosts(config).len() implies (#[trigger] executable@[i] matches PlannedTask::CassandraCtl(t)
                    && t.task.task_id.cmd@ == "start"@ && t.task.task_id.task@ == "cassandra-start"@ && t.task.config@ == config@
                    && t.task_input@.len() == 1 && t.task_input@[0].0@ == CASSANDRA_CMD_STR@
                    && (t.task_input@[0].1 matches TaskValue::Str(w) && w@ == "start"@)
                    && runs_on(t.task_host, *config, storage_hosts(config)[i - cass_plan.len()])) by {
                    assert(executable@[i] == e2[i]);
                    assert(e2[i] == starts@[i - cass_plan.len()].planned());
                }
            }
        } else {
            let install = MonographInstall::from_config(config, install_host);
            barrier.push(install.len());
            append_planned(&mut executable, install);
        }
        let ghost install_at = executable@.len() - 1;
        let ghost before_data = executable@;
        let n = monograph_hosts.len();
        if n > 1 {
            let mut dest_hosts: Vec<String> = Vec::new();
            let mut i: usize = 1;
            while i < n
                invariant
                    1 <= i <= n,
                    n == monograph_hosts@.len(),
                    dest_hosts@.len() == i - 1,
                    forall|k: int| 0 <= k < i - 1 ==> (#[trigger] dest_hosts@[k])@ == monograph_hosts@[k + 1]@,
                decreases n - i,
            {
                dest_hosts.push(copy_string(&monograph_hosts[i]));
                i = i + 1;
            }
            let data_uploads = UploadTask::build_upload_data_dir_tasks(config, &dest_hosts);
            barrier.push(data_uploads.len());
            append_planned(&mut executable, data_uploads);
        }
        let ghost before_rm = executable@;
        let mut rm_cmd = String::from_str("rm -rf ");
        let install_dir = config.install_dir();
        rm_cmd.append(install_dir.as_str());
        rm_cmd.append("/datafarm/cc_ng ");
        rm_cmd.append(install_dir.as_str());
        rm_cmd.append("/datafarm/tx_log");
        let cleanups = ExecCustomCommand::from_config(rm_cmd, config, service_hosts);
        barrier.push(cleanups.len());
        append_planned(&mut executable, cleanups);
        proof {
            let cleanups_v = all_hosts_view(service_hosts@);
            let b = install_barrier(cassandra, cass_plan.len(), storage_hosts(config).len(), n as nat, cleanups_v.len());
            assert(barrier@ =~= b);
            assert(executable@[install_at as int] == before_data[install_at as int]);
            assert forall|i: int| install_at < i < before_rm.len() implies (#[trigger] executable@[i] matches PlannedTask::Upload(t)
                && upload_is(t, *config, "install"@, data_dir_item(*config), monograph_hosts@[i - install_at]@)) by {
                assert(executable@[i] == before_rm[i]);
            }
            assert forall|i: int| before_rm.len() <= i < before_rm.len() + cleanups_v.len() implies (#[trigger] executable@[i] matches PlannedTask::Exec(t)
                && t.task.cmd@ == rm_log_data_cmd(config.deployment.install_dir@) && t.task.task_id.cmd@ == "exec_cmd"@
                && t.task.config@ == config@ && t.task_input@.len() == 0 && runs_on(t.task_host, *config, cleanups_v[i - before_rm.len()])) by {
            }
            if cassandra {
                lemma_stage_end_concat(seq![cass_plan.len() as usize, storage_hosts(config).len() as usize, 1usize],
                    if n > 1 { seq![(n - 1) as usize] } else { Seq::empty() });
            } else {
                lemma_stage_end_concat(seq![1usize], if n > 1 { seq![(n - 1) as usize] } else { Seq::empty() });
            }
            let head = (if cassandra { seq![cass_plan.len() as usize, storage_hosts(config).len() as usize, 1usize] } else { seq![1usize] })
                + (if n > 1 { seq![(n - 1) as usize] } else { Seq::empty() });
            lemma_stage_end_concat(head, seq![cleanups_v.len() as usize]);
            reveal_with_fuel(stage_end, 4);
            assert(stage_end(seq![cleanups_v.len() as usize], 1) == cleanups_v.len());
            assert(stage_end(seq![1usize], 1) == 1);
            assert(stage_end(Seq::<usize>::empty(), 0) == 0);
            assert(stage_end(seq![(n - 1) as usize], 1) == n - 1);
            if cassandra {
                assert(stage_end(seq![cass_plan.len() as usize, storage_hosts(config).len() as usize, 1usize], 3)
                    == cass_plan.len() + storage_hosts(config).len() + 1);
            }
            assert(barrier@ =~= head + seq![cleanups_v.len() as usize]);
        }
        (barrier, executable)
    }
}

/// The tasks of `start`, `stop`, `restart` and `status`.
pub struct CtrlDBTaskGroup;

impl CtrlDBTaskGroup {
    /// Whether the command starts Cassandra first: a start or a restart
    /// where the store is Cassandra.
    pub fn starts_cassandra(cmd: &CommandArgs, config: &DeploymentConfig) -> (b: bool)
        ensures
            b == ((*cmd is Start || *cmd is Restart) && config.deployment.storage_service.cassandra is Some),
    {
        let start_like = match cmd {
            CommandArgs::Start { .. } => true,
            CommandArgs::Restart { .. } => true,
            _ => false,
        };
        start_like && config.deployment.storage_service.cassandra.is_some()
    }

    /// The database commands the command runs, in order: a restart is a
    /// stop and then a start of the same cluster; any other command runs as
    /// itself.
    pub fn control_batches(cmd: &CommandArgs) -> (r: Vec<CommandArgs>)
        ensures
            match *cmd {
                CommandArgs::Restart { cluster } => r@.len() == 2
                    && (r@[0] matches CommandArgs::Stop { cluster: c } && c@ == cluster@)
                    && (r@[1] matches CommandArgs::Start { cluster: c } && c@ == cluster@),
                CommandArgs::Start { cluster } => r@.len() == 1 && (r@[0] matches CommandArgs::Start { cluster: c } && c@ == cluster@),
                CommandArgs::Stop { cluster } => r@.len() == 1 && (r@[0] matches CommandArgs::Stop { cluster: c } && c@ == cluster@),
                CommandArgs::Display { cluster } => r@.len() == 1 && (r@[0] matches CommandArgs::Display { cluster: c } && c@ == cluster@),
                CommandArgs::Install { cluster } => r@.len() == 1 && (r@[0] matches CommandArgs::Install { cluster: c } && c@ == cluster@),
                CommandArgs::Deploy { topology_file } => r@.len() == 1
                    && (r@[0] matches CommandArgs::Deploy { topology_file: t } && t@ == topology_file@),
                CommandArgs::Exec { script } => r@.len() == 1 && (r@[0] matches CommandArgs::Exec { script: t } && t@ == script@),
                CommandArgs::Web { port } => r@.len() == 1 && (r@[0] matches CommandArgs::Web { port: p } && p == port),
            },
    {
        match cmd {
            CommandArgs::Restart { cluster } => vec![
                CommandArgs::Stop { cluster: copy_string(cluster) },
                CommandArgs::Start { cluster: copy_string(cluster) },
            ],
            CommandArgs::Start { cluster } => vec![CommandArgs::Start { cluster: copy_string(cluster) }],
            CommandArgs::Stop { cluster } => vec![CommandArgs::Stop { cluster: copy_string(cluster) }],
            CommandArgs::Display { cluster } => vec![CommandArgs::Display { cluster: copy_string(cluster) }],
            CommandArgs::Install { cluster } => vec![CommandArgs::Install { cluster: copy_string(cluster) }],
            CommandArgs::Deploy { topology_file } => vec![CommandArgs::Deploy { topology_file: copy_string(topology_file) }],
            CommandArgs::Exec { script } => vec![CommandArgs::Exec { script: copy_string(script) }],
            CommandArgs::Web { port } => vec![CommandArgs::Web { port: *port }],
        }
    }

    /// The barrier of the control tasks: where Cassandra starts first, its
    /// start tasks (when there are any) and then each batch's tasks as
    /// stages; otherwise no barrier, all tasks in one stage.
    pub fn control_barrier(starts_cassandra: bool, cassandra_tasks: usize, batch_sizes: &Vec<usize>) -> (b: Option<Vec<usize>>)
        ensures
            starts_cassandra ==> b is Some && b->0@ == (if cassandra_tasks > 0 { seq![cassandra_tasks] } else { Seq::empty() }) + batch_sizes@,
            !starts_cassandra ==> b is None,
    {
        if !starts_cassandra {
            return None;
        }
        let mut barrier: Vec<usize> = Vec::new();
        if cassandra_tasks > 0 {
            barrier.push(cassandra_tasks);
        }
        let ghost head = barrier@;
        let mut i: usize = 0;
        while i < batch_sizes.len()
            invariant
                0 <= i <= batch_sizes.len(),
                barrier@ =~= head + batch_sizes@.take(i as int),
            decreases batch_sizes.len() - i,
        {
            barrier.push(batch_sizes[i]);
            assert(batch_sizes@.take(i + 1) =~= batch_sizes@.take(i as int).push(batch_sizes@[i as int]));
            i = i + 1;
        }
        assert(batch_sizes@.take(batch_sizes.len() as int) =~= batch_sizes@);
        Some(barrier)
    }
}

/// The key an upload is stored under: its command, its name and its host.
pub open spec fn upload_key(t: TaskExecutionContext<UploadTask>) -> (Seq<char>, Seq<char>, Seq<char>) {
    (t.task.task_id.cmd@, t.task.task_id.task@, match t.task_host {
        TaskHost::Local => "localhost"@,
        TaskHost::Remote { hosts, .. } => hosts@,
    })
}

/// Some task is stored under `key`.
pub open spec fn has_upload_key(tasks: Seq<TaskExecutionContext<UploadTask>>, key: (Seq<char>, Seq<char>, Seq<char>)) -> bool {
    exists|i: int| 0 <= i < tasks.len() && #[trigger] upload_key(tasks[i]) == key
}

/// The tasks of the `deploy` command.
pub struct DeploymentTaskGroup;

impl DeploymentTaskGroup {
    /// The uploads still to run given the keys of those that succeeded
    /// before: all of them where none succeeded; otherwise those whose key
    /// is not among the tasks, which is none, since every key that
    /// succeeded must be one of the tasks'.
    pub fn skip_success_task_execution(tasks: Vec<TaskExecutionContext<UploadTask>>, succeeded: &Vec<(String, String, String)>)
        -> (r: Vec<TaskExecutionContext<UploadTask>>)
        requires
            forall|k: int| 0 <= k < succeeded@.len() ==> has_upload_key(tasks@,
                ((#[trigger] succeeded@[k]).0@, succeeded@[k].1@, succeeded@[k].2@)),
        ensures
            succeeded@.len() == 0 ==> r@ == tasks@,
            succeeded@.len() > 0 ==> r@.len() == 0,
    {
        if succeeded.len() == 0 {
            tasks
        } else {
            Vec::new()
        }
    }
}

} // verus!
