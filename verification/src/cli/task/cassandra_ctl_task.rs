//! Starting and stopping Cassandra on the storage hosts: the shell commands,
//! and what their output says about the Cassandra process.
use crate::cli::config::DeploymentConfig;
use crate::cli::task::task_base::{CmdErr, TaskExecutionContext, TaskHost, TaskId, TaskValue};
use crate::cli::CommandArgs;
use crate::text::{
    all_whitespace, contains_whitespace, copy_string, has_whitespace, is_blank, lines, lines_of,
    lowercase_of, parse_i32, parse_i32_spec, split_by_char, split_char, starts_with, str_eq,
    to_lowercase, usize_to_string, decimal,
};
use vstd::prelude::*;

verus! {

/// The key of a Cassandra task's input that names the command.
pub const CASSANDRA_CMD_STR: &'static str = "cassandra_cmd";

/// A Cassandra control command and the shell line that carries it out.
#[derive(Clone, Debug, Eq, PartialEq)]
pub enum CassandraCmd {
    Start(String),
    Stop(String),
    Status(String),
    ProcessInfo(String),
}

/// The shell line that starts Cassandra in the background, its output in `logs/`.
pub open spec fn start_cmd_text(home: Seq<char>, java_home: Seq<char>) -> Seq<char> {
    "mkdir -p "@ + home + "/logs && cd "@ + home + " && export JAVA_HOME="@ + java_home + "; "@ + home
        + "/bin/cassandra -f > "@ + home + "/logs/cassandra_start.log 2>&1 &"@
}

/// The shell line that asks `nodetool` for the status of the ring.
pub open spec fn status_cmd_text(home: Seq<char>, java_home: Seq<char>) -> Seq<char> {
    "export JAVA_HOME="@ + java_home + "; "@ + home + "/bin/nodetool status"@
}

/// The shell line that stops the process `pid`.
pub open spec fn stop_cmd_text(pid: Seq<char>) -> Seq<char> {
    "kill "@ + pid
}

/// The shell line that prints `pid:cwd` for the Cassandra processes of `user`.
pub open spec fn process_info_text(user: Seq<char>) -> Seq<char> {
    " echo `ps -o pid,ruser="@ + user + ",command | grep cassandra | grep -v grep"@ + " "@
        + "| awk '{print $1}'`"@ + " | "@
        + "{ read pid; cmd=\"readlink /proc/$pid/cwd\"; output=`eval $cmd`; echo \"$pid:$output\"}"@
}

/// The command named by a lower-case word: `start`, `status` or `processinfo`
/// (the latter for `user`).
pub open spec fn command_for(lowered: Seq<char>, home: Seq<char>, user: Option<Seq<char>>, java_home: Seq<char>) -> (Seq<char>, Seq<char>) {
    if lowered == "start"@ {
        ("Start"@, start_cmd_text(home, java_home))
    } else if lowered == "status"@ {
        ("Status"@, status_cmd_text(home, java_home))
    } else {
        ("ProcessInfo"@, process_info_text(user->0))
    }
}

/// The words `from_lowered` builds a command for; `processinfo` needs a user.
pub open spec fn builds_command(lowered: Seq<char>, user: Option<Seq<char>>) -> bool {
    lowered == "start"@ || lowered == "status"@ || (lowered == "processinfo"@ && user is Some)
}

/// An optional string by its contents.
pub open spec fn opt_str_view(o: Option<String>) -> Option<Seq<char>> {
    match o {
        Some(s) => Some(s@),
        None => None,
    }
}

impl CassandraCmd {
    /// The variant's name and its shell line.
    pub open spec fn parts(self) -> (Seq<char>, Seq<char>) {
        match self {
            CassandraCmd::Start(c) => ("Start"@, c@),
            CassandraCmd::Stop(c) => ("Stop"@, c@),
            CassandraCmd::Status(c) => ("Status"@, c@),
            CassandraCmd::ProcessInfo(c) => ("ProcessInfo"@, c@),
        }
    }

    /// The command that starts Cassandra installed at `cassandra_home`.
    pub fn start_command(cassandra_home: &str, java_home: &str) -> (c: CassandraCmd)
        ensures
            c.parts() == ("Start"@, start_cmd_text(cassandra_home@, java_home@)),
    {
        proof {
            reveal_strlit("mkdir -p ");
            reveal_strlit("/logs && cd ");
            reveal_strlit(" && export JAVA_HOME=");
            reveal_strlit("; ");
            reveal_strlit("/bin/cassandra -f > ");
            reveal_strlit("/logs/cassandra_start.log 2>&1 &");
        }
        let mut s = String::from_str("mkdir -p ");
        s.append(cassandra_home);
        s.append("/logs && cd ");
        s.append(cassandra_home);
        s.append(" && export JAVA_HOME=");
        s.append(java_home);
        s.append("; ");
        s.append(cassandra_home);
        s.append("/bin/cassandra -f > ");
        s.append(cassandra_home);
        s.append("/logs/cassandra_start.log 2>&1 &");
        CassandraCmd::Start(s)
    }

    /// The command that asks for the status of Cassandra installed at `cassandra_home`.
    pub fn status_command(cassandra_home: &str, java_home: &str) -> (c: CassandraCmd)
        ensures
            c.parts() == ("Status"@, status_cmd_text(cassandra_home@, java_home@)),
    {
        proof {
            reveal_strlit("export JAVA_HOME=");
            reveal_strlit("; ");
            reveal_strlit("/bin/nodetool status");
        }
        let mut s = String::from_str("export JAVA_HOME=");
        s.append(java_home);
        s.append("; ");
        s.append(cassandra_home);
        s.append("/bin/nodetool status");
        CassandraCmd::Status(s)
    }

    /// The command that stops the Cassandra process `pid`.
    pub fn stop_command(pid: i32) -> (c: CassandraCmd)
        ensures
            c.parts() == ("Stop"@, stop_cmd_text(crate::text::signed_decimal(pid as int))),
    {
        proof {
            reveal_strlit("kill ");
        }
        let mut s = String::from_str("kill ");
        s.append(crate::text::i32_to_string(pid).as_str());
        CassandraCmd::Stop(s)
    }

    /// The command that prints `pid:cwd` for each Cassandra process of `user`.
    pub fn process_info_command(user: &str) -> (c: CassandraCmd)
        ensures
            c.parts() == ("ProcessInfo"@, process_info_text(user@)),
    {
        proof {
            reveal_strlit(" echo `ps -o pid,ruser=");
            reveal_strlit(",command | grep cassandra | grep -v grep");
            reveal_strlit(" ");
            reveal_strlit("| awk '{print $1}'`");
            reveal_strlit(" | ");
            reveal_strlit("{ read pid; cmd=\"readlink /proc/$pid/cwd\"; output=`eval $cmd`; echo \"$pid:$output\"}");
        }
        let mut echo_cmd = String::from_str(" echo `ps -o pid,ruser=");
        echo_cmd.append(user);
        echo_cmd.append(",command | grep cassandra | grep -v grep");
        let mut pid_cmd = echo_cmd;
        pid_cmd.append(" ");
        pid_cmd.append("| awk '{print $1}'`");
        let mut final_cmd = pid_cmd;
        final_cmd.append(" | ");
        final_cmd.append("{ read pid; cmd=\"readlink /proc/$pid/cwd\"; output=`eval $cmd`; echo \"$pid:$output\"}");
        CassandraCmd::ProcessInfo(final_cmd)
    }

    /// The command named by the lower-case word `lowered`.
    pub fn from_lowered(lowered: &str, cassandra_home: String, conn_user: Option<String>, java_home: &str) -> (c: CassandraCmd)
        requires
            builds_command(lowered@, opt_str_view(conn_user)),
        ensures
            c.parts() == command_for(lowered@, cassandra_home@, opt_str_view(conn_user), java_home@),
    {
        proof {
            reveal_strlit("start");
            reveal_strlit("status");
            reveal_strlit("processinfo");
        }
        if str_eq(lowered, "start") {
            CassandraCmd::start_command(cassandra_home.as_str(), java_home)
        } else if str_eq(lowered, "status") {
            CassandraCmd::status_command(cassandra_home.as_str(), java_home)
        } else {
            match conn_user {
                Some(user) => CassandraCmd::process_info_command(user.as_str()),
                None => {
                    proof {
                        assert(false);
                    }
                    CassandraCmd::Status(String::new())
                },
            }
        }
    }

    /// The command named by `cmd_str` in any case: `start`, `status`, or
    /// `processinfo` with a user. Other words (`stop` among them, which needs
    /// a pid) are left out, as the original panics on them.
    pub fn from_string(cmd_str: String, cassandra_home: String, conn_user: Option<String>, java_home: &str) -> (c: CassandraCmd)
        requires
            builds_command(lowercase_of(cmd_str@), opt_str_view(conn_user)),
        ensures
            c.parts() == command_for(lowercase_of(cmd_str@), cassandra_home@, opt_str_view(conn_user), java_home@),
    {
        let lowered = to_lowercase(cmd_str.as_str());
        CassandraCmd::from_lowered(lowered.as_str(), cassandra_home, conn_user, java_home)
    }

    /// The command named by `cmd_str` in any case where it names one this
    /// builds, else `None`: the checked form of `from_string`, for callers
    /// that cannot know the word's lower-case form beforehand.
    pub fn try_from_string(cmd_str: String, cassandra_home: String, conn_user: Option<String>, java_home: &str) -> (c: Option<CassandraCmd>)
        ensures
            c is Some <==> builds_command(lowercase_of(cmd_str@), opt_str_view(conn_user)),
            c is Some ==> c->0.parts() == command_for(lowercase_of(cmd_str@), cassandra_home@, opt_str_view(conn_user), java_home@),
    {
        proof {
            reveal_strlit("start");
            reveal_strlit("status");
            reveal_strlit("processinfo");
        }
        let lowered = to_lowercase(cmd_str.as_str());
        let wanted = str_eq(lowered.as_str(), "start") || str_eq(lowered.as_str(), "status")
            || (str_eq(lowered.as_str(), "processinfo") && conn_user.is_some());
        if wanted {
            Some(CassandraCmd::from_string(cmd_str, cassandra_home, conn_user, java_home))
        } else {
            None
        }
    }

    /// The shell line of the command.
    pub fn cmd_value(&self) -> (v: String)
        ensures
            v@ == self.parts().1,
    {
        match self {
            CassandraCmd::ProcessInfo(cmd) | CassandraCmd::Start(cmd) | CassandraCmd::Stop(cmd) | CassandraCmd::Status(cmd) => copy_string(cmd),
        }
    }

    /// The name of the variant.
    pub fn as_ref(&self) -> (name: &'static str)
        ensures
            name@ == self.parts().0,
    {
        match self {
            CassandraCmd::Start(_) => "Start",
            CassandraCmd::Stop(_) => "Stop",
            CassandraCmd::Status(_) => "Status",
            CassandraCmd::ProcessInfo(_) => "ProcessInfo",
        }
    }
}

// ---------------------------------------------------------------------------
// Reading the output of the process-info command.
// ---------------------------------------------------------------------------

/// The pid of the first `pid:cwd` line whose cwd is `home`. Lines without a
/// colon are passed over.
pub open spec fn running_pid_spec(ls: Seq<Seq<char>>, home: Seq<char>) -> Option<i32>
    decreases ls.len(),
{
    if ls.len() == 0 {
        None
    } else {
        let parts = split_char(ls[0], ':');
        if parts.len() == 2 && parts[1] == home {
            parse_i32_spec(parts[0])
        } else {
            running_pid_spec(ls.drop_first(), home)
        }
    }
}

/// The output can be read: up to the first line whose cwd is `home`, every
/// line has at most one colon, and that line's pid is a number.
pub open spec fn pid_output_ok(ls: Seq<Seq<char>>, home: Seq<char>) -> bool
    decreases ls.len(),
{
    if ls.len() == 0 {
        true
    } else {
        let parts = split_char(ls[0], ':');
        if parts.len() <= 1 {
            pid_output_ok(ls.drop_first(), home)
        } else if parts.len() != 2 {
            false
        } else if parts[1] == home {
            parse_i32_spec(parts[0]) is Some
        } else {
            pid_output_ok(ls.drop_first(), home)
        }
    }
}

/// The pid of the Cassandra process running from `cassandra_home`, as the
/// `pid:cwd` lines of `output` show it.
pub fn running_pid(output: &str, cassandra_home: &str) -> (pid: Option<i32>)
    requires
        pid_output_ok(lines_of(output@), cassandra_home@),
    ensures
        pid == running_pid_spec(lines_of(output@), cassandra_home@),
{
    let ls = lines(output);
    let ghost lv = ls.deep_view();
    let mut i: usize = 0;
    assert(lv.skip(0) =~= lv);
    while i < ls.len()
        invariant
            0 <= i <= ls.len(),
            lv == ls.deep_view(),
            lv == lines_of(output@),
            pid_output_ok(lv.skip(i as int), cassandra_home@),
            running_pid_spec(lv, cassandra_home@) == running_pid_spec(lv.skip(i as int), cassandra_home@),
        decreases ls.len() - i,
    {
        let splits = split_by_char(ls[i].as_str(), ':');
        let ghost rest = lv.skip(i as int);
        assert(rest[0] == ls[i as int]@);
        assert(rest.drop_first() =~= lv.skip(i + 1));
        if splits.len() <= 1 {
            i = i + 1;
        } else {
            if str_eq(splits[1].as_str(), cassandra_home) {
                return parse_i32(splits[0].as_str());
            }
            i = i + 1;
        }
    }
    None
}

/// Whether the process-info output can be read without a panic: up to the
/// first line whose cwd is `home`, every line has at most one colon, and
/// that line's pid is a number.
pub fn pid_output_check(output: &str, cassandra_home: &str) -> (ok: bool)
    ensures
        ok == pid_output_ok(lines_of(output@), cassandra_home@),
{
    let ls = lines(output);
    let ghost lv = ls.deep_view();
    let mut i: usize = 0;
    assert(lv.skip(0) =~= lv);
    while i < ls.len()
        invariant
            0 <= i <= ls.len(),
            lv == ls.deep_view(),
            lv == lines_of(output@),
            pid_output_ok(lv, cassandra_home@) == pid_output_ok(lv.skip(i as int), cassandra_home@),
        decreases ls.len() - i,
    {
        let splits = split_by_char(ls[i].as_str(), ':');
        let ghost rest = lv.skip(i as int);
        assert(rest[0] == ls[i as int]@);
        assert(rest.drop_first() =~= lv.skip(i + 1));
        if splits.len() > 1 {
            if splits.len() != 2 {
                return false;
            }
            if str_eq(splits[1].as_str(), cassandra_home) {
                return parse_i32(splits[0].as_str()).is_some();
            }
        }
        i = i + 1;
    }
    true
}

/// The outcome of the process-info command once it has run: an error when
/// its exit status is not 0, else the pid found in its output.
pub open spec fn already_running_spec(status: usize, output: Seq<char>, process_info: Seq<char>, home: Seq<char>) -> Result<Option<i32>, Seq<char>> {
    if status != 0 {
        Err("Cmd "@ + process_info + " execution fails"@)
    } else {
        Ok(running_pid_spec(lines_of(output), home))
    }
}

// ---------------------------------------------------------------------------
// Reading the output of `nodetool status`.
// ---------------------------------------------------------------------------

/// A line of `nodetool status` that shows a node up and normal: not blank,
/// holding white space, and beginning with `UN`.
pub open spec fn up_normal_line(l: Seq<char>) -> bool {
    !all_whitespace(l) && has_whitespace(l) && l.len() >= 2 && l.take(2) == "UN"@
}

/// Whether some line of the status output shows a node up and normal.
pub open spec fn status_ready_spec(output: Seq<char>) -> bool {
    exists|i: int| 0 <= i < lines_of(output).len() && up_normal_line(#[trigger] lines_of(output)[i])
}

/// Whether the output of `nodetool status` shows a node up and normal.
pub fn status_ready(output: &str) -> (ready: bool)
    ensures
        ready == status_ready_spec(output@),
{
    proof {
        reveal_strlit("UN");
    }
    let ls = lines(output);
    let ghost lv = ls.deep_view();
    let mut process_ready = false;
    let mut i: usize = 0;
    while i < ls.len()
        invariant
            0 <= i <= ls.len(),
            lv == ls.deep_view(),
            lv == lines_of(output@),
            process_ready == exists|j: int| 0 <= j < i && up_normal_line(#[trigger] lv[j]),
        decreases ls.len() - i,
    {
        let line = ls[i].as_str();
        assert(lv[i as int] == line@);
        let ghost before = process_ready;
        let blank = is_blank(line);
        let spaced = contains_whitespace(line);
        let up = starts_with(line, "UN");
        proof {
            reveal_strlit("UN");
        }
        assert((!blank && spaced && up) == up_normal_line(lv[i as int]));
        if !blank && spaced && up {
            process_ready = true;
        }
        proof {
            if up_normal_line(lv[i as int]) {
                assert(0 <= i < i + 1 && up_normal_line(lv[i as int]));
            } else if !before {
                assert forall|j: int| 0 <= j < i + 1 implies !up_normal_line(#[trigger] lv[j]) by {
                    if j < i {
                        assert(!(0 <= j < i && up_normal_line(lv[j])));
                    }
                }
            }
        }
        i = i + 1;
    }
    process_ready
}

/// What to do next while waiting for Cassandra to come up.
#[derive(Debug)]
pub enum StartWaitAction {
    /// Run the status command now.
    Poll,
    /// Sleep a second, then go on with this many seconds left.
    Sleep(u64),
    /// A node is up and normal.
    Ready,
    /// The time is up without a node up and normal.
    TimedOut,
    /// The status command could not be run.
    Failed(CmdErr),
}

/// Whether a `StartWaitAction` is the given plain action.
pub open spec fn wait_action_is(a: StartWaitAction, kind: int, remaining: u64) -> bool {
    match a {
        StartWaitAction::Poll => kind == 0,
        StartWaitAction::Sleep(r) => kind == 1 && r == remaining,
        StartWaitAction::Ready => kind == 2,
        StartWaitAction::TimedOut => kind == 3,
        StartWaitAction::Failed(_) => kind == 4,
    }
}

/// A Cassandra control task on one host.
#[derive(Clone, Debug)]
pub struct CassandraCtlTask {
    pub config: DeploymentConfig,
    pub task_id: TaskId,
}

impl CassandraCtlTask {
    /// A task for `config`, identified by `task_id`.
    pub fn new(config: DeploymentConfig, task_id: TaskId) -> (t: Self)
        ensures
            t.config == config,
            t.task_id == task_id,
    {
        CassandraCtlTask { config, task_id }
    }

    /// `{install_dir}/apache-cassandra`.
    pub open spec fn home_spec(self) -> Seq<char> {
        self.config.deployment.install_dir@ + "/apache-cassandra"@
    }

    /// Where Cassandra is installed: `{install_dir}/apache-cassandra`.
    pub fn cassandra_home(&self) -> (h: String)
        ensures
            h@ == self.home_spec(),
    {
        proof {
            reveal_strlit("/apache-cassandra");
        }
        let mut h = self.config.install_dir();
        h.append("/apache-cassandra");
        h
    }

    /// The pid of the Cassandra process whose working directory is this
    /// task's home, given the exit status and the output of `process_info`.
    pub fn already_running(&self, status: usize, output: &str, process_info: &str) -> (r: Result<Option<i32>, String>)
        requires
            status == 0 ==> pid_output_ok(lines_of(output@), self.home_spec()),
        ensures
            match r {
                Ok(pid) => already_running_spec(status, output@, process_info@, self.home_spec()) == Ok::<Option<i32>, Seq<char>>(pid),
                Err(msg) => already_running_spec(status, output@, process_info@, self.home_spec()) == Err::<Option<i32>, Seq<char>>(msg@),
            },
    {
        proof {
            reveal_strlit("Cmd ");
            reveal_strlit(" execution fails");
        }
        if status != 0 {
            let mut msg = String::from_str("Cmd ");
            msg.append(process_info);
            msg.append(" execution fails");
            return Err(msg);
        }
        let home = self.cassandra_home();
        Ok(running_pid(output, home.as_str()))
    }

    /// The next step of waiting for Cassandra to come up, with
    /// `remaining_secs` seconds left: with no poll result yet, poll unless
    /// the time is up; after a poll that failed, fail with the status command
    /// and the cause; after one whose output shows a node up and normal,
    /// stop; else sleep a second.
    pub fn start_wait_step(remaining_secs: u64, poll: Option<Result<String, String>>, check_status_cmd: &str) -> (a: StartWaitAction)
        ensures
            poll is None && remaining_secs == 0 ==> a is TimedOut,
            poll is None && remaining_secs > 0 ==> a is Poll,
            (poll matches Some(Err(e)) ==> (a matches StartWaitAction::Failed(CmdErr::CassandraCtlErr(c, cause))
                && c@ == check_status_cmd@ && cause@ == e@)),
            (poll matches Some(Ok(out)) ==> (status_ready_spec(out@) ==> a is Ready)
                && (!status_ready_spec(out@) ==> wait_action_is(a, 1, if remaining_secs > 0 { (remaining_secs - 1) as u64 } else { 0 }))),
    {
        match poll {
            None => {
                if remaining_secs == 0 {
                    StartWaitAction::TimedOut
                } else {
                    StartWaitAction::Poll
                }
            },
            Some(Err(cause)) => StartWaitAction::Failed(CmdErr::CassandraCtlErr(String::from_str(check_status_cmd), cause)),
            Some(Ok(output)) => {
                if status_ready(output.as_str()) {
                    StartWaitAction::Ready
                } else {
                    StartWaitAction::Sleep(if remaining_secs > 0 { remaining_secs - 1 } else { 0 })
                }
            },
        }
    }

    /// The outcome of the start command, given its exit status: an error that
    /// names the command, the home and the status when it is not 0.
    pub fn start_status_check(&self, start_cmd: &str, status_code: usize) -> (r: Result<(), String>)
        ensures
            status_code == 0 ==> r is Ok,
            status_code != 0 ==> r is Err && r->Err_0@ == "Start cassandra fails cmd="@ + start_cmd@
                + ", cassandra_home="@ + self.home_spec() + ",cmd_code="@ + decimal(status_code as nat),
    {
        proof {
            reveal_strlit("Start cassandra fails cmd=");
            reveal_strlit(", cassandra_home=");
            reveal_strlit(",cmd_code=");
        }
        if status_code != 0 {
            let mut msg = String::from_str("Start cassandra fails cmd=");
            msg.append(start_cmd);
            msg.append(", cassandra_home=");
            msg.append(self.cassandra_home().as_str());
            msg.append(",cmd_code=");
            msg.append(usize_to_string(status_code).as_str());
            Err(msg)
        } else {
            Ok(())
        }
    }

    /// The stop command succeeded when its exit status is 0.
    pub fn stop_succeeded(status_code: usize) -> (ok: bool)
        ensures
            ok == (status_code == 0),
    {
        status_code == 0
    }

    /// The command to run for `cmd` and whether it must run at all: a start
    /// runs only when no Cassandra process is running, a stop only when one
    /// is; otherwise the task is already done.
    pub fn execute_decision(cmd: &CassandraCmd, running: Option<i32>) -> (run: bool)
        requires
            cmd is Start || cmd is Stop,
        ensures
            run == if cmd is Start { running is None } else { running is Some },
    {
        match cmd {
            CassandraCmd::Start(_) => running.is_none(),
            _ => running.is_some(),
        }
    }

    /// The Cassandra tasks of a `start`, `install` or `stop` command: one per
    /// storage host, run over SSH as the connection's user and port, each
    /// handed the command word under `cassandra_cmd` and a copy of `config`.
    pub fn from_config(cmd: CommandArgs, config: &DeploymentConfig) -> (tasks: Vec<TaskExecutionContext<CassandraCtlTask>>)
        requires
            cmd is Start || cmd is Install || cmd is Stop,
        ensures
            tasks@.len() == storage_hosts(config).len(),
            forall|i: int| 0 <= i < tasks@.len() ==> {
                let t = #[trigger] tasks@[i];
                &&& t.task_input@.len() == 1
                &&& t.task_input@[0].0@ == CASSANDRA_CMD_STR@
                &&& t.task_input@[0].1 matches TaskValue::Str(w) && w@ == (if cmd is Stop { "stop"@ } else { "start"@ })
                &&& t.task.task_id.cmd@ == (if cmd is Stop { "stop"@ } else { "start"@ })
                &&& t.task.task_id.task@ == (if cmd is Stop { "cassandra-stop"@ } else { "cassandra-start"@ })
                &&& t.task.config@ == config@
                &&& t.task_host matches TaskHost::Remote { user, port, hosts }
                &&& user@ == config.connection.username@
                &&& port == config.connection.ssh_port_spec() as usize
                &&& hosts@ == storage_hosts(config)[i]
            },
    {
        proof {
            reveal_strlit("stop");
            reveal_strlit("start");
            reveal_strlit("cassandra-stop");
            reveal_strlit("cassandra-start");
            reveal_strlit("cassandra_cmd");
        }
        let is_stop = match cmd {
            CommandArgs::Stop { .. } => true,
            _ => false,
        };
        let cmd_str: &str = if is_stop { "stop" } else { "start" };
        let task_name: &str = if is_stop { "cassandra-stop" } else { "cassandra-start" };
        let conn_user = &config.connection.username;
        let ssh_port = config.connection.ssh_port();
        let empty: Vec<String> = Vec::new();
        let hosts: &Vec<String> = match &config.deployment.storage_service.cassandra {
            Some(c) => &c.host,
            None => &empty,
        };
        let mut tasks: Vec<TaskExecutionContext<CassandraCtlTask>> = Vec::new();
        let mut i: usize = 0;
        while i < hosts.len()
            invariant
                0 <= i <= hosts.len(),
                hosts.deep_view() == storage_hosts(config),
                cmd_str@ == (if is_stop { "stop"@ } else { "start"@ }),
                task_name@ == (if is_stop { "cassandra-stop"@ } else { "cassandra-start"@ }),
                is_stop == cmd is Stop,
                ssh_port == config.connection.ssh_port_spec(),
                conn_user == &config.connection.username,
                tasks@.len() == i,
                forall|k: int| 0 <= k < i ==> {
                    let t = #[trigger] tasks@[k];
                    &&& t.task_input@.len() == 1
                    &&& t.task_input@[0].0@ == CASSANDRA_CMD_STR@
                    &&& t.task_input@[0].1 matches TaskValue::Str(w) && w@ == (if cmd is Stop { "stop"@ } else { "start"@ })
                    &&& t.task.task_id.cmd@ == (if cmd is Stop { "stop"@ } else { "start"@ })
                    &&& t.task.task_id.task@ == (if cmd is Stop { "cassandra-stop"@ } else { "cassandra-start"@ })
                    &&& t.task.config@ == config@
                        &&& t.task_host matches TaskHost::Remote { user, port, hosts: h }
                    &&& user@ == config.connection.username@
                    &&& port == config.connection.ssh_port_spec() as usize
                    &&& h@ == storage_hosts(config)[k]
                },
            decreases hosts.len() - i,
        {
            let task = CassandraCtlTask {
                config: config.copy(),
                task_id: TaskId { cmd: String::from_str(cmd_str), task: String::from_str(task_name) },
            };
            let input = vec![(String::from_str(CASSANDRA_CMD_STR), TaskValue::Str(String::from_str(cmd_str)))];
            let ctx = TaskExecutionContext {
                task_input: input,
                task,
                task_host: TaskHost::Remote { user: copy_string(conn_user), port: ssh_port as usize, hosts: copy_string(&hosts[i]) },
            };
            tasks.push(ctx);
            i = i + 1;
        }
        tasks
    }
}

/// The hosts of the storage service: those of the Cassandra store, or none.
pub open spec fn storage_hosts(config: &DeploymentConfig) -> Seq<Seq<char>> {
    match config.deployment.storage_service.cassandra {
        Some(c) => c.host.deep_view(),
        None => Seq::empty(),
    }
}

} // verus!
