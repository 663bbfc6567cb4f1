//! The values tasks exchange, the hosts they run on, the errors they report,
//! and how a list of tasks is cut into stages at barriers.
use crate::text::copy_string;
use vstd::prelude::*;

verus! {

/// An error of a task, with the words it is reported in.
#[derive(PartialEq, Eq, Clone, Debug)]
pub enum CmdErr {
    TasksErr(String),
    RunErr(String, String),
    DownloadErr(String, String),
    UploadErr(String, String),
    SSHConnErr(String, String),
    SSHRemoteCmdErr(String, String),
    CassandraCtlErr(String, String),
}

impl CmdErr {
    /// The report of the error.
    pub open spec fn message_spec(self) -> Seq<char> {
        match self {
            CmdErr::TasksErr(cause) => "Found cli execution failed, error cause "@ + cause@,
            CmdErr::RunErr(task, cause) => "Task ["@ + task@ + "] execution failed, error cause "@ + cause@,
            CmdErr::DownloadErr(url, cause) => "Download file failed, download URL "@ + url@ + " , error causes "@ + cause@,
            CmdErr::UploadErr(file, cause) => "Upload file failed, local file "@ + file@ + ", error causes "@ + cause@,
            CmdErr::SSHConnErr(target, cause) => "Error establishing ssh connection, user@host="@ + target@ + ", error causes "@ + cause@,
            CmdErr::SSHRemoteCmdErr(cmd, cause) => "SSHConn execute remote cmd "@ + cmd@ + " failed, error causes "@ + cause@,
            CmdErr::CassandraCtlErr(cmd, cause) => "Error executing apache-cassandra control command "@ + cmd@ + " failed, error causes "@ + cause@,
        }
    }

    /// The report of the error, as it is displayed.
    pub fn message(&self) -> (m: String)
        ensures
            m@ == self.message_spec(),
    {
        proof {
            reveal_strlit("Found cli execution failed, error cause ");
            reveal_strlit("Task [");
            reveal_strlit("] execution failed, error cause ");
            reveal_strlit("Download file failed, download URL ");
            reveal_strlit(" , error causes ");
            reveal_strlit("Upload file failed, local file ");
            reveal_strlit(", error causes ");
            reveal_strlit("Error establishing ssh connection, user@host=");
            reveal_strlit("SSHConn execute remote cmd ");
            reveal_strlit(" failed, error causes ");
            reveal_strlit("Error executing apache-cassandra control command ");
        }
        match self {
            CmdErr::TasksErr(cause) => {
                let mut m = String::from_str("Found cli execution failed, error cause ");
                m.append(cause.as_str());
                m
            },
            CmdErr::RunErr(task, cause) => {
                let mut m = String::from_str("Task [");
                m.append(task.as_str());
                m.append("] execution failed, error cause ");
                m.append(cause.as_str());
                m
            },
            CmdErr::DownloadErr(url, cause) => {
                let mut m = String::from_str("Download file failed, download URL ");
                m.append(url.as_str());
                m.append(" , error causes ");
                m.append(cause.as_str());
                m
            },
            CmdErr::UploadErr(file, cause) => {
                let mut m = String::from_str("Upload file failed, local file ");
                m.append(file.as_str());
                m.append(", error causes ");
                m.append(cause.as_str());
                m
            },
            CmdErr::SSHConnErr(target, cause) => {
                let mut m = String::from_str("Error establishing ssh connection, user@host=");
                m.append(target.as_str());
                m.append(", error causes ");
                m.append(cause.as_str());
                m
            },
            CmdErr::SSHRemoteCmdErr(cmd, cause) => {
                let mut m = String::from_str("SSHConn execute remote cmd ");
                m.append(cmd.as_str());
                m.append(" failed, error causes ");
                m.append(cause.as_str());
                m
            },
            CmdErr::CassandraCtlErr(cmd, cause) => {
                let mut m = String::from_str("Error executing apache-cassandra control command ");
                m.append(cmd.as_str());
                m.append(" failed, error causes ");
                m.append(cause.as_str());
                m
            },
        }
    }
}

/// A value handed to or returned by a task.
#[derive(Clone, Debug, Eq, PartialEq)]
pub enum TaskValue {
    Str(String),
    Number(usize),
    List(Vec<String>),
}

/// The types a `TaskValue` can hold, each taken out of the value that holds it.
pub trait TaskValueInto: Sized {
    /// Whether `value` holds a value of this type.
    spec fn holds_kind(value: TaskValue) -> bool;

    /// Whether `inner` is the value that `value` holds.
    spec fn is_inner(value: TaskValue, inner: Self) -> bool;

    /// The value held by `task_type`.
    fn task_value_into(task_type: TaskValue) -> (inner: Self)
        requires
            Self::holds_kind(task_type),
        ensures
            Self::is_inner(task_type, inner),
    ;
}

impl TaskValueInto for String {
    open spec fn holds_kind(value: TaskValue) -> bool {
        value is Str
    }

    open spec fn is_inner(value: TaskValue, inner: String) -> bool {
        value is Str && inner@ == value->Str_0@
    }

    fn task_value_into(task_type: TaskValue) -> (inner: String) {
        match task_type {
            TaskValue::Str(value) => value,
            _ => {
                proof {
                    assert(false);
                }
                String::new()
            },
        }
    }
}

impl TaskValueInto for usize {
    open spec fn holds_kind(value: TaskValue) -> bool {
        value is Number
    }

    open spec fn is_inner(value: TaskValue, inner: usize) -> bool {
        value is Number && inner == value->Number_0
    }

    fn task_value_into(task_type: TaskValue) -> (inner: usize) {
        match task_type {
            TaskValue::Number(value) => value,
            _ => {
                proof {
                    assert(false);
                }
                0
            },
        }
    }
}

impl TaskValueInto for Vec<String> {
    open spec fn holds_kind(value: TaskValue) -> bool {
        value is List
    }

    open spec fn is_inner(value: TaskValue, inner: Vec<String>) -> bool {
        value is List && inner.deep_view() == value->List_0.deep_view()
    }

    fn task_value_into(task_type: TaskValue) -> (inner: Vec<String>) {
        match task_type {
            TaskValue::List(value) => value,
            _ => {
                proof {
                    assert(false);
                }
                Vec::new()
            },
        }
    }
}

impl TaskValue {
    /// The value this holds, as the type it holds.
    pub fn into_inner_value<T: TaskValueInto>(self) -> (inner: T)
        requires
            T::holds_kind(self),
        ensures
            T::is_inner(self, inner),
    {
        T::task_value_into(self)
    }
}

/// Where a task runs: on this machine, or on a host reached over SSH.
#[derive(Clone, Debug, PartialEq, Eq)]
pub enum TaskHost {
    Local,
    Remote {
        user: String,
        port: usize,
        hosts: String,
    },
}

/// A task host by its contents: `None` for this machine, else the SSH user,
/// port and host.
pub open spec fn task_host_view(h: TaskHost) -> Option<(Seq<char>, usize, Seq<char>)> {
    match h {
        TaskHost::Local => None,
        TaskHost::Remote { user, port, hosts } => Some((user@, port, hosts@)),
    }
}

impl TaskHost {
    /// The SSH user, port and host of the task's host; `_local`, 22 and
    /// `localhost` for this machine.
    pub fn ssh_conn_tuple(&self) -> (t: (String, usize, String))
        ensures
            match self {
                TaskHost::Local => t.0@ == "_local"@ && t.1 == 22 && t.2@ == "localhost"@,
                TaskHost::Remote { user, port, hosts } => t.0@ == user@ && t.1 == *port && t.2@ == hosts@,
            },
    {
        match self {
            TaskHost::Local => (String::from_str("_local"), 22, String::from_str("localhost")),
            TaskHost::Remote { user, port, hosts } => (copy_string(user), *port, copy_string(hosts)),
        }
    }
}

/// A task ready to run: its input, the task itself and the host it runs on.
#[derive(Clone, Debug)]
pub struct TaskExecutionContext<T> {
    pub task_input: Vec<(String, TaskValue)>,
    pub task: T,
    pub task_host: TaskHost,
}

/// Tasks to run, cut into stages by the barrier when there is one.
#[derive(Clone, Debug)]
pub struct TaskExecutionContextTuple<T> {
    pub barrier: Option<Vec<usize>>,
    pub executable: Vec<TaskExecutionContext<T>>,
}

/// Identifies a task by the command it serves and its own name.
#[derive(Clone, Debug)]
pub struct TaskId {
    pub cmd: String,
    pub task: String,
}

/// The sum of the first `n` stage sizes.
pub open spec fn stage_end(sizes: Seq<usize>, n: int) -> int
    decreases n,
{
    if n <= 0 {
        0
    } else {
        stage_end(sizes, n - 1) + sizes[n - 1]
    }
}

/// The stages of `task_count` tasks: one stage of all of them without
/// barriers, else stage `i` runs from the end of the stages before it for
/// `sizes[i]` tasks.
pub open spec fn stages_spec(barrier: Option<Seq<usize>>, task_count: nat) -> Seq<(int, int)> {
    match barrier {
        None => seq![(0, task_count as int)],
        Some(sizes) => Seq::new(sizes.len(), |i: int| (stage_end(sizes, i), stage_end(sizes, i + 1))),
    }
}

/// The stage sizes of a barrier, by their contents.
pub open spec fn barrier_view(barrier: Option<Vec<usize>>) -> Option<Seq<usize>> {
    match barrier {
        Some(b) => Some(b@),
        None => None,
    }
}

/// The stages fit in the tasks: all of them together take no more tasks than there are.
pub open spec fn stages_fit(barrier: Option<Seq<usize>>, task_count: nat) -> bool {
    match barrier {
        None => true,
        Some(sizes) => stage_end(sizes, sizes.len() as int) <= task_count,
    }
}

/// `stage_end` grows with the number of stages.
proof fn lemma_stage_end_monotone(sizes: Seq<usize>, i: int, j: int)
    requires
        0 <= i <= j <= sizes.len(),
    ensures
        stage_end(sizes, i) <= stage_end(sizes, j),
    decreases j - i,
{
    if i < j {
        lemma_stage_end_monotone(sizes, i, j - 1);
    }
}

/// The index ranges `[begin, end)` of the stages that the tasks run in, one
/// after another: each barrier entry is the number of tasks of a stage.
pub fn task_split(barrier: Option<Vec<usize>>, task_count: usize) -> (ranges: Vec<(usize, usize)>)
    requires
        stages_fit(
barrier_view(barrier), task_count as nat),
    ensures
        ranges@.len() == stages_spec(barrier_view(barrier), task_count as nat).len(),
        forall|i: int| 0 <= i < ranges@.len() ==> (ranges@[i].0 as int, ranges@[i].1 as int)
            == #[trigger] stages_spec(barrier_view(barrier), task_count as nat)[i],
{
    match barrier {
        None => vec![(0, task_count)],
        Some(barrier_array) => {
            let ghost sizes = barrier_array@;
            let mut all_split: Vec<(usize, usize)> = Vec::new();
            let mut end: usize = 0;
            let mut idx: usize = 0;
            while idx < barrier_array.len()
                invariant
                    0 <= idx <= barrier_array.len(),
                    sizes == barrier_array@,
                    stage_end(sizes, sizes.len() as int) <= task_count,
                    end == stage_end(sizes, idx as int),
                    all_split@.len() == idx,
                    forall|i: int| 0 <= i < idx ==> (all_split@[i].0 as int, all_split@[i].1 as int)
                        == (stage_end(sizes, i), stage_end(sizes, i + 1)),
                decreases barrier_array.len() - idx,
            {
                proof {
                    lemma_stage_end_monotone(sizes, idx + 1, sizes.len() as int);
                }
                let begin = end;
                end = begin + barrier_array[idx];
                all_split.push((begin, end));
                idx = idx + 1;
            }
            all_split
        },
    }
}

/// The stages cover the tasks they are cut from, in order and without gaps:
/// the first begins at 0, each begins where the one before ends, and the
/// last ends after all tasks of the barrier.
pub proof fn lemma_stages_contiguous(sizes: Seq<usize>, task_count: nat)
    requires
        sizes.len() > 0,
    ensures
        stages_spec(Some(sizes), task_count)[0].0 == 0,
        forall|i: int| 0 <= i < sizes.len() - 1 ==> #[trigger] stages_spec(Some(sizes), task_count)[i].1
            == stages_spec(Some(sizes), task_count)[i + 1].0,
        stages_spec(Some(sizes), task_count)[sizes.len() - 1].1 == stage_end(sizes, sizes.len() as int),
        forall|i: int| 0 <= i < sizes.len() ==> #[trigger] stages_spec(Some(sizes), task_count)[i].1
            - stages_spec(Some(sizes), task_count)[i].0 == sizes[i],
{
}

} // verus!
