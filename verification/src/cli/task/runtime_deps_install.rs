//! Installing the runtime dependencies on every host: the package-manager
//! command for the OS, run with `sudo` unless the cluster manager runs as root.
use crate::cli::config::DeploymentConfig;
use crate::cli::task::task_base::{TaskExecutionContext, TaskHost, TaskId};
use crate::text::{copy_string, join_strings, seq_join, str_eq};
use vstd::prelude::*;

verus! {

/// The error for an OS the packages cannot be installed on.
pub const UNSUPPORTED_OS_MESSAGE: &'static str = "For now MonographDB only run on Ubuntu or Centos7/Centos8";

/// The commands that prepare the package manager and start the install, by
/// OS and major version; `None` for an OS other than Ubuntu and RHEL.
pub open spec fn install_steps(os_name: Seq<char>, version: Seq<char>) -> Option<Seq<Seq<char>>> {
    if os_name == "ubuntu"@ {
        Some(seq![
            "apt update"@,
            "DEBIAN_FRONTEND=noninteractive apt install -y --no-install-recommends"@,
        ])
    } else if os_name == "rhel"@ {
        if version == "7"@ {
            Some(seq!["yum install -y epel-release"@, "yum update -y"@, "yum install -y"@])
        } else if version == "8"@ {
            Some(seq![
                "dnf install -y https://dl.fedoraproject.org/pub/epel/epel-release-latest-8.noarch.rpm"@,
                "/usr/bin/crb enable"@,
                "dnf install -y epel-release"@,
                "dnf update -y"@,
                "dnf install -y"@,
            ])
        } else {
            Some(seq![
                "dnf install -y https://dl.fedoraproject.org/pub/epel/epel-release-latest-9.noarch.rpm"@,
                "/usr/bin/crb enable"@,
                "dnf install -y epel-release"@,
                "dnf update -y"@,
                "dnf install -y"@,
            ])
        }
    } else {
        None
    }
}

/// The OS and version are ones the command is known for, or not RHEL at all
/// (an unknown RHEL version has no command).
pub open spec fn version_known(os_name: Seq<char>, version: Seq<char>) -> bool {
    os_name == "rhel"@ ==> (version == "7"@ || version == "8"@ || version == "9"@)
}

/// The install command: the steps joined by ` && `, each after `sudo ` when
/// not run as root, then a space and the packages joined by spaces.
pub open spec fn install_command_spec(steps: Seq<Seq<char>>, is_root: bool, deps: Seq<Seq<char>>) -> Seq<char> {
    let header = if is_root { steps } else { steps.map_values(|s: Seq<char>| "sudo "@ + s) };
    seq_join(header, " && "@) + " "@ + seq_join(deps, " "@)
}

fn push_step(v: &mut Vec<String>, step: &str, is_root: bool)
    ensures
        final(v).deep_view() == old(v).deep_view().push(if is_root { step@ } else { "sudo "@ + step@ }),
{
    proof {
        reveal_strlit("sudo ");
    }
    let ghost before = v.deep_view();
    if is_root {
        v.push(String::from_str(step));
    } else {
        let mut s = String::from_str("sudo ");
        s.append(step);
        v.push(s);
    }
    assert(v.deep_view() =~= before.push(if is_root { step@ } else { "sudo "@ + step@ }));
}

/// `users::get_current_uid`: the user id the process runs as. It depends on
/// how the process was started, so nothing is stated of it.
#[verifier::external_body]
fn current_uid() -> u32 {
    users::get_current_uid()
}

/// A task that installs the runtime dependencies on one host.
#[derive(Clone, Debug)]
pub struct RuntimeDepsInstallation {
    pub install_dep_cmd: String,
    pub task_id: TaskId,
    pub config: DeploymentConfig,
}

impl RuntimeDepsInstallation {
    /// A task that runs `install_dep_cmd`.
    pub fn new(install_dep_cmd: String, task_id: TaskId, config: DeploymentConfig) -> (t: Self)
        ensures
            t.install_dep_cmd == install_dep_cmd,
            t.task_id == task_id,
            t.config == config,
    {
        RuntimeDepsInstallation { install_dep_cmd, task_id, config }
    }

    /// The command that installs `deps` on `os_name` of major version
    /// `version`, or the error for an OS other than Ubuntu and RHEL.
    pub fn install_command(os_name: &str, version: &str, is_root: bool, deps: &Vec<String>) -> (r: Result<String, String>)
        requires
            version_known(os_name@, version@),
        ensures
            match install_steps(os_name@, version@) {
                Some(steps) => r is Ok && r->Ok_0@ == install_command_spec(steps, is_root, deps.deep_view()),
                None => r is Err && r->Err_0@ == UNSUPPORTED_OS_MESSAGE@,
            },
    {
        proof {
            reveal_strlit("ubuntu");
            reveal_strlit("rhel");
            reveal_strlit("7");
            reveal_strlit("8");
            reveal_strlit("9");
            reveal_strlit(" && ");
            reveal_strlit(" ");
        }
        let mut header: Vec<String> = Vec::new();
        if str_eq(os_name, "ubuntu") {
            push_step(&mut header, "apt update", is_root);
            push_step(&mut header, "DEBIAN_FRONTEND=noninteractive apt install -y --no-install-recommends", is_root);
        } else if str_eq(os_name, "rhel") {
            if str_eq(version, "7") {
                push_step(&mut header, "yum install -y epel-release", is_root);
                push_step(&mut header, "yum update -y", is_root);
                push_step(&mut header, "yum install -y", is_root);
            } else {
                if str_eq(version, "8") {
                    push_step(&mut header, "dnf install -y https://dl.fedoraproject.org/pub/epel/epel-release-latest-8.noarch.rpm", is_root);
                } else {
                    push_step(&mut header, "dnf install -y https://dl.fedoraproject.org/pub/epel/epel-release-latest-9.noarch.rpm", is_root);
                }
                push_step(&mut header, "/usr/bin/crb enable", is_root);
                push_step(&mut header, "dnf install -y epel-release", is_root);
                push_step(&mut header, "dnf update -y", is_root);
                push_step(&mut header, "dnf install -y", is_root);
            }
        } else {
            return Err(String::from_str(UNSUPPORTED_OS_MESSAGE));
        }
        proof {
            let st = install_steps(os_name@, version@)->0;
            let expect = if is_root { st } else { st.map_values(|s: Seq<char>| "sudo "@ + s) };
            assert(header.deep_view() =~= expect);
        }
        let mut cmd = join_strings(&header, " && ");
        cmd.append(" ");
        cmd.append(join_strings(deps, " ").as_str());
        Ok(cmd)
    }

    /// The install tasks, one per host in `hosts`, each run over SSH as the
    /// connection's user and port with the same command; the error for an
    /// OS other than Ubuntu and RHEL. Whether `sudo` is used depends on the
    /// user id the process runs as, which is not stated; all tasks of one call
    /// make the same choice.
    pub fn from_config(config: &DeploymentConfig, os_name: &str, version: &str, deps: &Vec<String>, hosts: &Vec<String>)
        -> (r: Result<Vec<TaskExecutionContext<RuntimeDepsInstallation>>, String>)
        requires
            version_known(os_name@, version@),
        ensures
            install_steps(os_name@, version@) is None <==> r is Err,
            r is Err ==> r->Err_0@ == UNSUPPORTED_OS_MESSAGE@,
            r is Ok ==> r->Ok_0@.len() == hosts@.len(),
            r is Ok ==> forall|i: int| 0 <= i < hosts@.len() ==> {
                let t = #[trigger] r->Ok_0@[i];
                &&& t.task_input@.len() == 0
                &&& t.task.task_id.cmd@ == "run_deps"@
                &&& t.task.task_id.task@ == os_name@ + "_install_deps"@
                &&& t.task.config@ == config@
                &&& t.task_host matches TaskHost::Remote { user, port, hosts: h }
                &&& user@ == config.connection.username@
                &&& port == config.connection.ssh_port_spec() as usize
                &&& h@ == hosts@[i]@
            },
            r is Ok ==> exists|as_root: bool| #![trigger install_command_spec(install_steps(os_name@, version@)->0, as_root, deps.deep_view())]
                forall|i: int| 0 <= i < hosts@.len() ==> (#[trigger] r->Ok_0@[i]).task.install_dep_cmd@
                    == install_command_spec(install_steps(os_name@, version@)->0, as_root, deps.deep_view()),
    {
        proof {
            reveal_strlit("run_deps");
            reveal_strlit("_install_deps");
        }
        let is_root = current_uid() == 0;
        let install_dep_cmd = match RuntimeDepsInstallation::install_command(os_name, version, is_root, deps) {
            Ok(c) => c,
            Err(e) => return Err(e),
        };
        let conn_user = &config.connection.username;
        let ssh_port = config.connection.ssh_port();
        let mut tasks: Vec<TaskExecutionContext<RuntimeDepsInstallation>> = Vec::new();
        let mut i: usize = 0;
        while i < hosts.len()
            invariant
                0 <= i <= hosts.len(),
                install_steps(os_name@, version@) is Some,
                install_dep_cmd@ == install_command_spec(install_steps(os_name@, version@)->0, is_root, deps.deep_view()),
                ssh_port == config.connection.ssh_port_spec(),
                conn_user == &config.connection.username,
                tasks@.len() == i,
                forall|k: int| 0 <= k < i ==> {
                    let t = #[trigger] tasks@[k];
                    &&& t.task_input@.len() == 0
                    &&& t.task.task_id.cmd@ == "run_deps"@
                    &&& t.task.task_id.task@ == os_name@ + "_install_deps"@
                    &&& t.task.config@ == config@
                    &&& t.task.install_dep_cmd@ == install_dep_cmd@
                    &&& t.task_host matches TaskHost::Remote { user, port, hosts: h }
                    &&& user@ == config.connection.username@
                    &&& port == config.connection.ssh_port_spec() as usize
                    &&& h@ == hosts@[k]@
                },
            decreases hosts.len() - i,
        {
            let mut task_name = String::from_str(os_name);
            task_name.append("_install_deps");
            let task_id = TaskId { cmd: String::from_str("run_deps"), task: task_name };
            let task = RuntimeDepsInstallation::new(copy_string(&install_dep_cmd), task_id, config.copy());
            let ctx = TaskExecutionContext {
                task_input: Vec::new(),
                task,
                task_host: TaskHost::Remote { user: copy_string(conn_user), port: ssh_port as usize, hosts: copy_string(&hosts[i]) },
            };
            tasks.push(ctx);
            i = i + 1;
        }
        assert(forall|k: int| 0 <= k < hosts@.len() ==> (#[trigger] tasks@[k]).task.install_dep_cmd@
            == install_command_spec(install_steps(os_name@, version@)->0, is_root, deps.deep_view()));
        Ok(tasks)
    }

    /// The error of a failed install on `host`, with the exit code and the output.
    pub fn failure_message(&self, host: &str, code: u32, out: &str) -> (m: String)
        ensures
            m@ == "install dependency failed on "@ + host@ + ", code="@ + crate::text::decimal(code as nat) + ": "@
                + self.install_dep_cmd@ + ": "@ + out@,
    {
        proof {
            reveal_strlit("install dependency failed on ");
            reveal_strlit(", code=");
            reveal_strlit(": ");
        }
        let mut m = String::from_str("install dependency failed on ");
        m.append(host);
        m.append(", code=");
        m.append(crate::text::u64_to_string(code as u64).as_str());
        m.append(": ");
        m.append(self.install_dep_cmd.as_str());
        m.append(": ");
        m.append(out);
        m
    }
}

/// A joined list begins with its first element.
proof fn lemma_seq_join_starts(list: Seq<Seq<char>>, sep: Seq<char>)
    requires
        list.len() >= 1,
    ensures
        seq_join(list, sep).len() >= list[0].len(),
        seq_join(list, sep).subrange(0, list[0].len() as int) == list[0],
    decreases list.len(),
{
    if list.len() > 1 {
        let init = list.drop_last();
        lemma_seq_join_starts(init, sep);
        assert(init[0] == list[0]);
        let j = seq_join(init, sep);
        assert((j + sep + list.last()).subrange(0, list[0].len() as int) =~= j.subrange(0, list[0].len() as int));
    } else {
        assert(list[0].subrange(0, list[0].len() as int) =~= list[0]);
    }
}

/// On RHEL 8 and 9 the install first fetches the EPEL release package of
/// the host's own major version: the first step is
/// `dnf install -y https://dl.fedoraproject.org/pub/epel/epel-release-latest-<v>.noarch.rpm`
/// for version `<v>`, and the install command begins with it (after
/// `sudo ` when not run as root), whatever the packages.
pub proof fn lemma_rhel_epel_release_matches(version: Seq<char>, is_root: bool, deps: Seq<Seq<char>>)
    requires
        version == "8"@ || version == "9"@,
    ensures
        install_steps("rhel"@, version) is Some,
        ({
            let epel = "dnf install -y https://dl.fedoraproject.org/pub/epel/epel-release-latest-"@ + version + ".noarch.rpm"@;
            let first = if is_root { epel } else { "sudo "@ + epel };
            let cmd = install_command_spec(install_steps("rhel"@, version)->0, is_root, deps);
            &&& install_steps("rhel"@, version)->0[0] == epel
            &&& cmd.len() >= first.len()
            &&& cmd.subrange(0, first.len() as int) == first
        }),
{
    reveal_strlit("ubuntu");
    reveal_strlit("rhel");
    reveal_strlit("7");
    reveal_strlit("8");
    reveal_strlit("9");
    reveal_strlit("dnf install -y https://dl.fedoraproject.org/pub/epel/epel-release-latest-");
    reveal_strlit(".noarch.rpm");
    reveal_strlit("dnf install -y https://dl.fedoraproject.org/pub/epel/epel-release-latest-8.noarch.rpm");
    reveal_strlit("dnf install -y https://dl.fedoraproject.org/pub/epel/epel-release-latest-9.noarch.rpm");
    let epel = "dnf install -y https://dl.fedoraproject.org/pub/epel/epel-release-latest-"@ + version + ".noarch.rpm"@;
    let steps = install_steps("rhel"@, version)->0;
    assert("rhel"@.len() == 4 && "ubuntu"@.len() == 6);
    assert("rhel"@ != "ubuntu"@);
    assert("7"@[0] == '7' && "8"@[0] == '8' && "9"@[0] == '9');
    if version == "8"@ {
        assert(version != "7"@);
        assert(steps[0] == "dnf install -y https://dl.fedoraproject.org/pub/epel/epel-release-latest-8.noarch.rpm"@);
        assert("dnf install -y https://dl.fedoraproject.org/pub/epel/epel-release-latest-8.noarch.rpm"@ =~= epel);
    } else {
        assert(version != "7"@ && version != "8"@);
        assert(steps[0] == "dnf install -y https://dl.fedoraproject.org/pub/epel/epel-release-latest-9.noarch.rpm"@);
        assert("dnf install -y https://dl.fedoraproject.org/pub/epel/epel-release-latest-9.noarch.rpm"@ =~= epel);
    }
    let header = if is_root { steps } else { steps.map_values(|s: Seq<char>| "sudo "@ + s) };
    let first = if is_root { epel } else { "sudo "@ + epel };
    assert(header[0] == first);
    lemma_seq_join_starts(header, " && "@);
    let j = seq_join(header, " && "@);
    let cmd = install_command_spec(steps, is_root, deps);
    assert(cmd == j + " "@ + seq_join(deps, " "@));
    assert(cmd.subrange(0, first.len() as int) =~= j.subrange(0, first.len() as int));
}

/// A joined list ends with its last element.
proof fn lemma_seq_join_ends(list: Seq<Seq<char>>, sep: Seq<char>)
    requires
        list.len() >= 1,
    ensures
        seq_join(list, sep).len() >= list.last().len(),
        seq_join(list, sep).subrange(seq_join(list, sep).len() - list.last().len(), seq_join(list, sep).len() as int) == list.last(),
{
    let j = seq_join(list, sep);
    if list.len() > 1 {
        let a = seq_join(list.drop_last(), sep);
        assert(j == a + sep + list.last());
        assert(j.subrange(j.len() - list.last().len(), j.len() as int) =~= list.last());
    } else {
        assert(j.subrange(j.len() - list.last().len(), j.len() as int) =~= list.last());
    }
}

/// The install command ends with the package manager's install of the
/// packages: `DEBIAN_FRONTEND=noninteractive apt install -y --no-install-recommends`
/// on Ubuntu, `yum install -y` on RHEL 7 and `dnf install -y` on RHEL 8 and
/// 9 (after `sudo ` when not run as root), then a space and the packages
/// joined by spaces; on Ubuntu it begins with `apt update` and on RHEL 7
/// with `yum install -y epel-release`.
pub proof fn lemma_install_command_installs(os_name: Seq<char>, version: Seq<char>, is_root: bool, deps: Seq<Seq<char>>)
    requires
        os_name == "ubuntu"@ || (os_name == "rhel"@ && (version == "7"@ || version == "8"@ || version == "9"@)),
    ensures
        install_steps(os_name, version) is Some,
        ({
            let installer = if os_name == "ubuntu"@ {
                "DEBIAN_FRONTEND=noninteractive apt install -y --no-install-recommends"@
            } else if version == "7"@ {
                "yum install -y"@
            } else {
                "dnf install -y"@
            };
            let opener = if os_name == "ubuntu"@ { "apt update"@ } else if version == "7"@ { "yum install -y epel-release"@ } else {
                install_steps(os_name, version)->0[0] };
            let sudo = if is_root { Seq::<char>::empty() } else { "sudo "@ };
            let tail = sudo + installer + " "@ + seq_join(deps, " "@);
            let head = sudo + opener;
            let cmd = install_command_spec(install_steps(os_name, version)->0, is_root, deps);
            &&& cmd.len() >= tail.len()
            &&& cmd.subrange(cmd.len() - tail.len(), cmd.len() as int) == tail
            &&& cmd.len() >= head.len()
            &&& cmd.subrange(0, head.len() as int) == head
        }),
{
    reveal_strlit("ubuntu");
    reveal_strlit("rhel");
    reveal_strlit("7");
    reveal_strlit("8");
    reveal_strlit("9");
    reveal_strlit("sudo ");
    assert("rhel"@.len() == 4 && "ubuntu"@.len() == 6);
    assert("7"@[0] == '7' && "8"@[0] == '8' && "9"@[0] == '9');
    let steps = install_steps(os_name, version)->0;
    let installer = if os_name == "ubuntu"@ {
        "DEBIAN_FRONTEND=noninteractive apt install -y --no-install-recommends"@
    } else if version == "7"@ {
        "yum install -y"@
    } else {
        "dnf install -y"@
    };
    assert(steps.last() == installer);
    let sudo = if is_root { Seq::<char>::empty() } else { "sudo "@ };
    let header = if is_root { steps } else { steps.map_values(|s: Seq<char>| "sudo "@ + s) };
    assert(header.last() =~= sudo + installer);
    assert(header[0] =~= sudo + steps[0]);
    lemma_seq_join_ends(header, " && "@);
    lemma_seq_join_starts(header, " && "@);
    let j = seq_join(header, " && "@);
    let rest = " "@ + seq_join(deps, " "@);
    let cmd = install_command_spec(steps, is_root, deps);
    assert(cmd =~= j + rest);
    let tail = sudo + installer + rest;
    assert(cmd.subrange(cmd.len() - tail.len(), cmd.len() as int) =~= tail) by {
        assert(j.subrange(j.len() - header.last().len(), j.len() as int) == header.last());
    }
    assert(cmd.subrange(0, header[0].len() as int) =~= j.subrange(0, header[0].len() as int));
}

} // verus!
