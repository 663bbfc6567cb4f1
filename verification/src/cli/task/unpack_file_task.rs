//! Unpacking the uploaded packages on the hosts: which package goes where,
//! and the shell line that unpacks it.
use crate::cli::config::DeploymentConfig;
use crate::cli::task::task_base::{task_host_view, TaskExecutionContext, TaskHost, TaskId, TaskValue};
use crate::text::{contains_seq, copy_string, replace_all, replace_str, str_contains};
use vstd::prelude::*;

verus! {

/// The key of an unpack task's input that names the uploaded package.
pub const REMOTE_TAR: &'static str = "remote_tar";

/// A task that unpacks a package on one host.
#[derive(Clone, Debug)]
pub struct UnpackFileTask {
    pub config: DeploymentConfig,
    pub task_host: TaskHost,
    pub task_id: TaskId,
}

/// Each package with each host it goes to, package after package.
pub open spec fn unpack_plan(files: Seq<(String, Vec<String>)>) -> Seq<(Seq<char>, Seq<char>)> {
    files.map_values(|e: (String, Vec<String>)| e.1.deep_view().map_values(|h: Seq<char>| (e.0@, h))).flatten()
}

/// The shell line that unpacks `remote_tar` under `install_dir`: a MonographDB
/// package into `monographdb-release`, anything else (Cassandra) in place and
/// then renamed to `apache-cassandra`.
pub open spec fn extract_cmd_text(remote_tar: Seq<char>, install_dir: Seq<char>) -> Seq<char> {
    if contains_seq(remote_tar, "monograph"@) {
        "mkdir -p "@ + install_dir + "/monographdb-release && tar -zxvf "@ + remote_tar + " -C "@ + install_dir
            + "/monographdb-release"@
    } else {
        "tar -zxvf "@ + remote_tar + " -C "@ + install_dir + " && mv "@ + replace_all(remote_tar, "-bin.tar.gz"@, ""@) + " "@
            + install_dir + "/apache-cassandra"@
    }
}

fn unpack_pairs(files: &Vec<(String, Vec<String>)>) -> (pairs: Vec<(String, String)>)
    ensures
        pairs@.map_values(|p: (String, String)| (p.0@, p.1@)) == unpack_plan(files@),
{
    let ghost gv = files@.map_values(|e: (String, Vec<String>)| e.1.deep_view().map_values(|h: Seq<char>| (e.0@, h)));
    let mut pairs: Vec<(String, String)> = Vec::new();
    let mut g: usize = 0;
    while g < files.len()
        invariant
            0 <= g <= files.len(),
            gv == files@.map_values(|e: (String, Vec<String>)| e.1.deep_view().map_values(|h: Seq<char>| (e.0@, h))),
            pairs@.map_values(|p: (String, String)| (p.0@, p.1@)) =~= gv.take(g as int).flatten(),
        decreases files.len() - g,
    {
        let file = &files[g].0;
        let hosts = &files[g].1;
        let ghost row = hosts.deep_view().map_values(|h: Seq<char>| (file@, h));
        assert(gv[g as int] == row);
        let ghost base = pairs@.map_values(|p: (String, String)| (p.0@, p.1@));
        let mut k: usize = 0;
        while k < hosts.len()
            invariant
                0 <= k <= hosts.len(),
                row == hosts.deep_view().map_values(|h: Seq<char>| (file@, h)),
                pairs@.map_values(|p: (String, String)| (p.0@, p.1@)) =~= base + row.take(k as int),
            decreases hosts.len() - k,
        {
            let ghost before = pairs@;
            pairs.push((copy_string(file), copy_string(&hosts[k])));
            assert(pairs@.map_values(|p: (String, String)| (p.0@, p.1@)) =~= before.map_values(|p: (String, String)| (p.0@, p.1@)).push((file@, hosts[k as int]@)));
            k = k + 1;
        }
        proof {
            assert(row.take(hosts.len() as int) =~= row);
            assert(gv.take(g + 1) =~= gv.take(g as int).push(gv[g as int]));
            gv.take(g as int).lemma_flatten_push(gv[g as int]);
        }
        g = g + 1;
    }
    assert(gv.take(files.len() as int) =~= gv);
    pairs
}

impl UnpackFileTask {
    /// One task per package and host of `unpack_files` (each package with
    /// the hosts it was uploaded to), run over SSH as the connection's user
    /// and port, each handed `{install_dir}/{package}` under `remote_tar`.
    pub fn from_config(config: &DeploymentConfig, unpack_files: &Vec<(String, Vec<String>)>)
        -> (tasks: Vec<TaskExecutionContext<UnpackFileTask>>)
        ensures
            tasks@.len() == unpack_plan(unpack_files@).len(),
            forall|i: int| 0 <= i < tasks@.len() ==> {
                let t = #[trigger] tasks@[i];
                let (file, host) = unpack_plan(unpack_files@)[i];
                &&& t.task_input@.len() == 1
                &&& t.task_input@[0].0@ == REMOTE_TAR@
                &&& t.task_input@[0].1 matches TaskValue::Str(tar) && tar@ == config.deployment.install_dir@ + "/"@ + file
                &&& t.task.task_id.cmd@ == "deploy"@
                &&& t.task.task_id.task@ == file + "_unpack"@
                &&& t.task.config@ == config@
                &&& task_host_view(t.task.task_host) == task_host_view(t.task_host)
                &&& t.task_host matches TaskHost::Remote { user, port, hosts }
                &&& user@ == config.connection.username@
                &&& port == config.connection.ssh_port_spec() as usize
                &&& hosts@ == host
            },
    {
        proof {
            reveal_strlit("/");
            reveal_strlit("deploy");
            reveal_strlit("_unpack");
            reveal_strlit("remote_tar");
        }
        let remote_install_dir = config.install_dir();
        let conn_usr = &config.connection.username;
        let ssh_port = config.connection.ssh_port();
        let pairs = unpack_pairs(unpack_files);
        let ghost plan = unpack_plan(unpack_files@);
        let mut tasks: Vec<TaskExecutionContext<UnpackFileTask>> = Vec::new();
        let mut i: usize = 0;
        while i < pairs.len()
            invariant
                0 <= i <= pairs.len(),
                plan == unpack_plan(unpack_files@),
                pairs@.map_values(|p: (String, String)| (p.0@, p.1@)) == plan,
                remote_install_dir@ == config.deployment.install_dir@,
                ssh_port == config.connection.ssh_port_spec(),
                conn_usr == &config.connection.username,
                tasks@.len() == i,
                forall|k: int| 0 <= k < i ==> {
                    let t = #[trigger] tasks@[k];
                    let (file, host) = plan[k];
                    &&& t.task_input@.len() == 1
                    &&& t.task_input@[0].0@ == REMOTE_TAR@
                    &&& t.task_input@[0].1 matches TaskValue::Str(tar) && tar@ == config.deployment.install_dir@ + "/"@ + file
                    &&& t.task.task_id.cmd@ == "deploy"@
                    &&& t.task.task_id.task@ == file + "_unpack"@
                    &&& t.task.config@ == config@
                    &&& task_host_view(t.task.task_host) == task_host_view(t.task_host)
                    &&& t.task_host matches TaskHost::Remote { user, port, hosts }
                    &&& user@ == config.connection.username@
                    &&& port == config.connection.ssh_port_spec() as usize
                    &&& hosts@ == host
                },
            decreases pairs.len() - i,
        {
            let unpack_file = &pairs[i].0;
            let remote_host = &pairs[i].1;
            assert(plan[i as int] == (unpack_file@, remote_host@));
            let mut remote_tarball = copy_string(&remote_install_dir);
            remote_tarball.append("/");
            remote_tarball.append(unpack_file.as_str());
            let mut task_name = copy_string(unpack_file);
            task_name.append("_unpack");
            let user = copy_string(conn_usr);
            let host = copy_string(remote_host);
            let task = UnpackFileTask {
                task_host: TaskHost::Remote { user: copy_string(&user), port: ssh_port as usize, hosts: copy_string(&host) },
                config: config.copy(),
                task_id: TaskId { cmd: String::from_str("deploy"), task: task_name },
            };
            let ctx = TaskExecutionContext {
                task_input: vec![(String::from_str(REMOTE_TAR), TaskValue::Str(remote_tarball))],
                task,
                task_host: TaskHost::Remote { user, port: ssh_port as usize, hosts: host },
            };
            tasks.push(ctx);
            i = i + 1;
        }
        tasks
    }

    /// The shell line that unpacks `remote_tar` under the install directory.
    pub fn extract_command(&self, remote_tar: &str) -> (cmd: String)
        ensures
            cmd@ == extract_cmd_text(remote_tar@, self.config.deployment.install_dir@),
    {
        proof {
            reveal_strlit("monograph");
            reveal_strlit("mkdir -p ");
            reveal_strlit("/monographdb-release && tar -zxvf ");
            reveal_strlit(" -C ");
            reveal_strlit("/monographdb-release");
            reveal_strlit("tar -zxvf ");
            reveal_strlit(" && mv ");
            reveal_strlit("-bin.tar.gz");
            reveal_strlit("");
            reveal_strlit(" ");
            reveal_strlit("/apache-cassandra");
        }
        let install_dir = self.config.install_dir();
        if str_contains(remote_tar, "monograph") {
            let mut c = String::from_str("mkdir -p ");
            c.append(install_dir.as_str());
            c.append("/monographdb-release && tar -zxvf ");
            c.append(remote_tar);
            c.append(" -C ");
            c.append(install_dir.as_str());
            c.append("/monographdb-release");
            c
        } else {
            let mut c = String::from_str("tar -zxvf ");
            c.append(remote_tar);
            c.append(" -C ");
            c.append(install_dir.as_str());
            c.append(" && mv ");
            c.append(replace_str(remote_tar, "-bin.tar.gz", "").as_str());
            c.append(" ");
            c.append(install_dir.as_str());
            c.append("/apache-cassandra");
            c
        }
    }
}

} // verus!
