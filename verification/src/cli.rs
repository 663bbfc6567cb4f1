//! The command side of the cluster manager: its commands, the deployment
//! they act on, the tasks they plan and the helpers those share.
use crate::text::copy_string;
use vstd::prelude::*;
use vstd::string::StrSliceExecFns;

pub mod config;
pub mod ssh;
pub mod task;
pub mod util;

verus! {

/// The MonographDB configuration file on a host.
pub const MONOGRAPH_CONF: &'static str = "my.cnf";
/// The template the MonographDB configuration is made from.
pub const MONOGRAPH_CONF_TEMPLATE: &'static str = "my_template.cnf";
/// The script that starts MonographDB.
pub const START_MONOGRAPH_SCRIPT: &'static str = "start_monographdb.bash";
/// The template of the start script.
pub const START_MONOGRAPH_TEMPLATE: &'static str = "start_monographdb.template";
/// The template of the install script.
pub const MONOGRAPH_INSTALL_TEMPLATE: &'static str = "monograph_install_db.template";
/// The script that installs the database.
pub const MONOGRAPH_INSTALL_SCRIPT: &'static str = "monograph_install_db.bash";

/// The arguments of the cluster manager: a configuration file and a command.
#[derive(Default, Debug)]
pub struct ClusterMgrCommandArgs {
    pub config: Option<String>,
    pub command: Option<CommandArgs>,
}

/// The commands of the cluster manager.
#[derive(Clone, Debug, Hash, PartialEq, Eq)]
pub enum CommandArgs {
    /// Deploy the MonographDB cluster by specifying the cluster_topology.yaml file.
    Deploy { topology_file: String },
    Install { cluster: String },
    /// Start ClusterMgrCli's webservice on the specified port.
    Web { port: i16 },
    /// Start the MonographDB cluster with the specified cluster name.
    Start { cluster: String },
    /// Stop the MonographDB cluster with the specified cluster name.
    Stop { cluster: String },
    /// Restart the MonographDB cluster with the specified cluster name.
    Restart { cluster: String },
    /// Execute custom shell commands.
    Exec { script: String },
    /// Display cluster status.
    Display { cluster: String },
}

/// `dir` joined with `file` as a Unix path: an absolute `file` replaces
/// `dir`; otherwise a `/` goes between them unless `dir` is empty or ends with one.
pub open spec fn path_join(dir: Seq<char>, file: Seq<char>) -> Seq<char> {
    if file.len() > 0 && file[0] == '/' {
        file
    } else if dir.len() == 0 || dir.last() == '/' {
        dir + file
    } else {
        dir + "/"@ + file
    }
}

/// `dir` joined with `file`, as `Path::join` joins them.
pub fn join_path(dir: &str, file: &String) -> (p: String)
    ensures
        p@ == path_join(dir@, file@),
{
    proof {
        reveal_strlit("/");
    }
    let flen = file.as_str().unicode_len();
    if flen > 0 && file.as_str().get_char(0) == '/' {
        return copy_string(file);
    }
    let dlen = dir.unicode_len();
    let mut p = String::from_str(dir);
    if dlen > 0 && dir.get_char(dlen - 1) != '/' {
        p.append("/");
    }
    p.append(file.as_str());
    p
}

/// The paths of `download_files` under the download directory `download_dir`.
pub fn download_file_path(download_dir: &str, download_files: Vec<String>) -> (paths: Vec<String>)
    ensures
        paths.deep_view() == download_files.deep_view().map_values(|f: Seq<char>| path_join(download_dir@, f)),
{
    let mut paths: Vec<String> = Vec::new();
    let mut i: usize = 0;
    while i < download_files.len()
        invariant
            0 <= i <= download_files.len(),
            paths.deep_view() =~= download_files.deep_view().take(i as int).map_values(|f: Seq<char>| path_join(download_dir@, f)),
        decreases download_files.len() - i,
    {
        let ghost before = paths.deep_view();
        paths.push(join_path(download_dir, &download_files[i]));
        assert(download_files.deep_view().take(i + 1) =~= download_files.deep_view().take(i as int).push(download_files[i as int]@));
        assert(paths.deep_view() =~= before.push(path_join(download_dir@, download_files[i as int]@)));
        i = i + 1;
    }
    assert(download_files.deep_view().take(download_files.len() as int) =~= download_files.deep_view());
    paths
}

} // verus!
