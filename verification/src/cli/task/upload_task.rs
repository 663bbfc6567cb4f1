//! Uploading files to hosts: the task, the directory it makes first, and the
//! uploads planned per host for the deployment's services and packages.
use crate::cli::config::DeploymentConfig;
use crate::cli::task::task_base::{task_host_view, TaskExecutionContext, TaskHost, TaskId, TaskValue};
use crate::cli::{join_path, path_join};
use crate::config::deployment::config_file_name;
use crate::text::{contains_seq, copy_string, str_contains};
use vstd::prelude::*;

verus! {

/// The input key of the file to upload.
pub const SOURCE_PATH: &'static str = "source_file";
/// The input key of where the file goes on the host.
pub const DEST_PATH: &'static str = "dest_file";
/// The input key of the flag that copies a directory.
pub const COPY_DIR: &'static str = "copy_dir";
/// The upload of a host's MonographDB configuration.
pub const DB_CONFIG_UPLOAD_TASK: &'static str = "db_config_upload";
/// The upload of the install (or bootstrap) script.
pub const INSTALL_MONOGRAPH_UPLOAD_TASK: &'static str = "install_monograph_script_upload";
/// The upload of the MonographDB package.
pub const MONOGRAPH_CONFIG_UPLOAD_TASK: &'static str = "monograph_config_upload";
/// The upload of the configuration the install runs with.
pub const MONOGRAPH_INSTALL_CONFIG_UPLOAD_TASK: &'static str = "monograph_install_db_conf_upload";
/// The upload of the log service package.
pub const LOG_INSTALL_UPLOAD_TASK: &'static str = "monograph_log_upload";
/// The upload of a log service start script.
pub const LOG_START_CMD_UPLOAD_TASK: &'static str = "monograph_start_cmd_upload";

/// A task that uploads files to a host.
#[derive(Debug, Clone)]
pub struct UploadTask {
    pub config: DeploymentConfig,
    pub task_id: TaskId,
}

/// The downloaded packages a deployment installs from.
#[derive(Clone, Copy, Debug, PartialEq, Eq, Structural)]
pub enum ImageFile {
    Cassandra,
    CassandraCollectorAgent,
    Monograph,
    MonographLog,
    NodeExporter,
    MysqlExporter,
    Prometheus,
    Grafana,
}

/// The services of a deployment whose hosts get uploads.
#[derive(Clone, Copy, Debug, PartialEq, Eq, Structural)]
pub enum DeploymentService {
    Storage,
    Monograph,
    Prometheus,
    Grafana,
}

/// An upload by its contents: the task's name and its input, key by key.
pub type UploadItem = (Seq<char>, Seq<(Seq<char>, Seq<char>)>);

/// The task runs over SSH on `host` as the connection's user and port.
pub open spec fn runs_on(h: TaskHost, config: DeploymentConfig, host: Seq<char>) -> bool {
    task_host_view(h) == Some((config.connection.username@, config.connection.ssh_port_spec() as usize, host))
}

/// The task's input is the string entries `expected`, in order.
pub open spec fn str_inputs_are(input: Seq<(String, TaskValue)>, expected: Seq<(Seq<char>, Seq<char>)>) -> bool {
    &&& input.len() == expected.len()
    &&& forall|j: int| 0 <= j < input.len() ==> (#[trigger] input[j]).0@ == expected[j].0
        && (input[j].1 matches TaskValue::Str(w) && w@ == expected[j].1)
}

/// An upload task of command `cmd` for `config`, with the name and input of
/// `item`, run on `host`.
pub open spec fn upload_is(t: TaskExecutionContext<UploadTask>, config: DeploymentConfig, cmd: Seq<char>, item: UploadItem, host: Seq<char>) -> bool {
    &&& t.task.task_id.cmd@ == cmd
    &&& t.task.task_id.task@ == item.0
    &&& t.task.config@ == config@
    &&& str_inputs_are(t.task_input@, item.1)
    &&& runs_on(t.task_host, config, host)
}

/// The file downloaded for `key`: the first entry under that key.
pub open spec fn image_lookup(files: Seq<(ImageFile, String)>, key: ImageFile) -> Option<Seq<char>>
    decreases files.len(),
{
    if files.len() == 0 {
        None
    } else if files[0].0 == key {
        Some(files[0].1@)
    } else {
        image_lookup(files.drop_first(), key)
    }
}

/// An input that names only the file to upload.
pub open spec fn source_only(src: Seq<char>) -> Seq<(Seq<char>, Seq<char>)> {
    seq![(SOURCE_PATH@, src)]
}

/// The upload of the package downloaded for `key`, under `name`, if there is one.
pub open spec fn image_item(files: Seq<(ImageFile, String)>, key: ImageFile, name: Seq<char>, download_dir: Seq<char>) -> Seq<UploadItem> {
    match image_lookup(files, key) {
        Some(f) => seq![(name, source_only(path_join(download_dir, f)))],
        None => Seq::empty(),
    }
}

/// The uploads of a storage host: the Cassandra packages where the store is Cassandra.
pub open spec fn storage_items(config: DeploymentConfig, files: Seq<(ImageFile, String)>, download_dir: Seq<char>) -> Seq<UploadItem> {
    if config.deployment.storage_service.cassandra is Some {
        image_item(files, ImageFile::Cassandra, "cassandra_upload"@, download_dir)
            + image_item(files, ImageFile::CassandraCollectorAgent, "cassandra_collector_agent_upload"@, download_dir)
    } else {
        Seq::empty()
    }
}

/// The uploads of a transaction host: its configuration, the script, the
/// package, the configuration the script runs with, then the exporters.
pub open spec fn tx_items(db_config: Seq<char>, script: Seq<char>, install_config: Seq<char>, files: Seq<(ImageFile, String)>, download_dir: Seq<char>) -> Seq<UploadItem> {
    seq![
        (DB_CONFIG_UPLOAD_TASK@, source_only(db_config)),
        (INSTALL_MONOGRAPH_UPLOAD_TASK@, source_only(script)),
        (MONOGRAPH_CONFIG_UPLOAD_TASK@, source_only(path_join(download_dir, image_lookup(files, ImageFile::Monograph)->0))),
        (MONOGRAPH_INSTALL_CONFIG_UPLOAD_TASK@, source_only(install_config)),
    ] + image_item(files, ImageFile::NodeExporter, "node_exporter_upload"@, download_dir)
        + image_item(files, ImageFile::MysqlExporter, "mysql_exporter_upload"@, download_dir)
}

/// The uploads of `host` for `service`: for a MonographDB host its own
/// configuration file, the install script and the local configuration.
pub open spec fn service_items(service: DeploymentService, config: DeploymentConfig, host: Seq<char>, files: Seq<(ImageFile, String)>, download_dir: Seq<char>, install_db_script: Seq<char>) -> Seq<UploadItem> {
    match service {
        DeploymentService::Storage => storage_items(config, files, download_dir),
        DeploymentService::Monograph => tx_items(path_join(download_dir, config_file_name(host)), install_db_script,
            path_join(download_dir, config_file_name("local"@)), files, download_dir),
        DeploymentService::Prometheus => image_item(files, ImageFile::Prometheus, "prometheus_upload"@, download_dir),
        DeploymentService::Grafana => image_item(files, ImageFile::Grafana, "grafana_upload"@, download_dir),
    }
}

/// The uploads of several hosts, host after host, each upload with its host.
pub open spec fn hosts_plan(hosts: Seq<Seq<char>>, items: Seq<Seq<UploadItem>>) -> Seq<(Seq<char>, UploadItem)> {
    Seq::new(hosts.len(), |k: int| items[k].map_values(|it: UploadItem| (hosts[k], it))).flatten()
}

/// An exec upload by its contents.
pub open spec fn item_view(x: (String, Vec<(String, String)>)) -> UploadItem {
    (x.0@, x.1@.map_values(|p: (String, String)| (p.0@, p.1@)))
}

/// Exec uploads by their contents.
pub open spec fn items_view(xs: Seq<(String, Vec<(String, String)>)>) -> Seq<UploadItem> {
    xs.map_values(|x: (String, Vec<(String, String)>)| item_view(x))
}

/// Where a Cassandra configuration file goes: the task's name and the path
/// under the install directory, chosen by what its path contains.
pub open spec fn cass_conf_target(path: Seq<char>) -> (Seq<char>, Seq<char>) {
    if contains_seq(path, "env.sh"@) {
        ("cassandra-env"@, "apache-cassandra/conf/cassandra-env.sh"@)
    } else if contains_seq(path, "yaml"@) {
        ("cassandra-config-options"@, "apache-cassandra/conf/cassandra.yaml"@)
    } else {
        ("jvm11-server-options"@, "apache-cassandra/conf/jvm11-server.options"@)
    }
}

/// The upload of a Cassandra configuration file.
pub open spec fn cass_conf_item(path: Seq<char>) -> UploadItem {
    (cass_conf_target(path).0, seq![(SOURCE_PATH@, path), (DEST_PATH@, cass_conf_target(path).1)])
}

/// The Cassandra configuration uploads: per host, one per file generated for it.
pub open spec fn cass_conf_items(cass_config: Seq<(String, Vec<String>)>) -> Seq<Seq<UploadItem>> {
    cass_config.map_values(|e: (String, Vec<String>)| e.1.deep_view().map_values(|p: Seq<char>| cass_conf_item(p)))
}

/// The upload of the data directory made by the install, copied whole.
pub open spec fn data_dir_item(config: DeploymentConfig) -> UploadItem {
    ("upload_datafarm"@, seq![(SOURCE_PATH@, config.deployment.install_dir@ + "/datafarm"@), (COPY_DIR@, "-r"@)])
}

pub(crate) fn lookup_image(files: &Vec<(ImageFile, String)>, key: ImageFile) -> (r: Option<String>)
    ensures
        match r {
            Some(s) => image_lookup(files@, key) == Some(s@),
            None => image_lookup(files@, key) is None,
        },
{
    let mut i: usize = 0;
    assert(files@.skip(0) =~= files@);
    while i < files.len()
        invariant
            0 <= i <= files.len(),
            image_lookup(files@, key) == image_lookup(files@.skip(i as int), key),
        decreases files.len() - i,
    {
        assert(files@.skip(i as int)[0] == files@[i as int]);
        if files[i].0 == key {
            return Some(copy_string(&files[i].1));
        }
        assert(files@.skip(i as int).drop_first() =~= files@.skip(i + 1));
        i = i + 1;
    }
    assert(files@.skip(i as int).len() == 0);
    None
}

pub(crate) fn str_pair(k: &str, v: String) -> (p: (String, String))
    ensures
        p.0@ == k@,
        p.1@ == v@,
{
    (String::from_str(k), v)
}

pub(crate) fn push_image_item(items: &mut Vec<(String, Vec<(String, String)>)>, files: &Vec<(ImageFile, String)>, key: ImageFile, name: &str, download_dir: &str)
    ensures
        items_view(final(items)@) == items_view(old(items)@) + image_item(files@, key, name@, download_dir@),
{
    proof {
        reveal_strlit("source_file");
    }
    let ghost before = items@;
    match lookup_image(files, key) {
        Some(f) => {
            let src = join_path(download_dir, &f);
            items.push((String::from_str(name), vec![str_pair(SOURCE_PATH, src)]));
            assert(items_view(items@) =~= items_view(before) + image_item(files@, key, name@, download_dir@)) by {
                assert(item_view(items@.last()).1 =~= source_only(path_join(download_dir@, f@)));
            }
        },
        None => {
            assert(items_view(items@) =~= items_view(before) + image_item(files@, key, name@, download_dir@));
        },
    }
}

pub(crate) fn push_source_item(items: &mut Vec<(String, Vec<(String, String)>)>, name: &str, src: String)
    ensures
        items_view(final(items)@) == items_view(old(items)@).push((name@, source_only(src@))),
{
    let ghost before = items@;
    items.push((String::from_str(name), vec![str_pair(SOURCE_PATH, src)]));
    assert(items_view(items@) =~= items_view(before).push((name@, source_only(src@)))) by {
        assert(item_view(items@.last()).1 =~= source_only(src@));
    }
}

/// `my_{host}.cnf` under the download directory.
pub(crate) fn host_config_path(download_dir: &str, host: &str) -> (p: String)
    ensures
        p@ == path_join(download_dir@, config_file_name(host@)),
{
    proof {
        reveal_strlit("my_");
        reveal_strlit(".cnf");
    }
    let mut name = String::from_str("my_");
    name.append(host);
    name.append(".cnf");
    join_path(download_dir, &name)
}

pub(crate) fn storage_host_items(config: &DeploymentConfig, files: &Vec<(ImageFile, String)>, download_dir: &str) -> (items: Vec<(String, Vec<(String, String)>)>)
    ensures
        items_view(items@) == storage_items(*config, files@, download_dir@),
{
    let mut items: Vec<(String, Vec<(String, String)>)> = Vec::new();
    if config.deployment.storage_service.cassandra.is_some() {
        proof {
            reveal_strlit("cassandra_upload");
            reveal_strlit("cassandra_collector_agent_upload");
        }
        push_image_item(&mut items, files, ImageFile::Cassandra, "cassandra_upload", download_dir);
        push_image_item(&mut items, files, ImageFile::CassandraCollectorAgent, "cassandra_collector_agent_upload", download_dir);
    }
    assert(items_view(items@) =~= storage_items(*config, files@, download_dir@));
    items
}

pub(crate) fn tx_host_items(db_config: String, script: &str, install_config: String, files: &Vec<(ImageFile, String)>, download_dir: &str)
    -> (items: Vec<(String, Vec<(String, String)>)>)
    requires
        image_lookup(files@, ImageFile::Monograph) is Some,
    ensures
        items_view(items@) == tx_items(db_config@, script@, install_config@, files@, download_dir@),
{
    proof {
        reveal_strlit("node_exporter_upload");
        reveal_strlit("mysql_exporter_upload");
    }
    let tar = match lookup_image(files, ImageFile::Monograph) {
        Some(f) => f,
        None => {
            proof {
                assert(false);
            }
            String::new()
        },
    };
    let mut items: Vec<(String, Vec<(String, String)>)> = Vec::new();
    push_source_item(&mut items, DB_CONFIG_UPLOAD_TASK, db_config);
    push_source_item(&mut items, INSTALL_MONOGRAPH_UPLOAD_TASK, String::from_str(script));
    push_source_item(&mut items, MONOGRAPH_CONFIG_UPLOAD_TASK, join_path(download_dir, &tar));
    push_source_item(&mut items, MONOGRAPH_INSTALL_CONFIG_UPLOAD_TASK, install_config);
    push_image_item(&mut items, files, ImageFile::NodeExporter, "node_exporter_upload", download_dir);
    push_image_item(&mut items, files, ImageFile::MysqlExporter, "mysql_exporter_upload", download_dir);
    assert(items_view(items@) =~= tx_items(db_config@, script@, install_config@, files@, download_dir@));
    items
}

fn service_host_items(service: DeploymentService, config: &DeploymentConfig, host: &String, files: &Vec<(ImageFile, String)>, download_dir: &str, install_db_script: &str)
    -> (items: Vec<(String, Vec<(String, String)>)>)
    requires
        service is Monograph ==> image_lookup(files@, ImageFile::Monograph) is Some,
    ensures
        items_view(items@) == service_items(service, *config, host@, files@, download_dir@, install_db_script@),
{
    match service {
        DeploymentService::Storage => storage_host_items(config, files, download_dir),
        DeploymentService::Monograph => {
            proof {
                reveal_strlit("local");
            }
            let db_config = host_config_path(download_dir, host.as_str());
            let install_config = host_config_path(download_dir, "local");
            tx_host_items(db_config, install_db_script, install_config, files, download_dir)
        },
        DeploymentService::Prometheus => {
            proof {
                reveal_strlit("prometheus_upload");
            }
            let mut items: Vec<(String, Vec<(String, String)>)> = Vec::new();
            push_image_item(&mut items, files, ImageFile::Prometheus, "prometheus_upload", download_dir);
            assert(items_view(items@) =~= service_items(service, *config, host@, files@, download_dir@, install_db_script@));
            items
        },
        DeploymentService::Grafana => {
            proof {
                reveal_strlit("grafana_upload");
            }
            let mut items: Vec<(String, Vec<(String, String)>)> = Vec::new();
            push_image_item(&mut items, files, ImageFile::Grafana, "grafana_upload", download_dir);
            assert(items_view(items@) =~= service_items(service, *config, host@, files@, download_dir@, install_db_script@));
            items
        },
    }
}

fn upload_ctx(config: &DeploymentConfig, cmd: &str, item: &(String, Vec<(String, String)>), host: &String) -> (t: TaskExecutionContext<UploadTask>)
    ensures
        upload_is(t, *config, cmd@, item_view(*item), host@),
{
    let mut input: Vec<(String, TaskValue)> = Vec::new();
    let mut j: usize = 0;
    while j < item.1.len()
        invariant
            0 <= j <= item.1.len(),
            input@.len() == j,
            forall|q: int| 0 <= q < j ==> (#[trigger] input@[q]).0@ == item.1@[q].0@
                && (input@[q].1 matches TaskValue::Str(w) && w@ == item.1@[q].1@),
        decreases item.1.len() - j,
    {
        input.push((copy_string(&item.1[j].0), TaskValue::Str(copy_string(&item.1[j].1))));
        j = j + 1;
    }
    let task_id = TaskId { cmd: String::from_str(cmd), task: copy_string(&item.0) };
    let t = TaskExecutionContext {
        task_input: input,
        task: UploadTask::new(config.copy(), task_id),
        task_host: TaskHost::Remote {
            user: copy_string(&config.connection.username),
            port: config.connection.ssh_port() as usize,
            hosts: copy_string(host),
        },
    };
    assert(str_inputs_are(t.task_input@, item_view(*item).1));
    t
}

/// The upload tasks of command `cmd` for `hosts`, the uploads of each host
/// in `items` at the same place.
pub(crate) fn uploads_for_hosts(config: &DeploymentConfig, cmd: &str, hosts: &Vec<String>, items: &Vec<Vec<(String, Vec<(String, String)>)>>)
    -> (tasks: Vec<TaskExecutionContext<UploadTask>>)
    requires
        items@.len() == hosts@.len(),
    ensures
        tasks@.len() == hosts_plan(hosts.deep_view(), items@.map_values(|v: Vec<(String, Vec<(String, String)>)>| items_view(v@))).len(),
        forall|i: int| 0 <= i < tasks@.len() ==> {
            let p = hosts_plan(hosts.deep_view(), items@.map_values(|v: Vec<(String, Vec<(String, String)>)>| items_view(v@)))[i];
            upload_is(#[trigger] tasks@[i], *config, cmd@, p.1, p.0)
        },
{
    let ghost hv = hosts.deep_view();
    let ghost iv = items@.map_values(|v: Vec<(String, Vec<(String, String)>)>| items_view(v@));
    let ghost gv = Seq::new(hv.len(), |k: int| iv[k].map_values(|it: UploadItem| (hv[k], it)));
    let ghost mut done: Seq<(Seq<char>, UploadItem)> = Seq::empty();
    let mut tasks: Vec<TaskExecutionContext<UploadTask>> = Vec::new();
    let mut g: usize = 0;
    while g < hosts.len()
        invariant
            0 <= g <= hosts.len(),
            items@.len() == hosts@.len(),
            hv == hosts.deep_view(),
            iv == items@.map_values(|v: Vec<(String, Vec<(String, String)>)>| items_view(v@)),
            gv == Seq::new(hv.len(), |k: int| iv[k].map_values(|it: UploadItem| (hv[k], it))),
            done == gv.take(g as int).flatten(),
            tasks@.len() == done.len(),
            forall|i: int| 0 <= i < tasks@.len() ==> upload_is(#[trigger] tasks@[i], *config, cmd@, done[i].1, done[i].0),
        decreases hosts.len() - g,
    {
        let host_items = &items[g];
        let ghost row = gv[g as int];
        assert(row == iv[g as int].map_values(|it: UploadItem| (hv[g as int], it)));
        assert(iv[g as int] == items_view(host_items@));
        let ghost base = tasks@.len();
        let mut k: usize = 0;
        while k < host_items.len()
            invariant
                0 <= k <= host_items.len(),
                hv == hosts.deep_view(),
                g < hosts@.len(),
                row == items_view(host_items@).map_values(|it: UploadItem| (hv[g as int], it)),
                tasks@.len() == base + k,
                base == done.len(),
                forall|i: int| 0 <= i < base ==> upload_is(#[trigger] tasks@[i], *config, cmd@, done[i].1, done[i].0),
                forall|i: int| base <= i < base + k ==> upload_is(#[trigger] tasks@[i], *config, cmd@, row[i - base].1, row[i - base].0),
            decreases host_items.len() - k,
        {
            let t = upload_ctx(config, cmd, &host_items[k], &hosts[g]);
            assert(row[k as int] == (hv[g as int], item_view(host_items@[k as int])));
            assert(hv[g as int] == hosts@[g as int]@);
            tasks.push(t);
            k = k + 1;
        }
        proof {
            assert(gv.take(g + 1) =~= gv.take(g as int).push(row));
            gv.take(g as int).lemma_flatten_push(row);
            let nd = done + row;
            assert forall|i: int| 0 <= i < tasks@.len() implies upload_is(#[trigger] tasks@[i], *config, cmd@, nd[i].1, nd[i].0) by {
                if i >= base {
                    assert(nd[i] == row[i - base]);
                }
            }
            done = nd;
        }
        g = g + 1;
    }
    assert(gv.take(hosts.len() as int) =~= gv);
    tasks
}

impl UploadTask {
    /// A task for `config`.
    pub fn new(config: DeploymentConfig, task_id: TaskId) -> (t: Self)
        ensures
            t.config == config,
            t.task_id == task_id,
    {
        UploadTask { config, task_id }
    }

    /// The shell line that makes the install directory on the host.
    pub fn create_dir_command(&self) -> (cmd: String)
        ensures
            cmd@ == "mkdir -p "@ + self.config.deployment.install_dir@,
    {
        proof {
            reveal_strlit("mkdir -p ");
        }
        let mut cmd = String::from_str("mkdir -p ");
        cmd.append(self.config.install_dir().as_str());
        cmd
    }

    /// The uploads of the Cassandra configuration files generated per host
    /// (`cass_config`: each storage host with its files): per file, under the
    /// `install` command, the file to its place in the Cassandra install on
    /// that host: `cassandra-env.sh` for a path holding `env.sh`, else
    /// `cassandra.yaml` for one holding `yaml`, else `jvm11-server.options`.
    pub fn build_upload_cass_conf_task(config: &DeploymentConfig, cass_config: &Vec<(String, Vec<String>)>)
        -> (tasks: Vec<TaskExecutionContext<UploadTask>>)
        ensures
            tasks@.len() == hosts_plan(cass_config@.map_values(|e: (String, Vec<String>)| e.0@), cass_conf_items(cass_config@)).len(),
            forall|i: int| 0 <= i < tasks@.len() ==> {
                let p = hosts_plan(cass_config@.map_values(|e: (String, Vec<String>)| e.0@), cass_conf_items(cass_config@))[i];
                upload_is(#[trigger] tasks@[i], *config, "install"@, p.1, p.0)
            },
    {
        proof {
            reveal_strlit("install");
            reveal_strlit("env.sh");
            reveal_strlit("yaml");
            reveal_strlit("cassandra-env");
            reveal_strlit("apache-cassandra/conf/cassandra-env.sh");
            reveal_strlit("cassandra-config-options");
            reveal_strlit("apache-cassandra/conf/cassandra.yaml");
            reveal_strlit("jvm11-server-options");
            reveal_strlit("apache-cassandra/conf/jvm11-server.options");
            reveal_strlit("source_file");
            reveal_strlit("dest_file");
        }
        let mut hosts: Vec<String> = Vec::new();
        let mut items: Vec<Vec<(String, Vec<(String, String)>)>> = Vec::new();
        let mut g: usize = 0;
        while g < cass_config.len()
            invariant
                0 <= g <= cass_config.len(),
                hosts@.len() == g,
                items@.len() == g,
                hosts.deep_view() =~= cass_config@.map_values(|e: (String, Vec<String>)| e.0@).take(g as int),
                items@.map_values(|v: Vec<(String, Vec<(String, String)>)>| items_view(v@)) =~= cass_conf_items(cass_config@).take(g as int),
            decreases cass_config.len() - g,
        {
            let files = &cass_config[g].1;
            let mut row: Vec<(String, Vec<(String, String)>)> = Vec::new();
            let mut k: usize = 0;
            while k < files.len()
                invariant
                    0 <= k <= files.len(),
                    items_view(row@) =~= files.deep_view().take(k as int).map_values(|p: Seq<char>| cass_conf_item(p)),
                decreases files.len() - k,
            {
                let path = &files[k];
                let (name, dest): (&str, &str) = if str_contains(path.as_str(), "env.sh") {
                    ("cassandra-env", "apache-cassandra/conf/cassandra-env.sh")
                } else if str_contains(path.as_str(), "yaml") {
                    ("cassandra-config-options", "apache-cassandra/conf/cassandra.yaml")
                } else {
                    ("jvm11-server-options", "apache-cassandra/conf/jvm11-server.options")
                };
                let ghost before = row@;
                row.push((String::from_str(name), vec![str_pair(SOURCE_PATH, copy_string(path)), str_pair(DEST_PATH, String::from_str(dest))]));
                proof {
                    assert(item_view(row@.last()) == cass_conf_item(path@)) by {
                        assert(item_view(row@.last()).1 =~= cass_conf_item(path@).1);
                    }
                    assert(files.deep_view().take(k + 1) =~= files.deep_view().take(k as int).push(path@));
                    assert(items_view(row@) =~= items_view(before).push(item_view(row@.last())));
                }
                k = k + 1;
            }
            assert(files.deep_view().take(files.len() as int) =~= files.deep_view());
            hosts.push(copy_string(&cass_config[g].0));
            items.push(row);
            g = g + 1;
        }
        assert(cass_config@.map_values(|e: (String, Vec<String>)| e.0@).take(g as int) =~= cass_config@.map_values(|e: (String, Vec<String>)| e.0@));
        assert(cass_conf_items(cass_config@).take(g as int) =~= cass_conf_items(cass_config@));
        uploads_for_hosts(config, "install", &hosts, &items)
    }

    /// The uploads of the install's data directory to `dest_hosts`, one per
    /// host under the `install` command, the directory copied whole.
    pub fn build_upload_data_dir_tasks(config: &DeploymentConfig, dest_hosts: &Vec<String>) -> (tasks: Vec<TaskExecutionContext<UploadTask>>)
        ensures
            tasks@.len() == dest_hosts@.len(),
            forall|i: int| 0 <= i < tasks@.len() ==> upload_is(#[trigger] tasks@[i], *config, "install"@, data_dir_item(*config), dest_hosts@[i]@),
    {
        proof {
            reveal_strlit("install");
            reveal_strlit("upload_datafarm");
            reveal_strlit("/datafarm");
            reveal_strlit("-r");
            reveal_strlit("source_file");
            reveal_strlit("copy_dir");
        }
        let mut datafarm = config.install_dir();
        datafarm.append("/datafarm");
        let item = (String::from_str("upload_datafarm"), vec![str_pair(SOURCE_PATH, datafarm), str_pair(COPY_DIR, String::from_str("-r"))]);
        assert(item_view(item) == data_dir_item(*config)) by {
            assert(item_view(item).1 =~= data_dir_item(*config).1);
        }
        let mut tasks: Vec<TaskExecutionContext<UploadTask>> = Vec::new();
        let mut i: usize = 0;
        while i < dest_hosts.len()
            invariant
                0 <= i <= dest_hosts.len(),
                item_view(item) == data_dir_item(*config),
                tasks@.len() == i,
                forall|k: int| 0 <= k < i ==> upload_is(#[trigger] tasks@[k], *config, "install"@, data_dir_item(*config), dest_hosts@[k]@),
            decreases dest_hosts.len() - i,
        {
            tasks.push(upload_ctx(config, "install", &item, &dest_hosts[i]));
            i = i + 1;
        }
        tasks
    }

    /// The uploads under the `deploy` command to the hosts of `service`, host
    /// after host: for storage the Cassandra packages (where the store is
    /// Cassandra); for MonographDB the host's configuration, the install
    /// script, the package, the local configuration and the exporters; for
    /// Prometheus and Grafana their packages. A package that was not
    /// downloaded is not uploaded, but MonographDB's must have been.
    pub fn task_instance_from_hosts(service: DeploymentService, host_vec: &Vec<String>, config: &DeploymentConfig,
        install_image_files: &Vec<(ImageFile, String)>, download_dir: &str, install_db_script: &str)
        -> (tasks: Vec<TaskExecutionContext<UploadTask>>)
        requires
            service is Monograph && host_vec@.len() > 0 ==> image_lookup(install_image_files@, ImageFile::Monograph) is Some,
        ensures
            tasks@.len() == hosts_plan(host_vec.deep_view(), host_vec.deep_view().map_values(|h: Seq<char>|
                service_items(service, *config, h, install_image_files@, download_dir@, install_db_script@))).len(),
            forall|i: int| 0 <= i < tasks@.len() ==> {
                let p = hosts_plan(host_vec.deep_view(), host_vec.deep_view().map_values(|h: Seq<char>|
                    service_items(service, *config, h, install_image_files@, download_dir@, install_db_script@)))[i];
                upload_is(#[trigger] tasks@[i], *config, "deploy"@, p.1, p.0)
            },
    {
        proof {
            reveal_strlit("deploy");
        }
        let ghost spec_items = host_vec.deep_view().map_values(|h: Seq<char>|
            service_items(service, *config, h, install_image_files@, download_dir@, install_db_script@));
        let mut items: Vec<Vec<(String, Vec<(String, String)>)>> = Vec::new();
        let mut g: usize = 0;
        while g < host_vec.len()
            invariant
                0 <= g <= host_vec.len(),
                service is Monograph && host_vec@.len() > 0 ==> image_lookup(install_image_files@, ImageFile::Monograph) is Some,
                spec_items == host_vec.deep_view().map_values(|h: Seq<char>|
                    service_items(service, *config, h, install_image_files@, download_dir@, install_db_script@)),
                items@.len() == g,
                items@.map_values(|v: Vec<(String, Vec<(String, String)>)>| items_view(v@)) =~= spec_items.take(g as int),
            decreases host_vec.len() - g,
        {
            let row = service_host_items(service, config, &host_vec[g], install_image_files, download_dir, install_db_script);
            items.push(row);
            g = g + 1;
        }
        assert(spec_items.take(host_vec.len() as int) =~= spec_items);
        uploads_for_hosts(config, "deploy", host_vec, &items)
    }
}

/// The package found for a key is that of its first entry.
pub(crate) proof fn lemma_image_lookup_first(files: Seq<(ImageFile, String)>, key: ImageFile, i: int)
    requires
        0 <= i < files.len(),
        files[i].0 == key,
        forall|j: int| 0 <= j < i ==> (#[trigger] files[j]).0 != key,
    ensures
        image_lookup(files, key) == Some(files[i].1@),
    decreases i,
{
    if i > 0 {
        assert(files[0].0 != key);
        assert forall|j: int| 0 <= j < i - 1 implies (#[trigger] files.drop_first()[j]).0 != key by {
            assert(files.drop_first()[j] == files[j + 1]);
        }
        lemma_image_lookup_first(files.drop_first(), key, i - 1);
    }
}

/// The exporter task an exporter package is uploaded under.
pub open spec fn exporter_task(key: ImageFile) -> Seq<char> {
    if key == ImageFile::NodeExporter { "node_exporter_upload"@ } else { "mysql_exporter_upload"@ }
}

/// A MonographDB host gets every exporter package that was downloaded:
/// for the first entry of the node exporter or the MySQL exporter among the
/// downloaded files, the host's uploads hold the upload of that file from
/// the download directory under the exporter's task name.
pub proof fn lemma_tx_uploads_exporters(config: DeploymentConfig, host: Seq<char>, files: Seq<(ImageFile, String)>,
    download_dir: Seq<char>, install_db_script: Seq<char>, i: int)
    requires
        0 <= i < files.len(),
        files[i].0 == ImageFile::NodeExporter || files[i].0 == ImageFile::MysqlExporter,
        forall|j: int| 0 <= j < i ==> (#[trigger] files[j]).0 != files[i].0,
    ensures
        service_items(DeploymentService::Monograph, config, host, files, download_dir, install_db_script)
            .contains((exporter_task(files[i].0), seq![("source_file"@, path_join(download_dir, files[i].1@))])),
{
    reveal_strlit("source_file");
    let key = files[i].0;
    lemma_image_lookup_first(files, key, i);
    let items = service_items(DeploymentService::Monograph, config, host, files, download_dir, install_db_script);
    let wanted = (exporter_task(key), seq![("source_file"@, path_join(download_dir, files[i].1@))]);
    let node = image_item(files, ImageFile::NodeExporter, "node_exporter_upload"@, download_dir);
    if key == ImageFile::NodeExporter {
        assert(node[0].1 =~= wanted.1);
        assert(items[4] == node[0]);
    } else {
        let mysql = image_item(files, ImageFile::MysqlExporter, "mysql_exporter_upload"@, download_dir);
        assert(mysql[0].1 =~= wanted.1);
        assert(items[4 + node.len() as int] == mysql[0]);
    }
}

/// The task a downloaded package is uploaded under, for the service whose
/// hosts get it: the Cassandra packages on storage hosts, Prometheus and
/// Grafana on theirs, and the exporters on MonographDB hosts.
pub open spec fn package_task(service: DeploymentService, key: ImageFile) -> Option<Seq<char>> {
    match (service, key) {
        (DeploymentService::Storage, ImageFile::Cassandra) => Some("cassandra_upload"@),
        (DeploymentService::Storage, ImageFile::CassandraCollectorAgent) => Some("cassandra_collector_agent_upload"@),
        (DeploymentService::Monograph, ImageFile::NodeExporter) => Some("node_exporter_upload"@),
        (DeploymentService::Monograph, ImageFile::MysqlExporter) => Some("mysql_exporter_upload"@),
        (DeploymentService::Prometheus, ImageFile::Prometheus) => Some("prometheus_upload"@),
        (DeploymentService::Grafana, ImageFile::Grafana) => Some("grafana_upload"@),
        _ => None,
    }
}

/// Every host of a service gets each package of that service that was
/// downloaded (the Cassandra packages only where the store is Cassandra):
/// for the first entry of such a package among the downloaded files, the
/// host's uploads hold the upload of that file from the download directory
/// under the package's task name. A MonographDB host also gets the
/// MonographDB package, from its first entry.
pub proof fn lemma_service_uploads_packages(service: DeploymentService, config: DeploymentConfig, host: Seq<char>,
    files: Seq<(ImageFile, String)>, download_dir: Seq<char>, install_db_script: Seq<char>, i: int)
    requires
        0 <= i < files.len(),
        forall|j: int| 0 <= j < i ==> (#[trigger] files[j]).0 != files[i].0,
        service is Storage ==> config.deployment.storage_service.cassandra is Some,
    ensures
        package_task(service, files[i].0) is Some ==> service_items(service, config, host, files, download_dir, install_db_script)
            .contains((package_task(service, files[i].0)->0, seq![("source_file"@, path_join(download_dir, files[i].1@))])),
        service is Monograph && files[i].0 == ImageFile::Monograph ==> service_items(service, config, host, files, download_dir, install_db_script)
            .contains(("monograph_config_upload"@, seq![("source_file"@, path_join(download_dir, files[i].1@))])),
{
    reveal_strlit("source_file");
    reveal_strlit("monograph_config_upload");
    let key = files[i].0;
    lemma_image_lookup_first(files, key, i);
    let items = service_items(service, config, host, files, download_dir, install_db_script);
    let src = seq![("source_file"@, path_join(download_dir, files[i].1@))];
    match service {
        DeploymentService::Storage => {
            let a = image_item(files, ImageFile::Cassandra, "cassandra_upload"@, download_dir);
            if key == ImageFile::Cassandra {
                assert(a[0].1 =~= src);
                assert(items[0] == a[0]);
            } else if key == ImageFile::CassandraCollectorAgent {
                let b = image_item(files, ImageFile::CassandraCollectorAgent, "cassandra_collector_agent_upload"@, download_dir);
                assert(b[0].1 =~= src);
                assert(items[a.len() as int] == b[0]);
            }
        },
        DeploymentService::Monograph => {
            let node = image_item(files, ImageFile::NodeExporter, "node_exporter_upload"@, download_dir);
            if key == ImageFile::NodeExporter {
                assert(node[0].1 =~= src);
                assert(items[4] == node[0]);
            } else if key == ImageFile::MysqlExporter {
                let mysql = image_item(files, ImageFile::MysqlExporter, "mysql_exporter_upload"@, download_dir);
                assert(mysql[0].1 =~= src);
                assert(items[4 + node.len() as int] == mysql[0]);
            } else if key == ImageFile::Monograph {
                assert(items[2].1 =~= src);
                assert(items[2].0 == MONOGRAPH_CONFIG_UPLOAD_TASK@);
            }
        },
        DeploymentService::Prometheus => {
            if key == ImageFile::Prometheus {
                let a = image_item(files, ImageFile::Prometheus, "prometheus_upload"@, download_dir);
                assert(a[0].1 =~= src);
                assert(items[0] == a[0]);
            }
        },
        DeploymentService::Grafana => {
            if key == ImageFile::Grafana {
                let a = image_item(files, ImageFile::Grafana, "grafana_upload"@, download_dir);
                assert(a[0].1 =~= src);
                assert(items[0] == a[0]);
            }
        },
    }
}

} // verus!
