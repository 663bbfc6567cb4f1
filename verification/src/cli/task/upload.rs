//! What gets uploaded where: a file (or several, separated by spaces) and
//! the directory and host it goes to.
use crate::cli::config::DeploymentConfig;
use crate::cli::path_join;
use crate::cli::task::task_base::TaskExecutionContext;
use crate::cli::task::upload_task::{
    cass_conf_items, hosts_plan, image_item, image_lookup, item_view, items_view, push_image_item, host_config_path,
    storage_host_items, str_pair, tx_host_items, tx_items, storage_items, upload_is, uploads_for_hosts, ImageFile,
    UploadItem, UploadTask, DEST_PATH, LOG_INSTALL_UPLOAD_TASK, LOG_START_CMD_UPLOAD_TASK, SOURCE_PATH,
    exporter_task, lemma_image_lookup_first,
};
use crate::cli::join_path;
use crate::config::deployment::config_file_name;
use crate::text::{contains_seq, copy_string, join_strings, lemma_split_char_nonempty, seq_join, split_by_char, split_char, str_contains};
use vstd::prelude::*;

verus! {

/// Files to upload to one host.
#[derive(Debug, Clone)]
pub struct UploadFile {
    pub source: String,
    pub dest: String,
    pub extension: String,
    pub host: String,
    pub copy_dir: bool,
}

/// Configuration files and the hosts they go to.
#[derive(Debug, Clone)]
pub struct ConfigAndHostPair {
    pub path: Vec<String>,
    pub hosts: Vec<String>,
}

/// The contents of an upload: source, destination, extension, host and
/// whether a directory is copied.
pub open spec fn upload_view(u: UploadFile) -> (Seq<char>, Seq<char>, Seq<char>, Seq<char>, bool) {
    (u.source@, u.dest@, u.extension@, u.host@, u.copy_dir)
}

/// The uploads of the monitoring configuration: for each destination
/// directory, one upload per host of all its files joined by spaces, with no
/// extension and no directory copy.
pub open spec fn monitor_uploads_spec(config: Seq<(String, ConfigAndHostPair)>) -> Seq<(Seq<char>, Seq<char>, Seq<char>, Seq<char>, bool)> {
    config.map_values(|e: (String, ConfigAndHostPair)|
        e.1.hosts.deep_view().map_values(|h: Seq<char>| (seq_join(e.1.path.deep_view(), " "@), e.0@, ""@, h, false))
    ).flatten()
}

/// Builds the uploads of the monitoring infrastructure's configuration.
pub struct MonitorInfraConfUploadBuilder;

impl MonitorInfraConfUploadBuilder {
    /// One upload per destination directory and host of `all_monitor_config`.
    pub fn monitor_upload_files(&self, all_monitor_config: &Vec<(String, ConfigAndHostPair)>) -> (files: Vec<UploadFile>)
        ensures
            files@.map_values(|u: UploadFile| upload_view(u)) == monitor_uploads_spec(all_monitor_config@),
    {
        proof {
            reveal_strlit(" ");
            reveal_strlit("");
        }
        let ghost gv = all_monitor_config@.map_values(|e: (String, ConfigAndHostPair)|
            e.1.hosts.deep_view().map_values(|h: Seq<char>| (seq_join(e.1.path.deep_view(), " "@), e.0@, ""@, h, false)));
        let mut files: Vec<UploadFile> = Vec::new();
        let mut g: usize = 0;
        while g < all_monitor_config.len()
            invariant
                0 <= g <= all_monitor_config.len(),
                gv == all_monitor_config@.map_values(|e: (String, ConfigAndHostPair)|
                    e.1.hosts.deep_view().map_values(|h: Seq<char>| (seq_join(e.1.path.deep_view(), " "@), e.0@, ""@, h, false))),
                files@.map_values(|u: UploadFile| upload_view(u)) =~= gv.take(g as int).flatten(),
            decreases all_monitor_config.len() - g,
        {
            let dest_dir = &all_monitor_config[g].0;
            let pair = &all_monitor_config[g].1;
            let path_files = join_strings(&pair.path, " ");
            let hosts = &pair.hosts;
            let ghost row = hosts.deep_view().map_values(|h: Seq<char>| (seq_join(pair.path.deep_view(), " "@), dest_dir@, ""@, h, false));
            assert(gv[g as int] == row);
            let ghost base = files@.map_values(|u: UploadFile| upload_view(u));
            let mut k: usize = 0;
            while k < hosts.len()
                invariant
                    0 <= k <= hosts.len(),
                    path_files@ == seq_join(pair.path.deep_view(), " "@),
                    row == hosts.deep_view().map_values(|h: Seq<char>| (seq_join(pair.path.deep_view(), " "@), dest_dir@, ""@, h, false)),
                    files@.map_values(|u: UploadFile| upload_view(u)) =~= base + row.take(k as int),
                decreases hosts.len() - k,
            {
                proof {
                    reveal_strlit("");
                }
                let ghost before = files@;
                files.push(UploadFile {
                    source: copy_string(&path_files),
                    dest: copy_string(dest_dir),
                    extension: String::from_str(""),
                    host: copy_string(&hosts[k]),
                    copy_dir: false,
                });
                assert(files@.map_values(|u: UploadFile| upload_view(u)) =~= before.map_values(|u: UploadFile| upload_view(u)).push(row[k as int]));
                k = k + 1;
            }
            proof {
                assert(row.take(hosts.len() as int) =~= row);
                assert(gv.take(g + 1) =~= gv.take(g as int).push(gv[g as int]));
                gv.take(g as int).lemma_flatten_push(gv[g as int]);
            }
            g = g + 1;
        }
        assert(gv.take(all_monitor_config.len() as int) =~= gv);
        files
    }
}


/// The packages a deployment uploads, each to the hosts of its part.
#[derive(Clone, Copy, Debug, PartialEq, Eq, Structural)]
pub enum DeploymentPackage {
    Storage,
    MonographLog,
    MonographTx,
    Prometheus,
    Grafana,
}

/// The last component of a path: what follows its last `/`.
pub open spec fn base_name(p: Seq<char>) -> Seq<char> {
    split_char(p, '/').last()
}

/// The uploads of the log start scripts meant for `host`: those whose file
/// name holds the host, in order, each to the log service's home.
pub open spec fn log_script_items(host: Seq<char>, scripts: Seq<Seq<char>>, log_home: Seq<char>) -> Seq<UploadItem>
    decreases scripts.len(),
{
    if scripts.len() == 0 {
        Seq::empty()
    } else {
        let prev = log_script_items(host, scripts.drop_last(), log_home);
        if contains_seq(base_name(scripts.last()), host) {
            prev.push((LOG_START_CMD_UPLOAD_TASK@, seq![(SOURCE_PATH@, scripts.last()), (DEST_PATH@, log_home)]))
        } else {
            prev
        }
    }
}

/// The uploads of `host` for `package`: for the log service its start
/// scripts and then its package, both to `log_home`; for a transaction host
/// its own configuration (twice: once as the install's), the bootstrap
/// script, the package and the exporters.
pub open spec fn package_items(package: DeploymentPackage, config: DeploymentConfig, host: Seq<char>, files: Seq<(ImageFile, String)>,
    download_dir: Seq<char>, bootstrap_script: Seq<char>, log_scripts: Seq<Seq<char>>, log_home: Seq<char>) -> Seq<UploadItem> {
    match package {
        DeploymentPackage::Storage => storage_items(config, files, download_dir),
        DeploymentPackage::MonographLog => log_script_items(host, log_scripts, log_home).push((LOG_INSTALL_UPLOAD_TASK@,
            seq![(SOURCE_PATH@, path_join(download_dir, image_lookup(files, ImageFile::MonographLog)->0)), (DEST_PATH@, log_home)])),
        DeploymentPackage::MonographTx => tx_items(path_join(download_dir, config_file_name(host)), bootstrap_script,
            path_join(download_dir, config_file_name(host)), files, download_dir),
        DeploymentPackage::Prometheus => image_item(files, ImageFile::Prometheus, "prometheus_upload"@, download_dir),
        DeploymentPackage::Grafana => image_item(files, ImageFile::Grafana, "grafana_upload"@, download_dir),
    }
}

fn log_host_items(host: &String, scripts: &Vec<String>, files: &Vec<(ImageFile, String)>, download_dir: &str, log_home: &str)
    -> (items: Vec<(String, Vec<(String, String)>)>)
    requires
        image_lookup(files@, ImageFile::MonographLog) is Some,
    ensures
        items_view(items@) == log_script_items(host@, scripts.deep_view(), log_home@).push((LOG_INSTALL_UPLOAD_TASK@,
            seq![(SOURCE_PATH@, path_join(download_dir@, image_lookup(files@, ImageFile::MonographLog)->0)), (DEST_PATH@, log_home@)])),
{
    let mut items: Vec<(String, Vec<(String, String)>)> = Vec::new();
    let mut k: usize = 0;
    while k < scripts.len()
        invariant
            0 <= k <= scripts.len(),
            items_view(items@) == log_script_items(host@, scripts.deep_view().take(k as int), log_home@),
        decreases scripts.len() - k,
    {
        let script = &scripts[k];
        let parts = split_by_char(script.as_str(), '/');
        proof {
            lemma_split_char_nonempty(script@, '/');
            assert(scripts.deep_view().take(k + 1).drop_last() =~= scripts.deep_view().take(k as int));
            assert(scripts.deep_view().take(k + 1).last() == script@);
        }
        let name = &parts[parts.len() - 1];
        assert(name@ == base_name(script@));
        let ghost before = items@;
        if str_contains(name.as_str(), host.as_str()) {
            items.push((String::from_str(LOG_START_CMD_UPLOAD_TASK), vec![str_pair(SOURCE_PATH, copy_string(script)), str_pair(DEST_PATH, String::from_str(log_home))]));
            assert(items_view(items@) =~= items_view(before).push(item_view(items@.last())));
            assert(item_view(items@.last()).1 =~= seq![(SOURCE_PATH@, script@), (DEST_PATH@, log_home@)]);
        }
        k = k + 1;
    }
    assert(scripts.deep_view().take(scripts.len() as int) =~= scripts.deep_view());
    let tar = match crate::cli::task::upload_task::lookup_image(files, ImageFile::MonographLog) {
        Some(f) => f,
        None => {
            proof {
                assert(false);
            }
            String::new()
        },
    };
    let ghost before = items@;
    items.push((String::from_str(LOG_INSTALL_UPLOAD_TASK), vec![str_pair(SOURCE_PATH, join_path(download_dir, &tar)), str_pair(DEST_PATH, String::from_str(log_home))]));
    assert(items_view(items@) =~= items_view(before).push(item_view(items@.last())));
    assert(item_view(items@.last()).1 =~= seq![(SOURCE_PATH@, path_join(download_dir@, tar@)), (DEST_PATH@, log_home@)]);
    items
}

fn package_host_items(package: DeploymentPackage, config: &DeploymentConfig, host: &String, files: &Vec<(ImageFile, String)>,
    download_dir: &str, bootstrap_script: &str, log_scripts: &Vec<String>, log_home: &str) -> (items: Vec<(String, Vec<(String, String)>)>)
    requires
        package is MonographTx ==> image_lookup(files@, ImageFile::Monograph) is Some,
        package is MonographLog ==> image_lookup(files@, ImageFile::MonographLog) is Some,
    ensures
        items_view(items@) == package_items(package, *config, host@, files@, download_dir@, bootstrap_script@, log_scripts.deep_view(), log_home@),
{
    match package {
        DeploymentPackage::Storage => storage_host_items(config, files, download_dir),
        DeploymentPackage::MonographLog => log_host_items(host, log_scripts, files, download_dir, log_home),
        DeploymentPackage::MonographTx => {
            let db_config = host_config_path(download_dir, host.as_str());
            let install_config = host_config_path(download_dir, host.as_str());
            tx_host_items(db_config, bootstrap_script, install_config, files, download_dir)
        },
        DeploymentPackage::Prometheus => {
            proof {
                reveal_strlit("prometheus_upload");
            }
            let mut items: Vec<(String, Vec<(String, String)>)> = Vec::new();
            push_image_item(&mut items, files, ImageFile::Prometheus, "prometheus_upload", download_dir);
            assert(items_view(items@) =~= image_item(files@, ImageFile::Prometheus, "prometheus_upload"@, download_dir@));
            items
        },
        DeploymentPackage::Grafana => {
            proof {
                reveal_strlit("grafana_upload");
            }
            let mut items: Vec<(String, Vec<(String, String)>)> = Vec::new();
            push_image_item(&mut items, files, ImageFile::Grafana, "grafana_upload", download_dir);
            assert(items_view(items@) =~= image_item(files@, ImageFile::Grafana, "grafana_upload"@, download_dir@));
            items
        },
    }
}

/// Builds the uploads of the deployment's packages.
pub struct MonographUploadBuilder;

impl MonographUploadBuilder {
    /// The uploads under the `deploy` command of `package` to `service_hosts`,
    /// host after host, from the downloaded packages in `download_dir`, the
    /// generated bootstrap script and log start scripts, and the log
    /// service's home on the hosts. A package that was not downloaded is not
    /// uploaded, but those of the log service and of MonographDB must have
    /// been where their hosts get them.
    pub fn build_task_from_args(&self, package: DeploymentPackage, service_hosts: &Vec<String>, config: &DeploymentConfig,
        install_image_files: &Vec<(ImageFile, String)>, download_dir: &str, bootstrap_script: &str, log_scripts: &Vec<String>, log_home: &str)
        -> (tasks: Vec<TaskExecutionContext<UploadTask>>)
        requires
            service_hosts@.len() > 0 && package is MonographTx ==> image_lookup(install_image_files@, ImageFile::Monograph) is Some,
            service_hosts@.len() > 0 && package is MonographLog ==> image_lookup(install_image_files@, ImageFile::MonographLog) is Some,
        ensures
            tasks@.len() == hosts_plan(service_hosts.deep_view(), service_hosts.deep_view().map_values(|h: Seq<char>|
                package_items(package, *config, h, install_image_files@, download_dir@, bootstrap_script@, log_scripts.deep_view(), log_home@))).len(),
            forall|i: int| 0 <= i < tasks@.len() ==> {
                let p = hosts_plan(service_hosts.deep_view(), service_hosts.deep_view().map_values(|h: Seq<char>|
                    package_items(package, *config, h, install_image_files@, download_dir@, bootstrap_script@, log_scripts.deep_view(), log_home@)))[i];
                upload_is(#[trigger] tasks@[i], *config, "deploy"@, p.1, p.0)
            },
    {
        proof {
            reveal_strlit("deploy");
        }
        let ghost spec_items = service_hosts.deep_view().map_values(|h: Seq<char>|
            package_items(package, *config, h, install_image_files@, download_dir@, bootstrap_script@, log_scripts.deep_view(), log_home@));
        let mut items: Vec<Vec<(String, Vec<(String, String)>)>> = Vec::new();
        let mut g: usize = 0;
        while g < service_hosts.len()
            invariant
                0 <= g <= service_hosts.len(),
                service_hosts@.len() > 0 && package is MonographTx ==> image_lookup(install_image_files@, ImageFile::Monograph) is Some,
                service_hosts@.len() > 0 && package is MonographLog ==> image_lookup(install_image_files@, ImageFile::MonographLog) is Some,
                spec_items == service_hosts.deep_view().map_values(|h: Seq<char>|
                    package_items(package, *config, h, install_image_files@, download_dir@, bootstrap_script@, log_scripts.deep_view(), log_home@)),
                items@.len() == g,
                items@.map_values(|v: Vec<(String, Vec<(String, String)>)>| items_view(v@)) =~= spec_items.take(g as int),
            decreases service_hosts.len() - g,
        {
            let row = package_host_items(package, config, &service_hosts[g], install_image_files, download_dir, bootstrap_script, log_scripts, log_home);
            items.push(row);
            g = g + 1;
        }
        assert(spec_items.take(service_hosts.len() as int) =~= spec_items);
        uploads_for_hosts(config, "deploy", service_hosts, &items)
    }
}

/// Builds the uploads of the Cassandra configuration.
pub struct CassConfUploadBuilder;

impl CassConfUploadBuilder {
    /// The uploads of the Cassandra configuration files generated per host,
    /// as `UploadTask::build_upload_cass_conf_task` plans them.
    pub fn build(&self, config: &DeploymentConfig, cass_config: &Vec<(String, Vec<String>)>) -> (tasks: Vec<TaskExecutionContext<UploadTask>>)
        ensures
            tasks@.len() == hosts_plan(cass_config@.map_values(|e: (String, Vec<String>)| e.0@), cass_conf_items(cass_config@)).len(),
            forall|i: int| 0 <= i < tasks@.len() ==> {
                let p = hosts_plan(cass_config@.map_values(|e: (String, Vec<String>)| e.0@), cass_conf_items(cass_config@))[i];
                upload_is(#[trigger] tasks@[i], *config, "install"@, p.1, p.0)
            },
    {
        UploadTask::build_upload_cass_conf_task(config, cass_config)
    }
}

/// A transaction host of a deployment gets every exporter package that was
/// downloaded: for the first entry of the node exporter or the MySQL
/// exporter among the downloaded files, the host's uploads hold the upload
/// of that file from the download directory under the exporter's task name.
pub proof fn lemma_tx_package_uploads_exporters(config: DeploymentConfig, host: Seq<char>, files: Seq<(ImageFile, String)>,
    download_dir: Seq<char>, bootstrap_script: Seq<char>, log_scripts: Seq<Seq<char>>, log_home: Seq<char>, i: int)
    requires
        0 <= i < files.len(),
        files[i].0 == ImageFile::NodeExporter || files[i].0 == ImageFile::MysqlExporter,
        forall|j: int| 0 <= j < i ==> (#[trigger] files[j]).0 != files[i].0,
    ensures
        package_items(DeploymentPackage::MonographTx, config, host, files, download_dir, bootstrap_script, log_scripts, log_home)
            .contains((exporter_task(files[i].0), seq![("source_file"@, path_join(download_dir, files[i].1@))])),
{
    reveal_strlit("source_file");
    let key = files[i].0;
    lemma_image_lookup_first(files, key, i);
    let items = package_items(DeploymentPackage::MonographTx, config, host, files, download_dir, bootstrap_script, log_scripts, log_home);
    let wanted = (exporter_task(key), seq![("source_file"@, path_join(download_dir, files[i].1@))]);
    let node = image_item(files, ImageFile::NodeExporter, "node_exporter_upload"@, download_dir);
    if key == ImageFile::NodeExporter {
        assert(node[0].1 =~= wanted.1);
        assert(items[4] == node[0]);
    } else {
        let mysql = image_item(files, ImageFile::MysqlExporter, "mysql_exporter_upload"@, download_dir);
        assert(mysql[0].1 =~= wanted.1);
        assert(items[4 + node.len() as int] == mysql[0]);
    }
}

} // verus!
