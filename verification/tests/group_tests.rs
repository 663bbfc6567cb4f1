use cluster_mgr::cli::task::scale_log_cleanup_task::{cleanup_report, nodes_to_stop};
use cluster_mgr::cli::ssh::{no_attempt_error, pick_address, retry_step, AttemptOutcome, RetryAction};
use cluster_mgr::cli::task::ssh_check_task::SshCheckTask;
use cluster_mgr::cli::config::DeploymentConfig;
use cluster_mgr::cli::task::runtime_deps_install::RuntimeDepsInstallation;
use cluster_mgr::cli::task::task_base::{TaskHost, TaskId, TaskValue};
use cluster_mgr::cli::task::task_group::{CtrlDBTaskGroup, DeploymentTaskGroup, InstallDBTaskGroup, PlannedTask};
use cluster_mgr::cli::CommandArgs;
use cluster_mgr::cli::task::topology_display_task::{TopologyDisplayTask, TopologyNode};
use cluster_mgr::cli::task::topology_update_task::{
    display_node, extract_log_topology, extract_tx_topology, replica_query, update_rows, tx_entities_from_groups, voter_entities, NodeConfig, NodeGroupConfig,
    TopologyTxEntity, UpdateAction, UpdateEvent, UpdateTally,
};
use cluster_mgr::cli::task::upload::{CassConfUploadBuilder, DeploymentPackage, MonographUploadBuilder};
use cluster_mgr::cli::task::upload_task::{DeploymentService, ImageFile, UploadTask};
use cluster_mgr::config::connection::{Auth, Connection};
use cluster_mgr::config::deployment::{
    CassandraStorage, Deployment, LogService, LogServiceNode, MonographPort, MonographService, Port, StorageService,
};

fn config(cassandra: bool) -> DeploymentConfig {
    DeploymentConfig {
        connection: Connection {
            username: "eloq".to_string(),
            auth_type: "keypair".to_string(),
            auth: Auth { password: None, keypair: Some("/home/eloq/.ssh/id_rsa".to_string()) },
            port: Some(2222),
            ssh_endpoints: None,
            service_endpoints: None,
        },
        deployment: Deployment {
            tx_image: "tx".to_string(),
            log_image: None,
            cluster_name: "c1".to_string(),
            install_dir: "/opt/mono".to_string(),
            port: Port { mysql_port: 3316, monograph_port: MonographPort { start: 8000, end: 8100 } },
            tx_service: MonographService { host: vec!["t1".to_string(), "t2".to_string()] },
            log_service: Some(LogService {
                nodes: vec![
                    LogServiceNode { host: "l1".to_string(), data_dir: vec!["/d1".to_string(), "/d2".to_string()], port: 9000 },
                    LogServiceNode { host: "l2".to_string(), data_dir: vec!["/d".to_string()], port: 9100 },
                ],
                replica: Some(1),
            }),
            storage_service: StorageService {
                cassandra: if cassandra { Some(CassandraStorage { host: vec!["s1".to_string()] }) } else { None },
                dynamodb: None,
            },
            monitor: None,
        },
    }
}

fn remote(h: &TaskHost) -> (String, usize, String) {
    h.ssh_conn_tuple()
}

fn input_str(input: &[(String, TaskValue)], key: &str) -> Option<String> {
    input.iter().find(|(k, _)| k == key).map(|(_, v)| match v {
        TaskValue::Str(s) => s.clone(),
        _ => panic!("not a string"),
    })
}

fn node(gid: i32, id: &str, master: bool) -> TopologyNode {
    TopologyNode { node_group_id: gid, node_id: id.to_string(), host: format!("h{id}"), port: 7000, is_master: master, is_candidate: true }
}

#[test]
fn topology_display_reports_each_outcome() {
    let task = TopologyDisplayTask::new(TaskId { cmd: "topology-display".into(), task: "status".into() }, "c1".into());
    assert_eq!(task.command_name(), "topology-display");
    assert_eq!(task.display_result(Err("no store".into())), (1, "Failed to load topology information: no store".to_string()));
    assert_eq!(task.display_result(Ok(vec![])), (0, "No topology information found for cluster c1".to_string()));
    let (status, out) = task.display_result(Ok(vec![node(2, "b", false), node(1, "a", true)]));
    assert_eq!(status, 0);
    assert!(out.starts_with("\nCluster Topology for c1:\n"));
    let table = &out["\nCluster Topology for c1:\n".len()..];
    assert!(table.contains("Node Group ID") && table.contains("Is Candidate"));
    let a = table.find("ha").unwrap();
    let b = table.find("hb").unwrap();
    assert!(a < b, "group 1 comes before group 2");
    assert!(table.contains("Master") && table.contains("Replica"));
}

#[test]
fn runtime_deps_use_one_command_for_all_hosts() {
    let hosts = vec!["a".to_string(), "b".to_string()];
    let tasks = RuntimeDepsInstallation::from_config(&config(true), "ubuntu", "22", &vec!["git".to_string()], &hosts).unwrap();
    assert_eq!(tasks.len(), 2);
    assert_eq!(tasks[0].task.install_dep_cmd, tasks[1].task.install_dep_cmd);
    assert!(tasks[0].task.install_dep_cmd.ends_with(" git"));
}

#[test]
fn cassandra_configuration_goes_to_its_place() {
    let cass = vec![
        ("s1".to_string(), vec!["/dl/s1/cassandra-env.sh".to_string(), "/dl/s1/cassandra.yaml".to_string(), "/dl/s1/jvm11-server.options".to_string()]),
        ("s2".to_string(), vec!["/dl/s2/cassandra.yaml".to_string()]),
    ];
    let tasks = UploadTask::build_upload_cass_conf_task(&config(true), &cass);
    assert_eq!(tasks.len(), 4);
    let names: Vec<&str> = tasks.iter().map(|t| t.task.task_id.task.as_str()).collect();
    assert_eq!(names, vec!["cassandra-env", "cassandra-config-options", "jvm11-server-options", "cassandra-config-options"]);
    assert_eq!(input_str(&tasks[0].task_input, "dest_file").unwrap(), "apache-cassandra/conf/cassandra-env.sh");
    assert_eq!(input_str(&tasks[1].task_input, "dest_file").unwrap(), "apache-cassandra/conf/cassandra.yaml");
    assert_eq!(input_str(&tasks[2].task_input, "dest_file").unwrap(), "apache-cassandra/conf/jvm11-server.options");
    assert_eq!(input_str(&tasks[3].task_input, "source_file").unwrap(), "/dl/s2/cassandra.yaml");
    assert_eq!(tasks[0].task.task_id.cmd, "install");
    assert_eq!(remote(&tasks[3].task_host), ("eloq".to_string(), 2222, "s2".to_string()));
    let built = CassConfUploadBuilder.build(&config(true), &cass);
    assert_eq!(built.len(), 4);
}

#[test]
fn data_directory_goes_to_the_other_hosts() {
    let tasks = UploadTask::build_upload_data_dir_tasks(&config(true), &vec!["t2".to_string(), "t3".to_string()]);
    assert_eq!(tasks.len(), 2);
    assert_eq!(tasks[1].task.task_id.task, "upload_datafarm");
    assert_eq!(input_str(&tasks[1].task_input, "source_file").unwrap(), "/opt/mono/datafarm");
    assert_eq!(input_str(&tasks[1].task_input, "copy_dir").unwrap(), "-r");
    assert_eq!(remote(&tasks[1].task_host).2, "t3");
}

#[test]
fn service_uploads_per_host() {
    let files = vec![
        (ImageFile::Monograph, "mono.tar.gz".to_string()),
        (ImageFile::NodeExporter, "node.tar.gz".to_string()),
        (ImageFile::Cassandra, "cass.tar.gz".to_string()),
    ];
    let hosts = vec!["t1".to_string(), "t2".to_string()];
    let tx = UploadTask::task_instance_from_hosts(DeploymentService::Monograph, &hosts, &config(true), &files, "/dl", "/dl/install.bash");
    assert_eq!(tx.len(), 10);
    let names: Vec<&str> = tx[..5].iter().map(|t| t.task.task_id.task.as_str()).collect();
    assert_eq!(
        names,
        vec!["db_config_upload", "install_monograph_script_upload", "monograph_config_upload", "monograph_install_db_conf_upload", "node_exporter_upload"]
    );
    assert_eq!(input_str(&tx[0].task_input, "source_file").unwrap(), "/dl/my_t1.cnf");
    assert_eq!(input_str(&tx[2].task_input, "source_file").unwrap(), "/dl/mono.tar.gz");
    assert_eq!(input_str(&tx[3].task_input, "source_file").unwrap(), "/dl/my_local.cnf");
    assert_eq!(input_str(&tx[5].task_input, "source_file").unwrap(), "/dl/my_t2.cnf");
    assert_eq!(tx[5].task.task_id.cmd, "deploy");
    assert_eq!(remote(&tx[5].task_host).2, "t2");
    let storage = UploadTask::task_instance_from_hosts(DeploymentService::Storage, &vec!["s1".to_string()], &config(true), &files, "/dl", "x");
    assert_eq!(storage.len(), 1);
    assert_eq!(storage[0].task.task_id.task, "cassandra_upload");
    let none = UploadTask::task_instance_from_hosts(DeploymentService::Storage, &vec!["s1".to_string()], &config(false), &files, "/dl", "x");
    assert!(none.is_empty());
    let grafana = UploadTask::task_instance_from_hosts(DeploymentService::Grafana, &vec!["g".to_string()], &config(true), &files, "/dl", "x");
    assert!(grafana.is_empty());
}

#[test]
fn package_uploads_per_host() {
    let files = vec![(ImageFile::MonographLog, "log.tar.gz".to_string()), (ImageFile::Monograph, "mono.tar.gz".to_string())];
    let scripts = vec!["/dl/start_log_l1_9000.bash".to_string(), "/dl/start_log_l2_9100.bash".to_string(), "/l1/start_log_l2_9101.bash".to_string()];
    let log = MonographUploadBuilder.build_task_from_args(
        DeploymentPackage::MonographLog, &vec!["l2".to_string()], &config(true), &files, "/dl", "/dl/boot.bash", &scripts, "/opt/mono/log_service");
    assert_eq!(log.len(), 3);
    assert_eq!(log[0].task.task_id.task, "monograph_start_cmd_upload");
    assert_eq!(input_str(&log[0].task_input, "source_file").unwrap(), "/dl/start_log_l2_9100.bash");
    assert_eq!(input_str(&log[1].task_input, "source_file").unwrap(), "/l1/start_log_l2_9101.bash");
    assert_eq!(input_str(&log[1].task_input, "dest_file").unwrap(), "/opt/mono/log_service");
    assert_eq!(log[2].task.task_id.task, "monograph_log_upload");
    assert_eq!(input_str(&log[2].task_input, "source_file").unwrap(), "/dl/log.tar.gz");
    let tx = MonographUploadBuilder.build_task_from_args(
        DeploymentPackage::MonographTx, &vec!["t1".to_string()], &config(true), &files, "/dl", "/dl/boot.bash", &scripts, "/opt/mono/log_service");
    assert_eq!(tx.len(), 4);
    assert_eq!(input_str(&tx[1].task_input, "source_file").unwrap(), "/dl/boot.bash");
    assert_eq!(input_str(&tx[3].task_input, "source_file").unwrap(), "/dl/my_t1.cnf");
}

#[test]
fn install_stages_with_cassandra() {
    let cfg = config(true);
    let cass = vec![("s1".to_string(), vec!["/dl/s1/cassandra.yaml".to_string()])];
    let all_hosts = vec![vec!["t1".to_string(), "t2".to_string()], vec!["s1".to_string()]];
    let (barrier, tasks) = InstallDBTaskGroup.tasks(&cfg, &vec!["t1".to_string(), "t2".to_string()], &cass, &all_hosts);
    assert_eq!(barrier, vec![1, 1, 1, 1, 3]);
    assert_eq!(tasks.len(), barrier.iter().sum::<usize>());
    assert!(matches!(&tasks[0], PlannedTask::Upload(t) if t.task.task_id.task == "cassandra-config-options"));
    assert!(matches!(&tasks[1], PlannedTask::CassandraCtl(t) if t.task.task_id.task == "cassandra-start"));
    assert!(matches!(&tasks[2], PlannedTask::Install(t) if remote(&t.task_host).2 == "t1"));
    assert!(matches!(&tasks[3], PlannedTask::Upload(t) if remote(&t.task_host).2 == "t2" && t.task.task_id.task == "upload_datafarm"));
    for t in &tasks[4..] {
        match t {
            PlannedTask::Exec(e) => assert_eq!(e.task.cmd, "rm -rf /opt/mono/datafarm/cc_ng /opt/mono/datafarm/tx_log"),
            _ => panic!("a clean-up task was expected"),
        }
    }
}

#[test]
fn install_stages_without_cassandra() {
    let cfg = config(false);
    let all_hosts = vec![vec!["t1".to_string(), "t2".to_string(), "t3".to_string()]];
    let (barrier, tasks) = InstallDBTaskGroup.tasks(&cfg, &vec!["t1".to_string(), "t2".to_string(), "t3".to_string()], &vec![], &all_hosts);
    assert_eq!(barrier, vec![1, 2, 3]);
    assert_eq!(tasks.len(), 6);
    assert!(matches!(&tasks[0], PlannedTask::Install(_)));
}

fn group(id: u32, nodes: Vec<(u32, &str, u16, bool)>) -> NodeGroupConfig {
    NodeGroupConfig {
        ng_id: id,
        nodes: nodes.into_iter().map(|(n, ip, port, c)| NodeConfig { node_id: n, ip: ip.to_string(), port, is_candidate: c }).collect(),
    }
}

fn row(e: &TopologyTxEntity) -> (i32, i32, String, i32, String, i32, i64) {
    (e.node_group_count, e.node_group_id, e.node_id.clone(), e.role, e.host.clone(), e.port, e.update_timestamp)
}

#[test]
fn tx_rows_from_node_groups() {
    let groups = vec![group(0, vec![(0, "a", 18000, true), (1, "b", 18001, false)]), group(1, vec![(2, "c", 18002, true)])];
    let rows = tx_entities_from_groups("c1", &groups, 42);
    let got: Vec<_> = rows.iter().map(row).collect();
    assert_eq!(
        got,
        vec![
            (2, 0, "0".to_string(), 1, "a".to_string(), 8000, 42),
            (2, 0, "1".to_string(), 2, "b".to_string(), 8001, 42),
            (2, 1, "2".to_string(), 1, "c".to_string(), 8002, 42),
        ]
    );
    assert!(rows.iter().all(|e| e.cluster_name == "c1" && e.create_timestamp == 42));
}

#[test]
fn voter_rows_when_groups_cannot_be_read() {
    let voters = vec!["v1:100|v2:200,bad".to_string(), "v3:x,v4:-5".to_string()];
    let rows = voter_entities("c1", &voters, 7);
    let got: Vec<_> = rows.iter().map(row).collect();
    assert_eq!(
        got,
        vec![
            (0, 0, "voter-0".to_string(), 2, "v1".to_string(), 100, 7),
            (0, 0, "voter-0".to_string(), 2, "v2".to_string(), 200, 7),
            (0, 0, "voter-1".to_string(), 2, "v4".to_string(), -5, 7),
        ]
    );
    let fallback = extract_tx_topology("c1", Err("bad config".into()), &Some(voters), 7);
    assert_eq!(fallback.len(), 3);
    assert!(extract_tx_topology("c1", Err("bad config".into()), &None, 7).is_empty());
    let parsed = extract_tx_topology("c1", Ok(vec![group(3, vec![(9, "z", 10001, true)])]), &None, 7);
    assert_eq!(row(&parsed[0]), (1, 3, "9".to_string(), 1, "z".to_string(), 1, 7));
}

#[test]
fn log_rows_per_log_host() {
    let cfg = config(true);
    let rows = extract_log_topology("c1", &cfg.deployment.log_service, 5);
    assert_eq!(rows.len(), 2);
    assert_eq!(rows[0].node_id, "log-0");
    assert_eq!(rows[0].data_dirs.as_deref(), Some("/d1,/d2"));
    assert_eq!((rows[1].node_group_count, rows[1].node_group_id, rows[1].port), (2, 1, 9100));
    assert!(extract_log_topology("c1", &None, 5).is_empty());
}

#[test]
fn update_steps_tally_and_report() {
    let t = UpdateTally::new();
    let (t, a) = t.step("c1", 9, UpdateEvent::Written(true));
    assert!(matches!(a, UpdateAction::Wait));
    let (t, _) = t.step("c1", 9, UpdateEvent::Written(true));
    let (t, _) = t.step("c1", 9, UpdateEvent::Replicas(Err("down".into())));
    assert_eq!((t.success, t.failure), (2, 1));
    let replica = TopologyTxEntity {
        cluster_name: "c1".into(),
        node_group_count: 1,
        node_group_id: 0,
        node_id: "0".into(),
        role: 1,
        host: "a".into(),
        port: 8000,
        create_timestamp: 1,
        update_timestamp: 1,
    };
    let (t2, a) = t.step("c1", 9, UpdateEvent::Replicas(Ok(vec![replica])));
    assert_eq!(t2, t);
    match a {
        UpdateAction::Write(rows) => {
            assert_eq!(rows.len(), 1);
            assert_eq!((rows[0].role, rows[0].update_timestamp, rows[0].create_timestamp), (0, 9, 1));
        }
        _ => panic!("the replicas were expected to be written back"),
    }
    match t.step("c1", 9, UpdateEvent::Done).1 {
        UpdateAction::Report(s, out) => {
            assert_eq!(s, 1);
            assert_eq!(out, "Topology update from Redis completed for cluster c1. Updated 2 entries, 1 failures.");
        }
        _ => panic!("a report was expected"),
    }
    match UpdateTally::new().step("c1", 9, UpdateEvent::Done).1 {
        UpdateAction::Report(s, _) => assert_eq!(s, 0),
        _ => panic!("a report was expected"),
    }
    match UpdateTally::new().step("c1", 9, UpdateEvent::ChannelFailed("closed".into())).1 {
        UpdateAction::Report(s, out) => {
            assert_eq!(s, 1);
            assert_eq!(out, "Failed to receive cluster nodes from channel: closed");
        }
        _ => panic!("a report was expected"),
    }
}

#[test]
fn ssh_checks_per_host() {
    let tasks = SshCheckTask::from_hosts(&config(true), &vec!["a".to_string(), "b".to_string()], "pre-install");
    assert_eq!(tasks.len(), 2);
    assert_eq!(tasks[1].task.task_id.cmd, "ssh-check");
    assert_eq!(tasks[1].task.task_id.task, "pre-install");
    assert_eq!(remote(&tasks[1].task_host), ("eloq".to_string(), 2222, "b".to_string()));
    assert_eq!(SshCheckTask::failure_message("a", "denied"), "SSH check failed on a: denied");
}

#[test]
fn ssh_retries_until_the_last_attempt() {
    assert!(matches!(retry_step(1, 3, 2, AttemptOutcome::Connected), RetryAction::Done));
    assert!(matches!(retry_step(1, 3, 2, AttemptOutcome::ConnectFailed("refused".into())), RetryAction::WaitAndRetry(2)));
    match retry_step(3, 3, 2, AttemptOutcome::ConnectFailed("refused".into())) {
        RetryAction::GiveUp(e) => assert_eq!(e, "refused"),
        _ => panic!("the last attempt gives up"),
    }
    assert!(matches!(retry_step(1, 3, 2, AttemptOutcome::AuthFailed("SSH authentication failed for eloq".into())), RetryAction::GiveUp(_)));
    assert!(matches!(retry_step(1, 3, 2, AttemptOutcome::AuthFailed("timeout".into())), RetryAction::WaitAndRetry(2)));
    assert_eq!(no_attempt_error("eloq", "h", 22, 3), "Failed to connect to eloq@h:22 after 3 attempts");
    let addrs = vec![(false, "::1".to_string()), (true, "0.0.0.0:22".to_string()), (true, "10.0.0.2:22".to_string())];
    assert_eq!(pick_address(&addrs), Some("10.0.0.2:22".to_string()));
    assert_eq!(pick_address(&vec![(false, "::1".to_string())]), None);
}

#[test]
fn update_writes_tx_and_log_rows_first() {
    let cfg = config(true);
    let groups = vec![group(0, vec![(0, "a", 18000, true)])];
    let (tx, log) = update_rows("c1", Ok(groups), &None, &cfg.deployment.log_service, 3);
    assert_eq!(tx.len(), 1);
    assert_eq!(row(&tx[0]), (1, 0, "0".to_string(), 1, "a".to_string(), 8000, 3));
    assert_eq!(log.len(), 2);
    assert_eq!(log[1].host, "l2");
    let (tx, log) = update_rows("c1", Err("unreadable".into()), &None, &None, 3);
    assert!(tx.is_empty() && log.is_empty());
}

#[test]
fn leader_query_and_display_rows() {
    assert_eq!(replica_query("10.0.0.1", 8000), ("10.0.0.1".to_string(), 8000, 1));
    let e = TopologyTxEntity {
        cluster_name: "c1".into(),
        node_group_count: 1,
        node_group_id: 4,
        node_id: "7".into(),
        role: 0,
        host: "a".into(),
        port: 8000,
        create_timestamp: 1,
        update_timestamp: 1,
    };
    let n = display_node(&e);
    assert_eq!((n.node_group_id, n.node_id.as_str(), n.is_master, n.is_candidate), (4, "7", true, true));
    let voter = TopologyTxEntity { role: 2, ..e };
    let v = display_node(&voter);
    assert!(!v.is_master && !v.is_candidate);
}

#[test]
fn service_hosts_of_the_deployment() {
    let hosts = config(true).deployment.service_hosts();
    assert_eq!(
        hosts,
        vec![
            vec!["t1".to_string(), "t2".to_string()],
            vec!["l1".to_string(), "l2".to_string()],
            vec!["s1".to_string()],
        ]
    );
    assert_eq!(config(false).deployment.service_hosts().len(), 2);
}

#[test]
fn scale_cleanup_stops_only_added_nodes() {
    let nodes = vec![
        LogServiceNode { host: "l1".into(), data_dir: vec!["/d".into()], port: 9000 },
        LogServiceNode { host: "l2".into(), data_dir: vec!["/d".into()], port: 9100 },
        LogServiceNode { host: "l3".into(), data_dir: vec!["/d".into()], port: 9000 },
    ];
    let added = vec!["l2:9100".to_string(), "l3:9001".to_string()];
    let stop = nodes_to_stop(&nodes, &added);
    assert_eq!(stop.len(), 1);
    assert_eq!(stop[0].host, "l2");
    assert_eq!(cleanup_report(true, &added, None), (0, "Previous operation succeeded, no cleanup performed".to_string()));
    assert_eq!(
        cleanup_report(false, &added, Some(Ok(()))),
        (0, "Successfully cleaned up log services for nodes: l2:9100, l3:9001".to_string())
    );
    assert_eq!(cleanup_report(false, &added, Some(Err("ssh".into()))), (1, "Failed to cleanup log services: ssh".to_string()));
}

#[test]
fn start_commands_carry_their_group_lists() {
    let ls = cluster_mgr::config::log_service::LogService {
        nodes: vec![
            LogServiceNode { host: "a".into(), data_dir: vec!["/d0".into(), "/d1".into()], port: 9000 },
            LogServiceNode { host: "b".into(), data_dir: vec!["/d0".into()], port: 9000 },
            LogServiceNode { host: "c".into(), data_dir: vec!["/d0".into()], port: 9000 },
        ],
        replica: Some(3),
        readiness: None,
    };
    let members = ls.group_members();
    let flat = ls.group_member_as_vec();
    assert_eq!(flat.len(), ls.group() * 3);
    for (k, m) in flat.iter().enumerate() {
        assert_eq!(m.group_id, k / 3);
        assert_eq!(m, &members[&(k / 3)][k % 3]);
    }
    for (_host, items) in ls.log_start_cmd() {
        for it in items {
            let expected: Vec<String> =
                members[&it.log_member.group_id].iter().map(|m| format!("{}:{}", m.member_host, m.port)).collect();
            assert_eq!(it.group_members_config, expected.join(","));
        }
    }
}

#[test]
fn control_group_batches_and_barrier() {
    let restart = CommandArgs::Restart { cluster: "c1".into() };
    assert_eq!(
        CtrlDBTaskGroup::control_batches(&restart),
        vec![CommandArgs::Stop { cluster: "c1".into() }, CommandArgs::Start { cluster: "c1".into() }]
    );
    let stop = CommandArgs::Stop { cluster: "c1".into() };
    assert_eq!(CtrlDBTaskGroup::control_batches(&stop), vec![stop.clone()]);
    assert!(CtrlDBTaskGroup::starts_cassandra(&restart, &config(true)));
    assert!(!CtrlDBTaskGroup::starts_cassandra(&stop, &config(true)));
    assert!(!CtrlDBTaskGroup::starts_cassandra(&restart, &config(false)));
    assert_eq!(CtrlDBTaskGroup::control_barrier(true, 2, &vec![3, 3]), Some(vec![2, 3, 3]));
    assert_eq!(CtrlDBTaskGroup::control_barrier(true, 0, &vec![3]), Some(vec![3]));
    assert_eq!(CtrlDBTaskGroup::control_barrier(false, 2, &vec![3]), None);
}

#[test]
fn deploy_skips_all_after_a_recorded_success() {
    let tasks = UploadTask::build_upload_data_dir_tasks(&config(true), &vec!["t2".to_string(), "t3".to_string()]);
    let again = DeploymentTaskGroup::skip_success_task_execution(tasks.clone(), &vec![]);
    assert_eq!(again.len(), 2);
    let done = vec![("install".to_string(), "upload_datafarm".to_string(), "t2".to_string())];
    assert!(DeploymentTaskGroup::skip_success_task_execution(tasks, &done).is_empty());
}
