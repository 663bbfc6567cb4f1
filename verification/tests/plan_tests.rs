use cluster_mgr::cli::task::db_update_log_task::DbDeploymentUpdateLogTask;
use cluster_mgr::cli::task::monograph_install_task::MonographInstall;
use cluster_mgr::cli::task::upload_task::UploadTask;
use cluster_mgr::cli::config::DeploymentConfig;
use cluster_mgr::cli::task::cassandra_ctl_task::{pid_output_check, running_pid, status_ready, CassandraCmd, CassandraCtlTask, StartWaitAction};
use cluster_mgr::cli::task::config_fields::{get_field_metadata, FieldScope, FieldValueType};
use cluster_mgr::cli::task::copy_task::CopyTask;
use cluster_mgr::cli::task::exec_custom_cmd::ExecCustomCommand;
use cluster_mgr::cli::task::monograph_log_ctl_task::{LogCtlAction, LogCtlCmd, MonographLogCtlTask};
use cluster_mgr::cli::task::runtime_deps_install::RuntimeDepsInstallation;
use cluster_mgr::cli::task::task_base::{task_split, CmdErr, TaskHost, TaskId, TaskValue};
use cluster_mgr::cli::task::topology_display_task::{TopologyDisplayTask, TopologyNode};
use cluster_mgr::cli::task::unpack_file_task::UnpackFileTask;
use cluster_mgr::cli::task::upload::{ConfigAndHostPair, MonitorInfraConfUploadBuilder};
use cluster_mgr::cli::util::{cpu_arch_of, os_id_of, os_major_version_of};
use cluster_mgr::cli::{download_file_path, CommandArgs};
use cluster_mgr::config::connection::{Auth, Connection};
use cluster_mgr::config::deployment::{
    CassandraStorage, Deployment, LogService, LogServiceNode, MonographPort, MonographService, Port,
    StorageService,
};
use cluster_mgr::web::check_cmd_status;

fn config() -> DeploymentConfig {
    DeploymentConfig {
        connection: Connection {
            username: "eloq".to_string(),
            auth_type: "keypair".to_string(),
            auth: Auth { password: None, keypair: Some("/home/eloq/.ssh/id_rsa".to_string()) },
            port: Some(2222),
            ssh_endpoints: None,
            service_endpoints: None,
        },
        deployment: Deployment {
            tx_image: "tx".to_string(),
            log_image: None,
            cluster_name: "c1".to_string(),
            install_dir: "/opt/mono".to_string(),
            port: Port { mysql_port: 3316, monograph_port: MonographPort { start: 8000, end: 8100 } },
            tx_service: MonographService { host: vec!["t1".to_string()] },
            log_service: Some(LogService {
                nodes: vec![
                    LogServiceNode { host: "l1".to_string(), data_dir: vec!["/d".to_string()], port: 9000 },
                    LogServiceNode { host: "l2".to_string(), data_dir: vec!["/d".to_string()], port: 9000 },
                ],
                replica: Some(1),
            }),
            storage_service: StorageService {
                cassandra: Some(CassandraStorage { host: vec!["s1".to_string(), "s2".to_string()] }),
                dynamodb: None,
            },
            monitor: None,
        },
    }
}

fn task_id(cmd: &str, task: &str) -> TaskId {
    TaskId { cmd: cmd.to_string(), task: task.to_string() }
}

#[test]
fn error_messages_name_the_cause() {
    assert_eq!(CmdErr::TasksErr("x".into()).message(), "Found cli execution failed, error cause x");
    assert_eq!(CmdErr::RunErr("t".into(), "c".into()).message(), "Task [t] execution failed, error cause c");
    assert_eq!(CmdErr::DownloadErr("u".into(), "c".into()).message(), "Download file failed, download URL u , error causes c");
    assert_eq!(CmdErr::UploadErr("f".into(), "c".into()).message(), "Upload file failed, local file f, error causes c");
    assert_eq!(CmdErr::SSHConnErr("u@h".into(), "c".into()).message(), "Error establishing ssh connection, user@host=u@h, error causes c");
    assert_eq!(CmdErr::SSHRemoteCmdErr("ls".into(), "c".into()).message(), "SSHConn execute remote cmd ls failed, error causes c");
    assert_eq!(
        CmdErr::CassandraCtlErr("st".into(), "c".into()).message(),
        "Error executing apache-cassandra control command st failed, error causes c"
    );
}

#[test]
fn task_values_give_back_what_they_hold() {
    assert_eq!(TaskValue::Str("s".into()).into_inner_value::<String>(), "s");
    assert_eq!(TaskValue::Number(7).into_inner_value::<usize>(), 7);
    assert_eq!(TaskValue::List(vec!["a".into()]).into_inner_value::<Vec<String>>(), vec!["a".to_string()]);
    assert_eq!(TaskHost::Local.ssh_conn_tuple(), ("_local".to_string(), 22, "localhost".to_string()));
    let remote = TaskHost::Remote { user: "u".into(), port: 2200, hosts: "h".into() };
    assert_eq!(remote.ssh_conn_tuple(), ("u".to_string(), 2200, "h".to_string()));
}

#[test]
fn barriers_cut_tasks_into_consecutive_stages() {
    assert_eq!(task_split(None, 4), vec![(0, 4)]);
    assert_eq!(task_split(Some(vec![2, 3, 0, 1]), 6), vec![(0, 2), (2, 5), (5, 5), (5, 6)]);
}

#[test]
fn cassandra_commands_from_words() {
    let start = CassandraCmd::from_string("START".into(), "/c".into(), None, "/jdk");
    assert_eq!(start.as_ref(), "Start");
    assert_eq!(
        start.cmd_value(),
        "mkdir -p /c/logs && cd /c && export JAVA_HOME=/jdk; /c/bin/cassandra -f > /c/logs/cassandra_start.log 2>&1 &"
    );
    let status = CassandraCmd::from_string("status".into(), "/c".into(), None, "/jdk");
    assert_eq!(status.cmd_value(), "export JAVA_HOME=/jdk; /c/bin/nodetool status");
    assert!(CassandraCmd::try_from_string("stop".into(), "/c".into(), None, "/jdk").is_none());
    assert!(CassandraCmd::try_from_string("processinfo".into(), "/c".into(), None, "/jdk").is_none());
    assert!(CassandraCmd::try_from_string("Status".into(), "/c".into(), None, "/jdk").is_some());
    let info = CassandraCmd::from_string("ProcessInfo".into(), "/c".into(), Some("mono".into()), "/jdk");
    assert_eq!(
        info.cmd_value(),
        " echo `ps -o pid,ruser=mono,command | grep cassandra | grep -v grep | awk '{print $1}'` | { read pid; cmd=\"readlink /proc/$pid/cwd\"; output=`eval $cmd`; echo \"$pid:$output\"}"
    );
    assert_eq!(CassandraCmd::stop_command(-12).cmd_value(), "kill -12");
}

#[test]
fn reads_the_cassandra_pid() {
    let home = "/opt/mono/apache-cassandra";
    assert_eq!(running_pid("", home), None);
    assert!(pid_output_check("1:/x\nno colon\n", home));
    assert!(!pid_output_check("1:/x:y\n", home));
    assert!(!pid_output_check("abc:/opt/mono/apache-cassandra\n", home));
    assert!(pid_output_check("a:b\n12:/opt/mono/apache-cassandra\n1:2:3\n", home));
    assert_eq!(running_pid("no colon\n77:/elsewhere\n4242:/opt/mono/apache-cassandra\n", home), Some(4242));
    let task = CassandraCtlTask::new(config(), task_id("start", "cassandra-start"));
    assert_eq!(task.cassandra_home(), home);
    assert_eq!(task.already_running(0, "4242:/opt/mono/apache-cassandra", "ps"), Ok(Some(4242)));
    assert_eq!(task.already_running(1, "", "ps"), Err("Cmd ps execution fails".to_string()));
    assert_eq!(task.start_status_check("go", 0), Ok(()));
    assert_eq!(
        task.start_status_check("go", 3),
        Err("Start cassandra fails cmd=go, cassandra_home=/opt/mono/apache-cassandra,cmd_code=3".to_string())
    );
    assert!(CassandraCtlTask::stop_succeeded(0));
    assert!(!CassandraCtlTask::stop_succeeded(1));
}

#[test]
fn nodetool_status_shows_a_node_up() {
    assert!(status_ready("Datacenter: dc1\n--  Address\nUN  10.0.0.1  1 MiB\n"));
    assert!(!status_ready("DN  10.0.0.1  1 MiB\n"));
    assert!(!status_ready("UN\r\n"));
    assert!(matches!(CassandraCtlTask::start_wait_step(0, None, "st"), StartWaitAction::TimedOut));
    assert!(matches!(CassandraCtlTask::start_wait_step(5, None, "st"), StartWaitAction::Poll));
    assert!(matches!(CassandraCtlTask::start_wait_step(5, Some(Ok("UN x".into())), "st"), StartWaitAction::Ready));
    assert!(matches!(CassandraCtlTask::start_wait_step(5, Some(Ok("DN x".into())), "st"), StartWaitAction::Sleep(4)));
    match CassandraCtlTask::start_wait_step(5, Some(Err("boom".into())), "st") {
        StartWaitAction::Failed(CmdErr::CassandraCtlErr(c, cause)) => assert_eq!((c.as_str(), cause.as_str()), ("st", "boom")),
        other => panic!("unexpected {other:?}"),
    }
}

#[test]
fn cassandra_tasks_go_to_storage_hosts() {
    let tasks = CassandraCtlTask::from_config(CommandArgs::Stop { cluster: "c1".into() }, &config());
    assert_eq!(tasks.len(), 2);
    assert_eq!(tasks[1].task_host, TaskHost::Remote { user: "eloq".into(), port: 2222, hosts: "s2".into() });
    assert_eq!(tasks[0].task.task_id.task, "cassandra-stop");
    assert_eq!(tasks[0].task.config, config());
    assert_eq!(tasks[0].task_input[0], ("cassandra_cmd".to_string(), TaskValue::Str("stop".into())));
    assert!(CassandraCtlTask::execute_decision(&CassandraCmd::stop_command(1), Some(1)));
    assert!(!CassandraCtlTask::execute_decision(&CassandraCmd::stop_command(1), None));
}

#[test]
fn log_control_commands_per_process() {
    let cfg = config();
    let ls = cfg.deployment.log_service.as_ref().unwrap();
    let start = LogCtlCmd::build_cmd("/opt/log", "eloq", ls, LogCtlAction::Start);
    assert_eq!(start.len(), 2);
    assert_eq!(start[0].0.to_string(), "l1:9000");
    assert_eq!(start[0].1, LogCtlCmd::Start("/opt/log/start_log_l1_9000.bash".to_string()));
    let status = LogCtlCmd::build_cmd("/opt/log", "eloq", ls, LogCtlAction::Status);
    assert_eq!(
        status[1].1,
        LogCtlCmd::Status("ps uxwe -u eloq | grep -E 'conf=l2:9000|/opt/log/bin/launch_sv' \\\n| grep -v grep | awk '{print $2}'".to_string())
    );
    let stop = LogCtlCmd::build_cmd("/opt/log", "eloq", ls, LogCtlAction::Stop { force: true });
    assert!(stop[0].1.cmd_value().ends_with(" | xargs kill -9"));
    let only = LogCtlCmd::build_cmd_for("/opt/log", "eloq", ls, LogCtlAction::Start, Some(&start[1].0));
    assert_eq!(only.len(), 1);
    assert_eq!(only[0].0.host, "l2");
    let on_l1 = LogCtlCmd::build_cmd_with_predicate("/opt/log", "eloq", ls, LogCtlAction::Start, &|h: String, p: u16| h == "l1" && p == 9000);
    assert_eq!(on_l1.len(), 1);
    assert_eq!(on_l1[0].1, LogCtlCmd::Start("/opt/log/start_log_l1_9000.bash".to_string()));
    let none = LogCtlCmd::build_cmd_with_predicate("/opt/log", "eloq", ls, LogCtlAction::Status, &|_h: String, p: u16| p > 9000);
    assert!(none.is_empty());
    let per_host = MonographLogCtlTask::from_config(&cfg, LogCtlAction::Stop { force: false }, "/opt/log");
    assert_eq!(per_host.len(), 2);
    assert_eq!(per_host[1].task_host, TaskHost::Remote { user: "eloq".into(), port: 2222, hosts: "l2".into() });
    assert_eq!(per_host[1].task.log_cmd.len(), 1);
    assert_eq!(per_host[1].task_input[0], ("cluster_cmd".to_string(), TaskValue::Str("stop".into())));
    assert_eq!(per_host[0].task.task_id.task, "stop");
    let task = MonographLogCtlTask::new(cfg.clone(), task_id("log", "start"), start);
    assert_eq!(
        MonographLogCtlTask::remote_cmd(&task.log_cmd),
        "/opt/log/start_log_l1_9000.bash;/opt/log/start_log_l2_9000.bash"
    );
}

#[test]
fn install_command_for_each_os() {
    let deps = vec!["libaio1".to_string(), "curl".to_string()];
    assert_eq!(
        RuntimeDepsInstallation::install_command("ubuntu", "22", true, &deps),
        Ok("apt update && DEBIAN_FRONTEND=noninteractive apt install -y --no-install-recommends libaio1 curl".to_string())
    );
    assert_eq!(
        RuntimeDepsInstallation::install_command("rhel", "7", false, &deps),
        Ok("sudo yum install -y epel-release && sudo yum update -y && sudo yum install -y libaio1 curl".to_string())
    );
    assert_eq!(
        RuntimeDepsInstallation::install_command("arch", "1", true, &deps),
        Err("For now MonographDB only run on Ubuntu or Centos7/Centos8".to_string())
    );
    let tasks = RuntimeDepsInstallation::from_config(&config(), "rhel", "9", &deps, &vec!["h1".to_string()]).unwrap();
    assert_eq!(tasks.len(), 1);
    assert_eq!(tasks[0].task.task_id.task, "rhel_install_deps");
    assert!(tasks[0].task.install_dep_cmd.contains("epel-release-latest-9"));
    assert_eq!(
        tasks[0].task.failure_message("h1", 2, "oops"),
        format!("install dependency failed on h1, code=2: {}: oops", tasks[0].task.install_dep_cmd)
    );
}

#[test]
fn topology_rows_by_group_id() {
    let node = |g: i32, id: &str, master: bool| TopologyNode {
        node_group_id: g,
        node_id: id.to_string(),
        host: format!("h{id}"),
        port: 6379,
        is_master: master,
        is_candidate: !master,
    };
    let rows = TopologyDisplayTask::display_rows(&vec![node(2, "a", true), node(1, "b", false), node(2, "c", false), node(-1, "d", true)]);
    let ids: Vec<&str> = rows.iter().map(|r| r[1].as_str()).collect();
    assert_eq!(ids, vec!["d", "b", "a", "c"]);
    assert_eq!(rows[1], vec!["1", "b", "hb", "6379", "Replica", "Yes"]);
    assert_eq!(TopologyDisplayTask::display_titles()[5], "Is Candidate");
    let task = TopologyDisplayTask::new(task_id("topology-display", "status"), "c1".to_string());
    assert_eq!(task.no_topology_message(), "No topology information found for cluster c1");
    assert_eq!(task.topology_output("T"), "\nCluster Topology for c1:\nT");
    assert_eq!(TopologyDisplayTask::load_failure_message("db"), "Failed to load topology information: db");
}

#[test]
fn per_host_tasks() {
    let cfg = config();
    let exec = ExecCustomCommand::from_config("uptime".into(), &cfg, &vec![vec!["a".into(), "b".into()], vec![], vec!["c".into()]]);
    let hosts: Vec<String> = exec.iter().map(|t| t.task_host.ssh_conn_tuple().2).collect();
    assert_eq!(hosts, vec!["a", "b", "c"]);
    assert_eq!(exec[0].task.cmd, "uptime");
    let unpack = UnpackFileTask::from_config(&cfg, &vec![("monograph.tar.gz".into(), vec!["a".into()]), ("cassandra-bin.tar.gz".into(), vec!["b".into(), "c".into()])]);
    assert_eq!(unpack.len(), 3);
    assert_eq!(unpack[2].task_input[0], ("remote_tar".to_string(), TaskValue::Str("/opt/mono/cassandra-bin.tar.gz".into())));
    assert_eq!(unpack[2].task.task_id.task, "cassandra-bin.tar.gz_unpack");
    assert_eq!(
        unpack[0].task.extract_command("/opt/mono/monograph.tar.gz"),
        "mkdir -p /opt/mono/monographdb-release && tar -zxvf /opt/mono/monograph.tar.gz -C /opt/mono/monographdb-release"
    );
    assert_eq!(
        unpack[1].task.extract_command("/opt/mono/apache-cassandra-4.1-bin.tar.gz"),
        "tar -zxvf /opt/mono/apache-cassandra-4.1-bin.tar.gz -C /opt/mono && mv /opt/mono/apache-cassandra-4.1 /opt/mono/apache-cassandra"
    );
}

#[test]
fn uploads_and_copies() {
    let builder = MonitorInfraConfUploadBuilder;
    let files = builder.monitor_upload_files(&vec![(
        "/opt/prometheus".to_string(),
        ConfigAndHostPair { path: vec!["/tmp/p.yml".into(), "/tmp/m.json".into()], hosts: vec!["m1".into(), "m2".into()] },
    )]);
    assert_eq!(files.len(), 2);
    assert_eq!(files[1].source, "/tmp/p.yml /tmp/m.json");
    assert_eq!(files[1].host, "m2");
    let cfg = config();
    let copy = CopyTask::new(task_id("install", "fetch_datafarm"), cfg.connection.clone(), "t1".into(), "/opt/mono/datafarm".into(), "/tmp/up".into());
    let args = copy.scp_args();
    assert_eq!(args[10..], ["-i", "/home/eloq/.ssh/id_rsa", "-P", "2222", "-r", "eloq@t1:/opt/mono/datafarm", "/tmp/up"]);
}

#[test]
fn field_metadata_of_the_registry() {
    let m = get_field_metadata("maxmemory_policy").unwrap();
    assert_eq!(m.scope, FieldScope::NodeSpecific);
    assert_eq!(m.value_type, FieldValueType::String);
    assert_eq!(m.default_value, "noeviction");
    assert!(get_field_metadata("nope").is_none());
}

#[test]
fn web_status_query_knows_its_commands() {
    assert_eq!(check_cmd_status("START"), (200, String::new()));
    assert_eq!(
        check_cmd_status("Reboot"),
        (400, "un support command = reboot, for now support command list deploy,install,start,stop,status".to_string())
    );
    assert_eq!(check_cmd_status("").0, 400);
}

#[test]
fn machine_names_map_to_package_names() {
    assert_eq!(os_id_of("rocky".into()), "rhel");
    assert_eq!(os_id_of("ubuntu".into()), "ubuntu");
    assert_eq!(os_major_version_of("8.6"), "8");
    assert_eq!(os_major_version_of("22"), "22");
    assert_eq!(cpu_arch_of("x86_64".into()), "amd64");
    assert_eq!(cpu_arch_of("aarch64".into()), "arm64");
    assert_eq!(cpu_arch_of("riscv64".into()), "riscv64");
    assert_eq!(
        download_file_path("/home/u/Downloads", vec!["a.tar".into(), "/abs/b".into()]),
        vec!["/home/u/Downloads/a.tar", "/abs/b"]
    );
    assert_eq!(download_file_path("/dl/", vec!["c".into()]), vec!["/dl/c"]);
}

#[test]
fn install_and_upload_commands() {
    let cfg = config();
    let tasks = MonographInstall::from_config(&cfg, TaskHost::Local);
    assert_eq!(tasks.len(), 1);
    assert_eq!(tasks[0].task.task_id.task, "monograph-install");
    assert_eq!(
        tasks[0].task.install_command(),
        "export LD_LIBRARY_PATH=/opt/mono/monographdb-release/install/lib:$LD_LIBRARY_PATH; /bin/bash /opt/mono/monograph_install_db.bash"
    );
    assert_eq!(tasks[0].task.datafarm_path(), "/opt/mono/datafarm");
    let upload = UploadTask::new(cfg.clone(), task_id("deploy", "upload"));
    assert_eq!(upload.create_dir_command(), "mkdir -p /opt/mono");
    let save = DbDeploymentUpdateLogTask::new(task_id("scale", "save"), cfg, "c1".to_string());
    assert_eq!(save.cluster_name, "c1");
}
