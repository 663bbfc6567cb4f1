use cluster_mgr::config::connection::{resolve_service_endpoint, Auth, Connection, ServiceEndpoint, SshEndpoint};
use cluster_mgr::config::deployment::{
    CassandraStorage, Deployment, DynamoDbStorage, LogService, LogServiceNode, MonographPort,
    MonographService, Port, StorageService, MONOGRAPH_CONF_DYNAMO_TEMPLATE, MONOGRAPH_CONF_TEMPLATE,
};
use cluster_mgr::config::proxy_service::ProxyService;
use configparser::ini::Ini;

fn connection(port: Option<u16>, keypair: Option<String>) -> Connection {
    Connection {
        username: "eloq".to_string(),
        auth_type: "keypair".to_string(),
        auth: Auth { password: None, keypair },
        port,
        ssh_endpoints: Some(vec![(
            "10.0.0.1".to_string(),
            SshEndpoint { host: "gw.example".to_string(), port: Some(2201) },
        ), (
            "10.0.0.2".to_string(),
            SshEndpoint { host: "gw2.example".to_string(), port: None },
        )]),
        service_endpoints: Some(vec![
            ("10.0.0.1:6379".to_string(), ServiceEndpoint { host: "lb.example".to_string(), port: Some(16379) }),
            ("10.0.0.1".to_string(), ServiceEndpoint { host: "host1.example".to_string(), port: None }),
        ]),
    }
}

#[test]
fn ssh_port_defaults_to_22() {
    assert_eq!(connection(None, None).ssh_port(), 22);
    assert_eq!(connection(Some(2222), None).ssh_port(), 2222);
}

#[test]
fn ssh_endpoint_prefers_the_listed_gateway() {
    let c = connection(Some(2222), None);
    assert_eq!(c.ssh_endpoint("10.0.0.1"), ("gw.example".to_string(), 2201));
    assert_eq!(c.ssh_endpoint("10.0.0.2"), ("gw2.example".to_string(), 2222));
    assert_eq!(c.ssh_endpoint("10.0.0.9"), ("10.0.0.9".to_string(), 2222));
}

#[test]
fn service_endpoint_looks_up_host_port_then_host() {
    let c = connection(None, None);
    assert_eq!(c.service_endpoint("10.0.0.1", 6379), ("lb.example".to_string(), 16379));
    assert_eq!(c.service_endpoint("10.0.0.1", 3306), ("host1.example".to_string(), 3306));
    assert_eq!(c.service_endpoint("10.0.0.5", 3306), ("10.0.0.5".to_string(), 3306));
    assert_eq!(resolve_service_endpoint(None, "10.0.0.1", 6379), ("10.0.0.1".to_string(), 6379));
}

#[test]
fn ssh_auth_key_copies_the_keypair() {
    assert_eq!(connection(None, Some("/k".to_string())).ssh_auth_key(), Some("/k".to_string()));
    assert_eq!(connection(None, None).ssh_auth_key(), None);
}

#[test]
fn check_keypair_reports_a_missing_key() {
    let missing = Auth { password: None, keypair: Some("/no/such/key/file".to_string()) };
    assert_eq!(missing.check_keypair(), Err("ssh key /no/such/key/file not exist".to_string()));
    let none = Auth { password: Some("pw".to_string()), keypair: None };
    assert_eq!(none.check_keypair(), Ok(()));
    let present = Auth { password: None, keypair: Some("/".to_string()) };
    assert_eq!(present.check_keypair(), Ok(()));
    assert_eq!(missing.keypair_check_result(true), Ok(()));
}

#[test]
fn proxy_paths_are_under_the_install_dir() {
    let p = ProxyService {
        proxy_name: "proxy".to_string(),
        bin_download_url: None,
        proxy_addrs: vec![],
        web_service_ports: vec![],
        install_dir: "/opt/eloq".to_string(),
        eloqkv_cluster_addr: vec![],
        eloqkv_cluster_token: vec![],
        eloqkv_cluster_password: vec![],
    };
    assert_eq!(p.install_dir(), "/opt/eloq/proxy-service");
    assert_eq!(p.proxy_bin(), "/opt/eloq/proxy-service/eloqkv-proxy");
    assert_eq!(p.proxy_conf_path(), "/opt/eloq/proxy-service/eloqproxy.ini");
}

fn log_service(host_num: usize, replica: u32) -> LogService {
    LogService {
        nodes: (0..host_num)
            .map(|idx| LogServiceNode {
                host: format!("127.0.0.{idx}"),
                data_dir: vec!["/data/opt/log_srv".to_string()],
                port: 9800,
            })
            .collect(),
        replica: Some(replica),
    }
}

fn deployment(storage: StorageService, log: Option<LogService>) -> Deployment {
    Deployment {
        tx_image: "tx.tar.gz".to_string(),
        log_image: None,
        cluster_name: "c1".to_string(),
        install_dir: "/opt/mono".to_string(),
        port: Port { mysql_port: 3316, monograph_port: MonographPort { start: 8000, end: 8100 } },
        tx_service: MonographService { host: vec!["10.0.0.2".to_string(), "10.0.0.1".to_string()] },
        log_service: log,
        storage_service: storage,
        monitor: None,
    }
}

fn cassandra() -> StorageService {
    StorageService {
        cassandra: Some(CassandraStorage { host: vec!["c1".to_string(), "c2".to_string()] }),
        dynamodb: None,
    }
}

#[test]
fn deployment_log_group_members_are_keyed_by_slot() {
    let ls = log_service(4, 3);
    let members = ls.group_members();
    assert_eq!(members.len(), 6);
    let m4 = &members[&4][0];
    assert_eq!((m4.group_id, m4.node_id, m4.member_host.as_str()), (1, 1, "127.0.0.0"));
    assert_eq!(m4.port, 9800 + 2);
    assert_eq!(m4.check_health_url, "127.0.0.0:9802/healthz");
    assert_eq!(m4.storage_path, "/data/opt/log_srv/group_1_node_1");
    assert_eq!(ls.gen_log_node_ids(3), vec![3, 0, 1]);
}

#[test]
fn build_log_config_lists_every_group() {
    let d = deployment(cassandra(), Some(log_service(4, 3)));
    let cfg = d.build_log_config().unwrap();
    assert_eq!(cfg[0], ("monograph_txlog_group_replica_num".to_string(), "3".to_string()));
    assert_eq!(
        cfg[1],
        (
            "monograph_txlog_service_list".to_string(),
            "127.0.0.0:9800,127.0.0.1:9800,127.0.0.2:9800,127.0.0.3:9800,127.0.0.0:9802,127.0.0.1:9803".to_string()
        )
    );
    assert!(deployment(cassandra(), None).build_log_config().is_none());
}

#[test]
fn bootstrap_host_is_the_first_in_sorted_order() {
    assert_eq!(deployment(cassandra(), None).bootstrap_host(), "10.0.0.1");
}

#[test]
fn generated_configuration_for_a_named_host() {
    let d = deployment(cassandra(), Some(log_service(4, 3)));
    assert_eq!(d.conf_template_name(), MONOGRAPH_CONF_TEMPLATE);
    let (ini, file) = d.gen_monograph_config(Some("10.0.0.1".to_string()), "/opt/mono".to_string(), Ini::new());
    assert_eq!(file, "my_10.0.0.1.cnf");
    let get = |k: &str| ini.get("mariadb", k);
    assert_eq!(get("monograph_cass_hosts"), Some("c1,c2".to_string()));
    assert_eq!(get("datadir"), Some("/opt/mono/datafarm".to_string()));
    assert_eq!(get("lc_messages_dir"), Some("/opt/mono/monographdb-release/install/share".to_string()));
    assert_eq!(get("plugin_dir"), Some("/opt/mono/monographdb-release/install/lib/plugin".to_string()));
    assert_eq!(get("port"), Some("3316".to_string()));
    assert_eq!(get("socket"), Some("/tmp/mysql3316.sock".to_string()));
    assert_eq!(get("monograph_ip_list"), Some("10.0.0.2:8000,10.0.0.1:8000".to_string()));
    assert_eq!(get("monograph_txlog_group_replica_num"), Some("3".to_string()));
    assert_eq!(get("monograph_local_ip"), Some("10.0.0.1:8000".to_string()));
}

#[test]
fn generated_configuration_for_the_local_host() {
    let dynamo = StorageService {
        cassandra: None,
        dynamodb: Some(DynamoDbStorage {
            access_key_id: "AK".to_string(),
            secret_key: "SK".to_string(),
            region: "us-east-1".to_string(),
            endpoint: "http://dynamo:8000".to_string(),
        }),
    };
    let d = deployment(dynamo, Some(log_service(4, 3)));
    assert_eq!(d.conf_template_name(), MONOGRAPH_CONF_DYNAMO_TEMPLATE);
    let (ini, file) = d.gen_monograph_config(None, "/opt/mono".to_string(), Ini::new());
    assert_eq!(file, "my_local.cnf");
    let get = |k: &str| ini.get("mariadb", k);
    assert_eq!(get("monograph_aws_access_key_id"), Some("AK".to_string()));
    assert_eq!(get("monograph_dynamodb_region"), Some("us-east-1".to_string()));
    assert_eq!(get("monograph_ip_list"), Some("127.0.0.1:8000".to_string()));
    assert_eq!(get("monograph_local_ip"), Some("127.0.0.1:8000".to_string()));
    assert_eq!(get("monograph_txlog_service_list"), None);
}

#[test]
fn wrapping_layout_check() {
    assert!(log_service(4, 3).layout_ready_check());
    assert!(!log_service(1, 3).layout_ready_check());
    assert!(deployment(cassandra(), None).log_ready_check());
    assert!(!deployment(cassandra(), Some(log_service(1, 3))).log_ready_check());
}
