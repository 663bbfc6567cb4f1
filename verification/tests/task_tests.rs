use cluster_mgr::cli::task::cassandra_ctl_task::CassandraCmd;
use cluster_mgr::cli::task::config_fields::{field_exists, is_cluster_wide_field};
use cluster_mgr::cli::task::task_base::TaskValue;
use std::collections::HashMap;

#[test]
pub fn test_build_cassandra_cmd() {
    let cassandra_bin = "/data1/opt/mono-poc";
    let cassandra_process = CassandraCmd::from_string(
        "processinfo".to_string(),
        cassandra_bin.to_string(),
        Some("mono".to_string()),
        "/usr/lib/jvm/java-11",
    );
    println!("start = {:#?}", cassandra_process);
}

#[test]
pub fn test_string_compare() {
    let str_value = ":".to_string();
    println!("eq={}", str_value.is_empty() || str_value == ":")
}

#[test]
fn test_field_exists() {
    assert!(field_exists("eloq_data_path"));
    assert!(field_exists("enable_data_store"));
    assert!(!field_exists("nonexistent_field"));
}

#[test]
fn test_field_scope() {
    assert!(!is_cluster_wide_field("eloq_data_path"));
    assert!(is_cluster_wide_field("replication_factor"));
}

#[test]
pub fn test_merge_execution_value() {
    let val1 = HashMap::from([
        ("cmd".to_string(), TaskValue::Str("cmd1".to_string())),
        ("cmd_status".to_string(), TaskValue::Number(0)),
    ]);

    let _val2 = HashMap::from([
        ("cmd".to_string(), TaskValue::Str("cmd2".to_string())),
        ("cmd_status".to_string(), TaskValue::Number(2)),
    ]);

    val1.iter().for_each(|(_key, _val)| {});
}
