use cluster_mgr::config::log_service::{LogReadiness, LogService, LogServiceNode};

fn mock_log_service(host_num: usize, replica: usize, disks: usize) -> LogService {
    let disk_path: Vec<String> = (0..disks)
        .map(|disk_idx| format!("/data/opt/disk_{disk_idx}"))
        .collect();
    let nodes = (0..host_num)
        .map(|idx| LogServiceNode {
            host: format!("127.0.0.{idx}"),
            data_dir: disk_path.clone(),
            port: 9400,
        })
        .collect();
    LogService {
        nodes,
        replica: Some(replica as u32),
        readiness: Some(LogReadiness::default()),
    }
}

#[test]
pub fn test_gen_nodes() {
    let one_host_log_srv = &mock_log_service(1, 3, 3);
    let nodes = one_host_log_srv.gen_log_node_ids(0);
    println!("{nodes:?}");
    let expected_total_nodes = nodes.iter().sum::<usize>();
    assert_eq!(0, expected_total_nodes);
}

#[test]
pub fn log_service_test_log_service_groups() {
    let one_host_log_srv = &mock_log_service(1, 3, 3);
    let group = one_host_log_srv.group();
    println!("host=1,group_size={group}");
    assert_eq!(1, group);

    let multi_host_log_srv = &mock_log_service(4, 3, 3);
    let group = multi_host_log_srv.group();
    println!("host=4,group_size={group}");
    assert_eq!(2, group);
}

#[test]
pub fn log_service_test_log_group_members() {
    let log_srv = &mock_log_service(4, 3, 3);
    let matrix = log_srv.node_and_disk_matrix();
    let rows = matrix.len();
    let cols = matrix.get(0).unwrap().len();
    assert_eq!(3, rows);
    assert_eq!(4, cols);
    let _groups = (rows * cols) / log_srv.log_replica();
    let members = log_srv.memberships();
    println!("members = {members:#?}");
}

#[test]
pub fn log_service_test_log_start_cmd() {
    let log_srv = &mock_log_service(5, 3, 3);
    let log_srv_cmd = log_srv.log_start_cmd();
    println!("log_srv_cmd={log_srv_cmd:#?}");
    let hosts = log_srv_cmd.len();
    assert_eq!(5, hosts);
}

#[test]
pub fn log_service_test_group_member_config() {
    let log_srv = &mock_log_service(4, 3, 3);
    let binding = log_srv.group_member_as_vec();
    let all_members = binding.as_slice();
    let group_member_config = log_srv.group_member_config(all_members);
    println!("{group_member_config:#?}");
    assert_eq!(2, group_member_config.len());
    let all_config = group_member_config
        .values()
        .cloned()
        .collect::<Vec<String>>()
        .join(",");
    println!("all_config={all_config}");
    let config_split = all_config.split(',').count();
    let item_members_count = 2 * log_srv.log_replica();
    assert_eq!(item_members_count, config_split);
}
