use cluster_mgr::config::deployment::{LogService, LogServiceNode};
use std::collections::HashSet;

fn mock_log_service(host_num: usize, replica: usize) -> LogService {
    let nodes = (0..host_num)
        .map(|idx| LogServiceNode {
            host: format!("127.0.0.{idx}"),
            data_dir: vec!["/data/opt/log_srv".to_string()],
            port: 9800,
        })
        .collect();
    LogService {
        nodes,
        replica: Some(replica as u32),
    }
}

#[test]
pub fn deployment_test_log_service_groups() {
    let one_host_log_srv = &mock_log_service(1, 3);
    let group = one_host_log_srv.group();
    println!("host=1,group_size={group}");
    assert_eq!(1, group);

    let multi_host_log_srv = &mock_log_service(4, 3);
    let group = multi_host_log_srv.group();
    println!("host=4,group_size={group}");
    assert_eq!(2, group);
}

#[test]
pub fn deployment_test_log_group_members() {
    let log_srv = &mock_log_service(4, 3);
    let expect_group = 2;
    let expect_members = 2 * log_srv.log_replica();
    let members = log_srv.group_members();
    println!("log_members={members:#?}");
    let groups = members
        .iter()
        .flat_map(|(_, member)| member.iter().map(|inner_member| inner_member.group_id))
        .collect::<HashSet<usize>>()
        .len();
    println!("groups={groups}");
    assert_eq!(expect_members, members.len());
    assert_eq!(expect_group, groups);
}

#[test]
pub fn deployment_test_log_start_cmd() {
    let log_srv = &mock_log_service(5, 3);
    let log_srv_cmd = log_srv.log_start_cmd();
    println!("log_srv_cmd={log_srv_cmd:#?}");
    let hosts = log_srv_cmd.len();
    assert_eq!(5, hosts);
}

#[test]
pub fn deployment_test_group_member_config() {
    let log_srv = &mock_log_service(4, 3);
    let binding = log_srv.group_member_as_vec();
    let all_members = binding.as_slice();
    let group_member_config = log_srv.group_member_config(all_members);
    println!("{group_member_config:#?}");
    assert_eq!(2, group_member_config.len());
    let all_config = group_member_config
        .values()
        .cloned()
        .collect::<Vec<String>>()
        .join(",");
    println!("all_config={all_config}");
    let config_split = all_config.split(',').count();
    let item_members_count = 2 * log_srv.log_replica();
    assert_eq!(item_members_count, config_split);
}
