use cluster_mgr::config::log_service::{group_count, LogReadiness, LogService, LogServiceNode};

fn service(hosts: &[&str], disks: &[usize], replica: u32) -> LogService {
    LogService {
        nodes: hosts
            .iter()
            .zip(disks.iter())
            .map(|(h, d)| LogServiceNode {
                host: h.to_string(),
                data_dir: (0..*d).map(|i| format!("/disk{i}")).collect(),
                port: 9400,
            })
            .collect(),
        replica: Some(replica),
        readiness: None,
    }
}

#[test]
fn group_count_covers_every_host() {
    assert_eq!(group_count(1, 3), 1);
    assert_eq!(group_count(3, 3), 1);
    assert_eq!(group_count(4, 3), 2);
    assert_eq!(group_count(7, 3), 3);
    for hosts in 0..20usize {
        for r in 1..6usize {
            let g = group_count(hosts, r);
            assert!(g * r >= hosts);
            assert!(hosts < r || (g - 1) * r < hosts);
        }
    }
}

#[test]
fn clamped_layout_reuses_the_last_node_with_higher_ports() {
    let ls = service(&["h0"], &[1], 3);
    let members = ls.group_member_as_vec();
    let ports: Vec<u16> = members.iter().map(|m| m.port).collect();
    assert_eq!(ports, vec![9400, 9401, 9402]);
    assert!(members.iter().all(|m| m.check_health_url.starts_with("http://h0:")));
    assert_eq!(ls.readiness_opts(), LogReadiness::default());
    assert_eq!(LogReadiness::default().timeout_sec, 300);
}

#[test]
fn start_commands_group_members_by_host() {
    let ls = service(&["a", "b", "c", "d"], &[1, 1, 1, 1], 3);
    let cmds = ls.log_start_cmd();
    let hosts: Vec<&str> = cmds.iter().map(|(h, _)| h.as_str()).collect();
    assert_eq!(hosts, vec!["a", "b", "c", "d"]);
    let d_items = &cmds[3].1;
    assert_eq!(d_items.len(), 3);
    assert_eq!(d_items[0].group_members_config, "d:9400,d:9402,d:9403");
    assert_eq!(cmds[0].1[0].group_members_config, "a:9400,b:9400,c:9400");
}

#[test]
fn disk_matrix_orders_nodes_by_host() {
    let ls = service(&["h2", "h1", "h3"], &[1, 3, 2], 2);
    let matrix = ls.node_and_disk_matrix();
    assert_eq!(matrix.len(), 3);
    let row0: Vec<&str> = matrix[0].iter().map(|p| p.host.as_str()).collect();
    assert_eq!(row0, vec!["h1", "h2", "h3"]);
    assert_eq!(matrix[1][1], Default::default());
    assert_eq!(matrix[2][0].disk, "/disk2");
    assert_eq!(matrix[2][0].dist_idx, 2);
}

#[test]
fn memberships_stop_at_the_first_missing_disk() {
    let ls = service(&["h2", "h1", "h3"], &[1, 3, 2], 2);
    let members = ls.memberships();
    assert_eq!(members.len(), 1);
    let first = &members[&1];
    let hosts: Vec<&str> = first.iter().map(|m| m.member_host.as_str()).collect();
    assert_eq!(hosts, vec!["h1", "h2", "h3"]);
    assert_eq!(first[2].node_id, 2);
}

#[test]
fn memberships_of_a_full_matrix() {
    let ls = service(&["a", "b"], &[2, 2], 1);
    let members = ls.memberships();
    let mut keys: Vec<usize> = members.keys().cloned().collect();
    keys.sort();
    assert_eq!(keys, vec![1, 3]);
    assert_eq!(members[&1][0].port, 9400);
    assert_eq!(members[&3][0].port, 9400 + 2);
    assert_eq!(members[&3][0].check_health_url, "http://a:9402/healthz");
}

#[test]
fn memberships_put_a_group_on_distinct_hosts() {
    let ls = service(&["c", "a", "b", "d"], &[3, 3, 3, 3], 3);
    let members = ls.memberships();
    assert!(!members.is_empty());
    for group in members.values() {
        let mut hosts: Vec<&str> = group.iter().map(|m| m.member_host.as_str()).collect();
        let before = hosts.len();
        hosts.sort();
        hosts.dedup();
        assert_eq!(hosts.len(), before);
    }
}

#[test]
fn layout_check_finds_unusable_layouts() {
    assert!(service(&["a", "b", "c"], &[1, 1, 1], 3).layout_ready_check());
    assert!(!service(&["a"], &[0], 1).layout_ready_check());
    assert!(!service(&["a"], &[1], 0).layout_ready_check());
    let mut high_port = service(&["a"], &[1], 3);
    high_port.nodes[0].port = 65535;
    assert!(!high_port.layout_ready_check());
    assert!(!service(&[], &[], 3).layout_ready_check());
}

#[test]
fn memberships_use_each_disk_once() {
    let ls = service(&["c", "a", "b"], &[3, 3, 3], 1);
    let members = ls.memberships();
    let mut used: Vec<(String, String)> =
        members.values().flatten().map(|m| (m.member_host.clone(), m.storage_path.clone())).collect();
    let total = used.len();
    assert_eq!(total, 9, "every disk of a full matrix backs a member");
    used.sort();
    used.dedup();
    assert_eq!(used.len(), total, "no disk backs two members");
}

#[test]
fn memberships_leave_disks_unused_when_counts_differ() {
    let ls = service(&["a", "b"], &[2, 1], 1);
    let members = ls.memberships();
    let used: Vec<(String, String)> =
        members.values().flatten().map(|m| (m.member_host.clone(), m.storage_path.clone())).collect();
    assert!(!used.contains(&("a".to_string(), "/disk1".to_string())));
}
