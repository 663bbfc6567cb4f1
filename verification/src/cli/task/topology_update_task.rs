//! Updating the stored topology of a cluster: the rows of its transaction
//! nodes, taken from the node group configuration or, where that cannot be
//! read, from the voters alone; and the decisions of the update as the
//! writes and the reply from the live cluster come in.
use crate::cli::task::topology_display_task::TopologyNode;
use crate::config::deployment::LogService;
use crate::text::{copy_string, decimal, join_strings, parse_i32, parse_i32_spec, seq_join, split_by_char, split_char, u64_to_string};
use vstd::prelude::*;

verus! {

/// The port offset between a node's configured port and the one stored.
pub const PORT_DELTA: i32 = 10000;

/// The stored role of a node that leads its group.
pub const ROLE_MASTER: i32 = 0;
/// The stored role of a candidate node before the leaders are known.
pub const ROLE_REPLICA: i32 = 1;
/// The stored role of a voter.
pub const ROLE_VOTER: i32 = 2;

/// A node of a group of the node group configuration.
#[derive(Clone, Debug)]
pub struct NodeConfig {
    pub node_id: u32,
    pub ip: String,
    pub port: u16,
    pub is_candidate: bool,
}

/// A group of the node group configuration, with its id.
#[derive(Clone, Debug)]
pub struct NodeGroupConfig {
    pub ng_id: u32,
    pub nodes: Vec<NodeConfig>,
}

/// A stored row of the transaction topology; times in seconds.
#[derive(Clone, Debug)]
pub struct TopologyTxEntity {
    pub cluster_name: String,
    pub node_group_count: i32,
    pub node_group_id: i32,
    pub node_id: String,
    pub role: i32,
    pub host: String,
    pub port: i32,
    pub create_timestamp: i64,
    pub update_timestamp: i64,
}

/// The (group, node) index pairs of the configuration, group after group.
pub open spec fn group_rows(groups: Seq<NodeGroupConfig>) -> Seq<(int, int)> {
    Seq::new(groups.len(), |k: int| Seq::new(groups[k].nodes@.len(), |j: int| (k, j))).flatten()
}

/// The row stored for node `n` of the group `ng_id` among `count` groups.
pub open spec fn node_row_is(e: TopologyTxEntity, cluster: Seq<char>, count: int, ng_id: u32, n: NodeConfig, now: i64) -> bool {
    &&& e.cluster_name@ == cluster
    &&& e.node_group_count == count as i32
    &&& e.node_group_id == ng_id as i32
    &&& e.node_id@ == decimal(n.node_id as nat)
    &&& e.role == (if n.is_candidate { ROLE_REPLICA } else { ROLE_VOTER })
    &&& e.host@ == n.ip@
    &&& e.port == n.port - PORT_DELTA
    &&& e.create_timestamp == now
    &&& e.update_timestamp == now
}

/// The text before and after the first `c` of `s`, if it has one.
pub open spec fn split_once_spec(s: Seq<char>, c: char) -> Option<(Seq<char>, Seq<char>)>
    decreases s.len(),
{
    if s.len() == 0 {
        None
    } else if s[0] == c {
        Some((Seq::empty(), s.drop_first()))
    } else {
        match split_once_spec(s.drop_first(), c) {
            Some(p) => Some((seq![s[0]] + p.0, p.1)),
            None => None,
        }
    }
}

/// The entries of a voter list item: its pieces between `|` and `,`.
pub open spec fn voter_pieces(item: Seq<char>) -> Seq<Seq<char>> {
    split_char(item, '|').map_values(|p: Seq<char>| split_char(p, ',')).flatten()
}

/// The host and port of an entry `host:port` whose port reads as an `i32`.
pub open spec fn host_port_of(entry: Seq<char>) -> Option<(Seq<char>, i32)> {
    match split_once_spec(entry, ':') {
        Some(p) => match parse_i32_spec(p.1) {
            Some(port) => Some((p.0, port)),
            None => None,
        },
        None => None,
    }
}

/// The hosts and ports of the entries that read as `host:port`, in order.
pub open spec fn parsed_entries(entries: Seq<Seq<char>>) -> Seq<(Seq<char>, i32)>
    decreases entries.len(),
{
    if entries.len() == 0 {
        Seq::empty()
    } else {
        let prev = parsed_entries(entries.drop_last());
        match host_port_of(entries.last()) {
            Some(hp) => prev.push(hp),
            None => prev,
        }
    }
}

/// The voters of the voter list, each with the index of its list item,
/// item after item.
pub open spec fn voter_rows(items: Seq<Seq<char>>) -> Seq<(int, Seq<char>, i32)> {
    Seq::new(items.len(), |i: int| parsed_entries(voter_pieces(items[i])).map_values(|hp: (Seq<char>, i32)| (i, hp.0, hp.1))).flatten()
}

/// The row stored for a voter of list item `i` when the configuration
/// cannot be read: group 0 of no groups, named after the item.
pub open spec fn voter_row_is(e: TopologyTxEntity, cluster: Seq<char>, v: (int, Seq<char>, i32), now: i64) -> bool {
    &&& e.cluster_name@ == cluster
    &&& e.node_group_count == 0
    &&& e.node_group_id == 0
    &&& e.node_id@ == "voter-"@ + decimal(v.0 as nat)
    &&& e.role == ROLE_VOTER
    &&& e.host@ == v.1
    &&& e.port == v.2
    &&& e.create_timestamp == now
    &&& e.update_timestamp == now
}

fn split_once(s: &str, c: char) -> (r: Option<(String, String)>)
    ensures
        match r {
            Some(p) => split_once_spec(s@, c) == Some((p.0@, p.1@)),
            None => split_once_spec(s@, c) is None,
        },
{
    let n = s.unicode_len();
    let mut i: usize = 0;
    while i < n
        invariant
            0 <= i <= n,
            n == s@.len(),
            forall|k: int| 0 <= k < i ==> s@[k] != c,
        decreases n - i,
    {
        if s.get_char(i) == c {
            let before = s.substring_char(0, i);
            let after = s.substring_char(i + 1, n);
            proof {
                lemma_split_once_at(s@, c, i as int);
            }
            return Some((String::from_str(before), String::from_str(after)));
        }
        i = i + 1;
    }
    proof {
        lemma_split_once_none(s@, c);
    }
    None
}

proof fn lemma_split_once_at(s: Seq<char>, c: char, i: int)
    requires
        0 <= i < s.len(),
        s[i] == c,
        forall|k: int| 0 <= k < i ==> s[k] != c,
    ensures
        split_once_spec(s, c) == Some((s.subrange(0, i), s.subrange(i + 1, s.len() as int))),
    decreases i,
{
    if i > 0 {
        lemma_split_once_at(s.drop_first(), c, i - 1);
        assert(seq![s[0]] + s.drop_first().subrange(0, i - 1) =~= s.subrange(0, i));
        assert(s.drop_first().subrange(i, s.len() - 1) =~= s.subrange(i + 1, s.len() as int));
    } else {
        assert(s.drop_first() =~= s.subrange(1, s.len() as int));
        assert(s.subrange(0, 0) =~= Seq::<char>::empty());
    }
}

proof fn lemma_split_once_none(s: Seq<char>, c: char)
    requires
        forall|k: int| 0 <= k < s.len() ==> s[k] != c,
    ensures
        split_once_spec(s, c) is None,
    decreases s.len(),
{
    if s.len() > 0 {
        lemma_split_once_none(s.drop_first(), c);
    }
}

fn voter_piece_list(item: &str) -> (pieces: Vec<String>)
    ensures
        pieces.deep_view() == voter_pieces(item@),
{
    let outer = split_by_char(item, '|');
    let ghost gv = split_char(item@, '|').map_values(|p: Seq<char>| split_char(p, ','));
    let mut pieces: Vec<String> = Vec::new();
    let mut g: usize = 0;
    while g < outer.len()
        invariant
            0 <= g <= outer.len(),
            outer.deep_view() == split_char(item@, '|'),
            gv == split_char(item@, '|').map_values(|p: Seq<char>| split_char(p, ',')),
            pieces.deep_view() =~= gv.take(g as int).flatten(),
        decreases outer.len() - g,
    {
        let inner = split_by_char(outer[g].as_str(), ',');
        assert(gv[g as int] == inner.deep_view());
        let ghost base = pieces.deep_view();
        let mut k: usize = 0;
        while k < inner.len()
            invariant
                0 <= k <= inner.len(),
                pieces.deep_view() =~= base + inner.deep_view().take(k as int),
            decreases inner.len() - k,
        {
            let ghost before = pieces.deep_view();
            pieces.push(copy_string(&inner[k]));
            assert(inner.deep_view().take(k + 1) =~= inner.deep_view().take(k as int).push(inner@[k as int]@));
            assert(pieces.deep_view() =~= before.push(inner@[k as int]@));
            k = k + 1;
        }
        proof {
            assert(inner.deep_view().take(inner.len() as int) =~= inner.deep_view());
            assert(gv.take(g + 1) =~= gv.take(g as int).push(gv[g as int]));
            gv.take(g as int).lemma_flatten_push(gv[g as int]);
        }
        g = g + 1;
    }
    assert(gv.take(outer.len() as int) =~= gv);
    pieces
}

fn tx_entity(cluster: &str, count: i32, ng_id: i32, node_id: String, role: i32, host: String, port: i32, now: i64) -> (e: TopologyTxEntity)
    ensures
        e.cluster_name@ == cluster@,
        e.node_group_count == count,
        e.node_group_id == ng_id,
        e.node_id == node_id,
        e.role == role,
        e.host == host,
        e.port == port,
        e.create_timestamp == now,
        e.update_timestamp == now,
{
    TopologyTxEntity {
        cluster_name: String::from_str(cluster),
        node_group_count: count,
        node_group_id: ng_id,
        node_id,
        role,
        host,
        port,
        create_timestamp: now,
        update_timestamp: now,
    }
}

/// The rows of the transaction nodes of the node group configuration
/// `groups`, group after group, each node in its group's order: a
/// candidate as a replica and any other node as a voter, its port less
/// `PORT_DELTA`, the number of groups and the group's id cast to `i32`,
/// written at `now`.
pub fn tx_entities_from_groups(cluster: &str, groups: &Vec<NodeGroupConfig>, now: i64) -> (rows: Vec<TopologyTxEntity>)
    ensures
        rows@.len() == group_rows(groups@).len(),
        forall|i: int| 0 <= i < rows@.len() ==> {
            let (k, j) = group_rows(groups@)[i];
            node_row_is(#[trigger] rows@[i], cluster@, groups@.len() as int, groups@[k].ng_id, groups@[k].nodes@[j], now)
        },
{
    let count = groups.len() as i32;
    let ghost gv = Seq::new(groups@.len(), |k: int| Seq::new(groups@[k].nodes@.len(), |j: int| (k, j)));
    let ghost mut done: Seq<(int, int)> = Seq::empty();
    let mut rows: Vec<TopologyTxEntity> = Vec::new();
    let mut g: usize = 0;
    while g < groups.len()
        invariant
            0 <= g <= groups.len(),
            count == groups@.len() as i32,
            gv == Seq::new(groups@.len(), |k: int| Seq::new(groups@[k].nodes@.len(), |j: int| (k, j))),
            done == gv.take(g as int).flatten(),
            rows@.len() == done.len(),
            forall|i: int| #![trigger rows@[i]] #![trigger done[i]] 0 <= i < rows@.len() ==> {
                &&& 0 <= done[i].0 < groups@.len() && 0 <= done[i].1 < groups@[done[i].0].nodes@.len()
                &&& node_row_is(rows@[i], cluster@, groups@.len() as int, groups@[done[i].0].ng_id,
                    groups@[done[i].0].nodes@[done[i].1], now)
            },
        decreases groups.len() - g,
    {
        let group = &groups[g];
        let ghost row = gv[g as int];
        assert(row == Seq::new(group.nodes@.len(), |j: int| (g as int, j)));
        let ghost base = rows@.len();
        let mut k: usize = 0;
        while k < group.nodes.len()
            invariant
                0 <= k <= group.nodes.len(),
                g < groups@.len(),
                *group == groups@[g as int],
                count == groups@.len() as i32,
                row == Seq::new(group.nodes@.len(), |j: int| (g as int, j)),
                rows@.len() == base + k,
                base == done.len(),
                forall|i: int| #![trigger rows@[i]] #![trigger done[i]] 0 <= i < base ==> {
                    &&& 0 <= done[i].0 < groups@.len() && 0 <= done[i].1 < groups@[done[i].0].nodes@.len()
                    &&& node_row_is(rows@[i], cluster@, groups@.len() as int, groups@[done[i].0].ng_id,
                        groups@[done[i].0].nodes@[done[i].1], now)
                },
                forall|i: int| base <= i < base + k ==> node_row_is(#[trigger] rows@[i], cluster@, groups@.len() as int,
                    group.ng_id, group.nodes@[i - base], now),
            decreases group.nodes.len() - k,
        {
            let node = &group.nodes[k];
            let role = if node.is_candidate { ROLE_REPLICA } else { ROLE_VOTER };
            let port = node.port as i32 - PORT_DELTA;
            rows.push(tx_entity(cluster, count, group.ng_id as i32, u64_to_string(node.node_id as u64), role, copy_string(&node.ip), port, now));
            k = k + 1;
        }
        proof {
            assert(gv.take(g + 1) =~= gv.take(g as int).push(row));
            gv.take(g as int).lemma_flatten_push(row);
            let nd = done + row;
            assert forall|i: int| #![trigger rows@[i]] #![trigger nd[i]] 0 <= i < rows@.len() implies {
                &&& 0 <= nd[i].0 < groups@.len() && 0 <= nd[i].1 < groups@[nd[i].0].nodes@.len()
                &&& node_row_is(rows@[i], cluster@, groups@.len() as int, groups@[nd[i].0].ng_id,
                    groups@[nd[i].0].nodes@[nd[i].1], now)
            } by {
                if i >= base {
                    assert(nd[i] == row[i - base]);
                    assert(row[i - base] == (g as int, i - base));
                } else {
                    assert(nd[i] == done[i]);
                }
            }
            done = nd;
        }
        g = g + 1;
    }
    assert(gv.take(groups.len() as int) =~= gv);
    rows
}

/// The rows of the voters of the voter list `voter_host_ports`, for when
/// the node group configuration cannot be read: every entry of an item,
/// between `|` and `,`, that reads as `host:port`, as a voter of group 0
/// named `voter-{i}` after its item, written at `now`.
pub fn voter_entities(cluster: &str, voter_host_ports: &Vec<String>, now: i64) -> (rows: Vec<TopologyTxEntity>)
    ensures
        rows@.len() == voter_rows(voter_host_ports.deep_view()).len(),
        forall|i: int| 0 <= i < rows@.len() ==> voter_row_is(#[trigger] rows@[i], cluster@, voter_rows(voter_host_ports.deep_view())[i], now),
{
    proof {
        reveal_strlit("voter-");
    }
    let ghost items = voter_host_ports.deep_view();
    let ghost gv = Seq::new(items.len(), |i: int| parsed_entries(voter_pieces(items[i])).map_values(|hp: (Seq<char>, i32)| (i, hp.0, hp.1)));
    let ghost mut done: Seq<(int, Seq<char>, i32)> = Seq::empty();
    let mut rows: Vec<TopologyTxEntity> = Vec::new();
    let mut g: usize = 0;
    while g < voter_host_ports.len()
        invariant
            0 <= g <= voter_host_ports.len(),
            items == voter_host_ports.deep_view(),
            gv == Seq::new(items.len(), |i: int| parsed_entries(voter_pieces(items[i])).map_values(|hp: (Seq<char>, i32)| (i, hp.0, hp.1))),
            done == gv.take(g as int).flatten(),
            rows@.len() == done.len(),
            forall|i: int| 0 <= i < rows@.len() ==> voter_row_is(#[trigger] rows@[i], cluster@, done[i], now),
        decreases voter_host_ports.len() - g,
    {
        let pieces = voter_piece_list(voter_host_ports[g].as_str());
        let ghost row = gv[g as int];
        assert(row == parsed_entries(pieces.deep_view()).map_values(|hp: (Seq<char>, i32)| (g as int, hp.0, hp.1)));
        let mut name = String::from_str("voter-");
        name.append(u64_to_string(g as u64).as_str());
        let ghost base = rows@.len();
        let ghost mut found: Seq<(Seq<char>, i32)> = Seq::empty();
        let mut k: usize = 0;
        while k < pieces.len()
            invariant
                0 <= k <= pieces.len(),
                name@ == "voter-"@ + decimal(g as nat),
                found == parsed_entries(pieces.deep_view().take(k as int)),
                rows@.len() == base + found.len(),
                base == done.len(),
                forall|i: int| 0 <= i < base ==> voter_row_is(#[trigger] rows@[i], cluster@, done[i], now),
                forall|i: int| base <= i < base + found.len() ==> voter_row_is(#[trigger] rows@[i], cluster@,
                    (g as int, found[i - base].0, found[i - base].1), now),
            decreases pieces.len() - k,
        {
            proof {
                assert(pieces.deep_view().take(k + 1).drop_last() =~= pieces.deep_view().take(k as int));
                assert(pieces.deep_view().take(k + 1).last() == pieces@[k as int]@);
            }
            match split_once(pieces[k].as_str(), ':') {
                Some((host, port_str)) => {
                    match parse_i32(port_str.as_str()) {
                        Some(port) => {
                            rows.push(tx_entity(cluster, 0, 0, copy_string(&name), ROLE_VOTER, host, port, now));
                            proof {
                                found = found.push((host@, port));
                            }
                        },
                        None => {},
                    }
                },
                None => {},
            }
            k = k + 1;
        }
        proof {
            assert(pieces.deep_view().take(pieces.len() as int) =~= pieces.deep_view());
            assert(gv.take(g + 1) =~= gv.take(g as int).push(row));
            gv.take(g as int).lemma_flatten_push(row);
            let nd = done + row;
            assert forall|i: int| 0 <= i < rows@.len() implies voter_row_is(#[trigger] rows@[i], cluster@, nd[i], now) by {
                if i >= base {
                    assert(nd[i] == row[i - base]);
                }
            }
            done = nd;
        }
        g = g + 1;
    }
    assert(gv.take(voter_host_ports.len() as int) =~= gv);
    rows
}

/// The rows of the transaction nodes: from the node group configuration
/// where it could be read (`parsed`), else from the voters of the voter
/// list where there is one, else none.
pub fn extract_tx_topology(cluster: &str, parsed: Result<Vec<NodeGroupConfig>, String>, voter_host_ports: &Option<Vec<String>>, now: i64)
    -> (rows: Vec<TopologyTxEntity>)
    ensures
        match parsed {
            Ok(groups) => rows@.len() == group_rows(groups@).len() && forall|i: int| 0 <= i < rows@.len() ==> {
                let (k, j) = group_rows(groups@)[i];
                node_row_is(#[trigger] rows@[i], cluster@, groups@.len() as int, groups@[k].ng_id, groups@[k].nodes@[j], now)
            },
            Err(_) => match voter_host_ports {
                Some(v) => rows@.len() == voter_rows(v.deep_view()).len() && forall|i: int| 0 <= i < rows@.len()
                    ==> voter_row_is(#[trigger] rows@[i], cluster@, voter_rows(v.deep_view())[i], now),
                None => rows@.len() == 0,
            },
        },
{
    match parsed {
        Ok(groups) => tx_entities_from_groups(cluster, &groups, now),
        Err(_) => match voter_host_ports {
            Some(v) => voter_entities(cluster, v, now),
            None => Vec::new(),
        },
    }
}

/// A stored row of the log service topology; times in seconds.
#[derive(Clone, Debug)]
pub struct TopologyLogEntity {
    pub cluster_name: String,
    pub node_group_count: i32,
    pub node_group_id: i32,
    pub node_id: String,
    pub host: String,
    pub port: i32,
    pub data_dirs: Option<String>,
    pub create_timestamp: i64,
    pub update_timestamp: i64,
}

/// The rows of the log service's hosts: one per host, in order, the host's
/// index as its group id and in its name `log-{i}`, its data directories
/// joined by commas, written at `now`; none without a log service.
pub fn extract_log_topology(cluster: &str, log_service: &Option<LogService>, now: i64) -> (rows: Vec<TopologyLogEntity>)
    ensures
        match log_service {
            None => rows@.len() == 0,
            Some(ls) => rows@.len() == ls.nodes@.len() && forall|i: int| 0 <= i < rows@.len() ==> {
                let e = #[trigger] rows@[i];
                let n = ls.nodes@[i];
                &&& e.cluster_name@ == cluster@
                &&& e.node_group_count == ls.nodes@.len() as i32
                &&& e.node_group_id == i as i32
                &&& e.node_id@ == "log-"@ + decimal(i as nat)
                &&& e.host@ == n.host@
                &&& e.port == n.port
                &&& e.data_dirs matches Some(d) && d@ == seq_join(n.data_dir.deep_view(), ","@)
                &&& e.create_timestamp == now
                &&& e.update_timestamp == now
            },
        },
{
    proof {
        reveal_strlit("log-");
    }
    let mut rows: Vec<TopologyLogEntity> = Vec::new();
    match log_service {
        None => rows,
        Some(ls) => {
            let count = ls.nodes.len() as i32;
            let mut i: usize = 0;
            while i < ls.nodes.len()
                invariant
                    0 <= i <= ls.nodes.len(),
                    count == ls.nodes@.len() as i32,
                    rows@.len() == i,
                    forall|k: int| 0 <= k < i ==> {
                        let e = #[trigger] rows@[k];
                        let n = ls.nodes@[k];
                        &&& e.cluster_name@ == cluster@
                        &&& e.node_group_count == ls.nodes@.len() as i32
                        &&& e.node_group_id == k as i32
                        &&& e.node_id@ == "log-"@ + decimal(k as nat)
                        &&& e.host@ == n.host@
                        &&& e.port == n.port
                        &&& e.data_dirs matches Some(d) && d@ == seq_join(n.data_dir.deep_view(), ","@)
                        &&& e.create_timestamp == now
                        &&& e.update_timestamp == now
                    },
                decreases ls.nodes.len() - i,
            {
                let node = &ls.nodes[i];
                let mut name = String::from_str("log-");
                name.append(u64_to_string(i as u64).as_str());
                rows.push(TopologyLogEntity {
                    cluster_name: String::from_str(cluster),
                    node_group_count: count,
                    node_group_id: i as i32,
                    node_id: name,
                    host: copy_string(&node.host),
                    port: node.port as i32,
                    data_dirs: Some(join_strings(&node.data_dir, ",")),
                    create_timestamp: now,
                    update_timestamp: now,
                });
                i = i + 1;
            }
            rows
        },
    }
}

/// A stored transaction row as the topology display shows it: a master
/// leads its group, and every node but a voter is a candidate.
pub fn display_node(e: &TopologyTxEntity) -> (n: TopologyNode)
    ensures
        n.node_group_id == e.node_group_id,
        n.node_id@ == e.node_id@,
        n.host@ == e.host@,
        n.port == e.port,
        n.is_master == (e.role == ROLE_MASTER),
        n.is_candidate == (e.role != ROLE_VOTER),
{
    TopologyNode {
        node_group_id: e.node_group_id,
        node_id: copy_string(&e.node_id),
        host: copy_string(&e.host),
        port: e.port,
        is_master: e.role == ROLE_MASTER,
        is_candidate: e.role != ROLE_VOTER,
    }
}

/// The name the update task reports itself under.
pub const TOPOLOGY_UPDATE_CMD: &'static str = "topology-update";

/// The rows the update writes first, before it waits for the live
/// cluster: the transaction rows (`extract_tx_topology`) and the log
/// service rows (`extract_log_topology`), each to be written in turn.
pub fn update_rows(cluster: &str, parsed: Result<Vec<NodeGroupConfig>, String>, voters: &Option<Vec<String>>,
    log_service: &Option<LogService>, now: i64) -> (r: (Vec<TopologyTxEntity>, Vec<TopologyLogEntity>))
    ensures
        match parsed {
            Ok(groups) => r.0@.len() == group_rows(groups@).len() && forall|i: int| 0 <= i < r.0@.len() ==> {
                let (k, j) = group_rows(groups@)[i];
                node_row_is(#[trigger] r.0@[i], cluster@, groups@.len() as int, groups@[k].ng_id, groups@[k].nodes@[j], now)
            },
            Err(_) => match voters {
                Some(v) => r.0@.len() == voter_rows(v.deep_view()).len() && forall|i: int| 0 <= i < r.0@.len()
                    ==> voter_row_is(#[trigger] r.0@[i], cluster@, voter_rows(v.deep_view())[i], now),
                None => r.0@.len() == 0,
            },
        },
        match log_service {
            None => r.1@.len() == 0,
            Some(ls) => r.1@.len() == ls.nodes@.len() && forall|i: int| 0 <= i < r.1@.len() ==> {
                let e = #[trigger] r.1@[i];
                let n = ls.nodes@[i];
                &&& e.cluster_name@ == cluster@
                &&& e.node_group_count == ls.nodes@.len() as i32
                &&& e.node_group_id == i as i32
                &&& e.node_id@ == "log-"@ + decimal(i as nat)
                &&& e.host@ == n.host@
                &&& e.port == n.port
                &&& e.data_dirs matches Some(d) && d@ == seq_join(n.data_dir.deep_view(), ","@)
                &&& e.create_timestamp == now
                &&& e.update_timestamp == now
            },
        },
{
    let tx = extract_tx_topology(cluster, parsed, voters, now);
    let log = extract_log_topology(cluster, log_service, now);
    (tx, log)
}

/// The query for the stored rows of a leader of the live cluster: its host,
/// its port and the replica role, the rows it is to be promoted from.
pub fn replica_query(ip: &str, port: u16) -> (q: (String, i32, i32))
    ensures
        q.0@ == ip@,
        q.1 == port as i32,
        q.2 == ROLE_REPLICA,
{
    (String::from_str(ip), port as i32, ROLE_REPLICA)
}

/// The tally of an update: the writes that went through and those that did not.
#[derive(Clone, Copy, Debug, PartialEq, Eq, Structural)]
pub struct UpdateTally {
    pub success: u64,
    pub failure: u64,
}

/// What the update learns next.
#[derive(Debug)]
pub enum UpdateEvent {
    /// A row was written, or failed to be.
    Written(bool),
    /// The live cluster's reply could not be received, for this cause.
    ChannelFailed(String),
    /// For a leader of the live cluster, the stored replica rows at its host
    /// and port, or the cause the query failed.
    Replicas(Result<Vec<TopologyTxEntity>, String>),
    /// Every leader has been handled.
    Done,
}

/// What the update does next.
#[derive(Debug)]
pub enum UpdateAction {
    /// Wait for the next event.
    Wait,
    /// Write these rows, one event each.
    Write(Vec<TopologyTxEntity>),
    /// Finish with this status and output.
    Report(u64, String),
}

/// The final report: status 1 if any write or query failed, else 0, and the counts.
pub open spec fn report_spec(cluster: Seq<char>, t: UpdateTally) -> (u64, Seq<char>) {
    (if t.failure > 0 { 1u64 } else { 0u64 },
        "Topology update from Redis completed for cluster "@ + cluster + ". Updated "@ + decimal(t.success as nat)
            + " entries, "@ + decimal(t.failure as nat) + " failures."@)
}

/// The stored replica row made a leader: role master, updated at `now`,
/// all else kept.
pub open spec fn promoted(old_row: TopologyTxEntity, new_row: TopologyTxEntity, now: i64) -> bool {
    &&& new_row.cluster_name@ == old_row.cluster_name@
    &&& new_row.node_group_count == old_row.node_group_count
    &&& new_row.node_group_id == old_row.node_group_id
    &&& new_row.node_id@ == old_row.node_id@
    &&& new_row.role == ROLE_MASTER
    &&& new_row.host@ == old_row.host@
    &&& new_row.port == old_row.port
    &&& new_row.create_timestamp == old_row.create_timestamp
    &&& new_row.update_timestamp == now
}

impl UpdateTally {
    /// Nothing written yet.
    pub fn new() -> (t: Self)
        ensures
            t.success == 0 && t.failure == 0,
    {
        UpdateTally { success: 0, failure: 0 }
    }

    /// The next tally and action of the update of `cluster` on `event`: a
    /// write counts as a success or a failure; a failed query counts as a
    /// failure; the replica rows found for a leader are written back as
    /// masters at `now`; a failed channel ends the update with status 1
    /// and its cause; the end reports the counts, status 1 iff anything failed.
    pub fn step(self, cluster: &str, now: i64, event: UpdateEvent) -> (r: (UpdateTally, UpdateAction))
        requires
            self.success < u64::MAX,
            self.failure < u64::MAX,
        ensures
            match event {
                UpdateEvent::Written(ok) => r.0 == (if ok { UpdateTally { success: (self.success + 1) as u64, ..self } }
                    else { UpdateTally { failure: (self.failure + 1) as u64, ..self } }) && r.1 is Wait,
                UpdateEvent::ChannelFailed(cause) => r.0 == self && (r.1 matches UpdateAction::Report(s, out)
                    && s == 1 && out@ == "Failed to receive cluster nodes from channel: "@ + cause@),
                UpdateEvent::Replicas(Err(_)) => r.0 == UpdateTally { failure: (self.failure + 1) as u64, ..self } && r.1 is Wait,
                UpdateEvent::Replicas(Ok(found)) => r.0 == self && (r.1 matches UpdateAction::Write(rows)
                    && rows@.len() == found@.len()
                    && forall|i: int| 0 <= i < rows@.len() ==> promoted(found@[i], #[trigger] rows@[i], now)),
                UpdateEvent::Done => r.0 == self && (r.1 matches UpdateAction::Report(s, out)
                    && (s, out@) == report_spec(cluster@, self)),
            },
    {
        proof {
            reveal_strlit("Failed to receive cluster nodes from channel: ");
            reveal_strlit("Topology update from Redis completed for cluster ");
            reveal_strlit(". Updated ");
            reveal_strlit(" entries, ");
            reveal_strlit(" failures.");
        }
        match event {
            UpdateEvent::Written(ok) => {
                if ok {
                    (UpdateTally { success: self.success + 1, ..self }, UpdateAction::Wait)
                } else {
                    (UpdateTally { failure: self.failure + 1, ..self }, UpdateAction::Wait)
                }
            },
            UpdateEvent::ChannelFailed(cause) => {
                let mut msg = String::from_str("Failed to receive cluster nodes from channel: ");
                msg.append(cause.as_str());
                (self, UpdateAction::Report(1, msg))
            },
            UpdateEvent::Replicas(Err(_)) => (UpdateTally { failure: self.failure + 1, ..self }, UpdateAction::Wait),
            UpdateEvent::Replicas(Ok(found)) => {
                let mut rows: Vec<TopologyTxEntity> = Vec::new();
                let mut i: usize = 0;
                while i < found.len()
                    invariant
                        0 <= i <= found.len(),
                        rows@.len() == i,
                        forall|k: int| 0 <= k < i ==> promoted(found@[k], #[trigger] rows@[k], now),
                    decreases found.len() - i,
                {
                    let e = &found[i];
                    rows.push(TopologyTxEntity {
                        cluster_name: copy_string(&e.cluster_name),
                        node_group_count: e.node_group_count,
                        node_group_id: e.node_group_id,
                        node_id: copy_string(&e.node_id),
                        role: ROLE_MASTER,
                        host: copy_string(&e.host),
                        port: e.port,
                        create_timestamp: e.create_timestamp,
                        update_timestamp: now,
                    });
                    i = i + 1;
                }
                (self, UpdateAction::Write(rows))
            },
            UpdateEvent::Done => {
                let mut out = String::from_str("Topology update from Redis completed for cluster ");
                out.append(cluster);
                out.append(". Updated ");
                out.append(u64_to_string(self.success).as_str());
                out.append(" entries, ");
                out.append(u64_to_string(self.failure).as_str());
                out.append(" failures.");
                (self, UpdateAction::Report(if self.failure > 0 { 1 } else { 0 }, out))
            },
        }
    }
}

} // verus!
