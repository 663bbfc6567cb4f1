//! The disks of the log-service nodes as a matrix (a row per disk position, a
//! column per node in host order), and the log groups read off that matrix.
use crate::config::log_service::{
    assoc_find, find_port, health_url_text, members_view, usage_view, LogGroupMember, LogServiceNode,
    MemberView,
};
use crate::text::{copy_string, seq_lt, str_eq, str_lt, u64_to_string, lemma_seq_lt_transitive};
use std::collections::HashMap;
use vstd::prelude::*;

verus! {

broadcast use vstd::std_specs::hash::group_hash_axioms;

/// A disk of a node: the node's place in host order, its host, the disk's
/// place on the node and the disk's path.
#[derive(PartialEq, Eq, Debug, Clone)]
pub struct NodeDiskIndexPair {
    pub host_idx: i32,
    pub host: String,
    pub dist_idx: i32,
    pub disk: String,
}

/// The contents of a matrix cell.
pub struct PairView {
    pub host_idx: i32,
    pub host: Seq<char>,
    pub dist_idx: i32,
    pub disk: Seq<char>,
}

impl View for NodeDiskIndexPair {
    type V = PairView;

    open spec fn view(&self) -> PairView {
        PairView { host_idx: self.host_idx, host: self.host@, dist_idx: self.dist_idx, disk: self.disk@ }
    }
}

/// The cell of a disk position that a node does not have.
pub open spec fn default_pair() -> PairView {
    PairView { host_idx: i32::MIN, host: "_NONE_HOST_"@, dist_idx: i32::MIN, disk: "_NONE_DISK_"@ }
}

impl Default for NodeDiskIndexPair {
    /// The empty cell: no host, no disk.
    fn default() -> (p: Self)
        ensures
            p@ == default_pair(),
    {
        NodeDiskIndexPair {
            host_idx: i32::MIN,
            host: String::from_str("_NONE_HOST_"),
            dist_idx: i32::MIN,
            disk: String::from_str("_NONE_DISK_"),
        }
    }
}

/// Whether a cell is the empty cell.
fn is_default_pair(p: &NodeDiskIndexPair) -> (b: bool)
    ensures
        b == (p@ == default_pair()),
{
    proof {
        reveal_strlit("_NONE_HOST_");
        reveal_strlit("_NONE_DISK_");
    }
    p.host_idx == i32::MIN && str_eq(p.host.as_str(), "_NONE_HOST_") && p.dist_idx == i32::MIN
        && str_eq(p.disk.as_str(), "_NONE_DISK_")
}

// ---------------------------------------------------------------------------
// Host order: a stable sort of the nodes by host.
// ---------------------------------------------------------------------------

/// The place where `key` goes among the indices `order`: before the first
/// whose host sorts after `key`, so that equal hosts keep their order.
pub open spec fn insert_pos(order: Seq<int>, hosts: Seq<Seq<char>>, key: Seq<char>) -> int
    decreases order.len(),
{
    if order.len() == 0 {
        0
    } else if seq_lt(key, hosts[order[0]]) {
        0
    } else {
        1 + insert_pos(order.drop_first(), hosts, key)
    }
}

/// The indices `0..n` sorted by host, equal hosts in their original order,
/// as a stable sort by host orders them.
pub open spec fn host_order(hosts: Seq<Seq<char>>, n: nat) -> Seq<int>
    decreases n,
{
    if n == 0 {
        Seq::empty()
    } else {
        let o = host_order(hosts, (n - 1) as nat);
        o.insert(insert_pos(o, hosts, hosts[n - 1]), n - 1)
    }
}

/// The hosts of the nodes.
pub open spec fn hosts_of_nodes(nodes: Seq<LogServiceNode>) -> Seq<Seq<char>> {
    nodes.map_values(|n: LogServiceNode| n.host@)
}

/// The indices sorted so far are sorted by host.
pub open spec fn sorted_by_host(order: Seq<int>, hosts: Seq<Seq<char>>) -> bool {
    forall|a: int, b: int| 0 <= a < b < order.len() ==> !seq_lt(#[trigger] hosts[order[b]], #[trigger] hosts[order[a]])
}

proof fn lemma_insert_pos_bounds(order: Seq<int>, hosts: Seq<Seq<char>>, key: Seq<char>)
    ensures
        0 <= insert_pos(order, hosts, key) <= order.len(),
        forall|a: int| 0 <= a < insert_pos(order, hosts, key) ==> !seq_lt(key, #[trigger] hosts[order[a]]),
        insert_pos(order, hosts, key) < order.len() ==> seq_lt(key, hosts[order[insert_pos(order, hosts, key)]]),
    decreases order.len(),
{
    if order.len() > 0 && !seq_lt(key, hosts[order[0]]) {
        lemma_insert_pos_bounds(order.drop_first(), hosts, key);
        assert forall|a: int| 0 <= a < insert_pos(order, hosts, key) implies !seq_lt(key, #[trigger] hosts[order[a]]) by {
            if a > 0 {
                assert(order.drop_first()[a - 1] == order[a]);
            }
        }
    }
}

/// The host order is a sort by host: a later index never has a host that
/// sorts before an earlier one's.
pub proof fn lemma_host_order_sorted(hosts: Seq<Seq<char>>, n: nat)
    requires
        n <= hosts.len(),
    ensures
        host_order(hosts, n).len() == n,
        sorted_by_host(host_order(hosts, n), hosts),
        forall|a: int| 0 <= a < n ==> 0 <= #[trigger] host_order(hosts, n)[a] < n,
    decreases n,
{
    if n > 0 {
        let o = host_order(hosts, (n - 1) as nat);
        lemma_host_order_sorted(hosts, (n - 1) as nat);
        let key = hosts[n - 1];
        let p = insert_pos(o, hosts, key);
        lemma_insert_pos_bounds(o, hosts, key);
        let o2 = o.insert(p, n - 1);
        assert(o2 == host_order(hosts, n));
        assert forall|a: int, b: int| 0 <= a < b < o2.len() implies !seq_lt(#[trigger] hosts[o2[b]], #[trigger] hosts[o2[a]]) by {
            if a < p && b < p {
                assert(o2[a] == o[a] && o2[b] == o[b]);
            } else if a < p && b == p {
                assert(o2[a] == o[a]);
                assert(!seq_lt(key, hosts[o[a]]));
            } else if a < p {
                assert(o2[a] == o[a] && o2[b] == o[b - 1]);
            } else if a == p {
                assert(o2[b] == o[b - 1]);
                if b - 1 > p {
                    assert(!seq_lt(hosts[o[b - 1]], hosts[o[p]]));
                    assert(seq_lt(key, hosts[o[p]]));
                    if seq_lt(hosts[o[b - 1]], key) {
                        lemma_seq_lt_transitive(hosts[o[b - 1]], key, hosts[o[p]]);
                    }
                } else {
                    assert(seq_lt(key, hosts[o[p]]));
                    lemma_seq_lt_asym(key, hosts[o[p]]);
                }
            } else {
                assert(o2[a] == o[a - 1] && o2[b] == o[b - 1]);
            }
        }
        assert forall|a: int| 0 <= a < n implies 0 <= #[trigger] o2[a] < n by {
            if a < p {
                assert(o2[a] == o[a]);
            } else if a > p {
                assert(o2[a] == o[a - 1]);
            }
        }
    }
}

proof fn lemma_seq_lt_asym(a: Seq<char>, b: Seq<char>)
    requires
        seq_lt(a, b),
    ensures
        !seq_lt(b, a),
{
    crate::text::lemma_seq_lt_asymmetric(a, b);
}

/// The indices of the nodes in host order.
fn sorted_host_order(nodes: &Vec<LogServiceNode>) -> (order: Vec<usize>)
    ensures
        order@.len() == nodes@.len(),
        forall|a: int| 0 <= a < order@.len() ==> order@[a] as int == #[trigger] host_order(hosts_of_nodes(nodes@), nodes@.len() as nat)[a],
{
    let ghost hosts = hosts_of_nodes(nodes@);
    let mut order: Vec<usize> = Vec::new();
    let mut k: usize = 0;
    while k < nodes.len()
        invariant
            0 <= k <= nodes.len(),
            hosts == hosts_of_nodes(nodes@),
            order@.len() == k,
            order@.map_values(|x: usize| x as int) == host_order(hosts, k as nat),
            forall|a: int| 0 <= a < k ==> 0 <= #[trigger] order@[a] < k,
        decreases nodes.len() - k,
    {
        let ghost o = order@.map_values(|x: usize| x as int);
        let key = &nodes[k].host;
        assert(hosts[k as int] == key@);
        assert(o.skip(0) =~= o);
        let mut p: usize = 0;
        while p < order.len() && !str_lt(key.as_str(), nodes[order[p]].host.as_str())
            invariant
                0 <= p <= order@.len(),
                order@.len() == k,
                k < nodes.len(),
                hosts == hosts_of_nodes(nodes@),
                o == order@.map_values(|x: usize| x as int),
                forall|a: int| 0 <= a < k ==> 0 <= #[trigger] order@[a] < k,
                key@ == hosts[k as int],
                insert_pos(o, hosts, key@) == p + insert_pos(o.skip(p as int), hosts, key@),
            decreases order@.len() - p,
        {
            assert(hosts[o[p as int]] == nodes@[order@[p as int] as int].host@);
            assert(o.skip(p as int).drop_first() =~= o.skip(p + 1));
            assert(o.skip(p as int)[0] == o[p as int]);
            p = p + 1;
        }
        proof {
            if p < order@.len() {
                assert(hosts[o[p as int]] == nodes@[order@[p as int] as int].host@);
                assert(o.skip(p as int)[0] == o[p as int]);
            } else {
                assert(o.skip(p as int).len() == 0);
            }
            assert(o.skip(0) =~= o);
        }
        let ghost before = order@;
        order.insert(p, k);
        proof {
            assert(order@.map_values(|x: usize| x as int) =~= o.insert(p as int, k as int));
            assert(host_order(hosts, (k + 1) as nat) == o.insert(insert_pos(o, hosts, hosts[k as int]), k as int));
            assert forall|a: int| 0 <= a < k + 1 implies 0 <= #[trigger] order@[a] < k + 1 by {
                if a < p {
                    assert(order@[a] == before[a]);
                } else if a > p {
                    assert(order@[a] == before[a - 1]);
                }
            }
        }
        k = k + 1;
    }
    proof {
        assert forall|a: int| 0 <= a < order@.len() implies order@[a] as int == #[trigger] host_order(hosts, nodes@.len() as nat)[a] by {
            assert(order@.map_values(|x: usize| x as int)[a] == order@[a] as int);
        }
    }
    order
}

// ---------------------------------------------------------------------------
// The matrix.
// ---------------------------------------------------------------------------

/// The largest number of disks of a node.
pub open spec fn max_disks(nodes: Seq<LogServiceNode>) -> nat
    decreases nodes.len(),
{
    if nodes.len() == 0 {
        0
    } else {
        let m = max_disks(nodes.drop_last());
        let d = nodes.last().data_dir@.len();
        if d > m { d } else { m }
    }
}

/// The cell at disk position `row` of the node in column `k`: that disk, or
/// the empty cell where the node has fewer disks.
pub open spec fn matrix_cell(nodes: Seq<LogServiceNode>, order: Seq<int>, row: int, k: int) -> PairView {
    let node = nodes[order[k]];
    if row < node.data_dir@.len() {
        PairView { host_idx: k as i32, host: node.host@, dist_idx: row as i32, disk: node.data_dir@[row]@ }
    } else {
        default_pair()
    }
}

/// The matrix of disks: a row per disk position, a column per node in host order.
pub open spec fn disk_matrix(nodes: Seq<LogServiceNode>) -> Seq<Seq<PairView>> {
    let order = host_order(hosts_of_nodes(nodes), nodes.len() as nat);
    Seq::new(max_disks(nodes), |row: int| Seq::new(nodes.len(), |k: int| matrix_cell(nodes, order, row, k)))
}

/// The contents of a matrix.
pub open spec fn matrix_view(m: Seq<Vec<NodeDiskIndexPair>>) -> Seq<Seq<PairView>> {
    m.map_values(|row: Vec<NodeDiskIndexPair>| row@.map_values(|p: NodeDiskIndexPair| p@))
}

fn largest_disk_count(nodes: &Vec<LogServiceNode>) -> (m: usize)
    ensures
        m == max_disks(nodes@),
{
    let mut m: usize = 0;
    let mut i: usize = 0;
    while i < nodes.len()
        invariant
            0 <= i <= nodes.len(),
            m == max_disks(nodes@.take(i as int)),
        decreases nodes.len() - i,
    {
        assert(nodes@.take(i + 1).drop_last() =~= nodes@.take(i as int));
        let d = nodes[i].data_dir.len();
        if d > m {
            m = d;
        }
        i = i + 1;
    }
    assert(nodes@.take(nodes.len() as int) =~= nodes@);
    m
}

/// Builds the matrix of disks of `nodes`.
pub fn build_disk_matrix(nodes: &Vec<LogServiceNode>) -> (matrix: Vec<Vec<NodeDiskIndexPair>>)
    ensures
        matrix_view(matrix@) == disk_matrix(nodes@),
{
    let ghost order_spec = host_order(hosts_of_nodes(nodes@), nodes.len() as nat);
    let order = sorted_host_order(nodes);
    proof {
        lemma_host_order_sorted(hosts_of_nodes(nodes@), nodes.len() as nat);
    }
    let rows = largest_disk_count(nodes);
    let cols = nodes.len();
    let mut matrix: Vec<Vec<NodeDiskIndexPair>> = Vec::new();
    let mut row: usize = 0;
    while row < rows
        invariant
            0 <= row <= rows,
            rows == max_disks(nodes@),
            cols == nodes@.len(),
            order@.len() == cols,
            order_spec == host_order(hosts_of_nodes(nodes@), nodes.len() as nat),
            forall|a: int| 0 <= a < cols ==> order@[a] as int == #[trigger] order_spec[a],
            forall|a: int| 0 <= a < cols ==> 0 <= #[trigger] order_spec[a] < cols,
            matrix@.len() == row,
            forall|r: int| 0 <= r < row ==> (#[trigger] matrix@[r])@.map_values(|p: NodeDiskIndexPair| p@)
                == Seq::new(cols as nat, |k: int| matrix_cell(nodes@, order_spec, r, k)),
        decreases rows - row,
    {
        let mut item: Vec<NodeDiskIndexPair> = Vec::new();
        let mut node_idx: usize = 0;
        while node_idx < cols
            invariant
                0 <= node_idx <= cols,
                row < rows,
                cols == nodes@.len(),
                order@.len() == cols,
                forall|a: int| 0 <= a < cols ==> order@[a] as int == #[trigger] order_spec[a],
                forall|a: int| 0 <= a < cols ==> 0 <= #[trigger] order_spec[a] < cols,
                item@.len() == node_idx,
                forall|k: int| 0 <= k < node_idx ==> (#[trigger] item@[k])@ == matrix_cell(nodes@, order_spec, row as int, k),
            decreases cols - node_idx,
        {
            assert(order@[node_idx as int] as int == order_spec[node_idx as int]);
            let node = &nodes[order[node_idx]];
            let storage = &node.data_dir;
            let cell = if row < storage.len() {
                NodeDiskIndexPair {
                    host_idx: #[verifier::truncate] (node_idx as i32),
                    host: copy_string(&node.host),
                    dist_idx: #[verifier::truncate] (row as i32),
                    disk: copy_string(&storage[row]),
                }
            } else {
                NodeDiskIndexPair::default()
            };
            item.push(cell);
            node_idx = node_idx + 1;
        }
        assert(item@.map_values(|p: NodeDiskIndexPair| p@) =~= Seq::new(cols as nat, |k: int| matrix_cell(nodes@, order_spec, row as int, k)));
        matrix.push(item);
        row = row + 1;
    }
    assert(matrix_view(matrix@) =~= disk_matrix(nodes@));
    matrix
}

// ---------------------------------------------------------------------------
// Log groups read off the matrix.
//
// The cells are read row after row. Each cell becomes a member of the group
// being filled; after `r + 1` members the next cell starts a new group. At
// the end of a row, what was collected in it is stored under the current
// group id and the id moves on. An empty cell ends the reading.
// ---------------------------------------------------------------------------

/// The state of the reading.
pub struct MembershipState {
    pub group_id: int,
    pub member_idx: int,
    pub usage: Seq<(Seq<char>, u16)>,
    pub collect: Seq<MemberView>,
    pub members: Map<usize, Seq<MemberView>>,
    pub stopped: bool,
    pub ok: bool,
}

/// Nothing read yet.
pub open spec fn initial_state() -> MembershipState {
    MembershipState {
        group_id: 0,
        member_idx: 0,
        usage: Seq::empty(),
        collect: Seq::empty(),
        members: Map::empty(),
        stopped: false,
        ok: true,
    }
}

/// The state after the member of `cell` is read, the cell's node having
/// `node_port` as its port. `ok` turns false where a port would pass 65535
/// or a counter would pass `usize::MAX`.
pub open spec fn cell_step(st: MembershipState, cell: PairView, node_port: u16, r: nat) -> MembershipState {
    let found = assoc_find(st.usage, cell.host);
    let port_int: int = match found {
        None => node_port as int,
        Some(p) => p + (st.group_id + st.member_idx) % 65536,
    };
    let port = port_int as u16;
    let m = MemberView {
        node_id: st.member_idx as usize,
        group_id: st.group_id as usize,
        member_host: cell.host,
        port,
        storage_path: cell.disk,
        check_health_url: health_url_text("http://"@, cell.host, port),
    };
    let advance = st.member_idx < r;
    MembershipState {
        group_id: if advance { st.group_id } else { st.group_id + 1 },
        member_idx: if advance { st.member_idx + 1 } else { 0 },
        usage: match found {
            None => st.usage.push((cell.host, node_port)),
            Some(_) => st.usage,
        },
        collect: st.collect.push(m),
        members: st.members,
        stopped: false,
        ok: st.ok && (found is Some ==> st.group_id + st.member_idx <= usize::MAX && port_int <= 65535)
            && (if advance { st.member_idx + 1 <= usize::MAX } else { st.group_id + 1 <= usize::MAX }),
    }
}

/// The state at the end of a row: what the row collected is stored under the
/// group id, and the id moves on.
pub open spec fn finish_row(st: MembershipState) -> MembershipState {
    MembershipState {
        group_id: st.group_id + 1,
        member_idx: 0,
        usage: st.usage,
        collect: Seq::empty(),
        members: st.members.insert(st.group_id as usize, st.collect),
        stopped: false,
        ok: st.ok && st.group_id + 1 <= usize::MAX,
    }
}

/// The state after the rows before `i` and the first `j` cells of row `i`
/// are read; `ports[k]` is the port of the node in column `k`.
pub open spec fn state_at(m: Seq<Seq<PairView>>, ports: Seq<u16>, r: nat, i: nat, j: nat) -> MembershipState
    decreases i, j,
{
    if j > 0 {
        let st = state_at(m, ports, r, i, (j - 1) as nat);
        let cell = m[i as int][j - 1];
        if st.stopped {
            st
        } else if cell == default_pair() {
            MembershipState { stopped: true, ..st }
        } else {
            cell_step(st, cell, ports[cell.host_idx as int], r)
        }
    } else if i > 0 {
        let st = state_at(m, ports, r, (i - 1) as nat, m[i - 1].len());
        if st.stopped { st } else { finish_row(st) }
    } else {
        initial_state()
    }
}

/// The state once the whole matrix is read.
pub open spec fn final_state(m: Seq<Seq<PairView>>, ports: Seq<u16>, r: nat) -> MembershipState {
    state_at(m, ports, r, m.len(), 0)
}

/// Once the reading has stopped, nothing changes any more.
proof fn lemma_stopped_stays(m: Seq<Seq<PairView>>, ports: Seq<u16>, r: nat, i: nat, j: nat)
    requires
        i < m.len() && j <= m[i as int].len() || i == m.len() && j == 0,
        state_at(m, ports, r, i, j).stopped,
    ensures
        final_state(m, ports, r) == state_at(m, ports, r, i, j),
    decreases m.len() - i, m[i as int].len() - j,
{
    if i < m.len() {
        if j < m[i as int].len() {
            assert(state_at(m, ports, r, i, j + 1) == state_at(m, ports, r, i, j));
            lemma_stopped_stays(m, ports, r, i, j + 1);
        } else {
            assert(state_at(m, ports, r, i + 1, 0) == state_at(m, ports, r, i, j));
            lemma_stopped_stays(m, ports, r, i + 1, 0);
        }
    }
}

/// A reading that ends without an overflow had none along the way.
proof fn lemma_ok_before(m: Seq<Seq<PairView>>, ports: Seq<u16>, r: nat, i: nat, j: nat)
    requires
        i < m.len() && j <= m[i as int].len() || i == m.len() && j == 0,
        final_state(m, ports, r).ok,
    ensures
        state_at(m, ports, r, i, j).ok,
    decreases m.len() - i, m[i as int].len() - j,
{
    if i < m.len() {
        if j < m[i as int].len() {
            lemma_ok_before(m, ports, r, i, j + 1);
        } else {
            lemma_ok_before(m, ports, r, i + 1, 0);
        }
    }
}

/// The members of a map of groups, by their contents.
pub open spec fn groups_match(m: Map<usize, Vec<LogGroupMember>>, s: Map<usize, Seq<MemberView>>) -> bool {
    &&& m.dom() == s.dom()
    &&& forall|k: usize| #[trigger] m.dom().contains(k) ==> members_view(m[k]@) == s[k]
}

/// Reads the log groups off `matrix`, whose column `k` is the node with port
/// `ports[k]`, with groups of `r + 1` members.
pub fn read_memberships(matrix: &Vec<Vec<NodeDiskIndexPair>>, ports: &Vec<u16>, r: usize) -> (members: HashMap<usize, Vec<LogGroupMember>>)
    requires
        forall|i: int, j: int| 0 <= i < matrix@.len() && 0 <= j < matrix@[i]@.len() && matrix@[i]@[j]@ != default_pair()
            ==> 0 <= #[trigger] matrix@[i]@[j]@.host_idx < ports@.len(),
        final_state(matrix_view(matrix@), ports@, r as nat).ok,
    ensures
        groups_match(members@, final_state(matrix_view(matrix@), ports@, r as nat).members),
{
    let ghost mv = matrix_view(matrix@);
    let mut members: HashMap<usize, Vec<LogGroupMember>> = HashMap::new();
    let mut group_id: usize = 0;
    let mut usage: Vec<(String, u16)> = Vec::new();
    let mut i: usize = 0;
    while i < matrix.len()
        invariant
            0 <= i <= matrix.len(),
            mv == matrix_view(matrix@),
            forall|a: int, b: int| 0 <= a < matrix@.len() && 0 <= b < matrix@[a]@.len() && matrix@[a]@[b]@ != default_pair()
                ==> 0 <= #[trigger] matrix@[a]@[b]@.host_idx < ports@.len(),
            final_state(mv, ports@, r as nat).ok,
            !state_at(mv, ports@, r as nat, i as nat, 0).stopped,
            state_at(mv, ports@, r as nat, i as nat, 0).group_id == group_id,
            state_at(mv, ports@, r as nat, i as nat, 0).member_idx == 0,
            state_at(mv, ports@, r as nat, i as nat, 0).collect == Seq::<MemberView>::empty(),
            state_at(mv, ports@, r as nat, i as nat, 0).usage == usage_view(usage@),
            groups_match(members@, state_at(mv, ports@, r as nat, i as nat, 0).members),
        decreases matrix.len() - i,
    {
        let row = &matrix[i];
        assert(mv[i as int] == row@.map_values(|p: NodeDiskIndexPair| p@));
        let mut member_idx: usize = 0;
        let mut member_collect: Vec<LogGroupMember> = Vec::new();
        let mut j: usize = 0;
        while j < row.len()
            invariant
                0 <= j <= row.len(),
                i < matrix.len(),
                row == &matrix[i as int],
                mv == matrix_view(matrix@),
                mv[i as int] == row@.map_values(|p: NodeDiskIndexPair| p@),
                forall|a: int, b: int| 0 <= a < matrix@.len() && 0 <= b < matrix@[a]@.len() && matrix@[a]@[b]@ != default_pair()
                    ==> 0 <= #[trigger] matrix@[a]@[b]@.host_idx < ports@.len(),
                final_state(mv, ports@, r as nat).ok,
                !state_at(mv, ports@, r as nat, i as nat, j as nat).stopped,
                state_at(mv, ports@, r as nat, i as nat, j as nat).group_id == group_id,
                state_at(mv, ports@, r as nat, i as nat, j as nat).member_idx == member_idx,
                state_at(mv, ports@, r as nat, i as nat, j as nat).collect == members_view(member_collect@),
                state_at(mv, ports@, r as nat, i as nat, j as nat).usage == usage_view(usage@),
                groups_match(members@, state_at(mv, ports@, r as nat, i as nat, j as nat).members),
            decreases row.len() - j,
        {
            let cell = &row[j];
            let ghost st = state_at(mv, ports@, r as nat, i as nat, j as nat);
            assert(mv[i as int][j as int] == cell@);
            if is_default_pair(cell) {
                proof {
                    lemma_stopped_stays(mv, ports@, r as nat, i as nat, (j + 1) as nat);
                }
                return members;
            }
            proof {
                lemma_ok_before(mv, ports@, r as nat, i as nat, (j + 1) as nat);
                assert(matrix@[i as int]@[j as int]@ == cell@);
            }
            let node_idx = cell.host_idx;
            let curr_port = ports[node_idx as usize];
            let port: u16 = match find_port(&usage, &cell.host) {
                None => {
                    let ghost before = usage@;
                    usage.push((copy_string(&cell.host), curr_port));
                    proof {
                        assert(usage_view(usage@) =~= usage_view(before).push((cell.host@, curr_port)));
                    }
                    curr_port
                },
                Some(p) => {
                    let off: u16 = ((group_id + member_idx) % 65536) as u16;
                    p + off
                },
            };
            let member = LogGroupMember {
                node_id: member_idx,
                group_id,
                member_host: copy_string(&cell.host),
                port,
                storage_path: copy_string(&cell.disk),
                check_health_url: health_url(&cell.host, port),
            };
            let ghost before = member_collect@;
            member_collect.push(member);
            assert(members_view(member_collect@) =~= members_view(before).push(member@));
            if member_idx < r {
                member_idx = member_idx + 1;
            } else {
                member_idx = 0;
                group_id = group_id + 1;
            }
            j = j + 1;
        }
        proof {
            lemma_ok_before(mv, ports@, r as nat, (i + 1) as nat, 0);
        }
        let ghost st = state_at(mv, ports@, r as nat, i as nat, row@.len() as nat);
        let ghost collected = members_view(member_collect@);
        let ghost before = members@;
        members.insert(group_id, member_collect);
        proof {
            assert(state_at(mv, ports@, r as nat, (i + 1) as nat, 0) == finish_row(st));
            assert forall|k: usize| #[trigger] members@.dom().contains(k) implies members_view(members@[k]@) == finish_row(st).members[k] by {
                if k != group_id {
                    assert(before.dom().contains(k));
                }
            }
            assert(members@.dom() =~= finish_row(st).members.dom());
        }
        group_id = group_id + 1;
        i = i + 1;
    }
    members
}

/// `http://{host}:{port}/healthz`.
fn health_url(host: &String, port: u16) -> (s: String)
    ensures
        s@ == health_url_text("http://"@, host@, port),
{
    proof {
        reveal_strlit("http://");
        reveal_strlit(":");
        reveal_strlit("/healthz");
    }
    let mut s = String::from_str("http://");
    s.append(host.as_str());
    s.append(":");
    s.append(u64_to_string(port as u64).as_str());
    s.append("/healthz");
    s
}

/// The ports of the nodes in host order.
pub fn ports_in_order(nodes: &Vec<LogServiceNode>) -> (ports: Vec<u16>)
    ensures
        ports@.len() == nodes@.len(),
        forall|k: int| 0 <= k < nodes@.len() ==> #[trigger] ports@[k]
            == nodes@[host_order(hosts_of_nodes(nodes@), nodes@.len() as nat)[k]].port,
{
    let ghost order_spec = host_order(hosts_of_nodes(nodes@), nodes.len() as nat);
    let order = sorted_host_order(nodes);
    proof {
        lemma_host_order_sorted(hosts_of_nodes(nodes@), nodes.len() as nat);
    }
    let mut ports: Vec<u16> = Vec::new();
    let mut k: usize = 0;
    while k < order.len()
        invariant
            0 <= k <= order@.len(),
            order@.len() == nodes@.len(),
            forall|a: int| 0 <= a < order@.len() ==> order@[a] as int == #[trigger] order_spec[a],
            forall|a: int| 0 <= a < order@.len() ==> 0 <= #[trigger] order_spec[a] < nodes@.len(),
            ports@.len() == k,
            forall|a: int| 0 <= a < k ==> #[trigger] ports@[a] == nodes@[order_spec[a]].port,
        decreases order@.len() - k,
    {
        assert(order@[k as int] as int == order_spec[k as int]);
        ports.push(nodes[order[k]].port);
        k = k + 1;
    }
    ports
}

/// The host order holds each index once.
pub proof fn lemma_host_order_injective(hosts: Seq<Seq<char>>, n: nat)
    requires
        n <= hosts.len(),
    ensures
        forall|a: int, b: int| 0 <= a < b < n ==> #[trigger] host_order(hosts, n)[a] != #[trigger] host_order(hosts, n)[b],
    decreases n,
{
    if n > 0 {
        let o = host_order(hosts, (n - 1) as nat);
        lemma_host_order_injective(hosts, (n - 1) as nat);
        lemma_host_order_sorted(hosts, (n - 1) as nat);
        let p = insert_pos(o, hosts, hosts[n - 1]);
        lemma_insert_pos_bounds(o, hosts, hosts[n - 1]);
        let o2 = o.insert(p, n - 1);
        assert(o2 == host_order(hosts, n));
        assert forall|a: int, b: int| 0 <= a < b < n implies #[trigger] o2[a] != #[trigger] o2[b] by {
            if a < p && b < p {
                assert(o2[a] == o[a] && o2[b] == o[b]);
            } else if a < p && b == p {
                assert(o2[a] == o[a]);
            } else if a < p {
                assert(o2[a] == o[a] && o2[b] == o[b - 1]);
            } else if a == p {
                assert(o2[b] == o[b - 1]);
            } else {
                assert(o2[a] == o[a - 1] && o2[b] == o[b - 1]);
            }
        }
    }
}

/// Every group stored by the reading has its members on distinct hosts.
pub open spec fn stored_groups_distinct(members: Map<usize, Seq<MemberView>>) -> bool {
    forall|key: usize, a: int, b: int|
        #![trigger members[key][a], members[key][b]]
        members.dom().contains(key) && 0 <= a < b < members[key].len() ==> members[key][a].member_host != members[key][b].member_host
}

/// Within a row, the cells that hold a disk are on distinct hosts.
pub open spec fn rows_hosts_distinct(m: Seq<Seq<PairView>>) -> bool {
    forall|i: int, a: int, b: int|
        #![trigger m[i][a], m[i][b]]
        0 <= i < m.len() && 0 <= a < b < m[i].len() && m[i][a] != default_pair() && m[i][b] != default_pair()
            ==> m[i][a].host != m[i][b].host
}

/// What the reading keeps at every step: the groups it has stored have
/// their members on distinct hosts, and while it goes on, what it collects
/// in the current row is the row's cells read so far, none of them empty.
pub proof fn lemma_reading_invariant(m: Seq<Seq<PairView>>, ports: Seq<u16>, r: nat, i: nat, j: nat)
    requires
        rows_hosts_distinct(m),
        i < m.len() && j <= m[i as int].len() || i == m.len() && j == 0,
    ensures
        stored_groups_distinct(state_at(m, ports, r, i, j).members),
        !state_at(m, ports, r, i, j).stopped && i < m.len() ==> {
            let st = state_at(m, ports, r, i, j);
            &&& st.collect.len() == j
            &&& forall|a: int| 0 <= a < j ==> #[trigger] st.collect[a].member_host == m[i as int][a].host && m[i as int][a] != default_pair()
        },
    decreases i, j,
{
    if j > 0 {
        lemma_reading_invariant(m, ports, r, i, (j - 1) as nat);
        let st = state_at(m, ports, r, i, (j - 1) as nat);
        let cell = m[i as int][j - 1];
        if !st.stopped && cell != default_pair() {
            let next = cell_step(st, cell, ports[cell.host_idx as int], r);
            assert(state_at(m, ports, r, i, j) == next);
            assert(next.collect == st.collect.push(next.collect[j - 1]));
            assert(next.collect[j - 1].member_host == cell.host);
            assert forall|a: int| 0 <= a < j implies #[trigger] next.collect[a].member_host == m[i as int][a].host && m[i as int][a] != default_pair() by {
                if a < j - 1 {
                    assert(next.collect[a] == st.collect[a]);
                }
            }
            assert(!next.stopped);
            assert(next.collect.len() == j);
        }
    } else if i > 0 {
        let len = m[i - 1].len();
        lemma_reading_invariant(m, ports, r, (i - 1) as nat, len);
        let st = state_at(m, ports, r, (i - 1) as nat, len);
        if !st.stopped {
            let next = finish_row(st);
            assert(state_at(m, ports, r, i, 0) == next);
            assert forall|key: usize, a: int, b: int|
                #![trigger next.members[key][a], next.members[key][b]]
                next.members.dom().contains(key) && 0 <= a < b < next.members[key].len()
                implies next.members[key][a].member_host != next.members[key][b].member_host by {
                if key == st.group_id as usize {
                    assert(next.members[key] == st.collect);
                    assert(st.collect[a].member_host == m[i - 1][a].host);
                    assert(st.collect[b].member_host == m[i - 1][b].host);
                } else {
                    assert(st.members.dom().contains(key));
                    assert(next.members[key] == st.members[key]);
                }
            }
        }
    }
}

/// The disk matrix of nodes on distinct hosts has, in each row, its disks
/// on distinct hosts.
pub proof fn lemma_disk_matrix_rows_distinct(nodes: Seq<LogServiceNode>)
    requires
        hosts_of_nodes(nodes).no_duplicates(),
    ensures
        rows_hosts_distinct(disk_matrix(nodes)),
{
    let hosts = hosts_of_nodes(nodes);
    let order = host_order(hosts, nodes.len() as nat);
    lemma_host_order_sorted(hosts, nodes.len() as nat);
    lemma_host_order_injective(hosts, nodes.len() as nat);
    let m = disk_matrix(nodes);
    assert forall|i: int, a: int, b: int|
        #![trigger m[i][a], m[i][b]]
        0 <= i < m.len() && 0 <= a < b < m[i].len() && m[i][a] != default_pair() && m[i][b] != default_pair()
        implies m[i][a].host != m[i][b].host by {
        assert(m[i][a] == matrix_cell(nodes, order, i, a));
        assert(m[i][b] == matrix_cell(nodes, order, i, b));
        assert(order[a] != order[b]);
        assert(hosts[order[a]] == nodes[order[a]].host@);
        assert(hosts[order[b]] == nodes[order[b]].host@);
    }
}

/// No disk backs two members: the stored members at two different places
/// differ in host or in storage path.
pub open spec fn disks_used_once(members: Map<usize, Seq<MemberView>>) -> bool {
    forall|k1: usize, a1: int, k2: usize, a2: int|
        #![trigger members[k1][a1], members[k2][a2]]
        members.dom().contains(k1) && members.dom().contains(k2) && 0 <= a1 < members[k1].len() && 0 <= a2 < members[k2].len()
            && (k1 != k2 || a1 != a2)
            ==> members[k1][a1].member_host != members[k2][a2].member_host || members[k1][a1].storage_path != members[k2][a2].storage_path
}

/// The disks of the matrix are all different: two cells at different places
/// that hold a disk differ in host or in disk.
pub open spec fn cells_distinct(m: Seq<Seq<PairView>>) -> bool {
    forall|i1: int, a1: int, i2: int, a2: int|
        #![trigger m[i1][a1], m[i2][a2]]
        0 <= i1 < m.len() && 0 <= a1 < m[i1].len() && 0 <= i2 < m.len() && 0 <= a2 < m[i2].len()
            && m[i1][a1] != default_pair() && m[i2][a2] != default_pair() && (i1 != i2 || a1 != a2)
            ==> m[i1][a1].host != m[i2][a2].host || m[i1][a1].disk != m[i2][a2].disk
}

/// The member stands for a disk of a row before `rows`.
pub open spec fn from_earlier_row(m: Seq<Seq<PairView>>, rows: int, x: MemberView) -> bool {
    exists|row: int, col: int|
        0 <= row < rows && 0 <= col < m[row].len() && m[row][col] != default_pair()
            && #[trigger] m[row][col].host == x.member_host && m[row][col].disk == x.storage_path
}

/// The matrix of nodes on distinct hosts, each listing its disks once, holds
/// every disk once.
pub proof fn lemma_disk_matrix_cells_distinct(nodes: Seq<LogServiceNode>)
    requires
        hosts_of_nodes(nodes).no_duplicates(),
        forall|k: int| 0 <= k < nodes.len() ==> (#[trigger] nodes[k]).data_dir.deep_view().no_duplicates(),
    ensures
        cells_distinct(disk_matrix(nodes)),
{
    let hosts = hosts_of_nodes(nodes);
    let order = host_order(hosts, nodes.len() as nat);
    lemma_host_order_sorted(hosts, nodes.len() as nat);
    lemma_host_order_injective(hosts, nodes.len() as nat);
    let m = disk_matrix(nodes);
    assert forall|i1: int, a1: int, i2: int, a2: int|
        #![trigger m[i1][a1], m[i2][a2]]
        0 <= i1 < m.len() && 0 <= a1 < m[i1].len() && 0 <= i2 < m.len() && 0 <= a2 < m[i2].len()
            && m[i1][a1] != default_pair() && m[i2][a2] != default_pair() && (i1 != i2 || a1 != a2)
        implies m[i1][a1].host != m[i2][a2].host || m[i1][a1].disk != m[i2][a2].disk by {
        assert(m[i1][a1] == matrix_cell(nodes, order, i1, a1));
        assert(m[i2][a2] == matrix_cell(nodes, order, i2, a2));
        if a1 != a2 {
            assert(order[a1] != order[a2]);
            assert(hosts[order[a1]] == nodes[order[a1]].host@);
            assert(hosts[order[a2]] == nodes[order[a2]].host@);
        } else {
            let n = nodes[order[a1]];
            assert(n.data_dir.deep_view().no_duplicates());
            assert(n.data_dir.deep_view()[i1] == n.data_dir@[i1]@);
            assert(n.data_dir.deep_view()[i2] == n.data_dir@[i2]@);
        }
    }
}

/// What the reading keeps at every step, of the disks: no disk backs two
/// stored members, each stored member stands for a disk of a row already
/// read, and while the reading goes on, what it collects in the current
/// row stands for the row's disks read so far.
pub proof fn lemma_reading_disks(m: Seq<Seq<PairView>>, ports: Seq<u16>, r: nat, i: nat, j: nat)
    requires
        cells_distinct(m),
        i < m.len() && j <= m[i as int].len() || i == m.len() && j == 0,
    ensures
        disks_used_once(state_at(m, ports, r, i, j).members),
        forall|key: usize, a: int| #![trigger state_at(m, ports, r, i, j).members[key][a]]
            state_at(m, ports, r, i, j).members.dom().contains(key) && 0 <= a < state_at(m, ports, r, i, j).members[key].len()
            ==> from_earlier_row(m, i as int, state_at(m, ports, r, i, j).members[key][a]),
        !state_at(m, ports, r, i, j).stopped && i < m.len() ==> {
            let st = state_at(m, ports, r, i, j);
            &&& st.collect.len() == j
            &&& forall|a: int| 0 <= a < j ==> #[trigger] st.collect[a].member_host == m[i as int][a].host
                && st.collect[a].storage_path == m[i as int][a].disk && m[i as int][a] != default_pair()
        },
    decreases i, j,
{
    let cur = state_at(m, ports, r, i, j);
    if j > 0 {
        lemma_reading_disks(m, ports, r, i, (j - 1) as nat);
        let st = state_at(m, ports, r, i, (j - 1) as nat);
        let cell = m[i as int][j - 1];
        if !st.stopped && cell != default_pair() {
            let next = cell_step(st, cell, ports[cell.host_idx as int], r);
            assert(cur == next);
            assert forall|a: int| 0 <= a < j implies #[trigger] next.collect[a].member_host == m[i as int][a].host
                && next.collect[a].storage_path == m[i as int][a].disk && m[i as int][a] != default_pair() by {
                if a < j - 1 {
                    assert(next.collect[a] == st.collect[a]);
                }
            }
        }
        assert(cur.members == st.members);
        assert forall|key: usize, a: int| #![trigger cur.members[key][a]]
            cur.members.dom().contains(key) && 0 <= a < cur.members[key].len()
            implies from_earlier_row(m, i as int, cur.members[key][a]) by {
            assert(from_earlier_row(m, i as int, st.members[key][a]));
        }
    } else if i > 0 {
        let len = m[i - 1].len();
        lemma_reading_disks(m, ports, r, (i - 1) as nat, len);
        let st = state_at(m, ports, r, (i - 1) as nat, len);
        if !st.stopped {
            let next = finish_row(st);
            let gid = st.group_id as usize;
            assert(cur == next);
            assert forall|key: usize, a: int| #![trigger next.members[key][a]]
                next.members.dom().contains(key) && 0 <= a < next.members[key].len()
                implies from_earlier_row(m, i as int, next.members[key][a]) by {
                if key == gid {
                    assert(next.members[key][a] == st.collect[a]);
                    assert(m[i - 1][a].host == st.collect[a].member_host);
                } else {
                    assert(next.members[key] == st.members[key]);
                    assert(from_earlier_row(m, i - 1, st.members[key][a]));
                    let (row, col) = choose|row: int, col: int|
                        0 <= row < i - 1 && 0 <= col < m[row].len() && m[row][col] != default_pair()
                            && #[trigger] m[row][col].host == st.members[key][a].member_host && m[row][col].disk == st.members[key][a].storage_path;
                    assert(m[row][col].host == next.members[key][a].member_host);
                }
            }
            assert forall|k1: usize, a1: int, k2: usize, a2: int|
                #![trigger next.members[k1][a1], next.members[k2][a2]]
                next.members.dom().contains(k1) && next.members.dom().contains(k2) && 0 <= a1 < next.members[k1].len()
                    && 0 <= a2 < next.members[k2].len() && (k1 != k2 || a1 != a2)
                implies next.members[k1][a1].member_host != next.members[k2][a2].member_host
                    || next.members[k1][a1].storage_path != next.members[k2][a2].storage_path by {
                let x1 = next.members[k1][a1];
                let x2 = next.members[k2][a2];
                if k1 == gid && k2 == gid {
                    assert(x1 == st.collect[a1] && x2 == st.collect[a2]);
                } else if k1 == gid {
                    assert(x1 == st.collect[a1]);
                    assert(x2 == st.members[k2][a2]);
                    assert(from_earlier_row(m, i - 1, st.members[k2][a2]));
                    let (row, col) = choose|row: int, col: int|
                        0 <= row < i - 1 && 0 <= col < m[row].len() && m[row][col] != default_pair()
                            && #[trigger] m[row][col].host == x2.member_host && m[row][col].disk == x2.storage_path;
                    assert(m[i - 1][a1].host == x1.member_host);
                    assert(m[row][col].host == x2.member_host);
                } else if k2 == gid {
                    assert(x2 == st.collect[a2]);
                    assert(x1 == st.members[k1][a1]);
                    assert(from_earlier_row(m, i - 1, st.members[k1][a1]));
                    let (row, col) = choose|row: int, col: int|
                        0 <= row < i - 1 && 0 <= col < m[row].len() && m[row][col] != default_pair()
                            && #[trigger] m[row][col].host == x1.member_host && m[row][col].disk == x1.storage_path;
                    assert(m[i - 1][a2].host == x2.member_host);
                    assert(m[row][col].host == x1.member_host);
                } else {
                    assert(x1 == st.members[k1][a1] && x2 == st.members[k2][a2]);
                }
            }
        } else {
            assert(cur == st);
            assert forall|key: usize, a: int| #![trigger cur.members[key][a]]
                cur.members.dom().contains(key) && 0 <= a < cur.members[key].len()
                implies from_earlier_row(m, i as int, cur.members[key][a]) by {
                assert(from_earlier_row(m, i - 1, st.members[key][a]));
                let (row, col) = choose|row: int, col: int|
                    0 <= row < i - 1 && 0 <= col < m[row].len() && m[row][col] != default_pair()
                        && #[trigger] m[row][col].host == st.members[key][a].member_host && m[row][col].disk == st.members[key][a].storage_path;
                assert(m[row][col].host == cur.members[key][a].member_host);
            }
        }
    } else {
        assert(cur == initial_state());
        assert(cur.members.dom() =~= Set::<usize>::empty());
    }
}

/// `k` is listed among the first `n` entries of `o`.
pub open spec fn order_has(o: Seq<int>, n: nat, k: int) -> bool {
    exists|a: int| 0 <= a < n && #[trigger] o[a] == k
}

/// The host order lists every index below `n`.
pub proof fn lemma_host_order_covers(hosts: Seq<Seq<char>>, n: nat)
    requires
        n <= hosts.len(),
    ensures
        forall|k: int| 0 <= k < n ==> #[trigger] order_has(host_order(hosts, n), n, k),
    decreases n,
{
    if n > 0 {
        let o = host_order(hosts, (n - 1) as nat);
        lemma_host_order_covers(hosts, (n - 1) as nat);
        lemma_host_order_sorted(hosts, (n - 1) as nat);
        let p = insert_pos(o, hosts, hosts[n - 1]);
        lemma_insert_pos_bounds(o, hosts, hosts[n - 1]);
        let o2 = o.insert(p, n - 1);
        assert(o2 == host_order(hosts, n));
        assert forall|k: int| 0 <= k < n implies #[trigger] order_has(host_order(hosts, n), n, k) by {
            if k == n - 1 {
                assert(o2[p] == k);
            } else {
                assert(order_has(o, (n - 1) as nat, k));
                let a = choose|a: int| 0 <= a < n - 1 && #[trigger] o[a] == k;
                if a < p {
                    assert(o2[a] == k);
                } else {
                    assert(o2[a + 1] == k);
                }
            }
        }
    }
}

/// The member stands for the disk in the cell.
pub open spec fn stands_for(x: MemberView, cell: PairView) -> bool {
    x.member_host == cell.host && x.storage_path == cell.disk
}

/// Some stored member stands for the disk in the cell.
pub open spec fn disk_backed(members: Map<usize, Seq<MemberView>>, cell: PairView) -> bool {
    exists|key: usize, a: int| members.dom().contains(key) && 0 <= a < members[key].len() && #[trigger] stands_for(members[key][a], cell)
}

/// Over a matrix without an empty cell, the reading never stops, the group
/// ids it has stored are below the next one, while no counter has
/// overflowed every disk of the rows read backs a stored member, and what it collects in the current row stands
/// for the row's disks read so far.
pub proof fn lemma_reading_complete(m: Seq<Seq<PairView>>, ports: Seq<u16>, r: nat, i: nat, j: nat)
    requires
        forall|row: int, col: int| 0 <= row < m.len() && 0 <= col < m[row].len() ==> #[trigger] m[row][col] != default_pair(),
        i < m.len() && j <= m[i as int].len() || i == m.len() && j == 0,
    ensures
        !state_at(m, ports, r, i, j).stopped,
        forall|key: usize| #[trigger] state_at(m, ports, r, i, j).members.dom().contains(key) ==> key < state_at(m, ports, r, i, j).group_id,
        state_at(m, ports, r, i, j).ok ==> state_at(m, ports, r, i, j).group_id <= usize::MAX,
        state_at(m, ports, r, i, j).ok ==> forall|row: int, col: int| 0 <= row < i && 0 <= col < m[row].len()
            ==> #[trigger] disk_backed(state_at(m, ports, r, i, j).members, m[row][col]),
        i < m.len() ==> state_at(m, ports, r, i, j).collect.len() == j,
        i < m.len() ==> forall|a: int| 0 <= a < j ==> #[trigger] stands_for(state_at(m, ports, r, i, j).collect[a], m[i as int][a]),
        state_at(m, ports, r, i, j).group_id >= 0,
    decreases i, j,
{
    let cur = state_at(m, ports, r, i, j);
    if j > 0 {
        lemma_reading_complete(m, ports, r, i, (j - 1) as nat);
        let st = state_at(m, ports, r, i, (j - 1) as nat);
        let cell = m[i as int][j - 1];
        assert(cell != default_pair());
        let next = cell_step(st, cell, ports[cell.host_idx as int], r);
        assert(cur == next);
        assert(next.members == st.members);
        assert forall|a: int| 0 <= a < j implies #[trigger] stands_for(next.collect[a], m[i as int][a]) by {
            if a < j - 1 {
                assert(next.collect[a] == st.collect[a]);
            }
        }
        if next.ok {
            assert forall|row: int, col: int| 0 <= row < i && 0 <= col < m[row].len()
                implies #[trigger] disk_backed(next.members, m[row][col]) by {
                assert(disk_backed(st.members, m[row][col]));
            }
        }
    } else if i > 0 {
        let len = m[i - 1].len();
        lemma_reading_complete(m, ports, r, (i - 1) as nat, len);
        let st = state_at(m, ports, r, (i - 1) as nat, len);
        let next = finish_row(st);
        let gid = st.group_id as usize;
        assert(cur == next);
        assert forall|key: usize| #[trigger] next.members.dom().contains(key) implies key < next.group_id by {
            if key != gid {
                assert(st.members.dom().contains(key));
            }
        }
        if next.ok {
            assert forall|row: int, col: int| 0 <= row < i && 0 <= col < m[row].len()
                implies #[trigger] disk_backed(next.members, m[row][col]) by {
                if row == i - 1 {
                    assert(next.members[gid] == st.collect);
                    assert(stands_for(next.members[gid][col], m[row][col]));
                } else {
                    assert(disk_backed(st.members, m[row][col]));
                    let (key, a) = choose|key: usize, a: int|
                        st.members.dom().contains(key) && 0 <= a < st.members[key].len() && #[trigger] stands_for(st.members[key][a], m[row][col]);
                    assert(key < st.group_id);
                    assert(key != gid);
                    assert(next.members[key] == st.members[key]);
                    assert(stands_for(next.members[key][a], m[row][col]));
                }
            }
        }
    } else {
        assert(cur == initial_state());
    }
}

} // verus!
