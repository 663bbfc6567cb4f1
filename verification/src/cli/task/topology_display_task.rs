//! Showing the topology of a cluster: its nodes ordered by node group, one
//! table row per node.
use crate::cli::task::task_base::TaskId;
use crate::text::{copy_string, i32_to_string, signed_decimal};
use prettytable::{Cell, Row, Table};
use vstd::prelude::*;

verus! {

/// A node of the stored topology, as the display reads it.
#[derive(Clone, Debug, PartialEq, Eq)]
pub struct TopologyNode {
    pub node_group_id: i32,
    pub node_id: String,
    pub host: String,
    pub port: i32,
    pub is_master: bool,
    pub is_candidate: bool,
}

/// The name the display task reports itself under.
pub const TOPOLOGY_DISPLAY_CMD: &'static str = "topology-display";

/// The text prettytable renders for a table with these column titles and
/// rows, one cell per string, in its format with a title separator and no
/// separators between rows.
pub uninterp spec fn rendered_table(titles: Seq<Seq<char>>, rows: Seq<Seq<Seq<char>>>) -> Seq<char>;

/// Renders a table with prettytable (`Table::new`, `Table::set_format` with
/// `FORMAT_NO_LINESEP_WITH_TITLE`, `Table::set_titles`, `Table::add_row`,
/// `Row::new`, `Cell::new` and the table's `to_string`). Claimed: the text is
/// a function of the titles and the cells alone, named `rendered_table`.
#[verifier::external_body]
pub(crate) fn render_table(titles: &Vec<String>, rows: &Vec<Vec<String>>) -> (table: String)
    ensures
        table@ == rendered_table(titles.deep_view(), rows_view(rows@)),
{
    let mut t = Table::new();
    t.set_format(*prettytable::format::consts::FORMAT_NO_LINESEP_WITH_TITLE);
    t.set_titles(Row::new(titles.iter().map(|c| Cell::new(c)).collect()));
    for r in rows.iter() {
        t.add_row(Row::new(r.iter().map(|c| Cell::new(c)).collect()));
    }
    t.to_string()
}

/// The titles of the table's columns.
pub open spec fn display_titles_spec() -> Seq<Seq<char>> {
    seq!["Node Group ID"@, "Node ID"@, "Host"@, "Port"@, "Role"@, "Is Candidate"@]
}

/// The rows of the table for these nodes, by ascending group id.
pub open spec fn display_rows_spec(nodes: Seq<TopologyNode>) -> Seq<Seq<Seq<char>>> {
    id_order(group_ids(nodes), nodes.len() as nat).map_values(|k: int| row_of(nodes[k]))
}

/// What the display task reports for the outcome of loading the topology of
/// `cluster`: its status and its output.
pub open spec fn display_result_spec(cluster: Seq<char>, loaded: Result<Seq<TopologyNode>, Seq<char>>) -> (usize, Seq<char>) {
    match loaded {
        Err(e) => (1usize, "Failed to load topology information: "@ + e),
        Ok(nodes) => if nodes.len() == 0 {
            (0usize, "No topology information found for cluster "@ + cluster)
        } else {
            (0usize, "\nCluster Topology for "@ + cluster + ":\n"@ + rendered_table(display_titles_spec(), display_rows_spec(nodes)))
        },
    }
}

/// A task that shows the topology of a cluster.
#[derive(Debug, Clone)]
pub struct TopologyDisplayTask {
    pub task_id: TaskId,
    pub cluster_name: String,
}

/// The place where `key` goes among the indices `order`: before the first
/// whose group id is larger, so that equal ids keep their order.
pub open spec fn id_insert_pos(order: Seq<int>, keys: Seq<i32>, key: i32) -> int
    decreases order.len(),
{
    if order.len() == 0 {
        0
    } else if key < keys[order[0]] {
        0
    } else {
        1 + id_insert_pos(order.drop_first(), keys, key)
    }
}

/// The indices `0..n` sorted by group id, nodes of one group in their
/// original order: the order of grouping by id and listing the groups by
/// ascending id.
pub open spec fn id_order(keys: Seq<i32>, n: nat) -> Seq<int>
    decreases n,
{
    if n == 0 {
        Seq::empty()
    } else {
        let o = id_order(keys, (n - 1) as nat);
        o.insert(id_insert_pos(o, keys, keys[n - 1]), n - 1)
    }
}

/// The group ids of the nodes.
pub open spec fn group_ids(nodes: Seq<TopologyNode>) -> Seq<i32> {
    nodes.map_values(|n: TopologyNode| n.node_group_id)
}

/// The cells of a node's row: group id, node id, host, port, role and candidacy.
pub open spec fn row_of(n: TopologyNode) -> Seq<Seq<char>> {
    seq![
        signed_decimal(n.node_group_id as int),
        n.node_id@,
        n.host@,
        signed_decimal(n.port as int),
        if n.is_master { "Master"@ } else { "Replica"@ },
        if n.is_candidate { "Yes"@ } else { "No"@ },
    ]
}

/// The rows of the table, by their contents.
pub open spec fn rows_view(rows: Seq<Vec<String>>) -> Seq<Seq<Seq<char>>> {
    rows.map_values(|r: Vec<String>| r.deep_view())
}

proof fn lemma_id_insert_pos_bounds(order: Seq<int>, keys: Seq<i32>, key: i32)
    ensures
        0 <= id_insert_pos(order, keys, key) <= order.len(),
        forall|a: int| 0 <= a < id_insert_pos(order, keys, key) ==> keys[#[trigger] order[a]] <= key,
        id_insert_pos(order, keys, key) < order.len() ==> key < keys[order[id_insert_pos(order, keys, key)]],
    decreases order.len(),
{
    if order.len() > 0 && !(key < keys[order[0]]) {
        lemma_id_insert_pos_bounds(order.drop_first(), keys, key);
        assert forall|a: int| 0 <= a < id_insert_pos(order, keys, key) implies keys[#[trigger] order[a]] <= key by {
            if a > 0 {
                assert(order.drop_first()[a - 1] == order[a]);
            }
        }
    }
}

/// The display order lists the nodes by ascending group id and holds each
/// node's index once, within range.
pub proof fn lemma_id_order_sorted(keys: Seq<i32>, n: nat)
    requires
        n <= keys.len(),
    ensures
        id_order(keys, n).len() == n,
        forall|a: int, b: int| 0 <= a < b < n ==> keys[#[trigger] id_order(keys, n)[a]] <= keys[#[trigger] id_order(keys, n)[b]],
        forall|a: int| 0 <= a < n ==> 0 <= #[trigger] id_order(keys, n)[a] < n,
    decreases n,
{
    if n > 0 {
        let o = id_order(keys, (n - 1) as nat);
        lemma_id_order_sorted(keys, (n - 1) as nat);
        let key = keys[n - 1];
        let p = id_insert_pos(o, keys, key);
        lemma_id_insert_pos_bounds(o, keys, key);
        let o2 = o.insert(p, n - 1);
        assert(o2 == id_order(keys, n));
        assert forall|a: int, b: int| 0 <= a < b < n implies keys[#[trigger] o2[a]] <= keys[#[trigger] o2[b]] by {
            if a < p && b < p {
                assert(o2[a] == o[a] && o2[b] == o[b]);
            } else if a < p && b == p {
                assert(o2[a] == o[a]);
            } else if a < p {
                assert(o2[a] == o[a] && o2[b] == o[b - 1]);
            } else if a == p {
                assert(o2[b] == o[b - 1]);
                assert(keys[o[p]] <= keys[o[b - 1]]);
            } else {
                assert(o2[a] == o[a - 1] && o2[b] == o[b - 1]);
            }
        }
        assert forall|a: int| 0 <= a < n implies 0 <= #[trigger] o2[a] < n by {
            if a < p {
                assert(o2[a] == o[a]);
            } else if a > p {
                assert(o2[a] == o[a - 1]);
            }
        }
    }
}

fn display_order(nodes: &Vec<TopologyNode>) -> (order: Vec<usize>)
    ensures
        order@.len() == nodes@.len(),
        forall|a: int| 0 <= a < order@.len() ==> order@[a] as int == #[trigger] id_order(group_ids(nodes@), nodes@.len() as nat)[a],
{
    let ghost keys = group_ids(nodes@);
    let mut order: Vec<usize> = Vec::new();
    let mut k: usize = 0;
    while k < nodes.len()
        invariant
            0 <= k <= nodes.len(),
            keys == group_ids(nodes@),
            order@.len() == k,
            order@.map_values(|x: usize| x as int) == id_order(keys, k as nat),
            forall|a: int| 0 <= a < k ==> 0 <= #[trigger] order@[a] < k,
        decreases nodes.len() - k,
    {
        let ghost o = order@.map_values(|x: usize| x as int);
        let key = nodes[k].node_group_id;
        assert(keys[k as int] == key);
        assert(o.skip(0) =~= o);
        let mut p: usize = 0;
        while p < order.len() && !(key < nodes[order[p]].node_group_id)
            invariant
                0 <= p <= order@.len(),
                order@.len() == k,
                k < nodes.len(),
                keys == group_ids(nodes@),
                o == order@.map_values(|x: usize| x as int),
                forall|a: int| 0 <= a < k ==> 0 <= #[trigger] order@[a] < k,
                key == keys[k as int],
                id_insert_pos(o, keys, key) == p + id_insert_pos(o.skip(p as int), keys, key),
            decreases order@.len() - p,
        {
            assert(keys[o[p as int]] == nodes@[order@[p as int] as int].node_group_id);
            assert(o.skip(p as int).drop_first() =~= o.skip(p + 1));
            assert(o.skip(p as int)[0] == o[p as int]);
            p = p + 1;
        }
        proof {
            if p < order@.len() {
                assert(keys[o[p as int]] == nodes@[order@[p as int] as int].node_group_id);
                assert(o.skip(p as int)[0] == o[p as int]);
            } else {
                assert(o.skip(p as int).len() == 0);
            }
        }
        let ghost before = order@;
        order.insert(p, k);
        proof {
            assert(order@.map_values(|x: usize| x as int) =~= o.insert(p as int, k as int));
            assert forall|a: int| 0 <= a < k + 1 implies 0 <= #[trigger] order@[a] < k + 1 by {
                if a < p {
                    assert(order@[a] == before[a]);
                } else if a > p {
                    assert(order@[a] == before[a - 1]);
                }
            }
        }
        k = k + 1;
    }
    proof {
        assert forall|a: int| 0 <= a < order@.len() implies order@[a] as int == #[trigger] id_order(keys, nodes@.len() as nat)[a] by {
            assert(order@.map_values(|x: usize| x as int)[a] == order@[a] as int);
        }
    }
    order
}

fn row_cells(n: &TopologyNode) -> (row: Vec<String>)
    ensures
        row.deep_view() == row_of(*n),
{
    proof {
        reveal_strlit("Master");
        reveal_strlit("Replica");
        reveal_strlit("Yes");
        reveal_strlit("No");
    }
    let mut row: Vec<String> = Vec::new();
    row.push(i32_to_string(n.node_group_id));
    row.push(copy_string(&n.node_id));
    row.push(copy_string(&n.host));
    row.push(i32_to_string(n.port));
    row.push(String::from_str(if n.is_master { "Master" } else { "Replica" }));
    row.push(String::from_str(if n.is_candidate { "Yes" } else { "No" }));
    assert(row.deep_view() =~= row_of(*n));
    row
}

impl TopologyDisplayTask {
    /// A task that shows the topology of `cluster_name`.
    pub fn new(task_id: TaskId, cluster_name: String) -> (t: Self)
        ensures
            t.task_id == task_id,
            t.cluster_name == cluster_name,
    {
        TopologyDisplayTask { task_id, cluster_name }
    }

    /// The titles of the table's columns.
    pub fn display_titles() -> (titles: Vec<String>)
        ensures
            titles.deep_view() == display_titles_spec(),
    {
        let mut titles: Vec<String> = Vec::new();
        titles.push(String::from_str("Node Group ID"));
        titles.push(String::from_str("Node ID"));
        titles.push(String::from_str("Host"));
        titles.push(String::from_str("Port"));
        titles.push(String::from_str("Role"));
        titles.push(String::from_str("Is Candidate"));
        assert(titles.deep_view() =~= display_titles_spec());
        titles
    }

    /// The rows of the table: one per node, by ascending node group id, the
    /// nodes of a group in the order they were stored.
    pub fn display_rows(nodes: &Vec<TopologyNode>) -> (rows: Vec<Vec<String>>)
        ensures
            rows_view(rows@) == display_rows_spec(nodes@),
    {
        let ghost order_spec = id_order(group_ids(nodes@), nodes@.len() as nat);
        let order = display_order(nodes);
        proof {
            lemma_id_order_sorted(group_ids(nodes@), nodes@.len() as nat);
        }
        let mut rows: Vec<Vec<String>> = Vec::new();
        let mut i: usize = 0;
        while i < order.len()
            invariant
                0 <= i <= order@.len(),
                order@.len() == nodes@.len(),
                order_spec == id_order(group_ids(nodes@), nodes@.len() as nat),
                order_spec.len() == nodes@.len(),
                forall|a: int| 0 <= a < order@.len() ==> order@[a] as int == #[trigger] order_spec[a],
                forall|a: int| 0 <= a < order@.len() ==> 0 <= #[trigger] order_spec[a] < nodes@.len(),
                rows_view(rows@) =~= order_spec.take(i as int).map_values(|k: int| row_of(nodes@[k])),
            decreases order@.len() - i,
        {
            assert(order@[i as int] as int == order_spec[i as int]);
            let ghost before = rows@;
            rows.push(row_cells(&nodes[order[i]]));
            assert(order_spec.take(i + 1) =~= order_spec.take(i as int).push(order_spec[i as int]));
            assert(rows_view(rows@) =~= rows_view(before).push(row_of(nodes@[order_spec[i as int]])));
            i = i + 1;
        }
        assert(order_spec.take(order@.len() as int) =~= order_spec);
        rows
    }

    /// The name the task reports itself under.
    pub fn command_name(&self) -> (c: String)
        ensures
            c@ == TOPOLOGY_DISPLAY_CMD@,
    {
        String::from_str(TOPOLOGY_DISPLAY_CMD)
    }

    /// The task's report on the outcome of loading the topology: status 1 with
    /// the cause when the load failed; status 0 with a message saying that
    /// nothing is stored when no node was loaded; otherwise status 0 with the
    /// rendered table of the nodes, by ascending node group id.
    pub fn display_result(&self, loaded: Result<Vec<TopologyNode>, String>) -> (r: (usize, String))
        ensures
            (r.0, r.1@) == display_result_spec(self.cluster_name@, match loaded {
                Ok(v) => Ok(v@),
                Err(e) => Err(e@),
            }),
    {
        match loaded {
            Err(e) => (1, Self::load_failure_message(e.as_str())),
            Ok(nodes) => {
                if nodes.len() == 0 {
                    (0, self.no_topology_message())
                } else {
                    let titles = Self::display_titles();
                    let rows = Self::display_rows(&nodes);
                    let table = render_table(&titles, &rows);
                    (0, self.topology_output(table.as_str()))
                }
            },
        }
    }

    /// The message for a cluster with no stored topology.
    pub fn no_topology_message(&self) -> (m: String)
        ensures
            m@ == "No topology information found for cluster "@ + self.cluster_name@,
    {
        proof {
            reveal_strlit("No topology information found for cluster ");
        }
        let mut m = String::from_str("No topology information found for cluster ");
        m.append(self.cluster_name.as_str());
        m
    }

    /// The output: a heading naming the cluster, then the rendered table.
    pub fn topology_output(&self, table: &str) -> (m: String)
        ensures
            m@ == "\nCluster Topology for "@ + self.cluster_name@ + ":\n"@ + table@,
    {
        proof {
            reveal_strlit("\nCluster Topology for ");
            reveal_strlit(":\n");
        }
        let mut m = String::from_str("\nCluster Topology for ");
        m.append(self.cluster_name.as_str());
        m.append(":\n");
        m.append(table);
        m
    }

    /// The message for a topology that could not be loaded.
    pub fn load_failure_message(cause: &str) -> (m: String)
        ensures
            m@ == "Failed to load topology information: "@ + cause@,
    {
        proof {
            reveal_strlit("Failed to load topology information: ");
        }
        let mut m = String::from_str("Failed to load topology information: ");
        m.append(cause);
        m
    }
}

} // verus!
