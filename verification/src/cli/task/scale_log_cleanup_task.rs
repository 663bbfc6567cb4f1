//! Cleaning up after a failed scale-out of the log service: the log
//! processes started on the added nodes are stopped again.
use crate::config::log_service::LogServiceNode;
use crate::text::{contains_string, copy_string, copy_strings, decimal, join_strings, seq_join, u64_to_string};
use vstd::prelude::*;

verus! {

/// The name the clean-up reports itself under.
pub const SCALE_LOG_CLEANUP_CMD: &'static str = "scale log cleanup operation";

/// `host:port` of a log node.
pub open spec fn node_addr(n: LogServiceNode) -> Seq<char> {
    n.host@ + ":"@ + decimal(n.port as nat)
}

/// The nodes among `nodes` that were added, named `host:port` in `added`, in order.
pub open spec fn added_nodes(nodes: Seq<LogServiceNode>, added: Seq<Seq<char>>) -> Seq<LogServiceNode>
    decreases nodes.len(),
{
    if nodes.len() == 0 {
        Seq::empty()
    } else {
        let prev = added_nodes(nodes.drop_last(), added);
        if added.contains(node_addr(nodes.last())) { prev.push(nodes.last()) } else { prev }
    }
}

/// A log node by its contents.
pub open spec fn log_node_view(n: LogServiceNode) -> (Seq<char>, Seq<Seq<char>>, u16) {
    (n.host@, n.data_dir.deep_view(), n.port)
}

/// The log nodes to stop: those of `nodes` whose `host:port` is among `added`.
pub fn nodes_to_stop(nodes: &Vec<LogServiceNode>, added: &Vec<String>) -> (res: Vec<LogServiceNode>)
    ensures
        res@.map_values(|n: LogServiceNode| log_node_view(n)) == added_nodes(nodes@, added.deep_view()).map_values(|n: LogServiceNode| log_node_view(n)),
{
    proof {
        reveal_strlit(":");
    }
    let mut res: Vec<LogServiceNode> = Vec::new();
    let mut i: usize = 0;
    while i < nodes.len()
        invariant
            0 <= i <= nodes.len(),
            res@.map_values(|n: LogServiceNode| log_node_view(n)) =~= added_nodes(nodes@.take(i as int), added.deep_view()).map_values(|n: LogServiceNode| log_node_view(n)),
        decreases nodes.len() - i,
    {
        let node = &nodes[i];
        let mut addr = copy_string(&node.host);
        addr.append(":");
        addr.append(u64_to_string(node.port as u64).as_str());
        assert(nodes@.take(i + 1).drop_last() =~= nodes@.take(i as int));
        assert(nodes@.take(i + 1).last() == *node);
        if contains_string(added, &addr) {
            let copy = LogServiceNode { host: copy_string(&node.host), data_dir: copy_strings(&node.data_dir), port: node.port };
            let ghost before = res@;
            res.push(copy);
            assert(res@.map_values(|n: LogServiceNode| log_node_view(n)) =~= before.map_values(|n: LogServiceNode| log_node_view(n)).push(log_node_view(*node)));
        }
        i = i + 1;
    }
    assert(nodes@.take(nodes.len() as int) =~= nodes@);
    res
}

/// The report of the clean-up: with the scale-out done, nothing to clean;
/// else status 0 naming the nodes cleaned up, or status 1 with the cause
/// the stop failed for (`stopped`; `None` where the scale-out succeeded).
pub fn cleanup_report(scale_succeeded: bool, nodes: &Vec<String>, stopped: Option<Result<(), String>>) -> (r: (u64, String))
    requires
        !scale_succeeded ==> stopped is Some,
    ensures
        scale_succeeded ==> r.0 == 0 && r.1@ == "Previous operation succeeded, no cleanup performed"@,
        !scale_succeeded ==> match stopped {
            Some(Ok(())) => r.0 == 0 && r.1@ == "Successfully cleaned up log services for nodes: "@ + seq_join(nodes.deep_view(), ", "@),
            Some(Err(e)) => r.0 == 1 && r.1@ == "Failed to cleanup log services: "@ + e@,
            None => false,
        },
{
    proof {
        reveal_strlit("Previous operation succeeded, no cleanup performed");
        reveal_strlit("Successfully cleaned up log services for nodes: ");
        reveal_strlit("Failed to cleanup log services: ");
    }
    if scale_succeeded {
        return (0, String::from_str("Previous operation succeeded, no cleanup performed"));
    }
    match stopped {
        Some(Ok(())) => {
            let mut m = String::from_str("Successfully cleaned up log services for nodes: ");
            m.append(join_strings(nodes, ", ").as_str());
            (0, m)
        },
        Some(Err(e)) => {
            let mut m = String::from_str("Failed to cleanup log services: ");
            m.append(e.as_str());
            (1, m)
        },
        None => {
            proof {
                assert(false);
            }
            (1, String::new())
        },
    }
}

} // verus!
