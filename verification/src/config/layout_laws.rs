//! What holds of every log-group layout and of the commands built from it.
use crate::config::log_service::{
    group_count_of, group_ids_of, hosts_of, layout, member_config_entries, slot_node_index,
    group_from, start_cmds_of, MemberView, LogServiceNode, on_host, group_config_text, CmdItemView, in_group,
    lemma_filter_push, member_addr, LogService, slot_node,
};
use crate::text::decimal;
use crate::text::seq_join;
use crate::config::disk_matrix::{
    default_pair, disk_backed, disk_matrix, disks_used_once, host_order, hosts_of_nodes, lemma_disk_matrix_cells_distinct,
    lemma_disk_matrix_rows_distinct, lemma_host_order_covers, lemma_host_order_sorted, lemma_reading_complete,
    lemma_reading_disks, lemma_reading_invariant, matrix_cell, max_disks, order_has, stands_for, stored_groups_distinct,
};
use crate::text::lemma_dedup;
use vstd::prelude::*;

verus! {

/// There are enough groups for every distinct host to get a slot, and no
/// more than that: with `hosts` hosts and `r` replicas per group, the groups
/// hold at least `hosts` slots, and one group fewer would hold too few
/// (a single group is always made, even for fewer hosts than replicas).
pub proof fn lemma_group_count_covers(hosts: nat, r: nat)
    requires
        r > 0,
    ensures
        group_count_of(hosts, r) >= 1,
        group_count_of(hosts, r) * r >= hosts,
        hosts >= r ==> (group_count_of(hosts, r) - 1) * r < hosts,
{
    let q = hosts / r;
    let m = hosts % r;
    assert(hosts == q * r + m && 0 <= m < r) by (nonlinear_arith)
        requires r > 0, q == hosts / r, m == hosts % r;
    if hosts >= r {
        assert(q >= 1) by (nonlinear_arith)
            requires hosts >= r, r > 0, q == hosts / r;
        if m == 0 {
            assert((q - 1) * r == q * r - r) by (nonlinear_arith);
        } else {
            assert((q + 1) * r == q * r + r) by (nonlinear_arith);
        }
    }
}

/// A group whose slots clamp to the last node always lands on a node: with
/// at least one node, every slot's node index is within the node list.
pub proof fn lemma_clamped_slot_in_range(n: int, start: int, idx: int)
    requires
        n > 0,
        start >= 0,
        idx >= 0,
    ensures
        0 <= slot_node_index(group_from(start, n), idx, n, false) < n,
{
}

/// A layout of `groups` groups of `r` slots has `groups * r` members in all;
/// the member in slot `idx` of group `g` sits at position `g * r + idx`,
/// belongs to group `g` and has node id `idx`.
pub proof fn lemma_layout_members(nodes: Seq<LogServiceNode>, r: nat, wrap: bool, prefix: Seq<char>, groups: nat)
    ensures
        layout(nodes, r, wrap, prefix, groups).flatten().len() == groups * r,
        forall|g: int, idx: int| 0 <= g < groups && 0 <= idx < r ==> {
            let m = #[trigger] layout(nodes, r, wrap, prefix, groups).flatten()[g * r + idx];
            m == layout(nodes, r, wrap, prefix, groups)[g][idx] && m.group_id == g as usize && m.node_id == idx as usize
        },
    decreases groups,
{
    let lay = layout(nodes, r, wrap, prefix, groups);
    if groups > 0 {
        let prev = layout(nodes, r, wrap, prefix, (groups - 1) as nat);
        lemma_layout_members(nodes, r, wrap, prefix, (groups - 1) as nat);
        assert(lay =~= prev.push(lay[groups - 1]));
        prev.lemma_flatten_push(lay[groups - 1]);
        assert((groups - 1) * r + r == groups * r) by (nonlinear_arith);
        assert forall|g: int, idx: int| 0 <= g < groups && 0 <= idx < r implies {
            let m = #[trigger] lay.flatten()[g * r + idx];
            m == lay[g][idx] && m.group_id == g as usize && m.node_id == idx as usize
        } by {
            if g < groups - 1 {
                assert(g * r + idx < (groups - 1) * r) by (nonlinear_arith)
                    requires g < groups - 1, idx < r, 0 <= g, 0 <= idx;
                assert(lay.flatten()[g * r + idx] == prev.flatten()[g * r + idx]);
                assert(prev[g] == lay[g]);
            } else {
                assert(g * r + idx - (groups - 1) * r == idx) by (nonlinear_arith)
                    requires g == groups - 1;
                assert(g * r + idx >= (groups - 1) * r) by (nonlinear_arith)
                    requires g == groups - 1, idx >= 0;
            }
        }
    } else {
        assert(lay =~= Seq::<Seq<MemberView>>::empty());
        assert(lay.flatten() =~= Seq::<MemberView>::empty());
    }
}

/// The hosts of the start commands, in order.
pub open spec fn start_cmd_hosts(ms: Seq<MemberView>) -> Seq<Seq<char>> {
    start_cmds_of(ms).map_values(|e: (Seq<char>, Seq<crate::config::log_service::CmdItemView>)| e.0)
}

/// The group ids of the member lists, in order.
pub open spec fn member_config_ids(ms: Seq<MemberView>) -> Seq<usize> {
    member_config_entries(ms).map_values(|e: (usize, Seq<char>)| e.0)
}

/// The start commands are grouped by host: each host occurs once, and the
/// hosts are exactly those of the members.
pub proof fn lemma_start_cmd_hosts(ms: Seq<MemberView>)
    ensures
        start_cmd_hosts(ms).no_duplicates(),
        forall|h: Seq<char>| #[trigger] start_cmd_hosts(ms).contains(h)
            <==> (exists|i: int| 0 <= i < ms.len() && (#[trigger] ms[i]).member_host == h),
{
    let hosts = ms.map_values(|m: MemberView| m.member_host);
    lemma_dedup(hosts);
    let keys = start_cmds_of(ms).map_values(|e: (Seq<char>, Seq<crate::config::log_service::CmdItemView>)| e.0);
    assert(keys =~= hosts_of(ms));
    assert forall|h: Seq<char>| keys.contains(h) <==> (exists|i: int| 0 <= i < ms.len() && (#[trigger] ms[i]).member_host == h) by {
        if keys.contains(h) {
            assert(hosts.contains(h));
            let i = choose|i: int| 0 <= i < hosts.len() && hosts[i] == h;
            assert(ms[i].member_host == h);
        }
        if exists|i: int| 0 <= i < ms.len() && (#[trigger] ms[i]).member_host == h {
            let i = choose|i: int| 0 <= i < ms.len() && (#[trigger] ms[i]).member_host == h;
            assert(hosts[i] == h);
            assert(hosts.contains(h));
        }
    }
}

/// The member lists are keyed by group: each group id occurs once, and the
/// ids are exactly those of the members.
pub proof fn lemma_member_config_keys(ms: Seq<MemberView>)
    ensures
        member_config_ids(ms).no_duplicates(),
        forall|g: usize| #[trigger] member_config_ids(ms).contains(g)
            <==> (exists|i: int| 0 <= i < ms.len() && (#[trigger] ms[i]).group_id == g),
{
    let ids = ms.map_values(|m: MemberView| m.group_id);
    lemma_dedup(ids);
    let keys = member_config_entries(ms).map_values(|e: (usize, Seq<char>)| e.0);
    assert(keys =~= group_ids_of(ms));
    assert forall|g: usize| keys.contains(g) <==> (exists|i: int| 0 <= i < ms.len() && (#[trigger] ms[i]).group_id == g) by {
        if keys.contains(g) {
            assert(ids.contains(g));
            let i = choose|i: int| 0 <= i < ids.len() && ids[i] == g;
            assert(ms[i].group_id == g);
        }
        if exists|i: int| 0 <= i < ms.len() && (#[trigger] ms[i]).group_id == g {
            let i = choose|i: int| 0 <= i < ms.len() && (#[trigger] ms[i]).group_id == g;
            assert(ids[i] == g);
            assert(ids.contains(g));
        }
    }
}

/// The group ids of a layout's members, by position.
pub open spec fn layout_group_id(nodes: Seq<LogServiceNode>, r: nat, wrap: bool, prefix: Seq<char>, groups: nat, k: int) -> usize {
    layout(nodes, r, wrap, prefix, groups).flatten()[k].group_id
}

/// Some member of the layout belongs to group `g`.
pub open spec fn layout_has_group(nodes: Seq<LogServiceNode>, r: nat, wrap: bool, prefix: Seq<char>, groups: nat, g: usize) -> bool {
    exists|k: int| 0 <= k < groups * r && #[trigger] layout_group_id(nodes, r, wrap, prefix, groups, k) == g
}

/// Every group of a layout has members and no member is outside the groups:
/// the group ids of the members are exactly `0..groups`.
pub proof fn lemma_layout_group_ids(nodes: Seq<LogServiceNode>, r: nat, wrap: bool, prefix: Seq<char>, groups: nat)
    requires
        r > 0,
        groups * r <= usize::MAX,
    ensures
        forall|g: usize| #[trigger] layout_has_group(nodes, r, wrap, prefix, groups, g) <==> g < groups,
{
    lemma_layout_members(nodes, r, wrap, prefix, groups);
    let lay = layout(nodes, r, wrap, prefix, groups);
    assert forall|g: usize| #[trigger] layout_has_group(nodes, r, wrap, prefix, groups, g) <== g < groups by {
        if g < groups {
            let k = g * r + 0;
            assert(0 <= k < groups * r) by (nonlinear_arith)
                requires g < groups, r > 0, k == g * r + 0;
            assert(lay.flatten()[g * r + 0].group_id == g as usize);
            assert(layout_group_id(nodes, r, wrap, prefix, groups, k) == g);
        }
    }
    assert forall|g: usize| #[trigger] layout_has_group(nodes, r, wrap, prefix, groups, g) ==> g < groups by {
        if exists|k: int| 0 <= k < groups * r && #[trigger] layout_group_id(nodes, r, wrap, prefix, groups, k) == g {
            let k = choose|k: int| 0 <= k < groups * r && #[trigger] layout_group_id(nodes, r, wrap, prefix, groups, k) == g;
            let q = k / (r as int);
            let idx = k % (r as int);
            assert(k == q * r + idx && 0 <= idx < r && 0 <= q < groups) by (nonlinear_arith)
                requires 0 <= k < groups * r, r > 0, q == k / (r as int), idx == k % (r as int);
            assert(lay.flatten()[q * r + idx].group_id == q as usize);
            assert(q <= usize::MAX);
        }
    }
}

/// The groups laid over the disks are spread over machines: when the nodes
/// are on distinct hosts, no stored group has two members on one host.
pub proof fn lemma_memberships_spread(ls: crate::config::log_service::LogService)
    requires
        hosts_of_nodes(ls.nodes@).no_duplicates(),
    ensures
        stored_groups_distinct(ls.memberships_spec()),
{
    lemma_disk_matrix_rows_distinct(ls.nodes@);
    let m = disk_matrix(ls.nodes@);
    lemma_reading_invariant(m, ls.ports_in_host_order(), ls.replica_count(), m.len(), 0);
}

/// Each host's start commands are those of the members on that host: one
/// per member there, in member order, each for a member on that host and
/// carrying the `host:port` list of that member's group.
pub proof fn lemma_start_cmd_items(ms: Seq<MemberView>)
    ensures
        forall|e: int| 0 <= e < start_cmds_of(ms).len() ==> {
            let h = (#[trigger] start_cmds_of(ms)[e]).0;
            let items = start_cmds_of(ms)[e].1;
            &&& items.len() == ms.filter(on_host(h)).len()
            &&& items.map_values(|it: CmdItemView| it.log_member) == ms.filter(on_host(h))
            &&& forall|j: int| 0 <= j < items.len() ==> (#[trigger] items[j]).log_member.member_host == h
                && items[j].group_members_config == group_config_text(ms, items[j].log_member.group_id)
        },
{
    assert forall|e: int| 0 <= e < start_cmds_of(ms).len() implies {
        let h = (#[trigger] start_cmds_of(ms)[e]).0;
        let items = start_cmds_of(ms)[e].1;
        &&& items.len() == ms.filter(on_host(h)).len()
        &&& items.map_values(|it: CmdItemView| it.log_member) == ms.filter(on_host(h))
        &&& forall|j: int| 0 <= j < items.len() ==> (#[trigger] items[j]).log_member.member_host == h
            && items[j].group_members_config == group_config_text(ms, items[j].log_member.group_id)
    } by {
        let h = hosts_of(ms)[e];
        let on = ms.filter(on_host(h));
        ms.filter_lemma(on_host(h));
        let items = start_cmds_of(ms)[e].1;
        assert(items.map_values(|it: CmdItemView| it.log_member) =~= on);
        assert forall|j: int| 0 <= j < items.len() implies (#[trigger] items[j]).log_member.member_host == h
            && items[j].group_members_config == group_config_text(ms, items[j].log_member.group_id) by {
            assert(items[j].log_member == on[j]);
            assert(on_host(h)(on[j]));
        }
    }
}

/// Every disk serves at most one log group member: when the nodes are on
/// distinct hosts and each lists its disks once, the members of all stored
/// groups differ pairwise in host or in storage path.
pub proof fn lemma_memberships_disks_once(ls: crate::config::log_service::LogService)
    requires
        hosts_of_nodes(ls.nodes@).no_duplicates(),
        forall|k: int| 0 <= k < ls.nodes@.len() ==> (#[trigger] ls.nodes@[k]).data_dir.deep_view().no_duplicates(),
    ensures
        disks_used_once(ls.memberships_spec()),
{
    lemma_disk_matrix_cells_distinct(ls.nodes@);
    let m = disk_matrix(ls.nodes@);
    lemma_reading_disks(m, ls.ports_in_host_order(), ls.replica_count(), m.len(), 0);
}

/// Some stored member runs on `host` with its storage on `disk`.
pub open spec fn disk_serves(members: Map<usize, Seq<MemberView>>, host: Seq<char>, disk: Seq<char>) -> bool {
    exists|key: usize, a: int| members.dom().contains(key) && 0 <= a < members[key].len()
        && #[trigger] members[key][a].member_host == host && members[key][a].storage_path == disk
}

proof fn lemma_max_disks_uniform(nodes: Seq<LogServiceNode>, c: nat)
    requires
        nodes.len() > 0,
        forall|k: int| 0 <= k < nodes.len() ==> (#[trigger] nodes[k]).data_dir@.len() == c,
    ensures
        max_disks(nodes) == c,
    decreases nodes.len(),
{
    assert(nodes.last().data_dir@.len() == c);
    if nodes.len() > 1 {
        assert forall|k: int| 0 <= k < nodes.drop_last().len() implies (#[trigger] nodes.drop_last()[k]).data_dir@.len() == c by {
            assert(nodes.drop_last()[k] == nodes[k]);
        }
        lemma_max_disks_uniform(nodes.drop_last(), c);
    } else {
        assert(max_disks(nodes.drop_last()) == 0);
    }
}

/// When every node has the same number of disks, every disk of every node
/// serves a log group member: the groups are read off every row of the
/// disk matrix.
pub proof fn lemma_memberships_use_every_disk(ls: crate::config::log_service::LogService)
    requires
        ls.memberships_ready(),
        forall|k: int| 0 <= k < ls.nodes@.len() ==> (#[trigger] ls.nodes@[k]).data_dir@.len() == ls.nodes@[0].data_dir@.len(),
    ensures
        forall|k: int, d: int| 0 <= k < ls.nodes@.len() && 0 <= d < ls.nodes@[k].data_dir@.len()
            ==> #[trigger] disk_serves(ls.memberships_spec(), ls.nodes@[k].host@, ls.nodes@[k].data_dir@[d]@),
{
    let nodes = ls.nodes@;
    let c = nodes[0].data_dir@.len();
    lemma_max_disks_uniform(nodes, c);
    let hosts = hosts_of_nodes(nodes);
    let order = host_order(hosts, nodes.len() as nat);
    lemma_host_order_sorted(hosts, nodes.len() as nat);
    lemma_host_order_covers(hosts, nodes.len() as nat);
    let m = disk_matrix(nodes);
    assert forall|row: int, col: int| 0 <= row < m.len() && 0 <= col < m[row].len() implies #[trigger] m[row][col] != default_pair() by {
        assert(m[row][col] == matrix_cell(nodes, order, row, col));
        assert(0 <= order[col] < nodes.len());
        assert(nodes[order[col]].data_dir@.len() == c);
        assert(m[row][col].host_idx == col as i32);
    }
    lemma_reading_complete(m, ls.ports_in_host_order(), ls.replica_count(), m.len(), 0);
    let members = ls.memberships_spec();
    assert forall|k: int, d: int| 0 <= k < nodes.len() && 0 <= d < nodes[k].data_dir@.len()
        implies #[trigger] disk_serves(members, nodes[k].host@, nodes[k].data_dir@[d]@) by {
        assert(order_has(order, nodes.len() as nat, k));
        let col = choose|a: int| 0 <= a < nodes.len() && #[trigger] order[a] == k;
        assert(m[d][col] == matrix_cell(nodes, order, d, col));
        assert(disk_backed(members, m[d][col]));
        let (key, a) = choose|key: usize, a: int| members.dom().contains(key) && 0 <= a < members[key].len()
            && #[trigger] stands_for(members[key][a], m[d][col]);
        assert(members[key][a].member_host == nodes[k].host@);
    }
}

/// Every element of a filtered sequence is an element of the sequence.
proof fn lemma_filter_from<A>(s: Seq<A>, pred: spec_fn(A) -> bool)
    ensures
        forall|i: int| 0 <= i < s.filter(pred).len() ==> exists|k: int| 0 <= k < s.len() && s[k] == #[trigger] s.filter(pred)[i],
    decreases s.len(),
{
    if s.len() > 0 {
        let init = s.drop_last();
        lemma_filter_from(init, pred);
        assert(init.push(s.last()) =~= s);
        lemma_filter_push(init, s.last(), pred);
        assert forall|i: int| 0 <= i < s.filter(pred).len() implies exists|k: int| 0 <= k < s.len() && s[k] == #[trigger] s.filter(pred)[i] by {
            if i < init.filter(pred).len() {
                assert(s.filter(pred)[i] == init.filter(pred)[i]);
                let k = choose|k: int| 0 <= k < init.len() && init[k] == #[trigger] init.filter(pred)[i];
                assert(s[k] == init[k]);
            } else {
                assert(s.filter(pred)[i] == s.last());
                assert(s[s.len() - 1] == s.last());
            }
        }
    } else {
        reveal(Seq::filter);
    }
}

/// A sequence whose elements all pass (or all fail) a test is kept whole
/// (or dropped whole) by filtering on it.
proof fn lemma_filter_uniform<A>(s: Seq<A>, pred: spec_fn(A) -> bool, keep: bool)
    requires
        forall|i: int| 0 <= i < s.len() ==> pred(#[trigger] s[i]) == keep,
    ensures
        s.filter(pred) == if keep { s } else { Seq::<A>::empty() },
    decreases s.len(),
{
    if s.len() > 0 {
        let init = s.drop_last();
        assert forall|i: int| 0 <= i < init.len() implies pred(#[trigger] init[i]) == keep by {
            assert(init[i] == s[i]);
        }
        lemma_filter_uniform(init, pred, keep);
        assert(init.push(s.last()) =~= s);
        lemma_filter_push(init, s.last(), pred);
        assert(pred(s[s.len() - 1]) == keep);
    } else {
        reveal(Seq::filter);
        assert(s.filter(pred) =~= Seq::<A>::empty());
        if keep {
            assert(s =~= Seq::<A>::empty());
        }
    }
}

/// Picking group `gid` out of the flattened layout gives that group, whole.
proof fn lemma_filter_group(lay: Seq<Seq<MemberView>>, n: nat, gid: usize)
    requires
        n <= lay.len(),
        lay.len() <= usize::MAX,
        forall|g: int, idx: int| 0 <= g < lay.len() && 0 <= idx < lay[g].len() ==> (#[trigger] lay[g][idx]).group_id == g as usize,
    ensures
        lay.take(n as int).flatten().filter(in_group(gid)) == if (gid as int) < n { lay[gid as int] } else { Seq::<MemberView>::empty() },
    decreases n,
{
    if n > 0 {
        let g = n - 1;
        lemma_filter_group(lay, (n - 1) as nat, gid);
        assert(lay.take(n as int) =~= lay.take(g).push(lay[g]));
        lay.take(g).lemma_flatten_push(lay[g]);
        Seq::filter_distributes_over_add(lay.take(g).flatten(), lay[g], in_group(gid));
        assert forall|i: int| 0 <= i < lay[g].len() implies in_group(gid)(#[trigger] lay[g][i]) == (g == gid as int) by {
            assert(lay[g][i].group_id == g as usize);
        }
        lemma_filter_uniform(lay[g], in_group(gid), g == gid as int);
        if (gid as int) < g {
            assert(lay.take(n as int).flatten().filter(in_group(gid)) =~= lay[gid as int]);
        } else if gid as int == g {
            assert(lay.take(n as int).flatten().filter(in_group(gid)) =~= lay[gid as int]);
        } else {
            assert(lay.take(n as int).flatten().filter(in_group(gid)) =~= Seq::<MemberView>::empty());
        }
    } else {
        assert(lay.take(0) =~= Seq::<Seq<MemberView>>::empty());
        assert(lay.take(0).flatten() =~= Seq::<MemberView>::empty());
        reveal(Seq::filter);
        assert(Seq::<MemberView>::empty().filter(in_group(gid)) =~= Seq::<MemberView>::empty());
    }
}

/// The flat member list of a log service (`group_member_as_vec`) holds
/// its groups (`group_members`) one after another by group id, each whole
/// and in its order: `groups × replica` members, the member in slot `idx`
/// of group `g` at position `g × replica + idx`.
pub proof fn lemma_member_vec_groups(s: LogService)
    requires
        s.layout_ready(),
    ensures
        s.layout_spec().flatten().len() == s.group_total() * s.replica_count(),
        forall|g: int, idx: int| 0 <= g < s.group_total() && 0 <= idx < s.replica_count() ==> {
            let m = #[trigger] s.layout_spec().flatten()[g * s.replica_count() + idx];
            m == s.layout_spec()[g][idx] && m.group_id == g as usize
        },
{
    lemma_layout_members(s.nodes@, s.replica_count(), false, "http://"@, s.group_total());
}

/// The start commands of a log service (`log_start_cmd`): each host of a
/// member has one entry, no host two; the entry of host `h` holds one
/// command per member on `h`, in member order, each for a member on `h`
/// of a group `g` of the layout, carrying the `host:port` list of group
/// `g`'s members (`group_members()[g]`) joined by commas.
pub proof fn lemma_log_start_cmd(s: LogService)
    requires
        s.layout_ready(),
    ensures
        ({
            let ms = s.layout_spec().flatten();
            let c = start_cmds_of(ms);
            &&& start_cmd_hosts(ms).no_duplicates()
            &&& forall|h: Seq<char>| #[trigger] start_cmd_hosts(ms).contains(h)
                <==> (exists|i: int| 0 <= i < ms.len() && (#[trigger] ms[i]).member_host == h)
            &&& forall|e: int| 0 <= e < c.len() ==> {
                let h = (#[trigger] c[e]).0;
                let items = c[e].1;
                &&& items.len() == ms.filter(on_host(h)).len()
                &&& forall|j: int| 0 <= j < items.len() ==> {
                    let gid = (#[trigger] items[j]).log_member.group_id;
                    &&& items[j].log_member.member_host == h
                    &&& gid < s.group_total()
                    &&& items[j].group_members_config == seq_join(s.layout_spec()[gid as int].map_values(|m: MemberView| member_addr(m)), ","@)
                }
            }
        }),
{
    let ms = s.layout_spec().flatten();
    let lay = s.layout_spec();
    let r = s.replica_count();
    let total = s.group_total();
    lemma_start_cmd_hosts(ms);
    lemma_start_cmd_items(ms);
    lemma_layout_members(s.nodes@, r, false, "http://"@, total);
    assert(total <= usize::MAX) by (nonlinear_arith)
        requires total * r <= usize::MAX, r > 0;
    assert forall|g: int, idx: int| 0 <= g < lay.len() && 0 <= idx < lay[g].len() implies (#[trigger] lay[g][idx]).group_id == g as usize by {
        assert(lay.flatten()[g * r + idx] == lay[g][idx]);
    }
    assert(lay.take(total as int) =~= lay);
    let c = start_cmds_of(ms);
    assert forall|e: int| 0 <= e < c.len() implies {
        let h = (#[trigger] c[e]).0;
        let items = c[e].1;
        &&& items.len() == ms.filter(on_host(h)).len()
        &&& forall|j: int| 0 <= j < items.len() ==> {
            let gid = (#[trigger] items[j]).log_member.group_id;
            &&& items[j].log_member.member_host == h
            &&& gid < s.group_total()
            &&& items[j].group_members_config == seq_join(s.layout_spec()[gid as int].map_values(|m: MemberView| member_addr(m)), ","@)
        }
    } by {
        let h = c[e].0;
        let items = c[e].1;
        lemma_filter_from(ms, on_host(h));
        assert forall|j: int| 0 <= j < items.len() implies {
            let gid = (#[trigger] items[j]).log_member.group_id;
            &&& items[j].log_member.member_host == h
            &&& gid < s.group_total()
            &&& items[j].group_members_config == seq_join(s.layout_spec()[gid as int].map_values(|m: MemberView| member_addr(m)), ","@)
        } by {
            let m = items[j].log_member;
            assert(items.map_values(|it: CmdItemView| it.log_member)[j] == m);
            assert(ms.filter(on_host(h))[j] == m);
            let k = choose|k: int| 0 <= k < ms.len() && ms[k] == #[trigger] ms.filter(on_host(h))[j];
            let q = k / (r as int);
            let idx = k % (r as int);
            assert(k == q * r + idx && 0 <= idx < r && 0 <= q < total) by (nonlinear_arith)
                requires 0 <= k < total * r, r > 0, q == k / (r as int), idx == k % (r as int);
            assert(ms[q * r + idx].group_id == q as usize);
            let gid = m.group_id;
            assert(gid as int == q);
            lemma_filter_group(lay, total, gid);
        }
    }
}

/// Each member of a layout runs on the node its slot lands on and keeps its
/// data under that node's data directory at the node's own index (the
/// node's last directory when it has fewer), in a `group_{g}_node_{idx}`
/// directory of its own.
pub proof fn lemma_member_storage_dir(nodes: Seq<LogServiceNode>, r: nat, wrap: bool, prefix: Seq<char>, groups: nat, g: int, idx: int)
    requires
        0 <= g < groups,
        0 <= idx < r,
    ensures
        ({
            let id = slot_node(nodes, r, wrap, g as nat, idx as nat);
            let m = layout(nodes, r, wrap, prefix, groups)[g][idx];
            let dirs = nodes[id].data_dir@;
            let tail = "/group_"@ + decimal(g as nat) + "_node_"@ + decimal(idx as nat);
            &&& m.member_host == nodes[id].host@
            &&& m.group_id == g as usize
            &&& id < dirs.len() ==> m.storage_path == dirs[id]@ + tail
            &&& id >= dirs.len() ==> m.storage_path == dirs.last()@ + tail
        }),
{
    let id = slot_node(nodes, r, wrap, g as nat, idx as nat);
    let dirs = nodes[id].data_dir@;
    let tail = "/group_"@ + decimal(g as nat) + "_node_"@ + decimal(idx as nat);
    let m = layout(nodes, r, wrap, prefix, groups)[g][idx];
    if id < dirs.len() {
        assert(m.storage_path =~= dirs[id]@ + tail);
    } else {
        assert(m.storage_path =~= dirs.last()@ + tail);
    }
}

} // verus!
