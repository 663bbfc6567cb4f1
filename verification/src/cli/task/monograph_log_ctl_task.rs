//! Starting, stopping and checking the log-service processes: the shell
//! command for each process, keyed by the process's host and port.
use crate::cli::config::DeploymentConfig;
use crate::cli::task::task_base::{TaskExecutionContext, TaskHost, TaskId, TaskValue};
use crate::config::deployment::{LogCmdItems, LogProcessKey, LogService};
use crate::config::log_service::{CmdItemView, MemberView, start_cmds_of};
use crate::text::{copy_string, decimal, dedup, join_strings, replace_all, replace_str, seq_join, str_eq, u64_to_string, unique_strings};
use vstd::prelude::*;

verus! {

/// The key of a log-control task's input that names the cluster command.
pub const CLUSTER_COMMAND_STR: &'static str = "cluster_cmd";

/// The template of the shell line that finds the log processes of a group.
pub const FIND_LOG_PROCESS_CMD: &'static str = "ps uxwe -u _USER | grep -E 'conf=_MEMBER_CONF|_LOG_BIN_CMD' \\\n| grep -v grep | awk '{print _COLUMN}'";

/// A log-process control command and the shell line that carries it out.
#[derive(Debug, PartialEq, Eq, Clone)]
pub enum LogCtlCmd {
    Start(String),
    Stop(String),
    Status(String),
}

/// What the cluster command asks of the log processes.
#[derive(Debug, PartialEq, Eq, Clone, Copy)]
pub enum LogCtlAction {
    Start,
    Status,
    Stop { force: bool },
}

impl LogCtlCmd {
    /// The variant's name and its shell line.
    pub open spec fn parts(self) -> (Seq<char>, Seq<char>) {
        match self {
            LogCtlCmd::Start(c) => ("Start"@, c@),
            LogCtlCmd::Stop(c) => ("Stop"@, c@),
            LogCtlCmd::Status(c) => ("Status"@, c@),
        }
    }

    /// The shell line of the command.
    pub fn cmd_value(&self) -> (v: String)
        ensures
            v@ == self.parts().1,
    {
        match self {
            LogCtlCmd::Start(c) | LogCtlCmd::Stop(c) | LogCtlCmd::Status(c) => copy_string(c),
        }
    }
}

/// The shell line that finds the processes of the group whose member list
/// is `conf`, run by `user`, printing column `$2` (the pid).
pub open spec fn ps_cmd_text(user: Seq<char>, conf: Seq<char>, log_home: Seq<char>) -> Seq<char> {
    replace_all(
        replace_all(
            replace_all(replace_all(FIND_LOG_PROCESS_CMD@, "_USER"@, user), "_MEMBER_CONF"@, conf),
            "_LOG_BIN_CMD"@,
            log_home + "/bin/launch_sv"@,
        ),
        "_COLUMN"@,
        "$2"@,
    )
}

/// The command for one log process.
pub open spec fn ctl_cmd_for(action: LogCtlAction, log_home: Seq<char>, user: Seq<char>, item: CmdItemView) -> (Seq<char>, Seq<char>) {
    let host = item.log_member.member_host;
    let port = item.log_member.port;
    let ps = ps_cmd_text(user, item.group_members_config, log_home);
    match action {
        LogCtlAction::Start => ("Start"@, log_home + "/start_log_"@ + host + "_"@ + decimal(port as nat) + ".bash"@),
        LogCtlAction::Status => ("Status"@, ps),
        LogCtlAction::Stop { force } => ("Stop"@, if force { ps + " | xargs kill -9"@ } else { ps + " | xargs kill"@ }),
    }
}

/// A process key by its contents.
pub open spec fn key_view(k: LogProcessKey) -> (Seq<char>, u16) {
    (k.host@, k.port)
}

/// The entries of a list of keyed commands, by their contents.
pub open spec fn keyed_view(v: Seq<(LogProcessKey, LogCtlCmd)>) -> Seq<((Seq<char>, u16), (Seq<char>, Seq<char>))> {
    v.map_values(|e: (LogProcessKey, LogCtlCmd)| (key_view(e.0), e.1.parts()))
}

/// The position of the entry with key `k`, or -1.
pub open spec fn key_position(e: Seq<((Seq<char>, u16), (Seq<char>, Seq<char>))>, k: (Seq<char>, u16)) -> int
    decreases e.len(),
{
    if e.len() == 0 {
        -1
    } else if key_position(e.drop_last(), k) >= 0 {
        key_position(e.drop_last(), k)
    } else if e.last().0 == k {
        e.len() - 1
    } else {
        -1
    }
}

/// The entries after `(k, v)` is put: an entry with the same key takes the
/// new command in its place; a new key goes last.
pub open spec fn entries_put(e: Seq<((Seq<char>, u16), (Seq<char>, Seq<char>))>, k: (Seq<char>, u16), v: (Seq<char>, Seq<char>)) -> Seq<((Seq<char>, u16), (Seq<char>, Seq<char>))> {
    let i = key_position(e, k);
    if i >= 0 { e.update(i, (k, v)) } else { e.push((k, v)) }
}

/// The map that collecting `list` into a map keyed by process gives: for
/// each key, the command of its last entry.
pub open spec fn entries_collect(list: Seq<((Seq<char>, u16), (Seq<char>, Seq<char>))>) -> Seq<((Seq<char>, u16), (Seq<char>, Seq<char>))>
    decreases list.len(),
{
    if list.len() == 0 {
        Seq::empty()
    } else {
        entries_put(entries_collect(list.drop_last()), list.last().0, list.last().1)
    }
}

/// The start items of all processes, host after host.
pub open spec fn all_items(ms: Seq<MemberView>) -> Seq<CmdItemView> {
    start_cmds_of(ms).map_values(|e: (Seq<char>, Seq<CmdItemView>)| e.1).flatten()
}

/// Whether an item passes the filter: every item without one, else the one
/// process it names.
pub open spec fn item_selected(only: Option<(Seq<char>, u16)>, item: CmdItemView) -> bool {
    match only {
        None => true,
        Some(k) => item.log_member.member_host == k.0 && item.log_member.port == k.1,
    }
}

/// The keyed commands for the selected items, in order.
pub open spec fn keyed_cmds(items: Seq<CmdItemView>, action: LogCtlAction, log_home: Seq<char>, user: Seq<char>, only: Option<(Seq<char>, u16)>) -> Seq<((Seq<char>, u16), (Seq<char>, Seq<char>))>
    decreases items.len(),
{
    if items.len() == 0 {
        Seq::empty()
    } else {
        let prev = keyed_cmds(items.drop_last(), action, log_home, user, only);
        let item = items.last();
        if item_selected(only, item) {
            prev.push(((item.log_member.member_host, item.log_member.port), ctl_cmd_for(action, log_home, user, item)))
        } else {
            prev
        }
    }
}

proof fn lemma_key_position(e: Seq<((Seq<char>, u16), (Seq<char>, Seq<char>))>, k: (Seq<char>, u16))
    ensures
        key_position(e, k) >= 0 ==> key_position(e, k) < e.len() && e[key_position(e, k)].0 == k,
        key_position(e, k) < 0 ==> key_position(e, k) == -1 && forall|j: int| 0 <= j < e.len() ==> e[j].0 != k,
    decreases e.len(),
{
    if e.len() > 0 {
        lemma_key_position(e.drop_last(), k);
        if key_position(e, k) < 0 {
            assert forall|j: int| 0 <= j < e.len() implies e[j].0 != k by {
                if j < e.len() - 1 {
                    assert(e.drop_last()[j] == e[j]);
                }
            }
        }
    }
}

proof fn lemma_key_position_first(e: Seq<((Seq<char>, u16), (Seq<char>, Seq<char>))>, k: (Seq<char>, u16), i: int)
    requires
        0 <= i < e.len(),
        e[i].0 == k,
        forall|j: int| 0 <= j < i ==> e[j].0 != k,
    ensures
        key_position(e, k) == i,
    decreases e.len(),
{
    if i < e.len() - 1 {
        lemma_key_position_first(e.drop_last(), k, i);
    } else {
        lemma_key_position(e.drop_last(), k);
    }
}

/// The command for one process.
fn ctl_cmd(action: &LogCtlAction, log_home: &str, user: &str, item: &LogCmdItems) -> (c: LogCtlCmd)
    ensures
        c.parts() == ctl_cmd_for(*action, log_home@, user@, item@),
{
    proof {
        reveal_strlit("_USER");
        reveal_strlit("_MEMBER_CONF");
        reveal_strlit("_LOG_BIN_CMD");
        reveal_strlit("_COLUMN");
        reveal_strlit("$2");
        reveal_strlit("/bin/launch_sv");
        reveal_strlit("/start_log_");
        reveal_strlit("_");
        reveal_strlit(".bash");
        reveal_strlit(" | xargs kill -9");
        reveal_strlit(" | xargs kill");
    }
    let host = &item.log_member.member_host;
    let log_port = item.log_member.port;
    let mut bin = String::from_str(log_home);
    bin.append("/bin/launch_sv");
    let p1 = replace_str(FIND_LOG_PROCESS_CMD, "_USER", user);
    let p2 = replace_str(p1.as_str(), "_MEMBER_CONF", item.group_members_config.as_str());
    let p3 = replace_str(p2.as_str(), "_LOG_BIN_CMD", bin.as_str());
    let ps_cmd_part = replace_str(p3.as_str(), "_COLUMN", "$2");
    match action {
        LogCtlAction::Start => {
            let mut s = String::from_str(log_home);
            s.append("/start_log_");
            s.append(host.as_str());
            s.append("_");
            s.append(u64_to_string(log_port as u64).as_str());
            s.append(".bash");
            LogCtlCmd::Start(s)
        },
        LogCtlAction::Status => LogCtlCmd::Status(ps_cmd_part),
        LogCtlAction::Stop { force } => {
            let mut s = ps_cmd_part;
            if *force {
                s.append(" | xargs kill -9");
            } else {
                s.append(" | xargs kill");
            }
            LogCtlCmd::Stop(s)
        },
    }
}

/// Puts `(key, cmd)` into the keyed list: an entry with the same key takes
/// the new command in its place; a new key goes last.
fn put_keyed(res: &mut Vec<(LogProcessKey, LogCtlCmd)>, key: LogProcessKey, cmd: LogCtlCmd)
    ensures
        keyed_view(final(res)@) == entries_put(keyed_view(old(res)@), key_view(key), cmd.parts()),
{
    let ghost e = keyed_view(res@);
    let mut i: usize = 0;
    while i < res.len()
        invariant
            0 <= i <= res.len(),
            res@ == old(res)@,
            e == keyed_view(res@),
            forall|j: int| 0 <= j < i ==> e[j].0 != key_view(key),
        decreases res.len() - i,
    {
        if res[i].0.port == key.port && str_eq(res[i].0.host.as_str(), key.host.as_str()) {
            proof {
                lemma_key_position_first(e, key_view(key), i as int);
            }
            res.set(i, (key, cmd));
            proof {
                assert(keyed_view(res@) =~= e.update(i as int, (key_view(key), cmd.parts())));
            }
            return;
        }
        i = i + 1;
    }
    proof {
        lemma_key_position(e, key_view(key));
        if key_position(e, key_view(key)) >= 0 {
            assert(e[key_position(e, key_view(key))].0 == key_view(key));
        }
    }
    res.push((key, cmd));
    proof {
        assert(keyed_view(res@) =~= e.push((key_view(key), cmd.parts())));
    }
}

/// The items of the start commands, host after host, in one list.
fn flatten_items(groups: &Vec<(String, Vec<LogCmdItems>)>) -> (items: Vec<LogCmdItems>)
    ensures
        items@.map_values(|c: LogCmdItems| c@) == crate::config::log_service::cmd_entries_view(groups@).map_values(|e: (Seq<char>, Seq<CmdItemView>)| e.1).flatten(),
{
    let ghost gv = crate::config::log_service::cmd_entries_view(groups@).map_values(|e: (Seq<char>, Seq<CmdItemView>)| e.1);
    let mut items: Vec<LogCmdItems> = Vec::new();
    let mut g: usize = 0;
    while g < groups.len()
        invariant
            0 <= g <= groups.len(),
            gv == crate::config::log_service::cmd_entries_view(groups@).map_values(|e: (Seq<char>, Seq<CmdItemView>)| e.1),
            items@.map_values(|c: LogCmdItems| c@) =~= gv.take(g as int).flatten(),
        decreases groups.len() - g,
    {
        let group = &groups[g].1;
        assert(gv[g as int] == group@.map_values(|c: LogCmdItems| c@));
        let ghost base = items@.map_values(|c: LogCmdItems| c@);
        let mut k: usize = 0;
        while k < group.len()
            invariant
                0 <= k <= group.len(),
                items@.map_values(|c: LogCmdItems| c@) =~= base + group@.map_values(|c: LogCmdItems| c@).take(k as int),
            decreases group.len() - k,
        {
            let item = &group[k];
            let copy = LogCmdItems {
                group_members_config: copy_string(&item.group_members_config),
                log_member: crate::config::log_service::copy_member(&item.log_member),
            };
            let ghost before = items@;
            items.push(copy);
            assert(items@.map_values(|c: LogCmdItems| c@) =~= before.map_values(|c: LogCmdItems| c@).push(item@));
            k = k + 1;
        }
        proof {
            assert(group@.map_values(|c: LogCmdItems| c@).take(group.len() as int) =~= group@.map_values(|c: LogCmdItems| c@));
            assert(gv.take(g + 1) =~= gv.take(g as int).push(gv[g as int]));
            gv.take(g as int).lemma_flatten_push(gv[g as int]);
        }
        g = g + 1;
    }
    assert(gv.take(groups.len() as int) =~= gv);
    items
}

/// The keyed commands for the items that `picked` marks (by index), in order.
pub open spec fn keyed_cmds_picked(items: Seq<CmdItemView>, action: LogCtlAction, log_home: Seq<char>, user: Seq<char>, picked: Seq<bool>) -> Seq<((Seq<char>, u16), (Seq<char>, Seq<char>))>
    decreases items.len(),
{
    if items.len() == 0 {
        Seq::empty()
    } else {
        let prev = keyed_cmds_picked(items.drop_last(), action, log_home, user, picked);
        let item = items.last();
        if picked[items.len() - 1] {
            prev.push(((item.log_member.member_host, item.log_member.port), ctl_cmd_for(action, log_home, user, item)))
        } else {
            prev
        }
    }
}

/// `test` may answer `b` for the item's host and port.
pub open spec fn picked_by<F: Fn(String, u16) -> bool>(test: F, item: CmdItemView, b: bool) -> bool {
    exists|h: String| h@ == item.log_member.member_host && call_ensures(test, (h, item.log_member.port), b)
}

/// Only the marks of the items count.
proof fn lemma_keyed_picked_prefix(items: Seq<CmdItemView>, action: LogCtlAction, log_home: Seq<char>, user: Seq<char>, p1: Seq<bool>, p2: Seq<bool>)
    requires
        items.len() <= p1.len(),
        items.len() <= p2.len(),
        forall|i: int| 0 <= i < items.len() ==> p1[i] == p2[i],
    ensures
        keyed_cmds_picked(items, action, log_home, user, p1) == keyed_cmds_picked(items, action, log_home, user, p2),
    decreases items.len(),
{
    if items.len() > 0 {
        lemma_keyed_picked_prefix(items.drop_last(), action, log_home, user, p1, p2);
    }
}

/// Marking the items a filter selects gives the filter's commands.
proof fn lemma_keyed_picked_filter(items: Seq<CmdItemView>, action: LogCtlAction, log_home: Seq<char>, user: Seq<char>, picked: Seq<bool>, only: Option<(Seq<char>, u16)>)
    requires
        items.len() <= picked.len(),
        forall|i: int| 0 <= i < items.len() ==> picked[i] == item_selected(only, items[i]),
    ensures
        keyed_cmds_picked(items, action, log_home, user, picked) == keyed_cmds(items, action, log_home, user, only),
    decreases items.len(),
{
    if items.len() > 0 {
        lemma_keyed_picked_filter(items.drop_last(), action, log_home, user, picked, only);
    }
}

impl LogCtlCmd {
    /// The command for every log process of `log_srv` for whose host and
    /// port `test` answers true, keyed by the process's host and port; a
    /// key met twice keeps the later command. `test` is asked once per
    /// process, in order. `log_home` is the log service's home directory and
    /// `user` the user the processes run as.
    pub fn build_cmd_with_predicate<F: Fn(String, u16) -> bool>(
        log_home: &str,
        user: &str,
        log_srv: &LogService,
        action: LogCtlAction,
        test: &F,
    ) -> (res: Vec<(LogProcessKey, LogCtlCmd)>)
        requires
            log_srv.layout_ready(),
            forall|h: String, p: u16| call_requires(*test, (h, p)),
        ensures
            exists|picked: Seq<bool>| {
                &&& picked.len() == all_items(log_srv.members_spec()).len()
                &&& forall|i: int| 0 <= i < picked.len() ==> picked_by(*test, all_items(log_srv.members_spec())[i], #[trigger] picked[i])
                &&& keyed_view(res@) == entries_collect(keyed_cmds_picked(all_items(log_srv.members_spec()), action, log_home@, user@, picked))
            },
    {
        let log_cmd_binding = log_srv.log_start_cmd();
        let log_cmds = flatten_items(&log_cmd_binding);
        let ghost items = all_items(log_srv.members_spec());
        assert(log_cmds@.map_values(|c: LogCmdItems| c@) == items);
        let ghost mut picked: Seq<bool> = Seq::empty();
        let mut res: Vec<(LogProcessKey, LogCtlCmd)> = Vec::new();
        let mut i: usize = 0;
        while i < log_cmds.len()
            invariant
                0 <= i <= log_cmds.len(),
                log_cmds@.map_values(|c: LogCmdItems| c@) == items,
                forall|h: String, p: u16| call_requires(*test, (h, p)),
                picked.len() == i,
                forall|j: int| 0 <= j < i ==> picked_by(*test, items[j], #[trigger] picked[j]),
                keyed_view(res@) == entries_collect(keyed_cmds_picked(items.take(i as int), action, log_home@, user@, picked)),
            decreases log_cmds.len() - i,
        {
            let item = &log_cmds[i];
            assert(items[i as int] == item@);
            assert(items.take(i + 1).drop_last() =~= items.take(i as int));
            let host = copy_string(&item.log_member.member_host);
            let selected = test(host, item.log_member.port);
            let ghost old_picked = picked;
            proof {
                picked = picked.push(selected);
                assert(picked_by(*test, items[i as int], selected));
                lemma_keyed_picked_prefix(items.take(i as int), action, log_home@, user@, old_picked, picked);
            }
            if selected {
                let cmd = ctl_cmd(&action, log_home, user, item);
                let key = LogProcessKey { host: copy_string(&item.log_member.member_host), port: item.log_member.port };
                let ghost prev = keyed_cmds_picked(items.take(i as int), action, log_home@, user@, picked);
                let ghost entry = (key_view(key), cmd.parts());
                put_keyed(&mut res, key, cmd);
                proof {
                    assert(keyed_cmds_picked(items.take(i + 1), action, log_home@, user@, picked) == prev.push(entry));
                    assert(prev.push(entry).drop_last() =~= prev);
                }
            }
            i = i + 1;
        }
        assert(items.take(log_cmds.len() as int) =~= items);
        res
    }

    /// The command for every log process of `log_srv` that `only` selects
    /// (all of them without it), keyed by the process's host and port: the
    /// commands of `build_cmd_with_predicate` with the test that the host
    /// and port are those of `only`.
    pub fn build_cmd_for(
        log_home: &str,
        user: &str,
        log_srv: &LogService,
        action: LogCtlAction,
        only: Option<&LogProcessKey>,
    ) -> (res: Vec<(LogProcessKey, LogCtlCmd)>)
        requires
            log_srv.layout_ready(),
        ensures
            keyed_view(res@) == entries_collect(keyed_cmds(all_items(log_srv.members_spec()), action, log_home@, user@,
                match only { Some(k) => Some(key_view(*k)), None => None })),
    {
        let ghost sel = match only { Some(k) => Some(key_view(*k)), None => None };
        let ghost items = all_items(log_srv.members_spec());
        let want_host: String = match only { Some(k) => copy_string(&k.host), None => String::new() };
        let want_port: u16 = match only { Some(k) => k.port, None => 0 };
        let any = only.is_none();
        let test = |h: String, p: u16| -> (b: bool)
            ensures
                b == (any || (h@ == want_host@ && p == want_port)),
        {
            any || (str_eq(h.as_str(), want_host.as_str()) && p == want_port)
        };
        let res = LogCtlCmd::build_cmd_with_predicate(log_home, user, log_srv, action, &test);
        proof {
            let picked = choose|picked: Seq<bool>| {
                &&& picked.len() == items.len()
                &&& forall|i: int| 0 <= i < picked.len() ==> picked_by(test, items[i], #[trigger] picked[i])
                &&& keyed_view(res@) == entries_collect(keyed_cmds_picked(items, action, log_home@, user@, picked))
            };
            assert forall|i: int| 0 <= i < items.len() implies picked[i] == item_selected(sel, items[i]) by {
                assert(picked_by(test, items[i], picked[i]));
                let h = choose|h: String| h@ == items[i].log_member.member_host && call_ensures(test, (h, items[i].log_member.port), picked[i]);
            }
            lemma_keyed_picked_filter(items, action, log_home@, user@, picked, sel);
        }
        res
    }

    /// The command for every log process of `log_srv`, keyed by the
    /// process's host and port.
    pub fn build_cmd(log_home: &str, user: &str, log_srv: &LogService, action: LogCtlAction) -> (res: Vec<(LogProcessKey, LogCtlCmd)>)
        requires
            log_srv.layout_ready(),
        ensures
            keyed_view(res@) == entries_collect(keyed_cmds(all_items(log_srv.members_spec()), action, log_home@, user@, None)),
    {
        LogCtlCmd::build_cmd_for(log_home, user, log_srv, action, None)
    }
}

/// A task that controls the log processes of one host.
#[derive(Clone, Debug)]
pub struct MonographLogCtlTask {
    pub config: DeploymentConfig,
    pub task_id: TaskId,
    pub log_cmd: Vec<(LogProcessKey, LogCtlCmd)>,
}

impl MonographLogCtlTask {
    /// A task for `config` that runs `log_cmd`.
    pub fn new(config: DeploymentConfig, task_id: TaskId, log_cmd: Vec<(LogProcessKey, LogCtlCmd)>) -> (t: Self)
        ensures
            t.config == config,
            t.task_id == task_id,
            t.log_cmd == log_cmd,
    {
        MonographLogCtlTask { config, task_id, log_cmd }
    }

    /// The shell lines of the commands, joined by `;` into one remote command.
    pub fn remote_cmd(log_ctl_cmd: &Vec<(LogProcessKey, LogCtlCmd)>) -> (cmd: String)
        ensures
            cmd@ == seq_join(keyed_view(log_ctl_cmd@).map_values(|e: ((Seq<char>, u16), (Seq<char>, Seq<char>))| e.1.1), ";"@),
    {
        let mut values: Vec<String> = Vec::new();
        let mut i: usize = 0;
        while i < log_ctl_cmd.len()
            invariant
                0 <= i <= log_ctl_cmd.len(),
                values.deep_view() =~= keyed_view(log_ctl_cmd@).take(i as int).map_values(|e: ((Seq<char>, u16), (Seq<char>, Seq<char>))| e.1.1),
            decreases log_ctl_cmd.len() - i,
        {
            let ghost before = values.deep_view();
            values.push(log_ctl_cmd[i].1.cmd_value());
            assert(keyed_view(log_ctl_cmd@).take(i + 1) =~= keyed_view(log_ctl_cmd@).take(i as int).push(keyed_view(log_ctl_cmd@)[i as int]));
            assert(values.deep_view() =~= before.push(log_ctl_cmd@[i as int].1.parts().1));
            i = i + 1;
        }
        assert(keyed_view(log_ctl_cmd@).take(log_ctl_cmd.len() as int) =~= keyed_view(log_ctl_cmd@));
        join_strings(&values, ";")
    }
}

/// The word a log-control action is handed to its task as.
pub open spec fn action_word(action: LogCtlAction) -> Seq<char> {
    match action {
        LogCtlAction::Start => "start"@,
        LogCtlAction::Status => "status"@,
        LogCtlAction::Stop { .. } => "stop"@,
    }
}

/// The hosts of keyed commands, each at its first occurrence.
pub open spec fn keyed_hosts(e: Seq<((Seq<char>, u16), (Seq<char>, Seq<char>))>) -> Seq<Seq<char>> {
    dedup(e.map_values(|x: ((Seq<char>, u16), (Seq<char>, Seq<char>))| x.0.0))
}

/// The keyed commands of one host, in order.
pub open spec fn keyed_of_host(e: Seq<((Seq<char>, u16), (Seq<char>, Seq<char>))>, host: Seq<char>) -> Seq<((Seq<char>, u16), (Seq<char>, Seq<char>))> {
    e.filter(|x: ((Seq<char>, u16), (Seq<char>, Seq<char>))| x.0.0 == host)
}

fn action_word_of(action: &LogCtlAction) -> (w: &'static str)
    ensures
        w@ == action_word(*action),
{
    match action {
        LogCtlAction::Start => "start",
        LogCtlAction::Status => "status",
        LogCtlAction::Stop { .. } => "stop",
    }
}

fn copy_cmd(c: &LogCtlCmd) -> (r: LogCtlCmd)
    ensures
        r.parts() == c.parts(),
{
    match c {
        LogCtlCmd::Start(x) => LogCtlCmd::Start(copy_string(x)),
        LogCtlCmd::Stop(x) => LogCtlCmd::Stop(copy_string(x)),
        LogCtlCmd::Status(x) => LogCtlCmd::Status(copy_string(x)),
    }
}

fn keyed_on_host(cmds: &Vec<(LogProcessKey, LogCtlCmd)>, host: &String) -> (r: Vec<(LogProcessKey, LogCtlCmd)>)
    ensures
        keyed_view(r@) == keyed_of_host(keyed_view(cmds@), host@),
{
    let ghost e = keyed_view(cmds@);
    let ghost pred = |x: ((Seq<char>, u16), (Seq<char>, Seq<char>))| x.0.0 == host@;
    let mut r: Vec<(LogProcessKey, LogCtlCmd)> = Vec::new();
    let mut i: usize = 0;
    while i < cmds.len()
        invariant
            0 <= i <= cmds.len(),
            e == keyed_view(cmds@),
            pred == (|x: ((Seq<char>, u16), (Seq<char>, Seq<char>))| x.0.0 == host@),
            keyed_view(r@) == e.take(i as int).filter(pred),
        decreases cmds.len() - i,
    {
        proof {
            crate::config::log_service::lemma_filter_push(e.take(i as int), e[i as int], pred);
            assert(e.take(i + 1) =~= e.take(i as int).push(e[i as int]));
        }
        if str_eq(cmds[i].0.host.as_str(), host.as_str()) {
            let ghost before = r@;
            r.push((LogProcessKey { host: copy_string(&cmds[i].0.host), port: cmds[i].0.port }, copy_cmd(&cmds[i].1)));
            assert(keyed_view(r@) =~= keyed_view(before).push(e[i as int]));
        }
        i = i + 1;
    }
    assert(e.take(cmds.len() as int) =~= e);
    r
}

impl MonographLogCtlTask {
    /// One log-control task per host of the log service, in order of first
    /// occurrence, holding the commands of that host's processes: run over
    /// SSH as the connection's user and port and handed the action's word
    /// under `cluster_cmd`.
    pub fn from_config(config: &DeploymentConfig, action: LogCtlAction, log_home: &str) -> (tasks: Vec<TaskExecutionContext<MonographLogCtlTask>>)
        requires
            config.deployment.log_service is Some,
            config.deployment.log_service->0.layout_ready(),
        ensures
            ({
                let e = entries_collect(keyed_cmds(all_items(config.deployment.log_service->0.members_spec()), action,
                    log_home@, config.connection.username@, None));
                &&& tasks@.len() == keyed_hosts(e).len()
                &&& forall|i: int| 0 <= i < tasks@.len() ==> {
                    let t = #[trigger] tasks@[i];
                    &&& t.task_input@.len() == 1
                    &&& t.task_input@[0].0@ == CLUSTER_COMMAND_STR@
                    &&& t.task_input@[0].1 matches TaskValue::Str(w) && w@ == action_word(action)
                    &&& t.task.task_id.cmd@ == "monograph_log_ctl"@
                    &&& t.task.task_id.task@ == action_word(action)
                    &&& t.task.config@ == config@
                    &&& keyed_view(t.task.log_cmd@) == keyed_of_host(e, keyed_hosts(e)[i])
                    &&& t.task_host matches TaskHost::Remote { user, port, hosts }
                    &&& user@ == config.connection.username@
                    &&& port == config.connection.ssh_port_spec() as usize
                    &&& hosts@ == keyed_hosts(e)[i]
                }
            }),
    {
        proof {
            reveal_strlit("monograph_log_ctl");
            reveal_strlit("cluster_cmd");
        }
        let log_srv = match &config.deployment.log_service {
            Some(ls) => ls,
            None => {
                proof {
                    assert(false);
                }
                return Vec::new();
            },
        };
        let user = &config.connection.username;
        let port = config.connection.ssh_port();
        let cmds = LogCtlCmd::build_cmd(log_home, user.as_str(), log_srv, action);
        let ghost e = keyed_view(cmds@);
        let mut all_hosts: Vec<String> = Vec::new();
        let mut k: usize = 0;
        while k < cmds.len()
            invariant
                0 <= k <= cmds.len(),
                e == keyed_view(cmds@),
                all_hosts.deep_view() =~= e.take(k as int).map_values(|x: ((Seq<char>, u16), (Seq<char>, Seq<char>))| x.0.0),
            decreases cmds.len() - k,
        {
            let ghost before = all_hosts.deep_view();
            all_hosts.push(copy_string(&cmds[k].0.host));
            assert(all_hosts.deep_view() =~= before.push(e[k as int].0.0));
            assert(e.take(k + 1) =~= e.take(k as int).push(e[k as int]));
            k = k + 1;
        }
        assert(e.take(cmds.len() as int) =~= e);
        let hosts = unique_strings(&all_hosts);
        let word = action_word_of(&action);
        let mut tasks: Vec<TaskExecutionContext<MonographLogCtlTask>> = Vec::new();
        let mut i: usize = 0;
        while i < hosts.len()
            invariant
                0 <= i <= hosts.len(),
                e == keyed_view(cmds@),
                e == entries_collect(keyed_cmds(all_items(config.deployment.log_service->0.members_spec()), action,
                    log_home@, config.connection.username@, None)),
                hosts.deep_view() == keyed_hosts(e),
                word@ == action_word(action),
                port == config.connection.ssh_port_spec(),
                user == &config.connection.username,
                tasks@.len() == i,
                forall|j: int| 0 <= j < i ==> {
                    let t = #[trigger] tasks@[j];
                    &&& t.task_input@.len() == 1
                    &&& t.task_input@[0].0@ == CLUSTER_COMMAND_STR@
                    &&& t.task_input@[0].1 matches TaskValue::Str(w) && w@ == action_word(action)
                    &&& t.task.task_id.cmd@ == "monograph_log_ctl"@
                    &&& t.task.task_id.task@ == action_word(action)
                    &&& t.task.config@ == config@
                    &&& keyed_view(t.task.log_cmd@) == keyed_of_host(e, keyed_hosts(e)[j])
                    &&& t.task_host matches TaskHost::Remote { user, port, hosts }
                    &&& user@ == config.connection.username@
                    &&& port == config.connection.ssh_port_spec() as usize
                    &&& hosts@ == keyed_hosts(e)[j]
                },
            decreases hosts.len() - i,
        {
            let host = &hosts[i];
            let log_cmd = keyed_on_host(&cmds, host);
            let task = MonographLogCtlTask::new(
                config.copy(),
                TaskId { cmd: String::from_str("monograph_log_ctl"), task: String::from_str(word) },
                log_cmd,
            );
            let ctx = TaskExecutionContext {
                task_input: vec![(String::from_str(CLUSTER_COMMAND_STR), TaskValue::Str(String::from_str(word)))],
                task,
                task_host: TaskHost::Remote { user: copy_string(user), port: port as usize, hosts: copy_string(host) },
            };
            tasks.push(ctx);
            i = i + 1;
        }
        tasks
    }
}

/// A stop kills the processes the status command finds: a stop without
/// force is the status command followed by ` | xargs kill` (a plain
/// `kill`, which sends SIGTERM), and a forced stop is exactly that with
/// ` -9` appended (SIGKILL).
pub proof fn lemma_stop_commands(log_home: Seq<char>, user: Seq<char>, item: CmdItemView)
    ensures
        ctl_cmd_for(LogCtlAction::Stop { force: false }, log_home, user, item).1
            == ctl_cmd_for(LogCtlAction::Status, log_home, user, item).1 + " | xargs kill"@,
        ctl_cmd_for(LogCtlAction::Stop { force: true }, log_home, user, item).1
            == ctl_cmd_for(LogCtlAction::Stop { force: false }, log_home, user, item).1 + " -9"@,
        ctl_cmd_for(LogCtlAction::Stop { force: false }, log_home, user, item).0 == "Stop"@,
        ctl_cmd_for(LogCtlAction::Stop { force: true }, log_home, user, item).0 == "Stop"@,
{
    reveal_strlit(" | xargs kill");
    reveal_strlit(" | xargs kill -9");
    reveal_strlit(" -9");
    let ps = ps_cmd_text(user, item.group_members_config, log_home);
    assert(ps + " | xargs kill -9"@ =~= ps + " | xargs kill"@ + " -9"@);
}

/// A start runs the start script of the item's own process: the
/// `start_log_{host}_{port}.bash` script in the log service's home, for the
/// host and port of the item's member.
pub proof fn lemma_start_command(log_home: Seq<char>, user: Seq<char>, item: CmdItemView)
    ensures
        ctl_cmd_for(LogCtlAction::Start, log_home, user, item)
            == ("Start"@, log_home + "/start_log_"@ + item.log_member.member_host + "_"@ + decimal(item.log_member.port as nat) + ".bash"@),
{
}

} // verus!
