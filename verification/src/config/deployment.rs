//! A deployment: its ports and services, the log service laid out with
//! wrapping groups, and the MonographDB configuration generated from it.
pub use crate::config::log_service::{LogCmdItems, LogGroupMember, LogProcessKey, LogServiceNode};
use crate::config::log_service::{
    cmd_entries_view, flatten_groups, group_count, group_count_of, host_entries_view, host_groups,
    host_members, layout, layout_check, layout_members, layout_node_ids, layout_ok, member_config,
    member_config_entries, members_view, node_hosts, node_ids_spec, start_cmd_items, start_cmds_of, unique_node_hosts, MemberView, LOG_SRV_REPLICA_NUM,
};
use crate::ini_file::{
    apply_settings, ini_entries, keys_stored, lemma_settings_applied_concat, lemma_settings_applied_last_wins, pairs_view,
    push_setting, settings_applied, };
use crate::ordered_map::{index_map_entries, index_map_values};
use crate::text::{copy_opt_string, copy_strings, opt_view, copy_string, decimal, dedup, join_strings, min_string, seq_join, seq_lt, str_eq, u64_to_string, usize_to_string};
use configparser::ini::Ini;
use indexmap::IndexMap;
use std::collections::HashMap;
use vstd::prelude::*;

verus! {

broadcast use vstd::std_specs::hash::group_hash_axioms;

/// The MonographDB configuration template for a Cassandra store.
pub const MONOGRAPH_CONF_TEMPLATE: &'static str = "my_template.cnf";

/// The MonographDB configuration template for a DynamoDB store.
pub const MONOGRAPH_CONF_DYNAMO_TEMPLATE: &'static str = "my_dynamo_template.cnf";

/// The section of the MonographDB configuration that the settings go to.
pub const CONFIG_MARIADB_SECTION: &'static str = "mariadb";

/// The directory of the transaction service under the install directory.
pub const MONOGRAPH_TX_SERVICE_DIR: &'static str = "monographdb-release";

/// The MySQL port and the port range of the transaction service.
#[derive(PartialEq, Debug, Clone)]
pub struct Port {
    pub mysql_port: u16,
    pub monograph_port: MonographPort,
}

/// A port range; its start is the port of the transaction service.
#[derive(PartialEq, Debug, Clone)]
pub struct MonographPort {
    pub start: u16,
    pub end: u16,
}

/// The hosts of the transaction service.
#[derive(PartialEq, Debug, Clone)]
pub struct MonographService {
    pub host: Vec<String>,
}

/// The log service of a deployment: its hosts and the replicas per group.
#[derive(PartialEq, Debug, Clone)]
pub struct LogService {
    pub nodes: Vec<LogServiceNode>,
    pub replica: Option<u32>,
}

/// A Cassandra store and its hosts.
#[derive(PartialEq, Debug, Clone)]
pub struct CassandraStorage {
    pub host: Vec<String>,
}

/// A DynamoDB store and the credentials to reach it.
#[derive(PartialEq, Debug, Clone)]
pub struct DynamoDbStorage {
    pub access_key_id: String,
    pub secret_key: String,
    pub region: String,
    pub endpoint: String,
}

/// The data store of a deployment: Cassandra, or else DynamoDB.
#[derive(PartialEq, Debug, Clone)]
pub struct StorageService {
    pub cassandra: Option<CassandraStorage>,
    pub dynamodb: Option<DynamoDbStorage>,
}

/// A host of a monitoring component.
#[derive(PartialEq, Debug, Clone)]
pub struct MonitorNode {
    pub host: String,
}

/// The monitoring components of a deployment.
#[derive(PartialEq, Debug, Clone)]
pub struct Monitor {
    pub prometheus: MonitorNode,
    pub grafana: MonitorNode,
}

/// A MonographDB deployment.
#[derive(PartialEq, Debug, Clone)]
pub struct Deployment {
    pub tx_image: String,
    pub log_image: Option<String>,
    pub cluster_name: String,
    pub install_dir: String,
    pub port: Port,
    pub tx_service: MonographService,
    pub log_service: Option<LogService>,
    pub storage_service: StorageService,
    pub monitor: Option<Monitor>,
}

/// Moves each member into a map of its own, keyed by its position.
fn members_to_slot_map(members: Vec<LogGroupMember>) -> (m: HashMap<usize, Vec<LogGroupMember>>)
    ensures
        m@.dom() =~= Set::new(|k: usize| k < members@.len()),
        forall|k: usize| k < members@.len() ==> (#[trigger] m@[k])@ == seq![members@[k as int]],
{
    let ghost orig = members@;
    let mut members = members;
    let mut m: HashMap<usize, Vec<LogGroupMember>> = HashMap::new();
    while members.len() > 0
        invariant
            members@ == orig.take(members@.len() as int),
            members@.len() <= orig.len(),
            m@.dom() =~= Set::new(|k: usize| members@.len() <= k < orig.len()),
            forall|k: usize| members@.len() <= k < orig.len() ==> (#[trigger] m@[k])@ == seq![orig[k as int]],
        decreases members@.len(),
    {
        let k = members.len() - 1;
        let last = members.pop().unwrap();
        assert(last == orig[k as int]);
        let single = vec![last];
        assert(single@ =~= seq![orig[k as int]]);
        m.insert(k, single);
        assert(orig.take(k as int) =~= members@);
    }
    m
}

impl LogService {
    /// The replicas per group: the configured number, or three.
    pub open spec fn replica_count(self) -> nat {
        match self.replica {
            Some(r) => r as nat,
            None => LOG_SRV_REPLICA_NUM as nat,
        }
    }

    /// The number of log groups.
    pub open spec fn group_total(self) -> nat {
        group_count_of(dedup(node_hosts(self.nodes@)).len(), self.replica_count())
    }

    /// The members of every group: slots wrap around the node list and
    /// health URLs carry no scheme.
    pub open spec fn layout_spec(self) -> Seq<Seq<MemberView>> {
        layout(self.nodes@, self.replica_count(), true, ""@, self.group_total())
    }

    /// All members, group after group.
    pub open spec fn members_spec(self) -> Seq<MemberView> {
        self.layout_spec().flatten()
    }

    /// The group layout can be computed without a panic.
    pub open spec fn layout_ready(self) -> bool {
        layout_ok(self.nodes@, self.replica_count(), true, self.group_total())
    }

    /// The distinct hosts of the log service, in order of first occurrence.
    pub fn log_host_unique(&self) -> (res: Vec<String>)
        ensures
            res.deep_view() == dedup(node_hosts(self.nodes@)),
    {
        unique_node_hosts(&self.nodes)
    }

    /// Whether the group layout can be computed without a panic.
    pub fn layout_ready_check(&self) -> (ok: bool)
        ensures
            ok == self.layout_ready(),
    {
        let r = self.log_replica();
        if r == 0 {
            return false;
        }
        let groups = self.group();
        layout_check(&self.nodes, r, true, groups)
    }

    /// The replicas per group: the configured number, or three.
    pub fn log_replica(&self) -> (r: usize)
        ensures
            r == self.replica_count(),
    {
        match self.replica {
            Some(replica_num) => replica_num as usize,
            None => LOG_SRV_REPLICA_NUM,
        }
    }

    /// The number of log groups over the distinct hosts.
    pub fn group(&self) -> (g: usize)
        requires
            self.replica_count() > 0,
        ensures
            g == self.group_total(),
    {
        let host_num = self.log_host_unique().len();
        let group_member = self.log_replica();
        group_count(host_num, group_member)
    }

    /// The node indices of a group's slots when the group starts at node
    /// index `start`: consecutive indices that wrap once around the node list.
    pub fn gen_log_node_ids(&self, start: usize) -> (ids: Vec<usize>)
        requires
            self.replica_count() > 0 ==> self.nodes.len() > 0,
            self.nodes.len() + self.replica_count() <= usize::MAX,
        ensures
            ids@.len() == self.replica_count(),
            forall|idx: int| 0 <= idx < ids@.len() ==> ids@[idx] as int
                == #[trigger] node_ids_spec(self.nodes.len() as nat, self.replica_count(), true, start as nat)[idx],
    {
        let r = self.log_replica();
        if r == 0 {
            Vec::new()
        } else {
            layout_node_ids(self.nodes.len(), r, true, start)
        }
    }

    /// Every member of every group in a map of its own, keyed by its position
    /// among all members (group after group).
    pub fn group_members(&self) -> (m: HashMap<usize, Vec<LogGroupMember>>)
        requires
            self.layout_ready(),
        ensures
            m@.dom() =~= Set::new(|k: usize| k < self.members_spec().len()),
            forall|k: usize| k < self.members_spec().len() ==>
                members_view(#[trigger] m@[k]@) == seq![self.members_spec()[k as int]],
    {
        let all = self.group_member_as_vec();
        let ghost all_view = all@;
        let m = members_to_slot_map(all);
        proof {
            assert forall|k: usize| k < self.members_spec().len() implies
                members_view(#[trigger] m@[k]@) == seq![self.members_spec()[k as int]] by {
                assert(members_view(all_view)[k as int] == all_view[k as int]@);
                assert(members_view(m@[k]@) =~= seq![all_view[k as int]@]);
            }
        }
        m
    }

    /// All members of all groups, group after group.
    pub fn group_member_as_vec(&self) -> (res: Vec<LogGroupMember>)
        requires
            self.layout_ready(),
        ensures
            members_view(res@) == self.members_spec(),
    {
        let groups = self.group();
        let r = self.log_replica();
        let layout = layout_members(&self.nodes, r, true, "", groups);
        flatten_groups(&layout)
    }

    /// The `host:port` list of each log group of `members`, keyed by group id.
    pub fn group_member_config(&self, members: &[LogGroupMember]) -> (m: IndexMap<usize, String>)
        ensures
            index_map_entries(m) == member_config_entries(members_view(members@)),
    {
        member_config(members)
    }

    /// The members of `all_members` grouped by host, hosts in order of first occurrence.
    pub fn host_members(&self, all_members: &[LogGroupMember]) -> (res: Vec<(String, Vec<LogGroupMember>)>)
        ensures
            host_entries_view(res@) == host_groups(members_view(all_members@)),
    {
        host_members(all_members)
    }

    /// The start command items of every log process, grouped by host.
    pub fn log_start_cmd(&self) -> (res: Vec<(String, Vec<LogCmdItems>)>)
        requires
            self.layout_ready(),
        ensures
            cmd_entries_view(res@) == start_cmds_of(self.members_spec()),
    {
        let all_members = self.group_member_as_vec();
        start_cmd_items(&all_members)
    }
}

/// The `host:port` lists of the groups, in order, joined by commas.
pub open spec fn service_list_text(ms: Seq<MemberView>) -> Seq<char> {
    seq_join(member_config_entries(ms).map_values(|e: (usize, Seq<char>)| e.1), ","@)
}

/// The settings of a Cassandra or a DynamoDB store.
pub open spec fn storage_settings(s: StorageService) -> Seq<(Seq<char>, Seq<char>)> {
    match s.cassandra {
        Some(c) => seq![("monograph_cass_hosts"@, seq_join(c.host.deep_view(), ","@))],
        None => {
            let d = s.dynamodb->0;
            seq![
                ("monograph_aws_access_key_id"@, d.access_key_id@),
                ("monograph_aws_secret_key"@, d.secret_key@),
                ("monograph_dynamodb_region"@, d.region@),
                ("monograph_dynamodb_endpoint"@, d.endpoint@),
            ]
        },
    }
}

/// `{host}:{port}`.
pub open spec fn host_port_text(host: Seq<char>, port: u16) -> Seq<char> {
    host + ":"@ + decimal(port as nat)
}

/// The address list of the transaction service: every host with the port,
/// or the loopback address alone.
pub open spec fn ip_list_text(hosts: Seq<Seq<char>>, port: u16, set_ip_list: bool) -> Seq<char> {
    if set_ip_list {
        seq_join(hosts.map_values(|h: Seq<char>| host_port_text(h, port)), ","@)
    } else {
        host_port_text("127.0.0.1"@, port)
    }
}

/// The host the configuration is for and the suffix of its file name.
pub open spec fn host_and_suffix(tx_host: Option<String>) -> (Seq<char>, Seq<char>) {
    match tx_host {
        Some(h) => (h@, h@),
        None => ("127.0.0.1"@, "local"@),
    }
}

/// The host lists of the deployment's services, service after service:
/// the transaction hosts, then the distinct log service hosts where there is
/// a log service, then the Cassandra hosts where the store is Cassandra.
pub open spec fn service_hosts_spec(d: Deployment) -> Seq<Seq<Seq<char>>> {
    seq![d.tx_service.host.deep_view()]
        + (match d.log_service { Some(ls) => seq![dedup(node_hosts(ls.nodes@))], None => Seq::empty() })
        + (match d.storage_service.cassandra { Some(c) => seq![c.host.deep_view()], None => Seq::empty() })
}

/// `my_{suffix}.cnf`.
pub open spec fn config_file_name(suffix: Seq<char>) -> Seq<char> {
    "my_"@ + suffix + ".cnf"@
}

impl Deployment {
    /// The packages the deployment installs from: the MonographDB package
    /// `tx_image`, then the log service package `log_image` where it names one.
    pub fn image_files(&self) -> (res: Vec<(crate::cli::task::upload_task::ImageFile, String)>)
        ensures
            res@.len() == (if self.log_image is Some { 2int } else { 1int }),
            res@[0].0 == crate::cli::task::upload_task::ImageFile::Monograph,
            res@[0].1@ == self.tx_image@,
            self.log_image is Some ==> res@[1].0 == crate::cli::task::upload_task::ImageFile::MonographLog
                && res@[1].1@ == self.log_image->0@,
    {
        let mut res = vec![(crate::cli::task::upload_task::ImageFile::Monograph, copy_string(&self.tx_image))];
        match &self.log_image {
            Some(l) => res.push((crate::cli::task::upload_task::ImageFile::MonographLog, copy_string(l))),
            None => {},
        }
        res
    }

    /// The host lists of the services, as `service_hosts_spec` orders them:
    /// what a command run on every host of the deployment runs on.
    pub fn service_hosts(&self) -> (res: Vec<Vec<String>>)
        ensures
            res@.map_values(|v: Vec<String>| v.deep_view()) == service_hosts_spec(*self),
    {
        let mut res: Vec<Vec<String>> = Vec::new();
        res.push(copy_strings(&self.tx_service.host));
        match &self.log_service {
            Some(ls) => res.push(ls.log_host_unique()),
            None => {},
        }
        match &self.storage_service.cassandra {
            Some(c) => res.push(copy_strings(&c.host)),
            None => {},
        }
        assert(res@.map_values(|v: Vec<String>| v.deep_view()) =~= service_hosts_spec(*self));
        res
    }

    /// The log service settings: the replicas per group and the list of every
    /// group's members.
    pub open spec fn log_config_spec(self) -> Option<Seq<(Seq<char>, Seq<char>)>> {
        match self.log_service {
            None => None,
            Some(ls) => Some(seq![
                ("monograph_txlog_group_replica_num"@, decimal(ls.replica_count())),
                ("monograph_txlog_service_list"@, service_list_text(ls.members_spec())),
            ]),
        }
    }

    /// The settings that the configuration takes from the deployment.
    pub open spec fn monograph_settings(self, set_ip_list: bool, install_dir: Seq<char>) -> Seq<(Seq<char>, Seq<char>)> {
        storage_settings(self.storage_service) + seq![
            ("datadir"@, install_dir + "/datafarm"@),
            ("lc_messages_dir"@, install_dir + "/"@ + MONOGRAPH_TX_SERVICE_DIR@ + "/install/share"@),
            ("plugin_dir"@, install_dir + "/"@ + MONOGRAPH_TX_SERVICE_DIR@ + "/install/lib/plugin"@),
            ("port"@, decimal(self.port.mysql_port as nat)),
            ("socket"@, "/tmp/mysql"@ + decimal(self.port.mysql_port as nat) + ".sock"@),
            ("monograph_ip_list"@, ip_list_text(self.tx_service.host.deep_view(), self.port.monograph_port.start, set_ip_list)),
        ]
    }

    /// The settings of the configuration generated for `tx_host`: those of the
    /// deployment, then (for a named host other than `local`) those of the log
    /// service, then the local address.
    pub open spec fn generated_settings(self, tx_host: Option<String>, install_dir: Seq<char>) -> Seq<(Seq<char>, Seq<char>)> {
        let (host, suffix) = host_and_suffix(tx_host);
        let log = if suffix != "local"@ && self.log_config_spec() is Some {
            self.log_config_spec()->0
        } else {
            Seq::empty()
        };
        self.monograph_settings(tx_host is Some, install_dir) + log
            + seq![("monograph_local_ip"@, host_port_text(host, self.port.monograph_port.start))]
    }

    /// The deployment names a data store.
    pub open spec fn storage_named(self) -> bool {
        self.storage_service.cassandra is Some || self.storage_service.dynamodb is Some
    }

    /// The log service, if any, can lay out its groups.
    pub open spec fn log_ready(self) -> bool {
        self.log_service is Some ==> self.log_service->0.layout_ready()
    }

    /// Whether the log service, if any, can lay out its groups.
    pub fn log_ready_check(&self) -> (ok: bool)
        ensures
            ok == self.log_ready(),
    {
        match &self.log_service {
            Some(ls) => ls.layout_ready_check(),
            None => true,
        }
    }

    /// The log service settings, if the deployment has a log service.
    pub fn build_log_config(&self) -> (r: Option<Vec<(String, String)>>)
        requires
            self.log_ready(),
        ensures
            r is None <==> self.log_service is None,
            r is Some ==> self.log_config_spec() == Some(pairs_view(r->0@)),
            r is Some ==> keys_stored(r->0@),
    {
        match &self.log_service {
            Some(log_srv) => {
                let replica_num = log_srv.log_replica();
                let all_members = log_srv.group_member_as_vec();
                let group_member_map = log_srv.group_member_config(all_members.as_slice());
                let values = index_map_values(&group_member_map);
                let node_group = join_strings(&values, ",");
                proof {
                    reveal_strlit(",");
                    reveal_strlit("monograph_txlog_group_replica_num");
                    reveal_strlit("monograph_txlog_service_list");
                }
                let mut v: Vec<(String, String)> = Vec::new();
                push_setting(&mut v, "monograph_txlog_group_replica_num", usize_to_string(replica_num));
                push_setting(&mut v, "monograph_txlog_service_list", node_group);
                proof {
                    assert(pairs_view(v@) =~= self.log_config_spec()->0);
                }
                Some(v)
            },
            None => None,
        }
    }

    /// The first transaction host in sorted order.
    pub fn bootstrap_host(&self) -> (h: String)
        requires
            self.tx_service.host.len() > 0,
        ensures
            self.tx_service.host.deep_view().contains(h@),
            forall|j: int| 0 <= j < self.tx_service.host.len() ==> !seq_lt(#[trigger] self.tx_service.host.deep_view()[j], h@),
    {
        min_string(&self.tx_service.host)
    }

    /// The configuration template for the deployment's data store.
    pub fn conf_template_name(&self) -> (name: &'static str)
        ensures
            name@ == if self.storage_service.cassandra is Some { MONOGRAPH_CONF_TEMPLATE@ } else { MONOGRAPH_CONF_DYNAMO_TEMPLATE@ },
    {
        if self.storage_service.cassandra.is_some() {
            MONOGRAPH_CONF_TEMPLATE
        } else {
            MONOGRAPH_CONF_DYNAMO_TEMPLATE
        }
    }

    /// The list of settings taken from the deployment.
    fn monograph_setting_list(&self, set_ip_list: bool, install_dir: &String) -> (v: Vec<(String, String)>)
        requires
            self.storage_named(),
        ensures
            keys_stored(v@),
            pairs_view(v@) == self.monograph_settings(set_ip_list, install_dir@),
    {
        proof {
            reveal_strlit(",");
            reveal_strlit(":");
            reveal_strlit("monograph_cass_hosts");
            reveal_strlit("monograph_aws_access_key_id");
            reveal_strlit("monograph_aws_secret_key");
            reveal_strlit("monograph_dynamodb_region");
            reveal_strlit("monograph_dynamodb_endpoint");
            reveal_strlit("datadir");
            reveal_strlit("lc_messages_dir");
            reveal_strlit("plugin_dir");
            reveal_strlit("port");
            reveal_strlit("socket");
            reveal_strlit("monograph_ip_list");
            reveal_strlit("/datafarm");
            reveal_strlit("/");
            reveal_strlit("/install/share");
            reveal_strlit("/install/lib/plugin");
            reveal_strlit("/tmp/mysql");
            reveal_strlit(".sock");
        }
        let mut v: Vec<(String, String)> = Vec::new();
        match &self.storage_service.cassandra {
            Some(cassandra) => {
                push_setting(&mut v, "monograph_cass_hosts", join_strings(&cassandra.host, ","));
            },
            None => {
                match &self.storage_service.dynamodb {
                    Some(dynamodb) => {
                        push_setting(&mut v, "monograph_aws_access_key_id", copy_string(&dynamodb.access_key_id));
                        push_setting(&mut v, "monograph_aws_secret_key", copy_string(&dynamodb.secret_key));
                        push_setting(&mut v, "monograph_dynamodb_region", copy_string(&dynamodb.region));
                        push_setting(&mut v, "monograph_dynamodb_endpoint", copy_string(&dynamodb.endpoint));
                    },
                    None => {},
                }
            },
        }
        let ghost storage = pairs_view(v@);
        assert(storage =~= storage_settings(self.storage_service));
        let mysql_port = u64_to_string(self.port.mysql_port as u64);

        let mut datadir = copy_string(install_dir);
        datadir.append("/datafarm");
        push_setting(&mut v, "datadir", datadir);

        let mut share = copy_string(install_dir);
        share.append("/");
        share.append(MONOGRAPH_TX_SERVICE_DIR);
        share.append("/install/share");
        push_setting(&mut v, "lc_messages_dir", share);

        let mut plugin = copy_string(install_dir);
        plugin.append("/");
        plugin.append(MONOGRAPH_TX_SERVICE_DIR);
        plugin.append("/install/lib/plugin");
        push_setting(&mut v, "plugin_dir", plugin);

        push_setting(&mut v, "port", copy_string(&mysql_port));

        let mut socket = String::from_str("/tmp/mysql");
        socket.append(mysql_port.as_str());
        socket.append(".sock");
        push_setting(&mut v, "socket", socket);

        let use_port = self.port.monograph_port.start;
        let ip_list = if set_ip_list {
            host_port_list(&self.tx_service.host, use_port)
        } else {
            host_port_of("127.0.0.1", use_port)
        };
        push_setting(&mut v, "monograph_ip_list", ip_list);
        proof {
            let rest = seq![
                ("datadir"@, install_dir@ + "/datafarm"@),
                ("lc_messages_dir"@, install_dir@ + "/"@ + MONOGRAPH_TX_SERVICE_DIR@ + "/install/share"@),
                ("plugin_dir"@, install_dir@ + "/"@ + MONOGRAPH_TX_SERVICE_DIR@ + "/install/lib/plugin"@),
                ("port"@, decimal(self.port.mysql_port as nat)),
                ("socket"@, "/tmp/mysql"@ + decimal(self.port.mysql_port as nat) + ".sock"@),
                ("monograph_ip_list"@, ip_list_text(self.tx_service.host.deep_view(), use_port, set_ip_list)),
            ];
            assert(pairs_view(v@) =~= storage + rest);
        }
        v
    }

    /// The configuration with the deployment's settings set over `template`:
    /// the data store, the directories under `install_dir`, the MySQL port and
    /// socket, and the address list of the transaction service (every host
    /// when `set_ip_list`, else the loopback address).
    pub fn build_monograph_config(&self, set_ip_list: bool, install_dir: String, template: Ini) -> (ini: Ini)
        requires
            self.storage_named(),
        ensures
            ini_entries(ini) == settings_applied(ini_entries(template), CONFIG_MARIADB_SECTION@,
                self.monograph_settings(set_ip_list, install_dir@)),
    {
        proof {
            reveal_strlit("mariadb");
        }
        let settings = self.monograph_setting_list(set_ip_list, &install_dir);
        let mut ini = template;
        apply_settings(&mut ini, CONFIG_MARIADB_SECTION, &settings);
        ini
    }

    /// The configuration generated for `tx_host` (or for the local host when
    /// none is named) over `template`, and the name of its file.
    pub fn gen_monograph_config(&self, tx_host: Option<String>, install_dir: String, template: Ini) -> (res: (Ini, String))
        requires
            self.storage_named(),
            self.log_ready(),
        ensures
            res.1@ == config_file_name(host_and_suffix(tx_host).1),
            ini_entries(res.0) == settings_applied(ini_entries(template), CONFIG_MARIADB_SECTION@,
                self.generated_settings(tx_host, install_dir@)),
    {
        proof {
            reveal_strlit("mariadb");
            reveal_strlit("127.0.0.1");
            reveal_strlit("local");
            reveal_strlit("my_");
            reveal_strlit(".cnf");
            reveal_strlit("monograph_local_ip");
        }
        let port = self.port.monograph_port.start;
        let set_ip_list = tx_host.is_some();
        let ghost base = self.monograph_settings(set_ip_list, install_dir@);
        let mut my_ini = self.build_monograph_config(set_ip_list, install_dir, template);
        let (host, file_suffix) = match &tx_host {
            Some(h) => (copy_string(h), copy_string(h)),
            None => (String::from_str("127.0.0.1"), String::from_str("local")),
        };
        let mut file_name = String::from_str("my_");
        file_name.append(file_suffix.as_str());
        file_name.append(".cnf");

        let mut extra: Vec<(String, String)> = Vec::new();
        let ghost mut log: Seq<(Seq<char>, Seq<char>)> = Seq::empty();
        if !str_eq(file_suffix.as_str(), "local") {
            match self.build_log_config() {
                Some(config_map) => {
                    proof {
                        log = pairs_view(config_map@);
                    }
                    extra = config_map;
                },
                None => {},
            }
        }
        assert(pairs_view(extra@) == log);
        push_setting(&mut extra, "monograph_local_ip", host_port_of(host.as_str(), port));
        apply_settings(&mut my_ini, CONFIG_MARIADB_SECTION, &extra);
        proof {
            let (h, suffix) = host_and_suffix(tx_host);
            assert(h == host@);
            assert(suffix == file_suffix@);
            let last = seq![("monograph_local_ip"@, host_port_text(h, port))];
            assert(pairs_view(extra@) =~= log + last);
            lemma_settings_applied_concat(ini_entries(template), CONFIG_MARIADB_SECTION@, base, log + last);
            assert(base + (log + last) =~= self.generated_settings(tx_host, install_dir@));
        }
        (my_ini, file_name)
    }
}

/// `{host}:{port}`.
fn host_port_of(host: &str, port: u16) -> (s: String)
    ensures
        s@ == host_port_text(host@, port),
{
    proof {
        reveal_strlit(":");
    }
    let mut s = String::from_str(host);
    s.append(":");
    s.append(u64_to_string(port as u64).as_str());
    s
}

/// Every host with the port, joined by commas.
fn host_port_list(hosts: &Vec<String>, port: u16) -> (s: String)
    ensures
        s@ == seq_join(hosts.deep_view().map_values(|h: Seq<char>| host_port_text(h, port)), ","@),
{
    let mut addrs: Vec<String> = Vec::new();
    let mut i: usize = 0;
    while i < hosts.len()
        invariant
            0 <= i <= hosts.len(),
            addrs.deep_view() =~= hosts.deep_view().take(i as int).map_values(|h: Seq<char>| host_port_text(h, port)),
        decreases hosts.len() - i,
    {
        let ghost before = addrs.deep_view();
        addrs.push(host_port_of(hosts[i].as_str(), port));
        assert(hosts.deep_view().take(i + 1) =~= hosts.deep_view().take(i as int).push(hosts[i as int]@));
        assert(addrs.deep_view() =~= before.push(host_port_text(hosts[i as int]@, port)));
        i = i + 1;
    }
    assert(hosts.deep_view().take(hosts.len() as int) =~= hosts.deep_view());
    join_strings(&addrs, ",")
}

/// The contents of a log-service node: host, data directories and port.
pub open spec fn node_view(n: LogServiceNode) -> (Seq<char>, Seq<Seq<char>>, u16) {
    (n.host@, n.data_dir.deep_view(), n.port)
}

/// The contents of a deployment.
pub struct DeploymentView {
    pub tx_image: Seq<char>,
    pub log_image: Option<Seq<char>>,
    pub cluster_name: Seq<char>,
    pub install_dir: Seq<char>,
    pub mysql_port: u16,
    pub monograph_port: (u16, u16),
    pub tx_hosts: Seq<Seq<char>>,
    pub log_service: Option<(Seq<(Seq<char>, Seq<Seq<char>>, u16)>, Option<u32>)>,
    pub cassandra: Option<Seq<Seq<char>>>,
    pub dynamodb: Option<(Seq<char>, Seq<char>, Seq<char>, Seq<char>)>,
    pub monitor: Option<(Seq<char>, Seq<char>)>,
}

impl View for Deployment {
    type V = DeploymentView;

    open spec fn view(&self) -> DeploymentView {
        DeploymentView {
            tx_image: self.tx_image@,
            log_image: opt_view(self.log_image),
            cluster_name: self.cluster_name@,
            install_dir: self.install_dir@,
            mysql_port: self.port.mysql_port,
            monograph_port: (self.port.monograph_port.start, self.port.monograph_port.end),
            tx_hosts: self.tx_service.host.deep_view(),
            log_service: match self.log_service {
                Some(ls) => Some((ls.nodes@.map_values(|n: LogServiceNode| node_view(n)), ls.replica)),
                None => None,
            },
            cassandra: match self.storage_service.cassandra {
                Some(c) => Some(c.host.deep_view()),
                None => None,
            },
            dynamodb: match self.storage_service.dynamodb {
                Some(d) => Some((d.access_key_id@, d.secret_key@, d.region@, d.endpoint@)),
                None => None,
            },
            monitor: match self.monitor {
                Some(m) => Some((m.prometheus.host@, m.grafana.host@)),
                None => None,
            },
        }
    }
}

fn copy_nodes(nodes: &Vec<LogServiceNode>) -> (r: Vec<LogServiceNode>)
    ensures
        r@.map_values(|n: LogServiceNode| node_view(n)) == nodes@.map_values(|n: LogServiceNode| node_view(n)),
{
    let mut r: Vec<LogServiceNode> = Vec::new();
    let mut i: usize = 0;
    while i < nodes.len()
        invariant
            0 <= i <= nodes.len(),
            r@.map_values(|n: LogServiceNode| node_view(n)) =~= nodes@.take(i as int).map_values(|n: LogServiceNode| node_view(n)),
        decreases nodes.len() - i,
    {
        let ghost before = r@;
        let node = &nodes[i];
        r.push(LogServiceNode { host: copy_string(&node.host), data_dir: copy_strings(&node.data_dir), port: node.port });
        assert(r@.map_values(|n: LogServiceNode| node_view(n)) =~= before.map_values(|n: LogServiceNode| node_view(n)).push(node_view(*node)));
        assert(nodes@.take(i + 1) =~= nodes@.take(i as int).push(*node));
        i = i + 1;
    }
    assert(nodes@.take(nodes.len() as int) =~= nodes@);
    r
}

impl Deployment {
    /// A copy with the same contents.
    pub fn copy(&self) -> (d: Deployment)
        ensures
            d@ == self@,
    {
        Deployment {
            tx_image: copy_string(&self.tx_image),
            log_image: copy_opt_string(&self.log_image),
            cluster_name: copy_string(&self.cluster_name),
            install_dir: copy_string(&self.install_dir),
            port: Port {
                mysql_port: self.port.mysql_port,
                monograph_port: MonographPort { start: self.port.monograph_port.start, end: self.port.monograph_port.end },
            },
            tx_service: MonographService { host: copy_strings(&self.tx_service.host) },
            log_service: match &self.log_service {
                Some(ls) => Some(LogService { nodes: copy_nodes(&ls.nodes), replica: ls.replica }),
                None => None,
            },
            storage_service: StorageService {
                cassandra: match &self.storage_service.cassandra {
                    Some(c) => Some(CassandraStorage { host: copy_strings(&c.host) }),
                    None => None,
                },
                dynamodb: match &self.storage_service.dynamodb {
                    Some(x) => Some(DynamoDbStorage {
                        access_key_id: copy_string(&x.access_key_id),
                        secret_key: copy_string(&x.secret_key),
                        region: copy_string(&x.region),
                        endpoint: copy_string(&x.endpoint),
                    }),
                    None => None,
                },
            },
            monitor: match &self.monitor {
                Some(m) => Some(Monitor {
                    prometheus: MonitorNode { host: copy_string(&m.prometheus.host) },
                    grafana: MonitorNode { host: copy_string(&m.grafana.host) },
                }),
                None => None,
            },
        }
    }
}

/// For a DynamoDB store, the configuration generated for any host (over
/// any template) holds, in its `mariadb` section, the store's access key id
/// under `monograph_aws_access_key_id`, its secret key under
/// `monograph_aws_secret_key`, its region under `monograph_dynamodb_region`
/// and its endpoint under `monograph_dynamodb_endpoint`.
pub proof fn lemma_dynamodb_settings(
    d: Deployment,
    tx_host: Option<String>,
    install_dir: Seq<char>,
    entries: Map<(Seq<char>, Seq<char>), Option<Seq<char>>>,
)
    requires
        d.storage_service.cassandra is None,
        d.storage_service.dynamodb is Some,
    ensures
        ({
            let db = d.storage_service.dynamodb->0;
            let m = settings_applied(entries, CONFIG_MARIADB_SECTION@, d.generated_settings(tx_host, install_dir));
            &&& m[(CONFIG_MARIADB_SECTION@, "monograph_aws_access_key_id"@)] == Some(db.access_key_id@)
            &&& m[(CONFIG_MARIADB_SECTION@, "monograph_aws_secret_key"@)] == Some(db.secret_key@)
            &&& m[(CONFIG_MARIADB_SECTION@, "monograph_dynamodb_region"@)] == Some(db.region@)
            &&& m[(CONFIG_MARIADB_SECTION@, "monograph_dynamodb_endpoint"@)] == Some(db.endpoint@)
        }),
{
    reveal_strlit("monograph_aws_access_key_id");
    reveal_strlit("monograph_aws_secret_key");
    reveal_strlit("monograph_dynamodb_region");
    reveal_strlit("monograph_dynamodb_endpoint");
    reveal_strlit("datadir");
    reveal_strlit("lc_messages_dir");
    reveal_strlit("plugin_dir");
    reveal_strlit("port");
    reveal_strlit("socket");
    reveal_strlit("monograph_ip_list");
    reveal_strlit("monograph_txlog_group_replica_num");
    reveal_strlit("monograph_txlog_service_list");
    reveal_strlit("monograph_local_ip");
    let db = d.storage_service.dynamodb->0;
    let gs = d.generated_settings(tx_host, install_dir);
    let keys = gs.map_values(|p: (Seq<char>, Seq<char>)| p.0);
    let (host, suffix) = host_and_suffix(tx_host);
    let log = if suffix != "local"@ && d.log_config_spec() is Some { d.log_config_spec()->0 } else { Seq::empty() };
    let log_keys = log.map_values(|p: (Seq<char>, Seq<char>)| p.0);
    assert(keys =~= seq![
        "monograph_aws_access_key_id"@, "monograph_aws_secret_key"@, "monograph_dynamodb_region"@, "monograph_dynamodb_endpoint"@,
        "datadir"@, "lc_messages_dir"@, "plugin_dir"@, "port"@, "socket"@, "monograph_ip_list"@,
    ] + log_keys + seq!["monograph_local_ip"@]);
    assert(forall|k: int| 0 <= k < log_keys.len() ==> (#[trigger] log_keys[k]).len() == 33 || log_keys[k].len() == 28);
    assert("monograph_aws_access_key_id"@.len() == 27);
    assert("monograph_aws_secret_key"@.len() == 24);
    assert("monograph_dynamodb_region"@.len() == 25);
    assert("monograph_dynamodb_endpoint"@.len() == 27);
    assert("monograph_aws_access_key_id"@[10] == 'a' && "monograph_dynamodb_endpoint"@[10] == 'd');
    assert("datadir"@.len() == 7 && "lc_messages_dir"@.len() == 15 && "plugin_dir"@.len() == 10 && "port"@.len() == 4);
    assert("socket"@.len() == 6 && "monograph_ip_list"@.len() == 17 && "monograph_local_ip"@.len() == 18);
    assert forall|j: int| 0 < j < gs.len() implies #[trigger] gs[j].0 != gs[0].0 by {
        assert(keys[j] == gs[j].0 && keys[0] == gs[0].0);
            if j == 3 {
                assert(gs[j].0[10] != gs[0].0[10]);
            } else if 10 <= j < 10 + log_keys.len() {
                assert(keys[j] == log_keys[j - 10]);
            }
    }
    assert forall|j: int| 1 < j < gs.len() implies #[trigger] gs[j].0 != gs[1].0 by {
        assert(keys[j] == gs[j].0 && keys[1] == gs[1].0);
            if 10 <= j < 10 + log_keys.len() {
                assert(keys[j] == log_keys[j - 10]);
            }
    }
    assert forall|j: int| 2 < j < gs.len() implies #[trigger] gs[j].0 != gs[2].0 by {
        assert(keys[j] == gs[j].0 && keys[2] == gs[2].0);
            if 10 <= j < 10 + log_keys.len() {
                assert(keys[j] == log_keys[j - 10]);
            }
    }
    assert forall|j: int| 3 < j < gs.len() implies #[trigger] gs[j].0 != gs[3].0 by {
        assert(keys[j] == gs[j].0 && keys[3] == gs[3].0);
            if 10 <= j < 10 + log_keys.len() {
                assert(keys[j] == log_keys[j - 10]);
            }
    }
    assert(gs[0] == ("monograph_aws_access_key_id"@, db.access_key_id@));
    assert(gs[1] == ("monograph_aws_secret_key"@, db.secret_key@));
    assert(gs[2] == ("monograph_dynamodb_region"@, db.region@));
    assert(gs[3] == ("monograph_dynamodb_endpoint"@, db.endpoint@));
    lemma_settings_applied_last_wins(entries, CONFIG_MARIADB_SECTION@, gs, 0);
    lemma_settings_applied_last_wins(entries, CONFIG_MARIADB_SECTION@, gs, 1);
    lemma_settings_applied_last_wins(entries, CONFIG_MARIADB_SECTION@, gs, 2);
    lemma_settings_applied_last_wins(entries, CONFIG_MARIADB_SECTION@, gs, 3);
}

/// The configuration generated for a host (over any template) holds, in
/// its `mariadb` section: the data directory `{install_dir}/datafarm`, the
/// MySQL port and its socket `/tmp/mysql{port}.sock`, the host's own
/// address `{host}:{first MonographDB port}` (`127.0.0.1` for the local
/// configuration) and, for a Cassandra store, the Cassandra hosts joined by
/// commas.
pub proof fn lemma_monograph_core_settings(
    d: Deployment,
    tx_host: Option<String>,
    install_dir: Seq<char>,
    entries: Map<(Seq<char>, Seq<char>), Option<Seq<char>>>,
)
    ensures
        ({
            let m = settings_applied(entries, CONFIG_MARIADB_SECTION@, d.generated_settings(tx_host, install_dir));
            let sec = CONFIG_MARIADB_SECTION@;
            let host = match tx_host { Some(h) => h@, None => "127.0.0.1"@ };
            &&& m[(sec, "datadir"@)] == Some(install_dir + "/datafarm"@)
            &&& m[(sec, "port"@)] == Some(decimal(d.port.mysql_port as nat))
            &&& m[(sec, "socket"@)] == Some("/tmp/mysql"@ + decimal(d.port.mysql_port as nat) + ".sock"@)
            &&& m[(sec, "monograph_local_ip"@)] == Some(host + ":"@ + decimal(d.port.monograph_port.start as nat))
            &&& d.storage_service.cassandra is Some ==> m[(sec, "monograph_cass_hosts"@)]
                == Some(seq_join(d.storage_service.cassandra->0.host.deep_view(), ","@))
        }),
{
    reveal_strlit("monograph_cass_hosts");
    reveal_strlit("monograph_aws_access_key_id");
    reveal_strlit("monograph_aws_secret_key");
    reveal_strlit("monograph_dynamodb_region");
    reveal_strlit("monograph_dynamodb_endpoint");
    reveal_strlit("datadir");
    reveal_strlit("lc_messages_dir");
    reveal_strlit("plugin_dir");
    reveal_strlit("port");
    reveal_strlit("socket");
    reveal_strlit("monograph_ip_list");
    reveal_strlit("monograph_txlog_group_replica_num");
    reveal_strlit("monograph_txlog_service_list");
    reveal_strlit("monograph_local_ip");
    reveal_strlit("127.0.0.1");
    let gs = d.generated_settings(tx_host, install_dir);
    let keys = gs.map_values(|p: (Seq<char>, Seq<char>)| p.0);
    let st = storage_settings(d.storage_service);
    let st_keys = st.map_values(|p: (Seq<char>, Seq<char>)| p.0);
    let (host, suffix) = host_and_suffix(tx_host);
    let log = if suffix != "local"@ && d.log_config_spec() is Some { d.log_config_spec()->0 } else { Seq::empty() };
    let log_keys = log.map_values(|p: (Seq<char>, Seq<char>)| p.0);
    let n = st.len() as int;
    assert(keys =~= st_keys + seq!["datadir"@, "lc_messages_dir"@, "plugin_dir"@, "port"@, "socket"@, "monograph_ip_list"@]
        + log_keys + seq!["monograph_local_ip"@]);
    assert(forall|k: int| 0 <= k < log_keys.len() ==> (#[trigger] log_keys[k]).len() == 33 || log_keys[k].len() == 28);
    assert(forall|k: int| 0 <= k < st_keys.len() ==> (#[trigger] st_keys[k]).len() == 20 || st_keys[k].len() == 27
        || st_keys[k].len() == 24 || st_keys[k].len() == 25);
    assert("monograph_cass_hosts"@.len() == 20);
    assert("datadir"@.len() == 7 && "lc_messages_dir"@.len() == 15 && "plugin_dir"@.len() == 10 && "port"@.len() == 4);
    assert("socket"@.len() == 6 && "monograph_ip_list"@.len() == 17 && "monograph_local_ip"@.len() == 18);
    assert("monograph_aws_access_key_id"@.len() == 27 && "monograph_aws_secret_key"@.len() == 24);
    assert("monograph_dynamodb_region"@.len() == 25 && "monograph_dynamodb_endpoint"@.len() == 27);
    assert(gs[n] == ("datadir"@, install_dir + "/datafarm"@));
    assert(gs[n + 3] == ("port"@, decimal(d.port.mysql_port as nat)));
    assert(gs[n + 4] == ("socket"@, "/tmp/mysql"@ + decimal(d.port.mysql_port as nat) + ".sock"@));
    let last = gs.len() - 1;
    assert(gs[last] == ("monograph_local_ip"@, host_port_text(host, d.port.monograph_port.start)));
    assert forall|j: int| n < j < gs.len() implies #[trigger] gs[j].0 != gs[n].0 by {
        assert(keys[j] == gs[j].0);
        if n + 6 <= j < n + 6 + log_keys.len() { assert(keys[j] == log_keys[j - n - 6]); }
    }
    assert forall|j: int| n + 3 < j < gs.len() implies #[trigger] gs[j].0 != gs[n + 3].0 by {
        assert(keys[j] == gs[j].0);
        if n + 6 <= j < n + 6 + log_keys.len() { assert(keys[j] == log_keys[j - n - 6]); }
    }
    assert forall|j: int| n + 4 < j < gs.len() implies #[trigger] gs[j].0 != gs[n + 4].0 by {
        assert(keys[j] == gs[j].0);
        if n + 6 <= j < n + 6 + log_keys.len() { assert(keys[j] == log_keys[j - n - 6]); }
    }
    lemma_settings_applied_last_wins(entries, CONFIG_MARIADB_SECTION@, gs, n);
    lemma_settings_applied_last_wins(entries, CONFIG_MARIADB_SECTION@, gs, n + 3);
    lemma_settings_applied_last_wins(entries, CONFIG_MARIADB_SECTION@, gs, n + 4);
    lemma_settings_applied_last_wins(entries, CONFIG_MARIADB_SECTION@, gs, last);
    if d.storage_service.cassandra is Some {
        assert(n == 1);
        assert(gs[0] == ("monograph_cass_hosts"@, seq_join(d.storage_service.cassandra->0.host.deep_view(), ","@)));
        assert forall|j: int| 0 < j < gs.len() implies #[trigger] gs[j].0 != gs[0].0 by {
            assert(keys[j] == gs[j].0);
            if n + 6 <= j < n + 6 + log_keys.len() { assert(keys[j] == log_keys[j - n - 6]); }
        }
        lemma_settings_applied_last_wins(entries, CONFIG_MARIADB_SECTION@, gs, 0);
    }
}

} // verus!
