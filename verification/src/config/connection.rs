//! How the cluster manager reaches the hosts: the SSH user, port and key, and
//! the endpoints that stand in for hosts behind a gateway.
use crate::text::{copy_opt_string, copy_string, decimal, opt_view, str_eq, u64_to_string};
use vstd::prelude::*;

verus! {

/// The SSH port used when the connection names none.
pub const DEFAULT_SSH_PORT: u16 = 22;

/// The SSH settings of a deployment. Each endpoint list maps a name to the
/// endpoint that stands in for it; a name occurs at most once.
#[derive(PartialEq, Debug, Clone)]
pub struct Connection {
    pub username: String,
    pub auth_type: String,
    pub auth: Auth,
    pub port: Option<u16>,
    pub ssh_endpoints: Option<Vec<(String, SshEndpoint)>>,
    pub service_endpoints: Option<Vec<(String, ServiceEndpoint)>>,
}

/// The address that SSH uses for a host.
#[derive(PartialEq, Debug, Clone)]
pub struct SshEndpoint {
    pub host: String,
    pub port: Option<u16>,
}

/// The address that a service of a host is reached at.
#[derive(PartialEq, Debug, Clone)]
pub struct ServiceEndpoint {
    pub host: String,
    pub port: Option<u16>,
}

/// The credentials of the SSH user.
#[derive(PartialEq, Debug, Clone)]
pub struct Auth {
    pub password: Option<String>,
    pub keypair: Option<String>,
}

/// An endpoint by its contents: a host and an optional port.
pub type EndpointView = (Seq<char>, Option<u16>);

/// The contents of a list of SSH endpoints.
pub open spec fn ssh_endpoints_view(v: Seq<(String, SshEndpoint)>) -> Seq<(Seq<char>, EndpointView)> {
    v.map_values(|e: (String, SshEndpoint)| (e.0@, (e.1.host@, e.1.port)))
}

/// The contents of a list of service endpoints.
pub open spec fn service_endpoints_view(v: Seq<(String, ServiceEndpoint)>) -> Seq<(Seq<char>, EndpointView)> {
    v.map_values(|e: (String, ServiceEndpoint)| (e.0@, (e.1.host@, e.1.port)))
}

/// The endpoint listed under `name`: the first entry with that name.
pub open spec fn endpoint_for(s: Seq<(Seq<char>, EndpointView)>, name: Seq<char>) -> Option<EndpointView>
    decreases s.len(),
{
    if s.len() == 0 {
        None
    } else {
        match endpoint_for(s.drop_last(), name) {
            Some(e) => Some(e),
            None => if s.last().0 == name { Some(s.last().1) } else { None },
        }
    }
}

/// The endpoint standing in for the service at `host:port`: the one listed
/// under `host:port`, else the one listed under `host`, with the service's
/// own port when the endpoint names none; without either, `host:port` itself.
pub open spec fn service_endpoint_spec(endpoints: Option<Seq<(Seq<char>, EndpointView)>>, host: Seq<char>, port: u16) -> (Seq<char>, u16) {
    let found = match endpoints {
        None => None,
        Some(s) => match endpoint_for(s, host + ":"@ + decimal(port as nat)) {
            Some(e) => Some(e),
            None => endpoint_for(s, host),
        },
    };
    match found {
        Some(e) => (e.0, match e.1 { Some(p) => p, None => port }),
        None => (host, port),
    }
}

/// `endpoint_for` looks at entries in order and stops at the first match.
proof fn lemma_endpoint_for_first(s: Seq<(Seq<char>, EndpointView)>, name: Seq<char>, i: int)
    requires
        0 <= i <= s.len(),
        forall|j: int| 0 <= j < i ==> s[j].0 != name,
    ensures
        i < s.len() && s[i].0 == name ==> endpoint_for(s, name) == Some(s[i].1),
        i == s.len() ==> endpoint_for(s, name) is None,
    decreases s.len(),
{
    if s.len() > 0 {
        if i < s.len() {
            lemma_endpoint_for_first(s.drop_last(), name, if i < s.len() - 1 { i } else { i });
        } else {
            lemma_endpoint_for_first(s.drop_last(), name, i - 1);
        }
    }
}

fn find_ssh_endpoint<'a>(endpoints: &'a Vec<(String, SshEndpoint)>, name: &str) -> (r: Option<&'a SshEndpoint>)
    ensures
        r is None ==> endpoint_for(ssh_endpoints_view(endpoints@), name@) is None,
        r is Some ==> endpoint_for(ssh_endpoints_view(endpoints@), name@) == Some((r->0.host@, r->0.port)),
{
    let ghost s = ssh_endpoints_view(endpoints@);
    let mut i: usize = 0;
    while i < endpoints.len()
        invariant
            0 <= i <= endpoints.len(),
            s == ssh_endpoints_view(endpoints@),
            forall|j: int| 0 <= j < i ==> s[j].0 != name@,
        decreases endpoints.len() - i,
    {
        if str_eq(endpoints[i].0.as_str(), name) {
            proof {
                lemma_endpoint_for_first(s, name@, i as int);
            }
            return Some(&endpoints[i].1);
        }
        i = i + 1;
    }
    proof {
        lemma_endpoint_for_first(s, name@, i as int);
    }
    None
}

fn find_service_endpoint<'a>(endpoints: &'a Vec<(String, ServiceEndpoint)>, name: &str) -> (r: Option<&'a ServiceEndpoint>)
    ensures
        r is None ==> endpoint_for(service_endpoints_view(endpoints@), name@) is None,
        r is Some ==> endpoint_for(service_endpoints_view(endpoints@), name@) == Some((r->0.host@, r->0.port)),
{
    let ghost s = service_endpoints_view(endpoints@);
    let mut i: usize = 0;
    while i < endpoints.len()
        invariant
            0 <= i <= endpoints.len(),
            s == service_endpoints_view(endpoints@),
            forall|j: int| 0 <= j < i ==> s[j].0 != name@,
        decreases endpoints.len() - i,
    {
        if str_eq(endpoints[i].0.as_str(), name) {
            proof {
                lemma_endpoint_for_first(s, name@, i as int);
            }
            return Some(&endpoints[i].1);
        }
        i = i + 1;
    }
    proof {
        lemma_endpoint_for_first(s, name@, i as int);
    }
    None
}

/// The contents of an optional list of service endpoints.
pub open spec fn opt_service_view(endpoints: Option<&Vec<(String, ServiceEndpoint)>>) -> Option<Seq<(Seq<char>, EndpointView)>> {
    match endpoints {
        None => None,
        Some(v) => Some(service_endpoints_view(v@)),
    }
}

/// The address at which the service at `host:port` is reached.
pub fn resolve_service_endpoint(endpoints: Option<&Vec<(String, ServiceEndpoint)>>, host: &str, port: u16) -> (r: (String, u16))
    ensures
        (r.0@, r.1) == service_endpoint_spec(opt_service_view(endpoints), host@, port),
{
    proof {
        reveal_strlit(":");
    }
    let found = match endpoints {
        None => None,
        Some(list) => {
            let mut key = String::from_str(host);
            key.append(":");
            key.append(u64_to_string(port as u64).as_str());
            match find_service_endpoint(list, key.as_str()) {
                Some(e) => Some(e),
                None => find_service_endpoint(list, host),
            }
        },
    };
    match found {
        Some(endpoint) => (copy_string(&endpoint.host), match endpoint.port {
            Some(p) => p,
            None => port,
        }),
        None => (String::from_str(host), port),
    }
}

impl Connection {
    /// The service endpoints, by their contents.
    pub open spec fn service_endpoints_spec(self) -> Option<Seq<(Seq<char>, EndpointView)>> {
        match self.service_endpoints {
            None => None,
            Some(v) => Some(service_endpoints_view(v@)),
        }
    }

    /// The SSH port: the configured one, or 22.
    pub open spec fn ssh_port_spec(self) -> u16 {
        match self.port {
            Some(p) => p,
            None => DEFAULT_SSH_PORT,
        }
    }

    /// The address SSH uses for `host`: the endpoint listed for it (with the
    /// connection's port when the endpoint names none), or the host itself.
    pub open spec fn ssh_endpoint_spec(self, host: Seq<char>) -> (Seq<char>, u16) {
        let found = match self.ssh_endpoints {
            None => None,
            Some(v) => endpoint_for(ssh_endpoints_view(v@), host),
        };
        match found {
            Some(e) => (e.0, match e.1 { Some(p) => p, None => self.ssh_port_spec() }),
            None => (host, self.ssh_port_spec()),
        }
    }

    /// The SSH port: the configured one, or 22.
    pub fn ssh_port(&self) -> (p: u16)
        ensures
            p == self.ssh_port_spec(),
    {
        match self.port {
            Some(p) => p,
            None => DEFAULT_SSH_PORT,
        }
    }

    /// The path of the SSH private key, if one is configured.
    pub fn ssh_auth_key(&self) -> (k: Option<String>)
        ensures
            k is None <==> self.auth.keypair is None,
            k is Some ==> k->0@ == self.auth.keypair->0@,
    {
        match &self.auth.keypair {
            Some(key) => Some(copy_string(key)),
            None => None,
        }
    }

    /// The address and port that SSH uses to reach `host`.
    pub fn ssh_endpoint(&self, host: &str) -> (r: (String, u16))
        ensures
            (r.0@, r.1) == self.ssh_endpoint_spec(host@),
    {
        let found = match &self.ssh_endpoints {
            None => None,
            Some(list) => find_ssh_endpoint(list, host),
        };
        match found {
            Some(endpoint) => (copy_string(&endpoint.host), match endpoint.port {
                Some(p) => p,
                None => self.ssh_port(),
            }),
            None => (String::from_str(host), self.ssh_port()),
        }
    }

    /// The address at which the service at `host:port` is reached.
    pub fn service_endpoint(&self, host: &str, port: u16) -> (r: (String, u16))
        ensures
            (r.0@, r.1) == service_endpoint_spec(self.service_endpoints_spec(), host@, port),
    {
        resolve_service_endpoint(self.service_endpoints.as_ref(), host, port)
    }
}

/// `std::path::Path::exists`: whether a file is at `path`. What it returns
/// depends on the file system at the time of the call, so nothing is stated of it.
#[verifier::external_body]
fn path_exists(path: &str) -> bool {
    std::path::Path::new(path).exists()
}

/// `ssh key {key} not exist`.
pub open spec fn missing_key_message(key: Seq<char>) -> Seq<char> {
    "ssh key "@ + key + " not exist"@
}

/// The outcome of the key check, given whether the configured key file was found.
pub open spec fn keypair_check_spec(keypair: Option<Seq<char>>, found: bool) -> Result<(), Seq<char>> {
    match keypair {
        Some(k) => if found { Ok(()) } else { Err(missing_key_message(k)) },
        None => Ok(()),
    }
}

impl Auth {
    /// The configured key, by its contents.
    pub open spec fn keypair_view(self) -> Option<Seq<char>> {
        match self.keypair {
            Some(k) => Some(k@),
            None => None,
        }
    }

    /// The key check once the file system has answered whether the
    /// configured key file exists: an error naming the key when it does not.
    pub fn keypair_check_result(&self, found: bool) -> (r: Result<(), String>)
        ensures
            match r {
                Ok(()) => keypair_check_spec(self.keypair_view(), found) == Ok::<(), Seq<char>>(()),
                Err(msg) => keypair_check_spec(self.keypair_view(), found) == Err::<(), Seq<char>>(msg@),
            },
    {
        proof {
            reveal_strlit("ssh key ");
            reveal_strlit(" not exist");
        }
        match &self.keypair {
            Some(sshkey) => {
                if found {
                    Ok(())
                } else {
                    let mut msg = String::from_str("ssh key ");
                    msg.append(sshkey.as_str());
                    msg.append(" not exist");
                    Err(msg)
                }
            },
            None => Ok(()),
        }
    }

    /// Checks that the configured key file exists. Without a key there is
    /// nothing to check; with one, the outcome is `keypair_check_result` of
    /// what the file system answered.
    pub fn check_keypair(&self) -> (r: Result<(), String>)
        ensures
            self.keypair is None ==> r is Ok,
            r is Err ==> self.keypair is Some && r->Err_0@ == missing_key_message(self.keypair->0@),
    {
        match &self.keypair {
            Some(sshkey) => {
                let found = path_exists(sshkey.as_str());
                self.keypair_check_result(found)
            },
            None => Ok(()),
        }
    }
}

/// The contents of a connection.
pub struct ConnectionView {
    pub username: Seq<char>,
    pub auth_type: Seq<char>,
    pub password: Option<Seq<char>>,
    pub keypair: Option<Seq<char>>,
    pub port: Option<u16>,
    pub ssh_endpoints: Option<Seq<(Seq<char>, EndpointView)>>,
    pub service_endpoints: Option<Seq<(Seq<char>, EndpointView)>>,
}

impl View for Connection {
    type V = ConnectionView;

    open spec fn view(&self) -> ConnectionView {
        ConnectionView {
            username: self.username@,
            auth_type: self.auth_type@,
            password: opt_view(self.auth.password),
            keypair: opt_view(self.auth.keypair),
            port: self.port,
            ssh_endpoints: match self.ssh_endpoints {
                Some(v) => Some(ssh_endpoints_view(v@)),
                None => None,
            },
            service_endpoints: self.service_endpoints_spec(),
        }
    }
}

fn copy_ssh_endpoints(v: &Vec<(String, SshEndpoint)>) -> (r: Vec<(String, SshEndpoint)>)
    ensures
        ssh_endpoints_view(r@) == ssh_endpoints_view(v@),
{
    let mut r: Vec<(String, SshEndpoint)> = Vec::new();
    let mut i: usize = 0;
    while i < v.len()
        invariant
            0 <= i <= v.len(),
            ssh_endpoints_view(r@) =~= ssh_endpoints_view(v@).take(i as int),
        decreases v.len() - i,
    {
        let ghost before = r@;
        r.push((copy_string(&v[i].0), SshEndpoint { host: copy_string(&v[i].1.host), port: v[i].1.port }));
        assert(ssh_endpoints_view(r@) =~= ssh_endpoints_view(before).push(ssh_endpoints_view(v@)[i as int]));
        assert(ssh_endpoints_view(v@).take(i + 1) =~= ssh_endpoints_view(v@).take(i as int).push(ssh_endpoints_view(v@)[i as int]));
        i = i + 1;
    }
    assert(ssh_endpoints_view(v@).take(v.len() as int) =~= ssh_endpoints_view(v@));
    r
}

fn copy_service_endpoints(v: &Vec<(String, ServiceEndpoint)>) -> (r: Vec<(String, ServiceEndpoint)>)
    ensures
        service_endpoints_view(r@) == service_endpoints_view(v@),
{
    let mut r: Vec<(String, ServiceEndpoint)> = Vec::new();
    let mut i: usize = 0;
    while i < v.len()
        invariant
            0 <= i <= v.len(),
            service_endpoints_view(r@) =~= service_endpoints_view(v@).take(i as int),
        decreases v.len() - i,
    {
        let ghost before = r@;
        r.push((copy_string(&v[i].0), ServiceEndpoint { host: copy_string(&v[i].1.host), port: v[i].1.port }));
        assert(service_endpoints_view(r@) =~= service_endpoints_view(before).push(service_endpoints_view(v@)[i as int]));
        assert(service_endpoints_view(v@).take(i + 1) =~= service_endpoints_view(v@).take(i as int).push(service_endpoints_view(v@)[i as int]));
        i = i + 1;
    }
    assert(service_endpoints_view(v@).take(v.len() as int) =~= service_endpoints_view(v@));
    r
}

impl Connection {
    /// A copy with the same contents.
    pub fn copy(&self) -> (c: Connection)
        ensures
            c@ == self@,
    {
        Connection {
            username: copy_string(&self.username),
            auth_type: copy_string(&self.auth_type),
            auth: Auth { password: copy_opt_string(&self.auth.password), keypair: copy_opt_string(&self.auth.keypair) },
            port: self.port,
            ssh_endpoints: match &self.ssh_endpoints {
                Some(v) => Some(copy_ssh_endpoints(v)),
                None => None,
            },
            service_endpoints: match &self.service_endpoints {
                Some(v) => Some(copy_service_endpoints(v)),
                None => None,
            },
        }
    }
}

} // verus!
