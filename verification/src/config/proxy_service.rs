//! The EloqKV proxy service and the paths of its installation.
use crate::text::copy_string;
use vstd::prelude::*;

verus! {

/// A proxy in front of EloqKV clusters.
#[derive(PartialEq, Debug, Clone)]
pub struct ProxyService {
    pub proxy_name: String,
    pub bin_download_url: Option<String>,
    pub proxy_addrs: Vec<String>,
    pub web_service_ports: Vec<String>,
    pub install_dir: String,
    pub eloqkv_cluster_addr: Vec<String>,
    pub eloqkv_cluster_token: Vec<String>,
    pub eloqkv_cluster_password: Vec<String>,
}

impl ProxyService {
    /// `{install_dir}/proxy-service`.
    pub open spec fn home_spec(self) -> Seq<char> {
        self.install_dir@ + "/proxy-service"@
    }

    /// The directory the proxy is installed in: `{install_dir}/proxy-service`.
    pub fn install_dir(&self) -> (d: String)
        ensures
            d@ == self.home_spec(),
    {
        proof {
            reveal_strlit("/proxy-service");
        }
        let mut d = copy_string(&self.install_dir);
        d.append("/proxy-service");
        d
    }

    /// The proxy binary: `{install_dir}/proxy-service/eloqkv-proxy`.
    pub fn proxy_bin(&self) -> (p: String)
        ensures
            p@ == self.home_spec() + "/eloqkv-proxy"@,
    {
        proof {
            reveal_strlit("/eloqkv-proxy");
        }
        let mut p = self.install_dir();
        p.append("/eloqkv-proxy");
        p
    }

    /// The proxy configuration: `{install_dir}/proxy-service/eloqproxy.ini`.
    pub fn proxy_conf_path(&self) -> (p: String)
        ensures
            p@ == self.home_spec() + "/eloqproxy.ini"@,
    {
        proof {
            reveal_strlit("/eloqproxy.ini");
        }
        let mut p = self.install_dir();
        p.append("/eloqproxy.ini");
        p
    }
}

} // verus!
