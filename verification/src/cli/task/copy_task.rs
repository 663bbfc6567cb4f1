//! Copying a directory from a host to this machine with `scp`.
use crate::cli::task::task_base::TaskId;
use crate::config::connection::Connection;
use crate::text::{copy_string, decimal, u64_to_string};
use vstd::prelude::*;

verus! {

/// A task that copies `src_path` from `src_host` to `dst_path` here.
#[derive(Debug, Clone)]
pub struct CopyTask {
    pub id: TaskId,
    pub conn: Connection,
    pub src_host: String,
    pub src_path: String,
    pub dst_path: String,
}

/// The options `scp` runs with: no host-key prompts, key authentication
/// only, batch mode and a ten-second connect timeout.
pub open spec fn scp_options() -> Seq<Seq<char>> {
    seq![
        "-o"@, "UserKnownHostsFile=/dev/null"@,
        "-o"@, "StrictHostKeyChecking=no"@,
        "-o"@, "PasswordAuthentication=no"@,
        "-o"@, "BatchMode=yes"@,
        "-o"@, "ConnectTimeout=10"@,
    ]
}

impl CopyTask {
    /// A copy task.
    pub fn new(id: TaskId, conn: Connection, src_host: String, src_path: String, dst_path: String) -> (t: Self)
        ensures
            t.id == id,
            t.conn == conn,
            t.src_host == src_host,
            t.src_path == src_path,
            t.dst_path == dst_path,
    {
        CopyTask { id, conn, src_host, src_path, dst_path }
    }

    /// `{user}@{ssh host}:{src_path}`, the source as `scp` names it.
    pub open spec fn source_spec(self) -> Seq<char> {
        self.conn.username@ + "@"@ + self.conn.ssh_endpoint_spec(self.src_host@).0 + ":"@ + self.src_path@
    }

    /// The source of the copy as `scp` names it.
    pub fn scp_source(&self) -> (s: String)
        ensures
            s@ == self.source_spec(),
    {
        proof {
            reveal_strlit("@");
            reveal_strlit(":");
        }
        let (ssh_host, _ssh_port) = self.conn.ssh_endpoint(self.src_host.as_str());
        let mut s = copy_string(&self.conn.username);
        s.append("@");
        s.append(ssh_host.as_str());
        s.append(":");
        s.append(self.src_path.as_str());
        s
    }

    /// The arguments of `scp`: the options, the key, the SSH port, a
    /// recursive copy, the source and the destination.
    pub fn scp_args(&self) -> (args: Vec<String>)
        requires
            self.conn.auth.keypair is Some,
        ensures
            args.deep_view() == scp_options() + seq![
                "-i"@, self.conn.auth.keypair->0@,
                "-P"@, decimal(self.conn.ssh_endpoint_spec(self.src_host@).1 as nat),
                "-r"@, self.source_spec(), self.dst_path@,
            ],
    {
        let (_ssh_host, ssh_port) = self.conn.ssh_endpoint(self.src_host.as_str());
        let key = match self.conn.ssh_auth_key() {
            Some(k) => k,
            None => String::new(),
        };
        let mut args: Vec<String> = Vec::new();
        args.push(String::from_str("-o"));
        args.push(String::from_str("UserKnownHostsFile=/dev/null"));
        args.push(String::from_str("-o"));
        args.push(String::from_str("StrictHostKeyChecking=no"));
        args.push(String::from_str("-o"));
        args.push(String::from_str("PasswordAuthentication=no"));
        args.push(String::from_str("-o"));
        args.push(String::from_str("BatchMode=yes"));
        args.push(String::from_str("-o"));
        args.push(String::from_str("ConnectTimeout=10"));
        args.push(String::from_str("-i"));
        args.push(key);
        args.push(String::from_str("-P"));
        args.push(u64_to_string(ssh_port as u64));
        args.push(String::from_str("-r"));
        args.push(self.scp_source());
        args.push(copy_string(&self.dst_path));
        proof {
            assert(args.deep_view() =~= scp_options() + seq![
                "-i"@, self.conn.auth.keypair->0@,
                "-P"@, decimal(self.conn.ssh_endpoint_spec(self.src_host@).1 as nat),
                "-r"@, self.source_spec(), self.dst_path@,
            ]);
        }
        args
    }
}

} // verus!
