//! The web service's answer to a status query: which commands it knows.
use crate::text::{join_strings, lowercase_of, seq_join, str_eq, to_lowercase};
use vstd::prelude::*;
use vstd::string::StrSliceExecFns;

verus! {

/// The commands whose status can be asked for.
pub open spec fn supported_commands() -> Seq<Seq<char>> {
    seq!["deploy"@, "install"@, "start"@, "stop"@, "status"@]
}

/// The reply to a status query for the lower-case command `cmd`: 400 and a
/// message naming the known commands for an empty or unknown command, else
/// 200 and no message.
pub open spec fn cmd_status_spec(cmd: Seq<char>) -> (usize, Seq<char>) {
    if cmd.len() == 0 || !supported_commands().contains(cmd) {
        (400, "un support command = "@ + cmd + ", for now support command list "@ + seq_join(supported_commands(), ","@))
    } else {
        (200, ""@)
    }
}

/// The commands whose status can be asked for.
pub fn support_cmd() -> (v: Vec<String>)
    ensures
        v.deep_view() == supported_commands(),
{
    let mut v: Vec<String> = Vec::new();
    v.push(String::from_str("deploy"));
    v.push(String::from_str("install"));
    v.push(String::from_str("start"));
    v.push(String::from_str("stop"));
    v.push(String::from_str("status"));
    assert(v.deep_view() =~= supported_commands());
    v
}

/// The code and message of the reply to a status query for the lower-case command `cmd`.
pub fn cmd_status_reply(cmd: &str) -> (r: (usize, String))
    ensures
        (r.0, r.1@) == cmd_status_spec(cmd@),
{
    proof {
        reveal_strlit("un support command = ");
        reveal_strlit(", for now support command list ");
        reveal_strlit(",");
        reveal_strlit("");
    }
    let support = support_cmd();
    let mut known = false;
    let mut i: usize = 0;
    while i < support.len()
        invariant
            0 <= i <= support.len(),
            support.deep_view() == supported_commands(),
            known == exists|j: int| 0 <= j < i && support.deep_view()[j] == cmd@,
        decreases support.len() - i,
    {
        let ghost before = known;
        let same = str_eq(support[i].as_str(), cmd);
        if same {
            known = true;
        }
        proof {
            if same {
                assert(0 <= i < i + 1 && support.deep_view()[i as int] == cmd@);
            } else if !before {
                assert forall|j: int| 0 <= j < i + 1 implies support.deep_view()[j] != cmd@ by {
                    if j < i {
                        assert(!(0 <= j < i && support.deep_view()[j] == cmd@));
                    }
                }
            }
        }
        i = i + 1;
    }
    proof {
        if supported_commands().contains(cmd@) {
            let j = choose|j: int| 0 <= j < supported_commands().len() && supported_commands()[j] == cmd@;
            assert(support.deep_view()[j] == cmd@);
        }
        if known {
            let j = choose|j: int| 0 <= j < support.len() && support.deep_view()[j] == cmd@;
            assert(supported_commands()[j] == cmd@);
        }
    }
    if cmd.unicode_len() == 0 || !known {
        let mut msg = String::from_str("un support command = ");
        msg.append(cmd);
        msg.append(", for now support command list ");
        msg.append(join_strings(&support, ",").as_str());
        (400, msg)
    } else {
        (200, String::from_str(""))
    }
}

/// The reply to a status query for `command`, in any case.
pub fn check_cmd_status(command: &str) -> (r: (usize, String))
    ensures
        (r.0, r.1@) == cmd_status_spec(lowercase_of(command@)),
{
    let cmd_str = to_lowercase(command);
    cmd_status_reply(cmd_str.as_str())
}

} // verus!
