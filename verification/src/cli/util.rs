//! How the names the machine reports for its OS and CPU are read.
use crate::text::{copy_string, split_by_char, split_char, str_eq};
use vstd::prelude::*;

verus! {

/// The distribution id used for packages: CentOS and Rocky count as RHEL.
pub open spec fn os_id_spec(id: Seq<char>) -> Seq<char> {
    if id == "centos"@ || id == "rocky"@ { "rhel"@ } else { id }
}

/// The distribution id used for packages, from the one the machine reports.
pub fn os_id_of(id: String) -> (r: String)
    ensures
        r@ == os_id_spec(id@),
{
    proof {
        reveal_strlit("rhel");
    }
    if str_eq(id.as_str(), "centos") || str_eq(id.as_str(), "rocky") {
        String::from_str("rhel")
    } else {
        id
    }
}

/// The major version: what comes before the first `.`, or the whole version.
pub open spec fn major_version_spec(version: Seq<char>) -> Seq<char> {
    split_char(version, '.')[0]
}

/// The major version of an OS version string.
pub fn os_major_version_of(version: &str) -> (r: String)
    ensures
        r@ == major_version_spec(version@),
{
    let parts = split_by_char(version, '.');
    proof {
        crate::text::lemma_split_char_nonempty(version@, '.');
    }
    copy_string(&parts[0])
}

/// The CPU architecture used for packages: ARM as `arm64`, x86 as `amd64`,
/// anything else as reported.
pub open spec fn cpu_arch_spec(arch: Seq<char>) -> Seq<char> {
    if arch == "aarch64"@ || arch == "arm64"@ {
        "arm64"@
    } else if arch == "x86"@ || arch == "x86_64"@ || arch == "amd64"@ {
        "amd64"@
    } else {
        arch
    }
}

/// The CPU architecture used for packages, from the one the machine reports.
pub fn cpu_arch_of(arch: String) -> (r: String)
    ensures
        r@ == cpu_arch_spec(arch@),
{
    let a = arch.as_str();
    if str_eq(a, "aarch64") || str_eq(a, "arm64") {
        String::from_str("arm64")
    } else if str_eq(a, "x86") || str_eq(a, "x86_64") || str_eq(a, "amd64") {
        String::from_str("amd64")
    } else {
        arch
    }
}

} // verus!
