//! The operating-system lines of the information panel.

use vstd::prelude::*;
use crate::platform::{host_name, info_architecture, info_edition, info_version, os_info_get, version_to_string};
use crate::text::{chars_of, string_of, trim, trim_chars, Trimmed};

verus! {

/// The operating-system lines: edition and architecture, the version
/// without surrounding double quotes, the host name and the shell.
pub open spec fn os_summary(
    edition: Seq<char>,
    architecture: Seq<char>,
    version: Seq<char>,
    hostname: Seq<char>,
    shell: Seq<char>,
) -> Seq<char> {
    "OS: "@ + edition + " "@ + architecture + "\nKernel: "@ + trim(version, Trimmed::Exactly('"'))
        + "\nHost: "@ + hostname + "\nShell: "@ + shell
}

/// The operating-system lines for the given readings.
pub fn os_text(edition: &str, architecture: &str, version: &str, hostname: &str, shell: &str) -> (s: String)
    ensures
        s@ == os_summary(edition@, architecture@, version@, hostname@, shell@),
{
    let v = chars_of(version);
    let kernel = string_of(&trim_chars(&v, Trimmed::Exactly('"')));
    let mut s = String::new();
    s.append("OS: ");
    s.append(edition);
    s.append(" ");
    s.append(architecture);
    s.append("\nKernel: ");
    s.append(kernel.as_str());
    s.append("\nHost: ");
    s.append(hostname);
    s.append("\nShell: ");
    s.append(shell);
    proof {
        assert(s@ =~= os_summary(edition@, architecture@, version@, hostname@, shell@));
    }
    s
}

/// The operating-system lines, absent when the edition, the architecture
/// or the host name is unknown.
pub fn os_from_parts(
    edition: Option<&str>,
    architecture: Option<&str>,
    version: &str,
    hostname: Option<&str>,
    shell: &str,
) -> (s: Option<String>)
    ensures
        match (edition, architecture, hostname) {
            (Some(e), Some(a), Some(h)) => s matches Some(t) && t@ == os_summary(
                e@,
                a@,
                version@,
                h@,
                shell@,
            ),
            _ => s is None,
        },
{
    match (edition, architecture, hostname) {
        (Some(e), Some(a), Some(h)) => Some(os_text(e, a, version, h, shell)),
        _ => None,
    }
}

/// Reads what is known of the operating system and the host name, and
/// gives the operating-system lines with `shell` as the shell; absent when
/// the edition, the architecture or the host name is unknown.
pub fn os(shell: &str) -> (s: Option<String>)
    ensures
        s matches Some(t) ==> exists|e: Seq<char>, a: Seq<char>, v: Seq<char>, h: Seq<char>|
            t@ == os_summary(e, a, v, h, shell@),
{
    let info = os_info_get();
    let edition = info_edition(&info);
    let architecture = info_architecture(&info);
    let version = version_to_string(info_version(&info));
    let hostname = host_name();
    let e: Option<&str> = match &edition {
        Some(x) => Some(x.as_str()),
        None => None,
    };
    let a: Option<&str> = match &architecture {
        Some(x) => Some(x.as_str()),
        None => None,
    };
    let h: Option<&str> = match &hostname {
        Some(x) => Some(x.as_str()),
        None => None,
    };
    os_from_parts(e, a, version.as_str(), h, shell)
}


/// The operating-system lines give the edition right after `OS: `, then
/// the architecture; the host name follows `Host: ` and the shell ends the
/// text.
pub proof fn law_os_lines_positions(
    edition: Seq<char>,
    architecture: Seq<char>,
    version: Seq<char>,
    hostname: Seq<char>,
    shell: Seq<char>,
)
    ensures
        exists|kernel: Seq<char>|
            {
                &&& os_summary(edition, architecture, version, hostname, shell) == "OS: "@ + edition
                    + " "@ + architecture + "\nKernel: "@ + kernel + "\nHost: "@ + hostname
                    + "\nShell: "@ + shell
                &&& kernel == trim(version, Trimmed::Exactly('"'))
            },
{
    let kernel = trim(version, Trimmed::Exactly('"'));
    assert(os_summary(edition, architecture, version, hostname, shell) == "OS: "@ + edition + " "@
        + architecture + "\nKernel: "@ + kernel + "\nHost: "@ + hostname + "\nShell: "@ + shell);
}

} // verus!
