//! The memory line of the information panel.

use vstd::prelude::*;
use crate::platform::{refresh_memory, total_memory, used_memory};
use crate::text::{decimal, law_decimal_parses_back, parse_unsigned, push_decimal};

verus! {

/// The memory line for `used` and `total` bytes, both shown in whole MiB.
pub open spec fn memory_summary(used: nat, total: nat) -> Seq<char> {
    "Memoria: "@ + decimal(used / 1024 / 1024) + " MB / "@ + decimal(total / 1024 / 1024) + " MB"@
}

/// The memory line for `used_bytes` of `total_bytes`.
pub fn memory_text(used_bytes: u64, total_bytes: u64) -> (s: String)
    ensures
        s@ == memory_summary(used_bytes as nat, total_bytes as nat),
{
    let mut s = String::new();
    s.append("Memoria: ");
    push_decimal(&mut s, used_bytes / 1024 / 1024);
    s.append(" MB / ");
    push_decimal(&mut s, total_bytes / 1024 / 1024);
    s.append(" MB");
    proof {
        assert(s@ =~= memory_summary(used_bytes as nat, total_bytes as nat));
    }
    s
}

/// Refreshes the memory figures of `sys` and gives the memory line for
/// them.
pub fn memory(sys: &mut sysinfo::System) -> (s: String)
    ensures
        exists|used: u64, total: u64| s@ == memory_summary(used as nat, total as nat),
{
    refresh_memory(sys);
    let used = used_memory(sys);
    let total = total_memory(sys);
    memory_text(used, total)
}


/// The memory line read back: its first figure is the used memory and its
/// second the total, each in whole MiB.
pub proof fn law_memory_line_reads_back(used: u64, total: u64)
    ensures
        exists|first: Seq<char>, second: Seq<char>|
            {
                &&& memory_summary(used as nat, total as nat) == "Memoria: "@ + first + " MB / "@
                    + second + " MB"@
                &&& parse_unsigned(first, u64::MAX as nat) == Some((used / 1024 / 1024) as nat)
                &&& parse_unsigned(second, u64::MAX as nat) == Some((total / 1024 / 1024) as nat)
            },
{
    let first = decimal((used / 1024 / 1024) as nat);
    let second = decimal((total / 1024 / 1024) as nat);
    law_decimal_parses_back((used / 1024 / 1024) as nat, u64::MAX as nat);
    law_decimal_parses_back((total / 1024 / 1024) as nat, u64::MAX as nat);
    assert(memory_summary(used as nat, total as nat) == "Memoria: "@ + first + " MB / "@ + second
        + " MB"@);
}

} // verus!
