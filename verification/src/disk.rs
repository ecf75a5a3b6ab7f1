//! The disks line of the information panel.

use vstd::prelude::*;
use crate::platform::{disk_mount_point, disk_total_space, disks_list, disks_new_with_refreshed_list};
use crate::text::{chars_of, decimal, push_decimal, string_of, without, without_char};

verus! {

/// One disk as the panel lists it: where it is mounted and its size in bytes.
pub struct DiskSpace {
    pub mount_point: String,
    pub total_space: u64,
}

/// The entry of one disk: its mount point without backslashes, in
/// brackets, then its size in whole GiB.
pub open spec fn disk_entry(d: DiskSpace) -> Seq<char> {
    "("@ + without(d.mount_point@, '\\') + ") "@ + decimal((d.total_space / 1024 / 1024 / 1024) as nat)
        + " GB"@
}

/// The entries of `ds`, separated by ` | `.
pub open spec fn disk_entries(ds: Seq<DiskSpace>) -> Seq<char>
    decreases ds.len(),
{
    if ds.len() == 0 {
        Seq::empty()
    } else if ds.len() == 1 {
        disk_entry(ds[0])
    } else {
        disk_entries(ds.drop_last()) + " | "@ + disk_entry(ds.last())
    }
}

/// The disks line: a heading, then the entries.
pub open spec fn disks_summary(ds: Seq<DiskSpace>) -> Seq<char> {
    "Discos:\n"@ + disk_entries(ds)
}

/// The disks line for `disks`.
pub fn disk_text(disks: &[DiskSpace]) -> (s: String)
    ensures
        s@ == disks_summary(disks@),
{
    let mut entries = String::new();
    let mut i: usize = 0;
    proof {
        assert(disks@.take(0) =~= Seq::<DiskSpace>::empty());
    }
    while i < disks.len()
        invariant
            i <= disks@.len(),
            entries@ == disk_entries(disks@.take(i as int)),
        decreases disks@.len() - i,
    {
        let d = &disks[i];
        proof {
            assert(disks@.take(i + 1).drop_last() =~= disks@.take(i as int));
            assert(disks@.take(i + 1).last() == *d);
        }
        if i > 0 {
            entries.append(" | ");
        }
        let ghost before = entries@;
        let mount = chars_of(d.mount_point.as_str());
        let kept = without_char(&mount, '\\');
        entries.append("(");
        entries.append(string_of(&kept).as_str());
        entries.append(") ");
        push_decimal(&mut entries, d.total_space / 1024 / 1024 / 1024);
        entries.append(" GB");
        proof {
            assert(entries@ =~= before + disk_entry(*d));
            if i == 0 {
                assert(disks@.take(1) =~= seq![*d]);
            }
        }
        i = i + 1;
    }
    proof {
        assert(disks@.take(disks@.len() as int) =~= disks@);
    }
    let mut s = String::new();
    s.append("Discos:\n");
    s.append(entries.as_str());
    s
}

/// Lists the machine's disks now and gives the disks line for them.
pub fn disk() -> (s: String)
    ensures
        exists|ds: Seq<DiskSpace>| s@ == disks_summary(ds),
{
    let disks = disks_new_with_refreshed_list();
    let list = disks_list(&disks);
    let mut spaces: Vec<DiskSpace> = Vec::new();
    let mut i: usize = 0;
    while i < list.len()
        decreases list@.len() - i,
    {
        spaces.push(
            DiskSpace {
                mount_point: disk_mount_point(&list[i]),
                total_space: disk_total_space(&list[i]),
            },
        );
        i = i + 1;
    }
    disk_text(&spaces)
}


/// Listing one more disk appends its entry to the line, after ` | ` when
/// other disks come before it: every disk is listed, in order.
pub proof fn law_disks_line_appends(ds: Seq<DiskSpace>, d: DiskSpace)
    ensures
        disks_summary(ds.push(d)) == if ds.len() == 0 {
            "Discos:\n"@ + disk_entry(d)
        } else {
            disks_summary(ds) + " | "@ + disk_entry(d)
        },
{
    assert(ds.push(d).drop_last() =~= ds);
    if ds.len() == 0 {
        assert(ds.push(d) =~= seq![d]);
    } else {
        assert(disks_summary(ds.push(d)) =~= disks_summary(ds) + " | "@ + disk_entry(d));
    }
}

/// A disk's entry gives its mount point, with no backslash left, and its
/// size in whole GiB.
pub proof fn law_disk_entry_parts(d: DiskSpace)
    ensures
        exists|mount: Seq<char>|
            {
                &&& disk_entry(d) == "("@ + mount + ") "@ + decimal(
                    (d.total_space / 1024 / 1024 / 1024) as nat,
                ) + " GB"@
                &&& !mount.contains('\\')
                &&& mount == without(d.mount_point@, '\\')
            },
{
    lemma_without_lacks(d.mount_point@, '\\');
    let mount = without(d.mount_point@, '\\');
    assert(disk_entry(d) == "("@ + mount + ") "@ + decimal(
        (d.total_space / 1024 / 1024 / 1024) as nat,
    ) + " GB"@);
}

/// Removing a character leaves none of it.
proof fn lemma_without_lacks(s: Seq<char>, c: char)
    ensures
        !without(s, c).contains(c),
    decreases s.len(),
{
    if s.len() > 0 {
        lemma_without_lacks(s.drop_last(), c);
        let w = without(s.drop_last(), c);
        if s.last() != c {
            assert forall|j: int| 0 <= j < w.push(s.last()).len() implies w.push(s.last())[j] != c by {
                if j < w.len() {
                    assert(w.push(s.last())[j] == w[j]);
                }
            }
        }
    }
}

} // verus!
