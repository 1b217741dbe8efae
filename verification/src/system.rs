//! The process table that `sysinfo` holds after a refresh, as the library
//! sees it: a set of (process id, process name bytes) pairs.

use vstd::prelude::*;
use vstd::utf8::encode_utf8;

verus! {

/// `sysinfo::System`, a snapshot of the machine's processes; opaque here.
#[verifier::external_type_specification]
#[verifier::external_body]
pub struct ExSystem(sysinfo::System);

/// The processes in the snapshot `system`: for each process, its id as
/// `Pid::as_u32` gives it and the bytes of its name.
pub uninterp spec fn process_table(system: sysinfo::System) -> Set<(u32, Seq<u8>)>;

/// `needle` occurs in `haystack` as a contiguous run of bytes (the empty
/// needle occurs in every haystack).
pub open spec fn contains_bytes(haystack: Seq<u8>, needle: Seq<u8>) -> bool {
    exists|i: int|
        0 <= i && i + needle.len() <= haystack.len() && #[trigger] haystack.subrange(
            i,
            i + needle.len(),
        ) == needle
}

/// Some process of `table` has id `pid` and a name that contains `needle`.
pub open spec fn named_in(table: Set<(u32, Seq<u8>)>, needle: Seq<u8>, pid: u32) -> bool {
    exists|bytes: Seq<u8>| table.contains((pid, bytes)) && contains_bytes(bytes, needle)
}

/// The process ids of the processes whose name contains `name`.
///
/// Calls `sysinfo::System::processes_by_name`, which keeps the processes of
/// the snapshot whose name bytes contain the bytes of `name` (a substring
/// search with `memchr::memmem`), and maps each to `Process::pid().as_u32()`.
/// The contract states which ids come back; it leaves their order unsaid
/// (the snapshot is a hash map walked in no fixed order).
#[verifier::external_body]
pub(crate) fn pids_by_name(system: &sysinfo::System, name: &str) -> (pids: Vec<u32>)
    ensures
        forall|pid: u32| pids@.contains(pid) == named_in(process_table(*system), encode_utf8(name@), pid),
{
    system.processes_by_name(name.as_ref()).map(|process| process.pid().as_u32()).collect()
}

} // verus!
