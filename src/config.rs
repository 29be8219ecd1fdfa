use vstd::prelude::*;

verus! {

/// Bytes in one mebibyte.
pub const MIB: usize = 1048576;

/// Size in bytes of a write buffer configured as `size_mb` mebibytes.
pub open spec fn spec_buffer_len(size_mb: nat) -> nat {
    size_mb * 1048576
}

/// Number of workers for a host with `cpus` logical processors: two are left
/// for the rest of the system, and at least one worker always runs.
pub open spec fn spec_worker_count(cpus: nat) -> nat {
    if cpus >= 3 {
        (cpus - 2) as nat
    } else {
        1
    }
}

/// The buffer length in bytes for `size_mb` mebibytes, or `None` where it
/// does not fit in a `usize`.
pub fn buffer_len(size_mb: usize) -> (r: Option<usize>)
    ensures
        r is Some <==> spec_buffer_len(size_mb as nat) <= usize::MAX,
        r matches Some(n) ==> n as nat == spec_buffer_len(size_mb as nat),
{
    if size_mb <= usize::MAX / MIB {
        assert(size_mb * MIB <= usize::MAX) by (nonlinear_arith)
            requires
                size_mb <= usize::MAX / MIB,
                MIB == 1048576,
        ;
        Some(size_mb * MIB)
    } else {
        assert(size_mb * 1048576 > usize::MAX) by (nonlinear_arith)
            requires
                size_mb > usize::MAX / 1048576,
        ;
        None
    }
}

pub fn worker_count_for(cpus: usize) -> (r: usize)
    ensures
        r as nat == spec_worker_count(cpus as nat),
        r >= 1,
{
    if cpus >= 3 {
        cpus - 2
    } else {
        1
    }
}

/// Relies on num_cpus::get: the number of logical processors available to
/// this process, documented as always at least one.
#[verifier::external_body]
fn available_cpus() -> (r: usize)
    ensures
        r >= 1,
{
    num_cpus::get()
}

/// Number of workers to spawn on this host.
pub fn worker_count() -> (r: usize)
    ensures
        r >= 1,
        exists|cpus: nat| cpus >= 1 && r as nat == spec_worker_count(cpus),
{
    let cpus = available_cpus();
    worker_count_for(cpus)
}

} // verus!
