//! Logging the database pool's size on every third request.
use vstd::prelude::*;

verus! {

/// Requests are counted in chunks of this size; the pool is logged once per chunk.
pub const REQ_CHUNK_SIZE: usize = 3;

/// The request counter after one more request.
pub fn next_req_count(count: usize) -> (next: usize)
    requires
        count < usize::MAX,
    ensures
        next == (count + 1) % (REQ_CHUNK_SIZE as int),
{
    (count + 1) % REQ_CHUNK_SIZE
}

/// The pool is logged when the counter, before the request, was at the start of a chunk.
pub fn logs_pool_size(previous_count: usize) -> (r: bool)
    ensures
        r == (previous_count == 0),
{
    previous_count == 0
}

/// The counter after `k` requests, counting from zero.
pub open spec fn counter_after(k: nat) -> int
    decreases k,
{
    if k == 0 {
        0
    } else {
        (counter_after((k - 1) as nat) + 1) % (REQ_CHUNK_SIZE as int)
    }
}

/// After `k` requests the counter is `k` modulo the chunk size, so the pool is logged on
/// the requests whose number is a multiple of the chunk size: once per chunk.
pub proof fn law_counter_after(k: nat)
    ensures
        counter_after(k) == (k as int) % (REQ_CHUNK_SIZE as int),
        (counter_after(k) == 0) <==> ((k as int) % 3 == 0),
    decreases k,
{
    if k > 0 {
        law_counter_after((k - 1) as nat);
        assert(((k - 1) % 3 + 1) % 3 == k % 3) by (nonlinear_arith)
            requires
                k > 0,
        ;
    }
}

} // verus!
