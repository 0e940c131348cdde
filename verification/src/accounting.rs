//! The accounting laws: how the byte counter moves over a whole history of
//! allocator calls. The central one is net-zero accounting — a history in
//! which every release carries the exact size of its matching allocation
//! leaves the counter where it began, whatever order the calls came in.

use vstd::prelude::*;

use vstd::arithmetic::div_mod::lemma_add_mod_noop_right;
use vstd::arithmetic::div_mod::lemma_mod_multiples_vanish;
use vstd::arithmetic::div_mod::lemma_small_mod;

use crate::allocator::total_after_allocate;
use crate::allocator::total_after_deallocate;
use crate::counter::counter_limit;

verus! {

broadcast use vstd::seq_lib::group_to_multiset_ensures;

/// One call into the allocator, as a history records it: an allocate request
/// of `size` bytes, or a deallocate request for `size` bytes at `addr`.
pub enum AllocOp {
    Allocate { size: usize },
    Deallocate { addr: usize, size: usize },
}

/// Whether a call is one the allocator admits: a release of the sentinel
/// address must carry size zero.
pub open spec fn op_admitted(op: AllocOp) -> bool {
    match op {
        AllocOp::Allocate { .. } => true,
        AllocOp::Deallocate { addr, size } => addr == 0 ==> size == 0,
    }
}

/// The counter total after one call, standing at `t` before it.
pub open spec fn total_after_op(t: nat, op: AllocOp) -> nat {
    match op {
        AllocOp::Allocate { size } => total_after_allocate(t, size as nat),
        AllocOp::Deallocate { addr, size } => total_after_deallocate(
            t,
            addr as nat,
            size as nat,
        ),
    }
}

/// The counter total after a history of calls, first to last.
pub open spec fn total_after_ops(t: nat, ops: Seq<AllocOp>) -> nat
    decreases ops.len(),
{
    if ops.len() == 0 {
        t
    } else {
        total_after_ops(total_after_op(t, ops[0]), ops.drop_first())
    }
}

/// The sizes of the allocations in a history that reach the OS, in call
/// order; zero-size requests make no mapping and do not appear.
pub open spec fn mapped_sizes(ops: Seq<AllocOp>) -> Seq<usize>
    decreases ops.len(),
{
    if ops.len() == 0 {
        Seq::empty()
    } else {
        let rest = mapped_sizes(ops.drop_first());
        match ops[0] {
            AllocOp::Allocate { size } => if size == 0 {
                rest
            } else {
                seq![size] + rest
            },
            AllocOp::Deallocate { .. } => rest,
        }
    }
}

/// The sizes of the releases in a history that reach the OS, in call order;
/// releases of the sentinel address unmap nothing and do not appear.
pub open spec fn unmapped_sizes(ops: Seq<AllocOp>) -> Seq<usize>
    decreases ops.len(),
{
    if ops.len() == 0 {
        Seq::empty()
    } else {
        let rest = unmapped_sizes(ops.drop_first());
        match ops[0] {
            AllocOp::Allocate { .. } => rest,
            AllocOp::Deallocate { addr, size } => if addr == 0 {
                rest
            } else {
                seq![size] + rest
            },
        }
    }
}

/// The sum of a sequence of sizes.
pub open spec fn size_sum(s: Seq<usize>) -> int
    decreases s.len(),
{
    if s.len() == 0 {
        0
    } else {
        s[0] + size_sum(s.drop_first())
    }
}

/// What one call does to the counter, as a signed amount of bytes.
pub open spec fn op_delta(op: AllocOp) -> int {
    match op {
        AllocOp::Allocate { size } => size as int,
        AllocOp::Deallocate { addr, size } => if addr == 0 {
            0
        } else {
            -(size as int)
        },
    }
}

/// Pulling an inner remainder out of a sum under the same modulus changes
/// nothing: `(a % m + b) % m == (a + b) % m`.
proof fn lemma_mod_shift(a: int, b: int, m: int)
    requires
        0 < m,
    ensures
        (a % m + b) % m == (a + b) % m,
{
    lemma_add_mod_noop_right(b, a, m);
}

/// One call moves the counter to its old total plus the call's delta,
/// taken modulo the counter limit.
proof fn lemma_total_after_op_mod(t: nat, op: AllocOp)
    requires
        t <= usize::MAX,
    ensures
        total_after_op(t, op) <= usize::MAX,
        total_after_op(t, op) == (t + op_delta(op)) % counter_limit(),
{
    let m = counter_limit();
    if op_delta(op) == 0 || t + op_delta(op) == total_after_op(t, op) {
        lemma_small_mod(total_after_op(t, op), m as nat);
    } else if op_delta(op) > 0 {
        // The add wrapped: t + delta lies one limit above the stored total.
        lemma_mod_multiples_vanish(1, t + op_delta(op) - m, m);
        lemma_small_mod((t + op_delta(op) - m) as nat, m as nat);
    } else {
        // The subtract wrapped: t + delta lies one limit below the stored total.
        lemma_mod_multiples_vanish(1, t + op_delta(op), m);
        lemma_small_mod((t + op_delta(op) + m) as nat, m as nat);
    }
}

/// A history moves the counter to its old total, plus every mapped size,
/// minus every unmapped size, taken modulo the counter limit.
proof fn lemma_total_after_ops_mod(t: nat, ops: Seq<AllocOp>)
    requires
        t <= usize::MAX,
    ensures
        total_after_ops(t, ops) <= usize::MAX,
        total_after_ops(t, ops) == (t + size_sum(mapped_sizes(ops)) - size_sum(
            unmapped_sizes(ops),
        )) % counter_limit(),
    decreases ops.len(),
{
    let m = counter_limit();
    if ops.len() == 0 {
        lemma_small_mod(t, m as nat);
    } else {
        let op = ops[0];
        let rest = ops.drop_first();
        let t1 = total_after_op(t, op);
        lemma_total_after_op_mod(t, op);
        lemma_total_after_ops_mod(t1, rest);
        let shifted = size_sum(mapped_sizes(rest)) - size_sum(unmapped_sizes(rest));
        lemma_mod_shift(t + op_delta(op), shifted, m);
        match op {
            AllocOp::Allocate { size } => {
                if size != 0 {
                    assert((seq![size] + mapped_sizes(rest)).drop_first() =~= mapped_sizes(rest));
                }
            },
            AllocOp::Deallocate { addr, size } => {
                if addr != 0 {
                    assert((seq![size] + unmapped_sizes(rest)).drop_first() =~= unmapped_sizes(
                        rest,
                    ));
                }
            },
        }
    }
}

/// Taking out the element at `i` takes exactly that element's value out of
/// the sum.
proof fn lemma_size_sum_remove(s: Seq<usize>, i: int)
    requires
        0 <= i < s.len(),
    ensures
        size_sum(s) == s[i] + size_sum(s.remove(i)),
    decreases i,
{
    if i == 0 {
        assert(s.remove(0) =~= s.drop_first());
    } else {
        lemma_size_sum_remove(s.drop_first(), i - 1);
        assert(s.remove(i).drop_first() =~= s.drop_first().remove(i - 1));
    }
}

/// Two sequences that hold the same sizes, each the same number of times,
/// have the same sum, whatever their order.
proof fn lemma_size_sum_permutation(s1: Seq<usize>, s2: Seq<usize>)
    requires
        s1.to_multiset() == s2.to_multiset(),
    ensures
        size_sum(s1) == size_sum(s2),
    decreases s1.len(),
{
    if s1.len() == 0 {
        assert(s2.to_multiset().len() == 0);
    } else {
        let a = s1[0];
        assert(s1.contains(a));
        assert(s2.to_multiset().count(a) > 0);
        assert(s2.contains(a));
        let i = choose|i: int| 0 <= i < s2.len() && s2[i] == a;
        assert(s1.remove(0) =~= s1.drop_first());
        assert(s1.remove(0).to_multiset() == s1.to_multiset().remove(a));
        assert(s2.remove(i).to_multiset() == s2.to_multiset().remove(a));
        lemma_size_sum_permutation(s1.drop_first(), s2.remove(i));
        lemma_size_sum_remove(s2, i);
    }
}

/// Net-zero accounting: over any history of admitted calls in which the
/// releases that reach the OS carry exactly the sizes of the allocations
/// that reached it — each release using the size given to its matching
/// allocation, in whatever order — the counter ends where it began.
pub proof fn lemma_net_zero(t: nat, ops: Seq<AllocOp>)
    requires
        t <= usize::MAX,
        forall|i: int| 0 <= i < ops.len() ==> op_admitted(#[trigger] ops[i]),
        mapped_sizes(ops).to_multiset() == unmapped_sizes(ops).to_multiset(),
    ensures
        total_after_ops(t, ops) == t,
{
    lemma_total_after_ops_mod(t, ops);
    lemma_size_sum_permutation(mapped_sizes(ops), unmapped_sizes(ops));
    lemma_small_mod(t, counter_limit() as nat);
}

/// Order-independence: two calls move the counter to the same total in
/// either order, so concurrent callers agree on the accounting whatever
/// interleaving the scheduler picks.
pub proof fn lemma_ops_commute(t: nat, a: AllocOp, b: AllocOp)
    requires
        t <= usize::MAX,
    ensures
        total_after_op(total_after_op(t, a), b) == total_after_op(total_after_op(t, b), a),
{
    let m = counter_limit();
    lemma_total_after_op_mod(t, a);
    lemma_total_after_op_mod(t, b);
    lemma_total_after_op_mod(total_after_op(t, a), b);
    lemma_total_after_op_mod(total_after_op(t, b), a);
    lemma_mod_shift(t + op_delta(a), op_delta(b), m);
    lemma_mod_shift(t + op_delta(b), op_delta(a), m);
}

} // verus!
