//! The cost of a genome against a target: a length penalty plus the squared
//! distance of the character codes, position by position.

use vstd::prelude::*;
use crate::error::EvolutionError;

verus! {

/// What each character of difference in length costs.
pub const LENGTH_PENALTY: u64 = 9999;

/// The squared difference of two character codes.
pub open spec fn squared_distance(a: char, b: char) -> nat {
    let d = a as int - b as int;
    (d * d) as nat
}

/// The sum of the squared distances over the first `n` positions.
pub open spec fn mismatch(genome: Seq<char>, target: Seq<char>, n: nat) -> nat
    decreases n,
{
    if n == 0 {
        0
    } else {
        mismatch(genome, target, (n - 1) as nat) + squared_distance(
            genome[n - 1],
            target[n - 1],
        )
    }
}

/// The number of positions that both sequences have.
pub open spec fn overlap(genome: Seq<char>, target: Seq<char>) -> nat {
    if genome.len() <= target.len() {
        genome.len()
    } else {
        target.len()
    }
}

/// By how many characters the two lengths differ.
pub open spec fn length_gap(genome: Seq<char>, target: Seq<char>) -> nat {
    if genome.len() <= target.len() {
        (target.len() - genome.len()) as nat
    } else {
        (genome.len() - target.len()) as nat
    }
}

/// The cost of `genome` against `target`; lower is better. Characters beyond
/// the shorter of the two count only through the length penalty.
pub open spec fn cost(genome: Seq<char>, target: Seq<char>) -> nat {
    LENGTH_PENALTY as nat * length_gap(genome, target) + mismatch(
        genome,
        target,
        overlap(genome, target),
    )
}

/// The mismatch grows with the number of positions counted.
pub proof fn lemma_mismatch_monotonic(genome: Seq<char>, target: Seq<char>, n: nat, m: nat)
    requires
        n <= m,
    ensures
        mismatch(genome, target, n) <= mismatch(genome, target, m),
    decreases m,
{
    if n < m {
        lemma_mismatch_monotonic(genome, target, n, (m - 1) as nat);
    }
}

/// A sequence has no mismatch against itself.
pub proof fn lemma_mismatch_of_equal(genome: Seq<char>, n: nat)
    ensures
        mismatch(genome, genome, n) == 0,
    decreases n,
{
    if n > 0 {
        lemma_mismatch_of_equal(genome, (n - 1) as nat);
    }
}

/// The target itself costs nothing.
pub proof fn lemma_cost_of_target_is_zero(target: Seq<char>)
    ensures
        cost(target, target) == 0,
{
    lemma_mismatch_of_equal(target, target.len());
}

/// Where nothing mismatches over the first `n` positions, the two sequences
/// agree there.
pub proof fn lemma_no_mismatch_agrees(genome: Seq<char>, target: Seq<char>, n: nat)
    requires
        mismatch(genome, target, n) == 0,
    ensures
        forall|i: int| 0 <= i < n ==> genome[i] == target[i],
    decreases n,
{
    if n > 0 {
        let d = genome[n - 1] as int - target[n - 1] as int;
        assert(d * d == 0 ==> d == 0) by (nonlinear_arith);
        assert(d * d >= 0) by (nonlinear_arith);
        lemma_no_mismatch_agrees(genome, target, (n - 1) as nat);
    }
}

/// Only the target itself costs nothing.
pub proof fn lemma_zero_cost_is_target(genome: Seq<char>, target: Seq<char>)
    requires
        cost(genome, target) == 0,
    ensures
        genome == target,
{
    assert(length_gap(genome, target) == 0) by (nonlinear_arith)
        requires
            LENGTH_PENALTY as nat * length_gap(genome, target) + mismatch(
                genome,
                target,
                overlap(genome, target),
            ) == 0,
            LENGTH_PENALTY == 9999,
    ;
    lemma_no_mismatch_agrees(genome, target, genome.len());
}

/// The squared distance of two characters, which always fits.
pub fn gene_distance(a: char, b: char) -> (d: u64)
    ensures
        d == squared_distance(a, b),
        d <= 0x10FFFF * 0x10FFFF,
{
    let x: u32 = a as u32;
    let y: u32 = b as u32;
    let gap: u64 = if x <= y {
        (y - x) as u64
    } else {
        (x - y) as u64
    };
    assert(gap * gap <= 0x10FFFF * 0x10FFFF) by (nonlinear_arith)
        requires
            gap <= 0x10FFFF,
    ;
    assert(gap * gap == (a as int - b as int) * (a as int - b as int)) by (nonlinear_arith)
        requires
            gap == a as int - b as int || gap == b as int - a as int,
    ;
    gap * gap
}

/// Computes the cost of `genome` against `target`, or reports that it does
/// not fit in 64 bits.
pub fn genome_cost(genome: &Vec<char>, target: &Vec<char>) -> (r: Result<u64, EvolutionError>)
    ensures
        cost(genome@, target@) <= u64::MAX ==> r == Ok::<u64, EvolutionError>(
            cost(genome@, target@) as u64,
        ),
        cost(genome@, target@) > u64::MAX ==> r == Err::<u64, EvolutionError>(
            EvolutionError::ArithmeticOverflow,
        ),
{
    let glen: usize = genome.len();
    let tlen: usize = target.len();
    let shared: usize = if glen <= tlen {
        glen
    } else {
        tlen
    };
    let gap: u64 = if glen <= tlen {
        (tlen - glen) as u64
    } else {
        (glen - tlen) as u64
    };
    let mut total: u64 = match LENGTH_PENALTY.checked_mul(gap) {
        Some(p) => p,
        None => {
            return Err(EvolutionError::ArithmeticOverflow);
        },
    };
    let mut i: usize = 0;
    while i < shared
        invariant
            i <= shared,
            shared == overlap(genome@, target@),
            total == LENGTH_PENALTY as nat * length_gap(genome@, target@) + mismatch(
                genome@,
                target@,
                i as nat,
            ),
        decreases shared - i,
    {
        let d: u64 = gene_distance(genome[i], target[i]);
        match total.checked_add(d) {
            Some(t) => {
                total = t;
            },
            None => {
                proof {
                    lemma_mismatch_monotonic(genome@, target@, (i + 1) as nat, shared as nat);
                }
                return Err(EvolutionError::ArithmeticOverflow);
            },
        }
        i += 1;
    }
    Ok(total)
}

} // verus!
