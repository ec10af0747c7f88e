//! The genetic operators on a single gene, each a function of the gene and
//! of the integers that were drawn for it.

use vstd::prelude::*;

verus! {

/// `char::from_u32`. Trusted: the conversion succeeds exactly on the Unicode
/// scalar values, and the character it gives has the code that went in.
pub assume_specification[ char::from_u32 ](code: u32) -> (r: Option<char>)
    ensures
        r is Some <==> (code <= 0xD7FF || 0xE000 <= code <= 0x10FFFF),
        r matches Some(c) ==> c == code as char,
;

/// Whether `code` is the code of a character.
pub open spec fn is_scalar_value(code: int) -> bool {
    0 <= code <= 0xD7FF || 0xE000 <= code <= 0x10FFFF
}

/// The gene whose code lies `delta` from that of `gene`. The code is not
/// held to any alphabet. Where it would not be the code of a character at
/// all, the gene stays as it is.
pub open spec fn shifted(gene: char, delta: int) -> char {
    if is_scalar_value(gene as int + delta) {
        (gene as int + delta) as char
    } else {
        gene
    }
}

/// Moves the code of `gene` by `delta`.
pub fn shift_gene(gene: char, delta: i64) -> (r: char)
    ensures
        r == shifted(gene, delta as int),
{
    let code: i64 = gene as u32 as i64;
    match code.checked_add(delta) {
        Some(moved) => {
            if 0 <= moved && moved <= 0x10FFFF {
                match char::from_u32(moved as u32) {
                    Some(c) => c,
                    None => gene,
                }
            } else {
                gene
            }
        },
        None => gene,
    }
}

/// The gene after one mutation, given what was drawn for it: `roll` from the
/// `rate` values starting at zero decides whether the gene is hit (zero
/// hits), and `delta` is the shift of a gene that is hit.
pub fn mutate_gene(gene: char, roll: i64, delta: i64) -> (r: char)
    ensures
        r == (if roll == 0 {
            shifted(gene, delta as int)
        } else {
            gene
        }),
{
    if roll == 0 {
        shift_gene(gene, delta)
    } else {
        gene
    }
}

/// The gene that a child takes at one position, given the coin that was
/// drawn for it: zero takes the first parent's gene, anything else the
/// second's.
pub fn cross_gene(first: char, second: char, coin: i64) -> (r: char)
    ensures
        r == (if coin == 0 {
            first
        } else {
            second
        }),
{
    if coin == 0 {
        first
    } else {
        second
    }
}

/// What a mutation can make of one gene. With a rate other than 1 the gene
/// may be passed over; a gene that is hit moves by a shift from `-max_shift`
/// up to, but not including, `max_shift`, and with a bound of zero it does
/// not move.
pub open spec fn may_mutate_to(before: char, after: char, rate: nat, max_shift: nat) -> bool {
    ||| rate != 1 && after == before
    ||| max_shift == 0 && after == before
    ||| exists|delta: int| -max_shift <= delta < max_shift && after == #[trigger] shifted(before, delta)
}

/// Whether `after` can come out of one mutation of the genome `before`: the
/// length stays, and each gene is one that a mutation can make of the gene
/// that stood there.
pub open spec fn is_mutation_of(
    after: Seq<char>,
    before: Seq<char>,
    rate: nat,
    max_shift: nat,
) -> bool {
    &&& after.len() == before.len()
    &&& forall|i: int|
        0 <= i < before.len() ==> may_mutate_to(before[i], #[trigger] after[i], rate, max_shift)
}

/// Whether `child` can come out of breeding `first` with `second`: it is as
/// long as the shorter parent, and each gene is the gene of one of the
/// parents at that position.
pub open spec fn is_cross_of(child: Seq<char>, first: Seq<char>, second: Seq<char>) -> bool {
    &&& child.len() == (if first.len() <= second.len() {
        first.len()
    } else {
        second.len()
    })
    &&& forall|i: int|
        0 <= i < child.len() ==> (#[trigger] child[i] == first[i] || child[i] == second[i])
}

/// The least length of a freshly drawn genome.
pub const MIN_RANDOM_LEN: usize = 5;

/// The length that a freshly drawn genome stays under.
pub const MAX_RANDOM_LEN: usize = 55;

/// Whether `genome` can be freshly drawn over `alphabet`.
pub open spec fn is_random_genome(genome: Seq<char>, alphabet: Seq<char>) -> bool {
    &&& MIN_RANDOM_LEN <= genome.len() < MAX_RANDOM_LEN
    &&& forall|i: int| 0 <= i < genome.len() ==> alphabet.contains(#[trigger] genome[i])
}

/// A mutation with a shift bound of zero changes nothing, whatever the rate.
pub proof fn lemma_zero_shift_keeps_genome(after: Seq<char>, before: Seq<char>, rate: nat)
    requires
        is_mutation_of(after, before, rate, 0),
    ensures
        after == before,
{
    assert(after =~= before);
}

/// Any number of mutations with a shift bound of zero, one after the other,
/// leave the genome as it was: `steps` holds the genome before the first
/// mutation and after each one.
pub proof fn lemma_zero_shift_repeated(steps: Seq<Seq<char>>, rate: nat)
    requires
        steps.len() > 0,
        forall|s: int|
            0 <= s < steps.len() - 1 ==> is_mutation_of(#[trigger] steps[s + 1], steps[s], rate, 0),
    ensures
        steps.last() == steps[0],
    decreases steps.len(),
{
    if steps.len() > 1 {
        let n = steps.len() as int;
        let shorter = steps.drop_last();
        lemma_zero_shift_repeated(shorter, rate);
        assert(is_mutation_of(steps[(n - 2) + 1], steps[n - 2], rate, 0));
        lemma_zero_shift_keeps_genome(steps[n - 1], steps[n - 2], rate);
    }
}

} // verus!
