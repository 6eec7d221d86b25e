//! A reproducible shuffle: the arrangement that a 32-byte seed stands for.

use vstd::prelude::*;
use rand::Rng;
use rand::SeedableRng;
use rand_xoshiro::Xoshiro256StarStar;
use crate::grid::is_permutation;

verus! {

/// `rand_xoshiro::Xoshiro256StarStar`: a pseudo-random generator, carried through as it
/// is.
#[verifier::external_type_specification]
#[verifier::external_body]
pub struct ExXoshiro256StarStar(rand_xoshiro::Xoshiro256StarStar);

/// The state words that a generator holds. All that a generator does next depends on
/// them alone.
pub uninterp spec fn generator_state(generator: Xoshiro256StarStar) -> Seq<u64>;

/// The state that `Xoshiro256StarStar::from_seed` gives a generator made from `seed`.
pub uninterp spec fn seeded_state(seed: Seq<u8>) -> Seq<u64>;

/// What `Rng::gen_range(0..bound)` does from a given state: the number it returns and the
/// state it leaves behind.
pub uninterp spec fn drawn(state: Seq<u64>, bound: u64) -> (u64, Seq<u64>);

/// `SeedableRng::from_seed` of `Xoshiro256StarStar`. The generator's state is a function
/// of the seed's bytes alone.
#[verifier::external_body]
fn generator_from_seed(seed: [u8; 32]) -> (generator: Xoshiro256StarStar)
    ensures
        generator_state(generator) == seeded_state(seed@),
{
    Xoshiro256StarStar::from_seed(seed)
}

/// `Rng::gen_range` over `0..bound` with `u64` bounds. The number lies below `bound`; it
/// and the state left behind are functions of the state before and of `bound` alone. The
/// range must not be empty: `gen_range` panics on an empty one.
#[verifier::external_body]
fn draw_below(generator: &mut Xoshiro256StarStar, bound: u64) -> (number: u64)
    requires
        bound > 0,
    ensures
        number < bound,
        number == drawn(generator_state(*old(generator)), bound).0,
        generator_state(*final(generator)) == drawn(generator_state(*old(generator)), bound).1,
{
    generator.gen_range(0..bound)
}

/// `Rng::gen` on `rand::thread_rng()`: 32 bytes from the thread's entropy-seeded
/// generator. Nothing is claimed of them.
#[verifier::external_body]
pub(crate) fn fresh_seed() -> (seed: [u8; 32]) {
    rand::thread_rng().gen()
}

/// The labels `0..n` in order.
pub open spec fn ordered_cells(n: nat) -> Seq<usize> {
    Seq::new(n, |i: int| i as usize)
}

/// `cells` with the labels at `i` and `j` exchanged.
pub open spec fn exchanged(cells: Seq<usize>, i: int, j: int) -> Seq<usize> {
    cells.update(i, cells[j]).update(j, cells[i])
}

/// `cells` after the cells `last`, `last - 1`, ..., `1` have each, in that order, been
/// exchanged with a cell drawn from those at or below it.
pub open spec fn settled(cells: Seq<usize>, state: Seq<u64>, last: nat) -> Seq<usize>
    decreases last,
{
    if last == 0 {
        cells
    } else {
        let (j, next) = drawn(state, (last + 1) as u64);
        settled(exchanged(cells, last as int, j as int), next, (last - 1) as nat)
    }
}

/// The arrangement of the labels `0..n` that `seed` stands for.
pub open spec fn shuffled_cells(seed: Seq<u8>, n: nat) -> Seq<usize> {
    if n == 0 {
        ordered_cells(n)
    } else {
        settled(ordered_cells(n), seeded_state(seed), (n - 1) as nat)
    }
}

/// Exchanging two cells of a permutation gives a permutation.
pub proof fn lemma_exchange_permutes(cells: Seq<usize>, i: int, j: int)
    requires
        is_permutation(cells),
        0 <= i < cells.len(),
        0 <= j < cells.len(),
    ensures
        is_permutation(exchanged(cells, i, j)),
{
    let after = exchanged(cells, i, j);
    assert forall|a: int, b: int| 0 <= a < b < after.len() implies after[a] != after[b] by {
        let sa = if a == i {
            j
        } else if a == j {
            i
        } else {
            a
        };
        let sb = if b == i {
            j
        } else if b == j {
            i
        } else {
            b
        };
        assert(after[a] == cells[sa]);
        assert(after[b] == cells[sb]);
        if sa < sb {
            assert(cells[sa] != cells[sb]);
        } else {
            assert(cells[sb] != cells[sa]);
        }
    }
}

/// Exchanges the labels of the cells `i` and `j`.
pub fn exchange(cells: &mut Vec<usize>, i: usize, j: usize)
    requires
        i < old(cells)@.len(),
        j < old(cells)@.len(),
    ensures
        final(cells)@ == exchanged(old(cells)@, i as int, j as int),
        is_permutation(old(cells)@) ==> is_permutation(final(cells)@),
{
    let ghost before = cells@;
    let first: usize = cells[i];
    let second: usize = cells[j];
    cells[i] = second;
    cells[j] = first;
    proof {
        assert(cells@ =~= exchanged(before, i as int, j as int));
        if is_permutation(before) {
            lemma_exchange_permutes(before, i as int, j as int);
        }
    }
}

/// The arrangement of the labels `0..n` that `seed` stands for: the same seed and length
/// give the same arrangement, every time. The cells `n - 1`, `n - 2`, ..., `1` are each,
/// in that order, exchanged with a cell drawn from those at or below it.
pub fn shuffled(seed: [u8; 32], n: usize) -> (cells: Vec<usize>)
    ensures
        cells@ == shuffled_cells(seed@, n as nat),
        cells@.len() == n,
        is_permutation(cells@),
{
    let mut generator = generator_from_seed(seed);
    let mut cells: Vec<usize> = Vec::new();
    let mut k: usize = 0;
    while k < n
        invariant
            k <= n,
            cells@.len() == k,
            forall|j: int| 0 <= j < k ==> cells@[j] == j,
        decreases n - k,
    {
        cells.push(k);
        k = k + 1;
    }
    assert(cells@ =~= ordered_cells(n as nat));
    if n == 0 {
        return cells;
    }
    let mut last: usize = n - 1;
    while last > 0
        invariant
            last < n,
            cells@.len() == n,
            is_permutation(cells@),
            settled(cells@, generator_state(generator), last as nat) == shuffled_cells(
                seed@,
                n as nat,
            ),
        decreases last,
    {
        let bound: u64 = (last + 1) as u64;
        let j: usize = draw_below(&mut generator, bound) as usize;
        exchange(&mut cells, last, j);
        last = last - 1;
    }
    cells
}

} // verus!
