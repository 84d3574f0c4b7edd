use vstd::prelude::*;
use crate::vdchar::{VDChar, ALPHABET_SIZE};
use crate::vdstring::{all_in_range, VDString};

verus! {

broadcast use VDChar::lemma_index_injective;

/// How many draws in a row the adjacent-repeat check may reject before
/// generation gives up.
pub const MAX_REDRAWS: usize = 1000;

/// A source of uniformly distributed 32-bit values.
///
/// Nothing is assumed of the values: every property of generated codes holds
/// whatever the source returns.
pub trait RandomSource {
    /// The next value of the source.
    fn next_u32(&mut self) -> u32;
}

/// Error returned by [`VDGenerator::generate`].
#[derive(Debug, Clone, PartialEq, Eq)]
pub enum VDGeneratorError {
    /// Distinct symbols were asked for, more than the alphabet holds.
    LengthExceedsUniqueSet {
        /// The requested number of symbols.
        requested: usize,
        /// The number of distinct symbols available.
        available: usize,
    },
    /// Adjacent repeats were forbidden and the source kept repeating the
    /// preceding symbol: after the first draw at `position` it was redrawn
    /// `redraws` times without success, so the source cannot satisfy the
    /// configuration.
    RedrawLimitReached {
        /// The position that could not be filled.
        position: usize,
        /// The number of rejected redraws.
        redraws: usize,
    },
}

/// The alphabet's indices in order: the pool a shuffle starts from.
pub open spec fn identity_pool() -> Seq<nat> {
    Seq::new(ALPHABET_SIZE as nat, |i: int| i as nat)
}

/// `p` with the entries at `a` and `b` exchanged.
pub open spec fn swapped(p: Seq<nat>, a: int, b: int) -> Seq<nat> {
    p.update(a, p[b]).update(b, p[a])
}

/// The position that step `i` of the shuffle swaps into place, given its draw.
pub open spec fn swap_target(i: int, draw: u32) -> int {
    i + (draw as int) % (ALPHABET_SIZE - i)
}

/// The pool after one partial Fisher-Yates step per draw: step `i` swaps
/// position `i` with `swap_target(i, draws[i])`.
pub open spec fn shuffled(draws: Seq<u32>) -> Seq<nat>
    decreases draws.len(),
{
    if draws.len() == 0 {
        identity_pool()
    } else {
        let i = draws.len() - 1;
        swapped(shuffled(draws.drop_last()), i, swap_target(i, draws.last()))
    }
}

/// Whether every entry of `p` is an index of the alphabet and none repeats.
pub open spec fn is_index_permutation(p: Seq<nat>) -> bool {
    &&& p.len() == ALPHABET_SIZE
    &&& p.no_duplicates()
    &&& forall|k: int| 0 <= k < p.len() ==> #[trigger] p[k] < ALPHABET_SIZE
}

/// The shuffle only ever rearranges the alphabet's indices: however many
/// draws (at most one per symbol) and whatever their values, the pool holds
/// each index exactly once.
pub proof fn lemma_shuffle_is_permutation(draws: Seq<u32>)
    requires
        draws.len() <= ALPHABET_SIZE,
    ensures
        is_index_permutation(shuffled(draws)),
    decreases draws.len(),
{
    if draws.len() == 0 {
        let p = identity_pool();
        assert forall|a: int, b: int| 0 <= a < p.len() && 0 <= b < p.len() && a != b implies
            p[a] != p[b] by {}
    } else {
        let i = draws.len() - 1;
        lemma_shuffle_is_permutation(draws.drop_last());
        let p = shuffled(draws.drop_last());
        let t = swap_target(i, draws.last());
        let q = swapped(p, i, t);
        assert(i <= t < ALPHABET_SIZE);
        assert forall|k: int| 0 <= k < q.len() implies #[trigger] q[k] < ALPHABET_SIZE by {
            if k != i && k != t {
                assert(q[k] == p[k]);
            }
        }
        assert forall|a: int, b: int| 0 <= a < q.len() && 0 <= b < q.len() && a != b implies
            q[a] != q[b] by {
            let pa = if a == i { t } else if a == t { i } else { a };
            let pb = if b == i { t } else if b == t { i } else { b };
            assert(q[a] == p[pa]);
            assert(q[b] == p[pb]);
        }
    }
}

/// Whether no two consecutive symbols of `s` are equal.
pub open spec fn adjacent_distinct(s: Seq<VDChar>) -> bool {
    forall|i: int| 0 <= i < s.len() - 1 ==> #[trigger] s[i] != s[i + 1]
}

/// A sequence without repeated symbols has no equal neighbours, which is why
/// distinct sampling needs no adjacent-repeat repair.
pub proof fn lemma_distinct_has_no_adjacent_repeats(s: Seq<VDChar>)
    requires
        s.no_duplicates(),
    ensures
        adjacent_distinct(s),
{
    assert forall|i: int| 0 <= i < s.len() - 1 implies #[trigger] s[i] != s[i + 1] by {}
}

/// The symbol a raw draw selects: its value modulo the alphabet's size.
pub fn symbol_from_draw(draw: u32) -> (v: VDChar)
    ensures
        v.index() == draw as nat % ALPHABET_SIZE as nat,
{
    VDChar::from_index(draw as usize % ALPHABET_SIZE)
}

/// Draws distinct symbols by a partial Fisher-Yates shuffle of the alphabet:
/// step `i` swaps position `i` of the pool with position
/// `i + draws[i] % (size - i)`; the result is the first `draws.len()`
/// entries of the pool.
pub fn pick_distinct(draws: &[u32]) -> (r: Vec<VDChar>)
    requires
        draws@.len() <= ALPHABET_SIZE,
    ensures
        r@.len() == draws@.len(),
        forall|k: int| 0 <= k < r@.len() ==> (#[trigger] r@[k]).index() == shuffled(draws@)[k],
{
    let mut pool: Vec<VDChar> = Vec::new();
    let mut k: usize = 0;
    while k < ALPHABET_SIZE
        invariant
            k <= ALPHABET_SIZE,
            pool@.len() == k,
            forall|m: int| 0 <= m < k ==> (#[trigger] pool@[m]).index() == identity_pool()[m],
        decreases ALPHABET_SIZE - k,
    {
        pool.push(VDChar::from_index(k));
        k += 1;
    }
    let mut i: usize = 0;
    while i < draws.len()
        invariant
            draws@.len() <= ALPHABET_SIZE,
            i <= draws@.len(),
            pool@.len() == ALPHABET_SIZE,
            forall|m: int| 0 <= m < ALPHABET_SIZE ==>
                (#[trigger] pool@[m]).index() == shuffled(draws@.take(i as int))[m],
        decreases draws@.len() - i,
    {
        let j = i + draws[i] as usize % (ALPHABET_SIZE - i);
        proof {
            let d = draws@.take(i + 1);
            assert(d.drop_last() == draws@.take(i as int));
            assert(d.last() == draws@[i as int]);
            assert(j == swap_target(i as int, draws@[i as int]));
        }
        let ghost before = shuffled(draws@.take(i as int));
        let a = pool[i];
        let b = pool[j];
        pool.set(i, b);
        pool.set(j, a);
        proof {
            lemma_shuffle_is_permutation(draws@.take(i as int));
            assert(shuffled(draws@.take(i + 1)) == swapped(before, i as int, j as int));
            assert forall|m: int| 0 <= m < ALPHABET_SIZE implies
                (#[trigger] pool@[m]).index() == swapped(before, i as int, j as int)[m] by {}
        }
        i += 1;
    }
    proof {
        assert(draws@.take(i as int) == draws@);
    }
    let mut r: Vec<VDChar> = Vec::new();
    let mut k: usize = 0;
    while k < draws.len()
        invariant
            draws@.len() <= ALPHABET_SIZE,
            k <= draws@.len(),
            pool@.len() == ALPHABET_SIZE,
            r@.len() == k,
            forall|m: int| 0 <= m < ALPHABET_SIZE ==>
                (#[trigger] pool@[m]).index() == shuffled(draws@)[m],
            forall|m: int| 0 <= m < k ==> (#[trigger] r@[m]) == pool@[m],
        decreases draws@.len() - k,
    {
        r.push(pool[k]);
        k += 1;
    }
    r
}

/// A builder-style configuration for generating random [`VDString`]s.
///
/// Defaults: length 6, repeats allowed, adjacent repeats allowed.
pub struct VDGenerator {
    len: usize,
    no_adjacent_repeats: bool,
    no_repeats: bool,
}

impl VDGenerator {
    /// The configured length.
    pub closed spec fn requested_len(&self) -> usize {
        self.len
    }

    /// Whether two consecutive symbols of the output must differ.
    pub closed spec fn forbids_adjacent(&self) -> bool {
        self.no_adjacent_repeats
    }

    /// Whether all symbols of the output must differ.
    pub closed spec fn forbids_repeats(&self) -> bool {
        self.no_repeats
    }

    /// A generator with the default settings.
    pub fn new() -> (g: VDGenerator)
        ensures
            g.requested_len() == 6,
            !g.forbids_adjacent(),
            !g.forbids_repeats(),
    {
        VDGenerator { len: 6, no_adjacent_repeats: false, no_repeats: false }
    }

    /// Sets the length of the generated codes.
    pub fn length(self, len: usize) -> (g: VDGenerator)
        ensures
            g.requested_len() == len,
            g.forbids_adjacent() == self.forbids_adjacent(),
            g.forbids_repeats() == self.forbids_repeats(),
    {
        VDGenerator { len, no_adjacent_repeats: self.no_adjacent_repeats, no_repeats: self.no_repeats }
    }

    /// Forbids two equal consecutive symbols in the output.
    pub fn no_adjacent_repeats(self) -> (g: VDGenerator)
        ensures
            g.requested_len() == self.requested_len(),
            g.forbids_adjacent(),
            g.forbids_repeats() == self.forbids_repeats(),
    {
        VDGenerator { len: self.len, no_adjacent_repeats: true, no_repeats: self.no_repeats }
    }

    /// Forbids any repeated symbol in the output; the length can then be at
    /// most the alphabet's size.
    pub fn no_repeats(self) -> (g: VDGenerator)
        ensures
            g.requested_len() == self.requested_len(),
            g.forbids_adjacent() == self.forbids_adjacent(),
            g.forbids_repeats(),
    {
        VDGenerator { len: self.len, no_adjacent_repeats: self.no_adjacent_repeats, no_repeats: true }
    }

    /// Whether the symbol that `draw` selects may follow the symbols in `out`:
    /// always, unless adjacent repeats are forbidden and it equals the last.
    pub open spec fn draw_accepted(&self, out: Seq<VDChar>, draw: u32) -> bool {
        !(self.forbids_adjacent() && out.len() > 0
            && out.last().index() == draw as nat % ALPHABET_SIZE as nat)
    }

    /// One step of sampling with replacement: the symbol that `draw` selects
    /// is appended to `out` unless adjacent repeats are forbidden and it
    /// equals the last symbol of `out`. Returns whether it was appended.
    pub fn accept_draw(&self, out: &mut Vec<VDChar>, draw: u32) -> (accepted: bool)
        ensures
            accepted == self.draw_accepted(old(out)@, draw),
            accepted ==> final(out)@.len() == old(out)@.len() + 1
                && final(out)@.drop_last() == old(out)@
                && final(out)@.last().index() == draw as nat % ALPHABET_SIZE as nat,
            !accepted ==> final(out)@ == old(out)@,
    {
        let v = symbol_from_draw(draw);
        let n = out.len();
        if self.no_adjacent_repeats && n > 0 && out[n - 1] == v {
            false
        } else {
            out.push(v);
            proof {
                assert(out@.drop_last() == old(out)@);
            }
            true
        }
    }

    /// One draw of sampling with replacement, with the redraw count so far at
    /// this position. An accepted draw appends its symbol and resets the count
    /// to 0. A rejected draw leaves `out` as it is and counts one more redraw,
    /// unless `MAX_REDRAWS` redraws were already rejected: then generation
    /// gives up at this position.
    pub fn redraw_step(&self, out: &mut Vec<VDChar>, redraws: usize, draw: u32) -> (r: Result<
        usize,
        VDGeneratorError,
    >)
        ensures
            self.draw_accepted(old(out)@, draw) ==> {
                &&& r == Ok::<usize, VDGeneratorError>(0)
                &&& final(out)@.len() == old(out)@.len() + 1
                &&& final(out)@.drop_last() == old(out)@
                &&& final(out)@.last().index() == draw as nat % ALPHABET_SIZE as nat
            },
            !self.draw_accepted(old(out)@, draw) ==> final(out)@ == old(out)@,
            !self.draw_accepted(old(out)@, draw) && redraws >= MAX_REDRAWS ==> r == Err::<
                usize,
                VDGeneratorError,
            >(VDGeneratorError::RedrawLimitReached { position: old(out)@.len() as usize, redraws }),
            !self.draw_accepted(old(out)@, draw) && redraws < MAX_REDRAWS ==> r == Ok::<
                usize,
                VDGeneratorError,
            >((redraws + 1) as usize),
    {
        if self.accept_draw(out, draw) {
            Ok(0)
        } else if redraws >= MAX_REDRAWS {
            Err(VDGeneratorError::RedrawLimitReached { position: out.len(), redraws })
        } else {
            Ok(redraws + 1)
        }
    }

    /// Generates a code under the configured constraints, drawing from `rng`.
    ///
    /// With repeats forbidden, the symbols are the first entries of a partial
    /// Fisher-Yates shuffle of the alphabet ([`pick_distinct`]); such symbols
    /// are pairwise distinct, so adjacent repeats cannot occur and need no
    /// repair. Otherwise each symbol is drawn with replacement, and with
    /// adjacent repeats forbidden a draw equal to the preceding symbol is
    /// rejected and redrawn, at most [`MAX_REDRAWS`] times in a row
    /// ([`VDGenerator::redraw_step`]).
    pub fn generate<R: RandomSource>(&self, rng: &mut R) -> (r: Result<VDString, VDGeneratorError>)
        ensures
            (self.forbids_repeats() && self.requested_len() > ALPHABET_SIZE) <==> r == Err::<
                VDString,
                VDGeneratorError,
            >(
                VDGeneratorError::LengthExceedsUniqueSet {
                    requested: self.requested_len(),
                    available: ALPHABET_SIZE,
                },
            ),
            r matches Err(VDGeneratorError::LengthExceedsUniqueSet { .. }) ==> self.forbids_repeats()
                && self.requested_len() > ALPHABET_SIZE,
            self.forbids_repeats() && self.requested_len() <= ALPHABET_SIZE ==> r is Ok,
            !self.forbids_adjacent() && !(self.forbids_repeats() && self.requested_len()
                > ALPHABET_SIZE) ==> r is Ok,
            self.requested_len() <= 1 && !(self.forbids_repeats() && self.requested_len()
                > ALPHABET_SIZE) ==> r is Ok,
            r matches Err(VDGeneratorError::RedrawLimitReached { position, redraws }) ==> {
                &&& !self.forbids_repeats()
                &&& self.forbids_adjacent()
                &&& 0 < position < self.requested_len()
                &&& redraws == MAX_REDRAWS
            },
            r matches Ok(v) ==> {
                &&& v@.len() == self.requested_len()
                &&& all_in_range(v@)
                &&& self.forbids_repeats() ==> v@.no_duplicates()
                &&& self.forbids_adjacent() ==> adjacent_distinct(v@)
            },
    {
        if self.no_repeats {
            if self.len > ALPHABET_SIZE {
                return Err(
                    VDGeneratorError::LengthExceedsUniqueSet {
                        requested: self.len,
                        available: ALPHABET_SIZE,
                    },
                );
            }
            let mut draws: Vec<u32> = Vec::new();
            let mut i: usize = 0;
            while i < self.len
                invariant
                    i <= self.len,
                    draws@.len() == i,
                decreases self.len - i,
            {
                draws.push(rng.next_u32());
                i += 1;
            }
            let picked = pick_distinct(draws.as_slice());
            proof {
                lemma_shuffle_is_permutation(draws@);
                let p = shuffled(draws@);
                assert forall|a: int, b: int|
                    0 <= a < picked@.len() && 0 <= b < picked@.len() && a != b implies
                    picked@[a] != picked@[b] by {
                    assert(picked@[a].index() == p[a]);
                    assert(picked@[b].index() == p[b]);
                }
                assert forall|k: int| 0 <= k < picked@.len() implies
                    (#[trigger] picked@[k]).index() < ALPHABET_SIZE by {
                    assert(picked@[k].index() == p[k]);
                }
                lemma_distinct_has_no_adjacent_repeats(picked@);
            }
            let code = VDString::new(picked);
            return Ok(code);
        }
        let mut out: Vec<VDChar> = Vec::new();
        let mut redraws: usize = 0;
        while out.len() < self.len
            invariant
                !self.forbids_repeats(),
                out@.len() <= self.requested_len(),
                all_in_range(out@),
                self.forbids_adjacent() ==> adjacent_distinct(out@),
                redraws <= MAX_REDRAWS,
                redraws > 0 ==> out@.len() > 0 && self.forbids_adjacent(),
            decreases self.requested_len() - out@.len(), MAX_REDRAWS - redraws,
        {
            let draw = rng.next_u32();
            let ghost before = out@;
            match self.redraw_step(&mut out, redraws, draw) {
                Ok(n) => {
                    if n == 0 {
                        proof {
                            assert forall|k: int| 0 <= k < out@.len() implies
                                (#[trigger] out@[k]).index() < ALPHABET_SIZE by {
                                if k < before.len() {
                                    assert(out@[k] == out@.drop_last()[k]);
                                }
                            }
                            if self.forbids_adjacent() {
                                assert forall|k: int| 0 <= k < out@.len() - 1 implies
                                    #[trigger] out@[k] != out@[k + 1] by {
                                    assert(out@[k] == before[k]);
                                    if k + 1 < before.len() {
                                        assert(out@[k + 1] == before[k + 1]);
                                    }
                                }
                            }
                        }
                    }
                    redraws = n;
                },
                Err(e) => {
                    return Err(e);
                },
            }
        }
        Ok(VDString::new(out))
    }
}

} // verus!
