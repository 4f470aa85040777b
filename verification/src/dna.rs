//! The genome: a fixed-length sequence of per-tick turn deltas in
//! milli-degrees, a saturating read cursor, and a fitness scalar in parts
//! per million. Crossover and mutation draw their randomness through the
//! trusted wrappers in `rng`.

use vstd::prelude::*;
use crate::rng::{rand_index, rand_i32};

verus! {

/// The largest turn delta a gene may hold, in milli-degrees: a full turn.
pub const GENE_LIMIT: i32 = 360000;

/// The longest genome the simulation accepts.
pub const GENOME_LEN_LIMIT: usize = 1000000;

/// Fitness values are scaled by this factor: a fitness of one is stored
/// as one million.
pub const FITNESS_SCALE: i64 = 1000000;

/// Mutation rates are in parts per million: this value means certainty.
pub const PPM_SCALE: u32 = 1000000;

/// A rocket's genome.
pub struct DNA {
    pub genes: Vec<i32>,
    pub curr_gene: usize,
    pub fitness: i64,
}

/// The genes a single-point crossover produces: the first parent's genes
/// before the split point, the second parent's from it on.
pub open spec fn crossover_seq(a: Seq<i32>, b: Seq<i32>, split: int) -> Seq<i32> {
    Seq::new(a.len(), |i: int| if i < split { a[i] } else { b[i] })
}

impl DNA {
    /// A well-formed genome: at least one gene, every gene a bounded turn
    /// delta, the cursor never past the end, and the fitness in [0, 1] in
    /// scaled units.
    pub open spec fn wf(self) -> bool {
        &&& 1 <= self.genes@.len() <= GENOME_LEN_LIMIT
        &&& forall|i: int| 0 <= i < self.genes@.len()
                ==> -GENE_LIMIT <= #[trigger] self.genes@[i] <= GENE_LIMIT
        &&& self.curr_gene <= self.genes@.len()
        &&& 0 <= self.fitness <= FITNESS_SCALE
    }

    /// The steering command the next read returns: the gene under the
    /// cursor, or the last gene once the cursor is exhausted.
    pub open spec fn read_angle_spec(self) -> i32 {
        if self.curr_gene < self.genes@.len() {
            self.genes@[self.curr_gene as int]
        } else {
            self.genes@[self.genes@.len() - 1]
        }
    }

    /// Where the cursor stands after one read: one step forward, unless it
    /// is already exhausted.
    pub open spec fn advanced_cursor_spec(self) -> int {
        if self.curr_gene < self.genes@.len() {
            self.curr_gene + 1
        } else {
            self.curr_gene as int
        }
    }

    /// An all-zero genome of the given length, with the cursor and the
    /// fitness at zero.
    pub fn new(len: usize) -> (d: DNA)
        requires
            1 <= len <= GENOME_LEN_LIMIT,
        ensures
            d.wf(),
            d.genes@.len() == len,
            forall|i: int| 0 <= i < len ==> #[trigger] d.genes@[i] == 0,
            d.curr_gene == 0,
            d.fitness == 0,
    {
        let mut genes: Vec<i32> = Vec::new();
        let mut i: usize = 0;
        while i < len
            invariant
                i <= len,
                genes@.len() == i,
                forall|j: int| 0 <= j < i ==> #[trigger] genes@[j] == 0,
            decreases len - i,
        {
            genes.push(0);
            i = i + 1;
        }
        DNA { genes, curr_gene: 0, fitness: 0 }
    }

    /// Overwrites every gene with a fresh uniform draw in
    /// [-delta, delta]. The cursor and the fitness are untouched.
    pub fn randomize(&mut self, delta: i32)
        requires
            old(self).wf(),
            0 <= delta <= GENE_LIMIT,
        ensures
            final(self).wf(),
            final(self).genes@.len() == old(self).genes@.len(),
            forall|i: int| 0 <= i < final(self).genes@.len()
                ==> -delta <= #[trigger] final(self).genes@[i] <= delta,
            final(self).curr_gene == old(self).curr_gene,
            final(self).fitness == old(self).fitness,
    {
        let len = self.genes.len();
        let mut i: usize = 0;
        while i < len
            invariant
                i <= len,
                self.genes@.len() == len,
                len == old(self).genes@.len(),
                0 <= delta <= GENE_LIMIT,
                self.curr_gene == old(self).curr_gene,
                self.fitness == old(self).fitness,
                old(self).wf(),
                self.curr_gene <= len,
                forall|j: int| 0 <= j < i ==> -delta <= #[trigger] self.genes@[j] <= delta,
                forall|j: int| i <= j < len
                    ==> -GENE_LIMIT <= #[trigger] self.genes@[j] <= GENE_LIMIT,
            decreases len - i,
        {
            let g = rand_i32(-delta, delta + 1);
            self.genes[i] = g;
            i = i + 1;
        }
    }

    /// Returns the gene under the cursor and advances it; once the cursor
    /// is exhausted it keeps returning the last gene without advancing, so
    /// a rocket coasts on its last command instead of failing.
    pub fn next_angle(&mut self) -> (r: i32)
        requires
            old(self).wf(),
        ensures
            final(self).wf(),
            r == old(self).read_angle_spec(),
            final(self).curr_gene == old(self).advanced_cursor_spec(),
            final(self).genes@ == old(self).genes@,
            final(self).fitness == old(self).fitness,
            -GENE_LIMIT <= r <= GENE_LIMIT,
    {
        if self.curr_gene >= self.genes.len() {
            return self.genes[self.genes.len() - 1];
        }
        let r = self.genes[self.curr_gene];
        self.curr_gene = self.curr_gene + 1;
        r
    }

    /// Single-point crossover at a given split: the child's genes are the
    /// first parent's below the split and the second parent's from it on;
    /// its cursor and fitness start at zero, not inherited.
    pub fn crossover_at(parent_a: &DNA, parent_b: &DNA, split: usize) -> (child: DNA)
        requires
            parent_a.wf(),
            parent_b.wf(),
            parent_a.genes@.len() == parent_b.genes@.len(),
            split <= parent_a.genes@.len(),
        ensures
            child.wf(),
            child.genes@ == crossover_seq(parent_a.genes@, parent_b.genes@, split as int),
            child.genes@.len() == parent_a.genes@.len(),
            child.curr_gene == 0,
            child.fitness == 0,
    {
        let len = parent_a.genes.len();
        let mut genes: Vec<i32> = Vec::new();
        let mut i: usize = 0;
        while i < len
            invariant
                i <= len,
                genes@.len() == i,
                len == parent_a.genes@.len() == parent_b.genes@.len(),
                parent_a.wf(),
                parent_b.wf(),
                forall|j: int| 0 <= j < i ==> #[trigger] genes@[j]
                    == (if j < split { parent_a.genes@[j] } else { parent_b.genes@[j] }),
            decreases len - i,
        {
            if i < split {
                genes.push(parent_a.genes[i]);
            } else {
                genes.push(parent_b.genes[i]);
            }
            i = i + 1;
        }
        let child = DNA { genes, curr_gene: 0, fitness: 0 };
        proof {
            assert(child.genes@ =~= crossover_seq(parent_a.genes@, parent_b.genes@, split as int));
        }
        child
    }

    /// Single-point crossover at a uniformly random split point.
    pub fn crossover(parent_a: &DNA, parent_b: &DNA) -> (child: DNA)
        requires
            parent_a.wf(),
            parent_b.wf(),
            parent_a.genes@.len() == parent_b.genes@.len(),
        ensures
            child.wf(),
            child.genes@.len() == parent_a.genes@.len(),
            child.curr_gene == 0,
            child.fitness == 0,
            exists|k: int| 0 <= k < parent_a.genes@.len()
                && child.genes@ == crossover_seq(parent_a.genes@, parent_b.genes@, k),
    {
        let split = rand_index(parent_a.genes.len());
        let child = DNA::crossover_at(parent_a, parent_b, split);
        proof {
            assert(0 <= (split as int) && (split as int) < parent_a.genes@.len()
                && child.genes@ == crossover_seq(parent_a.genes@, parent_b.genes@, split as int));
        }
        child
    }

    /// Mutates each gene independently: with probability rate (in parts
    /// per million) the gene is replaced by a fresh uniform draw in
    /// [-delta, delta], otherwise left unchanged. A rate of zero changes
    /// nothing; a rate of one million re-draws every gene.
    pub fn mutate(&mut self, rate_ppm: u32, delta: i32)
        requires
            old(self).wf(),
            rate_ppm <= PPM_SCALE,
            0 <= delta <= GENE_LIMIT,
        ensures
            final(self).wf(),
            final(self).genes@.len() == old(self).genes@.len(),
            final(self).curr_gene == old(self).curr_gene,
            final(self).fitness == old(self).fitness,
            forall|i: int| 0 <= i < final(self).genes@.len()
                ==> (#[trigger] final(self).genes@[i] == old(self).genes@[i]
                    || -delta <= final(self).genes@[i] <= delta),
            rate_ppm == 0 ==> final(self).genes@ == old(self).genes@,
            rate_ppm == PPM_SCALE ==> forall|i: int| 0 <= i < final(self).genes@.len()
                ==> -delta <= #[trigger] final(self).genes@[i] <= delta,
    {
        let len = self.genes.len();
        let mut i: usize = 0;
        while i < len
            invariant
                i <= len,
                self.genes@.len() == len,
                len == old(self).genes@.len(),
                rate_ppm <= PPM_SCALE,
                0 <= delta <= GENE_LIMIT,
                self.curr_gene == old(self).curr_gene,
                self.fitness == old(self).fitness,
                old(self).wf(),
                self.curr_gene <= len,
                forall|j: int| 0 <= j < len
                    ==> -GENE_LIMIT <= #[trigger] self.genes@[j] <= GENE_LIMIT,
                forall|j: int| 0 <= j < i
                    ==> (#[trigger] self.genes@[j] == old(self).genes@[j]
                        || -delta <= self.genes@[j] <= delta),
                forall|j: int| i <= j < len
                    ==> #[trigger] self.genes@[j] == old(self).genes@[j],
                rate_ppm == 0 ==> forall|j: int| 0 <= j < len
                    ==> #[trigger] self.genes@[j] == old(self).genes@[j],
                rate_ppm == PPM_SCALE ==> forall|j: int| 0 <= j < i
                    ==> -delta <= #[trigger] self.genes@[j] <= delta,
            decreases len - i,
        {
            let draw = rand_index(PPM_SCALE as usize);
            if draw < rate_ppm as usize {
                let g = rand_i32(-delta, delta + 1);
                self.genes[i] = g;
            }
            i = i + 1;
        }
        proof {
            if rate_ppm == 0 {
                assert(self.genes@ =~= old(self).genes@);
            }
        }
    }
}

/// The saturating-read law: once the cursor has reached or passed the last
/// gene, every later read returns the last gene, and reading past the end
/// never advances the cursor further, so the genome is unchanged by such
/// reads.
pub proof fn lemma_next_angle_saturates(d: DNA)
    requires
        d.wf(),
        d.curr_gene >= d.genes@.len() - 1,
    ensures
        d.read_angle_spec() == d.genes@[d.genes@.len() - 1],
        d.curr_gene >= d.genes@.len() ==> d.advanced_cursor_spec() == d.curr_gene,
        d.advanced_cursor_spec() >= d.genes@.len(),
{
}

} // verus!
