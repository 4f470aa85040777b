//! The population and its evolutionary loop: per-tick simulation,
//! fitness scoring, mating-pool construction, selection, and the
//! generation-lifecycle state machine that ties them together.

use vstd::prelude::*;
use vstd::arithmetic::mul::lemma_mul_inequality;
use vstd::arithmetic::div_mod::{lemma_div_is_ordered, lemma_div_pos_is_pos};
use crate::clock::SimulationClock;
use crate::dna::{crossover_seq, DNA, FITNESS_SCALE, GENE_LIMIT, GENOME_LEN_LIMIT, PPM_SCALE};
use crate::geom::{dist_sq_spec, is_sqrt_floor, Environment, Vec2};
use crate::rng::rand_index;
use crate::rocket::{dna_eq, tick_rel, Rocket, RocketState, SPEED_LIMIT, START_ANGLE};
use crate::trig::lemma_div_le;

verus! {

/// The largest population the simulation accepts.
pub const ROCKET_COUNT_LIMIT: usize = 10000;

/// Everything that shapes a run: the environment, the population size,
/// the genome length (which is also the tick budget of a generation), the
/// per-tick speed, the largest turn a gene may command, the mutation rate
/// in parts per million, and the fixed start position.
pub struct Config {
    pub env: Environment,
    pub rocket_count: usize,
    pub genome_len: usize,
    pub speed: u64,
    pub max_turn: i32,
    pub mutation_ppm: u32,
    pub start: Vec2,
}

impl Config {
    /// A configuration the simulation accepts.
    pub open spec fn wf(self) -> bool {
        &&& self.env.wf()
        &&& 1 <= self.rocket_count <= ROCKET_COUNT_LIMIT
        &&& 1 <= self.genome_len <= GENOME_LEN_LIMIT
        &&& self.speed <= SPEED_LIMIT
        &&& 0 <= self.max_turn <= GENE_LIMIT
        &&& self.mutation_ppm <= PPM_SCALE
        &&& 0 <= self.start.x <= self.env.width
        &&& 0 <= self.start.y <= self.env.height
    }
}

/// How many rockets of the sequence have not failed: the alive-count
/// metric. Successful rockets still count; only Dead ones do not.
pub open spec fn count_not_dead(rs: Seq<Rocket>) -> nat
    decreases rs.len(),
{
    if rs.len() == 0 {
        0
    } else {
        count_not_dead(rs.drop_last()) + (if rs.last().state is Dead { 0nat } else { 1nat })
    }
}

/// Replacing one rocket changes the alive count by exactly the difference
/// the replacement makes.
proof fn lemma_count_not_dead_update(rs: Seq<Rocket>, i: int, r2: Rocket)
    requires
        0 <= i < rs.len(),
    ensures
        count_not_dead(rs.update(i, r2)) + (if rs[i].state is Dead { 0int } else { 1int })
            == count_not_dead(rs) + (if r2.state is Dead { 0int } else { 1int }),
    decreases rs.len(),
{
    let rs2 = rs.update(i, r2);
    if i == rs.len() - 1 {
        assert(rs2.drop_last() =~= rs.drop_last());
    } else {
        assert(rs2.drop_last() =~= rs.drop_last().update(i, r2));
        lemma_count_not_dead_update(rs.drop_last(), i, r2);
        assert(rs2.last() == rs.last());
    }
}

/// A sequence with no failed rocket counts whole.
proof fn lemma_count_not_dead_full(rs: Seq<Rocket>)
    requires
        forall|i: int| 0 <= i < rs.len() ==> !((#[trigger] rs[i]).state is Dead),
    ensures
        count_not_dead(rs) == rs.len(),
    decreases rs.len(),
{
    if rs.len() > 0 {
        assert(forall|i: int| 0 <= i < rs.drop_last().len()
            ==> #[trigger] rs.drop_last()[i] == rs[i]);
        lemma_count_not_dead_full(rs.drop_last());
    }
}

/// The sum of the cached distances of a population.
pub open spec fn sum_dist(rs: Seq<Rocket>) -> int
    decreases rs.len(),
{
    if rs.len() == 0 {
        0
    } else {
        sum_dist(rs.drop_last()) + rs.last().dist_from_target
    }
}

proof fn lemma_sum_dist_nonneg(rs: Seq<Rocket>)
    ensures
        sum_dist(rs) >= 0,
    decreases rs.len(),
{
    if rs.len() > 0 {
        lemma_sum_dist_nonneg(rs.drop_last());
    }
}

/// No single distance exceeds the sum of all of them.
proof fn lemma_sum_dist_le(rs: Seq<Rocket>, i: int)
    requires
        0 <= i < rs.len(),
    ensures
        rs[i].dist_from_target <= sum_dist(rs),
    decreases rs.len(),
{
    if i == rs.len() - 1 {
        lemma_sum_dist_nonneg(rs.drop_last());
    } else {
        assert(rs.drop_last()[i] == rs[i]);
        lemma_sum_dist_le(rs.drop_last(), i);
    }
}

/// The distance sum of a bounded population stays well inside a machine
/// word.
proof fn lemma_sum_dist_upper(rs: Seq<Rocket>)
    requires
        forall|i: int| 0 <= i < rs.len() ==> (#[trigger] rs[i]).dist_from_target <= 3000000000,
    ensures
        sum_dist(rs) <= 3000000000 * rs.len(),
    decreases rs.len(),
{
    if rs.len() > 0 {
        assert(forall|i: int| 0 <= i < rs.drop_last().len()
            ==> #[trigger] rs.drop_last()[i] == rs[i]);
        lemma_sum_dist_upper(rs.drop_last());
    }
}

/// Replacing one rocket changes the distance sum by the difference of the
/// cached distances.
proof fn lemma_sum_dist_update(rs: Seq<Rocket>, i: int, r2: Rocket)
    requires
        0 <= i < rs.len(),
    ensures
        sum_dist(rs.update(i, r2)) + rs[i].dist_from_target
            == sum_dist(rs) + r2.dist_from_target,
    decreases rs.len(),
{
    let rs2 = rs.update(i, r2);
    if i == rs.len() - 1 {
        assert(rs2.drop_last() =~= rs.drop_last());
    } else {
        assert(rs2.drop_last() =~= rs.drop_last().update(i, r2));
        lemma_sum_dist_update(rs.drop_last(), i, r2);
        assert(rs2.last() == rs.last());
    }
}

/// The relative fitness of one distance against the population's total:
/// one minus the rocket's share of the total, in scaled units. A total of
/// zero means every rocket sits exactly on the target center; all are
/// then equally perfect.
pub open spec fn fitness_spec(d: int, total: int) -> int {
    if total <= 0 {
        FITNESS_SCALE as int
    } else {
        FITNESS_SCALE - (d * FITNESS_SCALE) / total
    }
}

/// A fitness computed from a distance within the total lies in [0, 1] in
/// scaled units.
pub proof fn lemma_fitness_bounds(d: int, total: int)
    requires
        0 <= d <= total,
    ensures
        0 <= fitness_spec(d, total) <= FITNESS_SCALE,
{
    if total > 0 {
        lemma_div_pos_is_pos(d * (FITNESS_SCALE as int), total);
        lemma_mul_inequality(d, total, FITNESS_SCALE as int);
        lemma_div_le(d * (FITNESS_SCALE as int), FITNESS_SCALE as int, total);
    }
}

/// Relative fitness is antitone in the distance: the rocket with the
/// smallest distance has the largest fitness.
pub proof fn lemma_fitness_order(d1: int, d2: int, total: int)
    requires
        0 <= d1 <= d2,
        0 < total,
    ensures
        fitness_spec(d1, total) >= fitness_spec(d2, total),
{
    lemma_mul_inequality(d1, d2, FITNESS_SCALE as int);
    lemma_div_is_ordered(d1 * (FITNESS_SCALE as int), d2 * (FITNESS_SCALE as int), total);
}

/// The mating weight of a rocket: its fitness scaled to a count of pool
/// entries, then scaled by its terminal state -- failure costs, success
/// pays double.
pub open spec fn weight_of(r: Rocket) -> int {
    let m: int = match r.state {
        RocketState::Dead => 60,
        RocketState::Alive => 100,
        RocketState::Successful => 200,
    };
    (r.dna.fitness * m) / (FITNESS_SCALE as int)
}

/// The mating weight, executably.
fn weight_exec(r: &Rocket) -> (w: usize)
    requires
        0 <= r.dna.fitness <= FITNESS_SCALE,
    ensures
        w == weight_of(*r),
        w <= 200,
{
    let m: u64 = match r.state {
        RocketState::Dead => 60,
        RocketState::Alive => 100,
        RocketState::Successful => 200,
    };
    proof {
        lemma_mul_inequality(r.dna.fitness as int, FITNESS_SCALE as int, m as int);
        lemma_div_le((r.dna.fitness as int) * (m as int), m as int, FITNESS_SCALE as int);
        lemma_div_pos_is_pos((r.dna.fitness as int) * (m as int), FITNESS_SCALE as int);
    }
    (((r.dna.fitness as u64) * m) / (FITNESS_SCALE as u64)) as usize
}

/// The mating pool of the first k rockets: each rocket's index repeated
/// exactly its weight many times, in index order.
pub open spec fn pool_spec(rs: Seq<Rocket>, k: int) -> Seq<usize>
    decreases k,
{
    if k <= 0 {
        Seq::empty()
    } else {
        pool_spec(rs, k - 1) + Seq::new(weight_of(rs[k - 1]) as nat, |j: int| (k - 1) as usize)
    }
}

/// The total weight of the first k rockets.
pub open spec fn sum_weights(rs: Seq<Rocket>, k: int) -> int
    decreases k,
{
    if k <= 0 {
        0
    } else {
        sum_weights(rs, k - 1) + weight_of(rs[k - 1])
    }
}

/// How many times a value occurs in a sequence of indices.
pub open spec fn count_of(s: Seq<usize>, v: usize) -> int
    decreases s.len(),
{
    if s.len() == 0 {
        0
    } else {
        count_of(s.drop_last(), v) + (if s.last() == v { 1int } else { 0int })
    }
}

/// Occurrence counts add across concatenation.
proof fn lemma_count_of_add(a: Seq<usize>, b: Seq<usize>, v: usize)
    ensures
        count_of(a + b, v) == count_of(a, v) + count_of(b, v),
    decreases b.len(),
{
    if b.len() == 0 {
        assert((a + b) =~= a);
    } else {
        assert((a + b).drop_last() =~= a + b.drop_last());
        lemma_count_of_add(a, b.drop_last(), v);
        assert((a + b).last() == b.last());
    }
}

/// A constant sequence holds its value as many times as it is long, and
/// any other value not at all.
proof fn lemma_count_of_const(s: Seq<usize>, c: usize, v: usize)
    requires
        forall|j: int| 0 <= j < s.len() ==> #[trigger] s[j] == c,
    ensures
        count_of(s, v) == if c == v { s.len() as int } else { 0int },
    decreases s.len(),
{
    if s.len() > 0 {
        assert(forall|j: int| 0 <= j < s.drop_last().len()
            ==> #[trigger] s.drop_last()[j] == s[j]);
        lemma_count_of_const(s.drop_last(), c, v);
        assert(s.last() == s[s.len() - 1]);
    }
}

/// The mating-pool size law: the pool of the first k rockets is exactly
/// as long as the sum of their weights.
pub proof fn lemma_pool_len(rs: Seq<Rocket>, k: int)
    requires
        forall|i: int| 0 <= i < k ==> 0 <= weight_of(#[trigger] rs[i]),
    ensures
        pool_spec(rs, k).len() == sum_weights(rs, k),
    decreases k,
{
    if k > 0 {
        lemma_pool_len(rs, k - 1);
    }
}

/// The mating-pool membership law: each index occurs in the pool exactly
/// its weight many times, and no other value occurs at all.
pub proof fn lemma_pool_count(rs: Seq<Rocket>, k: int, v: usize)
    requires
        k <= usize::MAX,
        forall|i: int| 0 <= i < k ==> 0 <= weight_of(#[trigger] rs[i]),
    ensures
        count_of(pool_spec(rs, k), v)
            == if 0 <= v < k { weight_of(rs[v as int]) } else { 0int },
    decreases k,
{
    if k > 0 {
        lemma_pool_count(rs, k - 1, v);
        let p1 = pool_spec(rs, k - 1);
        let s2 = Seq::new(weight_of(rs[k - 1]) as nat, |j: int| (k - 1) as usize);
        assert(pool_spec(rs, k) =~= p1 + s2);
        lemma_count_of_add(p1, s2, v);
        assert(forall|j: int| 0 <= j < s2.len() ==> #[trigger] s2[j] == (k - 1) as usize);
        lemma_count_of_const(s2, (k - 1) as usize, v);
        assert(0 <= weight_of(rs[k - 1]));
        if v as int == k - 1 {
            assert(count_of(p1, v) == 0);
            assert(count_of(s2, v) == s2.len());
            assert(s2.len() == weight_of(rs[k - 1]) as nat);
        } else {
            assert(count_of(s2, v) == 0);
        }
    }
}

/// Every entry of the pool is an index below k.
pub proof fn lemma_pool_in_range(rs: Seq<Rocket>, k: int)
    ensures
        forall|j: int| 0 <= j < pool_spec(rs, k).len()
            ==> #[trigger] pool_spec(rs, k)[j] < k,
    decreases k,
{
    if k > 0 {
        lemma_pool_in_range(rs, k - 1);
        let p1 = pool_spec(rs, k - 1);
        let s2 = Seq::new(weight_of(rs[k - 1]) as nat, |j: int| (k - 1) as usize);
        assert forall|j: int| 0 <= j < pool_spec(rs, k).len()
            implies #[trigger] pool_spec(rs, k)[j] < k by {
            if j < p1.len() {
                assert(pool_spec(rs, k)[j] == p1[j]);
            } else {
                assert(pool_spec(rs, k)[j] == s2[j - p1.len()]);
            }
        }
    }
}

/// A rocket as a fresh generation creates it: at the start position,
/// heading straight up, alive, with a genome of the configured length and
/// its cursor and fitness at zero.
pub open spec fn fresh_rocket(r: Rocket, cfg: Config) -> bool {
    &&& r.pos == cfg.start
    &&& r.state is Alive
    &&& r.angle == START_ANGLE
    &&& r.dist_from_target == 0
    &&& r.dna.wf()
    &&& r.dna.genes@.len() == cfg.genome_len
    &&& r.dna.curr_gene == 0
    &&& r.dna.fitness == 0
}

/// Every gene of the child is either a fresh bounded mutation or copied,
/// at its own index, from some rocket of the parent generation.
pub open spec fn genes_from(child: Rocket, parents: Seq<Rocket>, max_turn: i32) -> bool {
    forall|g: int| 0 <= g < child.dna.genes@.len()
        ==> (-max_turn <= #[trigger] child.dna.genes@[g] <= max_turn
            || exists|p: int| 0 <= p < parents.len()
                && child.dna.genes@[g] == #[trigger] parents[p].dna.genes@[g])
}

/// What distance scoring does to one rocket: everything is kept but the
/// cached distance, which becomes the rounded-down Euclidean distance
/// from the rocket's position to the target center.
pub open spec fn scored_rel(r0: Rocket, r1: Rocket, env: Environment) -> bool {
    &&& dna_eq(r1.dna, r0.dna)
    &&& r1.pos == r0.pos
    &&& r1.angle == r0.angle
    &&& r1.state == r0.state
    &&& is_sqrt_floor(r1.dist_from_target as int, dist_sq_spec(r0.pos, env.target))
    &&& r1.dist_from_target <= 3000000000
}

/// What fitness scoring does to one rocket: the distance is scored as in
/// `scored_rel`, and the fitness becomes the rocket's relative fitness
/// against the population's distance total, always within [0, 1] in
/// scaled units.
pub open spec fn fitness_rel(r0: Rocket, r1: Rocket, env: Environment, total: int) -> bool {
    &&& r1.dna.genes@ == r0.dna.genes@
    &&& r1.dna.curr_gene == r0.dna.curr_gene
    &&& r1.pos == r0.pos
    &&& r1.angle == r0.angle
    &&& r1.state == r0.state
    &&& is_sqrt_floor(r1.dist_from_target as int, dist_sq_spec(r0.pos, env.target))
    &&& r1.dist_from_target <= 3000000000
    &&& r1.dna.fitness == fitness_spec(r1.dist_from_target as int, total)
    &&& 0 <= r1.dna.fitness <= FITNESS_SCALE
}

/// The population, its environment and its evolutionary state.
pub struct World {
    pub cfg: Config,
    pub rockets: Vec<Rocket>,
    pub alive_count: usize,
    pub clock: SimulationClock,
    pub generation: u64,
    pub mating_pool: Vec<usize>,
}

impl World {
    /// The invariant the simulation maintains: a well-formed
    /// configuration, a population of the configured size whose rockets
    /// are well formed and share the configured genome length, a clock
    /// whose budget is that length, an alive count that matches the
    /// states, and a mating pool of valid indices.
    pub open spec fn wf(self) -> bool {
        &&& self.cfg.wf()
        &&& self.rockets@.len() == self.cfg.rocket_count
        &&& forall|i: int| 0 <= i < self.rockets@.len()
                ==> (#[trigger] self.rockets@[i]).wf(self.cfg.env, self.cfg.speed)
        &&& forall|i: int| 0 <= i < self.rockets@.len()
                ==> (#[trigger] self.rockets@[i]).dna.genes@.len() == self.cfg.genome_len
        &&& self.clock.wf()
        &&& self.clock.budget == self.cfg.genome_len
        &&& self.alive_count == count_not_dead(self.rockets@)
        &&& forall|j: int| 0 <= j < self.mating_pool@.len()
                ==> #[trigger] self.mating_pool@[j] < self.rockets@.len()
    }

    /// A fresh world at generation zero: a full population of randomized
    /// rockets at the start position, the clock at zero, the pool empty.
    pub fn new(cfg: Config) -> (w: World)
        requires
            cfg.wf(),
        ensures
            w.wf(),
            w.cfg == cfg,
            w.generation == 0,
            w.clock.ticks == 0,
            w.rockets@.len() == cfg.rocket_count,
            forall|i: int| 0 <= i < w.rockets@.len()
                ==> fresh_rocket(#[trigger] w.rockets@[i], cfg),
            forall|i: int, g: int| 0 <= i < w.rockets@.len()
                && 0 <= g < cfg.genome_len
                ==> -cfg.max_turn <= #[trigger] w.rockets@[i].dna.genes@[g] <= cfg.max_turn,
            w.alive_count == cfg.rocket_count,
            w.mating_pool@.len() == 0,
    {
        let mut rockets: Vec<Rocket> = Vec::new();
        let mut i: usize = 0;
        while i < cfg.rocket_count
            invariant
                cfg.wf(),
                i <= cfg.rocket_count,
                rockets@.len() == i,
                forall|j: int| 0 <= j < i ==> fresh_rocket(#[trigger] rockets@[j], cfg),
                forall|j: int, g: int| 0 <= j < i && 0 <= g < cfg.genome_len
                    ==> -cfg.max_turn <= #[trigger] rockets@[j].dna.genes@[g] <= cfg.max_turn,
                forall|j: int| 0 <= j < i
                    ==> (#[trigger] rockets@[j]).wf(cfg.env, cfg.speed),
            decreases cfg.rocket_count - i,
        {
            let mut r = Rocket::new(cfg.start, cfg.genome_len);
            r.dna.randomize(cfg.max_turn);
            rockets.push(r);
            i = i + 1;
        }
        proof {
            lemma_count_not_dead_full(rockets@);
        }
        let alive_count = rockets.len();
        let budget = cfg.genome_len as u64;
        World {
            cfg,
            rockets,
            alive_count,
            clock: SimulationClock::new(budget),
            generation: 0,
            mating_pool: Vec::new(),
        }
    }

    /// Recomputes each rocket's cached distance to the target from its
    /// current position. Nothing else changes.
    pub fn calc_dist_from_target(&mut self)
        requires
            old(self).wf(),
        ensures
            final(self).wf(),
            final(self).cfg == old(self).cfg,
            final(self).generation == old(self).generation,
            final(self).clock == old(self).clock,
            final(self).alive_count == old(self).alive_count,
            final(self).mating_pool@ == old(self).mating_pool@,
            final(self).rockets@.len() == old(self).rockets@.len(),
            forall|i: int| 0 <= i < final(self).rockets@.len()
                ==> scored_rel(old(self).rockets@[i], #[trigger] final(self).rockets@[i],
                    old(self).cfg.env),
    {
        let n = self.rockets.len();
        let mut i: usize = 0;
        while i < n
            invariant
                i <= n,
                n == self.rockets@.len(),
                n == old(self).rockets@.len(),
                old(self).wf(),
                self.cfg == old(self).cfg,
                self.generation == old(self).generation,
                self.clock == old(self).clock,
                self.alive_count == old(self).alive_count,
                self.mating_pool@ == old(self).mating_pool@,
                forall|j: int| i <= j < n ==> #[trigger] self.rockets@[j] == old(self).rockets@[j],
                forall|j: int| 0 <= j < i
                    ==> scored_rel(old(self).rockets@[j], #[trigger] self.rockets@[j],
                        old(self).cfg.env),
                forall|j: int| 0 <= j < n
                    ==> (#[trigger] self.rockets@[j]).wf(self.cfg.env, self.cfg.speed),
                forall|j: int| 0 <= j < n
                    ==> (#[trigger] self.rockets@[j]).dna.genes@.len() == self.cfg.genome_len,
                self.alive_count == count_not_dead(self.rockets@),
            decreases n - i,
        {
            let p = self.rockets[i].pos;
            let d = self.cfg.env.dist_to_target(p);
            let ghost before = self.rockets@;
            self.rockets[i].dist_from_target = d;
            proof {
                lemma_count_not_dead_update(before, i as int, self.rockets@[i as int]);
            }
            i = i + 1;
        }
    }

    /// Scores the whole population: recomputes every distance, sums them,
    /// and assigns each rocket its relative fitness -- one minus its own
    /// share of the total, in scaled units.
    pub fn calc_fitness(&mut self)
        requires
            old(self).wf(),
        ensures
            final(self).wf(),
            final(self).cfg == old(self).cfg,
            final(self).generation == old(self).generation,
            final(self).clock == old(self).clock,
            final(self).alive_count == old(self).alive_count,
            final(self).mating_pool@ == old(self).mating_pool@,
            final(self).rockets@.len() == old(self).rockets@.len(),
            forall|i: int| 0 <= i < final(self).rockets@.len()
                ==> fitness_rel(old(self).rockets@[i], #[trigger] final(self).rockets@[i],
                    old(self).cfg.env, sum_dist(final(self).rockets@)),
    {
        self.calc_dist_from_target();
        let ghost mid = self.rockets@;
        let n = self.rockets.len();
        let mut total: u64 = 0;
        let mut i: usize = 0;
        while i < n
            invariant
                i <= n,
                n <= ROCKET_COUNT_LIMIT,
                n == self.rockets@.len(),
                self.rockets@ == mid,
                forall|j: int| 0 <= j < n
                    ==> (#[trigger] self.rockets@[j]).dist_from_target <= 3000000000,
                total == sum_dist(self.rockets@.subrange(0, i as int)),
                total <= 3000000000 * (i as int),
            decreases n - i,
        {
            proof {
                let sub1 = self.rockets@.subrange(0, (i + 1) as int);
                assert(sub1.drop_last() =~= self.rockets@.subrange(0, i as int));
                assert(sub1.last() == self.rockets@[i as int]);
            }
            total = total + self.rockets[i].dist_from_target;
            i = i + 1;
        }
        proof {
            assert(self.rockets@.subrange(0, n as int) =~= self.rockets@);
        }
        let mut i: usize = 0;
        while i < n
            invariant
                i <= n,
                n == self.rockets@.len(),
                n == old(self).rockets@.len(),
                n == mid.len(),
                old(self).wf(),
                self.cfg == old(self).cfg,
                self.generation == old(self).generation,
                self.clock == old(self).clock,
                self.alive_count == old(self).alive_count,
                self.mating_pool@ == old(self).mating_pool@,
                total == sum_dist(self.rockets@),
                total <= 3000000000 * (n as int),
                forall|j: int| 0 <= j < n
                    ==> scored_rel(old(self).rockets@[j], #[trigger] mid[j], old(self).cfg.env),
                forall|j: int| i <= j < n ==> #[trigger] self.rockets@[j] == mid[j],
                forall|j: int| 0 <= j < i
                    ==> fitness_rel(old(self).rockets@[j], #[trigger] self.rockets@[j],
                        old(self).cfg.env, total as int),
                forall|j: int| 0 <= j < n
                    ==> (#[trigger] self.rockets@[j]).wf(self.cfg.env, self.cfg.speed),
                forall|j: int| 0 <= j < n
                    ==> (#[trigger] self.rockets@[j]).dna.genes@.len() == self.cfg.genome_len,
                self.alive_count == count_not_dead(self.rockets@),
            decreases n - i,
        {
            let d = self.rockets[i].dist_from_target;
            proof {
                lemma_sum_dist_le(self.rockets@, i as int);
                lemma_sum_dist_nonneg(self.rockets@);
            }
            let f: i64;
            if total == 0 {
                f = FITNESS_SCALE;
            } else {
                proof {
                    lemma_mul_inequality(d as int, total as int, FITNESS_SCALE as int);
                    lemma_div_le((d as int) * (FITNESS_SCALE as int), FITNESS_SCALE as int,
                        total as int);
                    lemma_div_pos_is_pos((d as int) * (FITNESS_SCALE as int), total as int);
                }
                let q: u64 = (d * (FITNESS_SCALE as u64)) / total;
                f = ((FITNESS_SCALE as u64) - q) as i64;
            }
            let ghost before = self.rockets@;
            self.rockets[i].dna.fitness = f;
            proof {
                lemma_count_not_dead_update(before, i as int, self.rockets@[i as int]);
                lemma_sum_dist_update(before, i as int, self.rockets@[i as int]);
            }
            i = i + 1;
        }
    }

    /// Rebuilds the mating pool from scratch: each rocket's index is
    /// appended exactly its weight many times, in index order, so an
    /// agent whose weight floors to zero is absent from the pool.
    pub fn gen_mating_pool(&mut self)
        requires
            old(self).wf(),
        ensures
            final(self).wf(),
            final(self).cfg == old(self).cfg,
            final(self).generation == old(self).generation,
            final(self).clock == old(self).clock,
            final(self).alive_count == old(self).alive_count,
            final(self).rockets@ == old(self).rockets@,
            final(self).mating_pool@
                == pool_spec(old(self).rockets@, old(self).rockets@.len() as int),
    {
        self.mating_pool = Vec::new();
        proof {
            assert(self.mating_pool@ =~= pool_spec(self.rockets@, 0));
        }
        let n = self.rockets.len();
        let mut ind: usize = 0;
        while ind < n
            invariant
                ind <= n,
                n == self.rockets@.len(),
                old(self).wf(),
                self.cfg == old(self).cfg,
                self.generation == old(self).generation,
                self.clock == old(self).clock,
                self.alive_count == old(self).alive_count,
                self.rockets@ == old(self).rockets@,
                self.mating_pool@ == pool_spec(self.rockets@, ind as int),
            decreases n - ind,
        {
            let w = weight_exec(&self.rockets[ind]);
            let ghost p0 = self.mating_pool@;
            proof {
                assert(self.mating_pool@ =~= p0 + Seq::new(0nat, |q: int| ind));
            }
            let mut j: usize = 0;
            while j < w
                invariant
                    j <= w,
                    self.mating_pool@ == p0 + Seq::new(j as nat, |q: int| ind),
                    self.rockets@ == old(self).rockets@,
                    self.cfg == old(self).cfg,
                    self.generation == old(self).generation,
                    self.clock == old(self).clock,
                    self.alive_count == old(self).alive_count,
                decreases w - j,
            {
                self.mating_pool.push(ind);
                proof {
                    assert(p0 + Seq::new((j + 1) as nat, |q: int| ind)
                        =~= (p0 + Seq::new(j as nat, |q: int| ind)).push(ind));
                }
                j = j + 1;
            }
            proof {
                assert(self.mating_pool@
                    =~= pool_spec(self.rockets@, (ind + 1) as int));
            }
            ind = ind + 1;
        }
        proof {
            lemma_pool_in_range(self.rockets@, n as int);
        }
    }

    /// Breeds the replacement population: for each of the configured
    /// number of slots, draws two parent indices from the mating pool
    /// (uniformly, with replacement; drawing the same parent twice is
    /// allowed), crosses the parents' genomes at a random split point,
    /// mutates the child, and places a fresh rocket at the start position
    /// carrying it. An empty mating pool -- possible when every weight
    /// floors to zero -- falls back to drawing parents uniformly from the
    /// whole population, so the output size never depends on the pool.
    pub fn selection(&self) -> (out: Vec<Rocket>)
        requires
            self.wf(),
        ensures
            out@.len() == self.cfg.rocket_count,
            forall|i: int| 0 <= i < out@.len() ==> fresh_rocket(#[trigger] out@[i], self.cfg),
            forall|i: int| 0 <= i < out@.len()
                ==> genes_from(#[trigger] out@[i], self.rockets@, self.cfg.max_turn),
    {
        let count = self.cfg.rocket_count;
        let mut out: Vec<Rocket> = Vec::new();
        let mut slot: usize = 0;
        while slot < count
            invariant
                slot <= count,
                self.wf(),
                count == self.cfg.rocket_count,
                out@.len() == slot,
                forall|i: int| 0 <= i < slot ==> fresh_rocket(#[trigger] out@[i], self.cfg),
                forall|i: int| 0 <= i < slot
                    ==> genes_from(#[trigger] out@[i], self.rockets@, self.cfg.max_turn),
            decreases count - slot,
        {
            let pa: usize;
            let pb: usize;
            if self.mating_pool.len() > 0 {
                let ia = rand_index(self.mating_pool.len());
                let ib = rand_index(self.mating_pool.len());
                pa = self.mating_pool[ia];
                pb = self.mating_pool[ib];
            } else {
                pa = rand_index(self.rockets.len());
                pb = rand_index(self.rockets.len());
            }
            let mut child_dna = DNA::crossover(&self.rockets[pa].dna, &self.rockets[pb].dna);
            let ghost pre = child_dna;
            child_dna.mutate(self.cfg.mutation_ppm, self.cfg.max_turn);
            let mut r = Rocket::new(self.cfg.start, self.cfg.genome_len);
            r.dna = child_dna;
            proof {
                let k = choose|k: int| 0 <= k < pre.genes@.len()
                    && pre.genes@ == crossover_seq(self.rockets@[pa as int].dna.genes@,
                        self.rockets@[pb as int].dna.genes@, k);
                assert forall|g: int| 0 <= g < r.dna.genes@.len()
                    implies (-self.cfg.max_turn <= #[trigger] r.dna.genes@[g] <= self.cfg.max_turn
                        || exists|p: int| 0 <= p < self.rockets@.len()
                            && r.dna.genes@[g] == #[trigger] self.rockets@[p].dna.genes@[g]) by {
                    if !(-self.cfg.max_turn <= r.dna.genes@[g] <= self.cfg.max_turn) {
                        assert(r.dna.genes@[g] == pre.genes@[g]);
                        if g < k {
                            assert(r.dna.genes@[g] == self.rockets@[pa as int].dna.genes@[g]);
                        } else {
                            assert(r.dna.genes@[g] == self.rockets@[pb as int].dna.genes@[g]);
                        }
                    }
                }
                assert(genes_from(r, self.rockets@, self.cfg.max_turn));
            }
            out.push(r);
            slot = slot + 1;
        }
        out
    }
}

/// Provenance survives replacing the parent generation by one with the
/// very same genomes.
proof fn lemma_genes_from_transfer(child: Rocket, a: Seq<Rocket>, b: Seq<Rocket>, mt: i32)
    requires
        genes_from(child, a, mt),
        a.len() == b.len(),
        forall|p: int| 0 <= p < a.len() ==> (#[trigger] a[p]).dna.genes@ == b[p].dna.genes@,
    ensures
        genes_from(child, b, mt),
{
    assert forall|g: int| 0 <= g < child.dna.genes@.len()
        implies (-mt <= #[trigger] child.dna.genes@[g] <= mt
            || exists|p: int| 0 <= p < b.len()
                && child.dna.genes@[g] == #[trigger] b[p].dna.genes@[g]) by {
        if !(-mt <= child.dna.genes@[g] <= mt) {
            let p = choose|p: int| 0 <= p < a.len()
                && child.dna.genes@[g] == #[trigger] a[p].dna.genes@[g];
            assert(child.dna.genes@[g] == b[p].dna.genes@[g]);
        }
    }
}

/// What a generation rollover does to the world: the configuration is
/// kept, the generation counter advances by one, the clock and the
/// mating pool are reset, and the population is replaced by a full set
/// of fresh rockets whose genomes are bred -- gene by gene -- from the
/// outgoing generation, up to bounded mutation.
pub open spec fn evolved_rel(w: World, w2: World) -> bool {
    &&& w2.cfg == w.cfg
    &&& w2.generation == w.generation + 1
    &&& w2.clock.ticks == 0
    &&& w2.clock.budget == w.clock.budget
    &&& w2.rockets@.len() == w.cfg.rocket_count
    &&& forall|i: int| 0 <= i < w2.rockets@.len()
            ==> fresh_rocket(#[trigger] w2.rockets@[i], w.cfg)
    &&& forall|i: int| 0 <= i < w2.rockets@.len()
            ==> genes_from(#[trigger] w2.rockets@[i], w.rockets@, w.cfg.max_turn)
    &&& w2.alive_count == w.cfg.rocket_count
    &&& w2.mating_pool@.len() == 0
}

/// What one plain simulation tick does to the world: the configuration,
/// the generation counter and the mating pool are kept, the clock
/// advances by one, and every rocket advances by `tick_rel`.
pub open spec fn stepped_rel(w: World, w2: World) -> bool {
    &&& w2.cfg == w.cfg
    &&& w2.generation == w.generation
    &&& w2.clock.ticks == w.clock.ticks + 1
    &&& w2.clock.budget == w.clock.budget
    &&& w2.rockets@.len() == w.rockets@.len()
    &&& forall|i: int| 0 <= i < w2.rockets@.len()
            ==> tick_rel(w.rockets@[i], #[trigger] w2.rockets@[i], w.cfg.env, w.cfg.speed)
    &&& w2.mating_pool@ == w.mating_pool@
}

impl World {
    /// One full generation rollover, as `evolved_rel` describes: score
    /// the population, rebuild the mating pool, breed the replacement
    /// population, advance the generation counter, and reset the clock,
    /// the alive count and the mating pool.
    pub fn restart(&mut self)
        requires
            old(self).wf(),
            old(self).generation < u64::MAX,
        ensures
            final(self).wf(),
            evolved_rel(*old(self), *final(self)),
    {
        self.calc_fitness();
        self.gen_mating_pool();
        let ghost scored = self.rockets@;
        let fresh = self.selection();
        self.rockets = fresh;
        self.mating_pool = Vec::new();
        self.generation = self.generation + 1;
        self.clock.reset();
        self.alive_count = self.rockets.len();
        proof {
            lemma_count_not_dead_full(self.rockets@);
            assert forall|i: int| 0 <= i < self.rockets@.len()
                implies genes_from(#[trigger] self.rockets@[i], old(self).rockets@,
                    old(self).cfg.max_turn) by {
                lemma_genes_from_transfer(self.rockets@[i], scored, old(self).rockets@,
                    old(self).cfg.max_turn);
            }
        }
    }

    /// One frame of the running state machine. If the tick budget has
    /// elapsed, the frame performs the generation rollover instead of a
    /// tick. Otherwise every rocket advances once -- failure is checked
    /// before success, a rocket failing on this tick decrements the
    /// alive count exactly once -- and the clock advances.
    pub fn update(&mut self)
        requires
            old(self).wf(),
            old(self).generation < u64::MAX,
        ensures
            final(self).wf(),
            old(self).clock.ticks == old(self).clock.budget
                ==> evolved_rel(*old(self), *final(self)),
            old(self).clock.ticks < old(self).clock.budget
                ==> stepped_rel(*old(self), *final(self)),
    {
        if self.clock.is_expired() {
            self.restart();
            return;
        }
        let n = self.rockets.len();
        let mut ind: usize = 0;
        while ind < n
            invariant
                ind <= n,
                n == self.rockets@.len(),
                n == old(self).rockets@.len(),
                old(self).wf(),
                old(self).clock.ticks < old(self).clock.budget,
                self.cfg == old(self).cfg,
                self.generation == old(self).generation,
                self.clock == old(self).clock,
                self.mating_pool@ == old(self).mating_pool@,
                forall|j: int| ind <= j < n
                    ==> #[trigger] self.rockets@[j] == old(self).rockets@[j],
                forall|j: int| 0 <= j < ind
                    ==> tick_rel(old(self).rockets@[j], #[trigger] self.rockets@[j],
                        old(self).cfg.env, old(self).cfg.speed),
                forall|j: int| 0 <= j < n
                    ==> (#[trigger] self.rockets@[j]).wf(self.cfg.env, self.cfg.speed),
                forall|j: int| 0 <= j < n
                    ==> (#[trigger] self.rockets@[j]).dna.genes@.len() == self.cfg.genome_len,
                self.alive_count == count_not_dead(self.rockets@),
            decreases n - ind,
        {
            let ghost before = self.rockets@;
            let died = self.rockets[ind].tick(&self.cfg.env, self.cfg.speed);
            proof {
                lemma_count_not_dead_update(before, ind as int, self.rockets@[ind as int]);
            }
            if died {
                self.alive_count = self.alive_count - 1;
            }
            ind = ind + 1;
        }
        self.clock.tick();
    }

    /// True iff the rocket at the given index currently stands on failing
    /// ground: outside the world bounds, or strictly inside an obstacle.
    pub fn collision_rocket(&self, ind: usize) -> (r: bool)
        requires
            self.wf(),
            ind < self.rockets@.len(),
        ensures
            r == (!self.cfg.env.in_bounds_spec(self.rockets@[ind as int].pos)
                || self.cfg.env.hits_wall_spec(self.rockets@[ind as int].pos)),
    {
        let p = self.rockets[ind].pos;
        !self.cfg.env.contains_point_in_bounds(p) || self.cfg.env.intersects_obstacle(p)
    }

    /// True iff the rocket at the given index is strictly inside the
    /// target disc.
    pub fn collision_target(&self, ind: usize) -> (r: bool)
        requires
            self.wf(),
            ind < self.rockets@.len(),
        ensures
            r == self.cfg.env.in_target_spec(self.rockets@[ind as int].pos),
    {
        let p = self.rockets[ind].pos;
        self.cfg.env.within_target(p)
    }
}

/// The discrete commands the simulation consumes from its input source.
pub enum Actions {
    Pause,
    Reset,
    Nothing,
}

impl World {
    /// Applies one input command: Pause toggles the paused flag and
    /// leaves the world untouched; Reset forces an immediate generation
    /// rollover, whatever the clock says; Nothing changes nothing.
    pub fn apply_action(&mut self, action: Actions, paused: bool) -> (paused2: bool)
        requires
            old(self).wf(),
            old(self).generation < u64::MAX,
        ensures
            final(self).wf(),
            action is Pause ==> paused2 == !paused && *final(self) == *old(self),
            action is Reset ==> paused2 == paused && evolved_rel(*old(self), *final(self)),
            action is Nothing ==> paused2 == paused && *final(self) == *old(self),
    {
        match action {
            Actions::Pause => !paused,
            Actions::Reset => {
                self.restart();
                paused
            }
            Actions::Nothing => paused,
        }
    }
}

} // verus!
