//! The rocket: a moving body with a position, a heading, a genome and a
//! lifecycle state. While it is alive it advances one tick at a time under
//! its genome's steering commands; once it fails or succeeds it freezes.

use vstd::prelude::*;
use crate::dna::DNA;
use crate::geom::{Environment, Vec2};
use crate::trig::{cos_fp, cos_spec, norm_add, norm_add_spec, sin_fp, sin_spec, scale_trig,
    scale_trig_spec, FULL_TURN};

verus! {

/// The highest speed the simulation accepts, in milli-pixels per tick.
pub const SPEED_LIMIT: u64 = 1000000;

/// A rocket starts pointed straight up: minus a quarter turn, stored
/// normalized.
pub const START_ANGLE: u64 = 270000;

/// The lifecycle of a rocket within one generation.
#[derive(Clone, Copy, PartialEq, Eq, Structural, Debug)]
pub enum RocketState {
    Alive,
    Dead,
    Successful,
}

/// A rocket: genome, position, heading and lifecycle state, plus the
/// distance to the target cached at scoring time.
pub struct Rocket {
    pub dna: DNA,
    pub pos: Vec2,
    pub state: RocketState,
    pub angle: u64,
    pub dist_from_target: u64,
}

impl Rocket {
    /// A well-formed rocket for a given environment and speed: a
    /// well-formed genome, a normalized heading, and a position within one
    /// tick of travel of the world bounds.
    pub open spec fn wf(self, env: Environment, speed: u64) -> bool {
        &&& self.dna.wf()
        &&& self.angle < FULL_TURN
        &&& -(speed as int) <= self.pos.x <= env.width + speed
        &&& -(speed as int) <= self.pos.y <= env.height + speed
        &&& self.dist_from_target <= 3000000000
    }

    /// A fresh rocket at the given position: an all-zero genome of the
    /// given length, heading straight up, alive, with no cached distance.
    pub fn new(pos: Vec2, genome_len: usize) -> (r: Rocket)
        requires
            1 <= genome_len <= crate::dna::GENOME_LEN_LIMIT,
        ensures
            r.dna.wf(),
            r.dna.genes@.len() == genome_len,
            forall|i: int| 0 <= i < genome_len ==> #[trigger] r.dna.genes@[i] == 0,
            r.dna.curr_gene == 0,
            r.dna.fitness == 0,
            r.pos == pos,
            r.state is Alive,
            r.angle == START_ANGLE,
            r.dist_from_target == 0,
    {
        Rocket {
            dna: DNA::new(genome_len),
            pos,
            state: RocketState::Alive,
            angle: START_ANGLE,
            dist_from_target: 0,
        }
    }

    /// The per-tick displacement of this rocket: its speed resolved along
    /// its heading.
    pub fn calc_offset(&self, speed: u64) -> (off: Vec2)
        requires
            self.angle < FULL_TURN,
            speed <= SPEED_LIMIT,
        ensures
            off.x == scale_trig_spec(speed as int, cos_spec(self.angle as int)),
            off.y == scale_trig_spec(speed as int, sin_spec(self.angle as int)),
            -(speed as int) <= off.x <= speed,
            -(speed as int) <= off.y <= speed,
    {
        let c = cos_fp(self.angle);
        let s = sin_fp(self.angle);
        Vec2 { x: scale_trig(speed, c), y: scale_trig(speed, s) }
    }
}

/// Two genomes equal in every observable part.
pub open spec fn dna_eq(a: DNA, b: DNA) -> bool {
    &&& a.genes@ == b.genes@
    &&& a.curr_gene == b.curr_gene
    &&& a.fitness == b.fitness
}

/// A rocket frozen in place: everything but the lifecycle state is as it
/// was.
pub open spec fn frozen_eq(r: Rocket, r2: Rocket) -> bool {
    &&& dna_eq(r2.dna, r.dna)
    &&& r2.pos == r.pos
    &&& r2.angle == r.angle
    &&& r2.dist_from_target == r.dist_from_target
}

/// What one simulation tick does to one rocket. A terminated rocket is
/// untouched. An alive rocket is first checked against the world bounds
/// and the obstacles (failure), then against the target (success) --
/// failure is checked first, so a rocket that would do both fails. A
/// rocket that terminates freezes where it is; one that stays alive turns
/// by its next gene and moves one tick along its new heading.
pub open spec fn tick_rel(r: Rocket, r2: Rocket, env: Environment, speed: u64) -> bool {
    if !(r.state is Alive) {
        frozen_eq(r, r2) && r2.state == r.state
    } else if !env.in_bounds_spec(r.pos) || env.hits_wall_spec(r.pos) {
        frozen_eq(r, r2) && r2.state is Dead
    } else if env.in_target_spec(r.pos) {
        frozen_eq(r, r2) && r2.state is Successful
    } else {
        &&& r2.state is Alive
        &&& r2.dna.genes@ == r.dna.genes@
        &&& r2.dna.curr_gene == r.advanced_cursor_spec_of()
        &&& r2.dna.fitness == r.dna.fitness
        &&& r2.angle == norm_add_spec(r.angle as int, r.dna.read_angle_spec() as int)
        &&& r2.pos.x == r.pos.x + scale_trig_spec(speed as int, cos_spec(r2.angle as int))
        &&& r2.pos.y == r.pos.y + scale_trig_spec(speed as int, sin_spec(r2.angle as int))
        &&& r2.dist_from_target == r.dist_from_target
    }
}

impl Rocket {
    /// The cursor after this rocket reads one steering command.
    pub open spec fn advanced_cursor_spec_of(self) -> int {
        self.dna.advanced_cursor_spec()
    }

    /// Advances this rocket by one simulation tick against the given
    /// environment, as `tick_rel` describes, and reports whether it
    /// failed on this very tick.
    pub fn tick(&mut self, env: &Environment, speed: u64) -> (died: bool)
        requires
            old(self).wf(*env, speed),
            env.wf(),
            speed <= SPEED_LIMIT,
        ensures
            final(self).wf(*env, speed),
            tick_rel(*old(self), *final(self), *env, speed),
            died == ((old(self).state is Alive) && !(final(self).state is Alive)
                && (final(self).state is Dead)),
    {
        match self.state {
            RocketState::Alive => {}
            _ => { return false; }
        }
        let inb = env.contains_point_in_bounds(self.pos);
        if !inb || env.intersects_obstacle(self.pos) {
            self.state = RocketState::Dead;
            return true;
        }
        if env.within_target(self.pos) {
            self.state = RocketState::Successful;
            return false;
        }
        let g = self.dna.next_angle();
        self.angle = norm_add(self.angle, g);
        let off = self.calc_offset(speed);
        self.pos.x = self.pos.x + off.x;
        self.pos.y = self.pos.y + off.y;
        false
    }
}

} // verus!
