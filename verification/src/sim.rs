//! The simulation engine: particles, the step relation, and its model.
//!
//! The spec functions here are the mathematical model of one step: a
//! pairwise Lennard-Jones force pass applied in place over the ordered
//! pairs `i < j`, followed by per-particle Euler integration and boundary
//! reflection against the fixed world rectangle. The executable `step`
//! is proved to compute exactly this model.

use vstd::prelude::*;

verus! {

use crate::fixed::SCALE;
use crate::fixed::fadd;
use crate::fixed::fsub;
use crate::fixed::fmul;
use crate::fixed::fdiv;
use crate::fixed::fx_add;
use crate::fixed::fx_sub;
use crate::fixed::fx_mul;
use crate::fixed::fx_div;
use crate::fixed::lemma_tdiv_bounds;
use crate::rng::Lcg;
use crate::rng::lcg_next;

/// Depth of the Lennard-Jones potential well (`epsilon = 1.0`), folded
/// into the constant factor `48 * epsilon`.
pub const FORTY_EIGHT_EPSILON: i64 = 48_000_000_000;

/// Square of the zero-crossing distance (`sigma = 10.0`).
pub const SIGMA_SQ: i64 = 100_000_000_000;

/// Additive softening term in the squared distance (`0.01`), keeping the
/// force law total when particles coincide.
pub const SOFTENING: i64 = 10_000_000;

/// One half, used for the attractive term of the force law.
pub const HALF: i64 = 500_000_000;

/// Minus one half: the velocity factor of a boundary reflection.
pub const NEG_HALF: i64 = -500_000_000;

/// Largest x coordinate of the world rectangle (`800.0`).
pub const WORLD_X_MAX: i64 = 800_000_000_000;

/// Largest y coordinate of the world rectangle (`600.0`).
pub const WORLD_Y_MAX: i64 = 600_000_000_000;

/// Default integration time step (`0.05`).
pub const DT_DEFAULT: i64 = 50_000_000;

/// Default surface tension parameter (`10.0`).
pub const ST_DEFAULT: i64 = 10_000_000_000;

/// Largest magnitude of an initial velocity component (`5.0`): components
/// are drawn uniformly from `[-5.0, 5.0)`.
pub const VEL_RANGE: i64 = 5_000_000_000;

/// A point mass: 2D position, 2D velocity, and a scalar mass, all in
/// fixed-point units of [`SCALE`].
#[derive(Clone, Copy, Debug, PartialEq, Eq, Structural)]
pub struct Particle {
    pub x: i64,
    pub y: i64,
    pub vx: i64,
    pub vy: i64,
    pub mass: i64,
}

/// The Lennard-Jones scalar of one pair:
/// `48 * epsilon * ((sigma/r)^12 - 0.5 * (sigma/r)^6) / r^2`, written over
/// the softened squared distance `q` as `48 * ((sigma^2/q)^6 - 0.5 *
/// (sigma^2/q)^3) / q`, evaluated in fixed point.
pub open spec fn force_scalar(dx: int, dy: int) -> int {
    let q = fadd(fadd(fmul(dx, dx), fmul(dy, dy)), SOFTENING as int);
    let r = fdiv(SIGMA_SQ as int, q);
    let r3 = fmul(fmul(r, r), r);
    let r6 = fmul(r3, r3);
    let t = fsub(r6, fmul(HALF as int, r3));
    fdiv(fmul(FORTY_EIGHT_EPSILON as int, t), q)
}

/// One pairwise interaction applied in place: equal and opposite velocity
/// kicks on particles `i` and `j`, positions untouched.
pub open spec fn apply_pair(s: Seq<Particle>, i: int, j: int, dt: int)
    -> Seq<Particle> {
    let pi = s[i];
    let pj = s[j];
    let dx = fsub(pj.x as int, pi.x as int);
    let dy = fsub(pj.y as int, pi.y as int);
    let fs = force_scalar(dx, dy);
    let fx = fmul(fs, dx);
    let fy = fmul(fs, dy);
    let pi2 = Particle {
        x: pi.x,
        y: pi.y,
        vx: fadd(pi.vx as int, fdiv(fmul(fx, dt), pi.mass as int)) as i64,
        vy: fadd(pi.vy as int, fdiv(fmul(fy, dt), pi.mass as int)) as i64,
        mass: pi.mass,
    };
    let pj2 = Particle {
        x: pj.x,
        y: pj.y,
        vx: fsub(pj.vx as int, fdiv(fmul(fx, dt), pj.mass as int)) as i64,
        vy: fsub(pj.vy as int, fdiv(fmul(fy, dt), pj.mass as int)) as i64,
        mass: pj.mass,
    };
    s.update(i, pi2).update(j, pj2)
}

/// The force pass from pair `(i, j)` onward within row `i`: applies the
/// remaining pairs of the row in ascending `j`.
pub open spec fn run_inner(s: Seq<Particle>, i: int, j: int, n: int, dt: int)
    -> Seq<Particle>
    decreases n - j,
{
    if 0 <= i && i < j && j < n {
        run_inner(apply_pair(s, i, j, dt), i, j + 1, n, dt)
    } else {
        s
    }
}

/// The force pass from row `i` onward: applies every remaining pair
/// `(a, b)` with `i <= a < b < n` in ascending lexicographic order.
pub open spec fn run_outer(s: Seq<Particle>, i: int, n: int, dt: int)
    -> Seq<Particle>
    decreases n - i,
{
    if 0 <= i && i < n {
        run_outer(run_inner(s, i, i + 1, n, dt), i + 1, n, dt)
    } else {
        s
    }
}

/// Boundary reflection of one axis: clamp to the world edge and damp the
/// velocity by the coefficient of restitution one half.
pub open spec fn reflect(pos: int, vel: int, hi: int) -> (int, int) {
    if pos < 0 {
        (0, fmul(vel, NEG_HALF as int))
    } else if pos > hi {
        (hi, fmul(vel, NEG_HALF as int))
    } else {
        (pos, vel)
    }
}

/// Euler position update of one particle followed by boundary reflection
/// on both axes.
pub open spec fn integrate_one(p: Particle, dt: int) -> Particle {
    let x1 = fadd(p.x as int, fmul(p.vx as int, dt));
    let y1 = fadd(p.y as int, fmul(p.vy as int, dt));
    let xr = reflect(x1, p.vx as int, WORLD_X_MAX as int);
    let yr = reflect(y1, p.vy as int, WORLD_Y_MAX as int);
    Particle {
        x: xr.0 as i64,
        y: yr.0 as i64,
        vx: xr.1 as i64,
        vy: yr.1 as i64,
        mass: p.mass,
    }
}

/// The integration pass: every particle independently.
pub open spec fn integrate_all(s: Seq<Particle>, dt: int) -> Seq<Particle> {
    Seq::new(s.len(), |k: int| integrate_one(s[k], dt))
}

/// One full step: the in-place pairwise force pass over all pairs
/// `i < j`, then the integration and reflection pass.
pub open spec fn spec_step(s: Seq<Particle>, dt: int) -> Seq<Particle> {
    integrate_all(run_outer(s, 0, s.len() as int, dt), dt)
}

/// `n` consecutive steps at a fixed time step.
pub open spec fn run_steps(s: Seq<Particle>, dt: int, n: nat) -> Seq<Particle>
    decreases n,
{
    if n == 0 {
        s
    } else {
        run_steps(spec_step(s, dt), dt, (n - 1) as nat)
    }
}

/// The generator state after `n` draws from the given seed.
pub open spec fn nth_state(seed: u64, n: nat) -> u64
    decreases n,
{
    if n == 0 {
        seed
    } else {
        lcg_next(nth_state(seed, (n - 1) as nat))
    }
}

/// The coordinate that one draw yields on an axis of the given extent: a
/// value uniformly below the extent, or the origin when the extent is
/// degenerate.
pub open spec fn coord_of_draw(drawn: u64, extent: i64) -> i64 {
    if extent > 0 {
        (drawn as int % extent as int) as i64
    } else {
        0
    }
}

/// The velocity component that one draw yields: uniform over
/// `[-5.0, 5.0)`.
pub open spec fn vel_of_draw(drawn: u64) -> i64 {
    (drawn as int % 10_000_000_000 - VEL_RANGE as int) as i64
}

/// The particle that construction places at index `k`: each particle
/// consumes four consecutive draws of the seeded stream, in the order
/// x, y, vx, vy.
pub open spec fn initial_particle(seed: u64, width: i64, height: i64,
    k: int) -> Particle {
    Particle {
        x: coord_of_draw(nth_state(seed, (4 * k + 1) as nat), width),
        y: coord_of_draw(nth_state(seed, (4 * k + 2) as nat), height),
        vx: vel_of_draw(nth_state(seed, (4 * k + 3) as nat)),
        vy: vel_of_draw(nth_state(seed, (4 * k + 4) as nat)),
        mass: SCALE,
    }
}

/// Whether a particle lies inside the world rectangle.
pub open spec fn in_world(p: Particle) -> bool {
    &&& 0 <= p.x as int <= WORLD_X_MAX as int
    &&& 0 <= p.y as int <= WORLD_Y_MAX as int
}

/// The simulation engine: an ordered particle population of fixed length
/// and two scalar parameters.
pub struct Simulation {
    particles: Vec<Particle>,
    dt: i64,
    surface_tension: i64,
}

impl Simulation {
    /// The particle sequence, in stable index order.
    pub closed spec fn particles_v(self) -> Seq<Particle> {
        self.particles@
    }

    /// The stored integration time step.
    pub closed spec fn dt_v(self) -> int {
        self.dt as int
    }

    /// The stored surface tension parameter.
    pub closed spec fn st_v(self) -> int {
        self.surface_tension as int
    }

    /// Well-formedness: every mass is strictly positive.
    pub open spec fn wf(self) -> bool {
        forall|k: int|
            0 <= k < self.particles_v().len() ==> (#[trigger] self
                .particles_v()[k]).mass > 0
    }

    /// Creates a simulation of `count` particles with positions sampled
    /// uniformly in `[0, width) x [0, height)`, velocity components
    /// sampled uniformly in `[-5.0, 5.0)`, and mass `1.0`; `width` and
    /// `height` bound the initial placement only and are not retained.
    /// The placement is a pure function of `seed` (the sequence
    /// [`initial_particle`] gives), so construction is deterministic and
    /// reproducible. Always succeeds; `count == 0` yields an empty
    /// simulation.
    pub fn new(count: usize, width: i64, height: i64, seed: u64)
        -> (s: Simulation)
        ensures
            s.wf(),
            s.particles_v().len() == count as int,
            s.dt_v() == DT_DEFAULT as int,
            s.st_v() == ST_DEFAULT as int,
            forall|k: int|
                0 <= k < count as int ==> #[trigger] s.particles_v()[k]
                    == initial_particle(seed, width, height, k),
            forall|k: int|
                0 <= k < count as int ==> {
                    let p = #[trigger] s.particles_v()[k];
                    &&& p.mass == SCALE
                    &&& (width > 0 ==> 0 <= p.x < width)
                    &&& (width <= 0 ==> p.x == 0)
                    &&& (height > 0 ==> 0 <= p.y < height)
                    &&& (height <= 0 ==> p.y == 0)
                    &&& -VEL_RANGE <= p.vx < VEL_RANGE
                    &&& -VEL_RANGE <= p.vy < VEL_RANGE
                },
    {
        let mut rng: Lcg = Lcg::new(seed);
        let mut particles: Vec<Particle> = Vec::new();
        let mut idx: usize = 0;
        while idx < count
            invariant
                idx <= count,
                particles@.len() == idx as int,
                rng.state_v() == nth_state(seed, (4 * idx as int) as nat),
                forall|k: int|
                    0 <= k < idx as int ==> #[trigger] particles@[k]
                        == initial_particle(seed, width, height, k),
                forall|k: int|
                    0 <= k < idx as int ==> {
                        let p = #[trigger] particles@[k];
                        &&& p.mass == SCALE
                        &&& (width > 0 ==> 0 <= p.x < width)
                        &&& (width <= 0 ==> p.x == 0)
                        &&& (height > 0 ==> 0 <= p.y < height)
                        &&& (height <= 0 ==> p.y == 0)
                        &&& -VEL_RANGE <= p.vx < VEL_RANGE
                        &&& -VEL_RANGE <= p.vy < VEL_RANGE
                    },
            decreases count - idx,
        {
            let ghost t0: nat = (4 * idx as int) as nat;
            let x: i64 = Self::sample_coord(&mut rng, width);
            let y: i64 = Self::sample_coord(&mut rng, height);
            let vx: i64 = Self::sample_velocity(&mut rng);
            let vy: i64 = Self::sample_velocity(&mut rng);
            proof {
                assert(nth_state(seed, (t0 + 1) as nat)
                    == lcg_next(nth_state(seed, t0)));
                assert(nth_state(seed, (t0 + 2) as nat)
                    == lcg_next(nth_state(seed, (t0 + 1) as nat)));
                assert(nth_state(seed, (t0 + 3) as nat)
                    == lcg_next(nth_state(seed, (t0 + 2) as nat)));
                assert(nth_state(seed, (t0 + 4) as nat)
                    == lcg_next(nth_state(seed, (t0 + 3) as nat)));
            }
            particles.push(Particle { x, y, vx, vy, mass: SCALE });
            proof {
                assert(particles@[idx as int] == initial_particle(seed,
                    width, height, idx as int));
            }
            idx = idx + 1;
        }
        Simulation { particles, dt: DT_DEFAULT,
            surface_tension: ST_DEFAULT }
    }

    /// Draws one value and maps it onto `[0, extent)`; a degenerate
    /// extent places the particle at the origin of that axis. One draw
    /// is consumed either way, so the stream position stays in lock
    /// step with the particle index.
    fn sample_coord(rng: &mut Lcg, extent: i64) -> (r: i64)
        ensures
            final(rng).state_v() == lcg_next(old(rng).state_v()),
            r == coord_of_draw(lcg_next(old(rng).state_v()), extent),
            extent > 0 ==> 0 <= r < extent,
            extent <= 0 ==> r == 0,
    {
        let drawn: u64 = rng.next_u64();
        if extent <= 0 {
            0
        } else {
            (drawn % (extent as u64)) as i64
        }
    }

    /// Draws a velocity component uniformly from `[-5.0, 5.0)`, the
    /// fixed-point value of `(u - 0.5) * 10.0` over a uniform
    /// `u` in `[0, 1)`.
    fn sample_velocity(rng: &mut Lcg) -> (r: i64)
        ensures
            final(rng).state_v() == lcg_next(old(rng).state_v()),
            r == vel_of_draw(lcg_next(old(rng).state_v())),
            -VEL_RANGE <= r < VEL_RANGE,
    {
        let drawn: u64 = rng.next_u64();
        let reduced: u64 = drawn % 10_000_000_000u64;
        (reduced as i64) - VEL_RANGE
    }

    /// Builds a simulation from an explicit particle sequence, bypassing
    /// random placement; the injected population must carry positive
    /// masses.
    pub fn from_particles(particles: Vec<Particle>, dt: i64,
        surface_tension: i64) -> (s: Simulation)
        requires
            forall|k: int|
                0 <= k < particles@.len() ==> (#[trigger] particles@[k]).mass
                    > 0,
        ensures
            s.wf(),
            s.particles_v() == particles@,
            s.dt_v() == dt as int,
            s.st_v() == surface_tension as int,
    {
        Simulation { particles, dt, surface_tension }
    }

    /// Returns a snapshot of the full particle sequence in index order.
    pub fn get_particles(&self) -> (r: Vec<Particle>)
        ensures
            r@ == self.particles_v(),
    {
        let mut out: Vec<Particle> = Vec::new();
        let n: usize = self.particles.len();
        let mut k: usize = 0;
        while k < n
            invariant
                n == self.particles.len(),
                k <= n,
                out@ == self.particles@.subrange(0, k as int),
            decreases n - k,
        {
            out.push(self.particles[k]);
            proof {
                assert(out@ =~= self.particles@.subrange(0, k as int + 1));
            }
            k = k + 1;
        }
        proof {
            assert(out@ =~= self.particles@);
        }
        out
    }

    /// The stored time step, as a fixed-point value.
    pub fn dt(&self) -> (r: i64)
        ensures
            r as int == self.dt_v(),
    {
        self.dt
    }

    /// The stored surface tension, as a fixed-point value.
    pub fn surface_tension(&self) -> (r: i64)
        ensures
            r as int == self.st_v(),
    {
        self.surface_tension
    }

    /// Advances the system by one interval of the stored time step: the
    /// pairwise Lennard-Jones force pass over the ordered pairs `i < j`
    /// with immediate in-place velocity updates, then per-particle Euler
    /// integration with boundary reflection. Returns the diagnostic
    /// record of the step: a copy of particle 0 after the update, if the
    /// population is non-empty.
    pub fn step(&mut self) -> (diag: Option<Particle>)
        requires
            old(self).wf(),
        ensures
            final(self).wf(),
            final(self).particles_v() == spec_step(old(self).particles_v(),
                old(self).dt_v()),
            final(self).dt_v() == old(self).dt_v(),
            final(self).st_v() == old(self).st_v(),
            forall|k: int|
                0 <= k < final(self).particles_v().len() ==> in_world(
                    #[trigger] final(self).particles_v()[k]),
            diag == (if old(self).particles_v().len() > 0 {
                Some(final(self).particles_v()[0])
            } else {
                None::<Particle>
            }),
    {
        let n: usize = self.particles.len();
        let ghost s0: Seq<Particle> = self.particles@;
        let ghost dtg: int = self.dt as int;
        let ghost nn: int = n as int;
        let ghost dt0: i64 = self.dt;
        let ghost st0: i64 = self.surface_tension;

        let mut i: usize = 0;
        while i < n
            invariant
                i <= n,
                n == self.particles.len(),
                nn == n as int,
                self.dt == dt0,
                self.surface_tension == st0,
                dtg == dt0 as int,
                run_outer(self.particles@, i as int, nn, dtg) == run_outer(
                    s0, 0, nn, dtg),
                forall|k: int|
                    0 <= k < nn ==> (#[trigger] self.particles@[k]).mass
                        == s0[k].mass && self.particles@[k].x == s0[k].x
                        && self.particles@[k].y == s0[k].y,
                forall|k: int| 0 <= k < nn ==> (#[trigger] s0[k]).mass > 0,
            decreases n - i,
        {
            let mut j: usize = i + 1;
            proof {
                assert(run_outer(self.particles@, i as int, nn, dtg)
                    == run_outer(run_inner(self.particles@, i as int,
                        i as int + 1, nn, dtg), i as int + 1, nn, dtg));
            }
            while j < n
                invariant
                    i < j,
                    j <= n,
                    i < n,
                    n == self.particles.len(),
                    nn == n as int,
                    self.dt == dt0,
                    self.surface_tension == st0,
                    dtg == dt0 as int,
                    run_outer(run_inner(self.particles@, i as int, j as int,
                        nn, dtg), i as int + 1, nn, dtg) == run_outer(s0, 0,
                        nn, dtg),
                    forall|k: int|
                        0 <= k < nn ==> (#[trigger] self.particles@[k]).mass
                            == s0[k].mass && self.particles@[k].x == s0[k].x
                            && self.particles@[k].y == s0[k].y,
                    forall|k: int| 0 <= k < nn ==> (#[trigger] s0[k]).mass
                        > 0,
                decreases n - j,
            {
                let ghost prev: Seq<Particle> = self.particles@;
                let pi: Particle = self.particles[i];
                let pj: Particle = self.particles[j];
                let dx: i64 = fx_sub(pj.x, pi.x);
                let dy: i64 = fx_sub(pj.y, pi.y);
                let dx2: i64 = fx_mul(dx, dx);
                let dy2: i64 = fx_mul(dy, dy);
                let q: i64 = fx_add(fx_add(dx2, dy2), SOFTENING);
                proof {
                    assert((dx as int) * (dx as int) >= 0)
                        by (nonlinear_arith);
                    assert((dy as int) * (dy as int) >= 0)
                        by (nonlinear_arith);
                    lemma_tdiv_bounds((dx as int) * (dx as int),
                        SCALE as int);
                    lemma_tdiv_bounds((dy as int) * (dy as int),
                        SCALE as int);
                    assert(q > 0);
                }
                let r: i64 = fx_div(SIGMA_SQ, q);
                let r3: i64 = fx_mul(fx_mul(r, r), r);
                let r6: i64 = fx_mul(r3, r3);
                let t: i64 = fx_sub(r6, fx_mul(HALF, r3));
                let fs: i64 = fx_div(fx_mul(FORTY_EIGHT_EPSILON, t), q);
                let fxc: i64 = fx_mul(fs, dx);
                let fyc: i64 = fx_mul(fs, dy);
                let dvxi: i64 = fx_div(fx_mul(fxc, self.dt), pi.mass);
                let dvyi: i64 = fx_div(fx_mul(fyc, self.dt), pi.mass);
                let dvxj: i64 = fx_div(fx_mul(fxc, self.dt), pj.mass);
                let dvyj: i64 = fx_div(fx_mul(fyc, self.dt), pj.mass);
                let pi2 = Particle {
                    x: pi.x,
                    y: pi.y,
                    vx: fx_add(pi.vx, dvxi),
                    vy: fx_add(pi.vy, dvyi),
                    mass: pi.mass,
                };
                let pj2 = Particle {
                    x: pj.x,
                    y: pj.y,
                    vx: fx_sub(pj.vx, dvxj),
                    vy: fx_sub(pj.vy, dvyj),
                    mass: pj.mass,
                };
                self.particles.set(i, pi2);
                self.particles.set(j, pj2);
                proof {
                    assert(self.particles@ == apply_pair(prev, i as int,
                        j as int, dtg));
                    assert(run_inner(prev, i as int, j as int, nn, dtg)
                        == run_inner(self.particles@, i as int, j as int + 1,
                            nn, dtg));
                }
                j = j + 1;
            }
            proof {
                assert(run_inner(self.particles@, i as int, j as int, nn,
                    dtg) == self.particles@);
            }
            i = i + 1;
        }
        let ghost s1: Seq<Particle> = self.particles@;
        proof {
            assert(run_outer(s1, nn, nn, dtg) == s1);
            assert(s1 == run_outer(s0, 0, nn, dtg));
        }

        let mut k: usize = 0;
        while k < n
            invariant
                k <= n,
                n == self.particles.len(),
                nn == n as int,
                self.dt == dt0,
                self.surface_tension == st0,
                dtg == dt0 as int,
                forall|m: int|
                    0 <= m < k as int ==> #[trigger] self.particles@[m]
                        == integrate_one(s1[m], dtg),
                forall|m: int|
                    k as int <= m < nn ==> #[trigger] self.particles@[m]
                        == s1[m],
            decreases n - k,
        {
            let p: Particle = self.particles[k];
            let x1: i64 = fx_add(p.x, fx_mul(p.vx, self.dt));
            let y1: i64 = fx_add(p.y, fx_mul(p.vy, self.dt));
            let mut x2: i64 = x1;
            let mut vx2: i64 = p.vx;
            if x1 < 0 {
                x2 = 0;
                vx2 = fx_mul(p.vx, NEG_HALF);
            } else if x1 > WORLD_X_MAX {
                x2 = WORLD_X_MAX;
                vx2 = fx_mul(p.vx, NEG_HALF);
            }
            let mut y2: i64 = y1;
            let mut vy2: i64 = p.vy;
            if y1 < 0 {
                y2 = 0;
                vy2 = fx_mul(p.vy, NEG_HALF);
            } else if y1 > WORLD_Y_MAX {
                y2 = WORLD_Y_MAX;
                vy2 = fx_mul(p.vy, NEG_HALF);
            }
            let p2 = Particle { x: x2, y: y2, vx: vx2, vy: vy2,
                mass: p.mass };
            self.particles.set(k, p2);
            proof {
                assert(p2 == integrate_one(s1[k as int], dtg));
            }
            k = k + 1;
        }
        proof {
            assert(self.particles@ =~= integrate_all(s1, dtg));
            assert(self.particles@ == spec_step(s0, dtg));
            assert forall|m: int| 0 <= m < self.particles@.len()
                implies in_world(#[trigger] self.particles@[m]) by {
                assert(self.particles@[m] == integrate_one(s1[m], dtg));
            }
            assert forall|m: int| 0 <= m < self.particles@.len()
                implies (#[trigger] self.particles@[m]).mass > 0 by {
                assert(self.particles@[m] == integrate_one(s1[m], dtg));
                assert(s1[m].mass == s0[m].mass);
            }
        }
        if n > 0 {
            Some(self.particles[0])
        } else {
            None
        }
    }

    /// Sets the integration time step; no range validation is performed,
    /// and no particle is touched.
    pub fn set_dt(&mut self, dt: i64)
        ensures
            final(self).particles_v() == old(self).particles_v(),
            final(self).dt_v() == dt as int,
            final(self).st_v() == old(self).st_v(),
    {
        self.dt = dt;
    }

    /// Sets the surface tension parameter; it is stored state only, never
    /// read by the force law, and no particle is touched.
    pub fn set_surface_tension(&mut self, surface_tension: i64)
        ensures
            final(self).particles_v() == old(self).particles_v(),
            final(self).dt_v() == old(self).dt_v(),
            final(self).st_v() == surface_tension as int,
    {
        self.surface_tension = surface_tension;
    }
}

/// The force pass never changes the length of the population (rows).
#[verifier::rlimit(50)]
proof fn lemma_run_inner_len(s: Seq<Particle>, i: int, j: int, n: int,
    dt: int)
    requires
        n <= s.len(),
    ensures
        run_inner(s, i, j, n, dt).len() == s.len(),
    decreases n - j,
{
    if 0 <= i && i < j && j < n {
        assert(apply_pair(s, i, j, dt).len() == s.len());
        lemma_run_inner_len(apply_pair(s, i, j, dt), i, j + 1, n, dt);
        assert(run_inner(s, i, j, n, dt) == run_inner(apply_pair(s, i, j,
            dt), i, j + 1, n, dt));
    }
}

/// The force pass never changes the length of the population.
pub proof fn lemma_run_outer_len(s: Seq<Particle>, i: int, n: int, dt: int)
    requires
        n <= s.len(),
    ensures
        run_outer(s, i, n, dt).len() == s.len(),
    decreases n - i,
{
    if 0 <= i && i < n {
        lemma_run_inner_len(s, i, i + 1, n, dt);
        lemma_run_outer_len(run_inner(s, i, i + 1, n, dt), i + 1, n, dt);
    }
}

/// The force pass touches only velocities: every particle keeps its
/// position and mass (row version).
#[verifier::rlimit(50)]
proof fn lemma_run_inner_preserves(s: Seq<Particle>, i: int, j: int,
    n: int, dt: int)
    requires
        n <= s.len(),
    ensures
        run_inner(s, i, j, n, dt).len() == s.len(),
        forall|k: int|
            0 <= k < s.len() ==> {
                let p = #[trigger] run_inner(s, i, j, n, dt)[k];
                p.mass == s[k].mass && p.x == s[k].x && p.y == s[k].y
            },
    decreases n - j,
{
    if 0 <= i && i < j && j < n {
        let s2 = apply_pair(s, i, j, dt);
        assert(s2.len() == s.len());
        assert(forall|k: int|
            0 <= k < s.len() ==> (#[trigger] s2[k]).mass == s[k].mass
                && s2[k].x == s[k].x && s2[k].y == s[k].y);
        lemma_run_inner_preserves(s2, i, j + 1, n, dt);
        assert(run_inner(s, i, j, n, dt) == run_inner(s2, i, j + 1, n,
            dt));
    }
}

/// The force pass touches only velocities: every particle keeps its
/// position and mass.
pub proof fn lemma_run_outer_preserves(s: Seq<Particle>, i: int, n: int,
    dt: int)
    requires
        n <= s.len(),
    ensures
        run_outer(s, i, n, dt).len() == s.len(),
        forall|k: int|
            0 <= k < s.len() ==> {
                let p = #[trigger] run_outer(s, i, n, dt)[k];
                p.mass == s[k].mass && p.x == s[k].x && p.y == s[k].y
            },
    decreases n - i,
{
    if 0 <= i && i < n {
        lemma_run_inner_preserves(s, i, i + 1, n, dt);
        lemma_run_outer_preserves(run_inner(s, i, i + 1, n, dt), i + 1, n,
            dt);
    }
}

/// The engine never changes a particle's mass, and never inserts,
/// removes or reorders: one step maps each index to the same index, of
/// the same mass.
pub proof fn lemma_step_preserves_masses(s: Seq<Particle>, dt: int)
    ensures
        spec_step(s, dt).len() == s.len(),
        forall|k: int|
            0 <= k < s.len() ==> (#[trigger] spec_step(s, dt)[k]).mass
                == s[k].mass,
{
    lemma_run_outer_preserves(s, 0, s.len() as int, dt);
}

/// Boundary invariant: one step leaves every particle of the resulting
/// population inside the world rectangle `[0, 800] x [0, 600]`, whatever
/// the starting state and time step were.
pub proof fn lemma_step_in_world(s: Seq<Particle>, dt: int)
    ensures
        spec_step(s, dt).len() == s.len(),
        forall|k: int|
            0 <= k < s.len() ==> in_world(#[trigger] spec_step(s, dt)[k]),
{
    lemma_run_outer_len(s, 0, s.len() as int, dt);
}

/// Boundary invariant over a whole trajectory: after any positive number
/// of steps, every particle lies inside the world rectangle.
pub proof fn lemma_run_steps_in_world(s: Seq<Particle>, dt: int, n: nat)
    requires
        n >= 1,
    ensures
        run_steps(s, dt, n).len() == s.len(),
        forall|k: int|
            0 <= k < s.len() ==> in_world(
                #[trigger] run_steps(s, dt, n)[k]),
    decreases n,
{
    lemma_step_in_world(s, dt);
    if n == 1 {
        assert(run_steps(spec_step(s, dt), dt, 0) == spec_step(s, dt));
    } else {
        lemma_run_steps_in_world(spec_step(s, dt), dt, (n - 1) as nat);
    }
}

/// An empty population makes the step a no-op: there is no pair to act
/// on and no particle to integrate.
pub proof fn lemma_step_empty(s: Seq<Particle>, dt: int)
    requires
        s.len() == 0,
    ensures
        spec_step(s, dt) == s,
{
    assert(run_outer(s, 0, 0, dt) == s);
    assert(integrate_all(s, dt) =~= s);
}

/// A single particle feels no pairwise force: the step reduces to pure
/// straight-line motion plus boundary reflection.
pub proof fn lemma_step_single(s: Seq<Particle>, dt: int)
    requires
        s.len() == 1,
    ensures
        spec_step(s, dt) == integrate_all(s, dt),
        spec_step(s, dt)[0] == integrate_one(s[0], dt),
{
    assert(run_inner(s, 0, 1, 1, dt) == s);
    assert(run_outer(s, 1, 1, dt) == s);
    assert(run_outer(s, 0, 1, dt) == s);
}

/// Determinism: the trajectory is a pure function of the starting
/// population and the time step; equal starting states give equal
/// trajectories for any number of steps.
pub proof fn lemma_trajectory_deterministic(s1: Seq<Particle>,
    s2: Seq<Particle>, dt1: int, dt2: int, n: nat)
    requires
        s1 == s2,
        dt1 == dt2,
    ensures
        run_steps(s1, dt1, n) == run_steps(s2, dt2, n),
{
}

} // verus!
