//! Web generators: a debug two-particle web, and a full radial web of
//! concentric rings.

use crate::fx::{div_t, lemma_div_t_shrink, lemma_mul_bound, MAX_PARAM, SCALE};
use crate::region::{ARENA_X, ARENA_Y};
use crate::spring::Spring;
use crate::vec3::{add_v, len_v, scale_div_v, sub_v, V3, Vec3Fx};
use crate::web::{Particle, Web};
use vstd::prelude::*;

verus! {

/// A two-particle example web: one loose particle at the arena center,
/// one pinned particle a unit above it, and a single spring between them.
pub fn generate_2_particle_example() -> (w: Web)
    ensures
        w.wf(),
        w.particles@.len() == 2,
        w.springs@.len() == 1,
        !w.particles@[0].pinned,
        w.particles@[1].pinned,
        w.springs@[0].first_index == 0 && w.springs@[0].second_index == 1,
        w.springs@[0].stiffness == 100_000 && w.springs@[0].damping == 1_000,
        w.springs@[0].rest_length == SCALE,
{
    let mut web = Web::new();
    web.particles.push(Particle {
        position: Vec3Fx { x: ARENA_X, y: ARENA_Y, z: 0 },
        velocity: Vec3Fx { x: 0, y: 0, z: 0 },
        force: Vec3Fx { x: 0, y: 0, z: 0 },
        impulse: Vec3Fx { x: 0, y: 0, z: 0 },
        impulse_duration: 0,
        mass: 0,
        pinned: false,
    });
    web.particles.push(Particle {
        position: Vec3Fx { x: ARENA_X, y: ARENA_Y + SCALE, z: 0 },
        velocity: Vec3Fx { x: 0, y: 0, z: 0 },
        force: Vec3Fx { x: 0, y: 0, z: 0 },
        impulse: Vec3Fx { x: 0, y: 0, z: 0 },
        impulse_duration: 0,
        mass: 0,
        pinned: true,
    });
    web.springs.push(Spring {
        first_index: 0,
        second_index: 1,
        stiffness: 100_000,
        damping: 1_000,
        rest_length: SCALE,
        ensnared_entities: Vec::new(),
    });
    web
}

/// Radius of ring `i` (zero-based) out of `rows`, for a web of outer
/// radius `size`.
pub open spec fn ring_radius(i: int, rows: int, size: int) -> int {
    div_t((i + 1) * size, rows)
}

/// Position of the ring particle for ring `i`, direction `dir`.
pub open spec fn ring_position(center: V3, dir: V3, i: int, rows: int, size: int) -> V3 {
    add_v(center, scale_div_v(dir, ring_radius(i, rows, size), SCALE as int))
}

/// Builds a radial web: a loose hub particle at `center`, then
/// `row_count` concentric rings of `col_count` particles along the given
/// ring directions, the outermost ring pinned to the terrain. Each ring
/// particle is tied inward (to the hub or the particle below it), and
/// inner rings are closed into loops.
pub fn generate_web(
    row_count: usize,
    col_count: usize,
    size: i64,
    mass_density: i64,
    stiffness: i64,
    damping: i64,
    center: Vec3Fx,
    ring_dirs: &Vec<Vec3Fx>,
) -> (w: Web)
    requires
        1 <= row_count <= 16,
        1 <= col_count <= 64,
        0 <= size <= 500_000,
        0 <= mass_density <= MAX_PARAM,
        0 <= stiffness <= MAX_PARAM,
        0 <= damping <= MAX_PARAM,
        center.bounded(500_000),
        ring_dirs@.len() == col_count,
        forall|j: int| 0 <= j < col_count ==> (#[trigger] ring_dirs@[j]).bounded(SCALE as int),
    ensures
        w.wf(),
        w.mass_per_unit_length == mass_density,
        w.particles@.len() == 1 + row_count * col_count,
        w.springs@.len() >= row_count * col_count,
        !w.particles@[0].pinned,
        w.particles@[0].position == center,
        forall|p: int|
            1 <= p < w.particles@.len() ==> (#[trigger] w.particles@[p].pinned <==> p >= 1 + (
            row_count - 1) * col_count),
        forall|p: int|
            1 <= p < w.particles@.len() ==> #[trigger] w.particles@[p].position@
                == ring_position(center@, ring_dirs@[(p - 1) % (col_count as int)]@, (p - 1) / (
            col_count as int), row_count as int, size as int),
        forall|j: int|
            0 <= j < w.springs@.len() ==> #[trigger] w.springs@[j].rest_length == len_v(sub_v(
                w.particles@[w.springs@[j].first_index as int].position@,
                w.particles@[w.springs@[j].second_index as int].position@,
            )),
{
    let ghost base = (row_count - 1) as int * col_count as int;
    let mut web = Web::new();
    web.mass_per_unit_length = mass_density;
    web.particles.push(Particle {
        position: center,
        velocity: Vec3Fx { x: 0, y: 0, z: 0 },
        force: Vec3Fx { x: 0, y: 0, z: 0 },
        impulse: Vec3Fx { x: 0, y: 0, z: 0 },
        impulse_duration: 0,
        mass: 0,
        pinned: false,
    });
    let mut i: usize = 0;
    while i < row_count
        invariant
            i <= row_count,
            1 <= row_count <= 16,
            1 <= col_count <= 64,
            0 <= size <= 500_000,
            0 <= mass_density <= MAX_PARAM,
            0 <= stiffness <= MAX_PARAM,
            0 <= damping <= MAX_PARAM,
            center.bounded(500_000),
            ring_dirs@.len() == col_count,
            forall|j: int| 0 <= j < col_count ==> (#[trigger] ring_dirs@[j]).bounded(
                SCALE as int),
            base == (row_count - 1) as int * col_count as int,
            web.wf(),
            web.mass_per_unit_length == mass_density,
            web.particles@.len() == 1 + i * col_count,
            web.springs@.len() <= 3 * (i * col_count),
            web.springs@.len() >= i * col_count,
            !web.particles@[0].pinned,
            web.particles@[0].position == center,
            forall|p: int|
                1 <= p < web.particles@.len() ==> (#[trigger] web.particles@[p].pinned <==> p
                    >= 1 + base),
            forall|p: int|
                1 <= p < web.particles@.len() ==> #[trigger] web.particles@[p].position@
                    == ring_position(center@, ring_dirs@[(p - 1) % (col_count as int)]@, (p - 1)
                    / (col_count as int), row_count as int, size as int),
            forall|q: int|
                0 <= q < web.springs@.len() ==> #[trigger] web.springs@[q].rest_length == len_v(
                    sub_v(web.particles@[web.springs@[q].first_index as int].position@,
                    web.particles@[web.springs@[q].second_index as int].position@)),
        decreases row_count - i,
    {
        let mut j: usize = 0;
        while j < col_count
            invariant
                j <= col_count,
                i < row_count,
                1 <= row_count <= 16,
                1 <= col_count <= 64,
                0 <= size <= 500_000,
                0 <= mass_density <= MAX_PARAM,
                0 <= stiffness <= MAX_PARAM,
                0 <= damping <= MAX_PARAM,
                center.bounded(500_000),
                ring_dirs@.len() == col_count,
                forall|q: int| 0 <= q < col_count ==> (#[trigger] ring_dirs@[q]).bounded(
                    SCALE as int),
                base == (row_count - 1) as int * col_count as int,
                web.wf(),
                web.mass_per_unit_length == mass_density,
                web.particles@.len() == 1 + i * col_count + j,
                web.springs@.len() <= 3 * (i * col_count + j),
                web.springs@.len() >= i * col_count + j,
                !web.particles@[0].pinned,
                web.particles@[0].position == center,
                forall|p: int|
                    1 <= p < web.particles@.len() ==> (#[trigger] web.particles@[p].pinned <==> p
                        >= 1 + base),
                forall|p: int|
                    1 <= p < web.particles@.len() ==> #[trigger] web.particles@[p].position@
                        == ring_position(center@, ring_dirs@[(p - 1) % (col_count as int)]@, (p
                        - 1) / (col_count as int), row_count as int, size as int),
            forall|q: int|
                0 <= q < web.springs@.len() ==> #[trigger] web.springs@[q].rest_length == len_v(
                    sub_v(web.particles@[web.springs@[q].first_index as int].position@,
                    web.particles@[web.springs@[q].second_index as int].position@)),
            decreases col_count - j,
        {
            proof {
                if i >= 1 {
                    assert(i as int * col_count as int >= col_count as int) by (nonlinear_arith)
                        requires
                            i >= 1,
                            col_count >= 0,
                    ;
                }
            }
            let left: usize = if i == 0 {
                0
            } else {
                web.particles.len() - col_count
            };
            let prev: usize = web.particles.len() - 1;
            proof {
                lemma_mul_bound((i + 1) as int, size as int, 16, 500_000);
                assert((i + 1) as int * size as int >= 0) by (nonlinear_arith)
                    requires
                        i as int + 1 >= 0,
                        size >= 0,
                ;
                assert((i + 1) as int * size as int <= row_count as int * size as int)
                    by (nonlinear_arith)
                    requires
                        i as int + 1 <= row_count as int,
                        size >= 0,
                ;
                vstd::arithmetic::div_mod::lemma_div_pos_is_pos((i + 1) as int * size as int,
                    row_count as int);
                vstd::arithmetic::div_mod::lemma_div_is_ordered((i + 1) as int * size as int,
                    row_count as int * size as int, row_count as int);
                vstd::arithmetic::div_mod::lemma_div_multiples_vanish(size as int,
                    row_count as int);
                assert(row_count as int * size as int == row_count as int * size as int);
            }
            let r = crate::fx::div_fx((i as i64 + 1) * size, row_count as i64);
            proof {
                assert(0 <= r <= size);
            }
            let dir = ring_dirs[j];
            proof {
                lemma_mul_bound(dir@.x, r as int, SCALE as int, 8_000_000);
                lemma_mul_bound(dir@.y, r as int, SCALE as int, 8_000_000);
                lemma_mul_bound(dir@.z, r as int, SCALE as int, 8_000_000);
                lemma_div_t_shrink(dir@.x * r, SCALE as int, 8_000_000_000);
                lemma_div_t_shrink(dir@.y * r, SCALE as int, 8_000_000_000);
                lemma_div_t_shrink(dir@.z * r, SCALE as int, 8_000_000_000);
                lemma_mul_bound(dir@.x, r as int, SCALE as int, 500_000);
                lemma_mul_bound(dir@.y, r as int, SCALE as int, 500_000);
                lemma_mul_bound(dir@.z, r as int, SCALE as int, 500_000);
                lemma_div_t_shrink(dir@.x * r, SCALE as int, 500_000_000);
                lemma_div_t_shrink(dir@.y * r, SCALE as int, 500_000_000);
                lemma_div_t_shrink(dir@.z * r, SCALE as int, 500_000_000);
            }
            let pos = center.add(dir.scale_div(r, SCALE));
            let pinned_here = i == row_count - 1;
            web.particles.push(Particle {
                position: pos,
                velocity: Vec3Fx { x: 0, y: 0, z: 0 },
                force: Vec3Fx { x: 0, y: 0, z: 0 },
                impulse: Vec3Fx { x: 0, y: 0, z: 0 },
                impulse_duration: 0,
                mass: 0,
                pinned: pinned_here,
            });
            let new = web.particles.len() - 1;
            proof {
                assert(new as int - 1 == i * col_count + j);
                vstd::arithmetic::div_mod::lemma_fundamental_div_mod_converse(
                    new as int - 1,
                    col_count as int,
                    i as int,
                    j as int,
                );
                if i == row_count - 1 {
                    assert(i as int * col_count as int == base);
                } else {
                    assert(i as int * col_count as int + col_count as int <= base)
                        by (nonlinear_arith)
                        requires
                            i as int <= row_count - 2,
                            base == (row_count - 1) as int * col_count as int,
                            col_count >= 1,
                    ;
                }
            }
            proof {
                assert(i as int * col_count as int <= 960) by (nonlinear_arith)
                    requires
                        0 <= i as int <= 15,
                        0 <= col_count as int <= 64,
                ;
            }
            let s1 = Spring::new(&web, new, left, stiffness, damping);
            web.springs.push(s1);
            if i != row_count - 1 && j != 0 {
                let s2 = Spring::new(&web, new, prev, stiffness, damping);
                web.springs.push(s2);
                if j == col_count - 1 {
                    let closing = web.particles.len() - col_count;
                    let s3 = Spring::new(&web, new, closing, stiffness, damping);
                    web.springs.push(s3);
                }
            }
            j += 1;
        }
        proof {
            assert(i as int * col_count as int + col_count as int == (i + 1) as int
                * col_count as int) by (nonlinear_arith);
            assert(3 * (i as int * col_count as int + col_count as int) == 3 * ((i + 1) as int
                * col_count as int)) by (nonlinear_arith);
        }
        i += 1;
    }
    web
}

} // verus!
