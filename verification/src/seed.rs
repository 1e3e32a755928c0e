//! The seeder: fills a centered bounding box of a fresh grid by drawing
//! an independent Bernoulli trial per cell. The spawn probability is a
//! ratio `numerator / denominator`, which must lie in `[0, 1]`.

use vstd::prelude::*;

use crate::grid::lemma_coords_in_range;
use crate::grid::Grid;
use crate::grid::GridView;
use crate::SimError;

verus! {

/// Declares rand's `ThreadRng` so that the seeder can take the caller's
/// random-number generator as an argument; the value stays opaque here.
#[verifier::external_type_specification]
#[verifier::external_body]
pub struct ExThreadRng(rand::rngs::ThreadRng);

/// Relies on rand's `Rng::gen_ratio`, which samples
/// `Bernoulli::from_ratio(numerator, denominator)`: a numerator of zero
/// gives a sampler that always returns false, a numerator equal to the
/// denominator one that always returns true; a numerator above the
/// denominator or a zero denominator would panic, so both are excluded.
/// Any other outcome is random and nothing more is assumed of it.
#[verifier::external_body]
fn draw_ratio(rng: &mut rand::rngs::ThreadRng, numerator: u32, denominator: u32) -> (alive: bool)
    requires
        1 <= denominator,
        numerator <= denominator,
    ensures
        numerator == 0 ==> !alive,
        numerator == denominator ==> alive,
{
    rand::Rng::gen_ratio(rng, numerator, denominator)
}

/// Distance from `v` to `c` as a non-negative value; subtraction never
/// underflows, it is taken in whichever direction stays non-negative.
pub open spec fn centered_dist(c: int, v: int) -> int {
    if v <= c {
        c - v
    } else {
        v - c
    }
}

/// Whether `(x, y)` lies inside the centered seed bounding box: strictly
/// closer than `radius` to the grid's center along both axes.
pub open spec fn in_seed_box(width: int, height: int, radius: int, x: int, y: int) -> bool {
    centered_dist(width / 2, x) < radius && centered_dist(height / 2, y) < radius
}

/// What seeding guarantees of each cell, whatever the RNG returned:
/// cells outside the bounding box are dead; with probability 0 every cell
/// is dead; with probability 1 exactly the cells inside the box are
/// alive.
pub open spec fn seeded_cell_ok(
    width: int,
    height: int,
    radius: int,
    numerator: int,
    denominator: int,
    g: GridView,
    i: int,
) -> bool {
    &&& !in_seed_box(width, height, radius, g.coord_x(i), g.coord_y(i)) ==> !g.cells[i]
    &&& numerator == 0 ==> !g.cells[i]
    &&& numerator == denominator ==> g.cells[i] == in_seed_box(
        width,
        height,
        radius,
        g.coord_x(i),
        g.coord_y(i),
    )
}

/// Produces an initial grid: every cell inside the centered bounding box
/// draws an independent Bernoulli trial with probability
/// `numerator / denominator`; every cell outside the box is dead. A
/// probability outside `[0, 1]` and unusable dimensions are rejected.
pub fn seed_cells(
    width: usize,
    height: usize,
    radius: usize,
    numerator: u32,
    denominator: u32,
    rng: &mut rand::rngs::ThreadRng,
) -> (r: Result<Grid, SimError>)
    ensures
        match r {
            Ok(g) => {
                &&& g@.wf()
                &&& g@.width == width
                &&& g@.height == height
                &&& forall|i: int|
                    0 <= i < g@.cells.len() ==> seeded_cell_ok(
                        width as int,
                        height as int,
                        radius as int,
                        numerator as int,
                        denominator as int,
                        g@,
                        i,
                    )
            },
            Err(e) => if denominator == 0 || numerator > denominator {
                e == SimError::InvalidProbability
            } else {
                &&& e == SimError::InvalidDimensions
                &&& (width == 0 || width != height || width * height > usize::MAX)
            },
        },
        r is Ok <==> (1 <= denominator && numerator <= denominator && 1 <= width && width == height
            && width * height <= usize::MAX),
{
    if denominator == 0 || numerator > denominator {
        return Err(SimError::InvalidProbability);
    }
    let mut g = match Grid::new_grid(width, height) {
        Ok(g) => g,
        Err(e) => {
            return Err(e);
        },
    };
    let n = g.len();
    let half_w = width / 2;
    let half_h = height / 2;
    let mut i: usize = 0;
    while i < n
        invariant
            g@.wf(),
            g@.width == width,
            g@.height == height,
            n == g@.cells.len(),
            i <= n,
            1 <= denominator,
            numerator <= denominator,
            half_w == width / 2,
            half_h == height / 2,
            forall|j: int|
                0 <= j < i ==> seeded_cell_ok(
                    width as int,
                    height as int,
                    radius as int,
                    numerator as int,
                    denominator as int,
                    g@,
                    j,
                ),
            forall|j: int| i <= j < n ==> !g@.cells[j],
        decreases n - i,
    {
        let ghost g0 = g@;
        let (x, y) = g.get_x_y(i);
        proof {
            lemma_coords_in_range(g@, i as int);
        }
        let dx = if x <= half_w {
            half_w - x
        } else {
            x - half_w
        };
        let dy = if y <= half_h {
            half_h - y
        } else {
            y - half_h
        };
        if dx < radius && dy < radius {
            let alive = draw_ratio(rng, numerator, denominator);
            g.set_cell(x, y, alive);
        }
        proof {
            assert((dx < radius && dy < radius) == in_seed_box(
                width as int,
                height as int,
                radius as int,
                x as int,
                y as int,
            ));
            assert forall|j: int| 0 <= j < i + 1 implies seeded_cell_ok(
                width as int,
                height as int,
                radius as int,
                numerator as int,
                denominator as int,
                g@,
                j,
            ) by {
                if j < i {
                    assert(seeded_cell_ok(
                        width as int,
                        height as int,
                        radius as int,
                        numerator as int,
                        denominator as int,
                        g0,
                        j,
                    ));
                    assert(g@.cells[j] == g0.cells[j]);
                }
            }
            assert forall|j: int| i + 1 <= j < n implies !g@.cells[j] by {
                assert(!g0.cells[j]);
            }
        }
        i += 1;
    }
    Ok(g)
}

} // verus!
