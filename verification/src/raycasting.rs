//! The raycasting engine: camera state, the camera transform, and the
//! per-column DDA ray cast with its projection to screen segments.
//!
//! Every quantity is carried in fixed point (see `fixed`): positions and
//! directions are multiples of `1/SCALE`, and so are the crossing distances
//! the DDA accumulates. A ray that never crosses grid lines of one axis has
//! an infinite crossing distance on that axis, represented explicitly by
//! `None`; an infinite distance loses every comparison, and a tie between
//! the two axes falls to the y axis.

use vstd::prelude::*;

use crate::fixed::COORD_LIMIT;
use crate::fixed::POS_LIMIT;
use crate::fixed::SCALE;
use crate::fixed::div_scale;
use crate::fixed::div_trunc;
use crate::fixed::lemma_mul_bounds;
use crate::grid::GridMap;
use crate::grid::MAX_DIM;
use crate::grid::grid_wf;
use crate::vector::Vector2;
use crate::vector::rotate;
use crate::vector::rotate_spec;

verus! {

/// One vertical screen segment: the visible slice of wall in one column.
#[derive(Clone, Copy, PartialEq, Eq, Structural, Debug)]
pub struct Segment {
    /// Screen column the segment belongs to.
    pub column: u16,
    /// First row of the wall slice, counted from the top of the screen.
    pub y_top: u16,
    /// Last row of the wall slice.
    pub y_bottom: u16,
    /// Tile identifier of the wall that was hit.
    pub tile_id: u8,
    /// Whether the ray entered the wall through a y-axis grid line; used
    /// for shading.
    pub is_y_side: bool,
}

/// The outcome of casting a single ray.
#[derive(Clone, Copy, Debug)]
pub struct RayHit {
    /// Column of the wall cell that was hit.
    pub map_x: usize,
    /// Row of the wall cell that was hit.
    pub map_y: usize,
    /// Tile identifier of that cell; always nonzero.
    pub tile_id: u8,
    /// Whether the final step crossed a y-axis grid line.
    pub is_y_side: bool,
    /// Perpendicular wall distance in fixed point: the hit distance
    /// projected onto the camera's forward axis, which avoids fish-eye
    /// distortion. `None` when the hit axis was never crossed (a
    /// degenerate ray with no direction at all walked to a wall).
    pub perp: Option<u64>,
}

/// Largest per-cell crossing distance the engine can produce: one
/// fixed-point unit of ray direction gives `SCALE * SCALE` fixed-point
/// units of travel per cell.
pub const DELTA_MAX: u64 = 0x1_0000_0000;

/// Rejection of an invalid frame dimension.
#[derive(Clone, Copy, PartialEq, Eq, Structural, Debug)]
pub enum EngineError {
    /// A frame dimension of zero was passed.
    InvalidDimension,
}

/// The spec-level outcome of a DDA traversal.
pub ghost struct HitSpec {
    pub x: int,
    pub y: int,
    pub side_y: bool,
    pub perp: Option<int>,
}

/// A crossing distance seen as a mathematical value.
pub open spec fn dist_view(d: Option<u64>) -> Option<int> {
    match d {
        Some(v) => Some(v as int),
        None => None,
    }
}

/// Whether the next grid-line crossing on the x axis comes strictly before
/// the one on the y axis: an infinite distance loses every comparison, and
/// a tie falls to the y axis.
pub open spec fn x_before_y(sdx: Option<int>, sdy: Option<int>) -> bool {
    match (sdx, sdy) {
        (Some(a), Some(b)) => a < b,
        (Some(_), None) => true,
        (None, _) => false,
    }
}

/// Number of cells left between index `i` and the last index of its axis
/// in the travel direction: the DDA can take at most this many steps on
/// that axis before leaving the grid.
pub open spec fn axis_budget(i: int, neg: bool, n: int) -> int {
    if neg {
        if i >= 0 {
            i
        } else {
            0
        }
    } else {
        if i <= n - 1 {
            n - 1 - i
        } else {
            0
        }
    }
}

/// Steps the traversal can still take before leaving the grid.
pub open spec fn dda_budget(g: Seq<Seq<u8>>, mx: int, my: int, sxn: bool, syn: bool) -> int {
    axis_budget(mx, sxn, g[0].len() as int) + axis_budget(my, syn, g.len() as int)
}

/// One accumulated crossing distance advanced by its per-cell distance.
pub open spec fn dist_step(sd: Option<int>, dd: Option<int>) -> Option<int> {
    match (sd, dd) {
        (Some(a), Some(d)) => Some(a + d),
        _ => sd,
    }
}

/// The DDA traversal from cell `(mx, my)`: advance one cell along
/// whichever axis has the smaller accumulated crossing distance (adding
/// that axis's per-cell distance), and stop on the first nonzero tile.
/// The perpendicular distance of the hit is the stepped axis's distance
/// before its final increment, which removes the one-step overshoot.
pub open spec fn dda_from(
    g: Seq<Seq<u8>>,
    mx: int,
    my: int,
    sxn: bool,
    syn: bool,
    sdx: Option<int>,
    sdy: Option<int>,
    ddx: Option<int>,
    ddy: Option<int>,
) -> HitSpec
    decreases dda_budget(g, mx, my, sxn, syn),
{
    if x_before_y(sdx, sdy) {
        let nx = if sxn {
            mx - 1
        } else {
            mx + 1
        };
        if !(0 <= nx < g[0].len() && 0 <= my < g.len()) {
            HitSpec { x: nx, y: my, side_y: false, perp: sdx }
        } else if g[my][nx] != 0 {
            HitSpec { x: nx, y: my, side_y: false, perp: sdx }
        } else {
            dda_from(g, nx, my, sxn, syn, dist_step(sdx, ddx), sdy, ddx, ddy)
        }
    } else {
        let ny = if syn {
            my - 1
        } else {
            my + 1
        };
        if !(0 <= mx < g[0].len() && 0 <= ny < g.len()) {
            HitSpec { x: mx, y: ny, side_y: true, perp: sdy }
        } else if g[ny][mx] != 0 {
            HitSpec { x: mx, y: ny, side_y: true, perp: sdy }
        } else {
            dda_from(g, mx, ny, sxn, syn, sdx, dist_step(sdy, ddy), ddx, ddy)
        }
    }
}

/// Fixed-point distance the ray travels between two successive grid-line
/// crossings on one axis, `|1 / rd|` world units: infinite (`None`) when
/// the ray is parallel to those lines.
pub open spec fn delta_of(rd: int) -> Option<int> {
    if rd == 0 {
        None
    } else if rd > 0 {
        Some((SCALE * SCALE) as int / rd)
    } else {
        Some((SCALE * SCALE) as int / (-rd))
    }
}

/// Initial crossing distance on one axis: the fraction of a cell from the
/// camera to the first grid line in the travel direction, times the
/// per-cell crossing distance.
pub open spec fn side_init_of(rd: int, posc: int, mapc: int) -> Option<int> {
    match delta_of(rd) {
        None => None,
        Some(d) => if rd < 0 {
            Some((posc - mapc * SCALE) * d / (SCALE as int))
        } else {
            Some(((mapc + 1) * SCALE - posc) * d / (SCALE as int))
        },
    }
}

/// Fixed-point offset across the camera plane for column `x` of a
/// `w`-column frame: `2*x/w - 1`, sweeping from one edge of the plane at
/// column 0 toward the other.
pub open spec fn camera_offset(x: int, w: int) -> int {
    (2 * x * SCALE) as int / w - SCALE
}

/// Screen rows `(y_top, y_bottom)` of the wall slice for an `h`-row frame
/// and a perpendicular distance `perp`: the slice is `h / perp` rows tall,
/// centered on the horizon, and clamped to the screen. A distance of zero
/// fills the whole column; an infinite distance leaves a slice of no
/// height at the horizon.
pub open spec fn project_spec(h: int, perp: Option<int>) -> (int, int) {
    match perp {
        None => (h / 2, h / 2),
        Some(p) => if p == 0 {
            (0, h - 1)
        } else {
            let lh = (h * SCALE * SCALE) as int / p;
            let half_h = (h * SCALE) as int / 2;
            let half_lh = lh / 2;
            let top_fp = if half_lh >= half_h {
                0
            } else {
                half_h - half_lh
            };
            let sum = half_h + half_lh;
            let bot_fp = if sum > (h - 1) * SCALE {
                (h - 1) * SCALE
            } else {
                sum
            };
            (top_fp / (SCALE as int), bot_fp / (SCALE as int))
        },
    }
}

proof fn lemma_project_arith(h: u64, s: u64)
    by (nonlinear_arith)
    requires
        1 <= h <= 0xffff,
        s == 65536,
    ensures
        s <= h * s <= 0xffff_0000,
        h * s * s <= 0xffff_0000_0000_0000,
        (h - 1) * s == h * s - s,
        s * 0x1_0000 == 0x1_0000_0000,
        2 * (h * s / 2) == h * s,
        h >= 2 ==> h * s / 2 <= (h - 1) * s,
{
}

/// Projects a perpendicular wall distance to the rows of its wall slice.
/// Saturates rather than overflows: any distance of at most one world
/// unit — zero included — yields a slice that fills the column exactly,
/// `y_top == 0` and `y_bottom == h - 1`.
pub fn project(h: u16, perp: Option<u64>) -> (r: (u16, u16))
    requires
        1 <= h,
    ensures
        r.0 == project_spec(h as int, dist_view(perp)).0,
        r.1 == project_spec(h as int, dist_view(perp)).1,
        perp matches Some(p) && p <= SCALE ==> r.0 == 0 && r.1 == h - 1,
        r.0 <= r.1 < h,
{
    match perp {
        None => {
            let mid = h / 2;
            (mid, mid)
        },
        Some(p) => {
            if p == 0 {
                (0, h - 1)
            } else {
                proof {
                    lemma_project_arith(h as u64, SCALE as u64);
                }
                let lh: u64 = (h as u64) * (SCALE as u64) * (SCALE as u64) / p;
                proof {
                    vstd::arithmetic::div_mod::lemma_div_by_multiple(
                        ((h as u64) * (SCALE as u64)) as int,
                        (SCALE as u64) as int,
                    );
                    if p <= SCALE as u64 {
                        vstd::arithmetic::div_mod::lemma_div_is_ordered_by_denominator(
                            ((h as u64) * (SCALE as u64) * (SCALE as u64)) as int,
                            p as int,
                            (SCALE as u64) as int,
                        );
                    }
                }
                let half_h: u64 = (h as u64) * (SCALE as u64) / 2;
                let half_lh: u64 = lh / 2;
                proof {
                    if p <= SCALE as u64 {
                        vstd::arithmetic::div_mod::lemma_div_is_ordered(
                            ((h as u64) * (SCALE as u64)) as int,
                            lh as int,
                            2,
                        );
                    }
                }
                let top_fp: u64 = if half_lh >= half_h {
                    0
                } else {
                    half_h - half_lh
                };
                let max_fp: u64 = ((h - 1) as u64) * (SCALE as u64);
                proof {
                    assert(((h - 1) as u64) * (SCALE as u64) == (h as u64) * (SCALE as u64) - (
                    SCALE as u64)) by (nonlinear_arith)
                        requires
                            1 <= h,
                    ;
                }
                let sum: u64 = half_h + half_lh;
                let bot_fp: u64 = if sum > max_fp {
                    max_fp
                } else {
                    sum
                };
                proof {
                    vstd::arithmetic::div_mod::lemma_multiply_divide_lt(
                        top_fp as int,
                        (SCALE as u64) as int,
                        0x1_0000,
                    );
                    vstd::arithmetic::div_mod::lemma_multiply_divide_lt(
                        bot_fp as int,
                        (SCALE as u64) as int,
                        0x1_0000,
                    );
                    vstd::arithmetic::div_mod::lemma_div_by_multiple(
                        ((h - 1) as u64) as int,
                        (SCALE as u64) as int,
                    );
                    vstd::arithmetic::div_mod::lemma_div_is_ordered(
                        bot_fp as int,
                        (((h - 1) as u64) * (SCALE as u64)) as int,
                        (SCALE as u64) as int,
                    );
                    if top_fp <= bot_fp {
                        vstd::arithmetic::div_mod::lemma_div_is_ordered(
                            top_fp as int,
                            bot_fp as int,
                            (SCALE as u64) as int,
                        );
                    } else {
                        vstd::arithmetic::div_mod::lemma_basic_div(
                            top_fp as int,
                            (SCALE as u64) as int,
                        );
                    }
                }
                ((top_fp / (SCALE as u64)) as u16, (bot_fp / (SCALE as u64)) as u16)
            }
        },
    }
}

proof fn lemma_dda_axis_west(
    g: Seq<Seq<u8>>,
    mx: int,
    my: int,
    wx: int,
    s0: int,
    d: int,
    syn: bool,
)
    requires
        0 <= my < g.len(),
        0 <= wx < mx < g[0].len(),
        g[my][wx] != 0,
        forall|j: int| wx < j < mx ==> g[my][j] == 0,
    ensures
        dda_from(g, mx, my, true, syn, Some(s0), None, Some(d), None) == (HitSpec {
            x: wx,
            y: my,
            side_y: false,
            perp: Some(s0 + (mx - 1 - wx) * d),
        }),
    decreases mx - wx,
{
    let nx = mx - 1;
    if nx == wx {
        assert((mx - 1 - wx) * d == 0) by (nonlinear_arith)
            requires
                mx - 1 - wx == 0,
        ;
    } else {
        assert(g[my][nx] == 0);
        lemma_dda_axis_west(g, nx, my, wx, s0 + d, d, syn);
        assert((s0 + d) + (nx - 1 - wx) * d == s0 + (mx - 1 - wx) * d) by (nonlinear_arith)
            requires
                nx == mx - 1,
        ;
    }
}

/// The raycasting engine: the tile map and the camera.
///
/// `dir` is the facing direction; `plane` spans the projection plane, and
/// its magnitude sets the field of view. The camera transform rotates the
/// two together, so they keep their relative angle.
pub struct RayCasting {
    /// The tile map.
    pub world: GridMap,
    /// Camera position, in fixed-point world coordinates.
    pub pos: Vector2,
    /// Facing direction.
    pub dir: Vector2,
    /// Projection plane offset.
    pub plane: Vector2,
}

impl RayCasting {
    /// Well-formedness for casting: the map is enclosed by a nonzero
    /// border, the camera stands strictly inside the border ring, and the
    /// direction and plane are small enough for exact arithmetic.
    pub open spec fn wf(&self) -> bool {
        &&& grid_wf(self.world@)
        &&& SCALE <= self.pos.x < (self.world@[0].len() - 1) * SCALE
        &&& SCALE <= self.pos.y < (self.world@.len() - 1) * SCALE
        &&& -COORD_LIMIT <= self.dir.x <= COORD_LIMIT
        &&& -COORD_LIMIT <= self.dir.y <= COORD_LIMIT
        &&& -COORD_LIMIT <= self.plane.x <= COORD_LIMIT
        &&& -COORD_LIMIT <= self.plane.y <= COORD_LIMIT
    }

    /// x component of the ray direction for column `x` of a `w`-column
    /// frame: the facing direction plus the plane scaled by the column's
    /// offset.
    pub open spec fn ray_dir_x(self, x: int, w: int) -> int {
        self.dir.x + div_trunc(self.plane.x * camera_offset(x, w), SCALE as int)
    }

    /// y component of the ray direction.
    pub open spec fn ray_dir_y(self, x: int, w: int) -> int {
        self.dir.y + div_trunc(self.plane.y * camera_offset(x, w), SCALE as int)
    }

    /// Map column the camera stands in.
    pub open spec fn start_cell_x(self) -> int {
        self.pos.x as int / (SCALE as int)
    }

    /// Map row the camera stands in.
    pub open spec fn start_cell_y(self) -> int {
        self.pos.y as int / (SCALE as int)
    }

    /// The hit of the ray cast for column `x` of a `w`-column frame: the
    /// full DDA traversal from the camera's cell.
    pub open spec fn cast_spec(self, x: int, w: int) -> HitSpec {
        let rdx = self.ray_dir_x(x, w);
        let rdy = self.ray_dir_y(x, w);
        dda_from(
            self.world@,
            self.start_cell_x(),
            self.start_cell_y(),
            rdx < 0,
            rdy < 0,
            side_init_of(rdx, self.pos.x as int, self.start_cell_x()),
            side_init_of(rdy, self.pos.y as int, self.start_cell_y()),
            delta_of(rdx),
            delta_of(rdy),
        )
    }

    /// Moves the camera `move_factor` world units along its facing
    /// direction and rotates direction and plane together by the angle
    /// whose fixed-point cosine and sine are `(rot_cos, rot_sin)`, using
    /// the pre-rotation values of all components. The coefficients of
    /// angle zero, `(SCALE, 0)`, leave direction and plane exactly
    /// unchanged, and a zero move factor leaves the position exactly
    /// unchanged, so idle frames need no special case. No collision is
    /// detected: walking into or beyond a wall is the caller's policy.
    pub fn transform_cam(&mut self, move_factor: i64, rot_cos: i64, rot_sin: i64)
        requires
            -POS_LIMIT <= old(self).pos.x <= POS_LIMIT,
            -POS_LIMIT <= old(self).pos.y <= POS_LIMIT,
            -COORD_LIMIT <= old(self).dir.x <= COORD_LIMIT,
            -COORD_LIMIT <= old(self).dir.y <= COORD_LIMIT,
            -COORD_LIMIT <= old(self).plane.x <= COORD_LIMIT,
            -COORD_LIMIT <= old(self).plane.y <= COORD_LIMIT,
            -COORD_LIMIT <= move_factor <= COORD_LIMIT,
            -SCALE <= rot_cos <= SCALE,
            -SCALE <= rot_sin <= SCALE,
        ensures
            final(self).world == old(self).world,
            final(self).pos.x == old(self).pos.x + div_trunc(
                old(self).dir.x * move_factor,
                SCALE as int,
            ),
            final(self).pos.y == old(self).pos.y + div_trunc(
                old(self).dir.y * move_factor,
                SCALE as int,
            ),
            final(self).dir.x == rotate_spec(old(self).dir, rot_cos as int, rot_sin as int).0,
            final(self).dir.y == rotate_spec(old(self).dir, rot_cos as int, rot_sin as int).1,
            final(self).plane.x == rotate_spec(old(self).plane, rot_cos as int, rot_sin as int).0,
            final(self).plane.y == rotate_spec(old(self).plane, rot_cos as int, rot_sin as int).1,
    {
        proof {
            lemma_mul_bounds(
                self.dir.x as int,
                move_factor as int,
                COORD_LIMIT as int,
                COORD_LIMIT as int,
            );
            lemma_mul_bounds(
                self.dir.y as int,
                move_factor as int,
                COORD_LIMIT as int,
                COORD_LIMIT as int,
            );
        }
        let step_x = div_scale(self.dir.x * move_factor);
        let step_y = div_scale(self.dir.y * move_factor);
        self.pos = Vector2 { x: self.pos.x + step_x, y: self.pos.y + step_y };
        self.dir = rotate(self.dir, rot_cos, rot_sin);
        self.plane = rotate(self.plane, rot_cos, rot_sin);
    }

    /// Casts the ray for column `x` of a `w`-column frame: computes the
    /// ray direction, walks the grid with the DDA until the first wall
    /// cell, and returns the hit together with its perpendicular distance.
    pub fn cast_ray(&self, x: u16, w: u16) -> (h: RayHit)
        requires
            self.wf(),
            x < w,
        ensures
            ({
                let hs = self.cast_spec(x as int, w as int);
                &&& h.map_x == hs.x
                &&& h.map_y == hs.y
                &&& h.is_y_side == hs.side_y
                &&& dist_view(h.perp) == hs.perp
                &&& 0 <= hs.x < self.world@[0].len()
                &&& 0 <= hs.y < self.world@.len()
                &&& h.tile_id == self.world@[hs.y][hs.x]
                &&& h.tile_id != 0
            }),
    {
        let ghost g = self.world@;
        let cols = self.world.cols();
        let rows = self.world.rows();

        // Offset across the camera plane for this column.
        let off_num: u64 = 2 * (x as u64) * (SCALE as u64);
        let off_div: u64 = off_num / (w as u64);
        proof {
            vstd::arithmetic::div_mod::lemma_multiply_divide_lt(
                off_num as int,
                w as int,
                2 * SCALE as int,
            );
        }
        let off: i64 = (off_div as i64) - SCALE;
        assert(off == camera_offset(x as int, w as int));

        // Ray direction: facing direction plus the scaled plane offset.
        proof {
            lemma_mul_bounds(self.plane.x as int, off as int, COORD_LIMIT as int, SCALE as int);
            lemma_mul_bounds(self.plane.y as int, off as int, COORD_LIMIT as int, SCALE as int);
        }
        let rdx: i64 = self.dir.x + div_scale(self.plane.x * off);
        let rdy: i64 = self.dir.y + div_scale(self.plane.y * off);
        assert(rdx == self.ray_dir_x(x as int, w as int));
        assert(rdy == self.ray_dir_y(x as int, w as int));

        // Cell the camera stands in.
        let mx0: usize = ((self.pos.x as u64) / (SCALE as u64)) as usize;
        let my0: usize = ((self.pos.y as u64) / (SCALE as u64)) as usize;
        assert(mx0 == self.start_cell_x());
        assert(my0 == self.start_cell_y());
        assert(1 <= mx0 && mx0 + 1 < cols);
        assert(1 <= my0 && my0 + 1 < rows);

        // Per-cell crossing distances, infinite for an axis the ray never
        // crosses.
        let s2: u64 = (SCALE as u64) * (SCALE as u64);
        let ddx: Option<u64> = if rdx == 0 {
            None
        } else {
            let a: u64 = if rdx < 0 {
                (-rdx) as u64
            } else {
                rdx as u64
            };
            proof {
                vstd::arithmetic::div_mod::lemma_div_nonincreasing(s2 as int, a as int);
            }
            Some(s2 / a)
        };
        let ddy: Option<u64> = if rdy == 0 {
            None
        } else {
            let a: u64 = if rdy < 0 {
                (-rdy) as u64
            } else {
                rdy as u64
            };
            proof {
                vstd::arithmetic::div_mod::lemma_div_nonincreasing(s2 as int, a as int);
            }
            Some(s2 / a)
        };
        assert(dist_view(ddx) == delta_of(rdx as int));
        assert(dist_view(ddy) == delta_of(rdy as int));

        // Initial crossing distances: distance to the first grid line in
        // the travel direction, scaled by the per-cell distance.
        let step_x_neg = rdx < 0;
        let step_y_neg = rdy < 0;
        let sdx0: Option<u64> = match ddx {
            None => None,
            Some(d) => {
                let frac: u64 = if step_x_neg {
                    (self.pos.x as u64) - (mx0 as u64) * (SCALE as u64)
                } else {
                    ((mx0 as u64) + 1) * (SCALE as u64) - (self.pos.x as u64)
                };
                proof {
                    lemma_mul_bounds(frac as int, d as int, SCALE as int, DELTA_MAX as int);
                }
                Some(frac * d / (SCALE as u64))
            },
        };
        let sdy0: Option<u64> = match ddy {
            None => None,
            Some(d) => {
                let frac: u64 = if step_y_neg {
                    (self.pos.y as u64) - (my0 as u64) * (SCALE as u64)
                } else {
                    ((my0 as u64) + 1) * (SCALE as u64) - (self.pos.y as u64)
                };
                proof {
                    lemma_mul_bounds(frac as int, d as int, SCALE as int, DELTA_MAX as int);
                }
                Some(frac * d / (SCALE as u64))
            },
        };
        assert(dist_view(sdx0) == side_init_of(rdx as int, self.pos.x as int, mx0 as int));
        assert(dist_view(sdy0) == side_init_of(rdy as int, self.pos.y as int, my0 as int));

        let ghost hs = self.cast_spec(x as int, w as int);
        let ghost b0 = dda_budget(g, mx0 as int, my0 as int, step_x_neg, step_y_neg);

        let mut mx = mx0;
        let mut my = my0;
        let mut csdx = sdx0;
        let mut csdy = sdy0;
        let mut is_y_side: bool = false;
        let mut perp: Option<u64> = None;
        let mut tile: u8 = 0;

        while tile == 0
            invariant
                g == self.world@,
                grid_wf(g),
                cols == g[0].len(),
                rows == g.len(),
                0 <= b0 <= 2 * MAX_DIM,
                csdx is Some <==> ddx is Some,
                csdy is Some <==> ddy is Some,
                ddx matches Some(d) ==> d <= DELTA_MAX,
                ddy matches Some(d) ==> d <= DELTA_MAX,
                0 <= dda_budget(g, mx as int, my as int, step_x_neg, step_y_neg) <= b0,
                csdx matches Some(v) ==> v <= DELTA_MAX * (1 + b0 - dda_budget(
                    g,
                    mx as int,
                    my as int,
                    step_x_neg,
                    step_y_neg,
                )),
                csdy matches Some(v) ==> v <= DELTA_MAX * (1 + b0 - dda_budget(
                    g,
                    mx as int,
                    my as int,
                    step_x_neg,
                    step_y_neg,
                )),
                tile == 0 ==> 1 <= mx && mx + 1 < cols && 1 <= my && my + 1 < rows && dda_from(
                    g,
                    mx as int,
                    my as int,
                    step_x_neg,
                    step_y_neg,
                    dist_view(csdx),
                    dist_view(csdy),
                    dist_view(ddx),
                    dist_view(ddy),
                ) == hs,
                tile != 0 ==> mx < cols && my < rows && tile == g[my as int][mx as int] && hs == (
                HitSpec { x: mx as int, y: my as int, side_y: is_y_side, perp: dist_view(perp) }),
            decreases dda_budget(g, mx as int, my as int, step_x_neg, step_y_neg),
        {
            let ghost omx = mx as int;
            let ghost omy = my as int;
            let ghost osdx = csdx;
            let ghost osdy = csdy;
            let go_x: bool = match (csdx, csdy) {
                (Some(a), Some(b)) => a < b,
                (Some(_), None) => true,
                (None, _) => false,
            };
            if go_x {
                let a = csdx.unwrap();
                let d = ddx.unwrap();
                perp = Some(a);
                csdx = Some(a + d);
                mx = if step_x_neg {
                    mx - 1
                } else {
                    mx + 1
                };
                is_y_side = false;
            } else {
                match (csdy, ddy) {
                    (Some(a), Some(d)) => {
                        perp = Some(a);
                        csdy = Some(a + d);
                    },
                    _ => {
                        perp = None;
                    },
                }
                my = if step_y_neg {
                    my - 1
                } else {
                    my + 1
                };
                is_y_side = true;
            }
            proof {
                assert(g[my as int].len() == cols);
            }
            tile = self.world.tile(mx, my);
            proof {
                assert(dda_from(
                    g,
                    omx,
                    omy,
                    step_x_neg,
                    step_y_neg,
                    dist_view(osdx),
                    dist_view(osdy),
                    dist_view(ddx),
                    dist_view(ddy),
                ) == if tile != 0 {
                    HitSpec { x: mx as int, y: my as int, side_y: is_y_side, perp: dist_view(perp) }
                } else {
                    dda_from(
                        g,
                        mx as int,
                        my as int,
                        step_x_neg,
                        step_y_neg,
                        dist_view(csdx),
                        dist_view(csdy),
                        dist_view(ddx),
                        dist_view(ddy),
                    )
                });
                if tile == 0 {
                    assert(!(mx == 0 || mx + 1 == cols || my == 0 || my + 1 == rows));
                }
            }
        }
        RayHit { map_x: mx, map_y: my, tile_id: tile, is_y_side, perp }
    }

    /// What the segment emitted for column `i` of a `w` by `h` frame must
    /// hold: the projected extent of the hit of that column's ray.
    pub open spec fn column_segment_ok(self, s: Segment, i: int, w: int, h: int) -> bool {
        let hit = self.cast_spec(i, w);
        let pr = project_spec(h, hit.perp);
        &&& s.column == i
        &&& s.y_top == pr.0
        &&& s.y_bottom == pr.1
        &&& s.tile_id == self.world@[hit.y][hit.x]
        &&& s.tile_id != 0
        &&& s.is_y_side == hit.side_y
    }

    /// Casts one ray per screen column and returns the wall slice of each,
    /// in increasing column order. A frame dimension of zero is rejected;
    /// any positive dimensions yield exactly one segment per column, and
    /// every segment's tile comes from a map cell inside the grid.
    pub fn lines(&self, w: u16, h: u16) -> (r: Result<Vec<Segment>, EngineError>)
        requires
            self.wf(),
        ensures
            r is Ok <==> (w > 0 && h > 0),
            r is Err ==> r->Err_0 == EngineError::InvalidDimension,
            r matches Ok(segs) ==> segs@.len() == w as int && forall|i: int|
                0 <= i < w as int ==> self.column_segment_ok(
                    #[trigger] segs@[i],
                    i,
                    w as int,
                    h as int,
                ),
    {
        if w == 0 || h == 0 {
            return Err(EngineError::InvalidDimension);
        }
        let mut segs: Vec<Segment> = Vec::new();
        let mut x: u16 = 0;
        while x < w
            invariant
                self.wf(),
                0 <= x <= w,
                1 <= h,
                1 <= w,
                segs@.len() == x as int,
                forall|i: int|
                    0 <= i < x as int ==> self.column_segment_ok(
                        #[trigger] segs@[i],
                        i,
                        w as int,
                        h as int,
                    ),
            decreases w - x,
        {
            let hit = self.cast_ray(x, w);
            let (top, bottom) = project(h, hit.perp);
            segs.push(
                Segment {
                    column: x,
                    y_top: top,
                    y_bottom: bottom,
                    tile_id: hit.tile_id,
                    is_y_side: hit.is_y_side,
                },
            );
            x = x + 1;
        }
        Ok(segs)
    }

    /// An axis-aligned cast is exact. With a zero-width plane and the
    /// facing direction exactly one world unit along negative x, the ray
    /// of a single-column frame marches straight west along the camera's
    /// row, hits the nearest wall of that row on an x side, and its
    /// perpendicular distance is exactly the fixed-point distance from
    /// the camera to that wall's near face — a whole number of world
    /// units whenever the camera stands on a cell boundary, as at the
    /// center of a room with evenly many columns.
    pub proof fn lemma_axis_aligned_cast(self, wx: int)
        requires
            self.wf(),
            self.dir.x == -SCALE,
            self.dir.y == 0,
            self.plane.x == 0,
            self.plane.y == 0,
            0 <= wx < self.start_cell_x(),
            self.world@[self.start_cell_y()][wx] != 0,
            forall|j: int|
                wx < j < self.start_cell_x() ==> self.world@[self.start_cell_y()][j] == 0,
        ensures
            self.cast_spec(0, 1) == (HitSpec {
                x: wx,
                y: self.start_cell_y(),
                side_y: false,
                perp: Some(self.pos.x - (wx + 1) * SCALE),
            }),
    {
        let g = self.world@;
        let mx = self.start_cell_x();
        let my = self.start_cell_y();
        let s = SCALE as int;

        // The one column of a one-column frame points at the left edge of
        // the plane, and a zero plane leaves the ray on the facing
        // direction.
        assert(camera_offset(0, 1) == -SCALE);
        vstd::arithmetic::div_mod::lemma_div_of0(s);
        assert(self.ray_dir_x(0, 1) == -SCALE);
        assert(self.ray_dir_y(0, 1) == 0);

        // One fixed-point unit of travel per cell crossed.
        vstd::arithmetic::div_mod::lemma_div_by_multiple(s, s);
        assert(delta_of(-s) == Some(s));

        // The camera's offset within its cell is exactly the initial
        // crossing distance.
        vstd::arithmetic::div_mod::lemma_fundamental_div_mod(self.pos.x as int, s);
        vstd::arithmetic::div_mod::lemma_mod_division_less_than_divisor(self.pos.x as int, s);
        let rem = self.pos.x - mx * SCALE;
        assert(0 <= rem < s);
        vstd::arithmetic::div_mod::lemma_div_by_multiple(rem, s);
        assert(side_init_of(-s, self.pos.x as int, mx) == Some(rem));

        // Camera cell bounds, from well-formedness.
        assert(1 <= mx && mx + 1 < g[0].len());
        assert(1 <= my && my + 1 < g.len());

        lemma_dda_axis_west(g, mx, my, wx, rem, s, false);
        assert(rem + (mx - 1 - wx) * s == self.pos.x - (wx + 1) * s) by (nonlinear_arith)
            requires
                rem == self.pos.x - mx * SCALE && s == SCALE,
        ;
    }
}

} // verus!
