//! The 2D view transform: pan, zoom, rotation, and the conversion between
//! screen and world coordinates.
//!
//! The view maps a world point `w` to normalized device coordinates by
//! scale ∘ rotation ∘ translation(-position): the translation is applied
//! first, then the rotation, then the zoom scale. Screen coordinates map to
//! normalized device coordinates with the y axis flipped (screen-down is
//! device-up).

use vstd::prelude::*;
use vstd::arithmetic::div_mod::lemma_fundamental_div_mod_converse;
use crate::fx::{
    abs_spec, clamp_spec, clamp_i64, div_trunc, div_trunc_spec, lemma_div_trunc_bound, lemma_div_trunc_le,
    lemma_div_trunc_exact, lemma_div_trunc_neg, lemma_div_trunc_of_multiple, lemma_mul_abs_bound,
    Fx2, FX_ONE, GEOM_LIMIT,
};
use crate::angle::{
    cos_fx, cos_fx_spec, norm_angle, norm_angle_spec, sin_fx, sin_fx_spec, lemma_trig_at_zero,
    TAU_URAD,
};

verus! {

/// Smallest zoom: 0.1.
pub const ZOOM_MIN: i64 = 1_000;

/// Largest zoom: 10.0.
pub const ZOOM_MAX: i64 = 100_000;

/// Largest magnitude accepted for a world point handed to the transforms:
/// 200,000 units.
pub const WORLD_LIMIT: i64 = 2_000_000_000;

/// Largest screen dimension accepted: 10,000 units.
pub const SCREEN_SIZE_LIMIT: i64 = 100_000_000;

/// Largest magnitude accepted for a screen point: 100,000 units.
pub const SCREEN_POS_LIMIT: i64 = 1_000_000_000;

/// Largest magnitude accepted for a pan delta.
pub const PAN_LIMIT: i64 = 100_000_000_000_000;

/// Largest magnitude accepted for a zoom factor: 100,000,000.0.
pub const FACTOR_LIMIT: i64 = 1_000_000_000_000;

/// The camera: position of the view in world units, zoom scale, and
/// rotation. Zoom is always within `[ZOOM_MIN, ZOOM_MAX]` and rotation is
/// always normalized into `[0, TAU_URAD)`.
#[derive(Clone, Copy, PartialEq, Eq, Structural, Debug)]
pub struct Camera {
    pub position: Fx2,
    pub zoom: i64,
    pub rotation: i64,
}

/// The affine view transform, row-major: `m00 m01 tx / m10 m11 ty`, every
/// entry a fixed-point scalar.
#[derive(Clone, Copy, PartialEq, Eq, Structural, Debug)]
pub struct ViewMatrix {
    pub m00: i64,
    pub m01: i64,
    pub m10: i64,
    pub m11: i64,
    pub tx: i64,
    pub ty: i64,
}

/// Saturate a coordinate at the canvas's addressable extent.
pub open spec fn sat_coord_spec(v: int) -> int {
    clamp_spec(v, -GEOM_LIMIT as int, GEOM_LIMIT as int)
}

impl Camera {
    /// The camera's invariant: zoom clamped, rotation normalized, position
    /// within the addressable extent.
    pub open spec fn wf(self) -> bool {
        &&& ZOOM_MIN <= self.zoom <= ZOOM_MAX
        &&& 0 <= self.rotation < TAU_URAD
        &&& self.position.bounded(GEOM_LIMIT as int)
    }

    /// Build a camera from raw values, clamping and normalizing them so the
    /// invariant holds.
    pub fn new(position: Fx2, zoom: i64, rotation: i64) -> (r: Camera)
        requires
            rotation != i64::MIN,
        ensures
            r.position.x == sat_coord_spec(position.x as int),
            r.position.y == sat_coord_spec(position.y as int),
            r.zoom == clamp_spec(zoom as int, ZOOM_MIN as int, ZOOM_MAX as int),
            r.rotation == norm_angle_spec(rotation as int),
            r.wf(),
    {
        Camera {
            position: Fx2 {
                x: clamp_i64(position.x, -GEOM_LIMIT, GEOM_LIMIT),
                y: clamp_i64(position.y, -GEOM_LIMIT, GEOM_LIMIT),
            },
            zoom: clamp_i64(zoom, ZOOM_MIN, ZOOM_MAX),
            rotation: norm_angle(rotation),
        }
    }

    /// Where panning by `delta` leaves the position: the position moves
    /// opposite the drag, scaled by the reciprocal of the zoom, and
    /// saturates at the canvas extent.
    pub open spec fn pan_pos_spec(self, delta: Fx2) -> (int, int) {
        let dx = div_trunc_spec(delta.x * FX_ONE, self.zoom as int);
        let dy = div_trunc_spec(delta.y * FX_ONE, self.zoom as int);
        (sat_coord_spec(self.position.x - dx), sat_coord_spec(self.position.y - dy))
    }

    /// Pan the view: `position -= delta / zoom`, so pan speed is
    /// zoom-invariant in screen terms.
    pub fn pan(&mut self, delta: Fx2)
        requires
            old(self).wf(),
            delta.bounded(PAN_LIMIT as int),
        ensures
            (final(self).position.x as int, final(self).position.y as int) == old(
                self,
            ).pan_pos_spec(delta),
            final(self).zoom == old(self).zoom,
            final(self).rotation == old(self).rotation,
            final(self).wf(),
    {
        proof {
            lemma_div_trunc_bound(delta.x * FX_ONE, self.zoom as int, PAN_LIMIT as int * FX_ONE);
            lemma_div_trunc_bound(delta.y * FX_ONE, self.zoom as int, PAN_LIMIT as int * FX_ONE);
        }
        let dx = div_trunc(delta.x * FX_ONE, self.zoom);
        let dy = div_trunc(delta.y * FX_ONE, self.zoom);
        self.position.x = clamp_i64(self.position.x - dx, -GEOM_LIMIT, GEOM_LIMIT);
        self.position.y = clamp_i64(self.position.y - dy, -GEOM_LIMIT, GEOM_LIMIT);
    }

    /// The zoom that `zoom_at` establishes: the product clamped into
    /// `[ZOOM_MIN, ZOOM_MAX]`, whatever the requested factor.
    pub open spec fn zoom_at_zoom_spec(self, factor: int) -> int {
        clamp_spec(
            div_trunc_spec(self.zoom * factor, FX_ONE as int),
            ZOOM_MIN as int,
            ZOOM_MAX as int,
        )
    }

    /// The position shift that `zoom_at` applies:
    /// `target * (1/old_zoom - 1/new_zoom)`, using the clamped new zoom.
    pub open spec fn zoom_at_shift_spec(self, factor: int, target: Fx2) -> (int, int) {
        let zn = self.zoom_at_zoom_spec(factor);
        let inv_old = div_trunc_spec(FX_ONE as int * FX_ONE, self.zoom as int);
        let inv_new = div_trunc_spec(FX_ONE as int * FX_ONE, zn);
        (
            div_trunc_spec(target.x * (inv_old - inv_new), FX_ONE as int),
            div_trunc_spec(target.y * (inv_old - inv_new), FX_ONE as int),
        )
    }

    /// Where `zoom_at` leaves the position: the shift applied, saturating
    /// at the canvas extent.
    pub open spec fn zoom_at_pos_spec(self, factor: int, target: Fx2) -> (int, int) {
        let (dx, dy) = self.zoom_at_shift_spec(factor, target);
        (sat_coord_spec(self.position.x + dx), sat_coord_spec(self.position.y + dy))
    }

    /// Zoom by `factor` keeping the world point `target` visually fixed.
    /// The zoom is clamped; the position adjustment uses the clamped zoom,
    /// so at the clamp boundary further zooming becomes a no-op.
    pub fn zoom_at(&mut self, factor: i64, target: Fx2)
        requires
            old(self).wf(),
            abs_spec(factor as int) <= FACTOR_LIMIT,
            target.bounded(GEOM_LIMIT as int),
        ensures
            final(self).zoom == old(self).zoom_at_zoom_spec(factor as int),
            ZOOM_MIN <= final(self).zoom <= ZOOM_MAX,
            (final(self).position.x as int, final(self).position.y as int) == old(
                self,
            ).zoom_at_pos_spec(factor as int, target),
            final(self).rotation == old(self).rotation,
            final(self).wf(),
    {
        proof {
            lemma_mul_abs_bound(
                self.zoom as int,
                factor as int,
                ZOOM_MAX as int,
                FACTOR_LIMIT as int,
            );
            lemma_div_trunc_bound(
                self.zoom * factor,
                FX_ONE as int,
                ZOOM_MAX as int * FACTOR_LIMIT,
            );
        }
        let old_zoom = self.zoom;
        let scaled = div_trunc(self.zoom * factor, FX_ONE);
        let new_zoom = clamp_i64(scaled, ZOOM_MIN, ZOOM_MAX);
        self.zoom = new_zoom;
        proof {
            lemma_div_trunc_bound(
                FX_ONE as int * FX_ONE,
                old_zoom as int,
                FX_ONE as int * FX_ONE,
            );
            lemma_div_trunc_bound(
                FX_ONE as int * FX_ONE,
                new_zoom as int,
                FX_ONE as int * FX_ONE,
            );
        }
        let inv_old = div_trunc(FX_ONE * FX_ONE, old_zoom);
        let inv_new = div_trunc(FX_ONE * FX_ONE, new_zoom);
        let zd = inv_old - inv_new;
        proof {
            lemma_mul_abs_bound(
                target.x as int,
                zd as int,
                GEOM_LIMIT as int,
                2 * FX_ONE as int * FX_ONE,
            );
            lemma_mul_abs_bound(
                target.y as int,
                zd as int,
                GEOM_LIMIT as int,
                2 * FX_ONE as int * FX_ONE,
            );
            lemma_div_trunc_bound(
                target.x * zd,
                FX_ONE as int,
                GEOM_LIMIT as int * (2 * FX_ONE as int * FX_ONE),
            );
            lemma_div_trunc_bound(
                target.y * zd,
                FX_ONE as int,
                GEOM_LIMIT as int * (2 * FX_ONE as int * FX_ONE),
            );
        }
        let dx = div_trunc(target.x * zd, FX_ONE);
        let dy = div_trunc(target.y * zd, FX_ONE);
        self.position.x = clamp_i64(self.position.x + dx, -GEOM_LIMIT, GEOM_LIMIT);
        self.position.y = clamp_i64(self.position.y + dy, -GEOM_LIMIT, GEOM_LIMIT);
    }

    /// Add `angle` to the rotation and normalize into `[0, TAU_URAD)`; the
    /// result is never negative, however large or negative the argument.
    pub fn rotate(&mut self, angle: i64)
        requires
            old(self).wf(),
            angle != i64::MIN,
        ensures
            final(self).rotation == norm_angle_spec(old(self).rotation + angle),
            0 <= final(self).rotation < TAU_URAD,
            final(self).position == old(self).position,
            final(self).zoom == old(self).zoom,
            final(self).wf(),
    {
        let na = norm_angle(angle);
        let s = self.rotation + na;
        let r = if s >= TAU_URAD {
            s - TAU_URAD
        } else {
            s
        };
        proof {
            let t = TAU_URAD as int;
            let rot = self.rotation as int;
            vstd::arithmetic::div_mod::lemma_add_mod_noop(rot, angle as int, t);
            lemma_fundamental_div_mod_converse(rot, t, 0, rot);
            if s >= TAU_URAD {
                lemma_fundamental_div_mod_converse(s as int, t, 1, s - t);
            } else {
                lemma_fundamental_div_mod_converse(s as int, t, 0, s as int);
            }
        }
        self.rotation = r;
    }

    /// The entries of the affine view transform: the linear part scales by
    /// the zoom and rotates, the translation column is that linear part
    /// applied to the negated position — so the composition is
    /// scale ∘ rotation ∘ translation(-position), translation first.
    pub open spec fn view_matrix_spec(self) -> ViewMatrix {
        let fx = FX_ONE as int;
        let c = cos_fx_spec(self.rotation as int);
        let sn = sin_fx_spec(self.rotation as int);
        let m00 = div_trunc_spec(self.zoom * c, fx);
        let m01 = div_trunc_spec(0 - self.zoom * sn, fx);
        let m10 = div_trunc_spec(self.zoom * sn, fx);
        let m11 = div_trunc_spec(self.zoom * c, fx);
        ViewMatrix {
            m00: m00 as i64,
            m01: m01 as i64,
            m10: m10 as i64,
            m11: m11 as i64,
            tx: div_trunc_spec(0 - m00 * self.position.x - m01 * self.position.y, fx) as i64,
            ty: div_trunc_spec(0 - m10 * self.position.x - m11 * self.position.y, fx) as i64,
        }
    }

    /// The view transform as an affine matrix, for a front end that renders
    /// with one: scale ∘ rotation ∘ translation(-position). This ordering
    /// is what makes the rotation pivot at the camera position.
    pub fn view_matrix(&self) -> (r: ViewMatrix)
        requires
            self.wf(),
        ensures
            r == self.view_matrix_spec(),
    {
        let c = cos_fx(self.rotation);
        let sn = sin_fx(self.rotation);
        proof {
            lemma_mul_abs_bound(self.zoom as int, c as int, ZOOM_MAX as int, FX_ONE as int);
            lemma_mul_abs_bound(self.zoom as int, sn as int, ZOOM_MAX as int, FX_ONE as int);
            lemma_div_trunc_le(self.zoom as int * c, FX_ONE as int, 100_000);
            lemma_div_trunc_le(0 - self.zoom as int * sn, FX_ONE as int, 100_000);
            lemma_div_trunc_le(self.zoom as int * sn, FX_ONE as int, 100_000);
        }
        let m00 = div_trunc(self.zoom * c, FX_ONE);
        let m01 = div_trunc(0 - self.zoom * sn, FX_ONE);
        let m10 = div_trunc(self.zoom * sn, FX_ONE);
        let m11 = div_trunc(self.zoom * c, FX_ONE);
        proof {
            lemma_mul_abs_bound(m00 as int, self.position.x as int, 100_000, GEOM_LIMIT as int);
            lemma_mul_abs_bound(m01 as int, self.position.y as int, 100_000, GEOM_LIMIT as int);
            lemma_mul_abs_bound(m10 as int, self.position.x as int, 100_000, GEOM_LIMIT as int);
            lemma_mul_abs_bound(m11 as int, self.position.y as int, 100_000, GEOM_LIMIT as int);
            lemma_div_trunc_bound(
                0 - m00 as int * self.position.x - m01 as int * self.position.y,
                FX_ONE as int,
                200_000_000_000_000,
            );
            lemma_div_trunc_bound(
                0 - m10 as int * self.position.x - m11 as int * self.position.y,
                FX_ONE as int,
                200_000_000_000_000,
            );
        }
        ViewMatrix {
            m00,
            m01,
            m10,
            m11,
            tx: div_trunc(0 - m00 * self.position.x - m01 * self.position.y, FX_ONE),
            ty: div_trunc(0 - m10 * self.position.x - m11 * self.position.y, FX_ONE),
        }
    }

    /// Where screen point `p` lands in world space under this camera, for a
    /// viewport of size `s`: screen to flipped normalized device
    /// coordinates, then the inverse of the view transform.
    pub open spec fn screen_to_world_spec(self, px: int, py: int, sx: int, sy: int) -> (int, int) {
        let fx = FX_ONE as int;
        let nx = div_trunc_spec((2 * px - sx) * fx, sx);
        let ny = div_trunc_spec((sy - 2 * py) * fx, sy);
        let tx = div_trunc_spec(nx * fx, self.zoom as int);
        let ty = div_trunc_spec(ny * fx, self.zoom as int);
        let c = cos_fx_spec(self.rotation as int);
        let sn = sin_fx_spec(self.rotation as int);
        let ux = div_trunc_spec(c * tx + sn * ty, fx);
        let uy = div_trunc_spec(c * ty - sn * tx, fx);
        (ux + self.position.x, uy + self.position.y)
    }

    /// Map a screen point to world coordinates: normalized device
    /// coordinates (y flipped), unscale by zoom, rotate back, translate
    /// back.
    pub fn screen_to_world(&self, screen_pos: Fx2, screen_size: Fx2) -> (r: Fx2)
        requires
            self.wf(),
            screen_pos.bounded(SCREEN_POS_LIMIT as int),
            1 <= screen_size.x <= SCREEN_SIZE_LIMIT,
            1 <= screen_size.y <= SCREEN_SIZE_LIMIT,
        ensures
            (r.x as int, r.y as int) == self.screen_to_world_spec(
                screen_pos.x as int,
                screen_pos.y as int,
                screen_size.x as int,
                screen_size.y as int,
            ),
    {
        let p = screen_pos;
        let s = screen_size;
        proof {
            lemma_div_trunc_bound(
                (2 * p.x - s.x) * FX_ONE,
                s.x as int,
                (2 * SCREEN_POS_LIMIT as int + SCREEN_SIZE_LIMIT) * FX_ONE,
            );
            lemma_div_trunc_bound(
                (s.y - 2 * p.y) * FX_ONE,
                s.y as int,
                (2 * SCREEN_POS_LIMIT as int + SCREEN_SIZE_LIMIT) * FX_ONE,
            );
        }
        let nx = div_trunc((2 * p.x - s.x) * FX_ONE, s.x);
        let ny = div_trunc((s.y - 2 * p.y) * FX_ONE, s.y);
        proof {
            lemma_div_trunc_le(nx * FX_ONE, self.zoom as int, 210_000_000_000_000);
            lemma_div_trunc_le(ny * FX_ONE, self.zoom as int, 210_000_000_000_000);
        }
        let tx = div_trunc(nx * FX_ONE, self.zoom);
        let ty = div_trunc(ny * FX_ONE, self.zoom);
        let c = cos_fx(self.rotation);
        let sn = sin_fx(self.rotation);
        proof {
            let tb: int = 210_000_000_000_000;
            lemma_mul_abs_bound(c as int, tx as int, FX_ONE as int, tb);
            lemma_mul_abs_bound(sn as int, ty as int, FX_ONE as int, tb);
            lemma_mul_abs_bound(sn as int, tx as int, FX_ONE as int, tb);
            lemma_mul_abs_bound(c as int, ty as int, FX_ONE as int, tb);
            lemma_div_trunc_le(c as int * tx + sn as int * ty, FX_ONE as int, 2 * tb);
            lemma_div_trunc_le(c as int * ty - sn as int * tx, FX_ONE as int, 2 * tb);
        }
        let ux = div_trunc(c * tx + sn * ty, FX_ONE);
        let uy = div_trunc(c * ty - sn * tx, FX_ONE);
        Fx2 { x: ux + self.position.x, y: uy + self.position.y }
    }

    /// Where world point `w` lands on screen under this camera: the view
    /// transform, then the inverse of the flipped device mapping.
    pub open spec fn world_to_screen_spec(self, wx: int, wy: int, sx: int, sy: int) -> (int, int) {
        let fx = FX_ONE as int;
        let c = cos_fx_spec(self.rotation as int);
        let sn = sin_fx_spec(self.rotation as int);
        let dx = wx - self.position.x;
        let dy = wy - self.position.y;
        let rx = div_trunc_spec(c * dx - sn * dy, fx);
        let ry = div_trunc_spec(sn * dx + c * dy, fx);
        let nx = div_trunc_spec(self.zoom * rx, fx);
        let ny = div_trunc_spec(self.zoom * ry, fx);
        (div_trunc_spec((nx + fx) * sx, 2 * fx), div_trunc_spec((fx - ny) * sy, 2 * fx))
    }

    /// Map a world point to screen coordinates: translate, rotate, scale by
    /// zoom, then normalized device coordinates back to screen pixels.
    pub fn world_to_screen(&self, world_pos: Fx2, screen_size: Fx2) -> (r: Fx2)
        requires
            self.wf(),
            world_pos.bounded(WORLD_LIMIT as int),
            1 <= screen_size.x <= SCREEN_SIZE_LIMIT,
            1 <= screen_size.y <= SCREEN_SIZE_LIMIT,
        ensures
            (r.x as int, r.y as int) == self.world_to_screen_spec(
                world_pos.x as int,
                world_pos.y as int,
                screen_size.x as int,
                screen_size.y as int,
            ),
    {
        let w = world_pos;
        let s = screen_size;
        let c = cos_fx(self.rotation);
        let sn = sin_fx(self.rotation);
        let dx = w.x - self.position.x;
        let dy = w.y - self.position.y;
        proof {
            let db: int = 3_000_000_000;
            lemma_mul_abs_bound(c as int, dx as int, FX_ONE as int, db);
            lemma_mul_abs_bound(sn as int, dy as int, FX_ONE as int, db);
            lemma_mul_abs_bound(sn as int, dx as int, FX_ONE as int, db);
            lemma_mul_abs_bound(c as int, dy as int, FX_ONE as int, db);
            lemma_div_trunc_le(c as int * dx - sn as int * dy, FX_ONE as int, 6_000_000_000);
            lemma_div_trunc_le(sn as int * dx + c as int * dy, FX_ONE as int, 6_000_000_000);
        }
        let rx = div_trunc(c * dx - sn * dy, FX_ONE);
        let ry = div_trunc(sn * dx + c * dy, FX_ONE);
        proof {
            lemma_mul_abs_bound(self.zoom as int, rx as int, ZOOM_MAX as int, 6_000_000_000);
            lemma_mul_abs_bound(self.zoom as int, ry as int, ZOOM_MAX as int, 6_000_000_000);
            lemma_div_trunc_le(self.zoom as int * rx, FX_ONE as int, 60_000_000_000);
            lemma_div_trunc_le(self.zoom as int * ry, FX_ONE as int, 60_000_000_000);
        }
        let nx = div_trunc(self.zoom * rx, FX_ONE);
        let ny = div_trunc(self.zoom * ry, FX_ONE);
        proof {
            lemma_mul_abs_bound(
                nx as int + FX_ONE,
                s.x as int,
                60_000_010_000,
                SCREEN_SIZE_LIMIT as int,
            );
            lemma_mul_abs_bound(
                FX_ONE as int - ny,
                s.y as int,
                60_000_010_000,
                SCREEN_SIZE_LIMIT as int,
            );
        }
        Fx2 {
            x: div_trunc((nx + FX_ONE) * s.x, 2 * FX_ONE),
            y: div_trunc((FX_ONE - ny) * s.y, 2 * FX_ONE),
        }
    }
}

impl Default for Camera {
    /// The identity view: origin, zoom 1.0, no rotation.
    fn default() -> (r: Camera)
        ensures
            r.position.x == 0,
            r.position.y == 0,
            r.zoom == FX_ONE,
            r.rotation == 0,
            r.wf(),
    {
        Camera { position: Fx2 { x: 0, y: 0 }, zoom: FX_ONE, rotation: 0 }
    }
}

/// The camera sits on the pivot line of world point `(tx, ty)`: the point's
/// view-space image coincides with its own coordinates. The identity camera
/// is aligned on every point, and `zoom_at` preserves the alignment for its
/// target.
pub open spec fn pivot_aligned(cam: Camera, tx: int, ty: int) -> bool {
    &&& cam.position.x * cam.zoom == tx * (cam.zoom - FX_ONE)
    &&& cam.position.y * cam.zoom == ty * (cam.zoom - FX_ONE)
}

/// An unpanned, unzoomed camera is aligned on every world point, so chains
/// of zooms at one target can start from the identity view.
pub proof fn lemma_identity_camera_aligned(cam: Camera, tx: int, ty: int)
    requires
        cam.position.x == 0,
        cam.position.y == 0,
        cam.zoom == FX_ONE,
    ensures
        pivot_aligned(cam, tx, ty),
{
    assert(tx * (cam.zoom - FX_ONE) == 0) by (nonlinear_arith)
        requires
            cam.zoom == FX_ONE,
    ;
    assert(ty * (cam.zoom - FX_ONE) == 0) by (nonlinear_arith)
        requires
            cam.zoom == FX_ONE,
    ;
}

/// Equal products with a positive common factor have equal cofactors.
proof fn lemma_mul_cancel(a: int, b: int, z: int)
    requires
        z > 0,
        a * z == b * z,
    ensures
        a == b,
{
    assert(a == b) by (nonlinear_arith)
        requires
            z > 0,
            a * z == b * z,
    ;
}

/// On the pivot line, scaling the translated point by the zoom recovers the
/// point exactly.
proof fn lemma_aligned_ndc(z: int, p: int, t: int)
    requires
        z > 0,
        p * z == t * (z - FX_ONE),
    ensures
        div_trunc_spec(z * (t - p), FX_ONE as int) == t,
{
    assert(z * (t - p) == t * FX_ONE) by (nonlinear_arith)
        requires
            p * z == t * (z - FX_ONE),
    ;
    lemma_div_trunc_exact(t, FX_ONE as int);
}

/// For an unrotated camera aligned on `(tx, ty)`, the screen projection of
/// that point does not depend on the zoom: it is the plain device-to-screen
/// mapping of the point itself.
proof fn lemma_w2s_aligned(cam: Camera, tx: int, ty: int, sx: int, sy: int)
    requires
        cam.rotation == 0,
        cam.zoom >= 1,
        pivot_aligned(cam, tx, ty),
    ensures
        cam.world_to_screen_spec(tx, ty, sx, sy) == (
            div_trunc_spec((tx + FX_ONE) * sx, 2 * FX_ONE as int),
            div_trunc_spec((FX_ONE as int - ty) * sy, 2 * FX_ONE as int),
        ),
{
    lemma_trig_at_zero();
    let fx = FX_ONE as int;
    let c = cos_fx_spec(0);
    let sn = sin_fx_spec(0);
    let dx = tx - cam.position.x;
    let dy = ty - cam.position.y;
    assert(c * dx - sn * dy == dx * fx) by (nonlinear_arith)
        requires
            c == FX_ONE as int,
            sn == 0,
            fx == FX_ONE as int,
    ;
    assert(sn * dx + c * dy == dy * fx) by (nonlinear_arith)
        requires
            c == FX_ONE as int,
            sn == 0,
            fx == FX_ONE as int,
    ;
    lemma_div_trunc_exact(dx, fx);
    lemma_div_trunc_exact(dy, fx);
    assert(cam.zoom * dx == cam.zoom as int * (tx - cam.position.x));
    lemma_aligned_ndc(cam.zoom as int, cam.position.x as int, tx);
    lemma_aligned_ndc(cam.zoom as int, cam.position.y as int, ty);
}

/// The pivot alignment survives the `zoom_at` position shift: if the camera
/// is aligned on `t` at zoom `z`, it is aligned on `t` at the clamped new
/// zoom `zn` after the shift, provided the reciprocals and the shift divide
/// exactly.
#[verifier::rlimit(50)]
proof fn lemma_zoom_shift(z: int, zn: int, t: int, p: int)
    requires
        z > 0,
        zn > 0,
        (FX_ONE as int * FX_ONE) % z == 0,
        (FX_ONE as int * FX_ONE) % zn == 0,
        (t * FX_ONE) % (z * zn) == 0,
        p * z == t * (z - FX_ONE),
    ensures
        ({
            let io = div_trunc_spec(FX_ONE as int * FX_ONE, z);
            let inew = div_trunc_spec(FX_ONE as int * FX_ONE, zn);
            let d = div_trunc_spec(t * (io - inew), FX_ONE as int);
            (p + d) * zn == t * (zn - FX_ONE)
        }),
{
    let fx = FX_ONE as int;
    assert(z * zn > 0) by (nonlinear_arith)
        requires
            z > 0,
            zn > 0,
    ;
    lemma_div_trunc_of_multiple(fx * fx, z);
    lemma_div_trunc_of_multiple(fx * fx, zn);
    lemma_div_trunc_of_multiple(t * fx, z * zn);
    let io = div_trunc_spec(fx * fx, z);
    let inew = div_trunc_spec(fx * fx, zn);
    let k = (t * fx) / (z * zn);
    assert((t * io) * z == (zn * k * fx) * z) by (nonlinear_arith)
        requires
            z * io == fx * fx,
            (z * zn) * k == t * fx,
    ;
    lemma_mul_cancel(t * io, zn * k * fx, z);
    assert((t * inew) * zn == (z * k * fx) * zn) by (nonlinear_arith)
        requires
            zn * inew == fx * fx,
            (z * zn) * k == t * fx,
    ;
    lemma_mul_cancel(t * inew, z * k * fx, zn);
    assert(t * (io - inew) == (k * (zn - z)) * fx) by (nonlinear_arith)
        requires
            t * io == zn * k * fx,
            t * inew == z * k * fx,
    ;
    lemma_div_trunc_exact(k * (zn - z), fx);
    let d = div_trunc_spec(t * (io - inew), fx);
    assert(d == k * (zn - z));
    assert((p * zn) * z == (t * (z - fx)) * zn) by (nonlinear_arith)
        requires
            p * z == t * (z - fx),
    ;
    assert((d * zn) * z == (t * fx) * (zn - z)) by (nonlinear_arith)
        requires
            (z * zn) * k == t * fx,
            d == k * (zn - z),
    ;
    assert((t * (z - fx)) * zn + (t * fx) * (zn - z) == (t * (zn - fx)) * z) by (nonlinear_arith);
    assert(((p + d) * zn) * z == (p * zn) * z + (d * zn) * z) by (nonlinear_arith);
    assert(((p + d) * zn) * z == (t * (zn - fx)) * z);
    lemma_mul_cancel((p + d) * zn, t * (zn - fx), z);
}

/// Zooming at a target keeps the target's screen projection fixed, before
/// and after, even when the zoom is clamped: the projection uses the
/// achieved zoom. `cam2` is the camera that `zoom_at(factor, target)`
/// produces from `cam`, as its contract states. The law holds for an
/// unrotated camera aligned on the target (the identity camera is aligned
/// on every point, and the alignment is itself preserved, so it holds along
/// any chain of zooms at one target), whenever the fixed-point reciprocals
/// and the shift divide exactly and the shift does not hit the saturation
/// bound.
pub proof fn lemma_zoom_at_pivot_fixed(
    cam: Camera,
    cam2: Camera,
    factor: int,
    target: Fx2,
    sx: int,
    sy: int,
)
    requires
        cam.wf(),
        cam.rotation == 0,
        cam2.rotation == 0,
        cam2.zoom == cam.zoom_at_zoom_spec(factor),
        (cam2.position.x as int, cam2.position.y as int) == cam.zoom_at_pos_spec(factor, target),
        pivot_aligned(cam, target.x as int, target.y as int),
        (FX_ONE as int * FX_ONE) % (cam.zoom as int) == 0,
        (FX_ONE as int * FX_ONE) % cam.zoom_at_zoom_spec(factor) == 0,
        (target.x * FX_ONE) % (cam.zoom * cam.zoom_at_zoom_spec(factor)) == 0,
        (target.y * FX_ONE) % (cam.zoom * cam.zoom_at_zoom_spec(factor)) == 0,
        ({
            let (dx, dy) = cam.zoom_at_shift_spec(factor, target);
            abs_spec(cam.position.x + dx) <= GEOM_LIMIT && abs_spec(cam.position.y + dy)
                <= GEOM_LIMIT
        }),
    ensures
        cam2.world_to_screen_spec(target.x as int, target.y as int, sx, sy)
            == cam.world_to_screen_spec(target.x as int, target.y as int, sx, sy),
        pivot_aligned(cam2, target.x as int, target.y as int),
{
    let zn = cam.zoom_at_zoom_spec(factor);
    lemma_zoom_shift(cam.zoom as int, zn, target.x as int, cam.position.x as int);
    lemma_zoom_shift(cam.zoom as int, zn, target.y as int, cam.position.y as int);
    lemma_w2s_aligned(cam, target.x as int, target.y as int, sx, sy);
    lemma_w2s_aligned(cam2, target.x as int, target.y as int, sx, sy);
}

/// Screen-to-world and world-to-screen are mutual inverses for the identity
/// camera (unpanned, unzoomed, unrotated), at every screen point whose
/// device coordinates are exactly representable (whole screen pixels of the
/// usual viewport sizes are).
pub proof fn lemma_screen_world_roundtrip(cam: Camera, px: int, py: int, sx: int, sy: int)
    requires
        cam.position.x == 0,
        cam.position.y == 0,
        cam.zoom == FX_ONE,
        cam.rotation == 0,
        sx >= 1,
        sy >= 1,
        ((2 * px - sx) * FX_ONE) % sx == 0,
        ((sy - 2 * py) * FX_ONE) % sy == 0,
    ensures
        ({
            let (wx, wy) = cam.screen_to_world_spec(px, py, sx, sy);
            cam.world_to_screen_spec(wx, wy, sx, sy) == (px, py)
        }),
{
    lemma_trig_at_zero();
    let fx = FX_ONE as int;
    let c = cos_fx_spec(0);
    let sn = sin_fx_spec(0);
    lemma_div_trunc_of_multiple((2 * px - sx) * fx, sx);
    lemma_div_trunc_of_multiple((sy - 2 * py) * fx, sy);
    let nx = ((2 * px - sx) * fx) / sx;
    let ny = ((sy - 2 * py) * fx) / sy;
    lemma_div_trunc_exact(nx, fx);
    lemma_div_trunc_exact(ny, fx);
    assert(c * nx + sn * ny == nx * fx) by (nonlinear_arith)
        requires
            c == FX_ONE as int,
            sn == 0,
            fx == FX_ONE as int,
    ;
    assert(c * ny - sn * nx == ny * fx) by (nonlinear_arith)
        requires
            c == FX_ONE as int,
            sn == 0,
            fx == FX_ONE as int,
    ;
    let (wx, wy) = cam.screen_to_world_spec(px, py, sx, sy);
    assert(wx == nx);
    assert(wy == ny);
    assert(c * nx - sn * ny == nx * fx) by (nonlinear_arith)
        requires
            c == FX_ONE as int,
            sn == 0,
            fx == FX_ONE as int,
    ;
    assert(sn * nx + c * ny == ny * fx) by (nonlinear_arith)
        requires
            c == FX_ONE as int,
            sn == 0,
            fx == FX_ONE as int,
    ;
    assert((nx + fx) * sx == px * (2 * fx)) by (nonlinear_arith)
        requires
            nx * sx == (2 * px - sx) * fx,
    ;
    assert((fx - ny) * sy == py * (2 * fx)) by (nonlinear_arith)
        requires
            ny * sy == (sy - 2 * py) * fx,
    ;
    lemma_div_trunc_exact(px, 2 * fx);
    lemma_div_trunc_exact(py, 2 * fx);
}

/// Panning by a delta and then by its negation restores the position
/// exactly, whenever the first pan does not hit the saturation bound.
/// `cam2` is the camera that `pan(delta)` produces from `cam`, as its
/// contract states.
pub proof fn lemma_pan_roundtrip(cam: Camera, cam2: Camera, delta: Fx2, back: Fx2)
    requires
        cam.wf(),
        back.x == -(delta.x as int),
        back.y == -(delta.y as int),
        cam2.zoom == cam.zoom,
        (cam2.position.x as int, cam2.position.y as int) == cam.pan_pos_spec(delta),
        abs_spec(cam.position.x - div_trunc_spec(delta.x * FX_ONE, cam.zoom as int))
            <= GEOM_LIMIT,
        abs_spec(cam.position.y - div_trunc_spec(delta.y * FX_ONE, cam.zoom as int))
            <= GEOM_LIMIT,
    ensures
        cam2.pan_pos_spec(back) == (cam.position.x as int, cam.position.y as int),
{
    lemma_div_trunc_neg(delta.x * FX_ONE, cam.zoom as int);
    lemma_div_trunc_neg(delta.y * FX_ONE, cam.zoom as int);
    assert(back.x * FX_ONE == -(delta.x * FX_ONE));
    assert(back.y * FX_ONE == -(delta.y * FX_ONE));
}

} // verus!
