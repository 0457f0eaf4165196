//! Tiles: rectangular, positioned, independently movable and resizable
//! units of canvas content, each carrying one of three content kinds.

use vstd::prelude::*;
use crate::fx::{clamp_i64, clamp_spec, Fx2, GEOM_LIMIT};
use crate::angle::{norm_angle, norm_angle_spec, TAU_URAD};
use crate::camera::sat_coord_spec;

verus! {

/// The smallest width or height a resize may leave: 50 units.
pub const MIN_TILE_DIM: i64 = 500_000;

/// Identifies a tile: allocated by the canvas on creation, unique among all
/// identifiers the canvas ever handed out, never reused.
#[derive(Clone, Copy, PartialEq, Eq, Structural, Hash, Debug)]
pub struct TileId(pub u64);

/// The tag of a tile's content kind.
#[derive(Clone, Copy, PartialEq, Eq, Structural, Debug)]
pub enum TileType {
    WebView,
    Egui,
    Skia,
}

/// A color with red, green, blue and alpha channels, each a fixed-point
/// scalar in `[0, FX_ONE]`.
#[derive(Clone, Copy, PartialEq, Eq, Structural, Debug)]
pub struct Rgba {
    pub r: i64,
    pub g: i64,
    pub b: i64,
    pub a: i64,
}

/// One drawing command of a vector surface: an entry of the append-only
/// command log that an external renderer interprets.
#[derive(Debug)]
pub enum DrawingCommand {
    MoveTo(Fx2),
    LineTo(Fx2),
    QuadTo(Fx2, Fx2),
    CubicTo(Fx2, Fx2, Fx2),
    ClosePath,
    SetFillColor(Rgba),
    SetStrokeColor(Rgba),
    SetStrokeWidth(i64),
    Fill,
    Stroke,
    DrawRect(Fx2, Fx2),
    DrawCircle(Fx2, i64),
    DrawText(String, Fx2, i64),
}

/// Two drawing commands carry the same content; string payloads are
/// compared by their character sequences.
pub open spec fn cmd_like(a: DrawingCommand, b: DrawingCommand) -> bool {
    match (a, b) {
        (DrawingCommand::MoveTo(p), DrawingCommand::MoveTo(q)) => p == q,
        (DrawingCommand::LineTo(p), DrawingCommand::LineTo(q)) => p == q,
        (DrawingCommand::QuadTo(p1, p2), DrawingCommand::QuadTo(q1, q2)) => p1 == q1 && p2 == q2,
        (DrawingCommand::CubicTo(p1, p2, p3), DrawingCommand::CubicTo(q1, q2, q3)) => p1 == q1
            && p2 == q2 && p3 == q3,
        (DrawingCommand::ClosePath, DrawingCommand::ClosePath) => true,
        (DrawingCommand::SetFillColor(c), DrawingCommand::SetFillColor(d)) => c == d,
        (DrawingCommand::SetStrokeColor(c), DrawingCommand::SetStrokeColor(d)) => c == d,
        (DrawingCommand::SetStrokeWidth(w), DrawingCommand::SetStrokeWidth(v)) => w == v,
        (DrawingCommand::Fill, DrawingCommand::Fill) => true,
        (DrawingCommand::Stroke, DrawingCommand::Stroke) => true,
        (DrawingCommand::DrawRect(p, s), DrawingCommand::DrawRect(q, t)) => p == q && s == t,
        (DrawingCommand::DrawCircle(p, r), DrawingCommand::DrawCircle(q, s)) => p == q && r == s,
        (DrawingCommand::DrawText(s1, p1, z1), DrawingCommand::DrawText(s2, p2, z2)) => s1@ == s2@
            && p1 == p2 && z1 == z2,
        _ => false,
    }
}

/// Copy a drawing command.
pub fn clone_command(c: &DrawingCommand) -> (r: DrawingCommand)
    ensures
        cmd_like(r, *c),
{
    match c {
        DrawingCommand::MoveTo(p) => DrawingCommand::MoveTo(*p),
        DrawingCommand::LineTo(p) => DrawingCommand::LineTo(*p),
        DrawingCommand::QuadTo(p1, p2) => DrawingCommand::QuadTo(*p1, *p2),
        DrawingCommand::CubicTo(p1, p2, p3) => DrawingCommand::CubicTo(*p1, *p2, *p3),
        DrawingCommand::ClosePath => DrawingCommand::ClosePath,
        DrawingCommand::SetFillColor(col) => DrawingCommand::SetFillColor(*col),
        DrawingCommand::SetStrokeColor(col) => DrawingCommand::SetStrokeColor(*col),
        DrawingCommand::SetStrokeWidth(w) => DrawingCommand::SetStrokeWidth(*w),
        DrawingCommand::Fill => DrawingCommand::Fill,
        DrawingCommand::Stroke => DrawingCommand::Stroke,
        DrawingCommand::DrawRect(p, s) => DrawingCommand::DrawRect(*p, *s),
        DrawingCommand::DrawCircle(p, r) => DrawingCommand::DrawCircle(*p, *r),
        DrawingCommand::DrawText(s, p, z) => DrawingCommand::DrawText(s.clone(), *p, *z),
    }
}

/// A tile's content: the payload variant always matches the tile's type
/// tag.
#[derive(Debug)]
pub enum TileData {
    WebView { url: String, webview_id: Option<String> },
    Egui { widget_type: String, config: serde_json::Value },
    Skia { drawing_commands: Vec<DrawingCommand> },
}

/// The content variant that belongs to each type tag.
pub open spec fn tag_matches(t: TileType, d: TileData) -> bool {
    match d {
        TileData::WebView { .. } => t == TileType::WebView,
        TileData::Egui { .. } => t == TileType::Egui,
        TileData::Skia { .. } => t == TileType::Skia,
    }
}

/// A tile: center position and size in world units, rotation, stacking
/// order, a typed content payload, and the flags gating mutation.
#[derive(Debug)]
pub struct Tile {
    pub position: Fx2,
    pub size: Fx2,
    pub rotation: i64,
    pub z_index: i64,
    pub tile_type: TileType,
    pub data: TileData,
    pub title: String,
    pub resizable: bool,
    pub movable: bool,
    pub visible: bool,
}

/// The width or height that a gated resize establishes: the requested
/// dimension, raised to the minimum floor.
pub open spec fn resize_dim_spec(v: int) -> int {
    if v < MIN_TILE_DIM {
        MIN_TILE_DIM as int
    } else {
        v
    }
}

impl Tile {
    /// The tile's invariant: geometry within the canvas extent, sizes
    /// nonnegative, rotation normalized, and the content variant matching
    /// the type tag.
    pub open spec fn wf(self) -> bool {
        &&& self.position.bounded(GEOM_LIMIT as int)
        &&& 0 <= self.size.x <= GEOM_LIMIT
        &&& 0 <= self.size.y <= GEOM_LIMIT
        &&& 0 <= self.rotation < TAU_URAD
        &&& tag_matches(self.tile_type, self.data)
    }

    /// Build a tile at a position and size, movable, resizable and visible,
    /// with no rotation and stacking order zero. Geometry is clamped into
    /// the canvas extent.
    pub fn new(position: Fx2, size: Fx2, tile_type: TileType, data: TileData, title: String) -> (r:
        Tile)
        requires
            tag_matches(tile_type, data),
        ensures
            r.position.x == sat_coord_spec(position.x as int),
            r.position.y == sat_coord_spec(position.y as int),
            r.size.x == clamp_spec(size.x as int, 0, GEOM_LIMIT as int),
            r.size.y == clamp_spec(size.y as int, 0, GEOM_LIMIT as int),
            r.rotation == 0,
            r.z_index == 0,
            r.tile_type == tile_type,
            r.data == data,
            r.title == title,
            r.resizable,
            r.movable,
            r.visible,
            r.wf(),
    {
        Tile {
            position: Fx2 {
                x: clamp_i64(position.x, -GEOM_LIMIT, GEOM_LIMIT),
                y: clamp_i64(position.y, -GEOM_LIMIT, GEOM_LIMIT),
            },
            size: Fx2 {
                x: clamp_i64(size.x, 0, GEOM_LIMIT),
                y: clamp_i64(size.y, 0, GEOM_LIMIT),
            },
            rotation: 0,
            z_index: 0,
            tile_type,
            data,
            title,
            resizable: true,
            movable: true,
            visible: true,
        }
    }

    /// The point lies in the tile's axis-aligned box: center plus or minus
    /// half the size on each axis, rotation ignored.
    pub open spec fn contains_spec(self, px: int, py: int) -> bool {
        let hx = self.size.x as int / 2;
        let hy = self.size.y as int / 2;
        &&& self.position.x - hx <= px <= self.position.x + hx
        &&& self.position.y - hy <= py <= self.position.y + hy
    }

    /// Whether a world point lies within the tile's axis-aligned bounding
    /// box (rotation is ignored).
    pub fn contains_point(&self, point: Fx2) -> (r: bool)
        requires
            self.wf(),
        ensures
            r == self.contains_spec(point.x as int, point.y as int),
    {
        let hx = ((self.size.x as u64) / 2) as i64;
        let hy = ((self.size.y as u64) / 2) as i64;
        let min_x = self.position.x - hx;
        let max_x = self.position.x + hx;
        let min_y = self.position.y - hy;
        let max_y = self.position.y + hy;
        point.x >= min_x && point.x <= max_x && point.y >= min_y && point.y <= max_y
    }

    /// Shift the tile by `delta` if it is movable; a silent no-op
    /// otherwise. The position saturates at the canvas extent.
    pub fn move_by(&mut self, delta: Fx2)
        requires
            old(self).wf(),
            delta.bounded(GEOM_LIMIT as int),
        ensures
            old(self).movable ==> final(self).position.x == sat_coord_spec(
                old(self).position.x + delta.x,
            ) && final(self).position.y == sat_coord_spec(old(self).position.y + delta.y),
            !old(self).movable ==> final(self).position == old(self).position,
            unchanged_but_position(*old(self), *final(self)),
            final(self).wf(),
    {
        if self.movable {
            self.position.x = clamp_i64(self.position.x + delta.x, -GEOM_LIMIT, GEOM_LIMIT);
            self.position.y = clamp_i64(self.position.y + delta.y, -GEOM_LIMIT, GEOM_LIMIT);
        }
    }

    /// Place the tile at an absolute position if it is movable; a silent
    /// no-op otherwise.
    pub fn move_to(&mut self, position: Fx2)
        requires
            old(self).wf(),
        ensures
            old(self).movable ==> final(self).position.x == sat_coord_spec(position.x as int)
                && final(self).position.y == sat_coord_spec(position.y as int),
            !old(self).movable ==> final(self).position == old(self).position,
            unchanged_but_position(*old(self), *final(self)),
            final(self).wf(),
    {
        if self.movable {
            self.position.x = clamp_i64(position.x, -GEOM_LIMIT, GEOM_LIMIT);
            self.position.y = clamp_i64(position.y, -GEOM_LIMIT, GEOM_LIMIT);
        }
    }

    /// Resize the tile if it is resizable, raising each dimension to the
    /// minimum floor; a silent no-op otherwise. A tile that is not
    /// resizable never changes size here.
    pub fn resize(&mut self, new_size: Fx2)
        requires
            old(self).wf(),
            0 <= new_size.x <= GEOM_LIMIT,
            0 <= new_size.y <= GEOM_LIMIT,
        ensures
            old(self).resizable ==> final(self).size.x == resize_dim_spec(new_size.x as int)
                && final(self).size.y == resize_dim_spec(new_size.y as int),
            !old(self).resizable ==> final(self).size == old(self).size,
            unchanged_but_size(*old(self), *final(self)),
            final(self).wf(),
    {
        if self.resizable {
            self.size.x = clamp_i64(new_size.x, MIN_TILE_DIM, GEOM_LIMIT);
            self.size.y = clamp_i64(new_size.y, MIN_TILE_DIM, GEOM_LIMIT);
        }
    }

    /// Set the stacking order; higher draws on top.
    pub fn set_z_index(&mut self, z_index: i64)
        requires
            old(self).wf(),
        ensures
            *final(self) == (Tile { z_index, ..*old(self) }),
            final(self).wf(),
    {
        self.z_index = z_index;
    }

    /// Add `angle` to the tile's rotation and normalize into
    /// `[0, TAU_URAD)`.
    pub fn rotate(&mut self, angle: i64)
        requires
            old(self).wf(),
            angle != i64::MIN,
        ensures
            final(self).rotation == norm_angle_spec(old(self).rotation + angle),
            0 <= final(self).rotation < TAU_URAD,
            *final(self) == (Tile { rotation: final(self).rotation, ..*old(self) }),
            final(self).wf(),
    {
        let na = norm_angle(angle);
        let s = self.rotation + na;
        let r = if s >= TAU_URAD {
            s - TAU_URAD
        } else {
            s
        };
        proof {
            let t = TAU_URAD as int;
            let rot = self.rotation as int;
            vstd::arithmetic::div_mod::lemma_add_mod_noop(rot, angle as int, t);
            vstd::arithmetic::div_mod::lemma_fundamental_div_mod_converse(rot, t, 0, rot);
            if s >= TAU_URAD {
                vstd::arithmetic::div_mod::lemma_fundamental_div_mod_converse(
                    s as int,
                    t,
                    1,
                    s - t,
                );
            } else {
                vstd::arithmetic::div_mod::lemma_fundamental_div_mod_converse(
                    s as int,
                    t,
                    0,
                    s as int,
                );
            }
        }
        self.rotation = r;
    }

    /// Show or hide the tile.
    pub fn set_visibility(&mut self, visible: bool)
        requires
            old(self).wf(),
        ensures
            *final(self) == (Tile { visible, ..*old(self) }),
            final(self).wf(),
    {
        self.visible = visible;
    }

    /// Record the identifier of the backing window on a remote-page tile;
    /// returns false and changes nothing on any other tile.
    pub fn attach_webview_id(&mut self, id: String) -> (r: bool)
        requires
            old(self).wf(),
        ensures
            r == (old(self).tile_type == TileType::WebView),
            r ==> *final(self) == (Tile {
                data: TileData::WebView {
                    url: old(self).data->WebView_url,
                    webview_id: Some(id),
                },
                ..*old(self)
            }),
            !r ==> *final(self) == *old(self),
            final(self).wf(),
    {
        match &mut self.data {
            TileData::WebView { url: _, webview_id } => {
                *webview_id = Some(id);
                true
            },
            _ => false,
        }
    }
}

/// All fields but the position agree.
pub open spec fn unchanged_but_position(a: Tile, b: Tile) -> bool {
    b == (Tile { position: b.position, ..a })
}

/// All fields but the size agree.
pub open spec fn unchanged_but_size(a: Tile, b: Tile) -> bool {
    b == (Tile { size: b.size, ..a })
}

} // verus!
