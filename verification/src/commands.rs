//! The command layer: one function per request the front end can make.
//!
//! Each command takes the canvas (and, where windows are involved, the
//! window bookkeeping) and plain values, performs the in-memory mutation,
//! and answers with the host action the caller must forward, if any: the
//! host calls themselves (create, place, show, close a window) happen
//! outside this library. Identifiers cross this boundary in their canonical
//! text form; malformed text is a request-level failure and nothing is
//! mutated.

use vstd::prelude::*;
use crate::fx::{abs_spec, clamp_i64, clamp_spec, Fx2, FX_ONE, GEOM_LIMIT};
use crate::camera::{Camera, sat_coord_spec, FACTOR_LIMIT, PAN_LIMIT};
use crate::canvas::{
    same_display_settings, tile_moved_to, tile_resized_to, tile_visibility_set,
    tile_webview_attached, InfiniteCanvas,
};
use crate::host::WebViewManager;
use crate::idtext::{all_digits, dec_str, dec_val, parse_tile_id, tile_id_to_string};
use crate::tile::{Rgba, Tile, TileData, TileId, TileType};
use crate::variants::WebViewTile;

verus! {

/// A command that failed before touching any state.
#[derive(Clone, Copy, PartialEq, Eq, Structural, Debug)]
pub enum CommandError {
    /// The request named a tile by text that is not a canonical identifier.
    MalformedId,
}

impl CommandError {
    /// A human-readable description of the failure.
    pub fn message(&self) -> (r: String)
        ensures
            r@ == "malformed tile identifier"@,
    {
        proof {
            reveal_strlit("malformed tile identifier");
        }
        String::from_str("malformed tile identifier")
    }
}

/// The canvas-level state a front end renders from.
#[derive(Clone, Copy, PartialEq, Eq, Structural, Debug)]
pub struct CanvasInfo {
    pub size: Fx2,
    pub camera_position: Fx2,
    pub camera_zoom: i64,
    pub camera_rotation: i64,
    pub background_color: Rgba,
    pub grid_visible: bool,
    pub grid_size: i64,
    pub grid_color: Rgba,
}

/// One tile as listed to the front end.
#[derive(Debug)]
pub struct TileInfo {
    pub id: String,
    pub position: Fx2,
    pub size: Fx2,
    pub rotation: i64,
    pub z_index: i64,
    pub tile_type: TileType,
    pub title: String,
    pub visible: bool,
}

/// The listing row that belongs to a registry entry.
pub open spec fn tile_info_matches(info: TileInfo, entry: (u64, Tile)) -> bool {
    &&& info.id@ == dec_str(entry.0 as nat)
    &&& info.position == entry.1.position
    &&& info.size == entry.1.size
    &&& info.rotation == entry.1.rotation
    &&& info.z_index == entry.1.z_index
    &&& info.tile_type == entry.1.tile_type
    &&& info.title@ == entry.1.title@
    &&& info.visible == entry.1.visible
}

/// An instruction to create a backing window: geometry, the page to load,
/// and the identifier the window must be known by.
#[derive(Debug)]
pub struct WebviewCreate {
    pub webview_id: String,
    pub url: String,
    pub x: i64,
    pub y: i64,
    pub width: i64,
    pub height: i64,
}

/// An instruction to move a backing window.
#[derive(Debug)]
pub struct WebviewPlacement {
    pub webview_id: String,
    pub x: i64,
    pub y: i64,
}

/// An instruction to resize a backing window.
#[derive(Debug)]
pub struct WebviewResize {
    pub webview_id: String,
    pub width: i64,
    pub height: i64,
}

/// An instruction to show or hide a backing window.
#[derive(Debug)]
pub struct WebviewVisibility {
    pub webview_id: String,
    pub visible: bool,
}

/// Read the canvas-level state.
pub fn get_canvas_info(canvas: &InfiniteCanvas) -> (r: CanvasInfo)
    requires
        canvas.wf(),
    ensures
        r.size == canvas.canvas_size,
        r.camera_position == canvas.camera.position,
        r.camera_zoom == canvas.camera.zoom,
        r.camera_rotation == canvas.camera.rotation,
        r.background_color == canvas.background_color,
        r.grid_visible == canvas.grid_visible,
        r.grid_size == canvas.grid_size,
        r.grid_color == canvas.grid_color,
{
    CanvasInfo {
        size: canvas.canvas_size,
        camera_position: canvas.camera.position,
        camera_zoom: canvas.camera.zoom,
        camera_rotation: canvas.camera.rotation,
        background_color: canvas.background_color,
        grid_visible: canvas.grid_visible,
        grid_size: canvas.grid_size,
        grid_color: canvas.grid_color,
    }
}

/// List every tile, one row per registry entry, in storage order.
pub fn get_tiles(canvas: &InfiniteCanvas) -> (r: Vec<TileInfo>)
    requires
        canvas.wf(),
    ensures
        r@.len() == canvas.entries().len(),
        forall|i: int|
            0 <= i < r@.len() ==> tile_info_matches(#[trigger] r@[i], canvas.entries()[i]),
{
    let mut out: Vec<TileInfo> = Vec::new();
    let mut i: usize = 0;
    while i < canvas.tiles.len()
        invariant
            canvas.wf(),
            i <= canvas.entries().len(),
            canvas.entries() == canvas.tiles@,
            out@.len() == i,
            forall|j: int|
                0 <= j < i ==> tile_info_matches(#[trigger] out@[j], canvas.entries()[j]),
        decreases canvas.tiles@.len() - i,
    {
        let entry = &canvas.tiles[i];
        let t = &entry.1;
        out.push(
            TileInfo {
                id: tile_id_to_string(TileId(entry.0)),
                position: t.position,
                size: t.size,
                rotation: t.rotation,
                z_index: t.z_index,
                tile_type: t.tile_type,
                title: t.title.clone(),
                visible: t.visible,
            },
        );
        i += 1;
    }
    out
}

/// Create a remote-page tile and say what window the host must create for
/// it: a hidden window at the tile's geometry, loading `url`, under a fresh
/// window identifier. The tile is in the registry from here on;
/// `complete_webview_creation` finishes or rolls back once the host has
/// answered.
pub fn add_webview_tile(
    canvas: &mut InfiniteCanvas,
    manager: &mut WebViewManager,
    url: String,
    position: Fx2,
    size: Fx2,
    title: String,
) -> (r: (TileId, WebviewCreate))
    requires
        old(canvas).wf(),
        old(canvas).can_allocate(),
        old(manager).wf(),
        old(manager).can_allocate(),
    ensures
        !old(canvas).reg().dom().contains(r.0.0),
        final(canvas).reg() == old(canvas).reg().insert(r.0.0, final(canvas).reg()[r.0.0]),
        ({
            let t = final(canvas).reg()[r.0.0];
            &&& t.tile_type == TileType::WebView
            &&& t.data == (TileData::WebView { url: url, webview_id: None::<String> })
            &&& t.title == title
            &&& t.position.x == sat_coord_spec(position.x as int)
            &&& t.position.y == sat_coord_spec(position.y as int)
            &&& t.size.x == clamp_spec(size.x as int, 0, GEOM_LIMIT as int)
            &&& t.size.y == clamp_spec(size.y as int, 0, GEOM_LIMIT as int)
        }),
        final(manager).amap() == old(manager).amap(),
        r.1.webview_id@ == dec_str(old(manager).next_webview as nat),
        r.1.url@ == url@,
        r.1.x == sat_coord_spec(position.x as int),
        r.1.y == sat_coord_spec(position.y as int),
        r.1.width == clamp_spec(size.x as int, 0, GEOM_LIMIT as int),
        r.1.height == clamp_spec(size.y as int, 0, GEOM_LIMIT as int),
        final(canvas).selected_spec() == old(canvas).selected_spec(),
        final(canvas).camera == old(canvas).camera,
        final(canvas).canvas_size == old(canvas).canvas_size,
        same_display_settings(old(canvas), final(canvas)),
        final(canvas).wf(),
        final(manager).wf(),
{
    let content = WebViewTile::new(url.clone());
    let tile = content.to_tile(position, size, title);
    let ghost t_spec = tile;
    let x = tile.position.x;
    let y = tile.position.y;
    let width = tile.size.x;
    let height = tile.size.y;
    let id = canvas.add_tile(tile);
    let webview_id = manager.allocate_webview_id();
    proof {
        assert(final(canvas).reg()[id.0] == t_spec);
    }
    (id, WebviewCreate { webview_id, url, x, y, width, height })
}

/// Create a widget tile: a widget kind with its opaque configuration. No
/// host side effect; the answer is the new tile identifier's text.
pub fn add_egui_tile(
    canvas: &mut InfiniteCanvas,
    widget_type: String,
    config: serde_json::Value,
    position: Fx2,
    size: Fx2,
    title: String,
) -> (r: (TileId, String))
    requires
        old(canvas).wf(),
        old(canvas).can_allocate(),
    ensures
        !old(canvas).reg().dom().contains(r.0.0),
        final(canvas).reg() == old(canvas).reg().insert(r.0.0, final(canvas).reg()[r.0.0]),
        ({
            let t = final(canvas).reg()[r.0.0];
            &&& t.tile_type == TileType::Egui
            &&& t.data == (TileData::Egui { widget_type: widget_type, config: config })
            &&& t.title == title
            &&& t.position.x == sat_coord_spec(position.x as int)
            &&& t.position.y == sat_coord_spec(position.y as int)
            &&& t.size.x == clamp_spec(size.x as int, 0, GEOM_LIMIT as int)
            &&& t.size.y == clamp_spec(size.y as int, 0, GEOM_LIMIT as int)
        }),
        r.1@ == dec_str(r.0.0 as nat),
        final(canvas).selected_spec() == old(canvas).selected_spec(),
        final(canvas).camera == old(canvas).camera,
        final(canvas).canvas_size == old(canvas).canvas_size,
        same_display_settings(old(canvas), final(canvas)),
        final(canvas).wf(),
{
    let content = crate::variants::EguiTile::new(widget_type, config);
    let tile = content.to_tile(position, size, title);
    let id = canvas.add_tile(tile);
    let text = tile_id_to_string(id);
    (id, text)
}

/// Create a vector-drawing tile with an empty command log. No host side
/// effect; the answer is the new tile identifier's text.
pub fn add_skia_tile(canvas: &mut InfiniteCanvas, position: Fx2, size: Fx2, title: String) -> (r: (
    TileId,
    String,
))
    requires
        old(canvas).wf(),
        old(canvas).can_allocate(),
    ensures
        !old(canvas).reg().dom().contains(r.0.0),
        final(canvas).reg() == old(canvas).reg().insert(r.0.0, final(canvas).reg()[r.0.0]),
        ({
            let t = final(canvas).reg()[r.0.0];
            &&& t.tile_type == TileType::Skia
            &&& t.data is Skia
            &&& t.data->Skia_drawing_commands@.len() == 0
            &&& t.title == title
            &&& t.position.x == sat_coord_spec(position.x as int)
            &&& t.position.y == sat_coord_spec(position.y as int)
            &&& t.size.x == clamp_spec(size.x as int, 0, GEOM_LIMIT as int)
            &&& t.size.y == clamp_spec(size.y as int, 0, GEOM_LIMIT as int)
        }),
        r.1@ == dec_str(r.0.0 as nat),
        final(canvas).selected_spec() == old(canvas).selected_spec(),
        final(canvas).camera == old(canvas).camera,
        final(canvas).canvas_size == old(canvas).canvas_size,
        same_display_settings(old(canvas), final(canvas)),
        final(canvas).wf(),
{
    let content = crate::variants::SkiaTile::new();
    let tile = content.to_tile(position, size, title);
    let id = canvas.add_tile(tile);
    let text = tile_id_to_string(id);
    (id, text)
}

/// Finish a remote-page tile's creation once the host has answered.
/// Success stores the association and caches the window identifier on the
/// tile, and answers the tile identifier's text. Failure removes the tile
/// again — the command fails atomically, and the tile is not listed — and
/// passes the host's error through.
pub fn complete_webview_creation(
    canvas: &mut InfiniteCanvas,
    manager: &mut WebViewManager,
    tile_id: TileId,
    outcome: Result<String, String>,
) -> (r: Result<String, String>)
    requires
        old(canvas).wf(),
        old(manager).wf(),
    ensures
        final(canvas).wf(),
        final(manager).wf(),
        final(canvas).camera == old(canvas).camera,
        final(canvas).canvas_size == old(canvas).canvas_size,
        same_display_settings(old(canvas), final(canvas)),
        match outcome {
            Ok(webview_id) => {
                &&& final(manager).amap() =~= old(manager).amap().insert(tile_id.0, webview_id)
                &&& final(canvas).selected_spec() == old(canvas).selected_spec()
                &&& (old(canvas).reg().dom().contains(tile_id.0) ==> final(canvas).reg() =~= old(
                    canvas,
                ).reg().insert(
                    tile_id.0,
                    tile_webview_attached(old(canvas).reg()[tile_id.0], webview_id),
                ))
                &&& (!old(canvas).reg().dom().contains(tile_id.0) ==> final(canvas).reg() == old(
                    canvas,
                ).reg())
                &&& (match r {
                    Ok(text) => text@ == dec_str(tile_id.0 as nat),
                    Err(_) => false,
                })
            },
            Err(e) => {
                &&& final(manager).amap() == old(manager).amap()
                &&& (old(canvas).selected_spec() == Some(tile_id) ==> final(canvas)
                    .selected_spec() is None)
                &&& (old(canvas).selected_spec() != Some(tile_id) ==> final(canvas)
                    .selected_spec() == old(canvas).selected_spec())
                &&& !final(canvas).reg().dom().contains(tile_id.0)
                &&& (old(canvas).reg().dom().contains(tile_id.0) ==> final(canvas).reg() =~= old(
                    canvas,
                ).reg().remove(tile_id.0))
                &&& (!old(canvas).reg().dom().contains(tile_id.0) ==> final(canvas).reg() == old(
                    canvas,
                ).reg())
                &&& r == Err::<String, String>(e)
            },
        },
{
    match outcome {
        Ok(webview_id) => {
            manager.register_webview(tile_id, webview_id.clone());
            canvas.attach_webview_id(tile_id, webview_id);
            Ok(tile_id_to_string(tile_id))
        },
        Err(e) => {
            canvas.remove_tile(tile_id);
            proof {
                if !old(canvas).reg().dom().contains(tile_id.0) {
                    assert(!final(canvas).reg().dom().contains(tile_id.0));
                }
            }
            Err(e)
        },
    }
}

/// Remove a tile by its identifier text: the association goes first, then
/// the tile; the answer names the window the host must now close, if the
/// tile had one. A live identifier that names no tile is tolerated.
pub fn remove_tile(
    canvas: &mut InfiniteCanvas,
    manager: &mut WebViewManager,
    tile_id_str: &str,
) -> (r: Result<Option<String>, CommandError>)
    requires
        old(canvas).wf(),
        old(manager).wf(),
    ensures
        final(canvas).wf(),
        final(manager).wf(),
        final(canvas).camera == old(canvas).camera,
        final(canvas).canvas_size == old(canvas).canvas_size,
        same_display_settings(old(canvas), final(canvas)),
        match r {
            Ok(closed) => {
                let id = dec_val(tile_id_str@) as u64;
                &&& all_digits(tile_id_str@) && tile_id_str@.len() > 0 && dec_val(tile_id_str@)
                    <= u64::MAX
                &&& (match closed {
                    Some(w) => old(manager).amap().dom().contains(id) && w == old(
                        manager,
                    ).amap()[id],
                    None => !old(manager).amap().dom().contains(id),
                })
                &&& !final(canvas).reg().dom().contains(id)
                &&& (old(canvas).reg().dom().contains(id) ==> final(canvas).reg() =~= old(
                    canvas,
                ).reg().remove(id))
                &&& (!old(canvas).reg().dom().contains(id) ==> final(canvas).reg() == old(
                    canvas,
                ).reg())
                &&& (!old(canvas).reg().dom().contains(id) ==> *final(canvas) == *old(canvas))
                &&& !final(manager).amap().dom().contains(id)
                &&& (old(canvas).selected_spec() == Some(TileId(id)) ==> final(canvas)
                    .selected_spec() is None)
                &&& (old(canvas).selected_spec() != Some(TileId(id)) ==> final(canvas)
                    .selected_spec() == old(canvas).selected_spec())
            },
            Err(_) => {
                &&& !(all_digits(tile_id_str@) && tile_id_str@.len() > 0 && dec_val(tile_id_str@)
                    <= u64::MAX)
                &&& *final(canvas) == *old(canvas)
                &&& *final(manager) == *old(manager)
            },
        },
{
    let id = match parse_tile_id(tile_id_str) {
        Some(id) => id,
        None => {
            return Err(CommandError::MalformedId);
        },
    };
    let closed = manager.remove_webview(id);
    canvas.remove_tile(id);
    proof {
        if !old(canvas).reg().dom().contains(id.0) {
            assert(!final(canvas).reg().dom().contains(id.0));
        }
        if !old(manager).amap().dom().contains(id.0) {
            assert(!final(manager).amap().dom().contains(id.0));
        }
    }
    Ok(closed)
}

/// Move a tile to an absolute position, by its identifier text. The move is
/// gated by the tile's `movable` flag; when the tile is a remote-page tile
/// with a live window and did move, the answer carries the placement the
/// host must apply. A tile that no longer exists is tolerated.
pub fn move_tile(canvas: &mut InfiniteCanvas, tile_id_str: &str, x: i64, y: i64) -> (r: Result<
    Option<WebviewPlacement>,
    CommandError,
>)
    requires
        old(canvas).wf(),
    ensures
        final(canvas).wf(),
        final(canvas).camera == old(canvas).camera,
        final(canvas).selected_spec() == old(canvas).selected_spec(),
        final(canvas).canvas_size == old(canvas).canvas_size,
        same_display_settings(old(canvas), final(canvas)),
        match r {
            Ok(action) => {
                let id = dec_val(tile_id_str@) as u64;
                &&& all_digits(tile_id_str@) && tile_id_str@.len() > 0 && dec_val(tile_id_str@)
                    <= u64::MAX
                &&& (old(canvas).reg().dom().contains(id) ==> final(canvas).reg() =~= old(
                    canvas,
                ).reg().insert(
                    id,
                    tile_moved_to(old(canvas).reg()[id], Fx2 { x, y }),
                ))
                &&& (!old(canvas).reg().dom().contains(id) ==> final(canvas).reg() == old(
                    canvas,
                ).reg())
                &&& (!old(canvas).reg().dom().contains(id) ==> *final(canvas) == *old(canvas))
                &&& (match action {
                    Some(p) => {
                        let t0 = old(canvas).reg()[id];
                        &&& old(canvas).reg().dom().contains(id)
                        &&& t0.movable
                        &&& t0.data is WebView
                        &&& t0.data->WebView_webview_id is Some
                        &&& p.webview_id@ == (t0.data->WebView_webview_id)->0@
                        &&& p.x == sat_coord_spec(x as int)
                        &&& p.y == sat_coord_spec(y as int)
                    },
                    None => !(old(canvas).reg().dom().contains(id) && old(
                        canvas,
                    ).reg()[id].movable && old(canvas).reg()[id].data is WebView && old(
                        canvas,
                    ).reg()[id].data->WebView_webview_id is Some),
                })
            },
            Err(_) => {
                &&& !(all_digits(tile_id_str@) && tile_id_str@.len() > 0 && dec_val(tile_id_str@)
                    <= u64::MAX)
                &&& *final(canvas) == *old(canvas)
            },
        },
{
    let id = match parse_tile_id(tile_id_str) {
        Some(id) => id,
        None => {
            return Err(CommandError::MalformedId);
        },
    };
    let found = canvas.move_tile_to(id, Fx2 { x, y });
    if !found {
        return Ok(None);
    }
    match canvas.get_tile(id) {
        Some(t) => {
            if t.movable {
                match &t.data {
                    TileData::WebView { url: _, webview_id: Some(w) } => Ok(
                        Some(
                            WebviewPlacement {
                                webview_id: w.clone(),
                                x: t.position.x,
                                y: t.position.y,
                            },
                        ),
                    ),
                    _ => Ok(None),
                }
            } else {
                Ok(None)
            }
        },
        None => Ok(None),
    }
}

/// Resize a tile, by its identifier text. The resize is gated by the
/// tile's `resizable` flag and each dimension is raised to the minimum
/// floor; when the tile is a remote-page tile with a live window and did
/// resize, the answer carries the new size the host must apply. A tile that
/// no longer exists is tolerated. Requested dimensions are clamped into the
/// canvas extent.
pub fn resize_tile(canvas: &mut InfiniteCanvas, tile_id_str: &str, width: i64, height: i64) -> (r:
    Result<Option<WebviewResize>, CommandError>)
    requires
        old(canvas).wf(),
    ensures
        final(canvas).wf(),
        final(canvas).camera == old(canvas).camera,
        final(canvas).selected_spec() == old(canvas).selected_spec(),
        final(canvas).canvas_size == old(canvas).canvas_size,
        same_display_settings(old(canvas), final(canvas)),
        match r {
            Ok(action) => {
                let id = dec_val(tile_id_str@) as u64;
                let req = Fx2 {
                    x: clamp_spec(width as int, 0, GEOM_LIMIT as int) as i64,
                    y: clamp_spec(height as int, 0, GEOM_LIMIT as int) as i64,
                };
                &&& all_digits(tile_id_str@) && tile_id_str@.len() > 0 && dec_val(tile_id_str@)
                    <= u64::MAX
                &&& (old(canvas).reg().dom().contains(id) ==> final(canvas).reg() =~= old(
                    canvas,
                ).reg().insert(id, tile_resized_to(old(canvas).reg()[id], req)))
                &&& (!old(canvas).reg().dom().contains(id) ==> final(canvas).reg() == old(
                    canvas,
                ).reg())
                &&& (!old(canvas).reg().dom().contains(id) ==> *final(canvas) == *old(canvas))
                &&& (match action {
                    Some(a) => {
                        let t0 = old(canvas).reg()[id];
                        &&& old(canvas).reg().dom().contains(id)
                        &&& t0.resizable
                        &&& t0.data is WebView
                        &&& t0.data->WebView_webview_id is Some
                        &&& a.webview_id@ == (t0.data->WebView_webview_id)->0@
                        &&& a.width == tile_resized_to(t0, req).size.x
                        &&& a.height == tile_resized_to(t0, req).size.y
                    },
                    None => !(old(canvas).reg().dom().contains(id) && old(
                        canvas,
                    ).reg()[id].resizable && old(canvas).reg()[id].data is WebView && old(
                        canvas,
                    ).reg()[id].data->WebView_webview_id is Some),
                })
            },
            Err(_) => {
                &&& !(all_digits(tile_id_str@) && tile_id_str@.len() > 0 && dec_val(tile_id_str@)
                    <= u64::MAX)
                &&& *final(canvas) == *old(canvas)
            },
        },
{
    let id = match parse_tile_id(tile_id_str) {
        Some(id) => id,
        None => {
            return Err(CommandError::MalformedId);
        },
    };
    let req = Fx2 {
        x: clamp_i64(width, 0, GEOM_LIMIT),
        y: clamp_i64(height, 0, GEOM_LIMIT),
    };
    let found = canvas.resize_tile_to(id, req);
    if !found {
        return Ok(None);
    }
    match canvas.get_tile(id) {
        Some(t) => {
            if t.resizable {
                match &t.data {
                    TileData::WebView { url: _, webview_id: Some(w) } => Ok(
                        Some(
                            WebviewResize {
                                webview_id: w.clone(),
                                width: t.size.x,
                                height: t.size.y,
                            },
                        ),
                    ),
                    _ => Ok(None),
                }
            } else {
                Ok(None)
            }
        },
        None => Ok(None),
    }
}

/// Show or hide a tile, by its identifier text; when the tile is a
/// remote-page tile with a live window, the answer carries the visibility
/// change the host must apply. A tile that no longer exists is tolerated.
pub fn set_tile_visibility(canvas: &mut InfiniteCanvas, tile_id_str: &str, visible: bool) -> (r:
    Result<Option<WebviewVisibility>, CommandError>)
    requires
        old(canvas).wf(),
    ensures
        final(canvas).wf(),
        final(canvas).camera == old(canvas).camera,
        final(canvas).selected_spec() == old(canvas).selected_spec(),
        final(canvas).canvas_size == old(canvas).canvas_size,
        same_display_settings(old(canvas), final(canvas)),
        match r {
            Ok(action) => {
                let id = dec_val(tile_id_str@) as u64;
                &&& all_digits(tile_id_str@) && tile_id_str@.len() > 0 && dec_val(tile_id_str@)
                    <= u64::MAX
                &&& (old(canvas).reg().dom().contains(id) ==> final(canvas).reg() =~= old(
                    canvas,
                ).reg().insert(id, tile_visibility_set(old(canvas).reg()[id], visible)))
                &&& (!old(canvas).reg().dom().contains(id) ==> final(canvas).reg() == old(
                    canvas,
                ).reg())
                &&& (!old(canvas).reg().dom().contains(id) ==> *final(canvas) == *old(canvas))
                &&& (match action {
                    Some(a) => {
                        let t0 = old(canvas).reg()[id];
                        &&& old(canvas).reg().dom().contains(id)
                        &&& t0.data is WebView
                        &&& t0.data->WebView_webview_id is Some
                        &&& a.webview_id@ == (t0.data->WebView_webview_id)->0@
                        &&& a.visible == visible
                    },
                    None => !(old(canvas).reg().dom().contains(id) && old(
                        canvas,
                    ).reg()[id].data is WebView && old(
                        canvas,
                    ).reg()[id].data->WebView_webview_id is Some),
                })
            },
            Err(_) => {
                &&& !(all_digits(tile_id_str@) && tile_id_str@.len() > 0 && dec_val(tile_id_str@)
                    <= u64::MAX)
                &&& *final(canvas) == *old(canvas)
            },
        },
{
    let id = match parse_tile_id(tile_id_str) {
        Some(id) => id,
        None => {
            return Err(CommandError::MalformedId);
        },
    };
    let found = canvas.set_tile_visibility(id, visible);
    if !found {
        return Ok(None);
    }
    match canvas.get_tile(id) {
        Some(t) => {
            match &t.data {
                TileData::WebView { url: _, webview_id: Some(w) } => Ok(
                    Some(WebviewVisibility { webview_id: w.clone(), visible: t.visible }),
                ),
                _ => Ok(None),
            }
        },
        None => Ok(None),
    }
}

/// Pan the camera.
pub fn pan_camera(canvas: &mut InfiniteCanvas, delta: Fx2)
    requires
        old(canvas).wf(),
        delta.bounded(PAN_LIMIT as int),
    ensures
        final(canvas).wf(),
        (final(canvas).camera.position.x as int, final(canvas).camera.position.y as int) == old(
            canvas,
        ).camera.pan_pos_spec(delta),
        final(canvas).camera.zoom == old(canvas).camera.zoom,
        final(canvas).camera.rotation == old(canvas).camera.rotation,
        final(canvas).reg() == old(canvas).reg(),
        final(canvas).selected_spec() == old(canvas).selected_spec(),
        final(canvas).canvas_size == old(canvas).canvas_size,
        same_display_settings(old(canvas), final(canvas)),
{
    canvas.camera.pan(delta);
}

/// Zoom the camera at a world point.
pub fn zoom_camera(canvas: &mut InfiniteCanvas, factor: i64, target: Fx2)
    requires
        old(canvas).wf(),
        abs_spec(factor as int) <= FACTOR_LIMIT,
        target.bounded(GEOM_LIMIT as int),
    ensures
        final(canvas).wf(),
        final(canvas).camera.zoom == old(canvas).camera.zoom_at_zoom_spec(factor as int),
        (final(canvas).camera.position.x as int, final(canvas).camera.position.y as int) == old(
            canvas,
        ).camera.zoom_at_pos_spec(factor as int, target),
        final(canvas).camera.rotation == old(canvas).camera.rotation,
        final(canvas).reg() == old(canvas).reg(),
        final(canvas).selected_spec() == old(canvas).selected_spec(),
        final(canvas).canvas_size == old(canvas).canvas_size,
        same_display_settings(old(canvas), final(canvas)),
{
    canvas.camera.zoom_at(factor, target);
}

/// Rotate the camera.
pub fn rotate_camera(canvas: &mut InfiniteCanvas, angle: i64)
    requires
        old(canvas).wf(),
        angle != i64::MIN,
    ensures
        final(canvas).wf(),
        final(canvas).camera.rotation == crate::angle::norm_angle_spec(
            old(canvas).camera.rotation + angle,
        ),
        final(canvas).camera.position == old(canvas).camera.position,
        final(canvas).camera.zoom == old(canvas).camera.zoom,
        final(canvas).reg() == old(canvas).reg(),
        final(canvas).selected_spec() == old(canvas).selected_spec(),
        final(canvas).canvas_size == old(canvas).canvas_size,
        same_display_settings(old(canvas), final(canvas)),
{
    canvas.camera.rotate(angle);
}

/// Reset the camera to the identity view.
pub fn reset_camera(canvas: &mut InfiniteCanvas)
    requires
        old(canvas).wf(),
    ensures
        final(canvas).wf(),
        final(canvas).camera.position.x == 0,
        final(canvas).camera.position.y == 0,
        final(canvas).camera.zoom == FX_ONE,
        final(canvas).camera.rotation == 0,
        final(canvas).reg() == old(canvas).reg(),
        final(canvas).selected_spec() == old(canvas).selected_spec(),
        final(canvas).canvas_size == old(canvas).canvas_size,
        same_display_settings(old(canvas), final(canvas)),
{
    canvas.camera = Camera::default();
}

} // verus!
