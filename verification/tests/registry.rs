use infinite_canvas::camera::Camera;
use infinite_canvas::canvas::InfiniteCanvas;
use infinite_canvas::commands;
use infinite_canvas::fx::{Fx2, FX_ONE};
use infinite_canvas::tile::{Tile, TileId, TileType};
use infinite_canvas::variants::EguiTile;

fn canvas_800_600() -> InfiniteCanvas {
    InfiniteCanvas::new(Fx2::new(800 * FX_ONE, 600 * FX_ONE))
}

fn plain_tile(x: i64, y: i64, w: i64, h: i64) -> Tile {
    EguiTile::new(
        "panel".to_string(),
        serde_json::Value::Null,
    )
    .to_tile(
        Fx2::new(x * FX_ONE, y * FX_ONE),
        Fx2::new(w * FX_ONE, h * FX_ONE),
        "panel".to_string(),
    )
}

#[test]
fn add_then_remove_leaves_registry_empty_and_clears_selection() {
    let mut canvas = canvas_800_600();
    let id = canvas.add_tile(plain_tile(0, 0, 100, 100));
    canvas.select_tile(Some(id));
    assert!(canvas.get_selected_tile().is_some());
    let removed = canvas.remove_tile(id);
    assert!(removed.is_some());
    assert_eq!(commands::get_tiles(&canvas).len(), 0);
    assert!(canvas.get_selected_tile().is_none());
}

#[test]
fn identifiers_are_unique_and_never_reused() {
    let mut canvas = canvas_800_600();
    let a = canvas.add_tile(plain_tile(0, 0, 100, 100));
    let b = canvas.add_tile(plain_tile(10, 10, 100, 100));
    assert_ne!(a, b);
    canvas.remove_tile(a);
    let c = canvas.add_tile(plain_tile(20, 20, 100, 100));
    assert_ne!(c, a);
    assert_ne!(c, b);
}

#[test]
fn removing_an_unknown_identifier_is_tolerated() {
    let mut canvas = canvas_800_600();
    assert!(canvas.remove_tile(TileId(99)).is_none());
    assert_eq!(commands::get_tiles(&canvas).len(), 0);
}

#[test]
fn selecting_a_dead_identifier_clears_the_selection() {
    let mut canvas = canvas_800_600();
    let id = canvas.add_tile(plain_tile(0, 0, 100, 100));
    canvas.select_tile(Some(id));
    canvas.select_tile(Some(TileId(42)));
    assert!(canvas.get_selected_tile().is_none());
}

#[test]
fn get_tile_finds_the_stored_tile() {
    let mut canvas = canvas_800_600();
    let id = canvas.add_tile(plain_tile(7, 8, 100, 100));
    let t = canvas.get_tile(id).unwrap();
    assert_eq!(t.position, Fx2::new(7 * FX_ONE, 8 * FX_ONE));
    assert!(canvas.get_tile(TileId(id.0 + 1)).is_none());
}

#[test]
fn hit_test_returns_the_higher_z_index_of_overlapping_tiles() {
    let mut canvas = canvas_800_600();
    let mut below = plain_tile(0, 0, 200, 150);
    below.set_z_index(1 * FX_ONE);
    let mut above = plain_tile(0, 0, 200, 150);
    above.set_z_index(5 * FX_ONE);
    let id_below = canvas.add_tile(below);
    let id_above = canvas.add_tile(above);
    // The screen center maps to world (0, 0), inside both tiles.
    let center = Fx2::new(400 * FX_ONE, 300 * FX_ONE);
    assert_eq!(canvas.tile_at_position(center), Some(id_above));
    let _ = id_below;

    // The same with the tiles inserted in the opposite order.
    let mut canvas2 = canvas_800_600();
    let mut top_first = plain_tile(0, 0, 200, 150);
    top_first.set_z_index(5 * FX_ONE);
    let id_top = canvas2.add_tile(top_first);
    let mut low_second = plain_tile(0, 0, 200, 150);
    low_second.set_z_index(1 * FX_ONE);
    canvas2.add_tile(low_second);
    assert_eq!(canvas2.tile_at_position(center), Some(id_top));
}

#[test]
fn hit_test_misses_when_no_tile_contains_the_point() {
    let mut canvas = canvas_800_600();
    canvas.add_tile(plain_tile(1000, 1000, 100, 100));
    let center = Fx2::new(400 * FX_ONE, 300 * FX_ONE);
    assert_eq!(canvas.tile_at_position(center), None);
}

#[test]
fn widget_scenario_hit_move_hit() {
    // Create a widget tile at (100, 100), size 200 x 150; aim the camera at
    // (100, 100) so that the screen center maps there; hit; move the tile
    // to (50, 0); the original point misses, the new center hits.
    let mut canvas = canvas_800_600();
    let (id, id_text) = commands::add_egui_tile(
        &mut canvas,
        "chart".to_string(),
        serde_json::Value::Null,
        Fx2::new(100 * FX_ONE, 100 * FX_ONE),
        Fx2::new(200 * FX_ONE, 150 * FX_ONE),
        "chart".to_string(),
    );
    let center = Fx2::new(400 * FX_ONE, 300 * FX_ONE);
    canvas.camera = Camera::new(Fx2::new(100 * FX_ONE, 100 * FX_ONE), FX_ONE, 0);
    assert_eq!(canvas.tile_at_position(center), Some(id));

    let moved = commands::move_tile(&mut canvas, &id_text, 50 * FX_ONE, 0).unwrap();
    assert!(moved.is_none(), "a widget tile needs no host action");
    // The world point (100, 100) is no longer covered: the tile now spans
    // [-50, 150] x [-75, 75].
    assert_eq!(canvas.tile_at_position(center), None);
    // The new center (50, 0) is.
    canvas.camera = Camera::new(Fx2::new(50 * FX_ONE, 0), FX_ONE, 0);
    assert_eq!(canvas.tile_at_position(center), Some(id));
}

#[test]
fn tiles_listing_reports_each_tile() {
    let mut canvas = canvas_800_600();
    let id = canvas.add_tile(plain_tile(3, 4, 100, 120));
    let infos = commands::get_tiles(&canvas);
    assert_eq!(infos.len(), 1);
    assert_eq!(infos[0].id, id.0.to_string());
    assert_eq!(infos[0].position, Fx2::new(3 * FX_ONE, 4 * FX_ONE));
    assert_eq!(infos[0].size, Fx2::new(100 * FX_ONE, 120 * FX_ONE));
    assert_eq!(infos[0].tile_type, TileType::Egui);
    assert_eq!(infos[0].title, "panel");
    assert!(infos[0].visible);
}
