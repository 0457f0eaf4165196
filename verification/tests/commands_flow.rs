use infinite_canvas::camera::{ZOOM_MAX, ZOOM_MIN};
use infinite_canvas::canvas::InfiniteCanvas;
use infinite_canvas::commands::{self, CommandError};
use infinite_canvas::fx::{Fx2, FX_ONE};
use infinite_canvas::host::WebViewManager;
use infinite_canvas::idtext::{parse_tile_id, parse_u64_dec, tile_id_to_string, u64_to_dec_string};
use infinite_canvas::tile::{Rgba, TileId};

fn canvas_800_600() -> InfiniteCanvas {
    InfiniteCanvas::new(Fx2::new(800 * FX_ONE, 600 * FX_ONE))
}

#[test]
fn decimal_text_roundtrip() {
    assert_eq!(u64_to_dec_string(0), "0");
    assert_eq!(u64_to_dec_string(7), "7");
    assert_eq!(u64_to_dec_string(1_234_567_890), "1234567890");
    assert_eq!(u64_to_dec_string(u64::MAX), "18446744073709551615");
    assert_eq!(parse_u64_dec("0"), Some(0));
    assert_eq!(parse_u64_dec("1234567890"), Some(1_234_567_890));
    assert_eq!(parse_u64_dec("18446744073709551615"), Some(u64::MAX));
    assert_eq!(parse_u64_dec(&u64_to_dec_string(987_654)), Some(987_654));
}

#[test]
fn malformed_identifier_text_is_rejected() {
    assert_eq!(parse_u64_dec(""), None);
    assert_eq!(parse_u64_dec("12a"), None);
    assert_eq!(parse_u64_dec("-5"), None);
    assert_eq!(parse_u64_dec(" 5"), None);
    assert_eq!(parse_u64_dec("18446744073709551616"), None);
    assert_eq!(parse_u64_dec("99999999999999999999999"), None);
    assert_eq!(parse_tile_id("x"), None);
    assert_eq!(parse_tile_id("41"), Some(TileId(41)));
    assert_eq!(tile_id_to_string(TileId(41)), "41");
}

#[test]
fn malformed_identifier_fails_the_request_without_mutation() {
    let mut canvas = canvas_800_600();
    let mut manager = WebViewManager::new();
    let r = commands::move_tile(&mut canvas, "not-an-id", 0, 0);
    assert_eq!(r.unwrap_err(), CommandError::MalformedId);
    assert_eq!(
        CommandError::MalformedId.message(),
        "malformed tile identifier"
    );
    let r2 = commands::remove_tile(&mut canvas, &mut manager, "");
    assert_eq!(r2.unwrap_err(), CommandError::MalformedId);
    assert_eq!(commands::get_tiles(&canvas).len(), 0);
    // Nothing else was touched either.
    let info = commands::get_canvas_info(&canvas);
    assert_eq!(info.camera_position, Fx2::new(0, 0));
    assert_eq!(info.camera_zoom, FX_ONE);
    assert_eq!(info.size, Fx2::new(800 * FX_ONE, 600 * FX_ONE));
    assert!(info.grid_visible);
}

#[test]
fn webview_creation_failure_rolls_the_tile_back() {
    // When host creation fails the command reports the failure and the
    // tile is not listed: creation is atomic.
    let mut canvas = canvas_800_600();
    let mut manager = WebViewManager::new();
    let (tile_id, create) = commands::add_webview_tile(
        &mut canvas,
        &mut manager,
        "https://example.com".to_string(),
        Fx2::new(10 * FX_ONE, 20 * FX_ONE),
        Fx2::new(300 * FX_ONE, 200 * FX_ONE),
        "page".to_string(),
    );
    assert_eq!(create.url, "https://example.com");
    assert_eq!(create.x, 10 * FX_ONE);
    assert_eq!(create.width, 300 * FX_ONE);
    let r = commands::complete_webview_creation(
        &mut canvas,
        &mut manager,
        tile_id,
        Err("window creation failed".to_string()),
    );
    assert_eq!(r.unwrap_err(), "window creation failed");
    assert_eq!(commands::get_tiles(&canvas).len(), 0);
    assert!(manager.get_webview_id_for_tile(tile_id).is_none());
}

#[test]
fn webview_lifecycle_create_move_resize_hide_remove() {
    let mut canvas = canvas_800_600();
    let mut manager = WebViewManager::new();
    let (tile_id, create) = commands::add_webview_tile(
        &mut canvas,
        &mut manager,
        "https://example.com".to_string(),
        Fx2::new(0, 0),
        Fx2::new(300 * FX_ONE, 200 * FX_ONE),
        "page".to_string(),
    );
    let ok = commands::complete_webview_creation(
        &mut canvas,
        &mut manager,
        tile_id,
        Ok(create.webview_id.clone()),
    );
    assert_eq!(ok.unwrap(), tile_id_to_string(tile_id));
    assert_eq!(
        manager.get_webview_id_for_tile(tile_id),
        Some(create.webview_id.clone())
    );

    let id_text = tile_id_to_string(tile_id);
    let placement = commands::move_tile(&mut canvas, &id_text, 5 * FX_ONE, 6 * FX_ONE)
        .unwrap()
        .expect("a moved remote-page tile needs a host action");
    assert_eq!(placement.webview_id, create.webview_id);
    assert_eq!(placement.x, 5 * FX_ONE);
    assert_eq!(placement.y, 6 * FX_ONE);

    let resize = commands::resize_tile(&mut canvas, &id_text, 30 * FX_ONE, 400 * FX_ONE)
        .unwrap()
        .expect("a resized remote-page tile needs a host action");
    assert_eq!(resize.width, 50 * FX_ONE, "dimensions clamp at the floor");
    assert_eq!(resize.height, 400 * FX_ONE);

    let vis = commands::set_tile_visibility(&mut canvas, &id_text, true)
        .unwrap()
        .expect("a shown remote-page tile needs a host action");
    assert_eq!(vis.webview_id, create.webview_id);
    assert!(vis.visible);

    let closed = commands::remove_tile(&mut canvas, &mut manager, &id_text).unwrap();
    assert_eq!(closed, Some(create.webview_id));
    assert_eq!(commands::get_tiles(&canvas).len(), 0);
    assert!(manager.get_webview_id_for_tile(tile_id).is_none());
}

#[test]
fn gated_commands_are_silent_for_missing_tiles() {
    let mut canvas = canvas_800_600();
    assert!(commands::move_tile(&mut canvas, "12", 0, 0).unwrap().is_none());
    assert!(commands::resize_tile(&mut canvas, "12", FX_ONE, FX_ONE)
        .unwrap()
        .is_none());
    assert!(commands::set_tile_visibility(&mut canvas, "12", false)
        .unwrap()
        .is_none());
}

#[test]
fn canvas_info_reports_the_defaults() {
    let canvas = canvas_800_600();
    let info = commands::get_canvas_info(&canvas);
    assert_eq!(info.size, Fx2::new(800 * FX_ONE, 600 * FX_ONE));
    assert_eq!(info.camera_position, Fx2::new(0, 0));
    assert_eq!(info.camera_zoom, FX_ONE);
    assert_eq!(info.camera_rotation, 0);
    assert!(info.grid_visible);
    assert_eq!(info.grid_size, 50 * FX_ONE);
    assert_eq!(info.background_color, Rgba { r: 1_000, g: 1_000, b: 1_000, a: FX_ONE });
}

#[test]
fn grid_and_viewport_updates_are_reported() {
    let mut canvas = canvas_800_600();
    canvas.update_grid(false, 25 * FX_ONE, Rgba { r: 0, g: 0, b: 0, a: FX_ONE });
    canvas.resize(Fx2::new(1024 * FX_ONE, 768 * FX_ONE));
    let info = commands::get_canvas_info(&canvas);
    assert!(!info.grid_visible);
    assert_eq!(info.grid_size, 25 * FX_ONE);
    assert_eq!(info.size, Fx2::new(1024 * FX_ONE, 768 * FX_ONE));
}

#[test]
fn camera_commands_mutate_only_the_camera() {
    let mut canvas = canvas_800_600();
    commands::pan_camera(&mut canvas, Fx2::new(10 * FX_ONE, 0));
    assert_eq!(canvas.camera.position, Fx2::new(-10 * FX_ONE, 0));
    commands::pan_camera(&mut canvas, Fx2::new(-10 * FX_ONE, 0));
    assert_eq!(canvas.camera.position, Fx2::new(0, 0));
    commands::zoom_camera(&mut canvas, 1_000_000_000, Fx2::new(0, 0));
    assert_eq!(canvas.camera.zoom, ZOOM_MAX);
    commands::zoom_camera(&mut canvas, 0, Fx2::new(0, 0));
    assert_eq!(canvas.camera.zoom, ZOOM_MIN);
    commands::rotate_camera(&mut canvas, -1);
    assert!(canvas.camera.rotation > 0);
    commands::reset_camera(&mut canvas);
    assert_eq!(canvas.camera.position, Fx2::new(0, 0));
    assert_eq!(canvas.camera.zoom, FX_ONE);
    assert_eq!(canvas.camera.rotation, 0);
}

#[test]
fn window_manager_allocates_fresh_identifiers() {
    let mut manager = WebViewManager::new();
    let a = manager.allocate_webview_id();
    let b = manager.allocate_webview_id();
    assert_eq!(a, "0");
    assert_eq!(b, "1");
    manager.register_webview(TileId(9), a.clone());
    assert_eq!(manager.get_webview_id_for_tile(TileId(9)), Some(a.clone()));
    // A second registration for the same tile replaces the first.
    manager.register_webview(TileId(9), b.clone());
    assert_eq!(manager.get_webview_id_for_tile(TileId(9)), Some(b.clone()));
    assert_eq!(manager.remove_webview(TileId(9)), Some(b));
    assert_eq!(manager.remove_webview(TileId(9)), None);
}
