use infinite_canvas::fx::{Fx2, FX_ONE};
use infinite_canvas::angle::TAU_URAD;
use infinite_canvas::tile::{DrawingCommand, MIN_TILE_DIM, Rgba, Tile, TileData, TileType};
use infinite_canvas::variants::{EguiTile, SkiaTile, WebViewTile};

fn widget_tile() -> Tile {
    EguiTile::new(
        "clock".to_string(),
        serde_json::Value::String("dark".to_string()),
    )
    .to_tile(
        Fx2::new(100 * FX_ONE, 100 * FX_ONE),
        Fx2::new(200 * FX_ONE, 150 * FX_ONE),
        "widget".to_string(),
    )
}

#[test]
fn resize_is_refused_on_non_resizable_tile() {
    let mut t = widget_tile();
    t.resizable = false;
    t.resize(Fx2::new(10 * FX_ONE, 10 * FX_ONE));
    assert_eq!(t.size, Fx2::new(200 * FX_ONE, 150 * FX_ONE));
}

#[test]
fn resize_clamps_each_dimension_to_fifty_units() {
    let mut t = widget_tile();
    t.resize(Fx2::new(30 * FX_ONE, 80 * FX_ONE));
    assert_eq!(t.size, Fx2::new(MIN_TILE_DIM, 80 * FX_ONE));
    assert_eq!(MIN_TILE_DIM, 50 * FX_ONE);
    t.resize(Fx2::new(49 * FX_ONE + 9_999, 0));
    assert_eq!(t.size, Fx2::new(50 * FX_ONE, 50 * FX_ONE));
}

#[test]
fn move_is_refused_on_non_movable_tile() {
    let mut t = widget_tile();
    t.movable = false;
    t.move_by(Fx2::new(FX_ONE, FX_ONE));
    assert_eq!(t.position, Fx2::new(100 * FX_ONE, 100 * FX_ONE));
    t.move_to(Fx2::new(0, 0));
    assert_eq!(t.position, Fx2::new(100 * FX_ONE, 100 * FX_ONE));
}

#[test]
fn move_by_adds_the_delta() {
    let mut t = widget_tile();
    t.move_by(Fx2::new(50 * FX_ONE, -25 * FX_ONE));
    assert_eq!(t.position, Fx2::new(150 * FX_ONE, 75 * FX_ONE));
}

#[test]
fn tile_rotation_is_normalized() {
    let mut t = widget_tile();
    t.rotate(-1);
    assert_eq!(t.rotation, TAU_URAD - 1);
    t.rotate(1);
    assert_eq!(t.rotation, 0);
}

#[test]
fn contains_point_covers_the_closed_box() {
    let t = widget_tile();
    // The box spans [0, 200] x [25, 175] units.
    assert!(t.contains_point(Fx2::new(100 * FX_ONE, 100 * FX_ONE)));
    assert!(t.contains_point(Fx2::new(0, 25 * FX_ONE)));
    assert!(t.contains_point(Fx2::new(200 * FX_ONE, 175 * FX_ONE)));
    assert!(!t.contains_point(Fx2::new(200 * FX_ONE + 1, 100 * FX_ONE)));
    assert!(!t.contains_point(Fx2::new(100 * FX_ONE, 24 * FX_ONE)));
}

#[test]
fn webview_tile_roundtrip_and_id_attachment() {
    let w = WebViewTile::new("https://example.com".to_string());
    assert_eq!(w.webview_id, None);
    let t = w.to_tile(
        Fx2::new(0, 0),
        Fx2::new(100 * FX_ONE, 100 * FX_ONE),
        "page".to_string(),
    );
    assert_eq!(t.tile_type, TileType::WebView);
    let mut back = WebViewTile::from_tile(&t).unwrap();
    assert_eq!(back.url, "https://example.com");
    back.set_webview_id("7".to_string());
    assert_eq!(back.webview_id, Some("7".to_string()));
    assert!(EguiTile::from_tile(&t).is_none());
    assert!(SkiaTile::from_tile(&t).is_none());
}

#[test]
fn tile_attach_webview_id_only_on_remote_page_tiles() {
    let mut t = WebViewTile::new("https://example.com".to_string()).to_tile(
        Fx2::new(0, 0),
        Fx2::new(100 * FX_ONE, 100 * FX_ONE),
        "page".to_string(),
    );
    assert!(t.attach_webview_id("3".to_string()));
    match &t.data {
        TileData::WebView { url, webview_id } => {
            assert_eq!(url, "https://example.com");
            assert_eq!(webview_id.as_deref(), Some("3"));
        }
        _ => panic!("expected a remote-page payload"),
    }
    let mut other = widget_tile();
    assert!(!other.attach_webview_id("4".to_string()));
}

#[test]
fn egui_tile_keeps_its_config_verbatim() {
    let cfg = serde_json::Value::String("dark".to_string());
    let e = EguiTile::new("clock".to_string(), cfg.clone());
    let t = e.to_tile(
        Fx2::new(0, 0),
        Fx2::new(100 * FX_ONE, 100 * FX_ONE),
        "widget".to_string(),
    );
    assert_eq!(t.tile_type, TileType::Egui);
    let back = EguiTile::from_tile(&t).unwrap();
    assert_eq!(back.widget_type, "clock");
    assert_eq!(back.config, cfg);
}

#[test]
fn skia_tile_command_log_appends_and_clears() {
    let mut s = SkiaTile::new();
    assert!(s.drawing_commands.is_empty());
    s.add_command(DrawingCommand::MoveTo(Fx2::new(0, 0)));
    s.add_command(DrawingCommand::LineTo(Fx2::new(FX_ONE, FX_ONE)));
    s.add_command(DrawingCommand::SetFillColor(Rgba { r: FX_ONE, g: 0, b: 0, a: FX_ONE }));
    s.add_command(DrawingCommand::Fill);
    assert_eq!(s.drawing_commands.len(), 4);
    let t = s.to_tile(
        Fx2::new(0, 0),
        Fx2::new(100 * FX_ONE, 100 * FX_ONE),
        "drawing".to_string(),
    );
    assert_eq!(t.tile_type, TileType::Skia);
    let mut back = SkiaTile::from_tile(&t).unwrap();
    assert_eq!(back.drawing_commands.len(), 4);
    match back.drawing_commands[1] {
        DrawingCommand::LineTo(p) => assert_eq!(p, Fx2::new(FX_ONE, FX_ONE)),
        _ => panic!("expected the line command"),
    }
    back.clear_commands();
    assert!(back.drawing_commands.is_empty());
}

#[test]
fn tile_new_clamps_geometry_and_sets_defaults() {
    let t = widget_tile();
    assert_eq!(t.rotation, 0);
    assert_eq!(t.z_index, 0);
    assert!(t.resizable && t.movable && t.visible);
    assert_eq!(t.title, "widget");
}
