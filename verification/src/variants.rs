//! The three tile content kinds as standalone values: construction and
//! extraction helpers around the tile's tagged payload.

use vstd::prelude::*;
use crate::fx::{clamp_spec, Fx2, GEOM_LIMIT};
use crate::camera::sat_coord_spec;
use crate::tile::{clone_command, cmd_like, DrawingCommand, Tile, TileData, TileType};
use crate::jsonval::clone_value;

verus! {

/// A remote-page tile's content: a URL, and the identifier of the backing
/// window once it has been created.
#[derive(Debug)]
pub struct WebViewTile {
    pub url: String,
    pub webview_id: Option<String>,
}

impl WebViewTile {
    /// Content for a page at `url`, with no backing window yet.
    pub fn new(url: String) -> (r: WebViewTile)
        ensures
            r.url == url,
            r.webview_id is None,
    {
        WebViewTile { url, webview_id: None }
    }

    /// Wrap the content in a fresh tile at the given geometry.
    pub fn to_tile(self, position: Fx2, size: Fx2, title: String) -> (r: Tile)
        ensures
            r.tile_type == TileType::WebView,
            r.data == (TileData::WebView { url: self.url, webview_id: self.webview_id }),
            r.title == title,
            r.position.x == sat_coord_spec(position.x as int),
            r.position.y == sat_coord_spec(position.y as int),
            r.size.x == clamp_spec(size.x as int, 0, GEOM_LIMIT as int),
            r.size.y == clamp_spec(size.y as int, 0, GEOM_LIMIT as int),
            r.rotation == 0 && r.z_index == 0 && r.resizable && r.movable && r.visible,
            r.wf(),
    {
        Tile::new(
            position,
            size,
            TileType::WebView,
            TileData::WebView { url: self.url, webview_id: self.webview_id },
            title,
        )
    }

    /// Read the content back out of a tile; answers nothing on a tile of
    /// another kind.
    pub fn from_tile(tile: &Tile) -> (r: Option<WebViewTile>)
        ensures
            match r {
                Some(w) => tile.data is WebView && w.url == tile.data->WebView_url
                    && w.webview_id == tile.data->WebView_webview_id,
                None => !(tile.data is WebView),
            },
    {
        match &tile.data {
            TileData::WebView { url, webview_id } => {
                let wid = match webview_id {
                    Some(w) => Some(w.clone()),
                    None => None,
                };
                Some(WebViewTile { url: url.clone(), webview_id: wid })
            },
            _ => None,
        }
    }

    /// Record the identifier of the backing window.
    pub fn set_webview_id(&mut self, id: String)
        ensures
            final(self).url == old(self).url,
            final(self).webview_id == Some(id),
    {
        self.webview_id = Some(id);
    }
}

/// A widget tile's content: a widget kind and its opaque configuration
/// payload, passed through uninterpreted.
#[derive(Debug)]
pub struct EguiTile {
    pub widget_type: String,
    pub config: serde_json::Value,
}

impl EguiTile {
    /// Content for a widget of the given kind and configuration.
    pub fn new(widget_type: String, config: serde_json::Value) -> (r: EguiTile)
        ensures
            r.widget_type == widget_type,
            r.config == config,
    {
        EguiTile { widget_type, config }
    }

    /// Wrap the content in a fresh tile at the given geometry.
    pub fn to_tile(self, position: Fx2, size: Fx2, title: String) -> (r: Tile)
        ensures
            r.tile_type == TileType::Egui,
            r.data == (TileData::Egui { widget_type: self.widget_type, config: self.config }),
            r.title == title,
            r.position.x == sat_coord_spec(position.x as int),
            r.position.y == sat_coord_spec(position.y as int),
            r.size.x == clamp_spec(size.x as int, 0, GEOM_LIMIT as int),
            r.size.y == clamp_spec(size.y as int, 0, GEOM_LIMIT as int),
            r.rotation == 0 && r.z_index == 0 && r.resizable && r.movable && r.visible,
            r.wf(),
    {
        Tile::new(
            position,
            size,
            TileType::Egui,
            TileData::Egui { widget_type: self.widget_type, config: self.config },
            title,
        )
    }

    /// Read the content back out of a tile; answers nothing on a tile of
    /// another kind.
    pub fn from_tile(tile: &Tile) -> (r: Option<EguiTile>)
        ensures
            match r {
                Some(w) => tile.data is Egui && w.widget_type == tile.data->Egui_widget_type
                    && w.config == tile.data->Egui_config,
                None => !(tile.data is Egui),
            },
    {
        match &tile.data {
            TileData::Egui { widget_type, config } => Some(
                EguiTile { widget_type: widget_type.clone(), config: clone_value(config) },
            ),
            _ => None,
        }
    }
}

/// A vector-drawing tile's content: the ordered log of drawing commands.
#[derive(Debug)]
pub struct SkiaTile {
    pub drawing_commands: Vec<DrawingCommand>,
}

impl SkiaTile {
    /// Content with an empty command log.
    pub fn new() -> (r: SkiaTile)
        ensures
            r.drawing_commands@ =~= Seq::<DrawingCommand>::empty(),
    {
        SkiaTile { drawing_commands: Vec::new() }
    }

    /// Wrap the content in a fresh tile at the given geometry.
    pub fn to_tile(self, position: Fx2, size: Fx2, title: String) -> (r: Tile)
        ensures
            r.tile_type == TileType::Skia,
            r.data == (TileData::Skia { drawing_commands: self.drawing_commands }),
            r.title == title,
            r.position.x == sat_coord_spec(position.x as int),
            r.position.y == sat_coord_spec(position.y as int),
            r.size.x == clamp_spec(size.x as int, 0, GEOM_LIMIT as int),
            r.size.y == clamp_spec(size.y as int, 0, GEOM_LIMIT as int),
            r.rotation == 0 && r.z_index == 0 && r.resizable && r.movable && r.visible,
            r.wf(),
    {
        Tile::new(
            position,
            size,
            TileType::Skia,
            TileData::Skia { drawing_commands: self.drawing_commands },
            title,
        )
    }

    /// Read the content back out of a tile, copying the command log;
    /// answers nothing on a tile of another kind.
    pub fn from_tile(tile: &Tile) -> (r: Option<SkiaTile>)
        ensures
            match r {
                Some(w) => tile.data is Skia && w.drawing_commands@.len()
                    == tile.data->Skia_drawing_commands@.len() && forall|i: int|
                    0 <= i < w.drawing_commands@.len() ==> cmd_like(
                        #[trigger] w.drawing_commands@[i],
                        tile.data->Skia_drawing_commands@[i],
                    ),
                None => !(tile.data is Skia),
            },
    {
        match &tile.data {
            TileData::Skia { drawing_commands } => {
                let mut v: Vec<DrawingCommand> = Vec::new();
                let mut i: usize = 0;
                while i < drawing_commands.len()
                    invariant
                        i <= drawing_commands@.len(),
                        v@.len() == i,
                        forall|j: int|
                            0 <= j < i ==> cmd_like(#[trigger] v@[j], drawing_commands@[j]),
                    decreases drawing_commands@.len() - i,
                {
                    v.push(clone_command(&drawing_commands[i]));
                    i += 1;
                }
                Some(SkiaTile { drawing_commands: v })
            },
            _ => None,
        }
    }

    /// Append a drawing command to the log.
    pub fn add_command(&mut self, command: DrawingCommand)
        ensures
            final(self).drawing_commands@ == old(self).drawing_commands@.push(command),
    {
        self.drawing_commands.push(command);
    }

    /// Empty the command log.
    pub fn clear_commands(&mut self)
        ensures
            final(self).drawing_commands@ =~= Seq::<DrawingCommand>::empty(),
    {
        self.drawing_commands.clear();
    }
}

} // verus!
