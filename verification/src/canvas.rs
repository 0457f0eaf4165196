//! The infinite canvas: a camera, the registry of tiles keyed by
//! identifier, the selection, and the global display settings.
//!
//! Identifiers come from a counter, so an identifier never collides with a
//! live one and is never reused. The registry's contracts speak of the
//! finite map it denotes.

use vstd::prelude::*;
use crate::fx::{Fx2, FX_ONE, GEOM_LIMIT};
use crate::camera::{Camera, SCREEN_POS_LIMIT, SCREEN_SIZE_LIMIT};
use crate::tile::{Rgba, Tile, TileId, TileType, resize_dim_spec};
use crate::assoc::{
    find_index, has_key, keys_distinct, lemma_distinct_push, lemma_distinct_remove,
    lemma_map_of_domain, lemma_map_of_index, lemma_map_of_push, lemma_map_of_remove,
    lemma_map_of_update, lemma_remove_insert_is_update, map_of,
};

verus! {

/// What a correct hit test may answer at world point `(wx, wy)` over the
/// tiles of `reg`: a tile containing the point, of maximal stacking order
/// among those that do (ties broken arbitrarily), or nothing when no tile
/// contains the point.
pub open spec fn hit_result_ok(reg: Map<u64, Tile>, wx: int, wy: int, r: Option<TileId>) -> bool {
    match r {
        Some(id) => reg.dom().contains(id.0) && reg[id.0].contains_spec(wx, wy) && forall|k: u64|
            reg.dom().contains(k) && (#[trigger] reg[k]).contains_spec(wx, wy) ==> reg[k].z_index
                <= reg[id.0].z_index,
        None => forall|k: u64|
            reg.dom().contains(k) ==> !(#[trigger] reg[k]).contains_spec(wx, wy),
    }
}

/// Where a gated move leaves a tile: at the clamped position when movable,
/// untouched otherwise.
pub open spec fn tile_moved_to(t: Tile, p: Fx2) -> Tile {
    if t.movable {
        Tile {
            position: Fx2 {
                x: crate::camera::sat_coord_spec(p.x as int) as i64,
                y: crate::camera::sat_coord_spec(p.y as int) as i64,
            },
            ..t
        }
    } else {
        t
    }
}

/// Where a gated resize leaves a tile: each dimension raised to the minimum
/// floor when resizable, untouched otherwise.
pub open spec fn tile_resized_to(t: Tile, s: Fx2) -> Tile {
    if t.resizable {
        Tile {
            size: Fx2 {
                x: resize_dim_spec(s.x as int) as i64,
                y: resize_dim_spec(s.y as int) as i64,
            },
            ..t
        }
    } else {
        t
    }
}

/// The tile with its visibility set.
pub open spec fn tile_visibility_set(t: Tile, v: bool) -> Tile {
    Tile { visible: v, ..t }
}

/// The tile with the backing window's identifier recorded, when it is a
/// remote-page tile; untouched otherwise.
pub open spec fn tile_webview_attached(t: Tile, wid: String) -> Tile {
    if t.tile_type == TileType::WebView {
        Tile {
            data: crate::tile::TileData::WebView {
                url: t.data->WebView_url,
                webview_id: Some(wid),
            },
            ..t
        }
    } else {
        t
    }
}

/// The display settings — background color and grid — agree between two
/// canvas states.
pub open spec fn same_display_settings(a: &InfiniteCanvas, b: &InfiniteCanvas) -> bool {
    &&& b.background_color == a.background_color
    &&& b.grid_visible == a.grid_visible
    &&& b.grid_size == a.grid_size
    &&& b.grid_color == a.grid_color
}

/// The canvas: the camera, the owned tile registry, the optional selection,
/// the viewport size, and background and grid settings.
#[derive(Debug)]
pub struct InfiniteCanvas {
    pub camera: Camera,
    pub tiles: Vec<(u64, Tile)>,
    pub next_id: u64,
    pub selected: Option<TileId>,
    pub canvas_size: Fx2,
    pub background_color: Rgba,
    pub grid_visible: bool,
    pub grid_size: i64,
    pub grid_color: Rgba,
}

impl InfiniteCanvas {
    /// The registry as the finite map it denotes.
    pub open spec fn reg(&self) -> Map<u64, Tile> {
        map_of(self.tiles@)
    }

    /// The registry's entries in storage order.
    pub open spec fn entries(&self) -> Seq<(u64, Tile)> {
        self.tiles@
    }

    /// The selected tile, if any.
    pub open spec fn selected_spec(&self) -> Option<TileId> {
        self.selected
    }

    /// Another identifier can still be allocated.
    pub open spec fn can_allocate(&self) -> bool {
        self.next_id < u64::MAX
    }

    /// The canvas invariant: the camera and every tile are well formed, the
    /// viewport is a positive size, keys are distinct and below the
    /// allocation counter, and the selection names a live tile or nothing.
    pub open spec fn wf(&self) -> bool {
        &&& self.camera.wf()
        &&& 1 <= self.canvas_size.x <= SCREEN_SIZE_LIMIT
        &&& 1 <= self.canvas_size.y <= SCREEN_SIZE_LIMIT
        &&& keys_distinct(self.tiles@)
        &&& forall|i: int|
            0 <= i < self.tiles@.len() ==> (#[trigger] self.tiles@[i]).0 < self.next_id
        &&& forall|i: int| 0 <= i < self.tiles@.len() ==> (#[trigger] self.tiles@[i]).1.wf()
        &&& match self.selected {
            Some(id) => has_key(self.tiles@, id.0),
            None => true,
        }
    }

    /// An empty canvas with the given viewport size and the default camera
    /// and display settings.
    pub fn new(canvas_size: Fx2) -> (r: InfiniteCanvas)
        requires
            1 <= canvas_size.x <= SCREEN_SIZE_LIMIT,
            1 <= canvas_size.y <= SCREEN_SIZE_LIMIT,
        ensures
            r.wf(),
            r.reg() == Map::<u64, Tile>::empty(),
            r.entries() =~= Seq::<(u64, Tile)>::empty(),
            r.selected_spec() is None,
            r.canvas_size == canvas_size,
            r.camera.position.x == 0,
            r.camera.position.y == 0,
            r.camera.zoom == FX_ONE,
            r.camera.rotation == 0,
            r.can_allocate(),
            r.grid_visible,
            r.grid_size == 50 * FX_ONE,
            r.background_color == (Rgba { r: 1_000, g: 1_000, b: 1_000, a: FX_ONE }),
            r.grid_color == (Rgba { r: 2_000, g: 2_000, b: 2_000, a: FX_ONE }),
    {
        InfiniteCanvas {
            camera: Camera::default(),
            tiles: Vec::new(),
            next_id: 0,
            selected: None,
            canvas_size,
            background_color: Rgba { r: 1_000, g: 1_000, b: 1_000, a: FX_ONE },
            grid_visible: true,
            grid_size: 50 * FX_ONE,
            grid_color: Rgba { r: 2_000, g: 2_000, b: 2_000, a: FX_ONE },
        }
    }

    /// Insert a tile under a fresh identifier and return the identifier.
    /// The identifier never collides with a live one: identifiers count up
    /// and are never reused.
    pub fn add_tile(&mut self, tile: Tile) -> (id: TileId)
        requires
            old(self).wf(),
            old(self).can_allocate(),
            tile.wf(),
        ensures
            !old(self).reg().dom().contains(id.0),
            final(self).reg() == old(self).reg().insert(id.0, tile),
            final(self).entries() == old(self).entries().push((id.0, tile)),
            final(self).selected_spec() == old(self).selected_spec(),
            final(self).camera == old(self).camera,
            final(self).canvas_size == old(self).canvas_size,
            same_display_settings(old(self), final(self)),
            final(self).wf(),
    {
        let id = self.next_id;
        proof {
            assert(!has_key(self.tiles@, id));
            lemma_map_of_domain(self.tiles@, id);
            lemma_distinct_push(self.tiles@, id, tile);
            lemma_map_of_push(self.tiles@, id, tile);
        }
        self.tiles.push((id, tile));
        self.next_id = id + 1;
        proof {
            if self.selected is Some {
                let sid = self.selected->0;
                let i = choose|i: int|
                    0 <= i < old(self).tiles@.len() && (#[trigger] old(self).tiles@[i]).0 == sid.0;
                assert(self.tiles@[i].0 == sid.0);
            }
        }
        TileId(id)
    }

    /// Remove a tile, returning it; absent identifiers are tolerated and
    /// answered with nothing. Removing the selected tile clears the
    /// selection.
    pub fn remove_tile(&mut self, id: TileId) -> (r: Option<Tile>)
        requires
            old(self).wf(),
        ensures
            old(self).reg().dom().contains(id.0) ==> (match r {
                Some(t) => t == old(self).reg()[id.0],
                None => false,
            }) && final(self).reg() =~= old(self).reg().remove(id.0),
            !old(self).reg().dom().contains(id.0) ==> r is None && final(self).reg() == old(
                self,
            ).reg(),
            old(self).selected_spec() == Some(id) ==> final(self).selected_spec() is None,
            old(self).selected_spec() != Some(id) ==> final(self).selected_spec() == old(
                self,
            ).selected_spec(),
            !old(self).reg().dom().contains(id.0) ==> *final(self) == *old(self),
            final(self).camera == old(self).camera,
            final(self).canvas_size == old(self).canvas_size,
            same_display_settings(old(self), final(self)),
            final(self).wf(),
    {
        let clear = match self.selected {
            Some(sid) => sid.0 == id.0,
            None => false,
        };
        if clear {
            self.selected = None;
        }
        proof {
            lemma_map_of_domain(self.tiles@, id.0);
        }
        match find_index(&self.tiles, id.0) {
            Some(i) => {
                proof {
                    lemma_map_of_index(self.tiles@, i as int);
                    lemma_map_of_remove(self.tiles@, i as int);
                    lemma_distinct_remove(self.tiles@, i as int);
                }
                let (_, t) = self.tiles.remove(i);
                proof {
                    assert(forall|j: int|
                        0 <= j < self.tiles@.len() ==> (#[trigger] self.tiles@[j]) == if j < i {
                            old(self).tiles@[j]
                        } else {
                            old(self).tiles@[j + 1]
                        });
                    if self.selected is Some {
                        let sid = self.selected->0;
                        let j = choose|j: int|
                            0 <= j < old(self).tiles@.len() && (#[trigger] old(
                                self,
                            ).tiles@[j]).0 == sid.0;
                        if j < i {
                            assert(self.tiles@[j].0 == sid.0);
                        } else {
                            assert(j > i);
                            assert(self.tiles@[j - 1].0 == sid.0);
                        }
                    }
                }
                Some(t)
            },
            None => None,
        }
    }

    /// Borrow a tile by identifier.
    pub fn get_tile(&self, id: TileId) -> (r: Option<&Tile>)
        requires
            self.wf(),
        ensures
            match r {
                Some(t) => self.reg().dom().contains(id.0) && *t == self.reg()[id.0],
                None => !self.reg().dom().contains(id.0),
            },
    {
        proof {
            lemma_map_of_domain(self.tiles@, id.0);
        }
        match find_index(&self.tiles, id.0) {
            Some(i) => {
                proof {
                    lemma_map_of_index(self.tiles@, i as int);
                }
                Some(&self.tiles[i].1)
            },
            None => None,
        }
    }

    /// Select a tile, or clear the selection. A selection of an identifier
    /// that is not live is treated as clearing: the selection always names
    /// a live tile or nothing.
    pub fn select_tile(&mut self, id: Option<TileId>)
        requires
            old(self).wf(),
        ensures
            final(self).selected_spec() == (match id {
                Some(i) => if old(self).reg().dom().contains(i.0) {
                    Some(i)
                } else {
                    None::<TileId>
                },
                None => None::<TileId>,
            }),
            final(self).reg() == old(self).reg(),
            final(self).entries() == old(self).entries(),
            final(self).camera == old(self).camera,
            final(self).canvas_size == old(self).canvas_size,
            same_display_settings(old(self), final(self)),
            final(self).wf(),
    {
        proof {
            if id is Some {
                lemma_map_of_domain(self.tiles@, (id->0).0);
            }
        }
        match id {
            Some(i) => {
                match find_index(&self.tiles, i.0) {
                    Some(_) => {
                        self.selected = Some(i);
                    },
                    None => {
                        self.selected = None;
                    },
                }
            },
            None => {
                self.selected = None;
            },
        }
    }

    /// Borrow the selected tile, if one is selected.
    pub fn get_selected_tile(&self) -> (r: Option<&Tile>)
        requires
            self.wf(),
        ensures
            match self.selected_spec() {
                Some(id) => (match r {
                    Some(t) => self.reg().dom().contains(id.0) && *t == self.reg()[id.0],
                    None => false,
                }),
                None => r is None,
            },
    {
        match self.selected {
            Some(id) => {
                proof {
                    lemma_map_of_domain(self.tiles@, id.0);
                }
                self.get_tile(id)
            },
            None => None,
        }
    }

    /// Set the viewport size.
    pub fn resize(&mut self, new_size: Fx2)
        requires
            old(self).wf(),
            1 <= new_size.x <= SCREEN_SIZE_LIMIT,
            1 <= new_size.y <= SCREEN_SIZE_LIMIT,
        ensures
            final(self).canvas_size == new_size,
            final(self).reg() == old(self).reg(),
            final(self).selected_spec() == old(self).selected_spec(),
            final(self).camera == old(self).camera,
            same_display_settings(old(self), final(self)),
            final(self).wf(),
    {
        self.canvas_size = new_size;
    }

    /// Set the grid display settings.
    pub fn update_grid(&mut self, visible: bool, size: i64, color: Rgba)
        requires
            old(self).wf(),
        ensures
            final(self).grid_visible == visible,
            final(self).grid_size == size,
            final(self).grid_color == color,
            final(self).background_color == old(self).background_color,
            final(self).reg() == old(self).reg(),
            final(self).selected_spec() == old(self).selected_spec(),
            final(self).camera == old(self).camera,
            final(self).canvas_size == old(self).canvas_size,
            final(self).wf(),
    {
        self.grid_visible = visible;
        self.grid_size = size;
        self.grid_color = color;
    }

    /// Place a tile at an absolute position, if it exists; the move is a
    /// silent no-op when the tile is not movable. Answers whether the
    /// identifier was live.
    pub fn move_tile_to(&mut self, id: TileId, position: Fx2) -> (found: bool)
        requires
            old(self).wf(),
        ensures
            found == old(self).reg().dom().contains(id.0),
            found ==> final(self).reg() =~= old(self).reg().insert(
                id.0,
                tile_moved_to(old(self).reg()[id.0], position),
            ),
            !found ==> final(self).reg() == old(self).reg(),
            !found ==> *final(self) == *old(self),
            final(self).selected_spec() == old(self).selected_spec(),
            final(self).camera == old(self).camera,
            final(self).canvas_size == old(self).canvas_size,
            same_display_settings(old(self), final(self)),
            final(self).wf(),
    {
        proof {
            lemma_map_of_domain(self.tiles@, id.0);
        }
        match find_index(&self.tiles, id.0) {
            Some(i) => {
                proof {
                    lemma_map_of_index(self.tiles@, i as int);
                }
                let (k, mut t) = self.tiles.remove(i);
                let ghost t0 = old(self).reg()[id.0];
                t.move_to(position);
                self.tiles.insert(i, (k, t));
                proof {
                    assert(t == tile_moved_to(t0, position));
                    self.lemma_after_update(*old(self), i as int, t);
                }
                true
            },
            None => false,
        }
    }

    /// Resize a tile, if it exists; the resize is a silent no-op when the
    /// tile is not resizable, and each dimension is raised to the minimum
    /// floor. Answers whether the identifier was live.
    pub fn resize_tile_to(&mut self, id: TileId, size: Fx2) -> (found: bool)
        requires
            old(self).wf(),
            0 <= size.x <= GEOM_LIMIT,
            0 <= size.y <= GEOM_LIMIT,
        ensures
            found == old(self).reg().dom().contains(id.0),
            found ==> final(self).reg() =~= old(self).reg().insert(
                id.0,
                tile_resized_to(old(self).reg()[id.0], size),
            ),
            !found ==> final(self).reg() == old(self).reg(),
            !found ==> *final(self) == *old(self),
            final(self).selected_spec() == old(self).selected_spec(),
            final(self).camera == old(self).camera,
            final(self).canvas_size == old(self).canvas_size,
            same_display_settings(old(self), final(self)),
            final(self).wf(),
    {
        proof {
            lemma_map_of_domain(self.tiles@, id.0);
        }
        match find_index(&self.tiles, id.0) {
            Some(i) => {
                proof {
                    lemma_map_of_index(self.tiles@, i as int);
                }
                let (k, mut t) = self.tiles.remove(i);
                let ghost t0 = old(self).reg()[id.0];
                t.resize(size);
                self.tiles.insert(i, (k, t));
                proof {
                    assert(t == tile_resized_to(t0, size));
                    self.lemma_after_update(*old(self), i as int, t);
                }
                true
            },
            None => false,
        }
    }

    /// Show or hide a tile, if it exists. Answers whether the identifier
    /// was live.
    pub fn set_tile_visibility(&mut self, id: TileId, visible: bool) -> (found: bool)
        requires
            old(self).wf(),
        ensures
            found == old(self).reg().dom().contains(id.0),
            found ==> final(self).reg() =~= old(self).reg().insert(
                id.0,
                tile_visibility_set(old(self).reg()[id.0], visible),
            ),
            !found ==> final(self).reg() == old(self).reg(),
            !found ==> *final(self) == *old(self),
            final(self).selected_spec() == old(self).selected_spec(),
            final(self).camera == old(self).camera,
            final(self).canvas_size == old(self).canvas_size,
            same_display_settings(old(self), final(self)),
            final(self).wf(),
    {
        proof {
            lemma_map_of_domain(self.tiles@, id.0);
        }
        match find_index(&self.tiles, id.0) {
            Some(i) => {
                proof {
                    lemma_map_of_index(self.tiles@, i as int);
                }
                let (k, mut t) = self.tiles.remove(i);
                let ghost t0 = old(self).reg()[id.0];
                t.set_visibility(visible);
                self.tiles.insert(i, (k, t));
                proof {
                    assert(t == tile_visibility_set(t0, visible));
                    self.lemma_after_update(*old(self), i as int, t);
                }
                true
            },
            None => false,
        }
    }

    /// Record the identifier of the backing window on a remote-page tile.
    /// Answers true only when the tile exists and is a remote-page tile;
    /// any other tile is left unchanged.
    pub fn attach_webview_id(&mut self, id: TileId, webview_id: String) -> (r: bool)
        requires
            old(self).wf(),
        ensures
            r == (old(self).reg().dom().contains(id.0) && old(self).reg()[id.0].tile_type
                == TileType::WebView),
            old(self).reg().dom().contains(id.0) ==> final(self).reg() =~= old(
                self,
            ).reg().insert(id.0, tile_webview_attached(old(self).reg()[id.0], webview_id)),
            !old(self).reg().dom().contains(id.0) ==> final(self).reg() == old(self).reg(),
            !old(self).reg().dom().contains(id.0) ==> *final(self) == *old(self),
            final(self).selected_spec() == old(self).selected_spec(),
            final(self).camera == old(self).camera,
            final(self).canvas_size == old(self).canvas_size,
            same_display_settings(old(self), final(self)),
            final(self).wf(),
    {
        proof {
            lemma_map_of_domain(self.tiles@, id.0);
        }
        match find_index(&self.tiles, id.0) {
            Some(i) => {
                proof {
                    lemma_map_of_index(self.tiles@, i as int);
                }
                let (k, mut t) = self.tiles.remove(i);
                let ghost t0 = old(self).reg()[id.0];
                let attached = t.attach_webview_id(webview_id);
                self.tiles.insert(i, (k, t));
                proof {
                    assert(t == tile_webview_attached(t0, webview_id));
                    self.lemma_after_update(*old(self), i as int, t);
                }
                attached
            },
            None => false,
        }
    }

    /// After taking the entry at `i` out and putting `(same key, t2)` back,
    /// the registry is the old one with that key's tile replaced, and the
    /// invariant holds again.
    proof fn lemma_after_update(&self, prev: InfiniteCanvas, i: int, t2: Tile)
        requires
            prev.wf(),
            0 <= i < prev.tiles@.len(),
            t2.wf(),
            self.tiles@ == prev.tiles@.remove(i).insert(i, (prev.tiles@[i].0, t2)),
            self.next_id == prev.next_id,
            self.selected == prev.selected,
            self.camera == prev.camera,
            self.canvas_size == prev.canvas_size,
        ensures
            self.reg() =~= prev.reg().insert(prev.tiles@[i].0, t2),
            self.wf(),
    {
        let s0 = prev.tiles@;
        let k = s0[i].0;
        lemma_remove_insert_is_update(s0, i, (k, t2));
        lemma_map_of_update(s0, i, t2);
        assert(self.tiles@ =~= s0.update(i, (k, t2)));
        assert(forall|j: int|
            0 <= j < self.tiles@.len() ==> (#[trigger] self.tiles@[j]).0 == s0[j].0);
        if self.selected is Some {
            let sid = self.selected->0;
            let j = choose|j: int| 0 <= j < s0.len() && (#[trigger] s0[j]).0 == sid.0;
            assert(self.tiles@[j].0 == sid.0);
        }
    }

    /// The world point under a screen point, using this canvas's camera and
    /// viewport size.
    pub open spec fn world_at(&self, screen_pos: Fx2) -> (int, int) {
        self.camera.screen_to_world_spec(
            screen_pos.x as int,
            screen_pos.y as int,
            self.canvas_size.x as int,
            self.canvas_size.y as int,
        )
    }

    /// Hit-test a screen point: the topmost tile (highest stacking order,
    /// ties arbitrary) whose axis-aligned box contains the world point
    /// under the screen point, or nothing.
    pub fn tile_at_position(&self, screen_pos: Fx2) -> (r: Option<TileId>)
        requires
            self.wf(),
            screen_pos.bounded(SCREEN_POS_LIMIT as int),
        ensures
            ({
                let (wx, wy) = self.world_at(screen_pos);
                hit_result_ok(self.reg(), wx, wy, r)
            }),
    {
        let world = self.camera.screen_to_world(screen_pos, self.canvas_size);
        let ghost wx = self.world_at(screen_pos).0;
        let ghost wy = self.world_at(screen_pos).1;
        let mut best: Option<usize> = None;
        let mut i: usize = 0;
        while i < self.tiles.len()
            invariant
                self.wf(),
                i <= self.tiles@.len(),
                world.x as int == wx,
                world.y as int == wy,
                match best {
                    Some(b) => b < i && self.tiles@[b as int].1.contains_spec(wx, wy) && forall|
                        j: int,
                    |
                        0 <= j < i && (#[trigger] self.tiles@[j]).1.contains_spec(wx, wy)
                            ==> self.tiles@[j].1.z_index <= self.tiles@[b as int].1.z_index,
                    None => forall|j: int|
                        0 <= j < i ==> !(#[trigger] self.tiles@[j]).1.contains_spec(wx, wy),
                },
            decreases self.tiles@.len() - i,
        {
            let t = &self.tiles[i].1;
            if t.contains_point(world) {
                match best {
                    Some(b) => {
                        if self.tiles[b].1.z_index < t.z_index {
                            best = Some(i);
                        }
                    },
                    None => {
                        best = Some(i);
                    },
                }
            }
            i += 1;
        }
        proof {
            match best {
                Some(b) => {
                    lemma_map_of_index(self.tiles@, b as int);
                    assert forall|k: u64|
                        self.reg().dom().contains(k) && (#[trigger] self.reg()[k]).contains_spec(
                            wx,
                            wy,
                        ) implies self.reg()[k].z_index
                        <= self.reg()[self.tiles@[b as int].0].z_index by {
                        lemma_map_of_domain(self.tiles@, k);
                        let j = choose|j: int|
                            0 <= j < self.tiles@.len() && (#[trigger] self.tiles@[j]).0 == k;
                        lemma_map_of_index(self.tiles@, j);
                    }
                },
                None => {
                    assert forall|k: u64| self.reg().dom().contains(k) implies !(
                    #[trigger] self.reg()[k]).contains_spec(wx, wy) by {
                        lemma_map_of_domain(self.tiles@, k);
                        let j = choose|j: int|
                            0 <= j < self.tiles@.len() && (#[trigger] self.tiles@[j]).0 == k;
                        lemma_map_of_index(self.tiles@, j);
                    }
                },
            }
        }
        match best {
            Some(b) => Some(TileId(self.tiles[b].0)),
            None => None,
        }
    }
}

impl Default for InfiniteCanvas {
    /// An empty canvas with an 800 x 600 viewport.
    fn default() -> (r: InfiniteCanvas)
        ensures
            r.wf(),
            r.reg() == Map::<u64, Tile>::empty(),
            r.selected_spec() is None,
            r.canvas_size.x == 800 * FX_ONE,
            r.canvas_size.y == 600 * FX_ONE,
            r.camera.position.x == 0,
            r.camera.position.y == 0,
            r.camera.zoom == FX_ONE,
            r.camera.rotation == 0,
            r.grid_visible,
            r.grid_size == 50 * FX_ONE,
            r.background_color == (Rgba { r: 1_000, g: 1_000, b: 1_000, a: FX_ONE }),
            r.grid_color == (Rgba { r: 2_000, g: 2_000, b: 2_000, a: FX_ONE }),
            r.can_allocate(),
    {
        InfiniteCanvas::new(Fx2 { x: 800 * FX_ONE, y: 600 * FX_ONE })
    }
}

/// Adding a tile under a fresh identifier and then removing it restores the
/// registry exactly; in particular a registry that was empty is empty
/// again. That the removal clears the selection when the removed tile was
/// selected is stated by `remove_tile`'s own contract.
pub proof fn lemma_add_then_remove_restores(reg0: Map<u64, Tile>, id: u64, tile: Tile)
    requires
        !reg0.dom().contains(id),
    ensures
        reg0.insert(id, tile).remove(id) =~= reg0,
{
}

/// At a world point inside two overlapping tiles, a correct hit-test answer
/// is never the tile with the lower stacking order: the answer exists and
/// its stacking order is at least the higher of the two.
pub proof fn lemma_hit_test_prefers_higher_z(
    reg: Map<u64, Tile>,
    wx: int,
    wy: int,
    r: Option<TileId>,
    a: u64,
    b: u64,
)
    requires
        hit_result_ok(reg, wx, wy, r),
        reg.dom().contains(a),
        reg.dom().contains(b),
        reg[a].contains_spec(wx, wy),
        reg[b].contains_spec(wx, wy),
        reg[a].z_index > reg[b].z_index,
    ensures
        r is Some,
        r != Some(TileId(b)),
        reg[(r->0).0].z_index >= reg[a].z_index,
{
    assert(reg[a].contains_spec(wx, wy));
    match r {
        Some(id) => {
            assert(reg[id.0].z_index >= reg[a].z_index);
            assert(id.0 != b);
        },
        None => {
            assert(!reg[a].contains_spec(wx, wy));
        },
    }
}

} // verus!
