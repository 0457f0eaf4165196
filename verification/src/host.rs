//! Bookkeeping for the native windows that back remote-page tiles.
//!
//! The manager owns the association from tile identifier to window
//! identifier; it is the one writer of that map. The windows themselves are
//! a host capability outside this library: creating, placing, showing and
//! closing them happens there, with the identifiers allocated and tracked
//! here. An association is stored only after the host confirms creation,
//! and removed when the tile goes away, so it never outlives its window.

use vstd::prelude::*;
use crate::tile::TileId;
use crate::idtext::{dec_str, u64_to_dec_string};
use crate::assoc::{
    find_index, keys_distinct, lemma_distinct_push, lemma_distinct_remove,
    lemma_map_of_domain, lemma_map_of_index, lemma_map_of_push, lemma_map_of_remove,
    lemma_map_of_update, lemma_remove_insert_is_update, map_of,
};

verus! {

/// The window bookkeeping: tile identifier to window identifier, plus the
/// counter that window identifiers are allocated from.
#[derive(Debug)]
pub struct WebViewManager {
    pub assoc: Vec<(u64, String)>,
    pub next_webview: u64,
}

impl WebViewManager {
    /// The association as the finite map it denotes.
    pub open spec fn amap(&self) -> Map<u64, String> {
        map_of(self.assoc@)
    }

    /// Another window identifier can still be allocated.
    pub open spec fn can_allocate(&self) -> bool {
        self.next_webview < u64::MAX
    }

    /// The manager's invariant: each tile has at most one association.
    pub open spec fn wf(&self) -> bool {
        keys_distinct(self.assoc@)
    }

    /// An empty manager: no tile has a backing window.
    pub fn new() -> (r: WebViewManager)
        ensures
            r.wf(),
            r.amap() == Map::<u64, String>::empty(),
            r.can_allocate(),
    {
        WebViewManager { assoc: Vec::new(), next_webview: 0 }
    }

    /// Allocate a fresh window identifier, in its canonical decimal text
    /// form; the associations are untouched.
    pub fn allocate_webview_id(&mut self) -> (r: String)
        requires
            old(self).wf(),
            old(self).can_allocate(),
        ensures
            r@ == dec_str(old(self).next_webview as nat),
            final(self).next_webview == old(self).next_webview + 1,
            final(self).amap() == old(self).amap(),
            final(self).assoc@ == old(self).assoc@,
            final(self).wf(),
    {
        let id = u64_to_dec_string(self.next_webview);
        self.next_webview = self.next_webview + 1;
        id
    }

    /// Record that a tile's window was created. Called only after the host
    /// confirms creation, so no association exists without its window; a
    /// second registration for the same tile replaces the first.
    pub fn register_webview(&mut self, tile_id: TileId, webview_id: String)
        requires
            old(self).wf(),
        ensures
            final(self).amap() =~= old(self).amap().insert(tile_id.0, webview_id),
            final(self).next_webview == old(self).next_webview,
            final(self).wf(),
    {
        proof {
            lemma_map_of_domain(self.assoc@, tile_id.0);
        }
        match find_index(&self.assoc, tile_id.0) {
            Some(i) => {
                proof {
                    lemma_map_of_index(self.assoc@, i as int);
                    lemma_map_of_update(self.assoc@, i as int, webview_id);
                    lemma_remove_insert_is_update(
                        self.assoc@,
                        i as int,
                        (self.assoc@[i as int].0, webview_id),
                    );
                }
                let (k, _) = self.assoc.remove(i);
                self.assoc.insert(i, (k, webview_id));
                proof {
                    assert(self.assoc@ =~= old(self).assoc@.update(
                        i as int,
                        (tile_id.0, webview_id),
                    ));
                }
            },
            None => {
                proof {
                    lemma_distinct_push(self.assoc@, tile_id.0, webview_id);
                    lemma_map_of_push(self.assoc@, tile_id.0, webview_id);
                }
                self.assoc.push((tile_id.0, webview_id));
            },
        }
    }

    /// Take a tile's association away, handing back the window identifier
    /// whose window should now be closed; a tile without an association is
    /// answered with nothing.
    pub fn remove_webview(&mut self, tile_id: TileId) -> (r: Option<String>)
        requires
            old(self).wf(),
        ensures
            old(self).amap().dom().contains(tile_id.0) ==> (match r {
                Some(w) => w == old(self).amap()[tile_id.0],
                None => false,
            }) && final(self).amap() =~= old(self).amap().remove(tile_id.0),
            !old(self).amap().dom().contains(tile_id.0) ==> r is None && final(self).amap()
                == old(self).amap(),
            final(self).next_webview == old(self).next_webview,
            final(self).wf(),
    {
        proof {
            lemma_map_of_domain(self.assoc@, tile_id.0);
        }
        match find_index(&self.assoc, tile_id.0) {
            Some(i) => {
                proof {
                    lemma_map_of_index(self.assoc@, i as int);
                    lemma_map_of_remove(self.assoc@, i as int);
                    lemma_distinct_remove(self.assoc@, i as int);
                }
                let (_, w) = self.assoc.remove(i);
                Some(w)
            },
            None => None,
        }
    }

    /// Look up the window identifier backing a tile, if one exists.
    pub fn get_webview_id_for_tile(&self, tile_id: TileId) -> (r: Option<String>)
        requires
            self.wf(),
        ensures
            match r {
                Some(w) => self.amap().dom().contains(tile_id.0) && w == self.amap()[tile_id.0],
                None => !self.amap().dom().contains(tile_id.0),
            },
    {
        proof {
            lemma_map_of_domain(self.assoc@, tile_id.0);
        }
        match find_index(&self.assoc, tile_id.0) {
            Some(i) => {
                proof {
                    lemma_map_of_index(self.assoc@, i as int);
                }
                Some(self.assoc[i].1.clone())
            },
            None => None,
        }
    }
}

} // verus!
