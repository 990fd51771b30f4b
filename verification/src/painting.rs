//! What painting a page does to the tiles of a document, and what the cache gave for it.
use crate::document::{DocumentState, DocumentTab, DocumentView};
use crate::keys::Key;
use crate::performance::Painted;
use crate::rendering::TileCacheKey;
use crate::sampling::{is_stable, is_unavailable, DisplayReadiness, DisplayRenderState};
use crate::tiles::{TileBook, TileBookView};
use vstd::prelude::*;

verus! {

/// What the cache had of the visible tiles when a frame was prepared.
#[derive(Clone, Copy, Debug, PartialEq, Eq, Structural)]
pub struct CacheState {
    /// One of them was kept.
    pub cache_hit: bool,
    /// One of them was kept, rendered ahead and not painted since.
    pub prefetch_used: bool,
}

/// A visible tile of a page that was painted.
pub open spec fn shows_exactly(
    book: TileBookView,
    page_index: usize,
    painted: Seq<TileCacheKey>,
    key: TileCacheKey,
) -> bool {
    &&& book.visible.contains(key)
    &&& key.page_index == page_index
    &&& painted.contains(key)
}

/// Whether a page has visible tiles and all of them were painted.
pub open spec fn painted_whole(
    book: TileBookView,
    page_index: usize,
    painted: Seq<TileCacheKey>,
) -> bool {
    &&& exists|key: TileCacheKey| #[trigger]
        book.visible.contains(key) && key.page_index == page_index
    &&& forall|key: TileCacheKey| #[trigger]
        book.visible.contains(key) && key.page_index == page_index ==> painted.contains(key)
}

impl TileBookView {
    /// The tiles once some of a page were painted: a visible one that was rendered ahead has
    /// served its purpose.
    pub open spec fn after_painting(self, page_index: usize, painted: Seq<TileCacheKey>) -> TileBookView {
        TileBookView {
            prefetched: self.prefetched.filter(
                |key: TileCacheKey| !shows_exactly(self, page_index, painted, key),
            ),
            ..self
        }
    }
}

fn is_painted(painted: &Vec<TileCacheKey>, key: TileCacheKey) -> (res: bool)
    ensures
        res == painted@.contains(key),
{
    let mut i: usize = 0;
    while i < painted.len()
        invariant
            i <= painted.len(),
            forall|k: int| 0 <= k < i ==> painted@[k] != key,
        decreases painted.len() - i,
    {
        if painted[i].same(&key) {
            assert(painted@[i as int] == key);
            return true;
        }
        i += 1;
    }
    false
}

impl TileBook {
    /// What the cache has of the visible tiles.
    pub fn cache_state(&self) -> (res: CacheState)
        ensures
            res.cache_hit == exists|key: TileCacheKey| #[trigger]
                self@.visible.contains(key) && self@.cached.contains(key),
            res.prefetch_used == exists|key: TileCacheKey| #[trigger]
                self@.visible.contains(key) && self@.cached.contains(key)
                    && self@.prefetched.contains(key),
    {
        let visible = self.visible.keys();
        let mut cache_hit: bool = false;
        let mut prefetch_used: bool = false;
        let mut i: usize = 0;
        while i < visible.len()
            invariant
                i <= visible.len(),
                visible@.to_set() == self@.visible,
                cache_hit ==> exists|key: TileCacheKey| #[trigger]
                    self@.visible.contains(key) && self@.cached.contains(key),
                prefetch_used ==> exists|key: TileCacheKey| #[trigger]
                    self@.visible.contains(key) && self@.cached.contains(key)
                        && self@.prefetched.contains(key),
                forall|k: int|
                    0 <= k < i && self@.cached.contains(#[trigger] visible@[k]) ==> cache_hit,
                forall|k: int|
                    0 <= k < i && self@.cached.contains(#[trigger] visible@[k])
                        && self@.prefetched.contains(visible@[k]) ==> prefetch_used,
            decreases visible.len() - i,
        {
            let key = visible[i];
            assert(self@.visible.contains(key)) by {
                assert(visible@[i as int] == key);
            }
            if self.cached.contains(key) {
                cache_hit = true;
                if self.prefetched.contains(key) {
                    prefetch_used = true;
                }
            }
            i += 1;
        }
        proof {
            assert forall|key: TileCacheKey| #[trigger]
                self@.visible.contains(key) && self@.cached.contains(key) implies cache_hit by {
                assert(visible@.to_set().contains(key));
                let k = choose|k: int| 0 <= k < visible@.len() && visible@[k] == key;
                assert(visible@[k] == key);
            }
            assert forall|key: TileCacheKey| #[trigger]
                self@.visible.contains(key) && self@.cached.contains(key)
                    && self@.prefetched.contains(key) implies prefetch_used by {
                assert(visible@.to_set().contains(key));
                let k = choose|k: int| 0 <= k < visible@.len() && visible@[k] == key;
                assert(visible@[k] == key);
            }
        }
        CacheState { cache_hit, prefetch_used }
    }

    /// Notes which tiles of the zoom in force were painted for a page. Returns what the
    /// painting shows of the page; `provisional` says whether tiles of another zoom fill in.
    pub fn tiles_painted(
        &mut self,
        page_index: usize,
        provisional: bool,
        painted: &Vec<TileCacheKey>,
    ) -> (res: Painted)
        ensures
            final(self)@ == old(self)@.after_painting(page_index, painted@),
            res.provisional == provisional,
            res.exact == exists|key: TileCacheKey| #[trigger]
                shows_exactly(old(self)@, page_index, painted@, key),
            res.complete == painted_whole(old(self)@, page_index, painted@),
    {
        let ghost before = self@;
        let visible = self.visible.keys();
        let mut any: bool = false;
        let mut exact: bool = false;
        let mut all: bool = true;
        let mut i: usize = 0;
        while i < visible.len()
            invariant
                i <= visible.len(),
                visible@.to_set() == before.visible,
                self@ == (TileBookView { prefetched: self@.prefetched, ..before }),
                forall|key: TileCacheKey| #[trigger]
                    self@.prefetched.contains(key) <==> before.prefetched.contains(key) && !(
                    shows_exactly(before, page_index, painted@, key) && visible@.take(
                        i as int,
                    ).contains(key)),
                any ==> exists|key: TileCacheKey| #[trigger]
                    before.visible.contains(key) && key.page_index == page_index,
                exact ==> exists|key: TileCacheKey| #[trigger]
                    shows_exactly(before, page_index, painted@, key),
                !all ==> exists|key: TileCacheKey| #[trigger]
                    before.visible.contains(key) && key.page_index == page_index
                        && !painted@.contains(key),
                forall|k: int|
                    0 <= k < i && (#[trigger] visible@[k]).page_index == page_index ==> any && (
                    if painted@.contains(visible@[k]) {
                        exact
                    } else {
                        !all
                    }),
            decreases visible.len() - i,
        {
            let key = visible[i];
            let ghost earlier = self@.prefetched;
            let ghost shorter = visible@.take(i as int);
            let ghost longer = visible@.take(i + 1);
            proof {
                assert(visible@[i as int] == key);
                assert(before.visible.contains(key));
                assert(longer =~= shorter.push(key));
                assert forall|x: TileCacheKey| longer.contains(x) == (shorter.contains(x) || x
                    == key) by {
                    if shorter.contains(x) {
                        let j = choose|j: int| 0 <= j < shorter.len() && shorter[j] == x;
                        assert(longer[j] == x);
                    }
                    assert(longer[i as int] == key);
                }
            }
            if key.page_index == page_index {
                any = true;
                if is_painted(painted, key) {
                    assert(shows_exactly(before, page_index, painted@, key));
                    exact = true;
                    self.prefetched.remove(key);
                    assert(self@ =~= (TileBookView { prefetched: earlier.remove(key), ..before }));
                } else {
                    all = false;
                }
            }
            i += 1;
        }
        proof {
            assert(visible@.take(i as int) =~= visible@);
            assert forall|key: TileCacheKey| #[trigger]
                before.visible.contains(key) implies visible@.contains(key) by {
                assert(visible@.to_set().contains(key));
            }
            assert forall|key: TileCacheKey| #[trigger]
                before.visible.contains(key) && key.page_index == page_index implies any && (
            if painted@.contains(key) {
                exact
            } else {
                !all
            }) by {
                let k = choose|k: int| 0 <= k < visible@.len() && visible@[k] == key;
                assert(visible@[k] == key);
            }
            assert(self@ =~= before.after_painting(page_index, painted@));
        }
        Painted { provisional, exact, complete: any && all }
    }
}

/// Nothing of the document will be on the screen: it failed, its worker was let go, or it has no
/// page.
pub open spec fn cannot_stand(document: DocumentView) -> bool {
    ||| document.state is Error
    ||| document.state is Suspended
    ||| document.info is Some && document.page_count() == 0
}

/// How far a document is from standing on the screen.
pub open spec fn readiness_of(document: DocumentView) -> DisplayReadiness {
    let visible = document.tiles.visible;
    let has_visible_result = exists|key: TileCacheKey| #[trigger]
        visible.contains(key) && document.tiles.cached.contains(key);
    DisplayReadiness {
        unavailable: cannot_stand(document),
        render: if document.error is Some {
            DisplayRenderState::Failed
        } else if has_visible_result {
            DisplayRenderState::Succeeded
        } else {
            DisplayRenderState::Pending
        },
        has_visible_request: exists|key: TileCacheKey| #[trigger] visible.contains(key),
        has_pending_visible_request: exists|key: TileCacheKey| #[trigger]
            visible.contains(key) && document.tiles.pending.dom().contains(key),
        has_visible_result,
    }
}

impl DocumentTab {
    /// How far the document is from standing on the screen.
    pub fn display_readiness(&self) -> (res: DisplayReadiness)
        ensures
            res == readiness_of(self@),
    {
        let ghost tiles = self@.tiles;
        let visible = self.tiles.visible.keys();
        let has_visible_result = self.tiles.cache_state().cache_hit;
        let mut pending: bool = false;
        let mut i: usize = 0;
        while i < visible.len()
            invariant
                i <= visible.len(),
                tiles == self.tiles@,
                visible@.to_set() == tiles.visible,
                pending ==> exists|key: TileCacheKey| #[trigger]
                    tiles.visible.contains(key) && tiles.pending.dom().contains(key),
                forall|k: int|
                    0 <= k < i && tiles.pending.dom().contains(#[trigger] visible@[k])
                        ==> pending,
            decreases visible.len() - i,
        {
            let key = visible[i];
            assert(tiles.visible.contains(key)) by {
                assert(visible@[i as int] == key);
            }
            if self.tiles.pending.contains_key(key) {
                pending = true;
            }
            i += 1;
        }
        proof {
            assert forall|key: TileCacheKey| #[trigger]
                tiles.visible.contains(key) implies visible@.len() > 0 && (
            tiles.pending.dom().contains(key) ==> pending) by {
                assert(visible@.to_set().contains(key));
                let k = choose|k: int| 0 <= k < visible@.len() && visible@[k] == key;
                assert(visible@[k] == key);
            }
            if visible@.len() > 0 {
                assert(visible@.contains(visible@[0]));
                assert(tiles.visible.contains(visible@[0]));
            }
        }
        DisplayReadiness {
            unavailable: self.state == DocumentState::Error || self.state
                == DocumentState::Suspended || self.info.is_some() && self.page_count() == 0,
            render: if self.error.is_some() {
                DisplayRenderState::Failed
            } else if has_visible_result {
                DisplayRenderState::Succeeded
            } else {
                DisplayRenderState::Pending
            },
            has_visible_request: visible.len() > 0,
            has_pending_visible_request: pending,
            has_visible_result,
        }
    }
}

/// A document that cannot stand on the screen ends the wait for the first display: alone on the
/// screen, it makes the display unavailable, and never stable.
pub proof fn what_cannot_stand_is_not_waited_for(document: DocumentView)
    requires
        cannot_stand(document) || document.error is Some,
    ensures
        is_unavailable(seq![readiness_of(document)], false),
        !is_stable(seq![readiness_of(document)]),
{
    let alone = seq![readiness_of(document)];
    assert(alone[0].cannot_show());
    assert(!alone[0].shows());
}

/// A page of which every tile was painted, and which has any, shows one of them.
pub proof fn a_whole_page_shows_a_tile(
    book: TileBookView,
    page_index: usize,
    painted: Seq<TileCacheKey>,
)
    requires
        painted_whole(book, page_index, painted),
    ensures
        exists|key: TileCacheKey| #[trigger] shows_exactly(book, page_index, painted, key),
{
    let key = choose|key: TileCacheKey| #[trigger]
        book.visible.contains(key) && key.page_index == page_index;
    assert(shows_exactly(book, page_index, painted, key));
}

/// A tile that was rendered ahead counts as used once: after it was painted, the cache still
/// has it, and it no longer counts as rendered ahead.
pub proof fn a_prefetched_tile_serves_once(
    book: TileBookView,
    page_index: usize,
    painted: Seq<TileCacheKey>,
    key: TileCacheKey,
)
    requires
        shows_exactly(book, page_index, painted, key),
    ensures
        book.after_painting(page_index, painted).cached == book.cached,
        !book.after_painting(page_index, painted).prefetched.contains(key),
{
}

} // verus!
