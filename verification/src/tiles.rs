//! The tiles of one document: asked for, waited for, kept and painted.
use crate::keys::{KeyMap, KeySet};
use crate::numbers::{total_place, totally_before};
use crate::rendering::{RenderPriority, TileCacheKey, TileRequest, tile_key};
use vstd::prelude::*;

verus! {

/// Whether a tile is painted strictly before another: row by row, from the left.
pub open spec fn painted_before(a: TileCacheKey, b: TileCacheKey) -> bool {
    a.spec.pixel_y < b.spec.pixel_y || a.spec.pixel_y == b.spec.pixel_y && a.spec.pixel_x
        < b.spec.pixel_x
}

/// A list in painting order with one more tile, behind those at the same place.
pub open spec fn painted_with(keys: Seq<TileCacheKey>, key: TileCacheKey) -> Seq<TileCacheKey>
    decreases keys.len(),
{
    if keys.len() > 0 && painted_before(key, keys.last()) {
        painted_with(keys.drop_last(), key).push(keys.last())
    } else {
        keys.push(key)
    }
}

/// The first `count` tiles in painting order.
pub open spec fn painting_order(keys: Seq<TileCacheKey>, count: int) -> Seq<TileCacheKey>
    decreases count,
{
    if count <= 0 {
        seq![]
    } else {
        painted_with(painting_order(keys, count - 1), keys[count - 1])
    }
}

/// Whether no tile of a list is painted before one in front of it.
pub open spec fn in_painting_order(keys: Seq<TileCacheKey>) -> bool {
    forall|i: int, j: int|
        #![trigger keys[i], keys[j]]
        0 <= i < j < keys.len() ==> !painted_before(keys[j], keys[i])
}

proof fn painted_with_is_insert(keys: Seq<TileCacheKey>, key: TileCacheKey, at: int)
    requires
        0 <= at <= keys.len(),
        forall|i: int| at <= i < keys.len() ==> painted_before(key, #[trigger] keys[i]),
        at > 0 ==> !painted_before(key, keys[at - 1]),
    ensures
        painted_with(keys, key) == keys.insert(at, key),
    decreases keys.len(),
{
    if keys.len() > at {
        assert(painted_before(key, keys[keys.len() - 1]));
        let front = keys.drop_last();
        painted_with_is_insert(front, key, at);
        assert(front.insert(at, key).push(keys.last()) =~= keys.insert(at, key));
    } else {
        assert(keys.push(key) =~= keys.insert(at, key));
    }
}

/// Putting a tile in its place keeps the painting order and loses nothing.
pub proof fn painted_with_keeps_order(keys: Seq<TileCacheKey>, key: TileCacheKey)
    requires
        in_painting_order(keys),
    ensures
        in_painting_order(painted_with(keys, key)),
        painted_with(keys, key).to_multiset() == keys.to_multiset().insert(key),
    decreases keys.len(),
{
    let after = painted_with(keys, key);
    if keys.len() > 0 && painted_before(key, keys.last()) {
        let front = keys.drop_last();
        assert(in_painting_order(front)) by {
            assert forall|i: int, j: int|
                #![trigger front[i], front[j]]
                0 <= i < j < front.len() implies !painted_before(front[j], front[i]) by {
                assert(!painted_before(keys[j], keys[i]));
            }
        }
        painted_with_keeps_order(front, key);
        let shorter = painted_with(front, key);
        assert forall|i: int, j: int|
            #![trigger after[i], after[j]]
            0 <= i < j < after.len() implies !painted_before(after[j], after[i]) by {
            if j < shorter.len() {
                assert(after[i] == shorter[i] && after[j] == shorter[j]);
            } else {
                assert(after[i] == shorter[i]);
                assert(shorter.to_multiset().contains(shorter[i])) by {
                    broadcast use vstd::seq_lib::group_to_multiset_ensures;

                    assert(shorter.contains(shorter[i]));
                }
                assert(front.to_multiset().contains(shorter[i]) || shorter[i] == key);
                if shorter[i] != key {
                    assert(front.contains(shorter[i])) by {
                        broadcast use vstd::seq_lib::group_to_multiset_ensures;

                    }
                    let k = choose|k: int| 0 <= k < front.len() && front[k] == shorter[i];
                    assert(!painted_before(keys[keys.len() - 1], keys[k]));
                }
            }
        }
        broadcast use vstd::seq_lib::group_to_multiset_ensures;

        assert(keys =~= front.push(keys.last()));
        assert(after.to_multiset() =~= keys.to_multiset().insert(key));
    } else {
        assert forall|i: int, j: int|
            #![trigger after[i], after[j]]
            0 <= i < j < after.len() implies !painted_before(after[j], after[i]) by {
            if j < keys.len() {
                assert(!painted_before(keys[j], keys[i]));
            } else if i < keys.len() - 1 {
                assert(!painted_before(keys[keys.len() - 1], keys[i]));
            }
        }
        broadcast use vstd::seq_lib::group_to_multiset_ensures;

    }
}

/// The painting order is an order, and it lists every tile as often as it was given.
pub proof fn painting_order_sorts(keys: Seq<TileCacheKey>, count: int)
    requires
        0 <= count <= keys.len(),
    ensures
        in_painting_order(painting_order(keys, count)),
        painting_order(keys, count).to_multiset() == keys.take(count).to_multiset(),
    decreases count,
{
    if count > 0 {
        painting_order_sorts(keys, count - 1);
        painted_with_keeps_order(painting_order(keys, count - 1), keys[count - 1]);
        broadcast use vstd::seq_lib::group_to_multiset_ensures;

        assert(keys.take(count) =~= keys.take(count - 1).push(keys[count - 1]));
    } else {
        assert(keys.take(0) =~= seq![]);
    }
}

fn paints_before(a: &TileCacheKey, b: &TileCacheKey) -> (res: bool)
    ensures
        res == painted_before(*a, *b),
{
    a.spec.pixel_y < b.spec.pixel_y || (a.spec.pixel_y == b.spec.pixel_y && a.spec.pixel_x
        < b.spec.pixel_x)
}

/// Sorts tiles row by row; tiles at the same place keep their order.
pub fn sort_for_painting(keys: &Vec<TileCacheKey>) -> (res: Vec<TileCacheKey>)
    ensures
        res@ == painting_order(keys@, keys@.len() as int),
{
    let mut res: Vec<TileCacheKey> = Vec::new();
    let mut i: usize = 0;
    assert(res@ =~= painting_order(keys@, 0));
    while i < keys.len()
        invariant
            i <= keys.len(),
            res@ == painting_order(keys@, i as int),
        decreases keys.len() - i,
    {
        let key = keys[i];
        let mut at: usize = res.len();
        while at > 0 && paints_before(&key, &res[at - 1])
            invariant
                at <= res.len(),
                forall|k: int| at <= k < res.len() ==> painted_before(key, #[trigger] res@[k]),
            decreases at,
        {
            at -= 1;
        }
        proof {
            painted_with_is_insert(res@, key, at as int);
        }
        res.insert(at, key);
        i += 1;
    }
    res
}

/// A kept tile, with how far its zoom and its density are from the current ones. The
/// distances are bit patterns.
#[derive(Clone, Copy, Debug, PartialEq, Eq, Structural)]
pub struct ProvisionalTile {
    pub key: TileCacheKey,
    pub zoom_distance_bits: u32,
    pub density_distance_bits: u32,
}

/// The page that is painted, as the current zoom and density show it.
#[derive(Clone, Copy, Debug, PartialEq, Eq, Structural)]
pub struct PageIdentity {
    pub document_id: u64,
    pub page_index: usize,
    pub revision: u64,
    pub rotation_quarter_turns: u8,
    pub zoom_bits: u32,
    pub pixels_per_point_bits: u32,
}

/// Whether a tile shows the page at another zoom or density.
pub open spec fn stands_in(key: TileCacheKey, page: PageIdentity) -> bool {
    &&& key.document_id == page.document_id
    &&& key.page_index == page.page_index
    &&& key.revision == page.revision
    &&& key.rotation_quarter_turns == page.rotation_quarter_turns
    &&& key.zoom_bits != page.zoom_bits || key.pixels_per_point_bits != page.pixels_per_point_bits
}

/// The tiles among the first `count` that show the page at another zoom or density.
pub open spec fn stand_ins(tiles: Seq<ProvisionalTile>, page: PageIdentity, count: int) -> Seq<
    ProvisionalTile,
>
    decreases count,
{
    if count <= 0 {
        seq![]
    } else if stands_in(tiles[count - 1].key, page) {
        stand_ins(tiles, page, count - 1).push(tiles[count - 1])
    } else {
        stand_ins(tiles, page, count - 1)
    }
}

/// Whether a tile is strictly nearer: by its zoom first, then by its density.
pub open spec fn nearer(a: ProvisionalTile, b: ProvisionalTile) -> bool {
    total_place(a.zoom_distance_bits) < total_place(b.zoom_distance_bits) || total_place(
        a.zoom_distance_bits,
    ) == total_place(b.zoom_distance_bits) && total_place(a.density_distance_bits) < total_place(
        b.density_distance_bits,
    )
}

/// The first of the nearest among the first `count` tiles.
pub open spec fn nearest(tiles: Seq<ProvisionalTile>, count: int) -> int
    decreases count,
{
    if count <= 1 {
        0
    } else {
        let best = nearest(tiles, count - 1);
        if nearer(tiles[count - 1], tiles[best]) {
            count - 1
        } else {
            best
        }
    }
}

/// The keys among the first `count` tiles that have the zoom and density of `chosen`.
pub open spec fn same_scale(
    tiles: Seq<ProvisionalTile>,
    chosen: TileCacheKey,
    count: int,
) -> Seq<TileCacheKey>
    decreases count,
{
    if count <= 0 {
        seq![]
    } else if tiles[count - 1].key.zoom_bits == chosen.zoom_bits && tiles[count
        - 1].key.pixels_per_point_bits == chosen.pixels_per_point_bits {
        same_scale(tiles, chosen, count - 1).push(tiles[count - 1].key)
    } else {
        same_scale(tiles, chosen, count - 1)
    }
}

/// The tiles to show until the exact ones are there: those at the zoom and density nearest
/// to the current ones, in painting order.
pub open spec fn provisional_tiles(tiles: Seq<ProvisionalTile>, page: PageIdentity) -> Seq<
    TileCacheKey,
> {
    let candidates = stand_ins(tiles, page, tiles.len() as int);
    if candidates.len() == 0 {
        seq![]
    } else {
        let chosen = candidates[nearest(candidates, candidates.len() as int)].key;
        let kept = same_scale(candidates, chosen, candidates.len() as int);
        painting_order(kept, kept.len() as int)
    }
}

proof fn nearest_is_in_range(tiles: Seq<ProvisionalTile>, count: int)
    requires
        1 <= count <= tiles.len(),
    ensures
        0 <= nearest(tiles, count) < count,
    decreases count,
{
    if count > 1 {
        nearest_is_in_range(tiles, count - 1);
    }
}

/// No tile is nearer than the chosen one.
pub proof fn nearest_is_nearest(tiles: Seq<ProvisionalTile>, count: int, other: int)
    requires
        0 <= other < count <= tiles.len(),
    ensures
        0 <= nearest(tiles, count) < count,
        !nearer(tiles[other], tiles[nearest(tiles, count)]),
    decreases count,
{
    nearest_is_in_range(tiles, count);
    if count > 1 {
        nearest_is_in_range(tiles, count - 1);
        if other < count - 1 {
            nearest_is_nearest(tiles, count - 1, other);
        }
    }
}

fn is_nearer(a: &ProvisionalTile, b: &ProvisionalTile) -> (res: bool)
    ensures
        res == nearer(*a, *b),
{
    if totally_before(a.zoom_distance_bits, b.zoom_distance_bits) {
        return true;
    }
    if totally_before(b.zoom_distance_bits, a.zoom_distance_bits) {
        return false;
    }
    totally_before(a.density_distance_bits, b.density_distance_bits)
}

/// Chooses the kept tiles to show until the exact ones are there.
pub fn closest_provisional_tile_keys(tiles: &Vec<ProvisionalTile>, page: PageIdentity) -> (res: Vec<
    TileCacheKey,
>)
    ensures
        res@ == provisional_tiles(tiles@, page),
{
    let mut candidates: Vec<ProvisionalTile> = Vec::new();
    let mut i: usize = 0;
    assert(candidates@ =~= stand_ins(tiles@, page, 0));
    while i < tiles.len()
        invariant
            i <= tiles.len(),
            candidates@ == stand_ins(tiles@, page, i as int),
        decreases tiles.len() - i,
    {
        let key = tiles[i].key;
        if key.document_id == page.document_id && key.page_index == page.page_index && key.revision
            == page.revision && key.rotation_quarter_turns == page.rotation_quarter_turns && (
        key.zoom_bits != page.zoom_bits || key.pixels_per_point_bits
            != page.pixels_per_point_bits) {
            candidates.push(tiles[i]);
        }
        i += 1;
    }
    if candidates.len() == 0 {
        let res: Vec<TileCacheKey> = Vec::new();
        assert(res@ =~= seq![]);
        return res;
    }
    let mut best: usize = 0;
    let mut n: usize = 1;
    while n < candidates.len()
        invariant
            1 <= n <= candidates.len(),
            best < n,
            best == nearest(candidates@, n as int),
        decreases candidates.len() - n,
    {
        if is_nearer(&candidates[n], &candidates[best]) {
            best = n;
        }
        n += 1;
    }
    let chosen = candidates[best].key;
    let mut kept: Vec<TileCacheKey> = Vec::new();
    let mut k: usize = 0;
    assert(kept@ =~= same_scale(candidates@, chosen, 0));
    while k < candidates.len()
        invariant
            k <= candidates.len(),
            kept@ == same_scale(candidates@, chosen, k as int),
        decreases candidates.len() - k,
    {
        let key = candidates[k].key;
        if key.zoom_bits == chosen.zoom_bits && key.pixels_per_point_bits
            == chosen.pixels_per_point_bits {
            kept.push(key);
        }
        k += 1;
    }
    sort_for_painting(&kept)
}

/// The tiles of a document.
#[derive(Debug)]
pub struct TileBook {
    pub document_id: u64,
    /// Tiles that are kept and can be painted.
    pub cached: KeySet<TileCacheKey>,
    /// Kept tiles that were rendered ahead and not painted yet.
    pub prefetched: KeySet<TileCacheKey>,
    /// Requests that the worker has not answered.
    pub pending: KeyMap<TileCacheKey, TileRequest>,
    /// Tiles that the last frame asked for.
    pub wanted: KeySet<TileCacheKey>,
    /// Tiles that the last frame shows.
    pub visible: KeySet<TileCacheKey>,
}

/// What a `TileBook` stands for in specifications.
#[verifier::ext_equal]
pub struct TileBookView {
    pub document_id: u64,
    pub cached: Set<TileCacheKey>,
    pub prefetched: Set<TileCacheKey>,
    pub pending: Map<TileCacheKey, TileRequest>,
    pub wanted: Set<TileCacheKey>,
    pub visible: Set<TileCacheKey>,
}

impl View for TileBook {
    type V = TileBookView;

    open spec fn view(&self) -> TileBookView {
        TileBookView {
            document_id: self.document_id,
            cached: self.cached@,
            prefetched: self.prefetched@,
            pending: self.pending@,
            wanted: self.wanted@,
            visible: self.visible@,
        }
    }
}

/// The keys of the first `count` requests; with `visible_only`, of those for visible tiles.
pub open spec fn requested_keys(
    document_id: u64,
    requests: Seq<TileRequest>,
    visible_only: bool,
    count: int,
) -> Set<TileCacheKey>
    decreases count,
{
    if count <= 0 {
        Set::empty()
    } else {
        let before = requested_keys(document_id, requests, visible_only, count - 1);
        let request = requests[count - 1];
        if visible_only && !(request.priority is Visible) {
            before
        } else {
            before.insert(tile_key(document_id, request))
        }
    }
}

impl TileBookView {
    /// No tiles.
    pub open spec fn fresh(document_id: u64) -> TileBookView {
        TileBookView {
            document_id,
            cached: Set::empty(),
            prefetched: Set::empty(),
            pending: Map::empty(),
            wanted: Set::empty(),
            visible: Set::empty(),
        }
    }

    /// The book at the start of a frame: requests that are wanted no more are cancelled.
    pub open spec fn framed(self, requests: Seq<TileRequest>) -> TileBookView {
        let wanted = requested_keys(self.document_id, requests, false, requests.len() as int);
        TileBookView {
            wanted,
            visible: requested_keys(self.document_id, requests, true, requests.len() as int),
            pending: self.pending.restrict(wanted),
            ..self
        }
    }

    /// Whether a request has to go to the worker: the tile is not kept, and no request at
    /// least as urgent is waiting.
    pub open spec fn needs(self, request: TileRequest) -> bool {
        let key = tile_key(self.document_id, request);
        &&& !self.cached.contains(key)
        &&& self.pending.dom().contains(key) ==> request.priority.rank()
            < self.pending[key].priority.rank()
    }

    /// Nothing is waited for or wanted.
    pub open spec fn quiet(self) -> TileBookView {
        TileBookView { pending: Map::empty(), wanted: Set::empty(), visible: Set::empty(), ..self }
    }
}

/// Whether a request was waited for and is not among the tiles to keep waiting for.
pub open spec fn is_dropped(
    pending: Map<TileCacheKey, TileRequest>,
    kept: Set<TileCacheKey>,
    request: TileRequest,
) -> bool {
    exists|key: TileCacheKey| #[trigger]
        pending.dom().contains(key) && !kept.contains(key) && pending[key] == request
}

impl TileBook {
    pub fn new(document_id: u64) -> (res: Self)
        ensures
            res@ == TileBookView::fresh(document_id),
    {
        TileBook {
            document_id,
            cached: KeySet::new(),
            prefetched: KeySet::new(),
            pending: KeyMap::new(),
            wanted: KeySet::new(),
            visible: KeySet::new(),
        }
    }

    /// Starts a frame. Returns the requests to cancel, one for each tile that is waited for no
    /// longer.
    pub fn prepare_tiles(&mut self, requests: &Vec<TileRequest>) -> (res: Vec<TileRequest>)
        ensures
            final(self)@ == old(self)@.framed(requests@),
            res@.len() + final(self)@.pending.dom().len() == old(self)@.pending.dom().len(),
            forall|i: int|
                0 <= i < res@.len() ==> is_dropped(
                    old(self)@.pending,
                    final(self)@.wanted,
                    #[trigger] res@[i],
                ),
            forall|key: TileCacheKey| #[trigger]
                old(self)@.pending.dom().contains(key) && !final(self)@.wanted.contains(key)
                    ==> res@.contains(old(self)@.pending[key]),
    {
        let ghost before = self@;
        let mut wanted: KeySet<TileCacheKey> = KeySet::new();
        let mut visible: KeySet<TileCacheKey> = KeySet::new();
        let mut i: usize = 0;
        while i < requests.len()
            invariant
                i <= requests.len(),
                self@ == before,
                before == old(self)@,
                wanted@ == requested_keys(before.document_id, requests@, false, i as int),
                visible@ == requested_keys(before.document_id, requests@, true, i as int),
            decreases requests.len() - i,
        {
            let request = requests[i];
            let key = TileCacheKey::from_request(self.document_id, &request);
            wanted.insert(key);
            if request.priority == RenderPriority::Visible {
                visible.insert(key);
            }
            i += 1;
        }
        let keys = self.pending.keys();
        let mut cancelled: Vec<TileRequest> = Vec::new();
        let mut k: usize = 0;
        proof {
            vstd::seq_lib::seq_to_set_is_finite(keys@);
        }
        while k < keys.len()
            invariant
                k <= keys.len(),
                keys@.no_duplicates(),
                keys@.to_set() == before.pending.dom(),
                self.pending@.dom().finite(),
                cancelled@.len() + self.pending@.dom().len() == before.pending.dom().len(),
                before == old(self)@,
                self@ == (TileBookView { pending: self.pending@, ..before }),
                forall|key: TileCacheKey| #[trigger]
                    self.pending@.dom().contains(key) <==> before.pending.dom().contains(key) && (
                    wanted@.contains(key) || !keys@.take(k as int).contains(key)),
                forall|key: TileCacheKey|
                    self.pending@.dom().contains(key) ==> #[trigger] self.pending@[key]
                        == before.pending[key],
                forall|c: int|
                    0 <= c < cancelled@.len() ==> is_dropped(
                        before.pending,
                        wanted@,
                        #[trigger] cancelled@[c],
                    ),
                forall|key: TileCacheKey| #[trigger]
                    before.pending.dom().contains(key) && !wanted@.contains(key) && keys@.take(
                        k as int,
                    ).contains(key) ==> cancelled@.contains(before.pending[key]),
            decreases keys.len() - k,
        {
            let key = keys[k];
            let ghost shorter = keys@.take(k as int);
            let ghost longer = keys@.take(k + 1);
            let ghost earlier = cancelled@;
            proof {
                assert(longer =~= shorter.push(key));
                assert forall|x: TileCacheKey| longer.contains(x) == (shorter.contains(x) || x
                    == key) by {
                    if shorter.contains(x) {
                        let j = choose|j: int| 0 <= j < shorter.len() && shorter[j] == x;
                        assert(longer[j] == x);
                    }
                    if longer.contains(x) {
                        let j = choose|j: int| 0 <= j < longer.len() && longer[j] == x;
                        if j < k {
                            assert(shorter[j] == x);
                        }
                    }
                    assert(longer[k as int] == key);
                }
                assert(keys@.contains(key));
                assert(before.pending.dom().contains(key)) by {
                    assert(keys@.to_set().contains(key));
                }
                assert(!shorter.contains(key)) by {
                    if shorter.contains(key) {
                        let j = choose|j: int| 0 <= j < shorter.len() && shorter[j] == key;
                        assert(keys@[j] == keys@[k as int]);
                    }
                }
            }
            if !wanted.contains(key) {
                assert(self.pending@.dom().contains(key));
                let ghost waited = self.pending@.dom();
                if let Some(request) = self.pending.remove(key) {
                    assert(request == before.pending[key]);
                    assert(self.pending@.dom() =~= waited.remove(key));
                    cancelled.push(request);
                    proof {
                        assert(cancelled@[earlier.len() as int] == before.pending[key]);
                        assert forall|c: int| 0 <= c < cancelled@.len() implies is_dropped(
                            before.pending,
                            wanted@,
                            #[trigger] cancelled@[c],
                        ) by {
                            if c < earlier.len() {
                                assert(cancelled@[c] == earlier[c]);
                            } else {
                                assert(before.pending.dom().contains(key));
                            }
                        }
                        assert forall|x: TileCacheKey| #[trigger]
                            before.pending.dom().contains(x) && !wanted@.contains(x)
                                && longer.contains(x) implies cancelled@.contains(
                            before.pending[x],
                        ) by {
                            if x != key {
                                let j = choose|j: int|
                                    0 <= j < earlier.len() && earlier[j] == before.pending[x];
                                assert(earlier.contains(before.pending[x]));
                                assert(cancelled@[j] == before.pending[x]);
                            }
                        }
                    }
                }
            }
            k += 1;
        }
        proof {
            assert(keys@.take(k as int) =~= keys@);
            assert forall|key: TileCacheKey| #[trigger]
                self.pending@.dom().contains(key) <==> before.pending.dom().contains(key)
                    && wanted@.contains(key) by {
                assert(keys@.to_set().contains(key) == keys@.contains(key));
            }
            assert forall|key: TileCacheKey| #[trigger]
                before.pending.dom().contains(key) && !wanted@.contains(
                    key,
                ) implies cancelled@.contains(before.pending[key]) by {
                assert(keys@.to_set().contains(key) == keys@.contains(key));
            }
            assert(self.pending@ =~= before.pending.restrict(wanted@));
        }
        self.wanted = wanted;
        self.visible = visible;
        assert(self@ =~= before.framed(requests@));
        cancelled
    }

    /// Whether a request has to go to the worker.
    pub fn needs_tile(&self, request: &TileRequest) -> (res: bool)
        ensures
            res == self@.needs(*request),
    {
        let key = TileCacheKey::from_request(self.document_id, request);
        if self.cached.contains(key) {
            return false;
        }
        match self.pending.get(key) {
            None => true,
            // The same tile is asked for again only when it became more urgent.
            Some(waiting) => more_urgent(request.priority, waiting.priority),
        }
    }

    /// Notes a request that the worker took.
    pub fn tile_requested(&mut self, request: TileRequest)
        ensures
            final(self)@ == (TileBookView {
                pending: old(self)@.pending.insert(
                    tile_key(old(self)@.document_id, request),
                    request,
                ),
                ..old(self)@
            }),
    {
        let key = TileCacheKey::from_request(self.document_id, &request);
        self.pending.insert(key, request);
    }

    /// Stops waiting for tiles. Returns the requests to cancel.
    pub fn cancel_rendering_requests(&mut self) -> (res: Vec<TileRequest>)
        ensures
            final(self)@ == old(self)@.quiet(),
            res@.len() == old(self)@.pending.dom().len(),
            forall|i: int|
                0 <= i < res@.len() ==> is_dropped(
                    old(self)@.pending,
                    Set::empty(),
                    #[trigger] res@[i],
                ),
            forall|key: TileCacheKey| #[trigger]
                old(self)@.pending.dom().contains(key) ==> res@.contains(old(self)@.pending[key]),
    {
        let ghost before = self@;
        let keys = self.pending.keys();
        proof {
            keys@.unique_seq_to_set();
        }
        let mut cancelled: Vec<TileRequest> = Vec::new();
        let mut k: usize = 0;
        while k < keys.len()
            invariant
                k <= keys.len(),
                keys@.to_set() == before.pending.dom(),
                self@ == before,
                cancelled.len() == k,
                forall|c: int|
                    0 <= c < k ==> (#[trigger] cancelled@[c]) == before.pending[keys@[c]],
            decreases keys.len() - k,
        {
            let key = keys[k];
            assert(keys@.contains(key));
            assert(before.pending.dom().contains(key)) by {
                assert(keys@.to_set().contains(key));
            }
            if let Some(request) = self.pending.get(key) {
                cancelled.push(request);
            }
            k += 1;
        }
        proof {
            assert forall|c: int| 0 <= c < cancelled@.len() implies is_dropped(
                before.pending,
                Set::empty(),
                #[trigger] cancelled@[c],
            ) by {
                let key = keys@[c];
                assert(keys@.to_set().contains(key));
                assert(before.pending.dom().contains(key));
            }
            assert forall|key: TileCacheKey| #[trigger]
                before.pending.dom().contains(key) implies cancelled@.contains(
                before.pending[key],
            ) by {
                assert(keys@.to_set().contains(key));
                let c = choose|c: int| 0 <= c < keys@.len() && keys@[c] == key;
                assert(cancelled@[c] == before.pending[key]);
            }
        }
        self.pending.clear();
        self.wanted.clear();
        self.visible.clear();
        assert(self@ =~= before.quiet());
        cancelled
    }
}

fn more_urgent(a: RenderPriority, b: RenderPriority) -> (res: bool)
    ensures
        res == (a.rank() < b.rank()),
{
    match (a, b) {
        (RenderPriority::Visible, RenderPriority::Visible) => false,
        (RenderPriority::Visible, _) => true,
        (RenderPriority::CurrentViewport, RenderPriority::NextViewport) => true,
        (RenderPriority::CurrentViewport, RenderPriority::PreviousViewport) => true,
        (RenderPriority::NextViewport, RenderPriority::PreviousViewport) => true,
        _ => false,
    }
}

/// What painting the tiles of a page comes to.
#[derive(Debug)]
pub struct PaintPlan {
    /// Tiles of another zoom have to fill in: not every visible tile is kept.
    pub needs_provisional: bool,
    /// The wanted tiles of the page, in painting order.
    pub exact: Vec<TileCacheKey>,
}

/// Whether a page has visible tiles, all of them kept.
pub open spec fn page_is_complete(book: TileBookView, page_index: usize) -> bool {
    &&& exists|key: TileCacheKey| #[trigger]
        book.visible.contains(key) && key.page_index == page_index
    &&& forall|key: TileCacheKey| #[trigger]
        book.visible.contains(key) && key.page_index == page_index ==> book.cached.contains(key)
}

impl TileBook {
    /// Plans the painting of a page.
    pub fn plan_paint(&self, page_index: usize) -> (res: PaintPlan)
        ensures
            res.needs_provisional == !page_is_complete(self@, page_index),
            in_painting_order(res.exact@),
            res.exact@.no_duplicates(),
            forall|key: TileCacheKey| #[trigger]
                res.exact@.contains(key) <==> self@.wanted.contains(key) && key.page_index
                    == page_index,
    {
        let visible = self.visible.keys();
        let mut any: bool = false;
        let mut all: bool = true;
        let mut i: usize = 0;
        while i < visible.len()
            invariant
                i <= visible.len(),
                visible@.to_set() == self@.visible,
                any == exists|k: int|
                    0 <= k < i && (#[trigger] visible@[k]).page_index == page_index,
                all == forall|k: int|
                    0 <= k < i && (#[trigger] visible@[k]).page_index == page_index
                        ==> self@.cached.contains(visible@[k]),
            decreases visible.len() - i,
        {
            if visible[i].page_index == page_index {
                assert(visible@[i as int].page_index == page_index);
                any = true;
                if !self.cached.contains(visible[i]) {
                    all = false;
                }
            }
            i += 1;
        }
        proof {
            if any {
                let k = choose|k: int|
                    0 <= k < visible@.len() && (#[trigger] visible@[k]).page_index == page_index;
                assert(visible@.to_set().contains(visible@[k]));
                assert(self@.visible.contains(visible@[k]));
            }
            assert forall|key: TileCacheKey| #[trigger]
                self@.visible.contains(key) && key.page_index == page_index implies exists|k: int|
                0 <= k < visible@.len() && #[trigger] visible@[k] == key by {
                assert(visible@.to_set().contains(key));
                let k = choose|k: int| 0 <= k < visible@.len() && visible@[k] == key;
                assert(visible@[k] == key);
            }
            if all {
                assert forall|key: TileCacheKey| #[trigger]
                    self@.visible.contains(key) && key.page_index
                        == page_index implies self@.cached.contains(key) by {
                    let k = choose|k: int| 0 <= k < visible@.len() && #[trigger] visible@[k] == key;
                    assert(visible@[k].page_index == page_index);
                }
            } else {
                let k = choose|k: int|
                    0 <= k < visible@.len() && (#[trigger] visible@[k]).page_index == page_index
                        && !self@.cached.contains(visible@[k]);
                assert(visible@.to_set().contains(visible@[k]));
                assert(self@.visible.contains(visible@[k]));
            }
            assert((any && all) == page_is_complete(self@, page_index));
        }
        let wanted = self.wanted.keys();
        let mut own: Vec<TileCacheKey> = Vec::new();
        let mut w: usize = 0;
        while w < wanted.len()
            invariant
                w <= wanted.len(),
                wanted@.no_duplicates(),
                own@.no_duplicates(),
                forall|key: TileCacheKey| #[trigger]
                    own@.contains(key) <==> key.page_index == page_index && wanted@.take(
                        w as int,
                    ).contains(key),
            decreases wanted.len() - w,
        {
            let key = wanted[w];
            let ghost shorter = wanted@.take(w as int);
            let ghost longer = wanted@.take(w + 1);
            let ghost earlier = own@;
            proof {
                assert(longer =~= shorter.push(key));
                assert forall|x: TileCacheKey| longer.contains(x) == (shorter.contains(x) || x
                    == key) by {
                    if shorter.contains(x) {
                        let j = choose|j: int| 0 <= j < shorter.len() && shorter[j] == x;
                        assert(longer[j] == x);
                    }
                    if longer.contains(x) {
                        let j = choose|j: int| 0 <= j < longer.len() && longer[j] == x;
                        if j < w {
                            assert(shorter[j] == x);
                        }
                    }
                    assert(longer[w as int] == key);
                }
                assert(!shorter.contains(key)) by {
                    if shorter.contains(key) {
                        let j = choose|j: int| 0 <= j < shorter.len() && shorter[j] == key;
                        assert(wanted@[j] == wanted@[w as int]);
                    }
                }
            }
            if key.page_index == page_index {
                assert(!earlier.contains(key));
                own.push(key);
                proof {
                    assert forall|x: TileCacheKey| #[trigger]
                        own@.contains(x) == (earlier.contains(x) || x == key) by {
                        if own@.contains(x) {
                            let j = choose|j: int| 0 <= j < own@.len() && own@[j] == x;
                            if j < earlier.len() {
                                assert(earlier[j] == x);
                            }
                        }
                        if earlier.contains(x) {
                            let j = choose|j: int| 0 <= j < earlier.len() && earlier[j] == x;
                            assert(own@[j] == x);
                        }
                        assert(own@[earlier.len() as int] == key);
                    }
                }
            }
            w += 1;
        }
        proof {
            assert(wanted@.take(w as int) =~= wanted@);
        }
        let exact = sort_for_painting(&own);
        proof {
            broadcast use vstd::seq_lib::group_to_multiset_ensures;

            painting_order_sorts(own@, own@.len() as int);
            assert(own@.take(own@.len() as int) =~= own@);
            assert(exact@.to_multiset() == own@.to_multiset());
            assert forall|key: TileCacheKey| #[trigger] exact@.contains(key) == own@.contains(
                key,
            ) by {
                assert(exact@.contains(key) == exact@.to_multiset().contains(key));
                assert(own@.contains(key) == own@.to_multiset().contains(key));
            }
            assert(exact@.no_duplicates()) by {
                own@.lemma_multiset_has_no_duplicates();
                exact@.lemma_multiset_has_no_duplicates_conv();
            }
            assert forall|key: TileCacheKey| #[trigger]
                exact@.contains(key) <==> self@.wanted.contains(key) && key.page_index
                    == page_index by {
                assert(own@.contains(key) == exact@.contains(key));
                assert(wanted@.to_set().contains(key) == wanted@.contains(key));
            }
        }
        PaintPlan { needs_provisional: !(any && all), exact }
    }
}

/// A page is complete exactly if some of it is seen and all of that is there.
pub proof fn complete_pages_lack_nothing(book: TileBookView, page_index: usize, key: TileCacheKey)
    requires
        book.visible.contains(key),
        key.page_index == page_index,
    ensures
        !book.cached.contains(key) ==> !page_is_complete(book, page_index),
        page_is_complete(book, page_index) ==> book.cached.contains(key),
        (forall|other: TileCacheKey| #[trigger]
            book.visible.contains(other) && other.page_index == page_index ==> book.cached.contains(
                other,
            )) ==> page_is_complete(book, page_index),
{
}

} // verus!
