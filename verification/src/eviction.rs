//! What the caches push out.
use crate::close_flow::document_views;
use crate::document::{DocumentTab, DocumentView};
use crate::rendering::{ThumbnailCacheKey, TileCacheKey};
use crate::workspace::{can_be_shown, restoring_count_of_same, Workspace, WorkspaceView};
use vstd::prelude::*;

verus! {

/// The first document of an identity, if there is one.
pub open spec fn first_of(documents: Seq<DocumentView>, document_id: u64, index: Option<int>) -> bool {
    match index {
        Some(index) => {
            &&& 0 <= index < documents.len()
            &&& documents[index].document_id == document_id
            &&& forall|i: int| 0 <= i < index ==> documents[i].document_id != document_id
        },
        None => forall|i: int|
            0 <= i < documents.len() ==> documents[i].document_id != document_id,
    }
}

/// Whether the document at `i` is the one that an identity stands for.
pub open spec fn stands_for(documents: Seq<DocumentView>, document_id: u64, i: int) -> bool {
    first_of(documents, document_id, Some(i))
}

/// The documents once a tile has left the cache: the one it belongs to no longer keeps it.
pub open spec fn without_tile(documents: Seq<DocumentView>, key: TileCacheKey) -> Seq<DocumentView> {
    Seq::new(
        documents.len(),
        |i: int|
            if stands_for(documents, key.document_id, i) {
                documents[i].with_tile(key, false, false)
            } else {
                documents[i]
            },
    )
}

/// The documents once a thumbnail has left the cache: the one it belongs to no longer keeps it.
pub open spec fn without_thumbnail(
    documents: Seq<DocumentView>,
    key: ThumbnailCacheKey,
) -> Seq<DocumentView> {
    Seq::new(
        documents.len(),
        |i: int|
            if stands_for(documents, key.document_id, i) {
                documents[i].with_thumbnail(key, false)
            } else {
                documents[i]
            },
    )
}

/// The documents once tiles have left the cache, one after another.
pub open spec fn without_tiles(
    documents: Seq<DocumentView>,
    evicted: Seq<TileCacheKey>,
) -> Seq<DocumentView>
    decreases evicted.len(),
{
    if evicted.len() == 0 {
        documents
    } else {
        without_tile(without_tiles(documents, evicted.drop_last()), evicted.last())
    }
}

/// The documents once thumbnails have left the cache, one after another.
pub open spec fn without_thumbnails(
    documents: Seq<DocumentView>,
    evicted: Seq<ThumbnailCacheKey>,
) -> Seq<DocumentView>
    decreases evicted.len(),
{
    if evicted.len() == 0 {
        documents
    } else {
        without_thumbnail(without_thumbnails(documents, evicted.drop_last()), evicted.last())
    }
}

/// Finds the document that an identity stands for.
pub(crate) fn find_document(documents: &Vec<DocumentTab>, document_id: u64) -> (res: Option<usize>)
    ensures
        first_of(
            document_views(documents@),
            document_id,
            match res {
                Some(index) => Some(index as int),
                None => None,
            },
        ),
{
    let mut i: usize = 0;
    while i < documents.len()
        invariant
            i <= documents.len(),
            forall|j: int|
                0 <= j < i ==> document_views(documents@)[j].document_id
                    != document_id,
        decreases documents.len() - i,
    {
        assert(document_views(documents@)[i as int] == documents@[i as int]@);
        if documents[i].document_id == document_id {
            return Some(i);
        }
        i += 1;
    }
    None
}

fn evict_tile(documents: &mut Vec<DocumentTab>, key: TileCacheKey)
    ensures
        document_views(final(documents)@) == without_tile(
            document_views(old(documents)@),
            key,
        ),
{
    let ghost before = documents@;
    let ghost views = document_views(before);
    if let Some(index) = find_document(documents, key.document_id) {
        documents[index].tile_kept(key, false, false);
        proof {
            assert(documents@ =~= before.update(index as int, documents@[index as int]));
            assert(document_views(documents@) =~= views.update(
                index as int,
                views[index as int].with_tile(key, false, false),
            ));
            assert(stands_for(views, key.document_id, index as int));
            assert(document_views(documents@) =~= without_tile(views, key));
        }
    } else {
        assert(views =~= without_tile(views, key));
    }
}

fn evict_thumbnail(documents: &mut Vec<DocumentTab>, key: ThumbnailCacheKey)
    ensures
        document_views(final(documents)@) == without_thumbnail(
            document_views(old(documents)@),
            key,
        ),
{
    let ghost before = documents@;
    let ghost views = document_views(before);
    if let Some(index) = find_document(documents, key.document_id) {
        documents[index].thumbnail_kept(key, false);
        proof {
            assert(documents@ =~= before.update(index as int, documents@[index as int]));
            assert(document_views(documents@) =~= views.update(
                index as int,
                views[index as int].with_thumbnail(key, false),
            ));
            assert(stands_for(views, key.document_id, index as int));
            assert(document_views(documents@) =~= without_thumbnail(views, key));
        }
    } else {
        assert(views =~= without_thumbnail(views, key));
    }
}

/// Two documents differ at most in the tiles and thumbnails they keep.
pub open spec fn same_but_for_caches(a: DocumentView, b: DocumentView) -> bool {
    b == (DocumentView { tiles: b.tiles, thumbnails: b.thumbnails, ..a })
}

proof fn tiles_leave_the_rest(documents: Seq<DocumentView>, evicted: Seq<TileCacheKey>)
    ensures
        without_tiles(documents, evicted).len() == documents.len(),
        forall|i: int|
            0 <= i < documents.len() ==> same_but_for_caches(
                documents[i],
                #[trigger] without_tiles(documents, evicted)[i],
            ),
    decreases evicted.len(),
{
    if evicted.len() > 0 {
        tiles_leave_the_rest(documents, evicted.drop_last());
        let before = without_tiles(documents, evicted.drop_last());
        assert forall|i: int| 0 <= i < documents.len() implies same_but_for_caches(
            documents[i],
            #[trigger] without_tiles(documents, evicted)[i],
        ) by {
            assert(same_but_for_caches(documents[i], before[i]));
        }
    }
}

proof fn thumbnails_leave_the_rest(documents: Seq<DocumentView>, evicted: Seq<ThumbnailCacheKey>)
    ensures
        without_thumbnails(documents, evicted).len() == documents.len(),
        forall|i: int|
            0 <= i < documents.len() ==> same_but_for_caches(
                documents[i],
                #[trigger] without_thumbnails(documents, evicted)[i],
            ),
    decreases evicted.len(),
{
    if evicted.len() > 0 {
        thumbnails_leave_the_rest(documents, evicted.drop_last());
        let before = without_thumbnails(documents, evicted.drop_last());
        assert forall|i: int| 0 <= i < documents.len() implies same_but_for_caches(
            documents[i],
            #[trigger] without_thumbnails(documents, evicted)[i],
        ) by {
            assert(same_but_for_caches(documents[i], before[i]));
        }
    }
}

proof fn caches_do_not_matter(before: WorkspaceView, after: WorkspaceView)
    requires
        before.wf(),
        after == (WorkspaceView { documents: after.documents, ..before }),
        after.documents.len() == before.documents.len(),
        forall|i: int|
            0 <= i < before.documents.len() ==> same_but_for_caches(
                before.documents[i],
                #[trigger] after.documents[i],
            ),
    ensures
        after.wf(),
{
    assert forall|i: int| 0 <= i < after.documents.len() implies (
    #[trigger] after.documents[i]).wf() && can_be_shown(after.documents[i])
        && after.documents[i].open_if_clean() by {
        assert(before.documents[i].wf());
        assert(same_but_for_caches(before.documents[i], after.documents[i]));
    }
    restoring_count_of_same(
        after.documents,
        before.documents,
        before.documents.len() as int,
    );
}

impl Workspace {
    /// Forgets the tiles that the cache pushed out.
    pub fn remove_evicted_gpu_tiles(&mut self, evicted: &Vec<TileCacheKey>)
        ensures
            final(self)@.documents == without_tiles(old(self)@.documents, evicted@),
            old(self)@.wf() ==> final(self)@.wf(),
            final(self).tabs == old(self).tabs,
            final(self).next_document_id == old(self).next_document_id,
            final(self).activity_sequence == old(self).activity_sequence,
            final(self).tab_to_reveal == old(self).tab_to_reveal,
            final(self).editor == old(self).editor,
            final(self).picker_document == old(self).picker_document,
            final(self).restore == old(self).restore,
    {
        let ghost views = self@.documents;
        let mut i: usize = 0;
        while i < evicted.len()
            invariant
                i <= evicted.len(),
                self@.documents == without_tiles(views, evicted@.take(i as int)),
                self.tabs == old(self).tabs,
                self.next_document_id == old(self).next_document_id,
                self.activity_sequence == old(self).activity_sequence,
                self.tab_to_reveal == old(self).tab_to_reveal,
                self.editor == old(self).editor,
                self.picker_document == old(self).picker_document,
                self.restore == old(self).restore,
            decreases evicted.len() - i,
        {
            evict_tile(&mut self.documents, evicted[i]);
            assert(evicted@.take(i + 1).drop_last() =~= evicted@.take(i as int));
            i += 1;
        }
        proof {
            assert(evicted@.take(i as int) =~= evicted@);
            tiles_leave_the_rest(views, evicted@);
            if old(self)@.wf() {
                caches_do_not_matter(old(self)@, self@);
            }
        }
    }

    /// Forgets the thumbnails that the cache pushed out.
    pub fn remove_evicted_thumbnails(&mut self, evicted: &Vec<ThumbnailCacheKey>)
        ensures
            final(self)@.documents == without_thumbnails(old(self)@.documents, evicted@),
            old(self)@.wf() ==> final(self)@.wf(),
            final(self).tabs == old(self).tabs,
            final(self).next_document_id == old(self).next_document_id,
            final(self).activity_sequence == old(self).activity_sequence,
            final(self).tab_to_reveal == old(self).tab_to_reveal,
            final(self).editor == old(self).editor,
            final(self).picker_document == old(self).picker_document,
            final(self).restore == old(self).restore,
    {
        let ghost views = self@.documents;
        let mut i: usize = 0;
        while i < evicted.len()
            invariant
                i <= evicted.len(),
                self@.documents == without_thumbnails(views, evicted@.take(i as int)),
                self.tabs == old(self).tabs,
                self.next_document_id == old(self).next_document_id,
                self.activity_sequence == old(self).activity_sequence,
                self.tab_to_reveal == old(self).tab_to_reveal,
                self.editor == old(self).editor,
                self.picker_document == old(self).picker_document,
                self.restore == old(self).restore,
            decreases evicted.len() - i,
        {
            evict_thumbnail(&mut self.documents, evicted[i]);
            assert(evicted@.take(i + 1).drop_last() =~= evicted@.take(i as int));
            i += 1;
        }
        proof {
            assert(evicted@.take(i as int) =~= evicted@);
            thumbnails_leave_the_rest(views, evicted@);
            if old(self)@.wf() {
                caches_do_not_matter(old(self)@, self@);
            }
        }
    }
}

/// What the cache pushed out is kept no longer, and what it did not push out stays kept.
pub proof fn documents_keep_what_the_cache_keeps(
    documents: Seq<DocumentView>,
    evicted: Seq<TileCacheKey>,
    i: int,
    key: TileCacheKey,
)
    requires
        stands_for(documents, key.document_id, i),
    ensures
        without_tiles(documents, evicted).len() == documents.len(),
        forall|j: int|
            0 <= j < documents.len() ==> (#[trigger] without_tiles(
                documents,
                evicted,
            )[j]).document_id == documents[j].document_id,
        without_tiles(documents, evicted)[i].tiles.cached.contains(key) <==> (
        documents[i].tiles.cached.contains(key) && !evicted.contains(key)),
    decreases evicted.len(),
{
    if evicted.len() > 0 {
        let fewer = evicted.drop_last();
        documents_keep_what_the_cache_keeps(documents, fewer, i, key);
        let before = without_tiles(documents, fewer);
        let last = evicted.last();
        assert(before.len() == documents.len());
        assert(stands_for(before, key.document_id, i));
        assert(evicted =~= fewer.push(last));
        assert(evicted.contains(key) == (fewer.contains(key) || key == last)) by {
            if fewer.contains(key) {
                let k = choose|k: int| 0 <= k < fewer.len() && fewer[k] == key;
                assert(evicted[k] == key);
            }
            if key == last {
                assert(evicted[fewer.len() as int] == key);
            }
        }
        if last.document_id != key.document_id {
            assert(!stands_for(before, last.document_id, i));
        }
    }
}

/// A tile that left the cache is neither kept nor counted as prefetched; every other tile of its
/// document, and every other document, stays as it is.
pub proof fn one_tile_leaves_one_document(
    documents: Seq<DocumentView>,
    key: TileCacheKey,
    other: TileCacheKey,
    i: int,
)
    requires
        0 <= i < documents.len(),
    ensures
        without_tile(documents, key).len() == documents.len(),
        documents[i].document_id != key.document_id ==> without_tile(documents, key)[i]
            == documents[i],
        stands_for(documents, key.document_id, i) ==> !without_tile(
            documents,
            key,
        )[i].tiles.cached.contains(key) && !without_tile(
            documents,
            key,
        )[i].tiles.prefetched.contains(key),
        other != key ==> without_tile(documents, key)[i].tiles.cached.contains(other)
            == documents[i].tiles.cached.contains(other) && without_tile(
            documents,
            key,
        )[i].tiles.prefetched.contains(other) == documents[i].tiles.prefetched.contains(other),
        without_tile(documents, key)[i].tiles.pending == documents[i].tiles.pending,
        without_tile(documents, key)[i].thumbnails == documents[i].thumbnails,
        without_tile(documents, key)[i].view == documents[i].view,
{
}

} // verus!
