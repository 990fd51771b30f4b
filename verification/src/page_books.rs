//! What was asked for page by page: texts, annotations and thumbnails.
use crate::highlight_index::message_view;
use crate::keys::{Key, KeySet};
use crate::rendering::{
    AnnotationPageRequest, TextSnapshotKey, ThumbnailCacheKey, ThumbnailRequest,
};
use crate::text::begins_with;
use vstd::prelude::*;

verus! {

/// What is known, waited for, known to fail and wanted, by key.
#[derive(Debug)]
pub struct PageBook<K: Key> {
    pub cached: KeySet<K>,
    pub pending: KeySet<K>,
    pub failed: KeySet<K>,
    pub wanted: KeySet<K>,
}

/// What a `PageBook` stands for in specifications.
#[verifier::ext_equal]
#[verifier::reject_recursive_types(K)]
pub struct PageBookView<K> {
    pub cached: Set<K>,
    pub pending: Set<K>,
    pub failed: Set<K>,
    pub wanted: Set<K>,
}

impl<K: Key> View for PageBook<K> {
    type V = PageBookView<K>;

    open spec fn view(&self) -> PageBookView<K> {
        PageBookView {
            cached: self.cached@,
            pending: self.pending@,
            failed: self.failed@,
            wanted: self.wanted@,
        }
    }
}

impl<K> PageBookView<K> {
    /// Nothing known and nothing wanted.
    pub open spec fn blank() -> PageBookView<K> {
        PageBookView {
            cached: Set::empty(),
            pending: Set::empty(),
            failed: Set::empty(),
            wanted: Set::empty(),
        }
    }

    /// What has to be asked for.
    pub open spec fn missing(self) -> Set<K> {
        self.wanted.difference(self.cached).difference(self.pending).difference(self.failed)
    }

    /// The book of another screenful: what is not wanted any more is forgotten; with
    /// `drop_pending` it is not waited for either.
    pub open spec fn turned_to(self, wanted: Set<K>, drop_pending: bool) -> PageBookView<K> {
        PageBookView {
            cached: self.cached.intersect(wanted),
            pending: if drop_pending {
                self.pending.intersect(wanted)
            } else {
                self.pending
            },
            failed: self.failed.intersect(wanted),
            wanted,
        }
    }

    /// The book once `key` was asked for.
    pub open spec fn waiting_for(self, key: K) -> PageBookView<K> {
        PageBookView { pending: self.pending.insert(key), ..self }
    }

    /// The book after an answer that still counts.
    pub open spec fn answered(self, key: K) -> PageBookView<K> {
        PageBookView {
            cached: self.cached.insert(key),
            pending: self.pending.remove(key),
            failed: self.failed.remove(key),
            ..self
        }
    }

    /// The book after a failure that still counts.
    pub open spec fn refused(self, key: K) -> PageBookView<K> {
        PageBookView {
            pending: self.pending.remove(key),
            failed: self.failed.insert(key),
            ..self
        }
    }

    /// The book after an answer that counts no more.
    pub open spec fn skipped(self, key: K) -> PageBookView<K> {
        PageBookView { pending: self.pending.remove(key), ..self }
    }
}

impl<K: Key> PageBook<K> {
    pub fn new() -> (res: Self)
        ensures
            res@ == PageBookView::<K>::blank(),
    {
        PageBook {
            cached: KeySet::new(),
            pending: KeySet::new(),
            failed: KeySet::new(),
            wanted: KeySet::new(),
        }
    }

    /// Forgets everything.
    pub fn clear(&mut self)
        ensures
            final(self)@ == PageBookView::<K>::blank(),
    {
        self.cached.clear();
        self.pending.clear();
        self.failed.clear();
        self.wanted.clear();
    }

    /// Notes a request that the worker took.
    pub fn requested(&mut self, key: K)
        ensures
            final(self)@ == old(self)@.waiting_for(key),
    {
        self.pending.insert(key);
    }

    /// Takes an answer; one that counts is kept.
    pub fn receive(&mut self, key: K, current: bool)
        ensures
            final(self)@ == (if current {
                old(self)@.answered(key)
            } else {
                old(self)@.skipped(key)
            }),
    {
        self.pending.remove(key);
        if current {
            self.failed.remove(key);
            self.cached.insert(key);
        }
    }

    /// Takes a failure; one that counts is not asked for again while it is wanted.
    pub fn receive_failure(&mut self, key: K, current: bool)
        ensures
            final(self)@ == (if current {
                old(self)@.refused(key)
            } else {
                old(self)@.skipped(key)
            }),
    {
        self.pending.remove(key);
        if current {
            self.failed.insert(key);
        }
    }

    /// Notes that a request was passed over.
    pub fn skip(&mut self, key: K)
        ensures
            final(self)@ == old(self)@.skipped(key),
    {
        self.pending.remove(key);
    }

    /// What has to be asked for, each key once.
    pub fn missing_keys(&self) -> (res: Vec<K>)
        ensures
            res@.no_duplicates(),
            res@.to_set() == self@.missing(),
    {
        let all = self.wanted.keys();
        let mut res: Vec<K> = Vec::new();
        let mut i: usize = 0;
        while i < all.len()
            invariant
                i <= all.len(),
                all@.no_duplicates(),
                all@.to_set() == self@.wanted,
                res@.no_duplicates(),
                forall|k: K| #[trigger]
                    res@.contains(k) <==> all@.take(i as int).contains(k) && self@.missing().contains(
                        k,
                    ),
            decreases all.len() - i,
        {
            let key = all[i];
            let ghost before = res@;
            let ghost shorter = all@.take(i as int);
            let ghost longer = all@.take(i + 1);
            proof {
                assert(longer =~= shorter.push(key));
                assert forall|x: K| longer.contains(x) == (shorter.contains(x) || x == key) by {
                    if shorter.contains(x) {
                        let j = choose|j: int| 0 <= j < shorter.len() && shorter[j] == x;
                        assert(longer[j] == x);
                    }
                    if longer.contains(x) {
                        let j = choose|j: int| 0 <= j < longer.len() && longer[j] == x;
                        if j < i {
                            assert(shorter[j] == x);
                        }
                    }
                    assert(longer[i as int] == key);
                }
                assert(!shorter.contains(key)) by {
                    if shorter.contains(key) {
                        let j = choose|j: int| 0 <= j < shorter.len() && shorter[j] == key;
                        assert(all@[j] == all@[i as int]);
                    }
                }
                assert(all@.contains(key));
                assert(self@.wanted.contains(key)) by {
                    assert(all@.to_set().contains(key));
                }
            }
            if !self.cached.contains(key) && !self.pending.contains(key) && !self.failed.contains(
                key,
            ) {
                assert(!before.contains(key));
                res.push(key);
                proof {
                    assert forall|x: K| #[trigger] res@.contains(x) == (before.contains(x) || x
                        == key) by {
                        if res@.contains(x) {
                            let j = choose|j: int| 0 <= j < res@.len() && res@[j] == x;
                            if j < before.len() {
                                assert(before[j] == x);
                            }
                        }
                        if before.contains(x) {
                            let j = choose|j: int| 0 <= j < before.len() && before[j] == x;
                            assert(res@[j] == x);
                        }
                        assert(res@[before.len() as int] == key);
                    }
                }
            }
            i += 1;
        }
        proof {
            assert(all@.take(i as int) =~= all@);
            assert forall|k: K| res@.to_set().contains(k) == self@.missing().contains(k) by {
                assert(all@.to_set().contains(k) == all@.contains(k));
                assert(res@.contains(k) == res@.to_set().contains(k));
            }
            assert(res@.to_set() =~= self@.missing());
        }
        res
    }
}

/// What begins the message of a text that could not be read.
pub open spec fn is_text_failure(message: Seq<char>) -> bool {
    let prefix = "text snapshot:"@;
    prefix.len() <= message.len() && message.take(prefix.len() as int) == prefix
}

/// The error of a tab once no text on screen has failed.
pub open spec fn error_without_text_failures(
    failed: Set<TextSnapshotKey>,
    error: Option<Seq<char>>,
) -> Option<Seq<char>> {
    if failed == Set::<TextSnapshotKey>::empty() && error is Some && is_text_failure(error->0) {
        None
    } else {
        error
    }
}

/// Forgets the failures of pages that left the screen, and their message with the last one.
pub fn retain_visible_text_failures(
    failed: &mut KeySet<TextSnapshotKey>,
    error: &mut Option<String>,
    wanted: &KeySet<TextSnapshotKey>,
)
    ensures
        final(failed)@ == old(failed)@.intersect(wanted@),
        message_view(*final(error)) == error_without_text_failures(
            old(failed)@.intersect(wanted@),
            message_view(*old(error)),
        ),
{
    failed.retain(wanted);
    if failed.is_empty() {
        let stale = match &*error {
            None => false,
            Some(message) => begins_with(message.as_str(), "text snapshot:"),
        };
        if stale {
            *error = None;
        }
    }
}

/// The keys of pages of one revision.
pub open spec fn text_keys(pages: Seq<usize>, revision: u64) -> Set<TextSnapshotKey> {
    Set::new(
        |key: TextSnapshotKey| key.revision == revision && pages.contains(key.page_index),
    )
}

/// The requests for the annotations of pages of one revision.
pub open spec fn annotation_keys(pages: Seq<usize>, revision: u64) -> Set<AnnotationPageRequest> {
    Set::new(
        |key: AnnotationPageRequest|
            key.expected_revision == revision && pages.contains(key.page_index),
    )
}

impl PageBook<TextSnapshotKey> {
    /// Turns to another screenful of pages. Returns the requests to cancel and those to make.
    pub fn prepare_text_snapshots(
        &mut self,
        pages: &Vec<usize>,
        revision: u64,
        error: &mut Option<String>,
    ) -> (res: (Vec<TextSnapshotKey>, Vec<TextSnapshotKey>))
        ensures
            final(self)@ == old(self)@.turned_to(text_keys(pages@, revision), true),
            message_view(*final(error)) == error_without_text_failures(
                final(self)@.failed,
                message_view(*old(error)),
            ),
            res.0@.no_duplicates(),
            res.0@.to_set() == old(self)@.pending.difference(text_keys(pages@, revision)),
            res.1@.no_duplicates(),
            res.1@.to_set() == final(self)@.missing(),
    {
        let mut wanted: KeySet<TextSnapshotKey> = KeySet::new();
        let mut i: usize = 0;
        while i < pages.len()
            invariant
                i <= pages.len(),
                wanted@ == text_keys(pages@.take(i as int), revision),
            decreases pages.len() - i,
        {
            let key = TextSnapshotKey { page_index: pages[i], revision };
            let ghost shorter = pages@.take(i as int);
            let ghost longer = pages@.take(i + 1);
            wanted.insert(key);
            proof {
                longer_prefix_contains(pages@, i as int);
                assert(wanted@ =~= text_keys(longer, revision));
            }
            i += 1;
        }
        assert(pages@.take(i as int) =~= pages@);
        let cancelled = self.pending.keys_not_in(&wanted);
        self.pending.retain(&wanted);
        self.cached.retain(&wanted);
        retain_visible_text_failures(&mut self.failed, error, &wanted);
        self.wanted = wanted;
        assert(self@ =~= old(self)@.turned_to(text_keys(pages@, revision), true));
        let requests = self.missing_keys();
        (cancelled, requests)
    }
}

impl PageBook<AnnotationPageRequest> {
    /// Turns to another screenful of pages. Returns the requests to make. Requests under way
    /// go on: an answer that comes late is refused by its revision.
    pub fn prepare_annotation_pages(&mut self, pages: &Vec<usize>, revision: u64) -> (res: Vec<
        AnnotationPageRequest,
    >)
        ensures
            final(self)@ == old(self)@.turned_to(annotation_keys(pages@, revision), false),
            res@.no_duplicates(),
            res@.to_set() == final(self)@.missing(),
    {
        let mut wanted: KeySet<AnnotationPageRequest> = KeySet::new();
        let mut i: usize = 0;
        while i < pages.len()
            invariant
                i <= pages.len(),
                wanted@ == annotation_keys(pages@.take(i as int), revision),
            decreases pages.len() - i,
        {
            let key = AnnotationPageRequest { page_index: pages[i], expected_revision: revision };
            let ghost longer = pages@.take(i + 1);
            wanted.insert(key);
            proof {
                longer_prefix_contains(pages@, i as int);
                assert(wanted@ =~= annotation_keys(longer, revision));
            }
            i += 1;
        }
        assert(pages@.take(i as int) =~= pages@);
        self.cached.retain(&wanted);
        self.failed.retain(&wanted);
        self.wanted = wanted;
        assert(self@ =~= old(self)@.turned_to(annotation_keys(pages@, revision), false));
        self.missing_keys()
    }
}

proof fn longer_prefix_contains(pages: Seq<usize>, index: int)
    requires
        0 <= index < pages.len(),
    ensures
        forall|page: usize| #[trigger]
            pages.take(index + 1).contains(page) == (pages.take(index).contains(page) || page
                == pages[index]),
{
    let shorter = pages.take(index);
    let longer = pages.take(index + 1);
    assert forall|page: usize| #[trigger]
        longer.contains(page) == (shorter.contains(page) || page == pages[index]) by {
        if shorter.contains(page) {
            let j = choose|j: int| 0 <= j < shorter.len() && shorter[j] == page;
            assert(longer[j] == page);
        }
        if longer.contains(page) {
            let j = choose|j: int| 0 <= j < longer.len() && longer[j] == page;
            if j < index {
                assert(shorter[j] == page);
            }
        }
        assert(longer[index] == pages[index]);
    }
}

/// The request for a thumbnail, unless it is kept, waited for or known to fail.
pub open spec fn thumbnail_request(
    book: PageBookView<ThumbnailCacheKey>,
    key: ThumbnailCacheKey,
    page_index: usize,
    generation: u64,
) -> Option<ThumbnailRequest> {
    if book.cached.contains(key) || book.pending.contains(key) || book.failed.contains(key) {
        None
    } else {
        Some(
            ThumbnailRequest {
                page_index,
                max_pixel_width: key.max_pixel_width,
                max_pixel_height: key.max_pixel_height,
                generation,
                expected_revision: key.revision,
            },
        )
    }
}

impl PageBook<ThumbnailCacheKey> {
    /// The request to make for a page's thumbnail, if one is needed.
    pub fn request_thumbnail(&self, page_index: usize, key: ThumbnailCacheKey, generation: u64) -> (res:
        Option<ThumbnailRequest>)
        ensures
            res == thumbnail_request(self@, key, page_index, generation),
    {
        if self.cached.contains(key) || self.pending.contains(key) || self.failed.contains(key) {
            return None;
        }
        Some(
            ThumbnailRequest {
                page_index,
                max_pixel_width: key.max_pixel_width,
                max_pixel_height: key.max_pixel_height,
                generation,
                expected_revision: key.revision,
            },
        )
    }

    /// Asks once more for a thumbnail that failed. Only a user does: a page that cannot be drawn
    /// is not asked for again and again.
    pub fn retry_thumbnail(
        &mut self,
        page_index: usize,
        key: ThumbnailCacheKey,
        generation: u64,
    ) -> (res: Option<ThumbnailRequest>)
        ensures
            final(self)@ == (PageBookView { failed: old(self)@.failed.remove(key), ..old(self)@ }),
            res == thumbnail_request(final(self)@, key, page_index, generation),
    {
        self.failed.remove(key);
        self.request_thumbnail(page_index, key, generation)
    }
}

/// A page is asked for at most once at a time: what is waited for, kept or known to fail is
/// not missing.
pub proof fn nothing_is_asked_for_twice<K>(book: PageBookView<K>, key: K)
    ensures
        book.waiting_for(key).missing() =~= book.missing().remove(key),
        !book.answered(key).missing().contains(key),
        !book.refused(key).missing().contains(key),
{
}

/// A page is missing exactly if it is wanted and neither there, nor under way, nor known to fail.
pub proof fn missing_pages<K>(book: PageBookView<K>, key: K)
    ensures
        book.missing().contains(key) == (book.wanted.contains(key) && !book.cached.contains(key)
            && !book.pending.contains(key) && !book.failed.contains(key)),
{
}

/// Turning to other pages forgets what is kept or failed of pages that are not wanted any more, and
/// nothing of those that are; what is under way is called off only where that was asked for.
pub proof fn turning_keeps_what_is_wanted<K>(
    book: PageBookView<K>,
    wanted: Set<K>,
    drop_pending: bool,
    key: K,
)
    ensures
        ({
            let after = book.turned_to(wanted, drop_pending);
            &&& after.wanted == wanted
            &&& after.cached.contains(key) == (book.cached.contains(key) && wanted.contains(key))
            &&& after.failed.contains(key) == (book.failed.contains(key) && wanted.contains(key))
            &&& drop_pending ==> after.pending.contains(key) == (book.pending.contains(key)
                && wanted.contains(key))
            &&& !drop_pending ==> after.pending == book.pending
        }),
{
}

/// An answer puts its page among those that are there, a refusal among those that fail, and a
/// result that does not count in neither; all of them end the wait for that page, and no other page
/// is touched.
pub proof fn answers_end_the_wait<K>(book: PageBookView<K>, key: K, other: K)
    ensures
        book.waiting_for(key).pending.contains(key),
        book.answered(key).cached.contains(key),
        !book.answered(key).pending.contains(key),
        !book.answered(key).failed.contains(key),
        book.refused(key).failed.contains(key),
        !book.refused(key).pending.contains(key),
        book.refused(key).cached == book.cached,
        !book.skipped(key).pending.contains(key),
        book.skipped(key).cached == book.cached,
        book.skipped(key).failed == book.failed,
        other != key ==> book.waiting_for(key).pending.contains(other) == book.pending.contains(
            other,
        ) && book.answered(key).cached.contains(other) == book.cached.contains(other)
            && book.answered(key).pending.contains(other) == book.pending.contains(other)
            && book.answered(key).failed.contains(other) == book.failed.contains(other)
            && book.refused(key).pending.contains(other) == book.pending.contains(other)
            && book.refused(key).failed.contains(other) == book.failed.contains(other)
            && book.skipped(key).pending.contains(other) == book.pending.contains(other),
        book.waiting_for(key).cached == book.cached,
        book.waiting_for(key).failed == book.failed,
        book.waiting_for(key).wanted == book.wanted,
        book.answered(key).wanted == book.wanted,
        book.refused(key).wanted == book.wanted,
        book.skipped(key).wanted == book.wanted,
{
}

/// The keys of pages are those pages in that revision.
pub proof fn keys_name_page_and_revision(
    pages: Seq<usize>,
    revision: u64,
    text: TextSnapshotKey,
    annotation: AnnotationPageRequest,
)
    ensures
        text_keys(pages, revision).contains(text) == (text.revision == revision && pages.contains(
            text.page_index,
        )),
        annotation_keys(pages, revision).contains(annotation) == (annotation.expected_revision
            == revision && pages.contains(annotation.page_index)),
{
}

/// A thumbnail is asked for exactly if it is neither there, nor under way, nor known to fail, and as
/// it is named; once it failed, it is asked for again only when that is forgotten.
pub proof fn thumbnails_are_asked_for_once(
    book: PageBookView<ThumbnailCacheKey>,
    key: ThumbnailCacheKey,
    page_index: usize,
    generation: u64,
)
    ensures
        (thumbnail_request(book, key, page_index, generation) is Some) == (!book.cached.contains(
            key,
        ) && !book.pending.contains(key) && !book.failed.contains(key)),
        thumbnail_request(book, key, page_index, generation) is Some ==> ({
            let request = thumbnail_request(book, key, page_index, generation)->0;
            &&& request.page_index == page_index
            &&& request.max_pixel_width == key.max_pixel_width
            &&& request.max_pixel_height == key.max_pixel_height
            &&& request.generation == generation
            &&& request.expected_revision == key.revision
        }),
        thumbnail_request(book.waiting_for(key), key, page_index, generation) is None,
        thumbnail_request(book.refused(key), key, page_index, generation) is None,
{
}

/// A message about texts goes away with the last page that failed; any other message stays.
pub proof fn only_text_messages_go_away(failed: Set<TextSnapshotKey>, error: Option<Seq<char>>, key:
    TextSnapshotKey)
    ensures
        failed.contains(key) ==> error_without_text_failures(failed, error) == error,
        error is Some && !is_text_failure(error->0) ==> error_without_text_failures(failed, error)
            == error,
        error is Some && is_text_failure(error->0) ==> error_without_text_failures(
            Set::empty(),
            error,
        ) is None,
        error is None ==> error_without_text_failures(failed, error) is None,
{
}

} // verus!
