//! The index of all highlights of a document, read from the worker in small batches.
use crate::keys::KeyMap;
use crate::text::with_text;
use vstd::prelude::*;

verus! {

/// The number of pages that one request asks for at most.
pub const HIGHLIGHT_INDEX_BATCH_PAGES: usize = 8;

/// A request for the highlights of some consecutive pages.
#[derive(Clone, Copy, Debug, PartialEq, Eq, Structural)]
pub struct HighlightIndexRequest {
    pub generation: u64,
    pub expected_revision: u64,
    pub first_page: usize,
    pub page_count: usize,
}

/// The highlights of one page.
#[derive(Clone, Copy, Debug, PartialEq, Eq, Structural)]
pub struct HighlightIndexPage {
    pub page_index: usize,
    pub highlight_count: usize,
}

/// The answer to a request.
#[derive(Debug)]
pub struct HighlightIndexBatch {
    pub generation: u64,
    pub revision: u64,
    pub total_pages: usize,
    pub pages: Vec<HighlightIndexPage>,
}

/// The highlights of a document, as far as they are known.
#[derive(Debug)]
pub struct HighlightIndexState {
    pub generation: u64,
    pub revision: Option<u64>,
    pub total_pages: usize,
    /// The number of highlights of each page that was read.
    pub pages: KeyMap<usize, usize>,
    pub in_flight: Option<HighlightIndexRequest>,
    /// A page that was edited and has to be read again.
    pub refresh_page: Option<usize>,
    pub started: bool,
    pub error: Option<String>,
}

/// What a `HighlightIndexState` stands for in specifications.
#[verifier::ext_equal]
pub struct HighlightIndexView {
    pub generation: u64,
    pub revision: Option<u64>,
    pub total_pages: usize,
    pub pages: Map<usize, usize>,
    pub in_flight: Option<HighlightIndexRequest>,
    pub refresh_page: Option<usize>,
    pub started: bool,
    pub error: Option<Seq<char>>,
}

/// What an optional message says.
pub open spec fn message_view(message: Option<String>) -> Option<Seq<char>> {
    match message {
        None => None,
        Some(text) => Some(text@),
    }
}

impl View for HighlightIndexState {
    type V = HighlightIndexView;

    open spec fn view(&self) -> HighlightIndexView {
        HighlightIndexView {
            generation: self.generation,
            revision: self.revision,
            total_pages: self.total_pages,
            pages: self.pages@,
            in_flight: self.in_flight,
            refresh_page: self.refresh_page,
            started: self.started,
            error: message_view(self.error),
        }
    }
}

/// The map with the pages of a batch.
pub open spec fn with_batch_pages(
    pages: Map<usize, usize>,
    batch: Seq<HighlightIndexPage>,
    count: int,
) -> Map<usize, usize>
    decreases count,
{
    if count <= 0 {
        pages
    } else {
        with_batch_pages(pages, batch, count - 1).insert(
            batch[count - 1].page_index,
            batch[count - 1].highlight_count,
        )
    }
}

/// Whether a batch holds a page.
pub open spec fn batch_has(batch: Seq<HighlightIndexPage>, page: usize) -> bool {
    exists|i: int| 0 <= i < batch.len() && (#[trigger] batch[i]).page_index == page
}

/// The request that a batch answers.
pub open spec fn answered_request(
    generation: u64,
    revision: u64,
    total_pages: usize,
    pages: Seq<HighlightIndexPage>,
) -> HighlightIndexRequest {
    HighlightIndexRequest {
        generation,
        expected_revision: revision,
        first_page: if pages.len() > 0 {
            pages[0].page_index
        } else {
            total_pages
        },
        page_count: pages.len() as usize,
    }
}

impl HighlightIndexView {
    /// The index of a document whose highlights were never asked for.
    pub open spec fn fresh() -> HighlightIndexView {
        HighlightIndexView {
            generation: 1,
            revision: None,
            total_pages: 0,
            pages: Map::empty(),
            in_flight: None,
            refresh_page: None,
            started: false,
            error: None,
        }
    }

    /// Whether another request may be made.
    pub open spec fn ready(self) -> bool {
        self.started && self.in_flight is None && self.error is None && self.revision is Some
    }

    /// Whether `first` and `count` are the first run of missing pages, cut to a batch.
    pub open spec fn missing_run(self, first: int, count: int) -> bool {
        &&& 0 <= first < self.total_pages
        &&& forall|page: usize|
            page < first ==> #[trigger] self.pages.dom().contains(page)
        &&& 1 <= count <= HIGHLIGHT_INDEX_BATCH_PAGES
        &&& first + count <= self.total_pages
        &&& forall|page: usize|
            first <= page < first + count ==> !#[trigger] self.pages.dom().contains(page)
        &&& count == HIGHLIGHT_INDEX_BATCH_PAGES || first + count == self.total_pages
            || self.pages.dom().contains((first + count) as usize)
    }

    /// Whether every page of the document was read.
    pub open spec fn complete(self) -> bool {
        forall|page: usize|
            page < self.total_pages ==> #[trigger] self.pages.dom().contains(page)
    }

    /// Whether a batch answers the request that is under way.
    pub open spec fn answers(
        self,
        generation: u64,
        revision: u64,
        total_pages: usize,
        pages: Seq<HighlightIndexPage>,
    ) -> bool {
        &&& self.in_flight == Some(answered_request(generation, revision, total_pages, pages))
        &&& self.generation == generation
        &&& self.revision == Some(revision)
        &&& self.total_pages == total_pages
    }

    /// The index with the pages of a batch.
    pub open spec fn with_batch(self, pages: Seq<HighlightIndexPage>) -> HighlightIndexView {
        HighlightIndexView {
            in_flight: None,
            refresh_page: if self.refresh_page is Some && batch_has(pages, self.refresh_page->0) {
                None
            } else {
                self.refresh_page
            },
            pages: with_batch_pages(self.pages, pages, pages.len() as int),
            ..self
        }
    }

    /// The index of a document that changed as a whole.
    pub open spec fn reset(self, revision: u64, total_pages: usize) -> HighlightIndexView {
        if !self.started {
            self
        } else {
            HighlightIndexView {
                generation: self.generation.wrapping_add(1),
                revision: Some(revision),
                total_pages,
                pages: Map::empty(),
                in_flight: None,
                refresh_page: None,
                error: None,
                ..self
            }
        }
    }

    /// The index of a document of which one page changed.
    pub open spec fn refreshed(
        self,
        page_index: usize,
        revision: u64,
        total_pages: usize,
    ) -> HighlightIndexView {
        if !self.started {
            self
        } else {
            HighlightIndexView {
                generation: self.generation.wrapping_add(1),
                revision: Some(revision),
                total_pages,
                pages: self.pages.restrict(
                    Set::new(|page: usize| page < total_pages && page != page_index),
                ),
                in_flight: None,
                refresh_page: if page_index < total_pages {
                    Some(page_index)
                } else {
                    None
                },
                error: None,
                ..self
            }
        }
    }

    /// The index after the work under way was given up.
    pub open spec fn cancelled(self) -> HighlightIndexView {
        if !self.started {
            self
        } else {
            HighlightIndexView {
                generation: self.generation.wrapping_add(1),
                in_flight: None,
                ..self
            }
        }
    }

    /// The index after the request under way came to nothing.
    pub open spec fn gave_up(self, request: HighlightIndexRequest, message: Seq<char>) ->
        HighlightIndexView {
        if self.in_flight == Some(request) && self.generation == request.generation {
            HighlightIndexView { in_flight: None, error: Some(message), ..self }
        } else {
            self
        }
    }
}

impl Default for HighlightIndexState {
    fn default() -> (res: Self)
        ensures
            res@ == HighlightIndexView::fresh(),
    {
        HighlightIndexState {
            generation: 1,
            revision: None,
            total_pages: 0,
            pages: KeyMap::new(),
            in_flight: None,
            refresh_page: None,
            started: false,
            error: None,
        }
    }
}

/// The next request, if another one may be made: the edited page, or the first run of
/// pages that were not read yet.
pub fn next_highlight_index_request(index: &HighlightIndexState) -> (res: Option<
    HighlightIndexRequest,
>)
    ensures
        match res {
            None => !index@.ready() || index@.refresh_page is None && index@.complete(),
            Some(request) => {
                &&& index@.ready()
                &&& request.generation == index@.generation
                &&& Some(request.expected_revision) == index@.revision
                &&& match index@.refresh_page {
                    Some(page) => request.first_page == page && request.page_count == 1,
                    None => index@.missing_run(
                        request.first_page as int,
                        request.page_count as int,
                    ),
                }
            },
        },
        (res is Some) == (index@.started && index@.in_flight is None && index@.error is None
            && index@.revision is Some && (index@.refresh_page is Some || exists|page: usize|
            page < index@.total_pages && !#[trigger] index@.pages.dom().contains(page))),
        res is Some && index@.refresh_page is None ==> 1 <= res->0.page_count <= 8
            && res->0.first_page + res->0.page_count <= index@.total_pages
            && !index@.pages.dom().contains(res->0.first_page),
{
    if !index.started || index.in_flight.is_some() || index.error.is_some() {
        return None;
    }
    let revision: u64 = match index.revision {
        None => {
            return None;
        },
        Some(revision) => revision,
    };
    if let Some(page_index) = index.refresh_page {
        return Some(
            HighlightIndexRequest {
                generation: index.generation,
                expected_revision: revision,
                first_page: page_index,
                page_count: 1,
            },
        );
    }
    let mut first_page: usize = 0;
    while first_page < index.total_pages && index.pages.contains_key(first_page)
        invariant
            first_page <= index.total_pages,
            forall|page: usize|
                page < first_page ==> #[trigger] index@.pages.dom().contains(page),
        decreases index.total_pages - first_page,
    {
        first_page += 1;
    }
    if first_page == index.total_pages {
        return None;
    }
    assert(!index@.pages.dom().contains(first_page));
    let mut page_count: usize = 1;
    while page_count < HIGHLIGHT_INDEX_BATCH_PAGES && page_count < index.total_pages - first_page
        && !index.pages.contains_key(first_page + page_count)
        invariant
            1 <= page_count <= HIGHLIGHT_INDEX_BATCH_PAGES,
            first_page < index.total_pages,
            first_page + page_count <= index.total_pages,
            forall|page: usize|
                first_page <= page < first_page + page_count
                    ==> !#[trigger] index@.pages.dom().contains(page),
        decreases HIGHLIGHT_INDEX_BATCH_PAGES - page_count,
    {
        page_count += 1;
    }
    Some(
        HighlightIndexRequest {
            generation: index.generation,
            expected_revision: revision,
            first_page,
            page_count,
        },
    )
}

/// Takes a batch that answers exactly the request under way; any other changes nothing.
pub fn apply_highlight_index_batch(
    index: &mut HighlightIndexState,
    batch: &HighlightIndexBatch,
) -> (res: bool)
    ensures
        res == old(index)@.answers(
            batch.generation,
            batch.revision,
            batch.total_pages,
            batch.pages@,
        ),
        final(index)@ == (if res {
            old(index)@.with_batch(batch.pages@)
        } else {
            old(index)@
        }),
{
    let request = HighlightIndexRequest {
        generation: batch.generation,
        expected_revision: batch.revision,
        first_page: if batch.pages.len() > 0 {
            batch.pages[0].page_index
        } else {
            batch.total_pages
        },
        page_count: batch.pages.len(),
    };
    let awaited = match index.in_flight {
        None => false,
        Some(in_flight) => in_flight == request,
    };
    let same_revision = match index.revision {
        None => false,
        Some(revision) => revision == batch.revision,
    };
    if !awaited || index.generation != batch.generation || !same_revision || index.total_pages
        != batch.total_pages {
        return false;
    }
    let ghost before = index@;
    index.in_flight = None;
    let mut i: usize = 0;
    while i < batch.pages.len()
        invariant
            i <= batch.pages.len(),
            index@ == (HighlightIndexView {
                in_flight: None,
                refresh_page: if before.refresh_page is Some && batch_has(
                    batch.pages@.take(i as int),
                    before.refresh_page->0,
                ) {
                    None
                } else {
                    before.refresh_page
                },
                pages: with_batch_pages(before.pages, batch.pages@, i as int),
                ..before
            }),
        decreases batch.pages.len() - i,
    {
        let page = batch.pages[i];
        let ghost shorter = batch.pages@.take(i as int);
        let ghost longer = batch.pages@.take(i + 1);
        proof {
            assert(longer =~= shorter.push(page));
            assert forall|p: usize| batch_has(longer, p) == (batch_has(shorter, p)
                || page.page_index == p) by {
                if batch_has(shorter, p) {
                    let k = choose|k: int|
                        0 <= k < shorter.len() && (#[trigger] shorter[k]).page_index == p;
                    assert(longer[k].page_index == p);
                }
                if batch_has(longer, p) {
                    let k = choose|k: int|
                        0 <= k < longer.len() && (#[trigger] longer[k]).page_index == p;
                    if k < i {
                        assert(shorter[k].page_index == p);
                    }
                }
                assert(longer[i as int].page_index == page.page_index);
            }
        }
        if let Some(refresh_page) = index.refresh_page {
            if refresh_page == page.page_index {
                index.refresh_page = None;
            }
        }
        index.pages.insert(page.page_index, page.highlight_count);
        i += 1;
    }
    assert(batch.pages@.take(i as int) =~= batch.pages@);
    true
}

/// What showing the index for the first time leads to.
#[derive(Clone, Copy, Debug, PartialEq, Eq, Structural)]
pub enum HighlightStart {
    /// The document is not open yet.
    NotOpen,
    /// The generation has to be announced to the worker.
    Announce(u64),
    /// The index was started before.
    Running,
}

impl HighlightIndexState {
    /// Starts the index when it is shown for the first time.
    pub fn start_highlight_index(&mut self, revision: Option<u64>, page_count: usize) -> (res:
        HighlightStart)
        ensures
            match res {
                HighlightStart::Running => old(self)@.started && final(self)@ == old(self)@,
                HighlightStart::NotOpen => !old(self)@.started && revision is None && final(self)@
                    == old(self)@,
                HighlightStart::Announce(generation) => !old(self)@.started && revision is Some
                    && generation == old(self)@.generation && final(self)@ == (HighlightIndexView {
                    started: true,
                    revision,
                    total_pages: page_count,
                    ..old(self)@
                }),
            },
    {
        if self.started {
            return HighlightStart::Running;
        }
        if revision.is_none() {
            return HighlightStart::NotOpen;
        }
        self.started = true;
        self.revision = revision;
        self.total_pages = page_count;
        HighlightStart::Announce(self.generation)
    }

    /// Notes that the worker did not take the first announcement.
    pub fn start_refused(&mut self)
        ensures
            final(self)@ == (HighlightIndexView {
                error: Some("ハイライト一覧の読み込みを開始できませんでした。"@),
                ..old(self)@
            }),
    {
        self.error = Some("ハイライト一覧の読み込みを開始できませんでした。".to_owned());
    }

    /// Drops everything that was read. Returns the generation to announce, if the index
    /// was started.
    pub fn reset_highlight_index(&mut self, revision: u64, total_pages: usize) -> (res: Option<u64>)
        ensures
            final(self)@ == old(self)@.reset(revision, total_pages),
            res == (if old(self)@.started {
                Some(final(self)@.generation)
            } else {
                None
            }),
    {
        if !self.started {
            return None;
        }
        self.generation = self.generation.wrapping_add(1);
        self.revision = Some(revision);
        self.total_pages = total_pages;
        self.pages.clear();
        self.in_flight = None;
        self.refresh_page = None;
        self.error = None;
        Some(self.generation)
    }

    /// Drops one page, and keeps the others that the document still has. Returns the
    /// generation to announce, if the index was started.
    pub fn refresh_highlight_index_page(
        &mut self,
        page_index: usize,
        revision: u64,
        total_pages: usize,
    ) -> (res: Option<u64>)
        ensures
            final(self)@ == old(self)@.refreshed(page_index, revision, total_pages),
            res == (if old(self)@.started {
                Some(final(self)@.generation)
            } else {
                None
            }),
    {
        if !self.started {
            return None;
        }
        let ghost before = self@;
        self.generation = self.generation.wrapping_add(1);
        self.revision = Some(revision);
        self.total_pages = total_pages;
        let pages = self.pages.keys();
        let ghost original = self.pages@;
        let mut i: usize = 0;
        while i < pages.len()
            invariant
                i <= pages.len(),
                pages@.no_duplicates(),
                pages@.to_set() == original.dom(),
                original == before.pages,
                self@ == (HighlightIndexView {
                    generation: before.generation.wrapping_add(1),
                    revision: Some(revision),
                    total_pages,
                    pages: self.pages@,
                    ..before
                }),
                forall|page: usize| #[trigger]
                    self.pages@.dom().contains(page) <==> original.dom().contains(page) && (page
                        < total_pages && page != page_index || !pages@.take(i as int).contains(
                        page,
                    )),
                forall|page: usize|
                    self.pages@.dom().contains(page) ==> #[trigger] self.pages@[page]
                        == original[page],
            decreases pages.len() - i,
        {
            let page = pages[i];
            let ghost earlier = self.pages@;
            let ghost shorter = pages@.take(i as int);
            let ghost longer = pages@.take(i + 1);
            proof {
                assert(longer =~= shorter.push(page));
                assert forall|p: usize| longer.contains(p) == (shorter.contains(p) || p == page) by {
                    if shorter.contains(p) {
                        let k = choose|k: int| 0 <= k < shorter.len() && shorter[k] == p;
                        assert(longer[k] == p);
                    }
                    if longer.contains(p) {
                        let k = choose|k: int| 0 <= k < longer.len() && longer[k] == p;
                        if k < i {
                            assert(shorter[k] == p);
                        }
                    }
                    assert(longer[i as int] == page);
                }
            }
            if page >= total_pages || page == page_index {
                let _dropped = self.pages.remove(page);
            }
            i += 1;
        }
        proof {
            assert(pages@.take(i as int) =~= pages@);
            assert forall|page: usize| #[trigger]
                self.pages@.dom().contains(page) <==> original.dom().contains(page) && page
                    < total_pages && page != page_index by {
                assert(pages@.to_set().contains(page) == pages@.contains(page));
            }
            assert(self.pages@ =~= original.restrict(
                Set::new(|page: usize| page < total_pages && page != page_index),
            ));
        }
        self.in_flight = None;
        self.refresh_page = if page_index < total_pages {
            Some(page_index)
        } else {
            None
        };
        self.error = None;
        assert(self@ =~= before.refreshed(page_index, revision, total_pages));
        Some(self.generation)
    }

    /// Gives up the work under way. Returns the generation to announce, if the index was
    /// started.
    pub fn cancel_highlight_index_work(&mut self) -> (res: Option<u64>)
        ensures
            final(self)@ == old(self)@.cancelled(),
            res == (if old(self)@.started {
                Some(final(self)@.generation)
            } else {
                None
            }),
    {
        if !self.started {
            return None;
        }
        self.generation = self.generation.wrapping_add(1);
        self.in_flight = None;
        Some(self.generation)
    }

    /// The generation to announce to a new worker.
    pub fn reconnect_generation(&self) -> (res: Option<u64>)
        ensures
            res == (if self@.started {
                Some(self@.generation)
            } else {
                None
            }),
    {
        if self.started {
            Some(self.generation)
        } else {
            None
        }
    }

    /// Notes whether a new worker took the announcement. If it did, reading goes on.
    pub fn reconnected(&mut self, accepted: bool)
        ensures
            final(self)@ == (HighlightIndexView {
                error: if accepted {
                    None
                } else {
                    Some("ハイライト一覧の読み込みを再開できませんでした。"@)
                },
                ..old(self)@
            }),
    {
        if accepted {
            self.error = None;
        } else {
            self.error = Some("ハイライト一覧の読み込みを再開できませんでした。".to_owned());
        }
    }

    /// Notes whether the worker took a request.
    pub fn request_sent(&mut self, request: HighlightIndexRequest, accepted: bool)
        ensures
            final(self)@ == (if accepted {
                HighlightIndexView { in_flight: Some(request), ..old(self)@ }
            } else {
                HighlightIndexView {
                    error: Some("ハイライト一覧を読み込めませんでした。"@),
                    ..old(self)@
                }
            }),
    {
        if accepted {
            self.in_flight = Some(request);
        } else {
            self.error = Some("ハイライト一覧を読み込めませんでした。".to_owned());
        }
    }

    fn awaits(&self, request: HighlightIndexRequest) -> (res: bool)
        ensures
            res == (self@.in_flight == Some(request) && self@.generation == request.generation),
    {
        match self.in_flight {
            None => false,
            Some(in_flight) => in_flight == request && self.generation == request.generation,
        }
    }

    /// Notes that the worker passed over a request because the document had changed.
    pub fn request_skipped(&mut self, request: HighlightIndexRequest)
        ensures
            final(self)@ == old(self)@.gave_up(
                request,
                "文書が更新されたため、ハイライト一覧の読み込みを中止しました。"@,
            ),
    {
        if self.awaits(request) {
            self.in_flight = None;
            self.error = Some(
                "文書が更新されたため、ハイライト一覧の読み込みを中止しました。".to_owned(),
            );
        }
    }

    /// Notes that a request failed.
    pub fn request_failed(&mut self, request: HighlightIndexRequest, message: &str)
        ensures
            final(self)@ == old(self)@.gave_up(
                request,
                "ハイライト一覧を読み込めませんでした。詳細: "@ + message@,
            ),
    {
        if self.awaits(request) {
            self.in_flight = None;
            self.error = Some(
                with_text("ハイライト一覧を読み込めませんでした。詳細: ", message),
            );
        }
    }
}

/// The pages of a batch are known after it, and no page that was known before is lost.
pub proof fn batch_pages_are_known(
    pages: Map<usize, usize>,
    batch: Seq<HighlightIndexPage>,
    count: int,
    page: usize,
)
    requires
        0 <= count <= batch.len(),
    ensures
        with_batch_pages(pages, batch, count).dom().contains(page) == (pages.dom().contains(page)
            || batch_has(batch.take(count), page)),
    decreases count,
{
    if count > 0 {
        batch_pages_are_known(pages, batch, count - 1, page);
        let shorter = batch.take(count - 1);
        let longer = batch.take(count);
        if batch_has(shorter, page) {
            let k = choose|k: int| 0 <= k < shorter.len() && (#[trigger] shorter[k]).page_index == page;
            assert(longer[k].page_index == page);
        }
        if batch_has(longer, page) {
            let k = choose|k: int| 0 <= k < longer.len() && (#[trigger] longer[k]).page_index == page;
            if k < count - 1 {
                assert(shorter[k].page_index == page);
            }
        }
        assert(longer[count - 1] == batch[count - 1]);
        if batch[count - 1].page_index == page {
            assert(longer[count - 1].page_index == page);
        }
    }
}

/// Every answered request brings the index closer to completeness: the pages it asked for
/// are known, those that were known stay known.
pub proof fn answered_requests_make_progress(
    index: HighlightIndexView,
    request: HighlightIndexRequest,
    batch: Seq<HighlightIndexPage>,
    page: usize,
)
    requires
        batch.len() == request.page_count,
        request.first_page + request.page_count <= usize::MAX,
        forall|i: int|
            0 <= i < batch.len() ==> (#[trigger] batch[i]).page_index == request.first_page + i,
    ensures
        index.with_batch(batch).pages.dom().contains(page) == (index.pages.dom().contains(page)
            || request.first_page <= page < request.first_page + request.page_count),
{
    batch_pages_are_known(index.pages, batch, batch.len() as int, page);
    assert(batch.take(batch.len() as int) =~= batch);
    if request.first_page <= page < request.first_page + request.page_count {
        assert(batch[page - request.first_page].page_index == page);
    }
}

/// A batch of an earlier generation or revision is never taken.
pub proof fn stale_batches_are_refused(
    index: HighlightIndexView,
    generation: u64,
    revision: u64,
    total_pages: usize,
    pages: Seq<HighlightIndexPage>,
)
    requires
        index.generation != generation || index.revision != Some(revision),
    ensures
        !index.answers(generation, revision, total_pages, pages),
{
}

/// A changed page is forgotten and asked for first; the other pages of the document stay known with
/// what was counted on them, and what was under way is called off.
pub proof fn a_changed_page_is_read_again(
    index: HighlightIndexView,
    changed: usize,
    revision: u64,
    total_pages: usize,
    page: usize,
)
    requires
        index.started,
    ensures
        ({
            let after = index.refreshed(changed, revision, total_pages);
            &&& after.started
            &&& after.generation != index.generation
            &&& after.revision == Some(revision)
            &&& after.total_pages == total_pages
            &&& after.in_flight is None
            &&& after.error is None
            &&& after.refresh_page == (if changed < total_pages {
                Some(changed)
            } else {
                None
            })
            &&& after.pages.dom().contains(page) == (index.pages.dom().contains(page) && page
                < total_pages && page != changed)
            &&& after.pages.dom().contains(page) ==> after.pages[page] == index.pages[page]
        }),
{
}

/// Beginning anew forgets every page and what went wrong, and calls off what was under way.
pub proof fn beginning_anew_forgets_all_pages(
    index: HighlightIndexView,
    revision: u64,
    total_pages: usize,
    page: usize,
)
    requires
        index.started,
    ensures
        ({
            let after = index.reset(revision, total_pages);
            &&& after.started
            &&& after.generation != index.generation
            &&& after.revision == Some(revision)
            &&& after.total_pages == total_pages
            &&& !after.pages.dom().contains(page)
            &&& after.in_flight is None
            &&& after.refresh_page is None
            &&& after.error is None
        }),
{
}

/// Calling off what is under way keeps every page that is known.
pub proof fn calling_off_keeps_known_pages(index: HighlightIndexView)
    requires
        index.started,
    ensures
        index.cancelled().generation != index.generation,
        index.cancelled().in_flight is None,
        index.cancelled().pages == index.pages,
        index.cancelled().revision == index.revision,
        index.cancelled().total_pages == index.total_pages,
        index.cancelled().refresh_page == index.refresh_page,
        index.cancelled().error == index.error,
        index.cancelled().started,
{
}

/// An index that was not begun changes in no way.
pub proof fn an_index_not_begun_stays(
    index: HighlightIndexView,
    page: usize,
    revision: u64,
    total_pages: usize,
)
    requires
        !index.started,
    ensures
        index.reset(revision, total_pages) == index,
        index.refreshed(page, revision, total_pages) == index,
        index.cancelled() == index,
{
}

/// A request that fails is not waited for any more and leaves its message; one that was called off
/// already changes nothing. No page that is known is lost.
pub proof fn only_the_awaited_request_can_fail(
    index: HighlightIndexView,
    request: HighlightIndexRequest,
    message: Seq<char>,
)
    ensures
        index.in_flight == Some(request) && index.generation == request.generation
            ==> index.gave_up(request, message).in_flight is None && index.gave_up(
            request,
            message,
        ).error == Some(message),
        index.in_flight != Some(request) || index.generation != request.generation
            ==> index.gave_up(request, message) == index,
        index.gave_up(request, message).pages == index.pages,
        index.gave_up(request, message).generation == index.generation,
{
}

/// The pages of a batch are known with what was counted on them; other pages keep their counts.
pub proof fn batches_bring_their_counts(
    pages: Map<usize, usize>,
    batch: Seq<HighlightIndexPage>,
    count: int,
    at: int,
    page: usize,
)
    requires
        0 <= count <= batch.len(),
        forall|i: int, j: int|
            0 <= i < j < batch.len() ==> (#[trigger] batch[i]).page_index != (
            #[trigger] batch[j]).page_index,
    ensures
        0 <= at < count ==> with_batch_pages(pages, batch, count).dom().contains(
            batch[at].page_index,
        ) && with_batch_pages(pages, batch, count)[batch[at].page_index]
            == batch[at].highlight_count,
        (forall|i: int| 0 <= i < count ==> (#[trigger] batch[i]).page_index != page)
            && pages.dom().contains(page) ==> with_batch_pages(pages, batch, count).dom().contains(
            page,
        ) && with_batch_pages(pages, batch, count)[page] == pages[page],
    decreases count,
{
    if count > 0 {
        batches_bring_their_counts(pages, batch, count - 1, at, page);
        if 0 <= at < count - 1 {
            assert(batch[at].page_index != batch[count - 1].page_index);
        }
        if forall|i: int| 0 <= i < count ==> (#[trigger] batch[i]).page_index != page {
            assert(batch[count - 1].page_index != page);
        }
    }
}

/// A batch is taken exactly if it answers the request under way: as many pages, from the same page
/// on, of the same generation and revision of a document of the same length. Then nothing is under
/// way any more.
pub proof fn batches_answer_the_request_under_way(
    index: HighlightIndexView,
    generation: u64,
    revision: u64,
    total_pages: usize,
    pages: Seq<HighlightIndexPage>,
)
    requires
        0 < pages.len() <= usize::MAX,
    ensures
        index.answers(generation, revision, total_pages, pages) == (index.in_flight is Some
            && index.in_flight->0.first_page == pages[0].page_index
            && index.in_flight->0.page_count == pages.len() && index.in_flight->0.generation
            == generation && index.in_flight->0.expected_revision == revision && index.generation
            == generation && index.revision == Some(revision) && index.total_pages == total_pages),
        index.with_batch(pages).in_flight is None,
        index.refresh_page is Some && (exists|i: int|
            0 <= i < pages.len() && (#[trigger] pages[i]).page_index == index.refresh_page->0)
            ==> index.with_batch(pages).refresh_page is None,
        index.refresh_page is Some && (forall|i: int|
            0 <= i < pages.len() ==> (#[trigger] pages[i]).page_index != index.refresh_page->0)
            ==> index.with_batch(pages).refresh_page == index.refresh_page,
        index.with_batch(pages).generation == index.generation,
        index.with_batch(pages).revision == index.revision,
        index.with_batch(pages).total_pages == index.total_pages,
        index.with_batch(pages).started == index.started,
        index.with_batch(pages).error == index.error,
{
}

/// A batch asks for at most eight pages, all of them unknown, from the first unknown page on.
pub proof fn runs_start_at_the_first_unknown_page(index: HighlightIndexView, first: int, count: int)
    requires
        index.missing_run(first, count),
    ensures
        1 <= count <= 8,
        0 <= first,
        first + count <= index.total_pages,
        forall|page: usize| page < first ==> index.pages.dom().contains(page),
        forall|page: usize|
            first <= page < first + count ==> !index.pages.dom().contains(page),
        count < 8 && first + count < index.total_pages ==> index.pages.dom().contains(
            (first + count) as usize,
        ),
{
}

} // verus!
