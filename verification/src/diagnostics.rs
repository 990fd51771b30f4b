//! What the diagnostics log says of the memory in use.
use crate::sampling::{
    has_grown, phase_name, phase_text, DiagnosticsPhase, SamplingState, SAMPLE_INTERVAL_NANOS,
    WARMUP_NANOS,
};
use crate::text::{
    decimal, decimal_text, digit_char, digit_text, join, joined, string_views, with_text,
};
use vstd::prelude::*;

verus! {

/// How full a cache is.
#[derive(Clone, Copy, Debug, PartialEq, Eq, Structural, Default)]
pub struct LruSnapshot {
    pub count: usize,
    pub current_weight_bytes: usize,
    pub budget_bytes: usize,
}

/// A sum that stays at the largest number once it has reached it.
pub open spec fn capped_sum(a: usize, b: usize) -> usize {
    if a + b <= usize::MAX {
        (a + b) as usize
    } else {
        usize::MAX
    }
}

/// What the containers of a document hold.
#[derive(Clone, Copy, Debug, PartialEq, Eq, Structural)]
pub struct ContainerCounts {
    pub tiles: usize,
    pub pending_tiles: usize,
    pub wanted_tiles: usize,
    pub visible_tiles: usize,
    pub thumbnails: usize,
    pub pending_thumbnails: usize,
    pub text_snapshots: usize,
    pub pending_text_snapshots: usize,
    pub annotation_pages: usize,
    pub pending_annotation_pages: usize,
    pub highlight_index_pages: usize,
    pub highlight_index_items: usize,
    pub search_pages: usize,
    pub search_matches: usize,
}

impl Default for ContainerCounts {
    fn default() -> (res: Self)
        ensures
            res == ContainerCounts::nothing(),
    {
        ContainerCounts {
            tiles: 0,
            pending_tiles: 0,
            wanted_tiles: 0,
            visible_tiles: 0,
            thumbnails: 0,
            pending_thumbnails: 0,
            text_snapshots: 0,
            pending_text_snapshots: 0,
            annotation_pages: 0,
            pending_annotation_pages: 0,
            highlight_index_pages: 0,
            highlight_index_items: 0,
            search_pages: 0,
            search_matches: 0,
        }
    }
}

impl ContainerCounts {
    /// Nothing is held.
    pub open spec fn nothing() -> Self {
        ContainerCounts {
            tiles: 0,
            pending_tiles: 0,
            wanted_tiles: 0,
            visible_tiles: 0,
            thumbnails: 0,
            pending_thumbnails: 0,
            text_snapshots: 0,
            pending_text_snapshots: 0,
            annotation_pages: 0,
            pending_annotation_pages: 0,
            highlight_index_pages: 0,
            highlight_index_items: 0,
            search_pages: 0,
            search_matches: 0,
        }
    }

    /// The sums of the counts.
    pub open spec fn plus(self, other: Self) -> Self {
        ContainerCounts {
            tiles: capped_sum(self.tiles, other.tiles),
            pending_tiles: capped_sum(self.pending_tiles, other.pending_tiles),
            wanted_tiles: capped_sum(self.wanted_tiles, other.wanted_tiles),
            visible_tiles: capped_sum(self.visible_tiles, other.visible_tiles),
            thumbnails: capped_sum(self.thumbnails, other.thumbnails),
            pending_thumbnails: capped_sum(self.pending_thumbnails, other.pending_thumbnails),
            text_snapshots: capped_sum(self.text_snapshots, other.text_snapshots),
            pending_text_snapshots: capped_sum(self.pending_text_snapshots, other.pending_text_snapshots),
            annotation_pages: capped_sum(self.annotation_pages, other.annotation_pages),
            pending_annotation_pages: capped_sum(self.pending_annotation_pages, other.pending_annotation_pages),
            highlight_index_pages: capped_sum(self.highlight_index_pages, other.highlight_index_pages),
            highlight_index_items: capped_sum(self.highlight_index_items, other.highlight_index_items),
            search_pages: capped_sum(self.search_pages, other.search_pages),
            search_matches: capped_sum(self.search_matches, other.search_matches),
        }
    }

    /// The counts, as they stand in a row.
    pub open spec fn texts(self) -> Seq<Seq<char>> {
        seq![
            decimal(self.tiles as nat),
            decimal(self.pending_tiles as nat),
            decimal(self.wanted_tiles as nat),
            decimal(self.visible_tiles as nat),
            decimal(self.thumbnails as nat),
            decimal(self.pending_thumbnails as nat),
            decimal(self.text_snapshots as nat),
            decimal(self.pending_text_snapshots as nat),
            decimal(self.annotation_pages as nat),
            decimal(self.pending_annotation_pages as nat),
            decimal(self.highlight_index_pages as nat),
            decimal(self.highlight_index_items as nat),
            decimal(self.search_pages as nat),
            decimal(self.search_matches as nat),
        ]
    }

    /// Adds the counts of another.
    pub fn add_assign(&mut self, other: Self)
        ensures
            *final(self) == old(self).plus(other),
    {
        self.tiles = self.tiles.saturating_add(other.tiles);
        self.pending_tiles = self.pending_tiles.saturating_add(other.pending_tiles);
        self.wanted_tiles = self.wanted_tiles.saturating_add(other.wanted_tiles);
        self.visible_tiles = self.visible_tiles.saturating_add(other.visible_tiles);
        self.thumbnails = self.thumbnails.saturating_add(other.thumbnails);
        self.pending_thumbnails = self.pending_thumbnails.saturating_add(other.pending_thumbnails);
        self.text_snapshots = self.text_snapshots.saturating_add(other.text_snapshots);
        self.pending_text_snapshots = self.pending_text_snapshots.saturating_add(other.pending_text_snapshots);
        self.annotation_pages = self.annotation_pages.saturating_add(other.annotation_pages);
        self.pending_annotation_pages = self.pending_annotation_pages.saturating_add(other.pending_annotation_pages);
        self.highlight_index_pages = self.highlight_index_pages.saturating_add(other.highlight_index_pages);
        self.highlight_index_items = self.highlight_index_items.saturating_add(other.highlight_index_items);
        self.search_pages = self.search_pages.saturating_add(other.search_pages);
        self.search_matches = self.search_matches.saturating_add(other.search_matches);
    }
}

/// What waits in the queues of a worker.
#[derive(Clone, Copy, Debug, PartialEq, Eq, Structural)]
pub struct WorkerQueueSnapshot {
    pub foreground: usize,
    pub current_viewport: usize,
    pub next_viewport: usize,
    pub previous_viewport: usize,
    pub background: usize,
    pub event: usize,
    pub scheduled_tiles: usize,
    pub scheduled_text_snapshots: usize,
}

impl Default for WorkerQueueSnapshot {
    fn default() -> (res: Self)
        ensures
            res == WorkerQueueSnapshot::nothing(),
    {
        WorkerQueueSnapshot {
            foreground: 0,
            current_viewport: 0,
            next_viewport: 0,
            previous_viewport: 0,
            background: 0,
            event: 0,
            scheduled_tiles: 0,
            scheduled_text_snapshots: 0,
        }
    }
}

impl WorkerQueueSnapshot {
    /// Nothing is held.
    pub open spec fn nothing() -> Self {
        WorkerQueueSnapshot {
            foreground: 0,
            current_viewport: 0,
            next_viewport: 0,
            previous_viewport: 0,
            background: 0,
            event: 0,
            scheduled_tiles: 0,
            scheduled_text_snapshots: 0,
        }
    }

    /// The sums of the counts.
    pub open spec fn plus(self, other: Self) -> Self {
        WorkerQueueSnapshot {
            foreground: capped_sum(self.foreground, other.foreground),
            current_viewport: capped_sum(self.current_viewport, other.current_viewport),
            next_viewport: capped_sum(self.next_viewport, other.next_viewport),
            previous_viewport: capped_sum(self.previous_viewport, other.previous_viewport),
            background: capped_sum(self.background, other.background),
            event: capped_sum(self.event, other.event),
            scheduled_tiles: capped_sum(self.scheduled_tiles, other.scheduled_tiles),
            scheduled_text_snapshots: capped_sum(self.scheduled_text_snapshots, other.scheduled_text_snapshots),
        }
    }

    /// The counts, as they stand in a row.
    pub open spec fn texts(self) -> Seq<Seq<char>> {
        seq![
            decimal(self.foreground as nat),
            decimal(self.current_viewport as nat),
            decimal(self.next_viewport as nat),
            decimal(self.previous_viewport as nat),
            decimal(self.background as nat),
            decimal(self.event as nat),
            decimal(self.scheduled_tiles as nat),
            decimal(self.scheduled_text_snapshots as nat),
        ]
    }

    /// Adds the counts of another.
    pub fn add_assign(&mut self, other: Self)
        ensures
            *final(self) == old(self).plus(other),
    {
        self.foreground = self.foreground.saturating_add(other.foreground);
        self.current_viewport = self.current_viewport.saturating_add(other.current_viewport);
        self.next_viewport = self.next_viewport.saturating_add(other.next_viewport);
        self.previous_viewport = self.previous_viewport.saturating_add(other.previous_viewport);
        self.background = self.background.saturating_add(other.background);
        self.event = self.event.saturating_add(other.event);
        self.scheduled_tiles = self.scheduled_tiles.saturating_add(other.scheduled_tiles);
        self.scheduled_text_snapshots = self.scheduled_text_snapshots.saturating_add(other.scheduled_text_snapshots);
    }
}

/// A document, as the log sees it.
#[derive(Clone, Copy, Debug, PartialEq, Eq)]
pub struct DocumentDiagnosticsSnapshot {
    pub document_id: u64,
    pub state: &'static str,
    pub active: bool,
    pub visible: bool,
    pub containers: ContainerCounts,
    pub worker: WorkerQueueSnapshot,
}

/// The viewer, as the log sees it.
#[derive(Clone, Debug, PartialEq, Eq)]
pub struct DiagnosticsSnapshot {
    pub physical_mem_bytes: Option<usize>,
    pub gpu_tile_lru: LruSnapshot,
    pub thumbnail_lru: LruSnapshot,
    pub tab_count: usize,
    pub visible_tab_count: usize,
    pub active_document_id: Option<u64>,
    pub containers: ContainerCounts,
    pub worker: WorkerQueueSnapshot,
    pub documents: Vec<DocumentDiagnosticsSnapshot>,
}

/// What the containers of all documents hold together.
pub open spec fn all_containers(documents: Seq<DocumentDiagnosticsSnapshot>) -> ContainerCounts
    decreases documents.len(),
{
    if documents.len() == 0 {
        ContainerCounts::nothing()
    } else {
        all_containers(documents.drop_last()).plus(documents.last().containers)
    }
}

/// What waits in the queues of all workers together.
pub open spec fn all_queues(documents: Seq<DocumentDiagnosticsSnapshot>) -> WorkerQueueSnapshot
    decreases documents.len(),
{
    if documents.len() == 0 {
        WorkerQueueSnapshot::nothing()
    } else {
        all_queues(documents.drop_last()).plus(documents.last().worker)
    }
}

impl DiagnosticsSnapshot {
    /// Sums up the documents.
    pub fn from_documents(
        physical_mem_bytes: Option<usize>,
        gpu_tile_lru: LruSnapshot,
        thumbnail_lru: LruSnapshot,
        visible_tab_count: usize,
        active_document_id: Option<u64>,
        documents: Vec<DocumentDiagnosticsSnapshot>,
    ) -> (res: Self)
        ensures
            res.physical_mem_bytes == physical_mem_bytes,
            res.gpu_tile_lru == gpu_tile_lru,
            res.thumbnail_lru == thumbnail_lru,
            res.tab_count == documents@.len(),
            res.visible_tab_count == visible_tab_count,
            res.active_document_id == active_document_id,
            res.containers == all_containers(documents@),
            res.worker == all_queues(documents@),
            res.documents@ == documents@,
    {
        let mut containers = ContainerCounts::default();
        let mut worker = WorkerQueueSnapshot::default();
        let mut i: usize = 0;
        while i < documents.len()
            invariant
                i <= documents.len(),
                containers == all_containers(documents@.take(i as int)),
                worker == all_queues(documents@.take(i as int)),
            decreases documents.len() - i,
        {
            assert(documents@.take(i + 1).drop_last() =~= documents@.take(i as int));
            containers.add_assign(documents[i].containers);
            worker.add_assign(documents[i].worker);
            i += 1;
        }
        assert(documents@.take(i as int) =~= documents@);
        DiagnosticsSnapshot {
            physical_mem_bytes,
            gpu_tile_lru,
            thumbnail_lru,
            tab_count: documents.len(),
            visible_tab_count,
            active_document_id,
            containers,
            worker,
            documents,
        }
    }
}

/// The names of the columns.
pub open spec fn header_columns() -> Seq<Seq<char>> {
    seq![
        "row_kind"@,
        "phase"@,
        "event"@,
        "elapsed_s"@,
        "physical_mem_bytes"@,
        "gpu_tile_lru_count"@,
        "gpu_tile_lru_current_weight_bytes"@,
        "gpu_tile_lru_budget_bytes"@,
        "thumbnail_lru_count"@,
        "thumbnail_lru_current_weight_bytes"@,
        "thumbnail_lru_budget_bytes"@,
        "tab_count"@,
        "visible_tab_count"@,
        "active_document_id"@,
        "tiles"@,
        "pending_tiles"@,
        "wanted_tiles"@,
        "visible_tiles"@,
        "thumbnails"@,
        "pending_thumbnails"@,
        "text_snapshots"@,
        "pending_text_snapshots"@,
        "annotation_pages"@,
        "pending_annotation_pages"@,
        "highlight_index_pages"@,
        "highlight_index_items"@,
        "search_pages"@,
        "search_matches"@,
        "foreground_queue"@,
        "current_viewport_queue"@,
        "next_viewport_queue"@,
        "previous_viewport_queue"@,
        "background_queue"@,
        "event_queue"@,
        "scheduled_tiles"@,
        "scheduled_text_snapshots"@,
        "document_id"@,
        "document_state"@,
        "document_active"@,
        "document_visible"@,
        "document_tiles"@,
        "document_pending_tiles"@,
        "document_wanted_tiles"@,
        "document_visible_tiles"@,
        "document_thumbnails"@,
        "document_pending_thumbnails"@,
        "document_text_snapshots"@,
        "document_pending_text_snapshots"@,
        "document_annotation_pages"@,
        "document_pending_annotation_pages"@,
        "document_highlight_index_pages"@,
        "document_highlight_index_items"@,
        "document_search_pages"@,
        "document_search_matches"@,
        "document_foreground_queue"@,
        "document_current_viewport_queue"@,
        "document_next_viewport_queue"@,
        "document_previous_viewport_queue"@,
        "document_background_queue"@,
        "document_event_queue"@,
        "document_scheduled_tiles"@,
        "document_scheduled_text_snapshots"@,
    ]
}

/// How many columns a row has.
pub const COLUMN_COUNT: usize = 62;

/// The column of the memory in use, the first that is about the viewer.
pub const PHYSICAL_MEM_COLUMN: usize = 4;

/// The first column about what all documents hold.
pub const TILES_COLUMN: usize = 14;

/// The first column about what waits for all documents.
pub const FOREGROUND_QUEUE_COLUMN: usize = 28;

/// The column of the number of a document, the first that is about one document.
pub const DOCUMENT_ID_COLUMN: usize = 36;

/// The first column about what one document holds.
pub const DOCUMENT_TILES_COLUMN: usize = 40;

/// The first column about what waits for one document.
pub const DOCUMENT_FOREGROUND_QUEUE_COLUMN: usize = 54;

/// The first line of the log.
pub fn header_line() -> (res: String)
    ensures
        res@ == joined(header_columns(), "\t"@),
{
    let mut columns: Vec<String> = Vec::new();
    columns.push("row_kind".to_owned());
    columns.push("phase".to_owned());
    columns.push("event".to_owned());
    columns.push("elapsed_s".to_owned());
    columns.push("physical_mem_bytes".to_owned());
    columns.push("gpu_tile_lru_count".to_owned());
    columns.push("gpu_tile_lru_current_weight_bytes".to_owned());
    columns.push("gpu_tile_lru_budget_bytes".to_owned());
    columns.push("thumbnail_lru_count".to_owned());
    columns.push("thumbnail_lru_current_weight_bytes".to_owned());
    columns.push("thumbnail_lru_budget_bytes".to_owned());
    columns.push("tab_count".to_owned());
    columns.push("visible_tab_count".to_owned());
    columns.push("active_document_id".to_owned());
    columns.push("tiles".to_owned());
    columns.push("pending_tiles".to_owned());
    columns.push("wanted_tiles".to_owned());
    columns.push("visible_tiles".to_owned());
    columns.push("thumbnails".to_owned());
    columns.push("pending_thumbnails".to_owned());
    columns.push("text_snapshots".to_owned());
    columns.push("pending_text_snapshots".to_owned());
    columns.push("annotation_pages".to_owned());
    columns.push("pending_annotation_pages".to_owned());
    columns.push("highlight_index_pages".to_owned());
    columns.push("highlight_index_items".to_owned());
    columns.push("search_pages".to_owned());
    columns.push("search_matches".to_owned());
    columns.push("foreground_queue".to_owned());
    columns.push("current_viewport_queue".to_owned());
    columns.push("next_viewport_queue".to_owned());
    columns.push("previous_viewport_queue".to_owned());
    columns.push("background_queue".to_owned());
    columns.push("event_queue".to_owned());
    columns.push("scheduled_tiles".to_owned());
    columns.push("scheduled_text_snapshots".to_owned());
    columns.push("document_id".to_owned());
    columns.push("document_state".to_owned());
    columns.push("document_active".to_owned());
    columns.push("document_visible".to_owned());
    columns.push("document_tiles".to_owned());
    columns.push("document_pending_tiles".to_owned());
    columns.push("document_wanted_tiles".to_owned());
    columns.push("document_visible_tiles".to_owned());
    columns.push("document_thumbnails".to_owned());
    columns.push("document_pending_thumbnails".to_owned());
    columns.push("document_text_snapshots".to_owned());
    columns.push("document_pending_text_snapshots".to_owned());
    columns.push("document_annotation_pages".to_owned());
    columns.push("document_pending_annotation_pages".to_owned());
    columns.push("document_highlight_index_pages".to_owned());
    columns.push("document_highlight_index_items".to_owned());
    columns.push("document_search_pages".to_owned());
    columns.push("document_search_matches".to_owned());
    columns.push("document_foreground_queue".to_owned());
    columns.push("document_current_viewport_queue".to_owned());
    columns.push("document_next_viewport_queue".to_owned());
    columns.push("document_previous_viewport_queue".to_owned());
    columns.push("document_background_queue".to_owned());
    columns.push("document_event_queue".to_owned());
    columns.push("document_scheduled_tiles".to_owned());
    columns.push("document_scheduled_text_snapshots".to_owned());
    assert(string_views(columns@) =~= header_columns());
    join(&columns, "\t")
}

/// An optional number, as it stands in a row.
pub open spec fn optional_decimal(value: Option<u64>) -> Seq<char> {
    match value {
        Some(number) => decimal(number as nat),
        None => seq![],
    }
}

/// A truth value, as it stands in a row.
pub open spec fn bool_text(value: bool) -> Seq<char> {
    if value {
        "true"@
    } else {
        "false"@
    }
}

/// Columns that hold nothing.
pub open spec fn blank_columns(count: nat) -> Seq<Seq<char>> {
    Seq::new(count, |i: int| seq![])
}

/// Texts put into the columns from one on.
pub open spec fn placed(
    fields: Seq<Seq<char>>,
    offset: int,
    texts: Seq<Seq<char>>,
) -> Seq<Seq<char>> {
    Seq::new(
        fields.len(),
        |i: int|
            if offset <= i < offset + texts.len() {
                texts[i - offset]
            } else {
                fields[i]
            },
    )
}

fn set_field(fields: &mut Vec<String>, index: usize, text: String)
    requires
        index < old(fields)@.len(),
    ensures
        final(fields)@.len() == old(fields)@.len(),
        string_views(final(fields)@) == string_views(old(fields)@).update(index as int, text@),
{
    fields.set(index, text);
    assert(string_views(fields@) =~= string_views(old(fields)@).update(index as int, text@));
}

/// Puts a number into a column, where there is one.
pub fn set_display(fields: &mut Vec<String>, index: usize, value: Option<u64>)
    requires
        index < old(fields)@.len(),
    ensures
        final(fields)@.len() == old(fields)@.len(),
        string_views(final(fields)@) == match value {
            Some(number) => string_views(old(fields)@).update(
                index as int,
                decimal(number as nat),
            ),
            None => string_views(old(fields)@),
        },
{
    if let Some(number) = value {
        set_field(fields, index, decimal_text(number));
    }
}

/// Numbers put into the columns from one on. Where there is none, the column keeps what it holds.
pub open spec fn with_numbers(
    fields: Seq<Seq<char>>,
    offset: int,
    values: Seq<Option<u64>>,
) -> Seq<Seq<char>> {
    Seq::new(
        fields.len(),
        |i: int|
            if offset <= i < offset + values.len() && values[i - offset] is Some {
                decimal((values[i - offset]->0) as nat)
            } else {
                fields[i]
            },
    )
}

fn set_numbers(fields: &mut Vec<String>, offset: usize, values: &Vec<Option<u64>>)
    requires
        offset + values@.len() <= old(fields)@.len(),
    ensures
        final(fields)@.len() == old(fields)@.len(),
        string_views(final(fields)@) == with_numbers(
            string_views(old(fields)@),
            offset as int,
            values@,
        ),
{
    let ghost before = string_views(fields@);
    let count: usize = fields.len();
    let mut i: usize = 0;
    assert(before =~= with_numbers(before, offset as int, values@.take(0)));
    while i < values.len()
        invariant
            i <= values.len(),
            fields@.len() == count,
            before.len() == count,
            offset + values@.len() <= count,
            string_views(fields@) == with_numbers(before, offset as int, values@.take(i as int)),
        decreases values.len() - i,
    {
        set_display(fields, offset + i, values[i]);
        assert(string_views(fields@) =~= with_numbers(
            before,
            offset as int,
            values@.take(i + 1),
        ));
        i += 1;
    }
    assert(values@.take(i as int) =~= values@);
}

/// Puts what containers hold into the columns of all documents, or of one.
pub fn set_container_fields(fields: &mut Vec<String>, counts: &ContainerCounts, document: bool)
    requires
        old(fields)@.len() == COLUMN_COUNT,
    ensures
        final(fields)@.len() == old(fields)@.len(),
        string_views(final(fields)@) == placed(
            string_views(old(fields)@),
            if document {
                DOCUMENT_TILES_COLUMN as int
            } else {
                TILES_COLUMN as int
            },
            counts.texts(),
        ),
{
    let offset: usize = if document {
        DOCUMENT_TILES_COLUMN
    } else {
        TILES_COLUMN
    };
    let ghost before = string_views(fields@);
    let values: Vec<Option<u64>> = vec![
        Some(counts.tiles as u64),
        Some(counts.pending_tiles as u64),
        Some(counts.wanted_tiles as u64),
        Some(counts.visible_tiles as u64),
        Some(counts.thumbnails as u64),
        Some(counts.pending_thumbnails as u64),
        Some(counts.text_snapshots as u64),
        Some(counts.pending_text_snapshots as u64),
        Some(counts.annotation_pages as u64),
        Some(counts.pending_annotation_pages as u64),
        Some(counts.highlight_index_pages as u64),
        Some(counts.highlight_index_items as u64),
        Some(counts.search_pages as u64),
        Some(counts.search_matches as u64),
    ];
    set_numbers(fields, offset, &values);
    assert(string_views(fields@) =~= placed(before, offset as int, counts.texts()));
}

/// Puts what waits for workers into the columns of all documents, or of one.
pub fn set_worker_fields(fields: &mut Vec<String>, worker: WorkerQueueSnapshot, document: bool)
    requires
        old(fields)@.len() == COLUMN_COUNT,
    ensures
        final(fields)@.len() == old(fields)@.len(),
        string_views(final(fields)@) == placed(
            string_views(old(fields)@),
            if document {
                DOCUMENT_FOREGROUND_QUEUE_COLUMN as int
            } else {
                FOREGROUND_QUEUE_COLUMN as int
            },
            worker.texts(),
        ),
{
    let offset: usize = if document {
        DOCUMENT_FOREGROUND_QUEUE_COLUMN
    } else {
        FOREGROUND_QUEUE_COLUMN
    };
    let ghost before = string_views(fields@);
    let values: Vec<Option<u64>> = vec![
        Some(worker.foreground as u64),
        Some(worker.current_viewport as u64),
        Some(worker.next_viewport as u64),
        Some(worker.previous_viewport as u64),
        Some(worker.background as u64),
        Some(worker.event as u64),
        Some(worker.scheduled_tiles as u64),
        Some(worker.scheduled_text_snapshots as u64),
    ];
    set_numbers(fields, offset, &values);
    assert(string_views(fields@) =~= placed(before, offset as int, worker.texts()));
}

impl DiagnosticsSnapshot {
    /// The columns about the viewer.
    pub open spec fn viewer_texts(self) -> Seq<Seq<char>> {
        seq![
            match self.physical_mem_bytes {
                Some(bytes) => decimal(bytes as nat),
                None => seq![],
            },
            decimal(self.gpu_tile_lru.count as nat),
            decimal(self.gpu_tile_lru.current_weight_bytes as nat),
            decimal(self.gpu_tile_lru.budget_bytes as nat),
            decimal(self.thumbnail_lru.count as nat),
            decimal(self.thumbnail_lru.current_weight_bytes as nat),
            decimal(self.thumbnail_lru.budget_bytes as nat),
            decimal(self.tab_count as nat),
            decimal(self.visible_tab_count as nat),
            optional_decimal(self.active_document_id),
        ]
    }

    /// The columns about the viewer and all its documents.
    pub open spec fn texts(self) -> Seq<Seq<char>> {
        self.viewer_texts() + self.containers.texts() + self.worker.texts()
    }
}

impl DocumentDiagnosticsSnapshot {
    /// The columns about one document.
    pub open spec fn texts(self) -> Seq<Seq<char>> {
        seq![
            decimal(self.document_id as nat),
            self.state@,
            bool_text(self.active),
            bool_text(self.visible),
        ] + self.containers.texts() + self.worker.texts()
    }
}

/// A number of milliseconds in seconds, with three places behind the point.
pub open spec fn seconds(milliseconds: u64) -> Seq<char> {
    decimal((milliseconds / 1000) as nat) + "."@ + seq![
        digit_char((milliseconds / 100 % 10) as int),
        digit_char((milliseconds / 10 % 10) as int),
        digit_char((milliseconds % 10) as int),
    ]
}

/// Writes a number of milliseconds in seconds.
pub fn seconds_text(milliseconds: u64) -> (res: String)
    ensures
        res@ == seconds(milliseconds),
{
    let mut res = decimal_text(milliseconds / 1000);
    res.append(".");
    res.append(digit_text(milliseconds / 100 % 10));
    res.append(digit_text(milliseconds / 10 % 10));
    res.append(digit_text(milliseconds % 10));
    assert(res@ =~= seconds(milliseconds));
    res
}

/// The columns of a row, written so many milliseconds after the start.
pub open spec fn row(
    kind: Seq<char>,
    phase: Seq<char>,
    event: Seq<char>,
    elapsed: u64,
    snapshot: Option<DiagnosticsSnapshot>,
    document: Option<DocumentDiagnosticsSnapshot>,
) -> Seq<Seq<char>> {
    seq![kind, phase, event, seconds(elapsed)] + match snapshot {
        Some(snapshot) => snapshot.texts(),
        None => blank_columns(32),
    } + match document {
        Some(document) => document.texts(),
        None => blank_columns(26),
    }
}

/// A row, as it stands in the log.
pub open spec fn line(columns: Seq<Seq<char>>) -> Seq<char> {
    joined(columns, "\t"@)
}

fn bool_string(value: bool) -> (res: String)
    ensures
        res@ == bool_text(value),
{
    if value {
        "true".to_owned()
    } else {
        "false".to_owned()
    }
}

fn blank_fields() -> (res: Vec<String>)
    ensures
        res@.len() == COLUMN_COUNT,
        string_views(res@) == blank_columns(COLUMN_COUNT as nat),
{
    let mut fields: Vec<String> = Vec::new();
    let mut i: usize = 0;
    while i < COLUMN_COUNT
        invariant
            i <= COLUMN_COUNT,
            fields@.len() == i,
            string_views(fields@) == blank_columns(i as nat),
        decreases COLUMN_COUNT - i,
    {
        let blank = String::new();
        let ghost earlier = fields@;
        fields.push(blank);
        proof {
            assert(blank@ =~= Seq::<char>::empty());
            assert(string_views(fields@) =~= string_views(earlier).push(Seq::<char>::empty()));
            assert(blank_columns((i + 1) as nat) =~= blank_columns(i as nat).push(
                Seq::<char>::empty(),
            ));
        }
        i += 1;
    }
    fields
}

fn set_viewer_fields(fields: &mut Vec<String>, snapshot: &DiagnosticsSnapshot)
    requires
        old(fields)@.len() == COLUMN_COUNT,
        string_views(old(fields)@)[4].len() == 0,
        string_views(old(fields)@)[13].len() == 0,
    ensures
        final(fields)@.len() == old(fields)@.len(),
        string_views(final(fields)@) == placed(
            string_views(old(fields)@),
            PHYSICAL_MEM_COLUMN as int,
            snapshot.viewer_texts(),
        ),
{
    let ghost before = string_views(fields@);
    let memory = match snapshot.physical_mem_bytes {
        Some(bytes) => Some(bytes as u64),
        None => None,
    };
    let values: Vec<Option<u64>> = vec![
        memory,
        Some(snapshot.gpu_tile_lru.count as u64),
        Some(snapshot.gpu_tile_lru.current_weight_bytes as u64),
        Some(snapshot.gpu_tile_lru.budget_bytes as u64),
        Some(snapshot.thumbnail_lru.count as u64),
        Some(snapshot.thumbnail_lru.current_weight_bytes as u64),
        Some(snapshot.thumbnail_lru.budget_bytes as u64),
        Some(snapshot.tab_count as u64),
        Some(snapshot.visible_tab_count as u64),
        snapshot.active_document_id,
    ];
    set_numbers(fields, PHYSICAL_MEM_COLUMN, &values);
    proof {
        assert(before[4] =~= seq![]);
        assert(before[13] =~= seq![]);
        assert(string_views(fields@) =~= placed(
            before,
            PHYSICAL_MEM_COLUMN as int,
            snapshot.viewer_texts(),
        ));
    }
}

/// The row about the viewer, a document, both or neither.
pub fn render_line(
    kind: &str,
    phase: &str,
    event: &str,
    elapsed: u64,
    snapshot: Option<&DiagnosticsSnapshot>,
    document: Option<&DocumentDiagnosticsSnapshot>,
) -> (res: String)
    ensures
        res@ == line(
            row(
                kind@,
                phase@,
                event@,
                elapsed,
                match snapshot {
                    Some(snapshot) => Some(*snapshot),
                    None => None,
                },
                match document {
                    Some(document) => Some(*document),
                    None => None,
                },
            ),
        ),
{
    let mut fields = blank_fields();
    set_field(&mut fields, 0, kind.to_owned());
    set_field(&mut fields, 1, phase.to_owned());
    set_field(&mut fields, 2, event.to_owned());
    set_field(&mut fields, 3, seconds_text(elapsed));
    let ghost head = seq![kind@, phase@, event@, seconds(elapsed)];
    assert(string_views(fields@) =~= head + blank_columns(58));
    let ghost about_viewer = match snapshot {
        Some(snapshot) => snapshot.texts(),
        None => blank_columns(32),
    };
    if let Some(snapshot) = snapshot {
        set_viewer_fields(&mut fields, snapshot);
        set_container_fields(&mut fields, &snapshot.containers, false);
        set_worker_fields(&mut fields, snapshot.worker, false);
    }
    assert(string_views(fields@) =~= head + about_viewer + blank_columns(26));
    let ghost about_document = match document {
        Some(document) => document.texts(),
        None => blank_columns(26),
    };
    if let Some(document) = document {
        set_display(&mut fields, DOCUMENT_ID_COLUMN, Some(document.document_id));
        set_field(&mut fields, 37, document.state.to_owned());
        set_field(&mut fields, 38, bool_string(document.active));
        set_field(&mut fields, 39, bool_string(document.visible));
        set_container_fields(&mut fields, &document.containers, true);
        set_worker_fields(&mut fields, document.worker, true);
    }
    assert(string_views(fields@) =~= head + about_viewer + about_document);
    join(&fields, "\t")
}

/// The row of an event.
pub fn render_event_line(phase: &str, event: &str, elapsed: u64) -> (res: String)
    ensures
        res@ == line(row("event"@, phase@, event@, elapsed, None, None)),
{
    render_line("event", phase, event, elapsed, None, None)
}

/// The row of a sample.
pub fn render_sample_line(
    phase: &str,
    event: &str,
    elapsed: u64,
    snapshot: &DiagnosticsSnapshot,
) -> (res: String)
    ensures
        res@ == line(row("sample"@, phase@, event@, elapsed, Some(*snapshot), None)),
{
    render_line("sample", phase, event, elapsed, Some(snapshot), None)
}

/// The row of a document.
pub fn render_detail_line(
    phase: &str,
    event: &str,
    elapsed: u64,
    snapshot: &DiagnosticsSnapshot,
    document: &DocumentDiagnosticsSnapshot,
) -> (res: String)
    ensures
        res@ == line(row("detail"@, phase@, event@, elapsed, Some(*snapshot), Some(*document))),
{
    render_line("detail", phase, event, elapsed, Some(snapshot), Some(document))
}

/// The row that stands for the documents when there are none.
pub fn render_global_detail_line(
    phase: &str,
    event: &str,
    elapsed: u64,
    snapshot: &DiagnosticsSnapshot,
) -> (res: String)
    ensures
        res@ == line(row("detail"@, phase@, event@, elapsed, Some(*snapshot), None)),
{
    render_line("detail", phase, event, elapsed, Some(snapshot), None)
}

/// The rows about the documents: one each, or one for none.
pub open spec fn detail_rows(
    phase: Seq<char>,
    elapsed: u64,
    snapshot: DiagnosticsSnapshot,
) -> Seq<Seq<char>> {
    if snapshot.documents@.len() == 0 {
        seq![line(row("detail"@, phase, "rss_threshold"@, elapsed, Some(snapshot), None))]
    } else {
        Seq::new(
            snapshot.documents@.len(),
            |i: int|
                line(
                    row(
                        "detail"@,
                        phase,
                        "rss_threshold"@,
                        elapsed,
                        Some(snapshot),
                        Some(snapshot.documents@[i]),
                    ),
                ),
        )
    }
}

/// The rows of a sample: the start of the samples where they start, the sample, and the documents
/// where the memory in use has grown.
pub open spec fn sample_rows(
    state: SamplingState,
    now: u64,
    elapsed: u64,
    snapshot: DiagnosticsSnapshot,
) -> Seq<Seq<char>> {
    let phase = phase_text(state.phase_at(now));
    let started = if state.has_warmed_up(now) {
        seq![line(row("event"@, phase, "sampling_start"@, elapsed, None, None))]
    } else {
        seq![]
    };
    let sample = seq![line(row("sample"@, phase, ""@, elapsed, Some(snapshot), None))];
    let details = if has_grown(state.rss_high_water, snapshot.physical_mem_bytes) {
        detail_rows(phase, elapsed, snapshot)
    } else {
        seq![]
    };
    if state.is_due(now) {
        started + sample + details
    } else {
        seq![]
    }
}

/// The log of the viewer: what it writes and when. A line is written as long as the file is open.
pub struct Diagnostics {
    pub state: SamplingState,
    pub is_open: bool,
    pub pending_error: Option<String>,
}

fn detail_lines(
    lines: &mut Vec<String>,
    phase: &str,
    elapsed: u64,
    snapshot: &DiagnosticsSnapshot,
)
    ensures
        string_views(final(lines)@) == string_views(old(lines)@) + detail_rows(
            phase@,
            elapsed,
            *snapshot,
        ),
{
    let ghost before = string_views(lines@);
    let ghost rows = detail_rows(phase@, elapsed, *snapshot);
    if snapshot.documents.len() == 0 {
        lines.push(render_global_detail_line(phase, "rss_threshold", elapsed, snapshot));
        assert(string_views(lines@) =~= before + rows);
        return ;
    }
    let mut i: usize = 0;
    assert(string_views(lines@) =~= before + rows.take(0));
    while i < snapshot.documents.len()
        invariant
            i <= snapshot.documents.len(),
            snapshot.documents.len() > 0,
            rows == detail_rows(phase@, elapsed, *snapshot),
            string_views(lines@) == before + rows.take(i as int),
        decreases snapshot.documents.len() - i,
    {
        let ghost earlier = lines@;
        lines.push(
            render_detail_line(phase, "rss_threshold", elapsed, snapshot, &snapshot.documents[i]),
        );
        proof {
            assert(lines@[earlier.len() as int]@ == rows[i as int]);
            assert(string_views(lines@) =~= string_views(earlier).push(rows[i as int]));
            assert(rows.take(i + 1) =~= rows.take(i as int).push(rows[i as int]));
            assert(string_views(lines@) =~= before + rows.take(i + 1));
        }
        i += 1;
    }
    assert(rows.take(i as int) =~= rows);
}

impl Diagnostics {
    /// The log of a start. A file that could not be opened is reported.
    pub fn start(started_at: u64, failure: Option<&str>) -> (res: Self)
        ensures
            res.state == (SamplingState {
                started_at,
                phase: DiagnosticsPhase::Startup,
                warmup_until: None,
                next_sample_at: None,
                rss_high_water: None,
            }),
            res.is_open == (failure is None),
            match failure {
                None => res.pending_error is None,
                Some(detail) => res.pending_error is Some && (res.pending_error->0)@
                    == "デバッグ診断ログを開始できませんでした。詳細: "@ + detail@,
            },
    {
        let state = SamplingState::new(started_at);
        match failure {
            None => Diagnostics { state, is_open: true, pending_error: None },
            Some(detail) => Diagnostics {
                state,
                is_open: false,
                pending_error: Some(
                    with_text("デバッグ診断ログを開始できませんでした。詳細: ", detail),
                ),
            },
        }
    }

    /// The lines that a log begins with.
    pub fn first_lines() -> (res: Vec<String>)
        ensures
            string_views(res@) == seq![
                joined(header_columns(), "\t"@),
                line(row("event"@, "startup"@, "process_start"@, 0, None, None)),
            ],
    {
        let mut lines: Vec<String> = Vec::new();
        lines.push(header_line());
        lines.push(render_event_line("startup", "process_start", 0));
        assert(string_views(lines@) =~= seq![
            joined(header_columns(), "\t"@),
            line(row("event"@, "startup"@, "process_start"@, 0, None, None)),
        ]);
        lines
    }

    /// The session is being restored.
    pub fn begin_restore(&mut self, elapsed: u64) -> (res: Vec<String>)
        ensures
            string_views(res@) == if old(self).state.phase == DiagnosticsPhase::Startup {
                seq![line(row("event"@, "restore"@, "restore_start"@, elapsed, None, None))]
            } else {
                seq![]
            },
            final(self).state == (if old(self).state.phase == DiagnosticsPhase::Startup {
                SamplingState { phase: DiagnosticsPhase::Restore, ..old(self).state }
            } else {
                old(self).state
            }),
            final(self).is_open == old(self).is_open,
            final(self).pending_error == old(self).pending_error,
    {
        let mut lines: Vec<String> = Vec::new();
        if self.state.begin_restore() {
            lines.push(render_event_line("restore", "restore_start", elapsed));
        }
        assert(string_views(lines@) =~= if old(self).state.phase == DiagnosticsPhase::Startup {
            seq![line(row("event"@, "restore"@, "restore_start"@, elapsed, None, None))]
        } else {
            seq![]
        });
        lines
    }

    /// The session has been restored.
    pub fn restore_complete(&mut self, elapsed: u64) -> (res: Vec<String>)
        ensures
            string_views(res@) == if old(self).state.phase == DiagnosticsPhase::Restore {
                seq![line(row("event"@, "restore"@, "restore_complete"@, elapsed, None, None))]
            } else {
                seq![]
            },
            final(self).state == (if old(self).state.phase == DiagnosticsPhase::Restore {
                SamplingState { phase: DiagnosticsPhase::DisplayPending, ..old(self).state }
            } else {
                old(self).state
            }),
            final(self).is_open == old(self).is_open,
            final(self).pending_error == old(self).pending_error,
    {
        let mut lines: Vec<String> = Vec::new();
        if self.state.restore_complete() {
            lines.push(render_event_line("restore", "restore_complete", elapsed));
        }
        assert(string_views(lines@) =~= if old(self).state.phase == DiagnosticsPhase::Restore {
            seq![line(row("event"@, "restore"@, "restore_complete"@, elapsed, None, None))]
        } else {
            seq![]
        });
        lines
    }

    /// The first display stands.
    pub fn display_stable(&mut self, now: u64, elapsed: u64) -> (res: Vec<String>)
        requires
            now + WARMUP_NANOS <= u64::MAX,
        ensures
            string_views(res@) == display_rows(
                "display_stable"@,
                elapsed,
                old(self).state.awaits_display(),
            ),
            final(self).state == if old(self).state.awaits_display() {
                old(self).state.warming_up(now)
            } else {
                old(self).state
            },
            final(self).is_open == old(self).is_open,
            final(self).pending_error == old(self).pending_error,
    {
        let news = self.state.display_stable(now);
        display_lines("display_stable", elapsed, news)
    }

    /// The first display will not stand.
    pub fn display_unavailable(&mut self, now: u64, elapsed: u64) -> (res: Vec<String>)
        requires
            now + WARMUP_NANOS <= u64::MAX,
        ensures
            string_views(res@) == display_rows(
                "display_unavailable"@,
                elapsed,
                old(self).state.awaits_display(),
            ),
            final(self).state == if old(self).state.awaits_display() {
                old(self).state.warming_up(now)
            } else {
                old(self).state
            },
            final(self).is_open == old(self).is_open,
            final(self).pending_error == old(self).pending_error,
    {
        let news = self.state.display_unavailable(now);
        display_lines("display_unavailable", elapsed, news)
    }

    /// Takes a sample when one is due.
    pub fn sample(
        &mut self,
        now: u64,
        elapsed: u64,
        snapshot: &DiagnosticsSnapshot,
    ) -> (res: Vec<String>)
        requires
            now + SAMPLE_INTERVAL_NANOS <= u64::MAX,
        ensures
            string_views(res@) == sample_rows(old(self).state, now, elapsed, *snapshot),
            final(self).state == old(self).state.sampled(now, snapshot.physical_mem_bytes),
            final(self).is_open == old(self).is_open,
            final(self).pending_error == old(self).pending_error,
    {
        let ghost rows = sample_rows(self.state, now, elapsed, *snapshot);
        let mut lines: Vec<String> = Vec::new();
        if let Some(tick) = self.state.tick(now, snapshot.physical_mem_bytes) {
            let phase = phase_name(tick.phase);
            if tick.sampling_started {
                lines.push(render_event_line(phase, "sampling_start", elapsed));
            }
            lines.push(render_sample_line(phase, "", elapsed, snapshot));
            if tick.detail_due {
                detail_lines(&mut lines, phase, elapsed, snapshot);
            }
        }
        assert(string_views(lines@) =~= rows);
        lines
    }

    /// The file could not be written: the log ends.
    pub fn write_failed(&mut self, detail: &str)
        ensures
            final(self).state == old(self).state,
            !final(self).is_open,
            final(self).pending_error is Some,
            (final(self).pending_error->0)@
                == "デバッグ診断ログを書き込めませんでした。詳細: "@ + detail@,
    {
        self.is_open = false;
        self.pending_error = Some(
            with_text("デバッグ診断ログを書き込めませんでした。詳細: ", detail),
        );
    }

    /// Hands out what has to be reported, once.
    pub fn take_error(&mut self) -> (res: Option<String>)
        ensures
            res == old(self).pending_error,
            final(self).pending_error is None,
            final(self).state == old(self).state,
            final(self).is_open == old(self).is_open,
    {
        self.pending_error.take()
    }
}

/// The rows of the end of the first display, where it is news.
pub open spec fn display_rows(event: Seq<char>, elapsed: u64, news: bool) -> Seq<Seq<char>> {
    if news {
        seq![
            line(row("event"@, "display"@, event, elapsed, None, None)),
            line(row("event"@, "warmup"@, "warmup_start"@, elapsed, None, None)),
        ]
    } else {
        seq![]
    }
}

fn display_lines(event: &str, elapsed: u64, news: bool) -> (res: Vec<String>)
    ensures
        string_views(res@) == display_rows(event@, elapsed, news),
{
    let mut lines: Vec<String> = Vec::new();
    if news {
        lines.push(render_event_line("display", event, elapsed));
        lines.push(render_event_line("warmup", "warmup_start", elapsed));
    }
    assert(string_views(lines@) =~= display_rows(event@, elapsed, news));
    lines
}

/// No tab stands in a text.
pub open spec fn has_no_tab(text: Seq<char>) -> bool {
    forall|i: int| 0 <= i < text.len() ==> text[i] != '\t'
}

/// The columns of a line when it is read back: the texts between its tabs.
pub open spec fn columns_of(text: Seq<char>) -> Seq<Seq<char>>
    decreases text.len(),
{
    if text.len() == 0 {
        seq![seq![]]
    } else if text.last() == '\t' {
        columns_of(text.drop_last()).push(seq![])
    } else {
        lengthened(columns_of(text.drop_last()), seq![text.last()])
    }
}

/// The columns with the last one longer.
pub open spec fn lengthened(columns: Seq<Seq<char>>, text: Seq<char>) -> Seq<Seq<char>> {
    columns.drop_last().push(columns.last() + text)
}

proof fn a_line_has_columns(text: Seq<char>)
    ensures
        columns_of(text).len() > 0,
    decreases text.len(),
{
    if text.len() > 0 {
        a_line_has_columns(text.drop_last());
    }
}

proof fn columns_of_a_text_without_tabs(before: Seq<char>, text: Seq<char>)
    requires
        has_no_tab(text),
    ensures
        columns_of(before + text) == lengthened(columns_of(before), text),
    decreases text.len(),
{
    a_line_has_columns(before);
    if text.len() == 0 {
        assert(before + text =~= before);
        assert(columns_of(before).last() + text =~= columns_of(before).last());
        assert(lengthened(columns_of(before), text) =~= columns_of(before));
    } else {
        let shorter = text.drop_last();
        assert((before + text).drop_last() =~= before + shorter);
        assert((before + text).last() == text.last());
        columns_of_a_text_without_tabs(before, shorter);
        let last = columns_of(before).last();
        assert((last + shorter) + seq![text.last()] =~= last + text);
        assert(lengthened(lengthened(columns_of(before), shorter), seq![text.last()])
            =~= lengthened(columns_of(before), text));
    }
}

/// Reading a line back gives the columns that were written, when no tab stands in one.
pub proof fn columns_come_back(columns: Seq<Seq<char>>)
    requires
        columns.len() > 0,
        forall|i: int| 0 <= i < columns.len() ==> has_no_tab(#[trigger] columns[i]),
    ensures
        columns_of(line(columns)) == columns,
    decreases columns.len(),
{
    reveal_strlit("\t");
    if columns.len() == 1 {
        columns_of_a_text_without_tabs(seq![], columns[0]);
        assert(Seq::<char>::empty() + columns[0] =~= columns[0]);
        assert(columns[0] == line(columns));
        assert(columns_of(line(columns)) =~= columns);
    } else {
        let rest = columns.drop_last();
        columns_come_back(rest);
        let start = line(rest) + "\t"@;
        assert(start.drop_last() =~= line(rest));
        assert(start.last() == '\t');
        assert(has_no_tab(columns[columns.len() - 1]));
        columns_of_a_text_without_tabs(start, columns.last());
        assert(Seq::<char>::empty() + columns.last() =~= columns.last());
        assert(columns_of(line(columns)) =~= columns);
    }
}

proof fn numbers_hold_no_tab(number: nat)
    ensures
        has_no_tab(decimal(number)),
    decreases number,
{
    if number >= 10 {
        numbers_hold_no_tab(number / 10);
    }
}

proof fn seconds_hold_no_tab(milliseconds: u64)
    ensures
        has_no_tab(seconds(milliseconds)),
{
    reveal_strlit(".");
    numbers_hold_no_tab((milliseconds / 1000) as nat);
}

proof fn container_texts_hold_no_tab(counts: ContainerCounts)
    ensures
        forall|i: int| 0 <= i < counts.texts().len() ==> has_no_tab(#[trigger] counts.texts()[i]),
{
    assert forall|number: nat| has_no_tab(#[trigger] decimal(number)) by {
        numbers_hold_no_tab(number);
    }
}

proof fn queue_texts_hold_no_tab(worker: WorkerQueueSnapshot)
    ensures
        forall|i: int| 0 <= i < worker.texts().len() ==> has_no_tab(#[trigger] worker.texts()[i]),
{
    assert forall|number: nat| has_no_tab(#[trigger] decimal(number)) by {
        numbers_hold_no_tab(number);
    }
}

proof fn snapshot_texts_hold_no_tab(snapshot: DiagnosticsSnapshot)
    ensures
        snapshot.texts().len() == 32,
        forall|i: int|
            0 <= i < snapshot.texts().len() ==> has_no_tab(#[trigger] snapshot.texts()[i]),
{
    container_texts_hold_no_tab(snapshot.containers);
    queue_texts_hold_no_tab(snapshot.worker);
    assert forall|number: nat| has_no_tab(#[trigger] decimal(number)) by {
        numbers_hold_no_tab(number);
    }
    assert forall|i: int| 0 <= i < 10 implies has_no_tab(#[trigger] snapshot.viewer_texts()[i]) by {
    }
    assert forall|i: int| 0 <= i < snapshot.texts().len() implies has_no_tab(
        #[trigger] snapshot.texts()[i],
    ) by {
        if i < 10 {
            assert(snapshot.texts()[i] == snapshot.viewer_texts()[i]);
        } else if i < 24 {
            assert(snapshot.texts()[i] == snapshot.containers.texts()[i - 10]);
        } else {
            assert(snapshot.texts()[i] == snapshot.worker.texts()[i - 24]);
        }
    }
}

proof fn document_texts_hold_no_tab(document: DocumentDiagnosticsSnapshot)
    requires
        has_no_tab(document.state@),
    ensures
        document.texts().len() == 26,
        forall|i: int|
            0 <= i < document.texts().len() ==> has_no_tab(#[trigger] document.texts()[i]),
{
    container_texts_hold_no_tab(document.containers);
    queue_texts_hold_no_tab(document.worker);
    numbers_hold_no_tab(document.document_id as nat);
    reveal_strlit("true");
    reveal_strlit("false");
    assert forall|i: int| 0 <= i < document.texts().len() implies has_no_tab(
        #[trigger] document.texts()[i],
    ) by {
        if 4 <= i < 18 {
            assert(document.texts()[i] == document.containers.texts()[i - 4]);
        } else if i >= 18 {
            assert(document.texts()[i] == document.worker.texts()[i - 18]);
        }
    }
}

/// Every row has as many columns as the header names, whatever it is about and whenever it is
/// written, when the texts handed in hold no tab. It reads back as it was written: its kind, its
/// phase, its event and the time, and nothing more where it is about neither the viewer nor a
/// document.
pub proof fn rows_match_the_header(
    kind: Seq<char>,
    phase: Seq<char>,
    event: Seq<char>,
    elapsed: u64,
    snapshot: Option<DiagnosticsSnapshot>,
    document: Option<DocumentDiagnosticsSnapshot>,
)
    requires
        has_no_tab(kind),
        has_no_tab(phase),
        has_no_tab(event),
        document is Some ==> has_no_tab((document->0).state@),
    ensures
        ({
            let columns = columns_of(line(row(kind, phase, event, elapsed, snapshot, document)));
            &&& columns.len() == COLUMN_COUNT
            &&& columns_of(line(header_columns())).len() == COLUMN_COUNT
            &&& columns == row(kind, phase, event, elapsed, snapshot, document)
            &&& columns.take(4) == seq![kind, phase, event, seconds(elapsed)]
            &&& snapshot is None && document is None ==> forall|i: int|
                4 <= i < columns.len() ==> (#[trigger] columns[i]) == Seq::<char>::empty()
        }),
{
    let about_viewer = match snapshot {
        Some(snapshot) => snapshot.texts(),
        None => blank_columns(32),
    };
    let about_document = match document {
        Some(document) => document.texts(),
        None => blank_columns(26),
    };
    if snapshot is Some {
        snapshot_texts_hold_no_tab(snapshot->0);
    }
    if document is Some {
        document_texts_hold_no_tab(document->0);
    }
    let columns = row(kind, phase, event, elapsed, snapshot, document);
    seconds_hold_no_tab(elapsed);
    assert forall|i: int| 0 <= i < columns.len() implies has_no_tab(#[trigger] columns[i]) by {
        if 4 <= i < 36 {
            assert(columns[i] == about_viewer[i - 4]);
        } else if i >= 36 {
            assert(columns[i] == about_document[i - 36]);
        }
    }
    columns_come_back(columns);
    the_header_reads_back();
    a_row_says_what_it_is(kind, phase, event, elapsed, snapshot, document);
}

/// A row starts with its kind, its phase, its event and the time. One that is about neither the
/// viewer nor a document holds nothing more.
pub proof fn a_row_says_what_it_is(
    kind: Seq<char>,
    phase: Seq<char>,
    event: Seq<char>,
    elapsed: u64,
    snapshot: Option<DiagnosticsSnapshot>,
    document: Option<DocumentDiagnosticsSnapshot>,
)
    ensures
        ({
            let columns = row(kind, phase, event, elapsed, snapshot, document);
            &&& columns.take(4) == seq![kind, phase, event, seconds(elapsed)]
            &&& snapshot is None && document is None ==> forall|i: int|
                4 <= i < columns.len() ==> (#[trigger] columns[i]) == Seq::<char>::empty()
        }),
{
    let columns = row(kind, phase, event, elapsed, snapshot, document);
    assert(columns.take(4) =~= seq![kind, phase, event, seconds(elapsed)]);
    if snapshot is None && document is None {
        assert(columns =~= seq![kind, phase, event, seconds(elapsed)] + blank_columns(58));
    }
}

/// The header reads back as one column for each name.
pub proof fn the_header_reads_back()
    ensures
        columns_of(line(header_columns())) == header_columns(),
        header_columns().len() == COLUMN_COUNT,
{
    reveal_strlit("row_kind");
    reveal_strlit("phase");
    reveal_strlit("event");
    reveal_strlit("elapsed_s");
    reveal_strlit("physical_mem_bytes");
    reveal_strlit("gpu_tile_lru_count");
    reveal_strlit("gpu_tile_lru_current_weight_bytes");
    reveal_strlit("gpu_tile_lru_budget_bytes");
    reveal_strlit("thumbnail_lru_count");
    reveal_strlit("thumbnail_lru_current_weight_bytes");
    reveal_strlit("thumbnail_lru_budget_bytes");
    reveal_strlit("tab_count");
    reveal_strlit("visible_tab_count");
    reveal_strlit("active_document_id");
    reveal_strlit("tiles");
    reveal_strlit("pending_tiles");
    reveal_strlit("wanted_tiles");
    reveal_strlit("visible_tiles");
    reveal_strlit("thumbnails");
    reveal_strlit("pending_thumbnails");
    reveal_strlit("text_snapshots");
    reveal_strlit("pending_text_snapshots");
    reveal_strlit("annotation_pages");
    reveal_strlit("pending_annotation_pages");
    reveal_strlit("highlight_index_pages");
    reveal_strlit("highlight_index_items");
    reveal_strlit("search_pages");
    reveal_strlit("search_matches");
    reveal_strlit("foreground_queue");
    reveal_strlit("current_viewport_queue");
    reveal_strlit("next_viewport_queue");
    reveal_strlit("previous_viewport_queue");
    reveal_strlit("background_queue");
    reveal_strlit("event_queue");
    reveal_strlit("scheduled_tiles");
    reveal_strlit("scheduled_text_snapshots");
    reveal_strlit("document_id");
    reveal_strlit("document_state");
    reveal_strlit("document_active");
    reveal_strlit("document_visible");
    reveal_strlit("document_tiles");
    reveal_strlit("document_pending_tiles");
    reveal_strlit("document_wanted_tiles");
    reveal_strlit("document_visible_tiles");
    reveal_strlit("document_thumbnails");
    reveal_strlit("document_pending_thumbnails");
    reveal_strlit("document_text_snapshots");
    reveal_strlit("document_pending_text_snapshots");
    reveal_strlit("document_annotation_pages");
    reveal_strlit("document_pending_annotation_pages");
    reveal_strlit("document_highlight_index_pages");
    reveal_strlit("document_highlight_index_items");
    reveal_strlit("document_search_pages");
    reveal_strlit("document_search_matches");
    reveal_strlit("document_foreground_queue");
    reveal_strlit("document_current_viewport_queue");
    reveal_strlit("document_next_viewport_queue");
    reveal_strlit("document_previous_viewport_queue");
    reveal_strlit("document_background_queue");
    reveal_strlit("document_event_queue");
    reveal_strlit("document_scheduled_tiles");
    reveal_strlit("document_scheduled_text_snapshots");
    let columns = header_columns();
    assert forall|i: int| 0 <= i < columns.len() implies has_no_tab(#[trigger] columns[i]) by {
    }
    columns_come_back(columns);
}

} // verus!
