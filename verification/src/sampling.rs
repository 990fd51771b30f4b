//! When the diagnostics log samples the memory in use.
//!
//! An instant is a number of nanoseconds since a fixed moment.
use vstd::prelude::*;

verus! {

/// The time from one sample to the next.
pub const SAMPLE_INTERVAL_NANOS: u64 = 60_000_000_000;

/// How long the viewer warms up before its samples count.
pub const WARMUP_NANOS: u64 = 180_000_000_000;

/// How much the memory in use has to grow before the documents are listed one by one.
pub const RSS_DETAIL_THRESHOLD_BYTES: usize = 104_857_600;

/// How far the start of the viewer has come.
#[derive(Clone, Copy, Debug, PartialEq, Eq, Structural)]
pub enum DiagnosticsPhase {
    Startup,
    Restore,
    DisplayPending,
    Warmup,
    Sampling,
}

impl DiagnosticsPhase {
    /// The place of a phase in the order they follow each other.
    pub open spec fn rank(self) -> int {
        match self {
            DiagnosticsPhase::Startup => 0,
            DiagnosticsPhase::Restore => 1,
            DiagnosticsPhase::DisplayPending => 2,
            DiagnosticsPhase::Warmup => 3,
            DiagnosticsPhase::Sampling => 4,
        }
    }
}

/// The name of a phase in the log.
pub open spec fn phase_text(phase: DiagnosticsPhase) -> Seq<char> {
    match phase {
        DiagnosticsPhase::Startup => "startup"@,
        DiagnosticsPhase::Restore => "restore"@,
        DiagnosticsPhase::DisplayPending => "display_pending"@,
        DiagnosticsPhase::Warmup => "warmup"@,
        DiagnosticsPhase::Sampling => "sampling"@,
    }
}

/// Names a phase.
pub fn phase_name(phase: DiagnosticsPhase) -> (res: &'static str)
    ensures
        res@ == phase_text(phase),
{
    match phase {
        DiagnosticsPhase::Startup => "startup",
        DiagnosticsPhase::Restore => "restore",
        DiagnosticsPhase::DisplayPending => "display_pending",
        DiagnosticsPhase::Warmup => "warmup",
        DiagnosticsPhase::Sampling => "sampling",
    }
}

/// What a drawing of a document came to.
#[derive(Clone, Copy, Debug, PartialEq, Eq, Structural)]
pub enum DisplayRenderState {
    Pending,
    Succeeded,
    Failed,
}

/// How far a visible document is from standing on the screen.
#[derive(Clone, Copy, Debug, PartialEq, Eq, Structural)]
pub struct DisplayReadiness {
    pub unavailable: bool,
    pub render: DisplayRenderState,
    pub has_visible_request: bool,
    pub has_pending_visible_request: bool,
    pub has_visible_result: bool,
}

impl DisplayReadiness {
    /// The document cannot be shown, or could not be drawn.
    pub open spec fn cannot_show(self) -> bool {
        self.unavailable || self.render == DisplayRenderState::Failed
    }

    /// Everything that was asked for the screen has arrived.
    pub open spec fn shows(self) -> bool {
        &&& !self.unavailable
        &&& self.render == DisplayRenderState::Succeeded
        &&& self.has_visible_request
        &&& !self.has_pending_visible_request
        &&& self.has_visible_result
    }
}

impl Default for DisplayReadiness {
    fn default() -> (res: Self)
        ensures
            res == (DisplayReadiness {
                unavailable: false,
                render: DisplayRenderState::Pending,
                has_visible_request: false,
                has_pending_visible_request: false,
                has_visible_result: false,
            }),
    {
        DisplayReadiness {
            unavailable: false,
            render: DisplayRenderState::Pending,
            has_visible_request: false,
            has_pending_visible_request: false,
            has_visible_result: false,
        }
    }
}

/// There is something on the screen and all of it is drawn.
pub open spec fn is_stable(documents: Seq<DisplayReadiness>) -> bool {
    documents.len() > 0 && forall|i: int| 0 <= i < documents.len() ==> documents[i].shows()
}

/// Nothing more will be drawn, and some document will not be shown. Documents that can be shown
/// are waited for.
pub open spec fn is_unavailable(documents: Seq<DisplayReadiness>, allow_empty: bool) -> bool {
    if documents.len() == 0 {
        allow_empty
    } else {
        &&& exists|i: int| 0 <= i < documents.len() && documents[i].cannot_show()
        &&& forall|i: int|
            0 <= i < documents.len() ==> documents[i].cannot_show() || documents[i].shows()
    }
}

/// Whether the first display stands.
pub fn display_is_stable(documents: &Vec<DisplayReadiness>) -> (res: bool)
    ensures
        res == is_stable(documents@),
{
    let mut i: usize = 0;
    while i < documents.len()
        invariant
            i <= documents.len(),
            forall|j: int| 0 <= j < i ==> documents@[j].shows(),
        decreases documents.len() - i,
    {
        let document = documents[i];
        if document.unavailable || document.render != DisplayRenderState::Succeeded
            || !document.has_visible_request || document.has_pending_visible_request
            || !document.has_visible_result {
            assert(!documents@[i as int].shows());
            return false;
        }
        i += 1;
    }
    documents.len() > 0
}

/// Whether the first display has ended without standing.
pub fn display_is_unavailable(documents: &Vec<DisplayReadiness>, allow_empty: bool) -> (res: bool)
    ensures
        res == is_unavailable(documents@, allow_empty),
{
    if documents.len() == 0 {
        return allow_empty;
    }
    let mut some_cannot: bool = false;
    let mut i: usize = 0;
    while i < documents.len()
        invariant
            i <= documents.len(),
            some_cannot == exists|j: int| 0 <= j < i && documents@[j].cannot_show(),
            forall|j: int|
                0 <= j < i ==> documents@[j].cannot_show() || documents@[j].shows(),
        decreases documents.len() - i,
    {
        let document = documents[i];
        if document.unavailable || document.render == DisplayRenderState::Failed {
            some_cannot = true;
            assert(documents@[i as int].cannot_show());
        } else if document.render != DisplayRenderState::Succeeded || !document.has_visible_request
            || document.has_pending_visible_request || !document.has_visible_result {
            assert(!documents@[i as int].cannot_show() && !documents@[i as int].shows());
            return false;
        }
        i += 1;
    }
    some_cannot
}

/// What comes of a sample.
#[derive(Clone, Copy, Debug, PartialEq, Eq, Structural)]
pub struct SamplingTick {
    pub phase: DiagnosticsPhase,
    pub sampling_started: bool,
    pub detail_due: bool,
}

/// When to sample.
#[derive(Clone, Copy, Debug, PartialEq, Eq, Structural)]
pub struct SamplingState {
    pub started_at: u64,
    pub phase: DiagnosticsPhase,
    pub warmup_until: Option<u64>,
    pub next_sample_at: Option<u64>,
    pub rss_high_water: Option<usize>,
}

/// The memory in use has grown by the threshold since the documents were last listed.
pub open spec fn has_grown(high_water: Option<usize>, rss: Option<usize>) -> bool {
    match (high_water, rss) {
        (Some(high_water), Some(rss)) => rss >= if high_water + RSS_DETAIL_THRESHOLD_BYTES
            <= usize::MAX {
            high_water + RSS_DETAIL_THRESHOLD_BYTES
        } else {
            usize::MAX as int
        },
        _ => false,
    }
}

/// What growth is measured from after a sample: the first known value, then each one that the
/// documents were listed at.
pub open spec fn high_water_after(high_water: Option<usize>, rss: Option<usize>) -> Option<usize> {
    if has_grown(high_water, rss) || high_water is None {
        rss
    } else {
        high_water
    }
}

impl SamplingState {
    /// Samples are planned exactly from the warm-up on.
    pub open spec fn wf(self) -> bool {
        &&& self.next_sample_at is Some <==> self.phase.rank() >= 3
        &&& self.warmup_until is Some <==> self.phase.rank() >= 3
    }

    /// The display can still be judged.
    pub open spec fn awaits_display(self) -> bool {
        self.phase == DiagnosticsPhase::Startup || self.phase == DiagnosticsPhase::DisplayPending
    }

    /// The warm-up begins, and with it the samples.
    pub open spec fn warming_up(self, now: u64) -> Self {
        SamplingState {
            phase: DiagnosticsPhase::Warmup,
            warmup_until: Some((now + WARMUP_NANOS) as u64),
            next_sample_at: Some(now),
            ..self
        }
    }

    /// It is time for a sample.
    pub open spec fn is_due(self, now: u64) -> bool {
        self.next_sample_at is Some && now >= self.next_sample_at->0
    }

    /// The warm-up is over.
    pub open spec fn has_warmed_up(self, now: u64) -> bool {
        self.phase == DiagnosticsPhase::Warmup && self.warmup_until is Some && now
            >= self.warmup_until->0
    }

    /// The phase once a sample has been taken.
    pub open spec fn phase_at(self, now: u64) -> DiagnosticsPhase {
        if self.has_warmed_up(now) {
            DiagnosticsPhase::Sampling
        } else {
            self.phase
        }
    }

    /// The plan once a sample that was due has been taken.
    pub open spec fn sampled(self, now: u64, rss: Option<usize>) -> Self {
        if self.is_due(now) {
            SamplingState {
                phase: self.phase_at(now),
                next_sample_at: Some((now + SAMPLE_INTERVAL_NANOS) as u64),
                rss_high_water: high_water_after(self.rss_high_water, rss),
                ..self
            }
        } else {
            self
        }
    }

    /// A start at an instant.
    pub fn new(started_at: u64) -> (res: Self)
        ensures
            res == (SamplingState {
                started_at,
                phase: DiagnosticsPhase::Startup,
                warmup_until: None,
                next_sample_at: None,
                rss_high_water: None,
            }),
            res.wf(),
    {
        SamplingState {
            started_at,
            phase: DiagnosticsPhase::Startup,
            warmup_until: None,
            next_sample_at: None,
            rss_high_water: None,
        }
    }

    /// The phase.
    pub fn phase(&self) -> (res: DiagnosticsPhase)
        ensures
            res == self.phase,
    {
        self.phase
    }

    /// The session is being restored. Says whether that is news.
    pub fn begin_restore(&mut self) -> (res: bool)
        ensures
            res == (old(self).phase == DiagnosticsPhase::Startup),
            *final(self) == if res {
                SamplingState { phase: DiagnosticsPhase::Restore, ..*old(self) }
            } else {
                *old(self)
            },
            old(self).wf() ==> final(self).wf(),
    {
        if self.phase != DiagnosticsPhase::Startup {
            return false;
        }
        self.phase = DiagnosticsPhase::Restore;
        true
    }

    /// The session has been restored. Says whether that is news.
    pub fn restore_complete(&mut self) -> (res: bool)
        ensures
            res == (old(self).phase == DiagnosticsPhase::Restore),
            *final(self) == if res {
                SamplingState { phase: DiagnosticsPhase::DisplayPending, ..*old(self) }
            } else {
                *old(self)
            },
            old(self).wf() ==> final(self).wf(),
    {
        if self.phase != DiagnosticsPhase::Restore {
            return false;
        }
        self.phase = DiagnosticsPhase::DisplayPending;
        true
    }

    /// The first display stands. Says whether that is news.
    pub fn display_stable(&mut self, now: u64) -> (res: bool)
        requires
            now + WARMUP_NANOS <= u64::MAX,
        ensures
            res == old(self).awaits_display(),
            *final(self) == if res {
                old(self).warming_up(now)
            } else {
                *old(self)
            },
            old(self).wf() ==> final(self).wf(),
    {
        if self.phase != DiagnosticsPhase::Startup && self.phase
            != DiagnosticsPhase::DisplayPending {
            return false;
        }
        self.begin_warmup(now);
        true
    }

    /// The first display will not stand. Says whether that is news.
    pub fn display_unavailable(&mut self, now: u64) -> (res: bool)
        requires
            now + WARMUP_NANOS <= u64::MAX,
        ensures
            res == old(self).awaits_display(),
            *final(self) == if res {
                old(self).warming_up(now)
            } else {
                *old(self)
            },
            old(self).wf() ==> final(self).wf(),
    {
        if self.phase != DiagnosticsPhase::Startup && self.phase
            != DiagnosticsPhase::DisplayPending {
            return false;
        }
        self.begin_warmup(now);
        true
    }

    /// Begins the warm-up and plans the first sample at once.
    pub fn begin_warmup(&mut self, now: u64)
        requires
            now + WARMUP_NANOS <= u64::MAX,
        ensures
            *final(self) == old(self).warming_up(now),
            final(self).wf(),
    {
        self.phase = DiagnosticsPhase::Warmup;
        self.warmup_until = Some(now + WARMUP_NANOS);
        self.next_sample_at = Some(now);
    }

    /// Whether it is time for a sample.
    pub fn sample_due(&self, now: u64) -> (res: bool)
        ensures
            res == self.is_due(now),
    {
        match self.next_sample_at {
            Some(next) => now >= next,
            None => false,
        }
    }

    /// Takes a sample when one is due.
    pub fn tick(&mut self, now: u64, rss: Option<usize>) -> (res: Option<SamplingTick>)
        requires
            now + SAMPLE_INTERVAL_NANOS <= u64::MAX,
        ensures
            res == if old(self).is_due(now) {
                Some(
                    SamplingTick {
                        phase: old(self).phase_at(now),
                        sampling_started: old(self).has_warmed_up(now),
                        detail_due: has_grown(old(self).rss_high_water, rss),
                    },
                )
            } else {
                None
            },
            *final(self) == old(self).sampled(now, rss),
            old(self).wf() ==> final(self).wf(),
    {
        if !self.sample_due(now) {
            return None;
        }
        let sampling_started = self.phase == DiagnosticsPhase::Warmup && match self.warmup_until {
            Some(until) => now >= until,
            None => false,
        };
        if sampling_started {
            self.phase = DiagnosticsPhase::Sampling;
        }
        let detail_due = self.rss_crossed_detail_threshold(rss);
        self.next_sample_at = Some(now + SAMPLE_INTERVAL_NANOS);
        Some(SamplingTick { phase: self.phase, sampling_started, detail_due })
    }

    /// Notes the memory in use. Says whether the documents are to be listed.
    pub fn rss_crossed_detail_threshold(&mut self, rss: Option<usize>) -> (res: bool)
        ensures
            res == has_grown(old(self).rss_high_water, rss),
            *final(self) == (SamplingState {
                rss_high_water: high_water_after(old(self).rss_high_water, rss),
                ..*old(self)
            }),
    {
        match rss {
            None => false,
            Some(now_used) => match self.rss_high_water {
                None => {
                    self.rss_high_water = Some(now_used);
                    false
                },
                Some(high_water) => {
                    if now_used < high_water.saturating_add(RSS_DETAIL_THRESHOLD_BYTES) {
                        false
                    } else {
                        self.rss_high_water = Some(now_used);
                        true
                    }
                },
            },
        }
    }
}

/// A display does not stand and fail at once.
pub proof fn displays_end_one_way(documents: Seq<DisplayReadiness>, allow_empty: bool)
    ensures
        !(is_stable(documents) && is_unavailable(documents, allow_empty)),
{
}

/// Samples lie an interval apart: after one, none is due until the interval has passed.
pub proof fn samples_are_spaced(
    state: SamplingState,
    now: u64,
    rss: Option<usize>,
    later: u64,
)
    requires
        now + SAMPLE_INTERVAL_NANOS <= u64::MAX,
        state.is_due(now),
    ensures
        state.sampled(now, rss).is_due(later) <==> later >= now + SAMPLE_INTERVAL_NANOS,
{
}

/// The phases follow each other in order: no sample goes back, and once the samples count they
/// count for good.
pub proof fn phases_go_forward(state: SamplingState, now: u64, rss: Option<usize>)
    ensures
        state.sampled(now, rss).phase.rank() >= state.phase.rank(),
        state.awaits_display() ==> state.warming_up(now).phase.rank() > state.phase.rank(),
        state.phase == DiagnosticsPhase::Sampling ==> state.sampled(now, rss).phase
            == DiagnosticsPhase::Sampling,
{
}

/// Samples begin to count when the warm-up is over, not before.
pub proof fn warm_up_takes_its_time(
    state: SamplingState,
    began: u64,
    now: u64,
    rss: Option<usize>,
)
    requires
        began + WARMUP_NANOS <= u64::MAX,
        began <= now,
    ensures
        state.warming_up(began).sampled(now, rss).phase == DiagnosticsPhase::Sampling <==> now
            >= began + WARMUP_NANOS,
{
}

/// A sample that is due takes the memory down: the mark of it never falls, and the first one sets
/// it. One that is not due changes nothing. The start and the end of the warm-up stay.
pub proof fn samples_raise_the_mark(
    state: SamplingState,
    now: u64,
    mark: usize,
    rss: usize,
)
    ensures
        !state.is_due(now) ==> state.sampled(now, Some(rss)) == state,
        state.is_due(now) && state.rss_high_water is None ==> state.sampled(
            now,
            Some(rss),
        ).rss_high_water == Some(rss),
        state.is_due(now) && state.rss_high_water == Some(mark) && mark + 104_857_600 <= rss
            ==> state.sampled(now, Some(rss)).rss_high_water == Some(rss),
        state.is_due(now) && state.rss_high_water == Some(mark) && rss < mark + 104_857_600
            && mark + 104_857_600 <= usize::MAX ==> state.sampled(now, Some(rss)).rss_high_water == Some(mark),
        state.sampled(now, Some(rss)).started_at == state.started_at,
        state.sampled(now, Some(rss)).warmup_until == state.warmup_until,
        state.warming_up(now).started_at == state.started_at,
        state.warming_up(now).rss_high_water == state.rss_high_water,
        state.warming_up(now).is_due(now),
{
}

/// One document that cannot be shown, or could not be drawn, ends the wait once all others show
/// their pages.
pub proof fn one_failure_ends_the_wait(documents: Seq<DisplayReadiness>, i: int)
    requires
        0 <= i < documents.len(),
        forall|j: int| 0 <= j < documents.len() && j != i ==> (#[trigger] documents[j]).shows(),
    ensures
        documents[i].unavailable ==> is_unavailable(documents, false),
        documents[i].render == DisplayRenderState::Failed ==> is_unavailable(documents, false),
        !documents[i].unavailable && documents[i].render != DisplayRenderState::Failed
            ==> !is_unavailable(documents, false),
        documents[i].shows() ==> is_stable(documents),
{
    if documents[i].unavailable || documents[i].render == DisplayRenderState::Failed {
        assert(documents[i].cannot_show());
    }
}

} // verus!
