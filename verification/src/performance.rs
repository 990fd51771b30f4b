//! How long a page change and a zoom take to reach the screen.
//!
//! An instant is a number of nanoseconds since a fixed moment, a duration a number of
//! nanoseconds.
use vstd::prelude::*;

verus! {

/// Zoom inputs at most this far apart belong to one gesture.
pub const ZOOM_INPUT_GROUP_IDLE_NANOS: u64 = 250_000_000;

/// What is measured of a change of page.
#[derive(Clone, Copy, Debug, PartialEq, Eq, Structural)]
pub struct PageTransitionPerformance {
    pub target_page: usize,
    pub input_at: u64,
    pub first_exact_tile: Option<u64>,
    pub full_exact_viewport: Option<u64>,
    pub cache_hit: Option<bool>,
    pub prefetch_used: Option<bool>,
}

/// What is measured of a zoom. The zoom is held by its bit pattern.
#[derive(Clone, Copy, Debug, PartialEq, Eq, Structural)]
pub struct ZoomPerformance {
    pub target_zoom: u32,
    pub last_input_at: u64,
    pub provisional_display: Option<u64>,
    pub first_exact_tile: Option<u64>,
    pub full_exact_viewport: Option<u64>,
    pub discarded_intermediate_requests: usize,
}

/// The measurements of a document.
#[derive(Clone, Copy, Debug, PartialEq, Eq, Structural)]
pub struct RenderPerformance {
    pub page_transition: Option<PageTransitionPerformance>,
    pub zoom: Option<ZoomPerformance>,
}

/// The time from one instant to a later one, none when it is earlier.
pub open spec fn since(now: u64, earlier: u64) -> u64 {
    if now >= earlier {
        (now - earlier) as u64
    } else {
        0
    }
}

fn elapsed(now: u64, earlier: u64) -> (res: u64)
    ensures
        res == since(now, earlier),
{
    if now >= earlier {
        now - earlier
    } else {
        0
    }
}

/// A measurement is kept once taken, and taken when the moment has come.
pub open spec fn noted(earlier: Option<u64>, reached: bool, duration: u64) -> Option<u64> {
    if earlier is None && reached {
        Some(duration)
    } else {
        earlier
    }
}

fn note(earlier: Option<u64>, reached: bool, duration: u64) -> (res: Option<u64>)
    ensures
        res == noted(earlier, reached, duration),
{
    match earlier {
        Some(kept) => Some(kept),
        None => if reached {
            Some(duration)
        } else {
            None
        },
    }
}

/// What one painting shows of a page.
#[derive(Clone, Copy, Debug, PartialEq, Eq, Structural)]
pub struct Painted {
    /// A tile of another zoom stands in for a missing one.
    pub provisional: bool,
    /// A tile of this zoom is on the screen.
    pub exact: bool,
    /// The whole screen shows tiles of this zoom.
    pub complete: bool,
}

impl PageTransitionPerformance {
    /// The measurement after a painting.
    pub open spec fn painted(self, page_index: usize, painted: Painted, now: u64) -> Self {
        if self.target_page != page_index {
            self
        } else {
            PageTransitionPerformance {
                first_exact_tile: noted(
                    self.first_exact_tile,
                    painted.exact,
                    since(now, self.input_at),
                ),
                full_exact_viewport: noted(
                    self.full_exact_viewport,
                    painted.complete,
                    since(now, self.input_at),
                ),
                ..self
            }
        }
    }

    /// The measurement after the tiles at hand have been looked through.
    pub open spec fn looked_up(
        self,
        page_index: usize,
        cache_hit: bool,
        prefetch_used: bool,
    ) -> Self {
        if self.target_page == page_index && self.cache_hit is None {
            PageTransitionPerformance {
                cache_hit: Some(cache_hit),
                prefetch_used: Some(prefetch_used),
                ..self
            }
        } else {
            self
        }
    }
}

impl ZoomPerformance {
    /// The measurement after a painting.
    pub open spec fn painted(self, zoom: u32, painted: Painted, now: u64) -> Self {
        if self.target_zoom != zoom {
            self
        } else {
            let duration = since(now, self.last_input_at);
            ZoomPerformance {
                provisional_display: noted(
                    self.provisional_display,
                    painted.provisional,
                    duration,
                ),
                first_exact_tile: noted(self.first_exact_tile, painted.exact, duration),
                full_exact_viewport: noted(self.full_exact_viewport, painted.complete, duration),
                ..self
            }
        }
    }
}

impl RenderPerformance {
    /// How many requests a gesture has overtaken once a zoom input arrives: those of its
    /// earlier inputs and those withdrawn now. What is withdrawn when a gesture begins
    /// belonged to a zoom that was settled.
    pub open spec fn discarded(self, canceled_requests: usize, now: u64) -> int {
        match self.zoom {
            Some(zoom) if since(now, zoom.last_input_at) <= ZOOM_INPUT_GROUP_IDLE_NANOS =>
                if zoom.discarded_intermediate_requests + canceled_requests <= usize::MAX {
                    zoom.discarded_intermediate_requests + canceled_requests
                } else {
                    usize::MAX as int
                },
            _ => 0,
        }
    }

    /// Nothing is being measured.
    pub fn new() -> (res: Self)
        ensures
            res == (RenderPerformance { page_transition: None, zoom: None }),
    {
        RenderPerformance { page_transition: None, zoom: None }
    }

    /// Starts to measure a change of page.
    pub fn begin_page_transition(&mut self, target_page: usize, now: u64)
        ensures
            *final(self) == (RenderPerformance {
                page_transition: Some(
                    PageTransitionPerformance {
                        target_page,
                        input_at: now,
                        first_exact_tile: None,
                        full_exact_viewport: None,
                        cache_hit: None,
                        prefetch_used: None,
                    },
                ),
                ..*old(self)
            }),
    {
        self.page_transition = Some(
            PageTransitionPerformance {
                target_page,
                input_at: now,
                first_exact_tile: None,
                full_exact_viewport: None,
                cache_hit: None,
                prefetch_used: None,
            },
        );
    }

    /// Starts to measure a change of page, if the page is another one than before.
    pub fn page_turned(&mut self, before: usize, target_page: usize, now: u64)
        ensures
            *final(self) == (if target_page == before {
                *old(self)
            } else {
                RenderPerformance {
                    page_transition: Some(
                        PageTransitionPerformance {
                            target_page,
                            input_at: now,
                            first_exact_tile: None,
                            full_exact_viewport: None,
                            cache_hit: None,
                            prefetch_used: None,
                        },
                    ),
                    ..*old(self)
                }
            }),
    {
        if target_page != before {
            self.begin_page_transition(target_page, now);
        }
    }

    /// Notes whether the tiles of a page were at hand when it was first looked at.
    pub fn note_page_cache_state(
        &mut self,
        page_index: usize,
        cache_hit: bool,
        prefetch_used: bool,
    )
        ensures
            *final(self) == (RenderPerformance {
                page_transition: match old(self).page_transition {
                    Some(transition) => Some(
                        transition.looked_up(page_index, cache_hit, prefetch_used),
                    ),
                    None => None,
                },
                ..*old(self)
            }),
    {
        if let Some(transition) = self.page_transition {
            if transition.target_page == page_index && transition.cache_hit.is_none() {
                let mut next = transition;
                next.cache_hit = Some(cache_hit);
                next.prefetch_used = Some(prefetch_used);
                self.page_transition = Some(next);
            }
        }
    }

    /// Starts to measure a zoom, or goes on with the gesture that is under way.
    pub fn begin_zoom(&mut self, target_zoom: u32, canceled_requests: usize, now: u64)
        ensures
            *final(self) == (RenderPerformance {
                zoom: Some(
                    ZoomPerformance {
                        target_zoom,
                        last_input_at: now,
                        provisional_display: None,
                        first_exact_tile: None,
                        full_exact_viewport: None,
                        discarded_intermediate_requests: old(self).discarded(
                            canceled_requests,
                            now,
                        ) as usize,
                    },
                ),
                ..*old(self)
            }),
    {
        let discarded: usize = match self.zoom {
            Some(zoom) => if elapsed(now, zoom.last_input_at) <= ZOOM_INPUT_GROUP_IDLE_NANOS {
                zoom.discarded_intermediate_requests.saturating_add(canceled_requests)
            } else {
                0
            },
            None => 0,
        };
        self.zoom = Some(
            ZoomPerformance {
                target_zoom,
                last_input_at: now,
                provisional_display: None,
                first_exact_tile: None,
                full_exact_viewport: None,
                discarded_intermediate_requests: discarded,
            },
        );
    }

    /// Notes what a painting of a page at a zoom showed.
    pub fn note_paint(&mut self, page_index: usize, zoom: u32, painted: Painted, now: u64)
        ensures
            *final(self) == (RenderPerformance {
                page_transition: match old(self).page_transition {
                    Some(transition) => Some(transition.painted(page_index, painted, now)),
                    None => None,
                },
                zoom: match old(self).zoom {
                    Some(measured) => Some(measured.painted(zoom, painted, now)),
                    None => None,
                },
            }),
    {
        if let Some(transition) = self.page_transition {
            if transition.target_page == page_index {
                let duration: u64 = elapsed(now, transition.input_at);
                let mut next = transition;
                next.first_exact_tile = note(next.first_exact_tile, painted.exact, duration);
                next.full_exact_viewport = note(
                    next.full_exact_viewport,
                    painted.complete,
                    duration,
                );
                self.page_transition = Some(next);
            }
        }
        if let Some(measured) = self.zoom {
            if measured.target_zoom == zoom {
                let duration: u64 = elapsed(now, measured.last_input_at);
                let mut next = measured;
                next.provisional_display = note(
                    next.provisional_display,
                    painted.provisional,
                    duration,
                );
                next.first_exact_tile = note(next.first_exact_tile, painted.exact, duration);
                next.full_exact_viewport = note(
                    next.full_exact_viewport,
                    painted.complete,
                    duration,
                );
                self.zoom = Some(next);
            }
        }
    }
}

/// The first time that a page is shown counts: later paintings change nothing.
pub proof fn first_measurements_stay(
    transition: PageTransitionPerformance,
    page_index: usize,
    first: Painted,
    now: u64,
    second: Painted,
    later: u64,
)
    requires
        first.exact,
        first.complete,
    ensures
        transition.painted(page_index, first, now).painted(page_index, second, later)
            == transition.painted(page_index, first, now),
{
}

/// A zoom input that comes after a pause overtakes nothing.
pub proof fn a_new_gesture_overtakes_nothing(
    performance: RenderPerformance,
    canceled_requests: usize,
    now: u64,
)
    requires
        performance.zoom is Some ==> since(now, (performance.zoom->0).last_input_at)
            > ZOOM_INPUT_GROUP_IDLE_NANOS,
    ensures
        performance.discarded(canceled_requests, now) == 0,
{
}

} // verus!
