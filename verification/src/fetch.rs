//! The paginated fetch engine. One state machine drives the page cursor,
//! the bounded retry counter and the record accumulator for every entity
//! stream; the caller performs each request and hands the outcome back.

use vstd::prelude::*;
use crate::api::LastFMError;

verus! {

/// Failure of a whole fetch run.
#[derive(Debug, Clone, Copy, PartialEq, Eq, Structural)]
pub struct FetchError;

impl FetchError {
    /// A human-readable description of the failure.
    pub fn message(&self) -> (msg: &'static str)
        ensures
            msg@ == "Failed to fetch scrobbles."@,
    {
        "Failed to fetch scrobbles."
    }
}

/// A page request is retried at most this many times in a row before the
/// whole fetch aborts.
pub const MAX_FAILURES: usize = 3;

/// Tracking state for paginated traversal: the page to request next, and
/// the highest page count any response has reported so far (zero until the
/// first successful response).
#[derive(Debug, Clone, Copy, PartialEq, Eq, Structural)]
pub struct PageCursor {
    pub current: usize,
    pub total: usize,
}

/// What one page request came to: a parsed page, or a transport or decode
/// failure.
pub enum PageOutcome<R> {
    Success { records: Vec<R>, total_pages: usize },
    Failure,
}

/// Where a fetch run stands.
#[derive(Debug, Clone, Copy, PartialEq, Eq, Structural)]
pub enum FetchStatus {
    InProgress,
    Done,
    Aborted,
}

/// The mathematical state of a fetch run.
pub struct FetchView<R> {
    pub current: int,
    pub total: int,
    pub failures: int,
    pub records: Seq<R>,
    pub status: FetchStatus,
}

/// The mathematical value of one page outcome.
pub enum OutcomeView<R> {
    Success { records: Seq<R>, total_pages: int },
    Failure,
}

impl<R> View for PageOutcome<R> {
    type V = OutcomeView<R>;

    open spec fn view(&self) -> OutcomeView<R> {
        match self {
            PageOutcome::Success { records, total_pages } => OutcomeView::Success {
                records: records@,
                total_pages: *total_pages as int,
            },
            PageOutcome::Failure => OutcomeView::Failure,
        }
    }
}

/// The state a fetch run starts in: requesting page one, no known total,
/// no failures, nothing accumulated.
pub open spec fn initial_view<R>() -> FetchView<R> {
    FetchView {
        current: 1,
        total: 0,
        failures: 0,
        records: Seq::empty(),
        status: FetchStatus::InProgress,
    }
}

/// One transition of the fetch state machine.
///
/// On success the returned records are appended, the failure counter
/// resets, the reported page count is accepted only if it exceeds the
/// known total (a shrinking total is ignored), the cursor advances, and
/// the run is done once the cursor passes the total. On failure the
/// failure counter grows, and the run aborts at the third consecutive
/// failure.
pub open spec fn spec_step<R>(s: FetchView<R>, o: OutcomeView<R>) -> FetchView<R> {
    match o {
        OutcomeView::Success { records, total_pages } => {
            let new_total = if total_pages > s.total {
                total_pages
            } else {
                s.total
            };
            FetchView {
                current: s.current + 1,
                total: new_total,
                failures: 0,
                records: s.records + records,
                status: if s.current + 1 > new_total {
                    FetchStatus::Done
                } else {
                    FetchStatus::InProgress
                },
            }
        },
        OutcomeView::Failure => {
            FetchView {
                current: s.current,
                total: s.total,
                failures: s.failures + 1,
                records: s.records,
                status: if s.failures + 1 >= MAX_FAILURES {
                    FetchStatus::Aborted
                } else {
                    FetchStatus::InProgress
                },
            }
        },
    }
}

/// The state after feeding a sequence of page outcomes to the machine, in
/// order, stopping as soon as the run is done or aborted.
pub open spec fn run_model<R>(s: FetchView<R>, events: Seq<OutcomeView<R>>) -> FetchView<R>
    decreases events.len(),
{
    if !(s.status is InProgress) || events.len() == 0 {
        s
    } else {
        run_model(spec_step(s, events[0]), events.drop_first())
    }
}

/// The fetch engine: accumulates records across pages, retries failed
/// pages, and stops when the cursor passes the reported page count.
pub struct Fetcher<R> {
    pub cursor: PageCursor,
    pub failures: usize,
    pub records: Vec<R>,
    pub status: FetchStatus,
}

impl<R> View for Fetcher<R> {
    type V = FetchView<R>;

    open spec fn view(&self) -> FetchView<R> {
        FetchView {
            current: self.cursor.current as int,
            total: self.cursor.total as int,
            failures: self.failures as int,
            records: self.records@,
            status: self.status,
        }
    }
}

impl<R> Fetcher<R> {
    /// An in-progress fetch never outlives its retry budget, and the
    /// cursor starts at page one and only moves forward.
    pub open spec fn wf(self) -> bool {
        &&& self.cursor.current >= 1
        &&& (self.status is InProgress ==> self.failures < MAX_FAILURES)
    }

    pub fn new() -> (f: Self)
        ensures
            f@ == initial_view::<R>(),
            f.wf(),
    {
        Fetcher {
            cursor: PageCursor { current: 1, total: 0 },
            failures: 0,
            records: Vec::new(),
            status: FetchStatus::InProgress,
        }
    }

    /// The page the next request should ask for.
    pub fn next_page(&self) -> (p: usize)
        ensures
            p as int == self@.current,
    {
        self.cursor.current
    }

    pub fn is_in_progress(&self) -> (b: bool)
        ensures
            b == (self@.status is InProgress),
    {
        match self.status {
            FetchStatus::InProgress => true,
            _ => false,
        }
    }

    /// Feeds the outcome of one page request to the state machine.
    pub fn step(&mut self, outcome: PageOutcome<R>)
        requires
            old(self).wf(),
            old(self)@.status is InProgress,
            old(self).cursor.current < usize::MAX,
        ensures
            final(self)@ == spec_step(old(self)@, outcome@),
            final(self).wf(),
    {
        match outcome {
            PageOutcome::Success { mut records, total_pages } => {
                self.records.append(&mut records);
                self.failures = 0;
                self.cursor.current = self.cursor.current + 1;
                if total_pages > self.cursor.total {
                    self.cursor.total = total_pages;
                }
                self.status = if self.cursor.current > self.cursor.total {
                    FetchStatus::Done
                } else {
                    FetchStatus::InProgress
                };
            },
            PageOutcome::Failure => {
                self.failures = self.failures + 1;
                if self.failures >= MAX_FAILURES {
                    self.status = FetchStatus::Aborted;
                }
            },
        }
    }

    /// The verdict of a finished run: the complete record range, or the
    /// error that aborted it. Partial results of an aborted run are
    /// discarded.
    pub fn into_result(self) -> (r: Result<Vec<R>, LastFMError>)
        requires
            !(self@.status is InProgress),
        ensures
            match r {
                Ok(v) => self@.status is Done && v@ == self@.records,
                Err(e) => self@.status is Aborted && e == LastFMError::RequestError,
            },
    {
        match self.status {
            FetchStatus::Done => Ok(self.records),
            _ => Err(LastFMError::RequestError),
        }
    }
}

/// Feeds a whole sequence of page outcomes to a fresh fetch run, in order.
/// Returns the accumulated records if the run finished, and the request
/// error if it aborted or ran out of outcomes while still in progress.
pub fn run_script<R>(script: Vec<PageOutcome<R>>) -> (r: Result<Vec<R>, LastFMError>)
    requires
        script@.len() < usize::MAX,
    ensures
        ({
            let end = run_model(initial_view::<R>(), script@.map_values(|o: PageOutcome<R>| o@));
            match r {
                Ok(v) => end.status is Done && v@ == end.records,
                Err(e) => !(end.status is Done) && e == LastFMError::RequestError,
            }
        }),
{
    let ghost n0 = script@.len();
    let ghost full = script@.map_values(|o: PageOutcome<R>| o@);
    let mut rest = script;
    let mut fetcher = Fetcher::<R>::new();
    loop
        invariant
            fetcher.wf(),
            rest@.len() <= n0 < usize::MAX,
            fetcher@.current <= 1 + n0 - rest@.len(),
            run_model(initial_view::<R>(), full) == run_model(
                fetcher@,
                rest@.map_values(|o: PageOutcome<R>| o@),
            ),
        ensures
            !(fetcher@.status is InProgress) || rest@.len() == 0,
            run_model(initial_view::<R>(), full) == run_model(
                fetcher@,
                rest@.map_values(|o: PageOutcome<R>| o@),
            ),
        decreases rest@.len(),
    {
        if !fetcher.is_in_progress() {
            break;
        }
        if rest.len() == 0 {
            break;
        }
        let ghost entry_rest_views = rest@.map_values(|o: PageOutcome<R>| o@);
        let ev = rest.remove(0);
        proof {
            assert(rest@.map_values(|o: PageOutcome<R>| o@) =~= entry_rest_views.drop_first());
            assert(entry_rest_views[0] == ev@);
        }
        fetcher.step(ev);
    }
    if fetcher.is_in_progress() {
        // the outcomes ran out before the run finished
        proof {
            assert(rest@.map_values(|o: PageOutcome<R>| o@) =~= Seq::<OutcomeView<R>>::empty());
        }
        return Err(LastFMError::RequestError);
    }
    proof {
        assert(run_model(fetcher@, rest@.map_values(|o: PageOutcome<R>| o@)) == fetcher@);
    }
    fetcher.into_result()
}

/// The known page total only ever moves forward, whatever a response
/// reports.
pub proof fn lemma_total_never_decreases<R>(s: FetchView<R>, o: OutcomeView<R>)
    ensures
        spec_step(s, o).total >= s.total,
{
}

/// A run that stands at page `current` of a known total, and is served the
/// remaining pages in order with reported totals never above the known one,
/// finishes with every served record appended and the total unchanged.
proof fn lemma_run_remaining_pages<R>(s: FetchView<R>, pages: Seq<Seq<R>>, totals: Seq<int>)
    requires
        s.status is InProgress,
        pages.len() == totals.len(),
        pages.len() >= 1,
        s.total >= 1,
        s.current == s.total - pages.len() + 1,
        s.current >= 1,
        forall|i: int| 0 <= i < totals.len() ==> #[trigger] totals[i] <= s.total,
    ensures
        ({
            let events = Seq::new(
                pages.len(),
                |i: int|
                    OutcomeView::<R>::Success { records: pages[i], total_pages: totals[i] },
            );
            let end = run_model(s, events);
            &&& end.status is Done
            &&& end.total == s.total
            &&& end.current == s.total + 1
            &&& end.records == s.records + pages.flatten()
        }),
    decreases pages.len(),
{
    let events = Seq::new(
        pages.len(),
        |i: int| OutcomeView::<R>::Success { records: pages[i], total_pages: totals[i] },
    );
    let s1 = spec_step(s, events[0]);
    assert(s1.total == s.total);
    assert(s1.records == s.records + pages[0]);
    if pages.len() == 1 {
        assert(s1.status is Done);
        assert(events.drop_first() =~= Seq::<OutcomeView<R>>::empty());
        assert(run_model(s1, events.drop_first()) == s1);
        assert(run_model(s, events) == s1);
        pages.lemma_flatten_one_element();
        assert(s1.records =~= s.records + pages.flatten());
    } else {
        assert(s1.status is InProgress);
        let rp = pages.drop_first();
        let rt = totals.drop_first();
        assert(forall|i: int| 0 <= i < rt.len() ==> #[trigger] rt[i] <= s1.total);
        lemma_run_remaining_pages(s1, rp, rt);
        let rest_events = Seq::new(
            rp.len(),
            |i: int| OutcomeView::<R>::Success { records: rp[i], total_pages: rt[i] },
        );
        assert(events.drop_first() =~= rest_events);
        let end = run_model(s1, rest_events);
        assert(run_model(s, events) == end);
        assert(end.records == s1.records + rp.flatten());
        assert(pages.flatten() == pages.first() + rp.flatten());
        assert(end.records =~= s.records + pages.flatten());
    }
}

/// Shrinking-total resilience: once the first page has reported the page
/// count, later pages that report the same or a smaller count never lower
/// the cursor's total, and the run still terminates at the original count
/// with all pages' records, in page order.
pub proof fn lemma_shrinking_total_resilience<R>(pages: Seq<Seq<R>>, totals: Seq<int>)
    requires
        pages.len() >= 1,
        totals.len() == pages.len(),
        totals[0] == pages.len() as int,
        forall|i: int| 0 <= i < totals.len() ==> #[trigger] totals[i] <= pages.len() as int,
    ensures
        ({
            let events = Seq::new(
                pages.len(),
                |i: int|
                    OutcomeView::<R>::Success { records: pages[i], total_pages: totals[i] },
            );
            let end = run_model(initial_view::<R>(), events);
            &&& end.status is Done
            &&& end.total == pages.len() as int
            &&& end.records == pages.flatten()
        }),
{
    let s = initial_view::<R>();
    let events = Seq::new(
        pages.len(),
        |i: int| OutcomeView::<R>::Success { records: pages[i], total_pages: totals[i] },
    );
    let s1 = spec_step(s, events[0]);
    assert(s1.total == pages.len() as int);
    assert(s1.records =~= pages[0]);
    if pages.len() == 1 {
        assert(s1.status is Done);
        assert(events.drop_first() =~= Seq::<OutcomeView<R>>::empty());
        assert(run_model(s1, events.drop_first()) == s1);
        assert(run_model(s, events) == s1);
        pages.lemma_flatten_one_element();
        assert(s1.records =~= pages.flatten());
    } else {
        assert(s1.status is InProgress);
        let rp = pages.drop_first();
        let rt = totals.drop_first();
        assert(forall|i: int| 0 <= i < rt.len() ==> #[trigger] rt[i] <= s1.total);
        lemma_run_remaining_pages(s1, rp, rt);
        let rest_events = Seq::new(
            rp.len(),
            |i: int| OutcomeView::<R>::Success { records: rp[i], total_pages: rt[i] },
        );
        assert(events.drop_first() =~= rest_events);
        let end = run_model(s1, rest_events);
        assert(run_model(s, events) == end);
        assert(pages.flatten() == pages.first() + rp.flatten());
        assert(end.records =~= pages.flatten());
    }
}

/// Pagination termination: a server that reports the same page count on
/// every page and serves exactly that many pages yields exactly the
/// concatenation of all the pages' records, in page order.
pub proof fn lemma_pagination_termination<R>(pages: Seq<Seq<R>>)
    requires
        pages.len() >= 1,
    ensures
        ({
            let events = Seq::new(
                pages.len(),
                |i: int|
                    OutcomeView::<R>::Success {
                        records: pages[i],
                        total_pages: pages.len() as int,
                    },
            );
            let end = run_model(initial_view::<R>(), events);
            &&& end.status is Done
            &&& end.records == pages.flatten()
        }),
{
    let totals = Seq::new(pages.len(), |i: int| pages.len() as int);
    lemma_shrinking_total_resilience(pages, totals);
    let events_t = Seq::new(
        pages.len(),
        |i: int| OutcomeView::<R>::Success { records: pages[i], total_pages: totals[i] },
    );
    let events = Seq::new(
        pages.len(),
        |i: int|
            OutcomeView::<R>::Success { records: pages[i], total_pages: pages.len() as int },
    );
    assert(events =~= events_t);
}

/// Retry-then-abort: on a page that fails every attempt, a fresh page (no
/// failures yet) is tried exactly three times — after two failures the run
/// is still in progress — and the third failure aborts the whole run,
/// keeping none of the accumulated records and never advancing the cursor,
/// whatever would have come after.
pub proof fn lemma_retry_then_abort<R>(s: FetchView<R>, rest: Seq<OutcomeView<R>>)
    requires
        s.status is InProgress,
        s.failures == 0,
    ensures
        ({
            let after_two = run_model(
                s,
                seq![OutcomeView::<R>::Failure, OutcomeView::<R>::Failure],
            );
            let end = run_model(
                s,
                seq![
                    OutcomeView::<R>::Failure,
                    OutcomeView::<R>::Failure,
                    OutcomeView::<R>::Failure,
                ] + rest,
            );
            &&& after_two.status is InProgress
            &&& after_two.failures == 2
            &&& end.status is Aborted
            &&& end.records == s.records
            &&& end.current == s.current
        }),
{
    let two = seq![OutcomeView::<R>::Failure, OutcomeView::<R>::Failure];
    let s1 = spec_step(s, OutcomeView::<R>::Failure);
    let s2 = spec_step(s1, OutcomeView::<R>::Failure);
    let s3 = spec_step(s2, OutcomeView::<R>::Failure);
    let one = seq![OutcomeView::<R>::Failure];
    let empty = Seq::<OutcomeView<R>>::empty();
    assert(two.drop_first() =~= one);
    assert(one.drop_first() =~= empty);
    assert(run_model(s2, empty) == s2);
    assert(run_model(s1, one) == run_model(s2, empty));
    assert(run_model(s, two) == run_model(s1, one));
    let three_plus = seq![
        OutcomeView::<R>::Failure,
        OutcomeView::<R>::Failure,
        OutcomeView::<R>::Failure,
    ] + rest;
    let two_plus = seq![OutcomeView::<R>::Failure, OutcomeView::<R>::Failure] + rest;
    let one_plus = seq![OutcomeView::<R>::Failure] + rest;
    assert(three_plus[0] == OutcomeView::<R>::Failure);
    assert(two_plus[0] == OutcomeView::<R>::Failure);
    assert(one_plus[0] == OutcomeView::<R>::Failure);
    assert(three_plus.drop_first() =~= two_plus);
    assert(two_plus.drop_first() =~= one_plus);
    assert(one_plus.drop_first() =~= rest);
    assert(run_model(s, three_plus) == run_model(s1, two_plus));
    assert(run_model(s1, two_plus) == run_model(s2, one_plus));
    assert(run_model(s2, one_plus) == run_model(s3, rest));
    assert(s3.status is Aborted);
    assert(run_model(s3, rest) == s3);
}

/// A page that fails twice and then succeeds resets the failure counter to
/// zero and the run continues: failures do not accumulate across pages.
pub proof fn lemma_retry_then_recover<R>(s: FetchView<R>, records: Seq<R>, total_pages: int)
    requires
        s.status is InProgress,
        s.failures == 0,
    ensures
        ({
            let end = run_model(
                s,
                seq![
                    OutcomeView::<R>::Failure,
                    OutcomeView::<R>::Failure,
                    OutcomeView::<R>::Success { records, total_pages },
                ],
            );
            &&& end.failures == 0
            &&& end.records == s.records + records
            &&& end.current == s.current + 1
        }),
{
    let events = seq![
        OutcomeView::<R>::Failure,
        OutcomeView::<R>::Failure,
        OutcomeView::<R>::Success { records, total_pages },
    ];
    let s1 = spec_step(s, OutcomeView::<R>::Failure);
    let s2 = spec_step(s1, OutcomeView::<R>::Failure);
    let s3 = spec_step(s2, OutcomeView::<R>::Success { records, total_pages });
    let two = seq![
        OutcomeView::<R>::Failure,
        OutcomeView::<R>::Success { records, total_pages },
    ];
    let one = seq![OutcomeView::<R>::Success { records, total_pages }];
    let empty = Seq::<OutcomeView<R>>::empty();
    assert(events.drop_first() =~= two);
    assert(two.drop_first() =~= one);
    assert(one.drop_first() =~= empty);
    assert(run_model(s3, empty) == s3);
    assert(run_model(s2, one) == run_model(s3, empty));
    assert(run_model(s1, two) == run_model(s2, one));
    assert(run_model(s, events) == run_model(s1, two));
}

} // verus!
