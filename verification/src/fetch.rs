//! Fetching a page through the cache, with bounded retries.
//!
//! The library decides; the caller acts. [`Fetch::start`] and
//! [`Fetch::step`] say what to do next, the caller does it (reads or writes
//! the cache, sends the request, sleeps) and reports what came of it.

use crate::error::{Error, ErrorView};
use crate::naming::{cache_file_name, cache_name};
use vstd::prelude::*;

verus! {

/// The directory that holds the cache entries.
pub const CACHE_FOLDER: &'static str = ".cache";

/// How many requests are sent for one page before the fetch fails.
pub const MAX_RETRIES: usize = 10;

/// Seconds to wait before a failed request is sent again.
pub const DOWNLOAD_RETRY_DELAY: u64 = 30;

/// Seconds to wait after a page was fetched from the network.
pub const DOWNLOAD_DELAY: u64 = 5;

/// The status code is one of success: 200 to 299.
pub open spec fn is_success(status: u16) -> bool {
    200 <= status < 300
}

/// Whether the status code is one of success.
pub fn status_is_success(status: u16) -> (success: bool)
    ensures
        success == is_success(status),
{
    200 <= status && status < 300
}

/// What the caller reports to the fetch.
#[derive(Debug)]
pub enum FetchEvent {
    /// The cache entry exists; its content.
    CacheHit(String),
    /// There is no cache entry.
    CacheMiss,
    /// The request was answered with this status code.
    Status(u16),
    /// The wait is over.
    Waited,
    /// The body of the response.
    Body(String),
    /// The cache entry was written.
    CacheWritten,
}

/// What the fetch asks the caller to do next.
#[derive(Debug)]
pub enum FetchAction {
    /// Read the cache entry `file`, if it exists.
    ReadCache { file: String },
    /// Send a GET request for `url`.
    Request { url: String },
    /// Request number `attempt` was answered with `status`: wait `seconds`
    /// before the next one.
    RetryAfter { attempt: usize, status: u16, seconds: u64 },
    /// Read the body of the response.
    ReadBody,
    /// Write `body` to the cache entry `file`.
    WriteCache { file: String, body: String },
    /// Wait `seconds` to spare the server.
    Pause { seconds: u64 },
    /// The fetch is over, with this result.
    Finish(Result<String, Error>),
}

/// Mathematical model of a [`FetchEvent`].
pub enum FetchEventView {
    CacheHit(Seq<char>),
    CacheMiss,
    Status(u16),
    Waited,
    Body(Seq<char>),
    CacheWritten,
}

/// Mathematical model of a [`FetchAction`].
pub enum FetchActionView {
    ReadCache { file: Seq<char> },
    Request { url: Seq<char> },
    RetryAfter { attempt: nat, status: u16, seconds: u64 },
    ReadBody,
    WriteCache { file: Seq<char>, body: Seq<char> },
    Pause { seconds: u64 },
    Finish(Result<Seq<char>, ErrorView>),
}

/// What the fetch is waiting for.
pub enum FetchPhase {
    /// For the cache to be looked up.
    Cache,
    /// For the answer to request number `attempt`.
    Response { attempt: nat },
    /// For the wait after the failed request number `attempt`.
    Retry { attempt: nat },
    /// For the body of the response.
    Body,
    /// For `body` to be written to the cache.
    Store { body: Seq<char> },
    /// For the wait after which the fetch ends with `outcome`.
    Pause { outcome: Result<Seq<char>, ErrorView> },
    /// For nothing: the fetch is over.
    Done,
}

/// Mathematical model of a [`Fetch`].
pub struct FetchView {
    pub url: Seq<char>,
    pub phase: FetchPhase,
}

impl View for FetchEvent {
    type V = FetchEventView;

    open spec fn view(&self) -> FetchEventView {
        match self {
            FetchEvent::CacheHit(content) => FetchEventView::CacheHit(content@),
            FetchEvent::CacheMiss => FetchEventView::CacheMiss,
            FetchEvent::Status(status) => FetchEventView::Status(*status),
            FetchEvent::Waited => FetchEventView::Waited,
            FetchEvent::Body(body) => FetchEventView::Body(body@),
            FetchEvent::CacheWritten => FetchEventView::CacheWritten,
        }
    }
}

/// The model of the result of a fetch.
pub open spec fn result_view(result: Result<String, Error>) -> Result<Seq<char>, ErrorView> {
    match result {
        Ok(body) => Ok(body@),
        Err(error) => Err(error@),
    }
}

impl View for FetchAction {
    type V = FetchActionView;

    open spec fn view(&self) -> FetchActionView {
        match self {
            FetchAction::ReadCache { file } => FetchActionView::ReadCache { file: file@ },
            FetchAction::Request { url } => FetchActionView::Request { url: url@ },
            FetchAction::RetryAfter { attempt, status, seconds } => FetchActionView::RetryAfter {
                attempt: *attempt as nat,
                status: *status,
                seconds: *seconds,
            },
            FetchAction::ReadBody => FetchActionView::ReadBody,
            FetchAction::WriteCache { file, body } => FetchActionView::WriteCache {
                file: file@,
                body: body@,
            },
            FetchAction::Pause { seconds } => FetchActionView::Pause { seconds: *seconds },
            FetchAction::Finish(result) => FetchActionView::Finish(result_view(*result)),
        }
    }
}

/// The state in which a fetch of `url` begins.
pub open spec fn initial(url: Seq<char>) -> FetchView {
    FetchView { url, phase: FetchPhase::Cache }
}

/// The first thing a fetch of `url` asks for: a look into the cache.
pub open spec fn first_action(url: Seq<char>) -> FetchActionView {
    FetchActionView::ReadCache { file: cache_name(url) }
}

/// The state after `event` and the action asked for then; `None` where the
/// fetch in `state` does not wait for such an event.
///
/// A cache hit ends the fetch with the cached content. A miss sends the
/// first request. A status that is no success leads to a wait and another
/// request, until `MAX_RETRIES` requests were sent: then the fetch fails
/// with the last status. A success leads to reading the body; an empty body
/// fails the fetch, any other is written to the cache. Whatever came of the
/// requests, the fetch pauses once before it ends.
pub open spec fn next(state: FetchView, event: FetchEventView) -> Option<(FetchView, FetchActionView)> {
    let pause = FetchActionView::Pause { seconds: DOWNLOAD_DELAY };
    match (state.phase, event) {
        (FetchPhase::Cache, FetchEventView::CacheHit(content)) => Some(
            (FetchView { phase: FetchPhase::Done, ..state }, FetchActionView::Finish(Ok(content))),
        ),
        (FetchPhase::Cache, FetchEventView::CacheMiss) => Some(
            (
                FetchView { phase: FetchPhase::Response { attempt: 1 }, ..state },
                FetchActionView::Request { url: state.url },
            ),
        ),
        (FetchPhase::Response { attempt }, FetchEventView::Status(status)) => if is_success(status) {
            Some((FetchView { phase: FetchPhase::Body, ..state }, FetchActionView::ReadBody))
        } else if attempt >= MAX_RETRIES {
            Some(
                (
                    FetchView {
                        phase: FetchPhase::Pause { outcome: Err(ErrorView::RequestFailed(status)) },
                        ..state
                    },
                    pause,
                ),
            )
        } else {
            Some(
                (
                    FetchView { phase: FetchPhase::Retry { attempt }, ..state },
                    FetchActionView::RetryAfter { attempt, status, seconds: DOWNLOAD_RETRY_DELAY },
                ),
            )
        },
        (FetchPhase::Retry { attempt }, FetchEventView::Waited) => Some(
            (
                FetchView { phase: FetchPhase::Response { attempt: attempt + 1 }, ..state },
                FetchActionView::Request { url: state.url },
            ),
        ),
        (FetchPhase::Body, FetchEventView::Body(body)) => if body.len() == 0 {
            Some(
                (
                    FetchView {
                        phase: FetchPhase::Pause { outcome: Err(ErrorView::EmptyResponse) },
                        ..state
                    },
                    pause,
                ),
            )
        } else {
            Some(
                (
                    FetchView { phase: FetchPhase::Store { body }, ..state },
                    FetchActionView::WriteCache { file: cache_name(state.url), body },
                ),
            )
        },
        (FetchPhase::Store { body }, FetchEventView::CacheWritten) => Some(
            (FetchView { phase: FetchPhase::Pause { outcome: Ok(body) }, ..state }, pause),
        ),
        (FetchPhase::Pause { outcome }, FetchEventView::Waited) => Some(
            (FetchView { phase: FetchPhase::Done, ..state }, FetchActionView::Finish(outcome)),
        ),
        _ => None,
    }
}

/// The state after the events arrived one by one, and the actions asked for
/// in turn; `None` where one of the events was not waited for.
pub open spec fn run(state: FetchView, events: Seq<FetchEventView>) -> Option<
    (FetchView, Seq<FetchActionView>),
>
    decreases events.len(),
{
    if events.len() == 0 {
        Some((state, Seq::empty()))
    } else {
        match run(state, events.drop_last()) {
            Some((reached, asked)) => match next(reached, events.last()) {
                Some((state, action)) => Some((state, asked.push(action))),
                None => None,
            },
            None => None,
        }
    }
}

/// How many of the actions are requests.
pub open spec fn requests(actions: Seq<FetchActionView>) -> nat
    decreases actions.len(),
{
    if actions.len() == 0 {
        0
    } else {
        requests(actions.drop_last()) + if actions.last() is Request {
            1nat
        } else {
            0nat
        }
    }
}

/// How many of the actions are waits before a retry.
pub open spec fn retry_waits(actions: Seq<FetchActionView>) -> nat
    decreases actions.len(),
{
    if actions.len() == 0 {
        0
    } else {
        retry_waits(actions.drop_last()) + if actions.last() is RetryAfter {
            1nat
        } else {
            0nat
        }
    }
}

/// How many of the actions are pauses to spare the server.
pub open spec fn pauses(actions: Seq<FetchActionView>) -> nat
    decreases actions.len(),
{
    if actions.len() == 0 {
        0
    } else {
        pauses(actions.drop_last()) + if actions.last() is Pause {
            1nat
        } else {
            0nat
        }
    }
}

/// No status among the events is one of success.
pub open spec fn never_succeeds(events: Seq<FetchEventView>) -> bool {
    forall|i: int|
        0 <= i < events.len() ==> (#[trigger] events[i] matches FetchEventView::Status(status)
            ==> !is_success(status))
}

/// What holds of a fetch that missed the cache, whatever was reported after.
pub open spec fn on_course(
    state: FetchView,
    asked: Seq<FetchActionView>,
    all_failed: bool,
) -> bool {
    let sent = requests(asked);
    let waited = retry_waits(asked);
    match state.phase {
        FetchPhase::Cache => false,
        FetchPhase::Response { attempt } => {
            &&& 1 <= attempt <= MAX_RETRIES
            &&& sent == attempt
            &&& waited == attempt - 1
            &&& pauses(asked) == 0
        },
        FetchPhase::Retry { attempt } => {
            &&& 1 <= attempt < MAX_RETRIES
            &&& sent == attempt
            &&& waited == attempt
            &&& pauses(asked) == 0
        },
        FetchPhase::Body => {
            &&& 1 <= sent <= MAX_RETRIES
            &&& waited == sent - 1
            &&& pauses(asked) == 0
            &&& !all_failed
        },
        FetchPhase::Store { body } => {
            &&& 1 <= sent <= MAX_RETRIES
            &&& waited == sent - 1
            &&& pauses(asked) == 0
            &&& !all_failed
            &&& body.len() > 0
        },
        FetchPhase::Pause { outcome } => {
            &&& 1 <= sent <= MAX_RETRIES
            &&& waited == sent - 1
            &&& pauses(asked) == 1
            &&& outcome is Err ==> outcome->Err_0 is RequestFailed || outcome->Err_0 is EmptyResponse
            &&& outcome matches Err(ErrorView::RequestFailed(_)) ==> sent == MAX_RETRIES
            &&& all_failed ==> outcome matches Err(ErrorView::RequestFailed(_))
        },
        FetchPhase::Done => {
            &&& 1 <= sent <= MAX_RETRIES
            &&& waited == sent - 1
            &&& pauses(asked) == 1
            &&& asked.len() > 0
            &&& asked.last() is Finish
            &&& asked.last() matches FetchActionView::Finish(Err(ErrorView::RequestFailed(_)))
                ==> sent == MAX_RETRIES
            &&& all_failed ==> asked.last() matches FetchActionView::Finish(
                Err(ErrorView::RequestFailed(_)),
            )
        },
    }
}

/// A fetch that missed the cache stays on course.
pub proof fn lemma_on_course(url: Seq<char>, events: Seq<FetchEventView>)
    requires
        events.len() > 0,
        events[0] is CacheMiss,
        run(initial(url), events) is Some,
    ensures
        on_course(
            run(initial(url), events).unwrap().0,
            run(initial(url), events).unwrap().1,
            never_succeeds(events),
        ),
    decreases events.len(),
{
    let before = events.drop_last();
    let (reached, asked) = run(initial(url), before).unwrap();
    let (state, action) = next(reached, events.last()).unwrap();
    let all = asked.push(action);
    assert(run(initial(url), events) == Some((state, all)));
    assert(all.drop_last() =~= asked);
    assert(all.last() == action);
    assert(requests(all) == requests(asked) + if action is Request {
        1nat
    } else {
        0nat
    });
    assert(retry_waits(all) == retry_waits(asked) + if action is RetryAfter {
        1nat
    } else {
        0nat
    });
    assert(pauses(all) == pauses(asked) + if action is Pause {
        1nat
    } else {
        0nat
    });
    if before.len() == 0 {
        assert(events.last() == events[0]);
        assert(reached == initial(url));
        assert(asked =~= Seq::empty());
        assert(requests(asked) == 0);
        assert(retry_waits(asked) == 0);
        assert(pauses(asked) == 0);
    } else {
        assert(before[0] == events[0]);
        lemma_on_course(url, before);
        if never_succeeds(events) {
            assert forall|i: int| 0 <= i < before.len() implies (
            #[trigger] before[i] matches FetchEventView::Status(status) ==> !is_success(
                status,
            )) by {
                assert(before[i] == events[i]);
            }
            assert(never_succeeds(before));
            assert(events[events.len() - 1] == events.last());
        }
    }
}

/// Where every request is answered with a status that is no success, a
/// fetch that missed the cache ends after exactly `MAX_RETRIES` requests
/// and `MAX_RETRIES - 1` waits between them, and it fails with
/// `RequestFailed`.
pub proof fn law_retry_bound(url: Seq<char>, events: Seq<FetchEventView>)
    requires
        events.len() > 0,
        events[0] is CacheMiss,
        never_succeeds(events),
        run(initial(url), events) is Some,
        run(initial(url), events).unwrap().0.phase is Done,
    ensures
        ({
            let asked = run(initial(url), events).unwrap().1;
            &&& requests(asked) == MAX_RETRIES
            &&& retry_waits(asked) == MAX_RETRIES - 1
            &&& asked.last() matches FetchActionView::Finish(Err(ErrorView::RequestFailed(_)))
        }),
{
    lemma_on_course(url, events);
}

/// A fetch that missed the cache and came to its end sent at least one
/// request and at most `MAX_RETRIES`, waited once less than it sent, and
/// paused exactly once.
pub proof fn law_one_pause_after_a_miss(url: Seq<char>, events: Seq<FetchEventView>)
    requires
        events.len() > 0,
        events[0] is CacheMiss,
        run(initial(url), events) is Some,
        run(initial(url), events).unwrap().0.phase is Done,
    ensures
        ({
            let asked = run(initial(url), events).unwrap().1;
            &&& 1 <= requests(asked) <= MAX_RETRIES
            &&& retry_waits(asked) == requests(asked) - 1
            &&& pauses(asked) == 1
            &&& asked.last() is Finish
        }),
{
    lemma_on_course(url, events);
}

/// Where the cache entry exists, the fetch ends at once with its content:
/// no request is sent, nothing is written, and no further event is waited
/// for. Two fetches that find the same entry end with the same content.
pub proof fn law_cache_hit_sends_nothing(
    url: Seq<char>,
    content: Seq<char>,
    events: Seq<FetchEventView>,
)
    requires
        events.len() > 0,
        events[0] == FetchEventView::CacheHit(content),
        run(initial(url), events) is Some,
    ensures
        events.len() == 1,
        run(initial(url), events).unwrap().0.phase is Done,
        run(initial(url), events).unwrap().1 == seq![FetchActionView::Finish(Ok(content))],
        requests(run(initial(url), events).unwrap().1) == 0,
    decreases events.len(),
{
    let before = events.drop_last();
    let (reached, asked) = run(initial(url), before).unwrap();
    if before.len() == 0 {
        assert(events.last() == events[0]);
        assert(reached == initial(url));
        let all = asked.push(FetchActionView::Finish(Ok(content)));
        assert(all =~= seq![FetchActionView::Finish(Ok(content))]);
        assert(all.drop_last() =~= Seq::<FetchActionView>::empty());
        assert(requests(all.drop_last()) == 0);
    } else {
        assert(before[0] == events[0]);
        law_cache_hit_sends_nothing(url, content, before);
        assert(next(reached, events.last()) is None);
    }
}

enum Phase {
    Cache,
    Response { attempt: usize },
    Retry { attempt: usize },
    Body,
    Store { body: String },
    Pause { outcome: Result<String, Error> },
    Done,
}

impl View for Phase {
    type V = FetchPhase;

    closed spec fn view(&self) -> FetchPhase {
        match self {
            Phase::Cache => FetchPhase::Cache,
            Phase::Response { attempt } => FetchPhase::Response { attempt: *attempt as nat },
            Phase::Retry { attempt } => FetchPhase::Retry { attempt: *attempt as nat },
            Phase::Body => FetchPhase::Body,
            Phase::Store { body } => FetchPhase::Store { body: body@ },
            Phase::Pause { outcome } => FetchPhase::Pause { outcome: result_view(*outcome) },
            Phase::Done => FetchPhase::Done,
        }
    }
}

/// One fetch of one page, from the look into the cache to its result.
pub struct Fetch {
    url: String,
    phase: Phase,
}

impl View for Fetch {
    type V = FetchView;

    closed spec fn view(&self) -> FetchView {
        FetchView { url: self.url@, phase: self.phase@ }
    }
}

impl Fetch {
    #[verifier::type_invariant]
    spec fn attempts_bounded(&self) -> bool {
        match self.phase {
            Phase::Response { attempt } => attempt <= MAX_RETRIES,
            Phase::Retry { attempt } => attempt < MAX_RETRIES,
            _ => true,
        }
    }

    /// Begins a fetch of `url`: the first action is a look into the cache.
    pub fn start(url: &str) -> (begun: (Fetch, FetchAction))
        ensures
            begun.0@ == initial(url@),
            begun.1@ == first_action(url@),
    {
        let fetch = Fetch { url: url.to_owned(), phase: Phase::Cache };
        (fetch, FetchAction::ReadCache { file: cache_file_name(url) })
    }

    /// Whether the fetch is over.
    pub fn is_done(&self) -> (done: bool)
        ensures
            done == (self@.phase is Done),
    {
        match self.phase {
            Phase::Done => true,
            _ => false,
        }
    }

    /// Takes what the caller reports and says what to do next. An event
    /// that the fetch does not wait for leaves it as it is, and nothing is
    /// asked for.
    pub fn step(&mut self, event: FetchEvent) -> (action: Option<FetchAction>)
        ensures
            match next(old(self)@, event@) {
                Some((state, asked)) => final(self)@ == state && action.is_some()
                    && action.unwrap()@ == asked,
                None => final(self)@ == old(self)@ && action.is_none(),
            },
    {
        proof {
            use_type_invariant(&*self);
        }
        let mut phase = Phase::Done;
        std::mem::swap(&mut self.phase, &mut phase);
        match (phase, event) {
            (Phase::Cache, FetchEvent::CacheHit(content)) => {
                Some(FetchAction::Finish(Ok(content)))
            },
            (Phase::Cache, FetchEvent::CacheMiss) => {
                self.phase = Phase::Response { attempt: 1 };
                Some(FetchAction::Request { url: self.url.clone() })
            },
            (Phase::Response { attempt }, FetchEvent::Status(status)) => {
                if status_is_success(status) {
                    self.phase = Phase::Body;
                    Some(FetchAction::ReadBody)
                } else if attempt >= MAX_RETRIES {
                    self.phase = Phase::Pause { outcome: Err(Error::RequestFailed(status)) };
                    Some(FetchAction::Pause { seconds: DOWNLOAD_DELAY })
                } else {
                    self.phase = Phase::Retry { attempt };
                    Some(
                        FetchAction::RetryAfter { attempt, status, seconds: DOWNLOAD_RETRY_DELAY },
                    )
                }
            },
            (Phase::Retry { attempt }, FetchEvent::Waited) => {
                self.phase = Phase::Response { attempt: attempt + 1 };
                Some(FetchAction::Request { url: self.url.clone() })
            },
            (Phase::Body, FetchEvent::Body(body)) => {
                if body.as_str().is_empty() {
                    self.phase = Phase::Pause { outcome: Err(Error::EmptyResponse) };
                    Some(FetchAction::Pause { seconds: DOWNLOAD_DELAY })
                } else {
                    let file = cache_file_name(self.url.as_str());
                    let copy = body.clone();
                    self.phase = Phase::Store { body };
                    Some(FetchAction::WriteCache { file, body: copy })
                }
            },
            (Phase::Store { body }, FetchEvent::CacheWritten) => {
                self.phase = Phase::Pause { outcome: Ok(body) };
                Some(FetchAction::Pause { seconds: DOWNLOAD_DELAY })
            },
            (Phase::Pause { outcome }, FetchEvent::Waited) => {
                Some(FetchAction::Finish(outcome))
            },
            (phase, _) => {
                self.phase = phase;
                None
            },
        }
    }
}

} // verus!
