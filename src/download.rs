//! The control of one download: seeding from earlier progress, registering,
//! and the decision taken on each thing the transport reports, from the start
//! request's status to the end of the stream. The application runs the loop:
//! it performs the I/O, hands each outcome to `PullSession::step`, and carries
//! out what the step returns.
use vstd::prelude::*;
use crate::registry::{
    DownloadError,
    DownloadRegistry,
    after_begin,
    after_cancel,
    begin_succeeds,
    cancel_handle,
};
use crate::store::{DownloadProgress, ProgressTable, after_clear, stored};
use crate::wire::{
    EventView,
    PullModelResponse,
    StreamDecoder,
    decode_lines,
    split_lines,
    success_status,
    views_of,
};

verus! {

/// The registry view after a progress report of `completed` bytes for `channel`.
pub open spec fn updated<H>(m: Map<Seq<char>, (i64, H)>, channel: Seq<char>, completed: i64) -> Map<
    Seq<char>,
    (i64, H),
> {
    if m.contains_key(channel) {
        m.insert(channel, (completed, m[channel].1))
    } else {
        m
    }
}

/// Handling decoded events in order, up to and including the first success:
/// the registry view, the last completed and total byte counts, and whether a
/// success was met.
pub open spec fn run_events<H>(
    m: Map<Seq<char>, (i64, H)>,
    channel: Seq<char>,
    completed: i64,
    total: Option<i64>,
    evs: Seq<EventView>,
) -> (Map<Seq<char>, (i64, H)>, i64, Option<i64>, bool)
    decreases evs.len(),
{
    if evs.len() == 0 {
        (m, completed, total, false)
    } else {
        let e = evs[0];
        let m1 = match e.3 {
            Some(v) => updated(m, channel, v),
            None => m,
        };
        let c1 = match e.3 {
            Some(v) => v,
            None => completed,
        };
        let t1 = match e.2 {
            Some(t) => Some(t),
            None => total,
        };
        if e.0 == success_status() {
            (m1.remove(channel), c1, t1, true)
        } else {
            run_events(m1, channel, c1, t1, evs.drop_first())
        }
    }
}

/// The events forwarded to the user interface: all of them, in order, up to
/// and including the first success.
pub open spec fn forwarded(evs: Seq<EventView>) -> Seq<EventView>
    decreases evs.len(),
{
    if evs.len() == 0 {
        Seq::empty()
    } else if evs[0].0 == success_status() {
        seq![evs[0]]
    } else {
        seq![evs[0]] + forwarded(evs.drop_first())
    }
}

/// The byte count a download starts from: the active entry's, else the stored
/// record's, else zero; never below zero.
pub open spec fn seed_of(active: Option<i64>, stored_completed: Option<i64>) -> i64 {
    let found = match active {
        Some(b) => b,
        None => match stored_completed {
            Some(b) => b,
            None => 0,
        },
    };
    if found > 0 {
        found
    } else {
        0
    }
}

/// The completed byte count of the channel's active entry, if any.
pub open spec fn active_completed<H>(m: Map<Seq<char>, (i64, H)>, channel: Seq<char>) -> Option<
    i64,
> {
    if m.contains_key(channel) {
        Some(m[channel].0)
    } else {
        None
    }
}

/// The completed byte count of a stored record, if any.
pub open spec fn record_completed(stored: Option<&DownloadProgress>) -> Option<i64> {
    match stored {
        Some(p) => Some(p.completed_bytes),
        None => None,
    }
}

/// Seeds the starting byte count of a download from earlier progress.
pub fn seed_completed_bytes(active: Option<i64>, stored: Option<&DownloadProgress>) -> (r: i64)
    ensures
        r == seed_of(active, record_completed(stored)),
{
    let found = match active {
        Some(b) => b,
        None => match stored {
            Some(p) => p.completed_bytes,
            None => 0,
        },
    };
    if found > 0 {
        found
    } else {
        0
    }
}

/// Whether an HTTP status code is a success (2xx).
pub fn is_success_code(code: u16) -> (r: bool)
    ensures
        r == (200 <= code && code <= 299),
{
    200 <= code && code <= 299
}

/// The request that starts (or resumes) the transfer of a model: always the
/// same full request, asking for the streaming variant; no byte range is sent.
#[derive(Debug, Clone, PartialEq, Eq)]
pub struct PullRequest {
    /// The service's base address followed by `/api/pull`.
    pub url: String,
    /// The model to pull, sent as `name`.
    pub name: String,
    /// Always true: progress comes back as a stream.
    pub stream: bool,
}

/// The address of the pull endpoint under a base address.
pub open spec fn pull_url(base_url: Seq<char>) -> Seq<char> {
    base_url + "/api/pull"@
}

/// The start request for `model_name` at the service under `base_url`. It does
/// not depend on any earlier progress: the service resumes on its own.
pub fn pull_request(base_url: &String, model_name: &String) -> (r: PullRequest)
    ensures
        r.url@ == pull_url(base_url@),
        r.name@ == model_name@,
        r.stream,
{
    let url = base_url.clone().concat("/api/pull");
    PullRequest { url, name: model_name.clone(), stream: true }
}

/// What the transport reported since the last step.
#[derive(Debug, Clone, PartialEq, Eq)]
pub enum StreamEvent {
    /// Bytes arrived.
    Chunk(Vec<u8>),
    /// Nothing arrived within the poll interval.
    Idle,
    /// The cancellation handle was signalled.
    CancelSignalled,
    /// The byte stream ended.
    Closed,
    /// Reading the stream failed; the text describes the failure.
    Failed(String),
}

/// How a download ended.
#[derive(Debug, Clone, PartialEq, Eq)]
pub enum PullOutcome {
    /// A record with status "success" arrived.
    Completed,
    /// The stream ended without a success record; taken as completed.
    StreamEnded,
    /// The caller's cancellation ended the transfer.
    Cancelled,
    /// Reading the stream failed.
    Failed(String),
}

/// What the application is to do after a step.
#[derive(Debug)]
pub struct StepResult {
    /// Events to forward to the user interface, in order.
    pub forward: Vec<PullModelResponse>,
    /// The end of the download, if it ended.
    pub outcome: Option<PullOutcome>,
    /// A record to save in the progress store.
    pub persist: Option<DownloadProgress>,
}

/// The control state of one download.
pub struct PullSession {
    model_name: String,
    channel_id: String,
    decoder: StreamDecoder,
    seed: i64,
    last_completed: i64,
    last_total: Option<i64>,
    finished: bool,
}

impl PullSession {
    pub closed spec fn model_name(&self) -> Seq<char> {
        self.model_name@
    }

    pub closed spec fn channel_id(&self) -> Seq<char> {
        self.channel_id@
    }

    /// Bytes received after the last complete line.
    pub closed spec fn pending(&self) -> Seq<u8> {
        self.decoder@
    }

    /// The byte count the download started from.
    pub closed spec fn seed(&self) -> i64 {
        self.seed
    }

    /// The last completed byte count observed (the seed before any report).
    pub closed spec fn last_completed(&self) -> i64 {
        self.last_completed
    }

    /// The last total byte count observed.
    pub closed spec fn last_total(&self) -> Option<i64> {
        self.last_total
    }

    /// Whether the download reached an end.
    pub closed spec fn finished(&self) -> bool {
        self.finished
    }

    /// Seeds the download from the registry, else from the stored record, and
    /// registers it with its cancellation handle. Fails with `AlreadyActive`,
    /// changing nothing, if the channel has an active download.
    pub fn start<H>(
        registry: &mut DownloadRegistry<H>,
        model_name: &String,
        channel_id: &String,
        stored: Option<&DownloadProgress>,
        cancel: H,
    ) -> (r: Result<PullSession, DownloadError>)
        requires
            old(registry).wf(),
        ensures
            final(registry).wf(),
            (r is Ok) == begin_succeeds(old(registry).view(), channel_id@),
            r is Err ==> (r matches Err(DownloadError::AlreadyActive)),
            final(registry).view() == after_begin(
                old(registry).view(),
                channel_id@,
                seed_of(active_completed(old(registry).view(), channel_id@), record_completed(stored)),
                cancel,
            ),
            r matches Ok(s) ==> {
                &&& s.model_name() == model_name@
                &&& s.channel_id() == channel_id@
                &&& s.pending() == Seq::<u8>::empty()
                &&& s.seed() == seed_of(None, record_completed(stored))
                &&& s.last_completed() == s.seed()
                &&& s.last_total() is None
                &&& !s.finished()
            },
    {
        let active = registry.snapshot(channel_id);
        let seed = seed_completed_bytes(active, stored);
        match registry.begin(channel_id, seed, cancel) {
            Ok(()) => Ok(
                PullSession {
                    model_name: model_name.clone(),
                    channel_id: channel_id.clone(),
                    decoder: StreamDecoder::new(),
                    seed,
                    last_completed: seed,
                    last_total: None,
                    finished: false,
                },
            ),
            Err(e) => Err(e),
        }
    }

    /// The byte count the download started from.
    pub fn seed_bytes(&self) -> (r: i64)
        ensures
            r == self.seed(),
    {
        self.seed
    }

    /// The last completed byte count observed.
    pub fn completed_bytes(&self) -> (r: i64)
        ensures
            r == self.last_completed(),
    {
        self.last_completed
    }

    /// The channel identifier of the download.
    pub fn channel(&self) -> (r: &String)
        ensures
            r@ == self.channel_id(),
    {
        &self.channel_id
    }

    /// The model being pulled.
    pub fn model(&self) -> (r: &String)
        ensures
            r@ == self.model_name(),
    {
        &self.model_name
    }

    /// Whether the download reached an end.
    pub fn is_finished(&self) -> (r: bool)
        ensures
            r == self.finished(),
    {
        self.finished
    }

    /// Takes the status of the answer to the start request. A non-success
    /// status ends the download: its entry is removed and the error is
    /// `TransportRejected` with that status.
    pub fn on_response<H>(&mut self, registry: &mut DownloadRegistry<H>, status: u16) -> (r: Result<
        (),
        DownloadError,
    >)
        requires
            old(registry).wf(),
        ensures
            final(registry).wf(),
            final(self).model_name() == old(self).model_name(),
            final(self).channel_id() == old(self).channel_id(),
            final(self).seed() == old(self).seed(),
            200 <= status <= 299 ==> (r is Ok) && final(registry).view() == old(registry).view()
                && *final(self) == *old(self),
            !(200 <= status <= 299) ==> (r matches Err(DownloadError::TransportRejected(s))
                && s == status) && final(registry).view() == old(registry).view().remove(
                old(self).channel_id(),
            ) && final(self).finished() && final(self).last_completed() == old(
                self,
            ).last_completed(),
    {
        if is_success_code(status) {
            Ok(())
        } else {
            registry.end(&self.channel_id);
            self.finished = true;
            Err(DownloadError::TransportRejected(status))
        }
    }

    /// Decides what follows from what the transport reported.
    ///
    /// - `Chunk`: the bytes are decoded; each event, in order, updates the
    ///   registry with its completed count (when it has one) and is forwarded;
    ///   a success event removes the entry and completes the download, and
    ///   events after it are dropped.
    /// - `Idle`: nothing changes.
    /// - `CancelSignalled`: the download ends as cancelled, and the last
    ///   observed progress is handed back to be saved; the registry entry was
    ///   already removed by the cancellation request.
    /// - `Closed`: the entry is removed and the download ends as completed
    ///   without an explicit success.
    /// - `Failed`: the entry is removed and the download ends as failed;
    ///   nothing is saved.
    ///
    /// A download that already ended ignores every event.
    pub fn step<H>(&mut self, registry: &mut DownloadRegistry<H>, event: StreamEvent, now: u64) -> (r:
        StepResult)
        requires
            old(registry).wf(),
        ensures
            final(registry).wf(),
            final(self).model_name() == old(self).model_name(),
            final(self).channel_id() == old(self).channel_id(),
            final(self).seed() == old(self).seed(),
            old(self).finished() ==> {
                &&& *final(self) == *old(self)
                &&& final(registry).view() == old(registry).view()
                &&& r.forward@.len() == 0
                &&& r.outcome is None
                &&& r.persist is None
            },
            !old(self).finished() ==> match event {
                StreamEvent::Chunk(bytes) => {
                    let evs = decode_lines(split_lines(old(self).pending(), bytes@).0);
                    let run = run_events(
                        old(registry).view(),
                        old(self).channel_id(),
                        old(self).last_completed(),
                        old(self).last_total(),
                        evs,
                    );
                    &&& views_of(r.forward@) == forwarded(evs)
                    &&& final(registry).view() == run.0
                    &&& final(self).last_completed() == run.1
                    &&& final(self).last_total() == run.2
                    &&& final(self).finished() == run.3
                    &&& run.3 ==> (r.outcome matches Some(PullOutcome::Completed))
                    &&& !run.3 ==> (r.outcome is None) && final(self).pending() == split_lines(
                        old(self).pending(),
                        bytes@,
                    ).1
                    &&& r.persist is None
                },
                StreamEvent::Idle => {
                    &&& *final(self) == *old(self)
                    &&& final(registry).view() == old(registry).view()
                    &&& r.forward@.len() == 0
                    &&& r.outcome is None
                    &&& r.persist is None
                },
                StreamEvent::CancelSignalled => {
                    &&& final(registry).view() == old(registry).view()
                    &&& final(self).finished()
                    &&& r.forward@.len() == 0
                    &&& r.outcome matches Some(PullOutcome::Cancelled)
                    &&& r.persist matches Some(p) && p@ == (
                        old(self).model_name(),
                        old(self).channel_id(),
                        old(self).last_completed(),
                        match old(self).last_total() {
                            Some(t) => t,
                            None => 0,
                        },
                        now,
                    )
                },
                StreamEvent::Closed => {
                    &&& final(registry).view() == old(registry).view().remove(old(self).channel_id())
                    &&& final(self).finished()
                    &&& r.forward@.len() == 0
                    &&& r.outcome matches Some(PullOutcome::StreamEnded)
                    &&& r.persist is None
                },
                StreamEvent::Failed(reason) => {
                    &&& final(registry).view() == old(registry).view().remove(old(self).channel_id())
                    &&& final(self).finished()
                    &&& r.forward@.len() == 0
                    &&& r.outcome matches Some(PullOutcome::Failed(m)) && m@ == reason@
                    &&& r.persist is None
                },
            },
    {
        if self.finished {
            return StepResult { forward: Vec::new(), outcome: None, persist: None };
        }
        match event {
            StreamEvent::Chunk(bytes) => self.take_chunk(registry, bytes.as_slice()),
            StreamEvent::Idle => StepResult { forward: Vec::new(), outcome: None, persist: None },
            StreamEvent::CancelSignalled => {
                self.finished = true;
                let total = match self.last_total {
                    Some(t) => t,
                    None => 0,
                };
                let record = DownloadProgress {
                    model_name: self.model_name.clone(),
                    channel_id: self.channel_id.clone(),
                    completed_bytes: self.last_completed,
                    total_bytes: total,
                    last_updated: now,
                };
                StepResult {
                    forward: Vec::new(),
                    outcome: Some(PullOutcome::Cancelled),
                    persist: Some(record),
                }
            },
            StreamEvent::Closed => {
                registry.end(&self.channel_id);
                self.finished = true;
                StepResult {
                    forward: Vec::new(),
                    outcome: Some(PullOutcome::StreamEnded),
                    persist: None,
                }
            },
            StreamEvent::Failed(reason) => {
                registry.end(&self.channel_id);
                self.finished = true;
                StepResult {
                    forward: Vec::new(),
                    outcome: Some(PullOutcome::Failed(reason)),
                    persist: None,
                }
            },
        }
    }

    fn take_chunk<H>(&mut self, registry: &mut DownloadRegistry<H>, bytes: &[u8]) -> (r: StepResult)
        requires
            old(registry).wf(),
            !old(self).finished(),
        ensures
            final(registry).wf(),
            final(self).model_name() == old(self).model_name(),
            final(self).channel_id() == old(self).channel_id(),
            final(self).seed() == old(self).seed(),
            ({
                let evs = decode_lines(split_lines(old(self).pending(), bytes@).0);
                let run = run_events(
                    old(registry).view(),
                    old(self).channel_id(),
                    old(self).last_completed(),
                    old(self).last_total(),
                    evs,
                );
                &&& views_of(r.forward@) == forwarded(evs)
                &&& final(registry).view() == run.0
                &&& final(self).last_completed() == run.1
                &&& final(self).last_total() == run.2
                &&& final(self).finished() == run.3
                &&& run.3 ==> (r.outcome matches Some(PullOutcome::Completed))
                &&& !run.3 ==> (r.outcome is None) && final(self).pending() == split_lines(
                    old(self).pending(),
                    bytes@,
                ).1
                &&& r.persist is None
            }),
    {
        let mut events = self.decoder.push_chunk(bytes);
        let ghost all = views_of(events@);
        let ghost m0 = registry.view();
        let ghost c0 = self.last_completed;
        let ghost t0 = self.last_total;
        let ghost channel = self.channel_id@;
        let mut forward: Vec<PullModelResponse> = Vec::new();
        proof {
            assert(views_of(forward@) + forwarded(all) =~= forwarded(all));
        }
        while events.len() > 0 && !self.finished
            invariant
                registry.wf(),
                self.channel_id@ == channel,
                self.model_name@ == old(self).model_name@,
                self.seed == old(self).seed,
                self.decoder@ == split_lines(old(self).pending(), bytes@).1,
                !self.finished ==> run_events(m0, channel, c0, t0, all) == run_events(
                    registry.view(),
                    channel,
                    self.last_completed,
                    self.last_total,
                    views_of(events@),
                ),
                !self.finished ==> forwarded(all) == views_of(forward@) + forwarded(
                    views_of(events@),
                ),
                self.finished ==> run_events(m0, channel, c0, t0, all) == (
                    registry.view(),
                    self.last_completed,
                    self.last_total,
                    true,
                ),
                self.finished ==> forwarded(all) == views_of(forward@),
            decreases events@.len(),
        {
            let ghost before = views_of(events@);
            let ghost fwd_before = views_of(forward@);
            let e = events.remove(0);
            let ghost ev = e@;
            proof {
                assert(views_of(events@) =~= before.drop_first());
                assert(before[0] == ev);
            }
            match e.completed {
                Some(v) => {
                    registry.update(&self.channel_id, v);
                    self.last_completed = v;
                },
                None => {},
            }
            match e.total {
                Some(t) => {
                    self.last_total = Some(t);
                },
                None => {},
            }
            let success = e.is_success();
            forward.push(e);
            proof {
                assert(views_of(forward@) =~= fwd_before.push(ev));
            }
            if success {
                registry.end(&self.channel_id);
                self.finished = true;
                proof {
                    assert(forwarded(before) =~= seq![ev]);
                    assert(fwd_before + seq![ev] =~= fwd_before.push(ev));
                }
            } else {
                proof {
                    assert(fwd_before + (seq![ev] + forwarded(before.drop_first())) =~= fwd_before.push(
                        ev,
                    ) + forwarded(before.drop_first()));
                }
            }
        }
        proof {
            if !self.finished {
                assert(views_of(events@) =~= Seq::<EventView>::empty());
                assert(views_of(forward@) + Seq::<EventView>::empty() =~= views_of(forward@));
            }
        }
        if self.finished {
            StepResult { forward, outcome: Some(PullOutcome::Completed), persist: None }
        } else {
            StepResult { forward, outcome: None, persist: None }
        }
    }
}

/// Cancels a download: removes its registry entry and hands back its
/// cancellation handle for the caller to signal (`None`: nothing to cancel).
/// With `cleanup`, the channel's durable record is removed as well.
pub fn cancel_download<H>(
    registry: &mut DownloadRegistry<H>,
    progress: &mut ProgressTable,
    channel_id: &String,
    cleanup: bool,
) -> (r: Option<H>)
    requires
        old(registry).wf(),
        old(progress).wf(),
    ensures
        final(registry).wf(),
        final(progress).wf(),
        final(registry).view() == after_cancel(old(registry).view(), channel_id@),
        r == cancel_handle(old(registry).view(), channel_id@),
        cleanup ==> final(progress).view() == after_clear(old(progress).view(), channel_id@),
        !cleanup ==> final(progress).view() == old(progress).view(),
{
    let handle = registry.request_cancel(channel_id);
    if cleanup {
        progress.clear(channel_id);
    }
    handle
}

/// The known progress of a channel: its durable record, with the completed
/// byte count of the active download when one is running; `None` when
/// nothing is known.
pub fn query_status<H>(
    registry: &DownloadRegistry<H>,
    progress: &ProgressTable,
    channel_id: &String,
) -> (r: Option<DownloadProgress>)
    requires
        registry.wf(),
        progress.wf(),
    ensures
        match stored(progress.view(), channel_id@) {
            Some(p) => r matches Some(q) && q@ == (
                p.0,
                p.1,
                match active_completed(registry.view(), channel_id@) {
                    Some(b) => b,
                    None => p.2,
                },
                p.3,
                p.4,
            ),
            None => r is None,
        },
{
    match progress.load(channel_id) {
        Some(p) => match registry.snapshot(channel_id) {
            Some(b) => Some(
                DownloadProgress {
                    model_name: p.model_name,
                    channel_id: p.channel_id,
                    completed_bytes: b,
                    total_bytes: p.total_bytes,
                    last_updated: p.last_updated,
                },
            ),
            None => Some(p),
        },
        None => None,
    }
}

} // verus!
