//! The table of active downloads, keyed by channel identifier, with the
//! cancellation handle and last reported progress of each.
use vstd::prelude::*;

verus! {

/// Why a download could not be started. A failure part way through the
/// stream is an outcome of the download instead (`PullOutcome::Failed`).
#[derive(Debug, Clone, PartialEq, Eq)]
pub enum DownloadError {
    /// A download for the channel identifier is already running.
    AlreadyActive,
    /// The service answered the start request with this non-success status.
    TransportRejected(u16),
}

/// Active downloads. Each entry holds the completed byte count last reported
/// for its channel and the handle that signals its cancellation (`H`, a
/// one-shot sender in the application).
pub struct DownloadRegistry<H> {
    ids: Vec<String>,
    completed: Vec<i64>,
    handles: Vec<H>,
    model: Ghost<Map<Seq<char>, (i64, H)>>,
}

/// Whether `begin` on a registry with view `m` registers `channel`.
pub open spec fn begin_succeeds<H>(m: Map<Seq<char>, (i64, H)>, channel: Seq<char>) -> bool {
    !m.contains_key(channel)
}

/// The view after `begin(channel, completed, handle)` on a registry with view `m`.
pub open spec fn after_begin<H>(
    m: Map<Seq<char>, (i64, H)>,
    channel: Seq<char>,
    completed: i64,
    handle: H,
) -> Map<Seq<char>, (i64, H)> {
    if m.contains_key(channel) {
        m
    } else {
        m.insert(channel, (completed, handle))
    }
}

/// What `request_cancel(channel)` hands back on a registry with view `m`:
/// the entry's handle, or `None` when there is nothing to cancel.
pub open spec fn cancel_handle<H>(m: Map<Seq<char>, (i64, H)>, channel: Seq<char>) -> Option<H> {
    if m.contains_key(channel) {
        Some(m[channel].1)
    } else {
        None
    }
}

/// The view after `request_cancel(channel)` on a registry with view `m`.
pub open spec fn after_cancel<H>(m: Map<Seq<char>, (i64, H)>, channel: Seq<char>) -> Map<
    Seq<char>,
    (i64, H),
> {
    m.remove(channel)
}

/// Starting is exclusive: of two `begin` calls for the same channel on a
/// registry where it is not active, the first registers it and the second
/// fails with `AlreadyActive`, leaving the first entry in place.
pub proof fn lemma_begin_exclusive<H>(
    m: Map<Seq<char>, (i64, H)>,
    channel: Seq<char>,
    first: (i64, H),
    second: (i64, H),
)
    requires
        !m.contains_key(channel),
    ensures
        begin_succeeds(m, channel),
        !begin_succeeds(after_begin(m, channel, first.0, first.1), channel),
        after_begin(after_begin(m, channel, first.0, first.1), channel, second.0, second.1)
            == after_begin(m, channel, first.0, first.1),
{
}

/// Cancelling is idempotent: right after a `request_cancel` on a channel, a
/// second one finds nothing to cancel and changes nothing.
pub proof fn lemma_cancel_idempotent<H>(m: Map<Seq<char>, (i64, H)>, channel: Seq<char>)
    ensures
        cancel_handle(after_cancel(m, channel), channel) is None,
        after_cancel(after_cancel(m, channel), channel) == after_cancel(m, channel),
{
    assert(after_cancel(after_cancel(m, channel), channel) =~= after_cancel(m, channel));
}

impl<H> DownloadRegistry<H> {
    /// Channel identifier to (completed bytes, cancellation handle).
    pub closed spec fn view(&self) -> Map<Seq<char>, (i64, H)> {
        self.model@
    }

    /// The entries are held once per channel and agree with the view.
    pub closed spec fn wf(&self) -> bool {
        &&& self.ids@.len() == self.completed@.len()
        &&& self.ids@.len() == self.handles@.len()
        &&& forall|i: int, j: int|
            0 <= i < j < self.ids@.len() ==> #[trigger] self.ids@[i]@ != #[trigger] self.ids@[j]@
        &&& forall|i: int|
            0 <= i < self.ids@.len() ==> {
                &&& self.model@.contains_key(#[trigger] self.ids@[i]@)
                &&& self.model@[self.ids@[i]@] == (self.completed@[i], self.handles@[i])
            }
        &&& forall|k: Seq<char>|
            #[trigger] self.model@.contains_key(k) ==> exists|i: int|
                0 <= i < self.ids@.len() && #[trigger] self.ids@[i]@ == k
    }

    /// An empty registry.
    pub fn new() -> (r: Self)
        ensures
            r.wf(),
            r.view() == Map::<Seq<char>, (i64, H)>::empty(),
    {
        DownloadRegistry {
            ids: Vec::new(),
            completed: Vec::new(),
            handles: Vec::new(),
            model: Ghost(Map::empty()),
        }
    }

    fn find(&self, channel_id: &String) -> (r: Option<usize>)
        requires
            self.wf(),
        ensures
            match r {
                Some(i) => i < self.ids@.len() && self.ids@[i as int]@ == channel_id@,
                None => !self.view().contains_key(channel_id@),
            },
    {
        let mut i: usize = 0;
        while i < self.ids.len()
            invariant
                self.wf(),
                0 <= i <= self.ids@.len(),
                forall|j: int| 0 <= j < i ==> self.ids@[j]@ != channel_id@,
            decreases self.ids@.len() - i,
        {
            if self.ids[i] == *channel_id {
                return Some(i);
            }
            i = i + 1;
        }
        None
    }

    /// Registers a new download with its starting byte count and cancellation
    /// handle; fails with `AlreadyActive`, changing nothing, if the channel
    /// already has an entry.
    pub fn begin(&mut self, channel_id: &String, initial_completed: i64, handle: H) -> (r: Result<
        (),
        DownloadError,
    >)
        requires
            old(self).wf(),
        ensures
            final(self).wf(),
            (r is Ok) == begin_succeeds(old(self).view(), channel_id@),
            r is Err ==> (r matches Err(DownloadError::AlreadyActive)),
            final(self).view() == after_begin(
                old(self).view(),
                channel_id@,
                initial_completed,
                handle,
            ),
    {
        match self.find(channel_id) {
            Some(i) => {
                proof {
                    assert(self.model@.contains_key(self.ids@[i as int]@));
                }
                Err(DownloadError::AlreadyActive)
            },
            None => {
                let ghost old_ids = self.ids@;
                let ghost h = handle;
                self.ids.push(channel_id.clone());
                self.completed.push(initial_completed);
                self.handles.push(handle);
                self.model = Ghost(self.model@.insert(channel_id@, (initial_completed, h)));
                proof {
                    let n = old_ids.len() as int;
                    assert(self.ids@[n]@ == channel_id@);
                    assert forall|i: int, j: int|
                        0 <= i < j < self.ids@.len() implies self.ids@[i]@ != self.ids@[j]@ by {
                        if j == n {
                            assert(self.ids@[i] == old_ids[i]);
                            assert(old(self).model@.contains_key(old_ids[i]@));
                        }
                    }
                    assert forall|k: Seq<char>| #[trigger]
                        self.model@.contains_key(k) implies exists|i: int|
                        0 <= i < self.ids@.len() && #[trigger] self.ids@[i]@ == k by {
                        if k == channel_id@ {
                            assert(self.ids@[n]@ == k);
                        } else {
                            assert(old(self).model@.contains_key(k));
                            let i = choose|i: int| 0 <= i < old_ids.len() && #[trigger] old_ids[i]@ == k;
                            assert(self.ids@[i]@ == k);
                        }
                    }
                    assert forall|i: int| 0 <= i < self.ids@.len() implies {
                        &&& self.model@.contains_key(#[trigger] self.ids@[i]@)
                        &&& self.model@[self.ids@[i]@] == (self.completed@[i], self.handles@[i])
                    } by {
                        if i < n {
                            assert(self.ids@[i] == old_ids[i]);
                            assert(old(self).model@.contains_key(old_ids[i]@));
                        }
                    }
                }
                Ok(())
            },
        }
    }

    /// Removes entry `i` from the three vectors and its key from the view.
    fn remove_at(&mut self, i: usize)
        requires
            old(self).wf(),
            i < old(self).ids@.len(),
        ensures
            final(self).wf(),
            final(self).view() == old(self).view().remove(old(self).ids@[i as int]@),
    {
        let ghost old_self = *old(self);
        let ghost key = self.ids@[i as int]@;
        self.ids.remove(i);
        self.completed.remove(i);
        self.handles.remove(i);
        self.model = Ghost(self.model@.remove(key));
        proof {
            self.lemma_removed_wf(old_self, i as int);
        }
    }

    /// Records the latest completed byte count of a download; does nothing if
    /// the channel has no entry (it may have been cancelled or finished).
    pub fn update(&mut self, channel_id: &String, completed_bytes: i64)
        requires
            old(self).wf(),
        ensures
            final(self).wf(),
            old(self).view().contains_key(channel_id@) ==> final(self).view() == old(
                self,
            ).view().insert(channel_id@, (completed_bytes, old(self).view()[channel_id@].1)),
            !old(self).view().contains_key(channel_id@) ==> final(self).view() == old(self).view(),
    {
        match self.find(channel_id) {
            Some(i) => {
                let ghost old_ids = self.ids@;
                let ghost h = self.handles@[i as int];
                self.completed.set(i, completed_bytes);
                self.model = Ghost(self.model@.insert(channel_id@, (completed_bytes, h)));
                proof {
                    assert forall|j: int| 0 <= j < self.ids@.len() implies {
                        &&& self.model@.contains_key(#[trigger] self.ids@[j]@)
                        &&& self.model@[self.ids@[j]@] == (self.completed@[j], self.handles@[j])
                    } by {
                        assert(old(self).model@.contains_key(old_ids[j]@));
                        if j != i {
                            assert(old_ids[j]@ != old_ids[i as int]@);
                        }
                    }
                    assert(old(self).model@.contains_key(old_ids[i as int]@));
                    assert forall|k: Seq<char>| #[trigger]
                        self.model@.contains_key(k) implies exists|j: int|
                        0 <= j < self.ids@.len() && #[trigger] self.ids@[j]@ == k by {
                        if k == channel_id@ {
                            assert(self.ids@[i as int]@ == k);
                        } else {
                            assert(old(self).model@.contains_key(k));
                        }
                    }
                }
            },
            None => {},
        }
    }

    /// Removes the entry of a download and hands back its cancellation handle,
    /// for the caller to signal; `None` (nothing to cancel) if there is no entry.
    pub fn request_cancel(&mut self, channel_id: &String) -> (r: Option<H>)
        requires
            old(self).wf(),
        ensures
            final(self).wf(),
            final(self).view() == after_cancel(old(self).view(), channel_id@),
            r == cancel_handle(old(self).view(), channel_id@),
    {
        match self.find(channel_id) {
            Some(i) => {
                proof {
                    assert(self.model@.contains_key(self.ids@[i as int]@));
                }
                let ghost key = self.ids@[i as int]@;
                self.ids.remove(i);
                self.completed.remove(i);
                let ghost old_self = *old(self);
                let ghost old_handles = self.handles@;
                let h = self.handles.remove(i);
                self.model = Ghost(self.model@.remove(key));
                proof {
                    self.lemma_removed_wf(old_self, i as int);
                    assert(h == old_handles[i as int]);
                }
                Some(h)
            },
            None => {
                proof {
                    assert(self.model@.remove(channel_id@) =~= self.model@);
                }
                None
            },
        }
    }

    proof fn lemma_removed_wf(&self, old_self: Self, i: int)
        requires
            old_self.wf(),
            0 <= i < old_self.ids@.len(),
            self.ids@ == old_self.ids@.remove(i),
            self.completed@ == old_self.completed@.remove(i),
            self.handles@ == old_self.handles@.remove(i),
            self.model@ == old_self.model@.remove(old_self.ids@[i]@),
        ensures
            self.wf(),
    {
        let old_ids = old_self.ids@;
        let key = old_ids[i]@;
        assert forall|a: int, b: int|
            0 <= a < b < self.ids@.len() implies self.ids@[a]@ != self.ids@[b]@ by {
            let a0 = if a < i { a } else { a + 1 };
            let b0 = if b < i { b } else { b + 1 };
            assert(self.ids@[a] == old_ids[a0]);
            assert(self.ids@[b] == old_ids[b0]);
        }
        assert forall|j: int| 0 <= j < self.ids@.len() implies {
            &&& self.model@.contains_key(#[trigger] self.ids@[j]@)
            &&& self.model@[self.ids@[j]@] == (self.completed@[j], self.handles@[j])
        } by {
            let j0 = if j < i { j } else { j + 1 };
            assert(self.ids@[j] == old_ids[j0]);
            assert(old_self.model@.contains_key(old_ids[j0]@));
            assert(old_ids[j0]@ != key);
        }
        assert forall|k: Seq<char>| #[trigger]
            self.model@.contains_key(k) implies exists|j: int|
            0 <= j < self.ids@.len() && #[trigger] self.ids@[j]@ == k by {
            assert(old_self.model@.contains_key(k));
            let j0 = choose|j0: int| 0 <= j0 < old_ids.len() && #[trigger] old_ids[j0]@ == k;
            assert(j0 != i);
            let j = if j0 < i { j0 } else { j0 - 1 };
            assert(self.ids@[j] == old_ids[j0]);
        }
    }

    /// Removes the entry of a download, if there is one.
    pub fn end(&mut self, channel_id: &String)
        requires
            old(self).wf(),
        ensures
            final(self).wf(),
            final(self).view() == old(self).view().remove(channel_id@),
    {
        match self.find(channel_id) {
            Some(i) => {
                proof {
                    assert(self.model@.contains_key(self.ids@[i as int]@));
                }
                self.remove_at(i);
            },
            None => {
                proof {
                    assert(self.model@.remove(channel_id@) =~= self.model@);
                }
            },
        }
    }

    /// The completed byte count of an active download, if there is one.
    pub fn snapshot(&self, channel_id: &String) -> (r: Option<i64>)
        requires
            self.wf(),
        ensures
            self.view().contains_key(channel_id@) ==> r == Some(self.view()[channel_id@].0),
            !self.view().contains_key(channel_id@) ==> r is None,
    {
        match self.find(channel_id) {
            Some(i) => {
                proof {
                    assert(self.model@.contains_key(self.ids@[i as int]@));
                }
                Some(self.completed[i])
            },
            None => None,
        }
    }

    /// Whether a download for the channel is running.
    pub fn is_active(&self, channel_id: &String) -> (r: bool)
        requires
            self.wf(),
        ensures
            r == self.view().contains_key(channel_id@),
    {
        match self.find(channel_id) {
            Some(i) => {
                proof {
                    assert(self.model@.contains_key(self.ids@[i as int]@));
                }
                true
            },
            None => false,
        }
    }
}

} // verus!
