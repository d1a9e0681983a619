//! Durable progress records, keyed by channel identifier. The table is the
//! whole durable mapping; the application reads it from its backing file
//! before a change and writes it back whole after.
use vstd::prelude::*;

verus! {

/// The last known progress of a download, kept across restarts.
#[derive(Debug, Clone, PartialEq, Eq)]
pub struct DownloadProgress {
    pub model_name: String,
    pub channel_id: String,
    pub completed_bytes: i64,
    pub total_bytes: i64,
    /// Seconds since the Unix epoch.
    pub last_updated: u64,
}

/// Model name, channel identifier, completed bytes, total bytes, time of update.
pub type ProgressView = (Seq<char>, Seq<char>, i64, i64, u64);

impl View for DownloadProgress {
    type V = ProgressView;

    open spec fn view(&self) -> ProgressView {
        (
            self.model_name@,
            self.channel_id@,
            self.completed_bytes,
            self.total_bytes,
            self.last_updated,
        )
    }
}

impl DownloadProgress {
    /// A copy of the record.
    pub fn duplicate(&self) -> (r: DownloadProgress)
        ensures
            r@ == self@,
    {
        DownloadProgress {
            model_name: self.model_name.clone(),
            channel_id: self.channel_id.clone(),
            completed_bytes: self.completed_bytes,
            total_bytes: self.total_bytes,
            last_updated: self.last_updated,
        }
    }
}

/// What `load(channel)` returns on a table with view `m`.
pub open spec fn stored(m: Map<Seq<char>, ProgressView>, channel: Seq<char>) -> Option<
    ProgressView,
> {
    if m.contains_key(channel) {
        Some(m[channel])
    } else {
        None
    }
}

/// The view after `save(channel, p)` on a table with view `m`.
pub open spec fn after_save(
    m: Map<Seq<char>, ProgressView>,
    channel: Seq<char>,
    p: ProgressView,
) -> Map<Seq<char>, ProgressView> {
    m.insert(channel, p)
}

/// The view after `clear(channel)` on a table with view `m`.
pub open spec fn after_clear(m: Map<Seq<char>, ProgressView>, channel: Seq<char>) -> Map<
    Seq<char>,
    ProgressView,
> {
    m.remove(channel)
}

/// Saving then loading the same channel gives back the saved record; clearing
/// then loading gives no prior progress. Saving or clearing one channel leaves
/// what every other channel loads unchanged.
pub proof fn lemma_save_load_round_trip(
    m: Map<Seq<char>, ProgressView>,
    channel: Seq<char>,
    p: ProgressView,
    other: Seq<char>,
)
    requires
        other != channel,
    ensures
        stored(after_save(m, channel, p), channel) == Some(p),
        stored(after_clear(m, channel), channel) is None,
        stored(after_save(m, channel, p), other) == stored(m, other),
        stored(after_clear(m, channel), other) == stored(m, other),
{
}

/// The durable mapping from channel identifier to progress record.
pub struct ProgressTable {
    ids: Vec<String>,
    records: Vec<DownloadProgress>,
    model: Ghost<Map<Seq<char>, ProgressView>>,
}

impl ProgressTable {
    pub closed spec fn view(&self) -> Map<Seq<char>, ProgressView> {
        self.model@
    }

    /// Each channel is held once and the records agree with the view.
    pub closed spec fn wf(&self) -> bool {
        &&& self.ids@.len() == self.records@.len()
        &&& forall|i: int, j: int|
            0 <= i < j < self.ids@.len() ==> #[trigger] self.ids@[i]@ != #[trigger] self.ids@[j]@
        &&& forall|i: int|
            0 <= i < self.ids@.len() ==> {
                &&& self.model@.contains_key(#[trigger] self.ids@[i]@)
                &&& self.model@[self.ids@[i]@] == self.records@[i]@
            }
        &&& forall|k: Seq<char>|
            #[trigger] self.model@.contains_key(k) ==> exists|i: int|
                0 <= i < self.ids@.len() && #[trigger] self.ids@[i]@ == k
    }

    /// The number of channels with a record.
    pub closed spec fn spec_len(&self) -> nat {
        self.ids@.len()
    }

    /// A table with no records.
    pub fn new() -> (r: Self)
        ensures
            r.wf(),
            r.view() == Map::<Seq<char>, ProgressView>::empty(),
    {
        ProgressTable { ids: Vec::new(), records: Vec::new(), model: Ghost(Map::empty()) }
    }

    fn find(&self, channel_id: &String) -> (r: Option<usize>)
        requires
            self.wf(),
        ensures
            match r {
                Some(i) => i < self.ids@.len() && self.ids@[i as int]@ == channel_id@
                    && self.view().contains_key(channel_id@),
                None => !self.view().contains_key(channel_id@),
            },
    {
        let mut i: usize = 0;
        while i < self.ids.len()
            invariant
                self.wf(),
                0 <= i <= self.ids@.len(),
                forall|j: int| 0 <= j < i ==> self.ids@[j]@ != channel_id@,
            decreases self.ids@.len() - i,
        {
            if self.ids[i] == *channel_id {
                proof {
                    assert(self.model@.contains_key(self.ids@[i as int]@));
                }
                return Some(i);
            }
            i = i + 1;
        }
        None
    }

    /// The record of a channel, if there is one.
    pub fn load(&self, channel_id: &String) -> (r: Option<DownloadProgress>)
        requires
            self.wf(),
        ensures
            match r {
                Some(p) => stored(self.view(), channel_id@) == Some(p@),
                None => stored(self.view(), channel_id@) is None,
            },
    {
        match self.find(channel_id) {
            Some(i) => Some(self.records[i].duplicate()),
            None => None,
        }
    }

    /// Stores `progress` as the record of the channel, replacing any earlier one.
    pub fn save(&mut self, channel_id: &String, progress: DownloadProgress)
        requires
            old(self).wf(),
        ensures
            final(self).wf(),
            final(self).view() == after_save(old(self).view(), channel_id@, progress@),
    {
        let ghost pv = progress@;
        match self.find(channel_id) {
            Some(i) => {
                let ghost old_ids = self.ids@;
                self.records.set(i, progress);
                self.model = Ghost(self.model@.insert(channel_id@, pv));
                proof {
                    assert forall|j: int| 0 <= j < self.ids@.len() implies {
                        &&& self.model@.contains_key(#[trigger] self.ids@[j]@)
                        &&& self.model@[self.ids@[j]@] == self.records@[j]@
                    } by {
                        assert(old(self).model@.contains_key(old_ids[j]@));
                        if j != i {
                            assert(old_ids[j]@ != old_ids[i as int]@);
                        }
                    }
                    assert forall|k: Seq<char>| #[trigger]
                        self.model@.contains_key(k) implies exists|j: int|
                        0 <= j < self.ids@.len() && #[trigger] self.ids@[j]@ == k by {
                        if k == channel_id@ {
                            assert(self.ids@[i as int]@ == k);
                        } else {
                            assert(old(self).model@.contains_key(k));
                        }
                    }
                }
            },
            None => {
                let ghost old_ids = self.ids@;
                self.ids.push(channel_id.clone());
                self.records.push(progress);
                self.model = Ghost(self.model@.insert(channel_id@, pv));
                proof {
                    let n = old_ids.len() as int;
                    assert(self.ids@[n]@ == channel_id@);
                    assert forall|i: int, j: int|
                        0 <= i < j < self.ids@.len() implies self.ids@[i]@ != self.ids@[j]@ by {
                        if j == n {
                            assert(self.ids@[i] == old_ids[i]);
                            assert(old(self).model@.contains_key(old_ids[i]@));
                        }
                    }
                    assert forall|k: Seq<char>| #[trigger]
                        self.model@.contains_key(k) implies exists|i: int|
                        0 <= i < self.ids@.len() && #[trigger] self.ids@[i]@ == k by {
                        if k == channel_id@ {
                            assert(self.ids@[n]@ == k);
                        } else {
                            assert(old(self).model@.contains_key(k));
                            let i = choose|i: int|
                                0 <= i < old_ids.len() && #[trigger] old_ids[i]@ == k;
                            assert(self.ids@[i]@ == k);
                        }
                    }
                    assert forall|i: int| 0 <= i < self.ids@.len() implies {
                        &&& self.model@.contains_key(#[trigger] self.ids@[i]@)
                        &&& self.model@[self.ids@[i]@] == self.records@[i]@
                    } by {
                        if i < n {
                            assert(self.ids@[i] == old_ids[i]);
                            assert(old(self).model@.contains_key(old_ids[i]@));
                        }
                    }
                }
            },
        }
    }

    /// Removes the record of the channel; does nothing if there is none.
    pub fn clear(&mut self, channel_id: &String)
        requires
            old(self).wf(),
        ensures
            final(self).wf(),
            final(self).view() == after_clear(old(self).view(), channel_id@),
    {
        match self.find(channel_id) {
            Some(i) => {
                let ghost old_ids = self.ids@;
                let ghost key = channel_id@;
                self.ids.remove(i);
                self.records.remove(i);
                self.model = Ghost(self.model@.remove(key));
                proof {
                    assert forall|a: int, b: int|
                        0 <= a < b < self.ids@.len() implies self.ids@[a]@ != self.ids@[b]@ by {
                        let a0 = if a < i { a } else { a + 1 };
                        let b0 = if b < i { b } else { b + 1 };
                        assert(self.ids@[a] == old_ids[a0]);
                        assert(self.ids@[b] == old_ids[b0]);
                    }
                    assert forall|j: int| 0 <= j < self.ids@.len() implies {
                        &&& self.model@.contains_key(#[trigger] self.ids@[j]@)
                        &&& self.model@[self.ids@[j]@] == self.records@[j]@
                    } by {
                        let j0 = if j < i { j } else { j + 1 };
                        assert(self.ids@[j] == old_ids[j0]);
                        assert(old(self).model@.contains_key(old_ids[j0]@));
                        assert(old_ids[j0]@ != key);
                    }
                    assert forall|k: Seq<char>| #[trigger]
                        self.model@.contains_key(k) implies exists|j: int|
                        0 <= j < self.ids@.len() && #[trigger] self.ids@[j]@ == k by {
                        assert(old(self).model@.contains_key(k));
                        let j0 = choose|j0: int|
                            0 <= j0 < old_ids.len() && #[trigger] old_ids[j0]@ == k;
                        assert(j0 != i);
                        let j = if j0 < i { j0 } else { j0 - 1 };
                        assert(self.ids@[j] == old_ids[j0]);
                    }
                }
            },
            None => {
                proof {
                    assert(self.model@.remove(channel_id@) =~= self.model@);
                }
            },
        }
    }

    /// The number of channels with a record.
    pub fn len(&self) -> (r: usize)
        requires
            self.wf(),
        ensures
            r == self.spec_len(),
            r == self.view().dom().len(),
    {
        proof {
            self.lemma_len();
        }
        self.ids.len()
    }

    proof fn lemma_len(&self)
        requires
            self.wf(),
        ensures
            self.ids@.len() == self.view().dom().len(),
    {
        let keys = self.ids@.map_values(|s: String| s@);
        assert(keys.no_duplicates()) by {
            assert forall|a: int, b: int|
                0 <= a < keys.len() && 0 <= b < keys.len() && a != b implies keys[a]
                != keys[b] by {
                if a < b {
                    assert(self.ids@[a]@ != self.ids@[b]@);
                } else {
                    assert(self.ids@[b]@ != self.ids@[a]@);
                }
            }
        }
        assert(keys.to_set() =~= self.view().dom()) by {
            assert forall|k: Seq<char>| keys.to_set().contains(k) implies self.view().dom().contains(
                k,
            ) by {
                let i = choose|i: int| 0 <= i < keys.len() && keys[i] == k;
                assert(self.model@.contains_key(self.ids@[i]@));
            }
            assert forall|k: Seq<char>| self.view().dom().contains(k) implies keys.to_set().contains(
                k,
            ) by {
                assert(self.model@.contains_key(k));
                let i = choose|i: int| 0 <= i < self.ids@.len() && #[trigger] self.ids@[i]@ == k;
                assert(keys[i] == k);
            }
        }
        keys.unique_seq_to_set();
    }

    /// The channel and record at position `i`, in the order of first save.
    pub fn entry(&self, i: usize) -> (r: (&String, &DownloadProgress))
        requires
            self.wf(),
            i < self.spec_len(),
        ensures
            self.view().contains_key(r.0@),
            self.view()[r.0@] == r.1@,
    {
        proof {
            assert(self.model@.contains_key(self.ids@[i as int]@));
        }
        (&self.ids[i], &self.records[i])
    }
}

} // verus!
