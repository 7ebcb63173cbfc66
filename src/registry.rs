//! The registry of tracked channels: one row per channel, channel ids unique.

use vstd::prelude::*;

verus! {

/// A tracked channel.
#[derive(Debug, Clone)]
pub struct Streamer {
    pub id: i64,
    pub name: String,
    pub channel_id: String,
}

pub struct StreamerView {
    pub id: i64,
    pub name: Seq<char>,
    pub channel_id: Seq<char>,
}

impl View for Streamer {
    type V = StreamerView;

    open spec fn view(&self) -> StreamerView {
        StreamerView { id: self.id, name: self.name@, channel_id: self.channel_id@ }
    }
}

impl Streamer {
    /// A field-by-field copy.
    pub fn snapshot(&self) -> (r: Streamer)
        ensures
            r@ == self@,
    {
        Streamer { id: self.id, name: self.name.clone(), channel_id: self.channel_id.clone() }
    }
}

/// Why the registry refused a change.
#[derive(Debug, Clone, Copy, PartialEq, Eq, Structural)]
pub enum RegistryError {
    /// A row with that channel id is already present.
    AlreadyExists,
    /// A row with that surrogate id is already present.
    DuplicateId,
    /// No surrogate id is left to hand out.
    IdsExhausted,
}

/// Whether some row of `rows` has channel id `cid`.
pub open spec fn has_channel(rows: Seq<StreamerView>, cid: Seq<char>) -> bool {
    exists|i: int| 0 <= i < rows.len() && (#[trigger] rows[i]).channel_id == cid
}

/// Whether some row of `rows` has surrogate id `id`.
pub open spec fn has_id(rows: Seq<StreamerView>, id: i64) -> bool {
    exists|i: int| 0 <= i < rows.len() && (#[trigger] rows[i]).id == id
}

/// No two rows share a channel id.
pub open spec fn unique_channels(rows: Seq<StreamerView>) -> bool {
    forall|i: int, j: int|
        0 <= i < j < rows.len() ==> #[trigger] rows[i].channel_id != #[trigger] rows[j].channel_id
}

/// No two rows share a surrogate id.
pub open spec fn unique_ids(rows: Seq<StreamerView>) -> bool {
    forall|i: int, j: int| 0 <= i < j < rows.len() ==> #[trigger] rows[i].id != #[trigger] rows[j].id
}

/// The rows of `rows` whose channel id is not `cid`, in order.
pub open spec fn without_channel(rows: Seq<StreamerView>, cid: Seq<char>) -> Seq<StreamerView> {
    rows.filter(|r: StreamerView| r.channel_id != cid)
}

/// Tracked channels in memory. Rows keep their order of insertion.
pub struct Registry {
    rows: Vec<Streamer>,
    next_id: i64,
}

impl Registry {
    pub closed spec fn view(&self) -> Seq<StreamerView> {
        self.rows@.map_values(|s: Streamer| s@)
    }

    pub closed spec fn spec_next_id(&self) -> i64 {
        self.next_id
    }

    /// Channel ids and surrogate ids are unique; every id is below the next
    /// one to hand out.
    pub closed spec fn wf(&self) -> bool {
        let v = self.view();
        &&& 1 <= self.next_id
        &&& unique_channels(v)
        &&& unique_ids(v)
        &&& forall|i: int| 0 <= i < v.len() ==> #[trigger] v[i].id < self.next_id
    }

    /// An empty registry.
    pub fn new() -> (r: Registry)
        ensures
            r.wf(),
            r.view() == Seq::<StreamerView>::empty(),
            r.spec_next_id() == 1,
    {
        let r = Registry { rows: Vec::new(), next_id: 1 };
        assert(r.view() =~= Seq::<StreamerView>::empty());
        r
    }

    /// Index of the row with channel id `cid`, if any.
    fn find_channel(&self, cid: &String) -> (r: Option<usize>)
        ensures
            match r {
                Some(i) => i < self.view().len() && self.view()[i as int].channel_id == cid@,
                None => !has_channel(self.view(), cid@),
            },
    {
        let mut i: usize = 0;
        while i < self.rows.len()
            invariant
                i <= self.rows.len(),
                forall|k: int| 0 <= k < i ==> (#[trigger] self.view()[k]).channel_id != cid@,
            decreases self.rows.len() - i,
        {
            if self.rows[i].channel_id == *cid {
                return Some(i);
            }
            i = i + 1;
        }
        None
    }

    /// Whether a row has surrogate id `id`.
    fn contains_id(&self, id: i64) -> (r: bool)
        ensures
            r == has_id(self.view(), id),
    {
        let mut i: usize = 0;
        while i < self.rows.len()
            invariant
                i <= self.rows.len(),
                forall|k: int| 0 <= k < i ==> (#[trigger] self.view()[k]).id != id,
            decreases self.rows.len() - i,
        {
            if self.rows[i].id == id {
                assert(self.view()[i as int].id == id);
                return true;
            }
            i = i + 1;
        }
        false
    }

    /// Adds a channel under `name` and returns its new surrogate id. Fails
    /// with `AlreadyExists`, leaving the registry unchanged, when the channel
    /// id is present.
    pub fn add_streamer(&mut self, name: &str, channel_id: &str) -> (r: Result<i64, RegistryError>)
        requires
            old(self).wf(),
        ensures
            final(self).wf(),
            has_channel(old(self).view(), channel_id@) ==> r == Err::<i64, RegistryError>(
                RegistryError::AlreadyExists,
            ),
            !has_channel(old(self).view(), channel_id@) && old(self).spec_next_id() == i64::MAX
                ==> r == Err::<i64, RegistryError>(RegistryError::IdsExhausted),
            r is Err ==> final(self).view() == old(self).view() && final(self).spec_next_id()
                == old(self).spec_next_id(),
            r is Ok <==> !has_channel(old(self).view(), channel_id@) && old(self).spec_next_id()
                < i64::MAX,
            r is Ok ==> r->Ok_0 == old(self).spec_next_id() && final(self).view() == old(
                self,
            ).view().push(StreamerView { id: r->Ok_0, name: name@, channel_id: channel_id@ }),
    {
        let cid = String::from_str(channel_id);
        if self.find_channel(&cid).is_some() {
            return Err(RegistryError::AlreadyExists);
        }
        if self.next_id == i64::MAX {
            return Err(RegistryError::IdsExhausted);
        }
        let id = self.next_id;
        let row = Streamer { id, name: String::from_str(name), channel_id: cid };
        let ghost before = self.view();
        self.rows.push(row);
        self.next_id = id + 1;
        proof {
            assert(self.view() =~= before.push(row@));
            assert forall|i: int| 0 <= i < before.len() implies #[trigger] before[i].channel_id
                != channel_id@ by {
                if before[i].channel_id == channel_id@ {
                    assert(has_channel(before, channel_id@));
                }
            }
        }
        Ok(id)
    }

    /// Puts back a row read from durable storage, keeping its surrogate id.
    /// Fails when its channel id or its surrogate id is already present.
    pub fn restore_streamer(&mut self, row: Streamer) -> (r: Result<(), RegistryError>)
        requires
            old(self).wf(),
        ensures
            final(self).wf(),
            has_channel(old(self).view(), row.channel_id@) ==> r == Err::<(), RegistryError>(
                RegistryError::AlreadyExists,
            ),
            !has_channel(old(self).view(), row.channel_id@) && has_id(old(self).view(), row.id)
                ==> r == Err::<(), RegistryError>(RegistryError::DuplicateId),
            !has_channel(old(self).view(), row.channel_id@) && !has_id(old(self).view(), row.id)
                && row.id == i64::MAX ==> r == Err::<(), RegistryError>(
                RegistryError::IdsExhausted,
            ),
            r is Ok <==> !has_channel(old(self).view(), row.channel_id@) && !has_id(
                old(self).view(),
                row.id,
            ) && row.id < i64::MAX,
            r is Err ==> final(self).view() == old(self).view() && final(self).spec_next_id()
                == old(self).spec_next_id(),
            r is Ok ==> final(self).view() == old(self).view().push(row@),
    {
        if self.find_channel(&row.channel_id).is_some() {
            return Err(RegistryError::AlreadyExists);
        }
        if self.contains_id(row.id) {
            return Err(RegistryError::DuplicateId);
        }
        if row.id == i64::MAX {
            return Err(RegistryError::IdsExhausted);
        }
        let ghost before = self.view();
        let ghost rv = row@;
        if row.id >= self.next_id {
            self.next_id = row.id + 1;
        }
        self.rows.push(row);
        proof {
            assert(self.view() =~= before.push(rv));
            assert forall|i: int| 0 <= i < before.len() implies #[trigger] before[i].channel_id
                != rv.channel_id && before[i].id != rv.id by {
                if before[i].channel_id == rv.channel_id {
                    assert(has_channel(before, rv.channel_id));
                }
                if before[i].id == rv.id {
                    assert(has_id(before, rv.id));
                }
            }
        }
        Ok(())
    }

    /// Removes the row with channel id `channel_id`; returns whether one was
    /// there.
    pub fn remove_streamer(&mut self, channel_id: &str) -> (r: bool)
        requires
            old(self).wf(),
        ensures
            final(self).wf(),
            r == has_channel(old(self).view(), channel_id@),
            final(self).view() == without_channel(old(self).view(), channel_id@),
            final(self).spec_next_id() == old(self).spec_next_id(),
    {
        let cid = String::from_str(channel_id);
        let ghost before = self.view();
        match self.find_channel(&cid) {
            None => {
                proof {
                    assert forall|i: int| 0 <= i < before.len() implies #[trigger] before[i].channel_id
                        != channel_id@ by {
                        if before[i].channel_id == channel_id@ {
                            assert(has_channel(before, channel_id@));
                        }
                    }
                    lemma_filter_keeps_all(before, channel_id@);
                }
                false
            },
            Some(k) => {
                self.rows.remove(k);
                proof {
                    assert(self.view() =~= before.remove(k as int));
                    lemma_filter_drops_one(before, channel_id@, k as int);
                }
                true
            },
        }
    }

    /// The rows at the time of the call.
    pub fn get_streamers(&self) -> (r: Vec<Streamer>)
        requires
            self.wf(),
        ensures
            r@.map_values(|s: Streamer| s@) == self.view(),
            unique_channels(self.view()),
            unique_ids(self.view()),
    {
        let mut out: Vec<Streamer> = Vec::new();
        let mut i: usize = 0;
        while i < self.rows.len()
            invariant
                i <= self.rows.len(),
                out@.map_values(|s: Streamer| s@) == self.view().take(i as int),
            decreases self.rows.len() - i,
        {
            let ghost prev = out@;
            let row = self.rows[i].snapshot();
            out.push(row);
            proof {
                assert(out@ == prev.push(row));
                assert(self.view()[i as int] == self.rows@[i as int]@);
                assert(out@.map_values(|s: Streamer| s@) =~= prev.map_values(|s: Streamer| s@).push(
                    row@,
                ));
                assert(out@.map_values(|s: Streamer| s@) =~= self.view().take(i + 1));
            }
            i = i + 1;
        }
        proof {
            assert(self.view().take(self.rows.len() as int) =~= self.view());
        }
        out
    }

    /// Number of rows.
    pub fn len(&self) -> (r: usize)
        ensures
            r == self.view().len(),
    {
        self.rows.len()
    }
}

proof fn lemma_filter_keeps_all(rows: Seq<StreamerView>, cid: Seq<char>)
    requires
        forall|i: int| 0 <= i < rows.len() ==> #[trigger] rows[i].channel_id != cid,
    ensures
        without_channel(rows, cid) == rows,
    decreases rows.len(),
{
    reveal_with_fuel(Seq::filter, 1);
    if rows.len() > 0 {
        let p = rows.drop_last();
        assert forall|i: int| 0 <= i < p.len() implies #[trigger] p[i].channel_id != cid by {
            assert(p[i] == rows[i]);
        }
        lemma_filter_keeps_all(p, cid);
        assert(p.push(rows.last()) =~= rows);
    }
}

proof fn lemma_filter_drops_one(rows: Seq<StreamerView>, cid: Seq<char>, k: int)
    requires
        0 <= k < rows.len(),
        rows[k].channel_id == cid,
        forall|i: int, j: int|
            0 <= i < j < rows.len() ==> #[trigger] rows[i].channel_id != #[trigger] rows[j].channel_id,
    ensures
        without_channel(rows, cid) == rows.remove(k),
    decreases rows.len(),
{
    reveal_with_fuel(Seq::filter, 1);
    let p = rows.drop_last();
    assert forall|i: int, j: int| 0 <= i < j < p.len() implies #[trigger] p[i].channel_id
        != #[trigger] p[j].channel_id by {
        assert(p[i] == rows[i] && p[j] == rows[j]);
    }
    if k == rows.len() - 1 {
        assert forall|i: int| 0 <= i < p.len() implies #[trigger] p[i].channel_id != cid by {
            assert(p[i] == rows[i]);
        }
        lemma_filter_keeps_all(p, cid);
        assert(rows.remove(k) =~= p);
    } else {
        lemma_filter_drops_one(p, cid, k);
        assert(rows.last().channel_id != cid) by {
            assert(rows[rows.len() - 1] == rows.last());
        }
        assert(rows.remove(k) =~= p.remove(k).push(rows.last()));
    }
}

} // verus!
