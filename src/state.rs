use vstd::prelude::*;
use crate::time::Timestamp;

verus! {

/// What the store knows of one path.
pub struct RecordView {
    pub last_successful_upload: Timestamp,
    pub upload_failed: bool,
    pub last_error: Option<Seq<char>>,
}

/// Delivery state of one path that has been the subject of an upload attempt.
#[derive(Clone, Debug)]
pub struct UploadRecord {
    pub path: String,
    pub last_successful_upload: Timestamp,
    pub upload_failed: bool,
    pub last_error: Option<String>,
}

pub open spec fn opt_view(o: Option<String>) -> Option<Seq<char>> {
    match o {
        Some(s) => Some(s@),
        None => None,
    }
}

impl UploadRecord {
    pub open spec fn record_view(&self) -> RecordView {
        RecordView {
            last_successful_upload: self.last_successful_upload,
            upload_failed: self.upload_failed,
            last_error: opt_view(self.last_error),
        }
    }
}

/// The record left behind by a successful upload at `time`.
pub open spec fn success_record(time: Timestamp) -> RecordView {
    RecordView { last_successful_upload: time, upload_failed: false, last_error: None }
}

/// The record left behind by a failed upload of `path`: the last good time is
/// kept when the path has one, and is `now` for a path never seen before.
pub open spec fn failure_record(
    m: Map<Seq<char>, RecordView>,
    path: Seq<char>,
    error: Seq<char>,
    now: Timestamp,
) -> RecordView {
    RecordView {
        last_successful_upload: if m.contains_key(path) {
            m[path].last_successful_upload
        } else {
            now
        },
        upload_failed: true,
        last_error: Some(error),
    }
}

/// The paths that a store with contents `m` holds as failed.
pub open spec fn failed_set(m: Map<Seq<char>, RecordView>) -> Set<Seq<char>> {
    Set::new(|p: Seq<char>| m.contains_key(p) && m[p].upload_failed)
}

/// The contents after recording, for `path`, one failure per entry of
/// `errors`, the k-th at time `times[k]`.
pub open spec fn after_failures(
    m: Map<Seq<char>, RecordView>,
    path: Seq<char>,
    errors: Seq<Seq<char>>,
    times: Seq<Timestamp>,
) -> Map<Seq<char>, RecordView>
    decreases errors.len(),
{
    if errors.len() == 0 || times.len() == 0 {
        m
    } else {
        let prev = after_failures(m, path, errors.drop_last(), times.drop_last());
        prev.insert(path, failure_record(prev, path, errors.last(), times.last()))
    }
}

/// However many failures a path went through, one success at `t` leaves it
/// not failed, with `t` as its last good time.
pub proof fn lemma_success_after_failures(
    m: Map<Seq<char>, RecordView>,
    path: Seq<char>,
    errors: Seq<Seq<char>>,
    times: Seq<Timestamp>,
    t: Timestamp,
)
    ensures
        ({
            let end = after_failures(m, path, errors, times).insert(path, success_record(t));
            &&& end.contains_key(path)
            &&& !end[path].upload_failed
            &&& end[path].last_successful_upload == t
            &&& end[path].last_error is None
        }),
{
}

/// Failures never move a path's last good time: a path with a record keeps
/// its time, and one without gets the time of its first failure.
pub proof fn lemma_failures_keep_last_success(
    m: Map<Seq<char>, RecordView>,
    path: Seq<char>,
    errors: Seq<Seq<char>>,
    times: Seq<Timestamp>,
)
    requires
        errors.len() == times.len(),
        errors.len() > 0,
    ensures
        ({
            let end = after_failures(m, path, errors, times);
            &&& end.contains_key(path)
            &&& end[path].upload_failed
            &&& end[path].last_error == Some(errors.last())
            &&& m.contains_key(path) ==> end[path].last_successful_upload
                == m[path].last_successful_upload
            &&& !m.contains_key(path) ==> end[path].last_successful_upload == times[0]
        }),
    decreases errors.len(),
{
    if errors.len() > 1 {
        lemma_failures_keep_last_success(m, path, errors.drop_last(), times.drop_last());
    } else {
        assert(after_failures(m, path, errors.drop_last(), times.drop_last()) == m);
    }
}

/// A snapshot sees an update whole: right after a success of `path`, the
/// failed set lacks `path` and agrees with the earlier one on every other path.
pub proof fn lemma_snapshot_after_success(
    m: Map<Seq<char>, RecordView>,
    path: Seq<char>,
    t: Timestamp,
)
    ensures
        !failed_set(m.insert(path, success_record(t))).contains(path),
        forall|q: Seq<char>|
            q != path ==> (failed_set(m.insert(path, success_record(t))).contains(q)
                == failed_set(m).contains(q)),
{
}

/// Likewise for a failure: right after it `path` is failed, and every other
/// path is failed exactly when it was before.
pub proof fn lemma_snapshot_after_failure(
    m: Map<Seq<char>, RecordView>,
    path: Seq<char>,
    error: Seq<char>,
    now: Timestamp,
)
    ensures
        failed_set(m.insert(path, failure_record(m, path, error, now))).contains(path),
        forall|q: Seq<char>|
            q != path ==> (failed_set(m.insert(path, failure_record(m, path, error, now))).contains(
                q,
            ) == failed_set(m).contains(q)),
{
}

/// The paths of `order` that `m` holds as failed, in the order of `order`.
pub open spec fn failed_in(order: Seq<Seq<char>>, m: Map<Seq<char>, RecordView>) -> Seq<Seq<char>>
    decreases order.len(),
{
    if order.len() == 0 {
        Seq::empty()
    } else {
        let prev = failed_in(order.drop_last(), m);
        if m.contains_key(order.last()) && m[order.last()].upload_failed {
            prev.push(order.last())
        } else {
            prev
        }
    }
}

/// The order of paths after recording an attempt on `path`: a new path comes
/// last, a known one keeps its place.
pub open spec fn order_after(
    order: Seq<Seq<char>>,
    m: Map<Seq<char>, RecordView>,
    path: Seq<char>,
) -> Seq<Seq<char>> {
    if m.contains_key(path) {
        order
    } else {
        order.push(path)
    }
}

/// Whether the strings of `v` are pairwise distinct.
pub open spec fn distinct_strings(v: Seq<String>) -> bool {
    forall|i: int, j: int| 0 <= i < j < v.len() ==> v[i]@ != v[j]@
}

/// Per-path delivery state. Records are created on a path's first attempt
/// and are never removed.
///
/// The records sit in a vector, one per path, rather than in a hash map keyed
/// by path: vstd gives `HashMap` its specification only for key types known
/// to obey its key model (integers, `bool`), and `String` is not one of them,
/// so a map keyed by path would leave the store's contents unproved. The ghost map is the model that
/// the contracts speak of.
pub struct UploadStateStore {
    records: Vec<UploadRecord>,
    model: Ghost<Map<Seq<char>, RecordView>>,
}

impl View for UploadStateStore {
    type V = Map<Seq<char>, RecordView>;

    closed spec fn view(&self) -> Map<Seq<char>, RecordView> {
        self.model@
    }
}

impl UploadStateStore {
    /// The store is well formed: one record per path, matching the model, and
    /// every failed record carries its error.
    pub closed spec fn wf(&self) -> bool {
        &&& forall|i: int, j: int|
            0 <= i < j < self.records@.len() ==> self.records@[i].path@ != self.records@[j].path@
        &&& forall|i: int|
            0 <= i < self.records@.len() ==> {
                &&& #[trigger] self.model@.contains_key(self.records@[i].path@)
                &&& self.model@[self.records@[i].path@] == self.records@[i].record_view()
            }
        &&& forall|p: Seq<char>|
            #[trigger] self.model@.contains_key(p) ==> exists|i: int|
                0 <= i < self.records@.len() && self.records@[i].path@ == p
        &&& forall|p: Seq<char>|
            #[trigger] self.model@.contains_key(p) && self.model@[p].upload_failed
                ==> self.model@[p].last_error is Some
    }

    /// Every path the store holds as failed carries its last error.
    pub proof fn lemma_failed_has_error(&self)
        requires
            self.wf(),
        ensures
            forall|p: Seq<char>|
                #[trigger] self@.contains_key(p) && self@[p].upload_failed ==> self@[p].last_error
                    is Some,
    {
    }

    /// The paths the store holds, in the order of their first attempt.
    pub closed spec fn order(&self) -> Seq<Seq<char>> {
        self.records@.map_values(|r: UploadRecord| r.path@)
    }

    pub fn new() -> (r: UploadStateStore)
        ensures
            r.wf(),
            r.order().len() == 0,
            r@ == Map::<Seq<char>, RecordView>::empty(),
    {
        UploadStateStore { records: Vec::new(), model: Ghost(Map::empty()) }
    }

    fn find(&self, path: &String) -> (r: Option<usize>)
        requires
            self.wf(),
        ensures
            match r {
                Some(i) => i < self.records@.len() && self.records@[i as int].path@ == path@,
                None => !self@.contains_key(path@),
            },
    {
        let mut i: usize = 0;
        while i < self.records.len()
            invariant
                i <= self.records@.len(),
                forall|j: int| 0 <= j < i ==> self.records@[j].path@ != path@,
            decreases self.records@.len() - i,
        {
            if self.records[i].path == *path {
                return Some(i);
            }
            i = i + 1;
        }
        None
    }

    /// The record held for `path`, if any attempt on it was recorded.
    pub fn get(&self, path: &String) -> (r: Option<UploadRecord>)
        requires
            self.wf(),
        ensures
            match r {
                Some(rec) => self@.contains_key(path@) && rec.path@ == path@
                    && rec.record_view() == self@[path@],
                None => !self@.contains_key(path@),
            },
    {
        match self.find(path) {
            Some(i) => {
                assert(self.model@.contains_key(self.records@[i as int].path@));
                Some(self.records[i].clone_record())
            },
            None => None,
        }
    }

    /// Inserts or overwrites the record of `path` with `rec`.
    fn put(&mut self, path: &String, rec: UploadRecord)
        requires
            old(self).wf(),
            rec.path@ == path@,
            rec.upload_failed ==> rec.last_error is Some,
        ensures
            final(self).wf(),
            final(self)@ == old(self)@.insert(path@, rec.record_view()),
            final(self).order() == order_after(old(self).order(), old(self)@, path@),
    {
        let ghost new_model = self.model@.insert(path@, rec.record_view());
        match self.find(path) {
            Some(i) => {
                let ghost old_records = self.records@;
                self.records.set(i, rec);
                self.model = Ghost(new_model);
                assert(self.order() =~= old(self).order());
                assert forall|p: Seq<char>| #[trigger] self.model@.contains_key(p) implies exists|
                    j: int,
                | 0 <= j < self.records@.len() && self.records@[j].path@ == p by {
                    if p != path@ {
                        let j = choose|j: int|
                            0 <= j < old_records.len() && old_records[j].path@ == p;
                        assert(self.records@[j].path@ == p);
                    } else {
                        assert(self.records@[i as int].path@ == p);
                    }
                }
            },
            None => {
                let ghost old_records = self.records@;
                self.records.push(rec);
                self.model = Ghost(new_model);
                assert(self.order() =~= old(self).order().push(path@));
                assert forall|p: Seq<char>| #[trigger] self.model@.contains_key(p) implies exists|
                    j: int,
                | 0 <= j < self.records@.len() && self.records@[j].path@ == p by {
                    if p != path@ {
                        let j = choose|j: int|
                            0 <= j < old_records.len() && old_records[j].path@ == p;
                        assert(self.records@[j].path@ == p);
                    } else {
                        assert(self.records@[old_records.len() as int].path@ == p);
                    }
                }
            },
        }
    }

    /// Records a successful upload of `path` at `time`.
    pub fn record_success(&mut self, path: &String, time: Timestamp)
        requires
            old(self).wf(),
        ensures
            final(self).wf(),
            final(self)@ == old(self)@.insert(path@, success_record(time)),
            final(self).order() == order_after(old(self).order(), old(self)@, path@),
    {
        let rec = UploadRecord {
            path: path.clone(),
            last_successful_upload: time,
            upload_failed: false,
            last_error: None,
        };
        self.put(path, rec);
    }

    /// Records a failed upload of `path` with `error`; `now` seeds the last
    /// good time of a path that has no record yet.
    pub fn record_failure(&mut self, path: &String, error: String, now: Timestamp)
        requires
            old(self).wf(),
        ensures
            final(self).wf(),
            final(self)@ == old(self)@.insert(path@, failure_record(old(self)@, path@, error@, now)),
            final(self).order() == order_after(old(self).order(), old(self)@, path@),
    {
        let last = match self.find(path) {
            Some(i) => self.records[i].last_successful_upload,
            None => now,
        };
        let rec = UploadRecord {
            path: path.clone(),
            last_successful_upload: last,
            upload_failed: true,
            last_error: Some(error),
        };
        self.put(path, rec);
    }

    /// A copy of the paths currently marked failed, each once, in the order
    /// of their first attempt.
    pub fn snapshot_failed(&self) -> (r: Vec<String>)
        requires
            self.wf(),
        ensures
            r@.map_values(|s: String| s@) == failed_in(self.order(), self@),
            distinct_strings(r@),
            forall|p: Seq<char>|
                failed_set(self@).contains(p) <==> exists|i: int| 0 <= i < r@.len() && r@[i]@ == p,
    {
        let mut out: Vec<String> = Vec::new();
        let ghost mut src: Seq<int> = Seq::empty();
        let mut i: usize = 0;
        while i < self.records.len()
            invariant
                self.wf(),
                i <= self.records@.len(),
                src.len() == out@.len(),
                forall|k: int|
                    0 <= k < out@.len() ==> {
                        &&& 0 <= #[trigger] src[k] < i
                        &&& self.records@[src[k]].upload_failed
                        &&& out@[k]@ == self.records@[src[k]].path@
                    },
                forall|a: int, b: int| 0 <= a < b < src.len() ==> src[a] < src[b],
                out@.map_values(|s: String| s@) == failed_in(
                    self.order().subrange(0, i as int),
                    self@,
                ),
                forall|j: int|
                    0 <= j < i && #[trigger] self.records@[j].upload_failed ==> exists|k: int|
                        0 <= k < src.len() && src[k] == j,
            decreases self.records@.len() - i,
        {
            proof {
                let o = self.order().subrange(0, i + 1);
                assert(o.drop_last() =~= self.order().subrange(0, i as int));
                assert(o.last() == self.records@[i as int].path@);
                assert(self.model@.contains_key(self.records@[i as int].path@));
            }
            let ghost out_before = out@;
            if self.records[i].upload_failed {
                let p = self.records[i].path.clone();
                out.push(p);
                let ghost old_src = src;
                proof {
                    src = src.push(i as int);
                }
                assert forall|j: int|
                    0 <= j < i + 1 && #[trigger] self.records@[j].upload_failed implies exists|
                    k: int,
                | 0 <= k < src.len() && src[k] == j by {
                    if j == i {
                        assert(src[src.len() - 1] == j);
                    } else {
                        let k = choose|k: int| 0 <= k < old_src.len() && old_src[k] == j;
                        assert(src[k] == j);
                    }
                }
            }
            assert(out@.map_values(|s: String| s@) =~= if self.records@[i as int].upload_failed {
                out_before.map_values(|s: String| s@).push(self.records@[i as int].path@)
            } else {
                out_before.map_values(|s: String| s@)
            });
            i = i + 1;
        }
        assert(self.order().subrange(0, self.records@.len() as int) =~= self.order());
        assert forall|a: int, b: int| 0 <= a < b < out@.len() implies out@[a]@ != out@[b]@ by {
            assert(src[a] < src[b]);
            assert(self.records@[src[a]].path@ != self.records@[src[b]].path@);
        }
        assert forall|p: Seq<char>|
            failed_set(self@).contains(p) <==> exists|k: int|
                0 <= k < out@.len() && out@[k]@ == p by {
            if failed_set(self@).contains(p) {
                let j = choose|j: int| 0 <= j < self.records@.len() && self.records@[j].path@ == p;
                assert(self.model@.contains_key(self.records@[j].path@));
                assert(self.records@[j].upload_failed);
                let k = choose|k: int| 0 <= k < src.len() && src[k] == j;
                assert(out@[k]@ == p);
            }
            if exists|k: int| 0 <= k < out@.len() && out@[k]@ == p {
                let k = choose|k: int| 0 <= k < out@.len() && out@[k]@ == p;
                let j = src[k];
                assert(self.model@.contains_key(self.records@[j].path@));
            }
        }
        out
    }
}

impl UploadRecord {
    fn clone_record(&self) -> (r: UploadRecord)
        ensures
            r.path@ == self.path@,
            r.record_view() == self.record_view(),
    {
        let last_error = match &self.last_error {
            Some(e) => Some(e.clone()),
            None => None,
        };
        UploadRecord {
            path: self.path.clone(),
            last_successful_upload: self.last_successful_upload,
            upload_failed: self.upload_failed,
            last_error,
        }
    }
}

} // verus!
