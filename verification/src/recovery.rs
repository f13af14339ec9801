//! The decisions of the restore passes, over the live store or over a record
//! left by a run that ended abnormally, and of reading that record.

use vstd::prelude::*;

use crate::policy::{is_same_process, same_process};
use crate::store::{
    handle_views, persisted_views, records_of, Handle, HandleView, PersistedHandle, PersistedView,
};
use crate::text::{join, joined, views};

verus! {

broadcast use vstd::string::group_string_axioms;

/// What a restore pass resumes from.
pub enum RestoreSource {
    /// The store of this run's stashed windows.
    LiveStore,
    /// The crash-recovery record of an earlier run.
    OrphanedRecord,
}

/// How a restore pass ended: its result for the caller, and whether the
/// crash-recovery record is to be removed.
pub struct RestoreEnd {
    pub result: Result<(), String>,
    pub clear_record: bool,
}

/// The handles whose process is still the one that was stashed, in order;
/// `current[i]` is the creation time the system now reports for the pid of
/// `handles[i]`.
pub open spec fn alive_handles(handles: Seq<HandleView>, current: Seq<Option<u64>>) -> Seq<
    HandleView,
>
    decreases handles.len(),
{
    if handles.len() == 0 || current.len() == 0 {
        Seq::empty()
    } else {
        let before = alive_handles(handles.drop_last(), current.drop_last());
        if same_process(current.last(), handles.last().start_time) {
            before.push(handles.last())
        } else {
            before
        }
    }
}

/// The process and window of each stashed handle.
pub open spec fn handle_targets(handles: Seq<HandleView>) -> Seq<(u32, isize)> {
    handles.map_values(|h: HandleView| (h.pid, h.hwnd))
}

/// The process and window of each record.
pub open spec fn record_targets(records: Seq<PersistedView>) -> Seq<(u32, isize)> {
    records.map_values(|p: PersistedView| (p.pid, p.hwnd))
}

/// One restore pass in progress: where it resumes from, the processes (with
/// their windows) it resumes, in order, how many it has tried so far, and the
/// reasons of the resumptions that failed, in order.
pub struct RestoreBatch {
    source: RestoreSource,
    targets: Vec<(u32, isize)>,
    next: usize,
    errors: Vec<String>,
}

impl RestoreBatch {
    /// Whether this pass resumes from an earlier run's record.
    pub closed spec fn from_record(&self) -> bool {
        self.source is OrphanedRecord
    }

    /// The processes this pass resumes, each with its window, in order.
    pub closed spec fn targets(&self) -> Seq<(u32, isize)> {
        self.targets@
    }

    /// How many resumptions the pass has accounted for.
    pub closed spec fn attempted(&self) -> nat {
        self.next as nat
    }

    /// The reasons of the failed resumptions so far.
    pub closed spec fn errors(&self) -> Seq<Seq<char>> {
        views(self.errors@)
    }

    /// A pass over the drained live store: it resumes exactly the handles
    /// whose process is still the one that was stashed (a pid that has since
    /// exited or been reused is left alone). `current_start_times[i]` is the
    /// creation time the system now reports for the pid of `drained[i]`.
    pub fn for_store(drained: &[Handle], current_start_times: &[Option<u64>]) -> (b: RestoreBatch)
        requires
            drained@.len() == current_start_times@.len(),
        ensures
            !b.from_record(),
            b.targets() == handle_targets(alive_handles(handle_views(drained@), current_start_times@)),
            b.attempted() == 0,
            b.errors() == Seq::<Seq<char>>::empty(),
    {
        let ghost all = handle_views(drained@);
        let n = drained.len();
        let mut targets: Vec<(u32, isize)> = Vec::new();
        let mut i: usize = 0;
        while i < n
            invariant
                i <= n,
                n == drained@.len(),
                n == current_start_times@.len(),
                all == handle_views(drained@),
                targets@ == handle_targets(
                    alive_handles(all.take(i as int), current_start_times@.take(i as int)),
                ),
            decreases n - i,
        {
            proof {
                assert(all.take(i + 1).drop_last() == all.take(i as int));
                assert(current_start_times@.take(i + 1).drop_last() == current_start_times@.take(
                    i as int,
                ));
                assert(all.take(i + 1).last() == drained@[i as int]@);
                assert(current_start_times@.take(i + 1).last() == current_start_times@[i as int]);
            }
            let h = &drained[i];
            if is_same_process(current_start_times[i], h.start_time) {
                let ghost before = targets@;
                targets.push((h.pid, h.hwnd));
                proof {
                    let prev = alive_handles(all.take(i as int), current_start_times@.take(i as int));
                    assert(handle_targets(prev.push(h@)) =~= before.push((h.pid, h.hwnd)));
                }
            }
            i = i + 1;
        }
        proof {
            assert(all.take(n as int) == all);
            assert(current_start_times@.take(n as int) == current_start_times@);
        }
        let b = RestoreBatch {
            source: RestoreSource::LiveStore,
            targets,
            next: 0,
            errors: Vec::new(),
        };
        proof {
            assert(b.errors() =~= Seq::<Seq<char>>::empty());
        }
        b
    }

    /// A pass over an earlier run's crash-recovery record: it resumes exactly
    /// the recorded processes that are still the ones that were stashed, the
    /// same ones `orphan_report` counts. `current_start_times[i]` is the
    /// creation time the system now reports for the pid of `records[i]`.
    pub fn for_record(records: &[PersistedHandle], current_start_times: &[Option<u64>]) -> (b:
        RestoreBatch)
        requires
            records@.len() == current_start_times@.len(),
        ensures
            b.from_record(),
            b.targets() == record_targets(
                alive_records(persisted_views(records@), current_start_times@),
            ),
            b.attempted() == 0,
            b.errors() == Seq::<Seq<char>>::empty(),
    {
        let ghost all = persisted_views(records@);
        let n = records.len();
        let mut targets: Vec<(u32, isize)> = Vec::new();
        let mut i: usize = 0;
        while i < n
            invariant
                i <= n,
                n == records@.len(),
                n == current_start_times@.len(),
                all == persisted_views(records@),
                targets@ == record_targets(
                    alive_records(all.take(i as int), current_start_times@.take(i as int)),
                ),
            decreases n - i,
        {
            proof {
                assert(all.take(i + 1).drop_last() == all.take(i as int));
                assert(current_start_times@.take(i + 1).drop_last() == current_start_times@.take(
                    i as int,
                ));
                assert(all.take(i + 1).last() == records@[i as int]@);
                assert(current_start_times@.take(i + 1).last() == current_start_times@[i as int]);
            }
            let r = &records[i];
            if is_same_process(current_start_times[i], r.start_time) {
                let ghost before = targets@;
                targets.push((r.pid, r.hwnd));
                proof {
                    let prev = alive_records(all.take(i as int), current_start_times@.take(i as int));
                    assert(record_targets(prev.push(r@)) =~= before.push((r.pid, r.hwnd)));
                }
            }
            i = i + 1;
        }
        proof {
            assert(all.take(n as int) == all);
            assert(current_start_times@.take(n as int) == current_start_times@);
        }
        let b = RestoreBatch {
            source: RestoreSource::OrphanedRecord,
            targets,
            next: 0,
            errors: Vec::new(),
        };
        proof {
            assert(b.errors() =~= Seq::<Seq<char>>::empty());
        }
        b
    }

    /// The next process to resume, with its window, or `None` once every
    /// target has been tried.
    pub fn next_target(&self) -> (t: Option<(u32, isize)>)
        ensures
            self.attempted() < self.targets().len() ==> t == Some(
                self.targets()[self.attempted() as int],
            ),
            self.attempted() >= self.targets().len() ==> t is None,
    {
        if self.next < self.targets.len() {
            Some(self.targets[self.next])
        } else {
            None
        }
    }

    /// Accounts for the resumption of the next target. Only a process that
    /// is running again gets its window shown (the result); a failure's
    /// reason is kept.
    pub fn note_resume(&mut self, resumed: Result<(), String>) -> (show: bool)
        requires
            old(self).attempted() < old(self).targets().len(),
        ensures
            show == resumed is Ok,
            final(self).from_record() == old(self).from_record(),
            final(self).targets() == old(self).targets(),
            final(self).attempted() == old(self).attempted() + 1,
            match resumed {
                Ok(()) => final(self).errors() == old(self).errors(),
                Err(reason) => final(self).errors() == old(self).errors().push(reason@),
            },
    {
        let n = self.targets.len();
        assert(self.next < n);
        self.next = self.next + 1;
        match resumed {
            Ok(()) => true,
            Err(reason) => {
                let ghost before = self.errors();
                let ghost r = reason@;
                self.errors.push(reason);
                proof {
                    assert(self.errors() =~= before.push(r));
                }
                false
            },
        }
    }

    /// Ends the pass, once every target has been tried. It succeeds when no
    /// resumption failed, and otherwise fails with every reason, joined by
    /// "; ". A pass over the live store removes the record only on full
    /// success, since the processes a partial failure leaves suspended are
    /// what the record exists to recover; a pass over an earlier run's record
    /// always removes it.
    pub fn finish(&self) -> (end: RestoreEnd)
        requires
            self.attempted() == self.targets().len(),
        ensures
            end.result is Ok <==> self.errors().len() == 0,
            match end.result {
                Ok(()) => true,
                Err(message) => message@ == joined(self.errors(), "; "@),
            },
            end.clear_record == (self.from_record() || self.errors().len() == 0),
    {
        let clean = self.errors.len() == 0;
        let clear_record = match self.source {
            RestoreSource::OrphanedRecord => true,
            RestoreSource::LiveStore => clean,
        };
        if clean {
            RestoreEnd { result: Ok(()), clear_record }
        } else {
            RestoreEnd { result: Err(join(&self.errors, "; ")), clear_record }
        }
    }
}

/// The records whose process is still the one that was stashed, in order;
/// `current[i]` is the creation time the system now reports for the pid of
/// `records[i]`.
pub open spec fn alive_records(records: Seq<PersistedView>, current: Seq<Option<u64>>) -> Seq<
    PersistedView,
>
    decreases records.len(),
{
    if records.len() == 0 || current.len() == 0 {
        Seq::empty()
    } else {
        let before = alive_records(records.drop_last(), current.drop_last());
        if same_process(current.last(), records.last().start_time) {
            before.push(records.last())
        } else {
            before
        }
    }
}

/// The titles an orphan report previews: those of the first three live
/// records, in order.
pub open spec fn orphan_preview(alive: Seq<PersistedView>) -> Seq<Seq<char>> {
    let first = if alive.len() <= 3 {
        alive
    } else {
        alive.take(3)
    };
    first.map_values(|p: PersistedView| p.title)
}

/// What a check for a leftover crash-recovery record reports: whether one
/// describes live processes, a preview of their titles, how many there are,
/// and whether the record is to be removed.
pub struct OrphanReport {
    pub found: bool,
    pub preview: String,
    pub count: usize,
    pub clear_record: bool,
}

/// Reports on the crash-recovery record `records` left by an earlier run,
/// given `current_start_times[i]`, the creation time the system now reports
/// for the pid of `records[i]` (`None` when it cannot be queried). Only
/// records whose process is still the one that was stashed count. An empty
/// record reports nothing; a record none of whose processes is alive
/// reports nothing and is to be removed, since it no longer describes
/// anything real.
pub fn orphan_report(records: &[PersistedHandle], current_start_times: &[Option<u64>]) -> (r:
    OrphanReport)
    requires
        records@.len() == current_start_times@.len(),
    ensures
        ({
            let alive = alive_records(persisted_views(records@), current_start_times@);
            &&& r.found == (alive.len() > 0)
            &&& r.count == alive.len()
            &&& r.preview@ == joined(orphan_preview(alive), ", "@)
            &&& r.clear_record == (records@.len() > 0 && alive.len() == 0)
        }),
{
    let ghost all = persisted_views(records@);
    let n = records.len();
    let mut titles: Vec<String> = Vec::new();
    let mut count: usize = 0;
    let mut i: usize = 0;
    while i < n
        invariant
            i <= n,
            n == records@.len(),
            n == current_start_times@.len(),
            all == persisted_views(records@),
            count <= i,
            count == alive_records(all.take(i as int), current_start_times@.take(i as int)).len(),
            views(titles@) == orphan_preview(
                alive_records(all.take(i as int), current_start_times@.take(i as int)),
            ),
        decreases n - i,
    {
        let ghost prev = alive_records(all.take(i as int), current_start_times@.take(i as int));
        proof {
            assert(all.take(i + 1).drop_last() == all.take(i as int));
            assert(current_start_times@.take(i + 1).drop_last() == current_start_times@.take(
                i as int,
            ));
            assert(all.take(i + 1).last() == records@[i as int]@);
            assert(current_start_times@.take(i + 1).last() == current_start_times@[i as int]);
        }
        let rec = &records[i];
        if is_same_process(current_start_times[i], rec.start_time) {
            let ghost next = prev.push(rec@);
            let ghost before_titles = views(titles@);
            if titles.len() < 3 {
                titles.push(rec.title.clone());
                proof {
                    assert(views(titles@) =~= before_titles.push(rec@.title));
                    assert(next.take(next.len() as int) == next);
                    assert(orphan_preview(next) =~= orphan_preview(prev).push(rec@.title));
                }
            } else {
                proof {
                    assert(orphan_preview(prev).len() == titles@.len());
                    assert(prev.len() >= 3);
                    assert(next.take(3) =~= prev.take(3));
                }
            }
            count = count + 1;
        }
        i = i + 1;
    }
    proof {
        assert(all.take(n as int) == all);
        assert(current_start_times@.take(n as int) == current_start_times@);
    }
    let preview = join(&titles, ", ");
    OrphanReport { found: count > 0, preview, count, clear_record: n > 0 && count == 0 }
}

/// What reading the crash-recovery record came to.
pub enum RecordRead {
    /// There is no place to keep the record (no local data directory).
    NoLocation,
    /// No record exists: the normal state when nothing is stashed.
    Missing,
    /// A record exists but could not be read.
    Unreadable,
    /// A record was read but does not parse.
    Malformed,
    /// The record's entries.
    Parsed(Vec<PersistedHandle>),
}

/// The entries a read of the record yields, and whether the file is to be
/// moved aside. A record that exists but cannot be read or parsed is moved
/// aside rather than silently taken for "nothing stashed"; either way it
/// yields no entries.
pub fn settle_record_read(read: RecordRead) -> (r: (Vec<PersistedHandle>, bool))
    ensures
        r.1 == (read is Unreadable || read is Malformed),
        match read {
            RecordRead::Parsed(entries) => r.0@ == entries@,
            _ => r.0@.len() == 0,
        },
{
    match read {
        RecordRead::Parsed(entries) => (entries, false),
        RecordRead::Unreadable => (Vec::new(), true),
        RecordRead::Malformed => (Vec::new(), true),
        RecordRead::NoLocation => (Vec::new(), false),
        RecordRead::Missing => (Vec::new(), false),
    }
}

/// A record written for a store, checked while every stashed process is
/// still the one that was stashed, is offered in full: nothing of it is
/// dropped as exited or recycled.
pub proof fn record_of_live_stash_is_offered_in_full(
    store: Seq<HandleView>,
    current: Seq<Option<u64>>,
)
    requires
        current.len() == store.len(),
        forall|i: int| 0 <= i < store.len() ==> #[trigger] current[i] == Some(store[i].start_time),
    ensures
        alive_records(records_of(store), current) == records_of(store),
    decreases store.len(),
{
    if store.len() > 0 {
        let s = store.drop_last();
        let c = current.drop_last();
        assert forall|i: int| 0 <= i < s.len() implies #[trigger] c[i] == Some(s[i].start_time) by {
            assert(c[i] == current[i]);
        }
        record_of_live_stash_is_offered_in_full(s, c);
        assert(records_of(store).drop_last() =~= records_of(s));
        assert(current.last() == Some(store.last().start_time));
        assert(records_of(store) =~= records_of(s).push(records_of(store).last()));
    }
}

/// An orphan check and an orphan resume made on the same record and the
/// same process states agree: the resume pass resumes exactly the processes
/// (with their windows) of the records the check counts and previews, so it
/// tries as many resumptions as the check reported, and none when the check
/// found nothing.
pub proof fn orphan_check_and_resume_agree(
    records: Seq<PersistedView>,
    current: Seq<Option<u64>>,
)
    ensures
        record_targets(alive_records(records, current)).len() == alive_records(
            records,
            current,
        ).len(),
        forall|i: int|
            0 <= i < alive_records(records, current).len() ==> #[trigger] record_targets(
                alive_records(records, current),
            )[i] == (alive_records(records, current)[i].pid, alive_records(records, current)[i].hwnd),
{
}

/// The restore targets of a store, one handle at a time: a further handle
/// is targeted exactly when its process is still the one that was stashed,
/// after all the earlier targets and whatever pids they have; the others
/// are left alone.
pub proof fn live_handle_step(h: Seq<HandleView>, c: Seq<Option<u64>>, x: HandleView, t: Option<u64>)
    ensures
        alive_handles(Seq::empty(), c) == Seq::<HandleView>::empty(),
        same_process(t, x.start_time) ==> alive_handles(h.push(x), c.push(t)) == alive_handles(
            h,
            c,
        ).push(x),
        !same_process(t, x.start_time) ==> alive_handles(h.push(x), c.push(t)) == alive_handles(
            h,
            c,
        ),
{
    assert(h.push(x).drop_last() == h);
    assert(c.push(t).drop_last() == c);
}

/// The live records, one record at a time: a further record counts exactly
/// when its process is still the one that was stashed; a record whose pid
/// exited or was reused never changes which other records count.
pub proof fn live_record_step(r: Seq<PersistedView>, c: Seq<Option<u64>>, x: PersistedView, t: Option<u64>)
    ensures
        alive_records(Seq::empty(), c) == Seq::<PersistedView>::empty(),
        same_process(t, x.start_time) ==> alive_records(r.push(x), c.push(t)) == alive_records(
            r,
            c,
        ).push(x),
        !same_process(t, x.start_time) ==> alive_records(r.push(x), c.push(t)) == alive_records(
            r,
            c,
        ),
{
    assert(r.push(x).drop_last() == r);
    assert(c.push(t).drop_last() == c);
}

/// Each restore target is the process and the window of its handle, in
/// the handles' order.
pub proof fn targets_are_pid_and_window(h: Seq<HandleView>, r: Seq<PersistedView>)
    ensures
        handle_targets(h).len() == h.len(),
        forall|i: int| 0 <= i < h.len() ==> #[trigger] handle_targets(h)[i] == (h[i].pid, h[i].hwnd),
        record_targets(r).len() == r.len(),
        forall|i: int| 0 <= i < r.len() ==> #[trigger] record_targets(r)[i] == (r[i].pid, r[i].hwnd),
{
}

/// An orphan report previews the titles of the first live records, in
/// order, at most three of them.
pub proof fn orphan_preview_is_the_first_titles(alive: Seq<PersistedView>)
    ensures
        orphan_preview(alive).len() == if alive.len() < 3 {
            alive.len()
        } else {
            3
        },
        forall|i: int| 0 <= i < orphan_preview(alive).len() ==> #[trigger] orphan_preview(alive)[i] == alive[i].title,
{
}

} // verus!
