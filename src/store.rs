use vstd::prelude::*;
use crate::ledger::{has_id, lemma_lookup_at, lemma_lookup_insert, lemma_lookup_remove, lemma_lookup_update, lookup, newest_first, records, unique_ids};
use crate::state::TaskState;
use crate::task::{now_millis, transitioned, PersistedTask, TaskRecord, strings_view};

verus! {

/// Minimum time between two writes of the ledger file, in milliseconds.
pub const SAVE_DEBOUNCE_MS: u64 = 1500;

/// What the caller of a save request has to do.
#[derive(Debug, Clone, Copy, PartialEq, Eq, Structural)]
pub enum SaveAction {
    /// Snapshot the ledger and write it now.
    WriteNow,
    /// Start one deferred writer that fires after `delay_ms` and then asks
    /// [`TaskStore::deferred_fire`] whether to write.
    ScheduleDeferred { delay_ms: u64 },
    /// A deferred writer is already on its way and will pick this change up.
    Coalesced,
}

/// Debounce bookkeeping of the ledger file.
#[derive(Debug, Clone, Copy, PartialEq, Eq, Structural)]
pub struct SaveTimer {
    pub last_save_time: u64,
    pub trailing_pending: bool,
    pub trailing_scheduled: bool,
}

/// The timer and the action after a save request at `now`.
pub open spec fn save_step(d: SaveTimer, now: u64) -> (SaveTimer, SaveAction) {
    let elapsed: int = if now >= d.last_save_time { now - d.last_save_time } else { 0 };
    if elapsed < SAVE_DEBOUNCE_MS {
        if d.trailing_scheduled {
            (SaveTimer { trailing_pending: true, ..d }, SaveAction::Coalesced)
        } else {
            (
                SaveTimer { trailing_pending: true, trailing_scheduled: true, ..d },
                SaveAction::ScheduleDeferred { delay_ms: SAVE_DEBOUNCE_MS },
            )
        }
    } else {
        (
            SaveTimer { last_save_time: now, trailing_pending: false, trailing_scheduled: false },
            SaveAction::WriteNow,
        )
    }
}

/// The timer, and whether to write, when a deferred writer fires at `now`.
pub open spec fn fire_step(d: SaveTimer, now: u64) -> (SaveTimer, bool) {
    if d.trailing_pending {
        (SaveTimer { last_save_time: now, trailing_pending: false, trailing_scheduled: false }, true)
    } else {
        (SaveTimer { trailing_scheduled: false, ..d }, false)
    }
}

/// A run of save requests at the given times; the timer after it and the last action.
pub open spec fn save_run(d: SaveTimer, times: Seq<u64>) -> (SaveTimer, SaveAction)
    decreases times.len(),
{
    if times.len() == 0 {
        (d, SaveAction::Coalesced)
    } else {
        let prev = save_run(d, times.drop_last()).0;
        save_step(prev, times.last())
    }
}

/// A change is never left unwritten: a timer with no pending change, or one whose pending
/// change has a deferred writer on its way.
pub open spec fn timer_sound(d: SaveTimer) -> bool {
    d.trailing_pending ==> d.trailing_scheduled
}

/// Durability of debounced saves: after any run of save requests, however close together,
/// either the last one wrote at once or a deferred writer is on its way with a pending
/// change, and that writer, when it fires, writes a snapshot taken at that moment, that is
/// after the last request.
pub proof fn lemma_save_run_durable(d: SaveTimer, times: Seq<u64>, fire_at: u64)
    requires
        times.len() > 0,
        timer_sound(d),
    ensures
        save_run(d, times).1 is WriteNow || (save_run(d, times).0.trailing_pending
            && save_run(d, times).0.trailing_scheduled),
        timer_sound(save_run(d, times).0),
        save_run(d, times).0.trailing_pending ==> fire_step(save_run(d, times).0, fire_at).1,
        timer_sound(fire_step(save_run(d, times).0, fire_at).0),
    decreases times.len(),
{
    if times.len() > 1 {
        lemma_save_run_durable(d, times.drop_last(), fire_at);
    }
}

/// `after` is `before` with the record `gid`, if tracked, moved to `state` at `now`.
pub open spec fn state_moved(
    before: Seq<TaskRecord>,
    after: Seq<TaskRecord>,
    gid: Seq<char>,
    state: TaskState,
    now: i64,
) -> bool {
    forall|g: Seq<char>| #[trigger]
        lookup(after, g) == match lookup(before, g) {
            Some(r) => if g == gid {
                Some(transitioned(r, state, now))
            } else {
                Some(r)
            },
            None => None,
        }
}

/// The set of tracked transfers, keyed by id and kept newest first, with the debounce
/// state of its file.
pub struct TaskStore {
    pub tasks: Vec<PersistedTask>,
    pub timer: SaveTimer,
}

impl TaskStore {
    pub open spec fn recs(&self) -> Seq<TaskRecord> {
        records(self.tasks@)
    }

    pub open spec fn wf(&self) -> bool {
        unique_ids(self.recs()) && newest_first(self.recs()) && timer_sound(self.timer)
    }

    /// The record with id `g`, if tracked.
    pub open spec fn spec_get(&self, g: Seq<char>) -> Option<TaskRecord> {
        lookup(self.recs(), g)
    }

    pub fn new() -> (r: TaskStore)
        ensures
            r.wf(),
            r.recs() == Seq::<TaskRecord>::empty(),
            r.timer == (SaveTimer { last_save_time: 0, trailing_pending: false, trailing_scheduled: false }),
    {
        let r = TaskStore {
            tasks: Vec::new(),
            timer: SaveTimer { last_save_time: 0, trailing_pending: false, trailing_scheduled: false },
        };
        assert(r.recs() =~= Seq::<TaskRecord>::empty());
        r
    }

    fn index_of(&self, gid: &str) -> (r: Option<usize>)
        ensures
            match r {
                Some(i) => i < self.tasks@.len() && self.recs()[i as int].gid == gid@,
                None => !has_id(self.recs(), gid@),
            },
    {
        let mut i: usize = 0;
        while i < self.tasks.len()
            invariant
                i <= self.tasks@.len(),
                forall|k: int| 0 <= k < i ==> self.recs()[k].gid != gid@,
            decreases self.tasks@.len() - i,
        {
            if crate::state::str_equal(self.tasks[i].gid.as_str(), gid) {
                return Some(i);
            }
            i += 1;
        }
        None
    }

    /// Index at which a record added at `added_at` keeps the list newest first.
    fn insert_position(&self, added_at: i64) -> (p: usize)
        requires
            newest_first(self.recs()),
        ensures
            p <= self.tasks@.len(),
            forall|k: int| 0 <= k < p ==> self.recs()[k].added_at >= added_at,
            forall|k: int| p <= k < self.tasks@.len() ==> self.recs()[k].added_at < added_at,
    {
        let mut i: usize = 0;
        while i < self.tasks.len()
            invariant
                i <= self.tasks@.len(),
                newest_first(self.recs()),
                forall|k: int| 0 <= k < i ==> self.recs()[k].added_at >= added_at,
            decreases self.tasks@.len() - i,
        {
            if self.tasks[i].added_at < added_at {
                assert forall|k: int| i <= k < self.tasks@.len() implies self.recs()[k].added_at
                    < added_at by {
                    assert(self.recs()[i as int].added_at >= self.recs()[k].added_at || k == i);
                }
                return i;
            }
            i += 1;
        }
        i
    }

    /// Tracks `task`, replacing any record with its id.
    pub fn add_task(&mut self, task: PersistedTask)
        requires
            old(self).wf(),
        ensures
            final(self).wf(),
            final(self).timer == old(self).timer,
            forall|g: Seq<char>| #[trigger]
                final(self).spec_get(g) == if g == task.gid@ {
                    Some(task@)
                } else {
                    old(self).spec_get(g)
                },
    {
        let ghost r = task@;
        match self.index_of(task.gid.as_str()) {
            Some(i) => {
                proof {
                    lemma_lookup_remove(self.recs(), i as int);
                }
                self.tasks.remove(i);
                assert(self.recs() =~= records(old(self).tasks@).remove(i as int));
            },
            None => {},
        }
        let ghost mid = self.recs();
        assert(!has_id(mid, r.gid));
        let p = self.insert_position(task.added_at);
        self.tasks.insert(p, task);
        assert(self.recs() =~= mid.insert(p as int, r));
        proof {
            lemma_lookup_insert(mid, p as int, r);
            let t = mid.insert(p as int, r);
            assert forall|a: int, b: int| 0 <= a < b < t.len() implies t[a].added_at
                >= t[b].added_at by {
                if a < p && b < p {
                } else if a < p && b == p {
                } else if a < p {
                    assert(t[b] == mid[b - 1]);
                } else if a == p {
                    assert(t[b] == mid[b - 1]);
                } else {
                    assert(t[a] == mid[a - 1] && t[b] == mid[b - 1]);
                }
            }
        }
    }

    /// A copy of the record with id `gid`.
    pub fn get_task(&self, gid: &str) -> (r: Option<PersistedTask>)
        requires
            self.wf(),
        ensures
            match r {
                Some(t) => self.spec_get(gid@) == Some(t@),
                None => self.spec_get(gid@) is None,
            },
    {
        match self.index_of(gid) {
            Some(i) => {
                proof {
                    lemma_lookup_at(self.recs(), i as int);
                }
                Some(self.tasks[i].duplicate())
            },
            None => None,
        }
    }

    /// Replaces the record at `i` by one with the same id and time of addition.
    fn set_at(&mut self, i: usize, t: PersistedTask)
        requires
            old(self).wf(),
            i < old(self).tasks@.len(),
            t@.gid == old(self).recs()[i as int].gid,
            t@.added_at == old(self).recs()[i as int].added_at,
        ensures
            final(self).wf(),
            final(self).timer == old(self).timer,
            final(self).recs() == old(self).recs().update(i as int, t@),
            final(self).tasks@.len() == old(self).tasks@.len(),
            forall|g: Seq<char>| #[trigger]
                final(self).spec_get(g) == if g == t@.gid {
                    Some(t@)
                } else {
                    old(self).spec_get(g)
                },
    {
        let ghost r = t@;
        proof {
            lemma_lookup_update(self.recs(), i as int, r);
        }
        self.tasks.set(i, t);
        assert(self.recs() =~= records(old(self).tasks@).update(i as int, r));
    }

    /// Moves the record with id `gid` to `state` at time `now`.
    pub fn update_task_state_at(&mut self, gid: &str, state: TaskState, now: i64)
        requires
            old(self).wf(),
        ensures
            final(self).wf(),
            final(self).timer == old(self).timer,
            state_moved(old(self).recs(), final(self).recs(), gid@, state, now),
    {
        match self.index_of(gid) {
            Some(i) => {
                proof {
                    lemma_lookup_at(self.recs(), i as int);
                }
                let mut t = self.tasks[i].duplicate();
                t.transition_state_at(state, now);
                self.set_at(i, t);
                assert forall|g: Seq<char>| #[trigger] lookup(self.recs(), g) == match lookup(
                    old(self).recs(),
                    g,
                ) {
                    Some(r) => if g == gid@ {
                        Some(transitioned(r, state, now))
                    } else {
                        Some(r)
                    },
                    None => None,
                } by {
                    assert(self.spec_get(g) == lookup(self.recs(), g));
                    assert(old(self).spec_get(g) == lookup(old(self).recs(), g));
                }
            },
            None => {},
        }
    }

    /// Moves the record with id `gid` to `state`, stamped with the current time.
    pub fn update_task_state(&mut self, gid: &str, state: TaskState)
        requires
            old(self).wf(),
        ensures
            final(self).wf(),
            final(self).timer == old(self).timer,
            exists|now: i64| #[trigger] state_moved(old(self).recs(), final(self).recs(), gid@, state, now),
    {
        let now = now_millis();
        self.update_task_state_at(gid, state, now);
    }

    /// Renames the file of the record with id `gid`.
    pub fn update_filename(&mut self, gid: &str, filename: &str)
        requires
            old(self).wf(),
        ensures
            final(self).wf(),
            final(self).timer == old(self).timer,
            forall|g: Seq<char>| #[trigger]
                final(self).spec_get(g) == match old(self).spec_get(g) {
                    Some(r) => if g == gid@ {
                        Some(TaskRecord { filename: filename@, ..r })
                    } else {
                        Some(r)
                    },
                    None => None,
                },
    {
        match self.index_of(gid) {
            Some(i) => {
                proof {
                    lemma_lookup_at(self.recs(), i as int);
                }
                let mut t = self.tasks[i].duplicate();
                t.filename = filename.to_owned();
                assert(t@ == TaskRecord { filename: filename@, ..self.recs()[i as int] });
                self.set_at(i, t);
            },
            None => {},
        }
    }

    /// Writes back live progress for the record with id `gid`; the state goes through
    /// the one transition rule, at time `now`.
    pub fn update_from_aria2_at(
        &mut self,
        gid: &str,
        state: TaskState,
        completed: u64,
        speed: u64,
        total: u64,
        now: i64,
    )
        requires
            old(self).wf(),
        ensures
            final(self).wf(),
            final(self).timer == old(self).timer,
            forall|g: Seq<char>| #[trigger]
                final(self).spec_get(g) == match old(self).spec_get(g) {
                    Some(r) => if g == gid@ {
                        Some(
                            TaskRecord {
                                completed_length: completed,
                                download_speed: speed,
                                total_length: total,
                                ..transitioned(r, state, now)
                            },
                        )
                    } else {
                        Some(r)
                    },
                    None => None,
                },
    {
        match self.index_of(gid) {
            Some(i) => {
                proof {
                    lemma_lookup_at(self.recs(), i as int);
                }
                let mut t = self.tasks[i].duplicate();
                t.transition_state_at(state, now);
                t.completed_length = completed;
                t.download_speed = speed;
                t.total_length = total;
                self.set_at(i, t);
            },
            None => {},
        }
    }

    /// Writes back live progress for the record with id `gid`, stamped with the current
    /// time.
    pub fn update_from_aria2(&mut self, gid: &str, state: TaskState, completed: u64, speed: u64, total: u64)
        requires
            old(self).wf(),
        ensures
            final(self).wf(),
            final(self).timer == old(self).timer,
            forall|g: Seq<char>| g != gid@ ==> #[trigger] final(self).spec_get(g) == old(self).spec_get(g),
            (final(self).spec_get(gid@) is Some) == (old(self).spec_get(gid@) is Some),
            final(self).spec_get(gid@) matches Some(r) ==> r.completed_length == completed && r.download_speed
                == speed && r.total_length == total && r.state == state,
    {
        let now = now_millis();
        self.update_from_aria2_at(gid, state, completed, speed, total, now);
    }

    /// Copies of all records, newest first.
    pub fn get_all(&self) -> (r: Vec<PersistedTask>)
        requires
            self.wf(),
        ensures
            records(r@) == self.recs(),
            newest_first(records(r@)),
            unique_ids(records(r@)),
    {
        let mut r: Vec<PersistedTask> = Vec::new();
        let mut i: usize = 0;
        while i < self.tasks.len()
            invariant
                i <= self.tasks@.len(),
                r@.len() == i,
                records(r@) == self.recs().subrange(0, i as int),
            decreases self.tasks@.len() - i,
        {
            let t = self.tasks[i].duplicate();
            let ghost before = r@;
            r.push(t);
            assert(r@ == before.push(t));
            assert(records(r@)[i as int] == self.recs()[i as int]);
            i += 1;
            assert(records(r@) =~= self.recs().subrange(0, i as int));
        }
        assert(self.recs().subrange(0, i as int) =~= self.recs());
        r
    }

    /// Stops tracking `gid`; returns whether it was tracked.
    pub fn remove_task(&mut self, gid: &str) -> (removed: bool)
        requires
            old(self).wf(),
        ensures
            final(self).wf(),
            final(self).timer == old(self).timer,
            removed == (old(self).spec_get(gid@) is Some),
            forall|g: Seq<char>| #[trigger]
                final(self).spec_get(g) == if g == gid@ {
                    None
                } else {
                    old(self).spec_get(g)
                },
    {
        match self.index_of(gid) {
            Some(i) => {
                proof {
                    lemma_lookup_remove(self.recs(), i as int);
                    lemma_lookup_at(self.recs(), i as int);
                }
                self.tasks.remove(i);
                assert(self.recs() =~= records(old(self).tasks@).remove(i as int));
                true
            },
            None => false,
        }
    }
}

/// Ids of `gs`, in order and once each, that `s` tracks.
pub open spec fn removed_ids(s: Seq<TaskRecord>, gs: Seq<Seq<char>>) -> Seq<Seq<char>>
    decreases gs.len(),
{
    if gs.len() == 0 {
        Seq::empty()
    } else {
        let p = removed_ids(s, gs.drop_last());
        if has_id(s, gs.last()) && !gs.drop_last().contains(gs.last()) {
            p.push(gs.last())
        } else {
            p
        }
    }
}

/// File names of the records, in ledger order, leaving out empty ones.
pub open spec fn nonempty_names(s: Seq<TaskRecord>) -> Seq<Seq<char>>
    decreases s.len(),
{
    if s.len() == 0 {
        Seq::empty()
    } else if s.last().filename.len() == 0 {
        nonempty_names(s.drop_last())
    } else {
        nonempty_names(s.drop_last()).push(s.last().filename)
    }
}

/// The last record of `s` with id `g`.
pub open spec fn last_with_id(s: Seq<TaskRecord>, g: Seq<char>) -> Option<TaskRecord>
    decreases s.len(),
{
    if s.len() == 0 {
        None
    } else if s.last().gid == g {
        Some(s.last())
    } else {
        last_with_id(s.drop_last(), g)
    }
}

/// Every waiting or active record of `s` moved to `Paused` at `now`.
pub open spec fn all_paused(s: Seq<TaskRecord>, now: i64) -> Seq<TaskRecord> {
    s.map_values(|r: TaskRecord| paused_one(r, now))
}

pub open spec fn paused_one(r: TaskRecord, now: i64) -> TaskRecord {
    if r.state is Active || r.state is Waiting {
        transitioned(r, TaskState::Paused, now)
    } else {
        r
    }
}

/// A paused record moved back to `Waiting`; others unchanged.
pub open spec fn waiting_one(r: TaskRecord) -> TaskRecord {
    if r.state is Paused {
        TaskRecord { state: TaskState::Waiting, completed_at: None, ..r }
    } else {
        r
    }
}

/// `after` is `before` with every tracked id of `gs` moved to `state` at `now`.
pub open spec fn batch_moved(
    before: Seq<TaskRecord>,
    after: Seq<TaskRecord>,
    gs: Seq<Seq<char>>,
    state: TaskState,
    now: i64,
) -> bool {
    forall|g: Seq<char>| #[trigger]
        lookup(after, g) == match lookup(before, g) {
            Some(r) => if gs.contains(g) {
                Some(transitioned(r, state, now))
            } else {
                Some(r)
            },
            None => None,
        }
}

/// The record that takes over from `r` once it is submitted again under `new_gid` at
/// `now`: same file, source and retry context, no progress, waiting.
pub open spec fn resubmitted(r: TaskRecord, new_gid: Seq<char>, now: i64) -> TaskRecord {
    TaskRecord {
        gid: new_gid,
        state: TaskState::Waiting,
        added_at: now,
        total_length: 0,
        completed_length: 0,
        download_speed: 0,
        completed_at: None,
        ..r
    }
}

/// `after` is `before` once the record `old_gid` has been submitted again as `new_gid`.
pub open spec fn resume_replaced(
    before: Seq<TaskRecord>,
    after: Seq<TaskRecord>,
    old_gid: Seq<char>,
    new_gid: Seq<char>,
    now: i64,
) -> bool {
    lookup(before, old_gid) is Some && forall|g: Seq<char>| #[trigger]
        lookup(after, g) == if g == new_gid {
            Some(resubmitted(lookup(before, old_gid).unwrap(), new_gid, now))
        } else if g == old_gid {
            None
        } else {
            lookup(before, g)
        }
}

/// Smart resume keeps the lineage: once a tracked task is submitted again under a new id,
/// the ledger holds one entry under the new id, waiting, with no progress and no stamp, for
/// the same file, source and folder, and nothing under the old id.
pub proof fn lemma_smart_resume_continuity(
    before: Seq<TaskRecord>,
    after: Seq<TaskRecord>,
    old_gid: Seq<char>,
    new_gid: Seq<char>,
    now: i64,
)
    requires
        resume_replaced(before, after, old_gid, new_gid, now),
        new_gid != old_gid,
    ensures
        lookup(after, old_gid) is None,
        lookup(after, new_gid) is Some,
        lookup(after, new_gid).unwrap().gid != old_gid,
        lookup(after, new_gid).unwrap().state == TaskState::Waiting,
        lookup(after, new_gid).unwrap().completed_length == 0,
        lookup(after, new_gid).unwrap().total_length == 0,
        lookup(after, new_gid).unwrap().download_speed == 0,
        lookup(after, new_gid).unwrap().completed_at is None,
        lookup(after, new_gid).unwrap().filename == lookup(before, old_gid).unwrap().filename,
        lookup(after, new_gid).unwrap().url == lookup(before, old_gid).unwrap().url,
        lookup(after, new_gid).unwrap().save_path == lookup(before, old_gid).unwrap().save_path,
{
    assert(lookup(after, old_gid) is None);
    assert(lookup(after, new_gid) == Some(
        resubmitted(lookup(before, old_gid).unwrap(), new_gid, now),
    ));
}

impl TaskStore {
    /// Stores every record of `updated`; a later one wins over an earlier one with its id.
    pub fn update_all(&mut self, updated: Vec<PersistedTask>)
        requires
            old(self).wf(),
        ensures
            final(self).wf(),
            final(self).timer == old(self).timer,
            forall|g: Seq<char>| #[trigger]
                final(self).spec_get(g) == match last_with_id(records(updated@), g) {
                    Some(r) => Some(r),
                    None => old(self).spec_get(g),
                },
    {
        let mut i: usize = 0;
        while i < updated.len()
            invariant
                self.wf(),
                self.timer == old(self).timer,
                i <= updated@.len(),
                forall|g: Seq<char>| #[trigger]
                    self.spec_get(g) == match last_with_id(
                        records(updated@).subrange(0, i as int),
                        g,
                    ) {
                        Some(r) => Some(r),
                        None => old(self).spec_get(g),
                    },
            decreases updated@.len() - i,
        {
            let t = updated[i].duplicate();
            let ghost prev = *self;
            self.add_task(t);
            proof {
                let pre = records(updated@).subrange(0, i as int);
                let nxt = records(updated@).subrange(0, i + 1);
                assert(nxt.drop_last() =~= pre);
                assert(nxt.last() == updated@[i as int]@);
            }
            i += 1;
        }
        assert(records(updated@).subrange(0, i as int) =~= records(updated@));
    }

    /// Moves every tracked id of `gids` to `state` at `now`; the caller saves once after.
    pub fn update_batch_state_at(&mut self, gids: &Vec<String>, state: TaskState, now: i64)
        requires
            old(self).wf(),
        ensures
            final(self).wf(),
            final(self).timer == old(self).timer,
            batch_moved(old(self).recs(), final(self).recs(), strings_view(gids@), state, now),
    {
        let mut i: usize = 0;
        while i < gids.len()
            invariant
                self.wf(),
                self.timer == old(self).timer,
                i <= gids@.len(),
                batch_moved(
                    old(self).recs(),
                    self.recs(),
                    strings_view(gids@).subrange(0, i as int),
                    state,
                    now,
                ),
            decreases gids@.len() - i,
        {
            let ghost prev = self.recs();
            self.update_task_state_at(gids[i].as_str(), state, now);
            proof {
                let pre = strings_view(gids@).subrange(0, i as int);
                let nxt = strings_view(gids@).subrange(0, i + 1);
                assert(nxt =~= pre.push(gids@[i as int]@));
                assert forall|g: Seq<char>| #[trigger]
                    lookup(self.recs(), g) == match lookup(old(self).recs(), g) {
                        Some(r) => if nxt.contains(g) {
                            Some(transitioned(r, state, now))
                        } else {
                            Some(r)
                        },
                        None => None,
                    } by {
                    assert(lookup(prev, g) == match lookup(old(self).recs(), g) {
                        Some(r) => if pre.contains(g) {
                            Some(transitioned(r, state, now))
                        } else {
                            Some(r)
                        },
                        None => None,
                    });
                    if g == gids@[i as int]@ {
                        assert(nxt.contains(g) == true) by {
                            assert(nxt[i as int] == g);
                        }
                    } else {
                        assert(nxt.contains(g) == pre.contains(g)) by {
                            if nxt.contains(g) {
                                let k = choose|k: int| 0 <= k < nxt.len() && nxt[k] == g;
                                assert(pre[k] == g);
                            }
                            if pre.contains(g) {
                                let k = choose|k: int| 0 <= k < pre.len() && pre[k] == g;
                                assert(nxt[k] == g);
                            }
                        }
                    }
                }
            }
            i += 1;
        }
        assert(strings_view(gids@).subrange(0, i as int) =~= strings_view(gids@));
    }

    /// Moves every tracked id of `gids` to `state`, stamped with the current time; the
    /// caller saves once after.
    pub fn update_batch_state(&mut self, gids: &Vec<String>, state: TaskState)
        requires
            old(self).wf(),
        ensures
            final(self).wf(),
            final(self).timer == old(self).timer,
            exists|now: i64| #[trigger]
                batch_moved(old(self).recs(), final(self).recs(), strings_view(gids@), state, now),
    {
        let now = now_millis();
        self.update_batch_state_at(gids, state, now);
    }

    /// Stops tracking every id of `gids`; returns those that were tracked, in order and
    /// once each. The caller saves once after.
    pub fn remove_tasks_batch(&mut self, gids: &Vec<String>) -> (removed: Vec<String>)
        requires
            old(self).wf(),
        ensures
            final(self).wf(),
            final(self).timer == old(self).timer,
            strings_view(removed@) == removed_ids(old(self).recs(), strings_view(gids@)),
            forall|g: Seq<char>| #[trigger]
                final(self).spec_get(g) == if strings_view(gids@).contains(g) {
                    None
                } else {
                    old(self).spec_get(g)
                },
    {
        let mut removed: Vec<String> = Vec::new();
        let mut i: usize = 0;
        while i < gids.len()
            invariant
                self.wf(),
                self.timer == old(self).timer,
                i <= gids@.len(),
                strings_view(removed@) == removed_ids(
                    old(self).recs(),
                    strings_view(gids@).subrange(0, i as int),
                ),
                forall|g: Seq<char>| #[trigger]
                    self.spec_get(g) == if strings_view(gids@).subrange(0, i as int).contains(g) {
                        None
                    } else {
                        old(self).spec_get(g)
                    },
            decreases gids@.len() - i,
        {
            let ghost prev = *self;
            let ghost pre = strings_view(gids@).subrange(0, i as int);
            let ghost nxt = strings_view(gids@).subrange(0, i + 1);
            let ghost gi = gids@[i as int]@;
            assert(nxt =~= pre.push(gi));
            assert(nxt.drop_last() =~= pre);
            let was = self.remove_task(gids[i].as_str());
            assert(prev.spec_get(gi) == if pre.contains(gi) {
                None
            } else {
                old(self).spec_get(gi)
            });
            if was {
                let ghost before = removed@;
                removed.push(gids[i].clone());
                assert(strings_view(removed@) =~= strings_view(before).push(gi));
            }
            proof {
                assert(nxt.contains(gi)) by {
                    assert(nxt[i as int] == gi);
                }
                assert forall|g: Seq<char>| #[trigger]
                    self.spec_get(g) == if nxt.contains(g) {
                        None
                    } else {
                        old(self).spec_get(g)
                    } by {
                    if g != gi {
                        assert(nxt.contains(g) == pre.contains(g)) by {
                            if nxt.contains(g) {
                                let k = choose|k: int| 0 <= k < nxt.len() && nxt[k] == g;
                                assert(pre[k] == g);
                            }
                            if pre.contains(g) {
                                let k = choose|k: int| 0 <= k < pre.len() && pre[k] == g;
                                assert(nxt[k] == g);
                            }
                        }
                        assert(prev.spec_get(g) == if pre.contains(g) {
                            None
                        } else {
                            old(self).spec_get(g)
                        });
                    }
                }
            }
            i += 1;
        }
        assert(strings_view(gids@).subrange(0, i as int) =~= strings_view(gids@));
        removed
    }

    /// File names that tracked records use, for collision checks; empty names left out.
    pub fn get_active_filenames(&self) -> (r: Vec<String>)
        requires
            self.wf(),
        ensures
            strings_view(r@) == nonempty_names(self.recs()),
    {
        let mut r: Vec<String> = Vec::new();
        let mut i: usize = 0;
        while i < self.tasks.len()
            invariant
                i <= self.tasks@.len(),
                strings_view(r@) == nonempty_names(self.recs().subrange(0, i as int)),
            decreases self.tasks@.len() - i,
        {
            let ghost pre = self.recs().subrange(0, i as int);
            assert(self.recs().subrange(0, i + 1).drop_last() =~= pre);
            let name = &self.tasks[i].filename;
            if name.unicode_len() > 0 {
                let ghost before = r@;
                r.push(name.clone());
                assert(strings_view(r@) =~= strings_view(before).push(name@));
            }
            i += 1;
        }
        assert(self.recs().subrange(0, i as int) =~= self.recs());
        r
    }

    /// Moves every waiting or active record to `Paused` at `now`.
    pub fn update_all_active_to_paused_at(&mut self, now: i64)
        requires
            old(self).wf(),
        ensures
            final(self).wf(),
            final(self).timer == old(self).timer,
            final(self).recs() == all_paused(old(self).recs(), now),
    {
        let mut i: usize = 0;
        while i < self.tasks.len()
            invariant
                self.wf(),
                self.timer == old(self).timer,
                i <= self.tasks@.len(),
                self.tasks@.len() == old(self).tasks@.len(),
                forall|k: int| 0 <= k < i ==> self.recs()[k] == paused_one(old(self).recs()[k], now),
                forall|k: int| i <= k < self.tasks@.len() ==> self.recs()[k] == old(self).recs()[k],
            decreases self.tasks@.len() - i,
        {
            assert(self.recs()[i as int] == self.tasks@[i as int]@);
            assert(self.recs()[i as int] == old(self).recs()[i as int]);
            let st = self.tasks[i].state;
            if st == TaskState::Active || st == TaskState::Waiting {
                let mut t = self.tasks[i].duplicate();
                t.transition_state_at(TaskState::Paused, now);
                self.set_at(i, t);
                assert(self.recs()[i as int] == paused_one(old(self).recs()[i as int], now));
            } else {
                assert(self.recs()[i as int] == paused_one(old(self).recs()[i as int], now));
            }
            i += 1;
        }
        assert(self.recs() =~= all_paused(old(self).recs(), now));
    }

    /// Moves every waiting or active record to `Paused`, stamped with the current time.
    pub fn update_all_active_to_paused(&mut self)
        requires
            old(self).wf(),
        ensures
            final(self).wf(),
            final(self).timer == old(self).timer,
            exists|now: i64| #[trigger] all_paused(old(self).recs(), now) == final(self).recs(),
    {
        let now = now_millis();
        self.update_all_active_to_paused_at(now);
    }

    /// Moves every paused record to `Waiting`, clearing its stamp.
    pub fn update_all_paused_to_waiting(&mut self)
        requires
            old(self).wf(),
        ensures
            final(self).wf(),
            final(self).timer == old(self).timer,
            final(self).recs() == old(self).recs().map_values(|r: TaskRecord| waiting_one(r)),
    {
        let mut i: usize = 0;
        while i < self.tasks.len()
            invariant
                self.wf(),
                self.timer == old(self).timer,
                i <= self.tasks@.len(),
                self.tasks@.len() == old(self).tasks@.len(),
                forall|k: int| 0 <= k < i ==> self.recs()[k] == waiting_one(old(self).recs()[k]),
                forall|k: int| i <= k < self.tasks@.len() ==> self.recs()[k] == old(self).recs()[k],
            decreases self.tasks@.len() - i,
        {
            assert(self.recs()[i as int] == self.tasks@[i as int]@);
            assert(self.recs()[i as int] == old(self).recs()[i as int]);
            if self.tasks[i].state == TaskState::Paused {
                let mut t = self.tasks[i].duplicate();
                t.transition_state_at(TaskState::Waiting, 0);
                self.set_at(i, t);
                assert(self.recs()[i as int] == waiting_one(old(self).recs()[i as int]));
            } else {
                assert(self.recs()[i as int] == waiting_one(old(self).recs()[i as int]));
            }
            i += 1;
        }
        assert(self.recs() =~= old(self).recs().map_values(|r: TaskRecord| waiting_one(r)));
    }

    /// Replaces the record `old_gid` by its resubmission under `new_gid`, added at `now`.
    /// Returns whether `old_gid` was tracked; if not, nothing changes.
    pub fn replace_resubmitted(&mut self, old_gid: &str, new_gid: String, now: i64) -> (r: bool)
        requires
            old(self).wf(),
        ensures
            final(self).wf(),
            final(self).timer == old(self).timer,
            r == (old(self).spec_get(old_gid@) is Some),
            r ==> resume_replaced(old(self).recs(), final(self).recs(), old_gid@, new_gid@, now),
            !r ==> final(self).recs() == old(self).recs(),
    {
        match self.get_task(old_gid) {
            Some(t) => {
                let ghost orig = t@;
                let mut n = t;
                n.gid = new_gid;
                n.state = TaskState::Waiting;
                n.added_at = now;
                n.total_length = 0;
                n.completed_length = 0;
                n.download_speed = 0;
                n.completed_at = None;
                assert(n@ == resubmitted(orig, n.gid@, now));
                self.remove_task(old_gid);
                let ghost mid = *self;
                self.add_task(n);
                assert forall|g: Seq<char>| #[trigger]
                    lookup(self.recs(), g) == if g == new_gid@ {
                        Some(resubmitted(orig, new_gid@, now))
                    } else if g == old_gid@ {
                        None
                    } else {
                        lookup(old(self).recs(), g)
                    } by {
                    assert(self.spec_get(g) == lookup(self.recs(), g));
                    assert(mid.spec_get(g) == lookup(mid.recs(), g));
                }
                true
            },
            None => false,
        }
    }

    /// Handles a save request at `now` (milliseconds): writes at most once per debounce
    /// interval, and otherwise makes sure one deferred writer will pick the change up.
    pub fn save_at(&mut self, now: u64) -> (r: SaveAction)
        requires
            old(self).wf(),
        ensures
            final(self).wf(),
            final(self).tasks@ == old(self).tasks@,
            (final(self).timer, r) == save_step(old(self).timer, now),
    {
        let last = self.timer.last_save_time;
        let elapsed = if now >= last { now - last } else { 0 };
        if elapsed < SAVE_DEBOUNCE_MS {
            self.timer.trailing_pending = true;
            if self.timer.trailing_scheduled {
                SaveAction::Coalesced
            } else {
                self.timer.trailing_scheduled = true;
                SaveAction::ScheduleDeferred { delay_ms: SAVE_DEBOUNCE_MS }
            }
        } else {
            self.timer = SaveTimer { last_save_time: now, trailing_pending: false, trailing_scheduled: false };
            SaveAction::WriteNow
        }
    }

    /// Handles a save request at the current time.
    pub fn save(&mut self) -> (r: SaveAction)
        requires
            old(self).wf(),
        ensures
            final(self).wf(),
            final(self).tasks@ == old(self).tasks@,
            exists|now: u64| #[trigger] save_step(old(self).timer, now) == (final(self).timer, r),
    {
        let t = now_millis();
        let now: u64 = if t < 0 { 0 } else { t as u64 };
        self.save_at(now)
    }

    /// A save that skips the debounce, for the moment before exit.
    pub fn force_save(&mut self) -> (r: SaveAction)
        requires
            old(self).wf(),
        ensures
            final(self).wf(),
            final(self).tasks@ == old(self).tasks@,
            r == SaveAction::WriteNow,
            final(self).timer == (SaveTimer { last_save_time: 0, trailing_pending: false, ..old(self).timer }),
    {
        self.timer.trailing_pending = false;
        self.timer.last_save_time = 0;
        SaveAction::WriteNow
    }

    /// Called by a deferred writer when it fires at `now`; returns whether it must write a
    /// snapshot taken now.
    pub fn deferred_fire(&mut self, now: u64) -> (write: bool)
        requires
            old(self).wf(),
        ensures
            final(self).wf(),
            final(self).tasks@ == old(self).tasks@,
            (final(self).timer, write) == fire_step(old(self).timer, now),
    {
        if self.timer.trailing_pending {
            self.timer = SaveTimer { last_save_time: now, trailing_pending: false, trailing_scheduled: false };
            true
        } else {
            self.timer.trailing_scheduled = false;
            false
        }
    }
}

} // verus!
