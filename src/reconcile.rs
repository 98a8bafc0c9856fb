use vstd::prelude::*;
use crate::ledger::{has_id, records};
use crate::state::{status_word_state, TaskState};
use crate::task::{transitioned, PersistedTask, TaskRecord, opt_view};
use crate::text::{parse_u64_or_zero, parsed_u64};

verus! {

/// One source of a file as the worker reports it.
#[derive(Debug, Clone)]
pub struct Aria2Uri {
    pub uri: String,
    pub status: String,
}

/// One file of a transfer as the worker reports it.
#[derive(Debug, Clone)]
pub struct Aria2File {
    pub index: String,
    pub path: String,
    pub length: String,
    pub completed_length: String,
    pub selected: String,
    pub uris: Vec<Aria2Uri>,
}

/// Live status of one transfer as the worker reports it, fields as received.
#[derive(Debug, Clone)]
pub struct Aria2Task {
    pub gid: String,
    pub status: String,
    pub total_length: String,
    pub completed_length: String,
    pub download_speed: String,
    pub upload_length: String,
    pub upload_speed: String,
    pub error_code: Option<String>,
    pub error_message: Option<String>,
    pub dir: String,
    pub files: Vec<Aria2File>,
}

/// What reconciliation reads of a live status.
pub ghost struct LiveView {
    pub gid: Seq<char>,
    pub status: Seq<char>,
    pub total: Seq<char>,
    pub completed: Seq<char>,
    pub speed: Seq<char>,
    pub error_message: Option<Seq<char>>,
    pub first_path: Option<Seq<char>>,
}

impl View for Aria2Task {
    type V = LiveView;

    open spec fn view(&self) -> LiveView {
        LiveView {
            gid: self.gid@,
            status: self.status@,
            total: self.total_length@,
            completed: self.completed_length@,
            speed: self.download_speed@,
            error_message: opt_view(self.error_message),
            first_path: if self.files@.len() > 0 {
                Some(self.files@[0].path@)
            } else {
                None
            },
        }
    }
}

pub open spec fn lives(v: Seq<Aria2Task>) -> Seq<LiveView> {
    v.map_values(|t: Aria2Task| t@)
}

pub open spec fn num_or_zero(s: Seq<char>) -> u64 {
    match parsed_u64(s) {
        Some(v) => v,
        None => 0,
    }
}

/// The last component of a path: what follows its last `/`.
pub open spec fn last_component(p: Seq<char>) -> Seq<char>
    decreases p.len(),
{
    if p.len() == 0 || p.last() == '/' {
        Seq::empty()
    } else {
        last_component(p.drop_last()).push(p.last())
    }
}

/// The first live status with id `g`.
pub open spec fn live_for(s: Seq<LiveView>, g: Seq<char>) -> Option<LiveView>
    decreases s.len(),
{
    if s.len() == 0 {
        None
    } else if s[0].gid == g {
        Some(s[0])
    } else {
        live_for(s.drop_first(), g)
    }
}

/// `r` with the counters, error text and file name of a live status.
pub open spec fn with_live_fields(r: TaskRecord, l: LiveView) -> TaskRecord {
    TaskRecord {
        completed_length: num_or_zero(l.completed),
        total_length: num_or_zero(l.total),
        download_speed: num_or_zero(l.speed),
        error_message: match l.error_message {
            Some(m) => m,
            None => r.error_message,
        },
        filename: match l.first_path {
            Some(p) => if last_component(p).len() > 0 {
                last_component(p)
            } else {
                r.filename
            },
            None => r.filename,
        },
        ..r
    }
}

/// The state a record should have: what the worker reports, else what it had; a completed
/// transfer whose file is gone is `Missing`.
pub open spec fn target_state(r: TaskRecord, live: Option<LiveView>, file_present: bool) -> TaskState {
    let mapped = match live {
        Some(l) => status_word_state(l.status),
        None => r.state,
    };
    if mapped is Complete && !file_present {
        TaskState::Missing
    } else {
        mapped
    }
}

/// One record after a tick, given the bulk answer and whether its file is on disk.
pub open spec fn reconciled(r: TaskRecord, live: Option<LiveView>, file_present: bool, now: i64) -> TaskRecord {
    let moved = transitioned(r, target_state(r, live, file_present), now);
    match live {
        Some(l) => with_live_fields(moved, l),
        None => moved,
    }
}

/// Whether a record that the bulk answer missed needs a lookup by id.
pub open spec fn needs_lookup(r: TaskRecord, live: Option<LiveView>, file_present: bool) -> bool {
    live is None && !target_state(r, live, file_present).spec_is_terminal()
}

/// One record after the lookup by id: found, it takes the live state and fields; not found,
/// it becomes `Error` with no speed.
pub open spec fn looked_up(r: TaskRecord, found: Option<LiveView>, now: i64) -> TaskRecord {
    match found {
        Some(l) => with_live_fields(transitioned(r, status_word_state(l.status), now), l),
        None => TaskRecord { download_speed: 0, ..transitioned(r, TaskState::Error, now) },
    }
}

/// Live ids, in order and once each, that the ledger does not track.
pub open spec fn orphan_ids(ledger: Seq<TaskRecord>, live: Seq<Seq<char>>) -> Seq<Seq<char>>
    decreases live.len(),
{
    if live.len() == 0 {
        Seq::empty()
    } else {
        let p = orphan_ids(ledger, live.drop_last());
        if !has_id(ledger, live.last()) && !live.drop_last().contains(live.last()) {
            p.push(live.last())
        } else {
            p
        }
    }
}

pub open spec fn live_ids(s: Seq<LiveView>) -> Seq<Seq<char>> {
    s.map_values(|l: LiveView| l.gid)
}

proof fn lemma_orphan_ids_cover(ledger: Seq<TaskRecord>, live: Seq<Seq<char>>, g: Seq<char>)
    ensures
        orphan_ids(ledger, live).contains(g) <==> (live.contains(g) && !has_id(ledger, g)),
    decreases live.len(),
{
    if live.len() > 0 {
        let pre = live.drop_last();
        lemma_orphan_ids_cover(ledger, pre, g);
        let p = orphan_ids(ledger, pre);
        assert(live =~= pre.push(live.last()));
        if live.contains(g) {
            let k = choose|k: int| 0 <= k < live.len() && live[k] == g;
            if k < pre.len() {
                assert(pre[k] == g);
            }
        }
        if pre.contains(g) {
            let k = choose|k: int| 0 <= k < pre.len() && pre[k] == g;
            assert(live[k] == g);
        }
        if !has_id(ledger, live.last()) && !pre.contains(live.last()) {
            assert(p.push(live.last())[p.len() as int] == live.last());
            if p.push(live.last()).contains(g) && g != live.last() {
                let k = choose|k: int| 0 <= k < p.len() + 1 && p.push(live.last())[k] == g;
                assert(p[k] == g);
            }
            if p.contains(g) {
                let k = choose|k: int| 0 <= k < p.len() && p[k] == g;
                assert(p.push(live.last())[k] == g);
            }
        }
    }
}

/// Orphans converge: every id that the worker reports and the ledger does not track is
/// among the orphans to cancel and purge in that tick, no orphan is in the ledger, and the tick
/// itself gives every ledger record back under its own id, so an orphan never becomes a
/// tracked task.
pub proof fn lemma_orphan_convergence(
    ledger: Seq<TaskRecord>,
    live: Seq<LiveView>,
    present: Seq<bool>,
    now: i64,
    g: Seq<char>,
)
    requires
        present.len() == ledger.len(),
    ensures
        (live_ids(live).contains(g) && !has_id(ledger, g)) ==> orphan_ids(ledger, live_ids(live)).contains(g),
        orphan_ids(ledger, live_ids(live)).contains(g) ==> !has_id(ledger, g),
        forall|i: int| 0 <= i < ledger.len() ==>
            (#[trigger] reconciled(ledger[i], live_for(live, ledger[i].gid), present[i], now)).gid == ledger[i].gid,
{
    lemma_orphan_ids_cover(ledger, live_ids(live), g);
}

proof fn lemma_live_for_skip(s: Seq<LiveView>, i: int, g: Seq<char>)
    requires
        0 <= i < s.len(),
        forall|k: int| 0 <= k < i ==> s[k].gid != g,
    ensures
        live_for(s, g) == live_for(s.subrange(i, s.len() as int), g),
    decreases i,
{
    if i > 0 {
        assert(s.drop_first().subrange(i - 1, s.drop_first().len() as int) =~= s.subrange(i, s.len() as int));
        lemma_live_for_skip(s.drop_first(), i - 1, g);
    } else {
        assert(s.subrange(0, s.len() as int) =~= s);
    }
}

proof fn lemma_live_for_none(s: Seq<LiveView>, g: Seq<char>)
    requires
        forall|k: int| 0 <= k < s.len() ==> s[k].gid != g,
    ensures
        live_for(s, g) is None,
    decreases s.len(),
{
    if s.len() > 0 {
        lemma_live_for_none(s.drop_first(), g);
    }
}

/// The index of the first live status with id `gid`.
fn find_live(live: &Vec<Aria2Task>, gid: &str) -> (r: Option<usize>)
    ensures
        match r {
            Some(i) => i < live@.len() && live_for(lives(live@), gid@) == Some(live@[i as int]@),
            None => live_for(lives(live@), gid@) is None,
        },
{
    let mut i: usize = 0;
    while i < live.len()
        invariant
            i <= live@.len(),
            forall|k: int| 0 <= k < i ==> lives(live@)[k].gid != gid@,
        decreases live@.len() - i,
    {
        if crate::state::str_equal(live[i].gid.as_str(), gid) {
            proof {
                lemma_live_for_skip(lives(live@), i as int, gid@);
            }
            return Some(i);
        }
        i += 1;
    }
    proof {
        lemma_live_for_none(lives(live@), gid@);
    }
    None
}

proof fn lemma_last_component(p: Seq<char>, start: int, k: int)
    requires
        0 <= start <= k <= p.len(),
        start == 0 || p[start - 1] == '/',
        forall|j: int| start <= j < k ==> p[j] != '/',
    ensures
        last_component(p.subrange(0, k)) == p.subrange(start, k),
    decreases k - start,
{
    if k == start {
        assert(p.subrange(start, k) =~= Seq::<char>::empty());
        if start > 0 {
            assert(p.subrange(0, k).last() == p[start - 1]);
        }
    } else {
        lemma_last_component(p, start, k - 1);
        assert(p.subrange(0, k).drop_last() =~= p.subrange(0, k - 1));
        assert(p.subrange(start, k) =~= p.subrange(start, k - 1).push(p[k - 1]));
    }
}

/// The last component of `p`.
pub fn last_component_of(p: &str) -> (r: String)
    ensures
        r@ == last_component(p@),
{
    let n = p.unicode_len();
    let mut start: usize = n;
    while start > 0 && p.get_char(start - 1) != '/'
        invariant
            n == p@.len(),
            start <= n,
            forall|k: int| start <= k < n ==> p@[k] != '/',
        decreases start,
    {
        start -= 1;
    }
    proof {
        lemma_last_component(p@, start as int, n as int);
        assert(p@.subrange(0, n as int) =~= p@);
    }
    String::from_str(p.substring_char(start, n))
}

/// Ids of records, in order, that need a lookup by id after the bulk answer.
pub open spec fn lookup_ids(ledger: Seq<TaskRecord>, live: Seq<LiveView>, present: Seq<bool>) -> Seq<Seq<char>>
    decreases ledger.len(),
{
    if ledger.len() == 0 {
        Seq::empty()
    } else {
        let i = ledger.len() - 1;
        let p = lookup_ids(ledger.drop_last(), live, present);
        if needs_lookup(ledger[i], live_for(live, ledger[i].gid), present[i]) {
            p.push(ledger[i].gid)
        } else {
            p
        }
    }
}

/// Takes counters, error text and file name from a live status.
fn absorb_live_fields(t: &mut PersistedTask, l: &Aria2Task)
    ensures
        final(t)@ == with_live_fields(old(t)@, l@),
{
    t.completed_length = parse_u64_or_zero(l.completed_length.as_str());
    t.total_length = parse_u64_or_zero(l.total_length.as_str());
    t.download_speed = parse_u64_or_zero(l.download_speed.as_str());
    match &l.error_message {
        Some(m) => {
            t.error_message = m.clone();
        },
        None => {},
    }
    if l.files.len() > 0 {
        let name = last_component_of(l.files[0].path.as_str());
        if name.unicode_len() > 0 {
            t.filename = name;
        }
    }
}

/// Brings one record in line with the bulk answer of the worker (`live`, the status with
/// its id if the answer had one) and with whether its file is on disk. Returns whether
/// the record still needs a lookup by id.
pub fn reconcile_task(t: &mut PersistedTask, live: Option<&Aria2Task>, file_present: bool, now: i64) -> (lookup: bool)
    ensures
        final(t)@ == reconciled(old(t)@, match live {
            Some(l) => Some(l@),
            None => None,
        }, file_present, now),
        lookup == needs_lookup(old(t)@, match live {
            Some(l) => Some(l@),
            None => None,
        }, file_present),
{
    let mut target = match live {
        Some(l) => TaskState::from_aria2_status(l.status.as_str()),
        None => t.state,
    };
    if target == TaskState::Complete && !file_present {
        target = TaskState::Missing;
    }
    t.transition_state_at(target, now);
    match live {
        Some(l) => {
            absorb_live_fields(t, l);
            false
        },
        None => !target.is_terminal(),
    }
}

/// Applies the answer of a lookup by id: the live status if the worker knew the id,
/// `None` if it did not.
pub fn apply_lookup(t: &mut PersistedTask, found: Option<&Aria2Task>, now: i64)
    ensures
        final(t)@ == looked_up(old(t)@, match found {
            Some(l) => Some(l@),
            None => None,
        }, now),
{
    match found {
        Some(l) => {
            let st = TaskState::from_aria2_status(l.status.as_str());
            t.transition_state_at(st, now);
            absorb_live_fields(t, l);
        },
        None => {
            t.transition_state_at(TaskState::Error, now);
            t.download_speed = 0;
        },
    }
}

/// One reconciliation pass over ledger records against the bulk answer `live`;
/// `present[i]` tells whether the file of `tasks[i]` is on disk. Returns the ids that
/// still need a lookup by id, in ledger order.
pub fn reconcile_tasks(
    tasks: &mut Vec<PersistedTask>,
    live: &Vec<Aria2Task>,
    present: &Vec<bool>,
    now: i64,
) -> (lookups: Vec<String>)
    requires
        present@.len() == old(tasks)@.len(),
    ensures
        final(tasks)@.len() == old(tasks)@.len(),
        forall|i: int| 0 <= i < old(tasks)@.len() ==> #[trigger] final(tasks)@[i]@ == reconciled(
            old(tasks)@[i]@,
            live_for(lives(live@), old(tasks)@[i]@.gid),
            present@[i],
            now,
        ),
        crate::task::strings_view(lookups@) == lookup_ids(records(old(tasks)@), lives(live@), present@),
{
    let mut lookups: Vec<String> = Vec::new();
    let mut i: usize = 0;
    while i < tasks.len()
        invariant
            present@.len() == old(tasks)@.len(),
            tasks@.len() == old(tasks)@.len(),
            i <= tasks@.len(),
            forall|k: int| 0 <= k < i ==> #[trigger] tasks@[k]@ == reconciled(
                old(tasks)@[k]@,
                live_for(lives(live@), old(tasks)@[k]@.gid),
                present@[k],
                now,
            ),
            forall|k: int| i <= k < tasks@.len() ==> tasks@[k] == old(tasks)@[k],
            crate::task::strings_view(lookups@) == lookup_ids(
                records(old(tasks)@).subrange(0, i as int),
                lives(live@),
                present@,
            ),
        decreases tasks@.len() - i,
    {
        let ghost pre = records(old(tasks)@).subrange(0, i as int);
        let ghost nxt = records(old(tasks)@).subrange(0, i + 1);
        assert(nxt.drop_last() =~= pre);
        assert(nxt[i as int] == old(tasks)@[i as int]@);
        let pos = find_live(live, tasks[i].gid.as_str());
        let mut t = tasks[i].duplicate();
        let need = match pos {
            Some(k) => reconcile_task(&mut t, Some(&live[k]), present[i], now),
            None => reconcile_task(&mut t, None, present[i], now),
        };
        if need {
            let ghost before = lookups@;
            lookups.push(tasks[i].gid.clone());
            assert(crate::task::strings_view(lookups@) =~= crate::task::strings_view(before).push(
                old(tasks)@[i as int]@.gid,
            ));
        }
        tasks.set(i, t);
        i += 1;
    }
    assert(records(old(tasks)@).subrange(0, i as int) =~= records(old(tasks)@));
    lookups
}

/// Ids that the worker reports and the ledger does not track, in the worker's order and
/// once each: to be cancelled and purged.
pub fn find_orphans(tasks: &Vec<PersistedTask>, live: &Vec<Aria2Task>) -> (r: Vec<String>)
    ensures
        crate::task::strings_view(r@) == orphan_ids(records(tasks@), live_ids(lives(live@))),
{
    let mut r: Vec<String> = Vec::new();
    let mut i: usize = 0;
    while i < live.len()
        invariant
            i <= live@.len(),
            crate::task::strings_view(r@) == orphan_ids(records(tasks@), live_ids(lives(live@)).subrange(0, i as int)),
        decreases live@.len() - i,
    {
        let ghost ids = live_ids(lives(live@));
        let ghost pre = ids.subrange(0, i as int);
        assert(ids.subrange(0, i + 1).drop_last() =~= pre);
        let g = live[i].gid.as_str();
        let mut known = false;
        let mut j: usize = 0;
        while j < tasks.len()
            invariant
                j <= tasks@.len(),
                known == exists|k: int| 0 <= k < j && tasks@[k].gid@ == g@,
            decreases tasks@.len() - j,
        {
            if crate::state::str_equal(tasks[j].gid.as_str(), g) {
                known = true;
            }
            j += 1;
        }
        assert(known == has_id(records(tasks@), g@)) by {
            if has_id(records(tasks@), g@) {
                let k = choose|k: int| 0 <= k < tasks@.len() && records(tasks@)[k].gid == g@;
                assert(tasks@[k].gid@ == g@);
            }
            if known {
                let k = choose|k: int| 0 <= k < tasks@.len() && tasks@[k].gid@ == g@;
                assert(records(tasks@)[k].gid == g@);
            }
        }
        let mut seen = false;
        let mut j: usize = 0;
        while j < i
            invariant
                i < live@.len(),
                j <= i,
                seen == exists|k: int| 0 <= k < j && live@[k].gid@ == g@,
            decreases i - j,
        {
            if crate::state::str_equal(live[j].gid.as_str(), g) {
                seen = true;
            }
            j += 1;
        }
        assert(g@ == ids[i as int]);
        assert(seen == pre.contains(g@)) by {
            if pre.contains(g@) {
                let k = choose|k: int| 0 <= k < pre.len() && pre[k] == g@;
                assert(ids[k] == g@);
                assert(live@[k].gid@ == g@);
            }
            if seen {
                let k = choose|k: int| 0 <= k < i && live@[k].gid@ == g@;
                assert(pre[k] == g@);
            }
        }
        if !known && !seen {
            let ghost before = r@;
            r.push(live[i].gid.clone());
            assert(crate::task::strings_view(r@) =~= crate::task::strings_view(before).push(g@));
        }
        i += 1;
    }
    assert(live_ids(lives(live@)).subrange(0, i as int) =~= live_ids(lives(live@)));
    r
}

} // verus!
