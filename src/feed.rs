use vstd::prelude::*;
use crate::state::{str_equal, TaskState};
use crate::task::{clone_strings, strings_view, PersistedTask, TaskRecord};

verus! {

/// What observers see of one task: raw numbers, no presentation.
#[derive(Debug, Clone)]
pub struct TaskView {
    pub id: String,
    pub filename: String,
    pub url: String,
    pub speed: u64,
    pub completed: u64,
    pub total: u64,
    pub remaining_secs: u64,
    pub state: TaskState,
    pub added_at: i64,
    pub save_path: String,
    pub error_message: String,
    pub user_agent: String,
    pub referer: String,
    pub proxy: String,
    pub headers: Vec<String>,
    pub max_download_limit: String,
    pub completed_at: Option<i64>,
}

/// Mathematical model of a [`TaskView`].
pub ghost struct ViewModel {
    pub id: Seq<char>,
    pub filename: Seq<char>,
    pub url: Seq<char>,
    pub speed: u64,
    pub completed: u64,
    pub total: u64,
    pub remaining_secs: u64,
    pub state: TaskState,
    pub added_at: i64,
    pub save_path: Seq<char>,
    pub error_message: Seq<char>,
    pub user_agent: Seq<char>,
    pub referer: Seq<char>,
    pub proxy: Seq<char>,
    pub headers: Seq<Seq<char>>,
    pub max_download_limit: Seq<char>,
    pub completed_at: Option<i64>,
}

impl View for TaskView {
    type V = ViewModel;

    open spec fn view(&self) -> ViewModel {
        ViewModel {
            id: self.id@,
            filename: self.filename@,
            url: self.url@,
            speed: self.speed,
            completed: self.completed,
            total: self.total,
            remaining_secs: self.remaining_secs,
            state: self.state,
            added_at: self.added_at,
            save_path: self.save_path@,
            error_message: self.error_message@,
            user_agent: self.user_agent@,
            referer: self.referer@,
            proxy: self.proxy@,
            headers: strings_view(self.headers@),
            max_download_limit: self.max_download_limit@,
            completed_at: self.completed_at,
        }
    }
}

/// Seconds left at the current speed; zero when stalled or done.
pub open spec fn remaining(speed: u64, total: u64, completed: u64) -> u64 {
    if speed == 0 || total <= completed {
        0
    } else {
        ((total - completed) / speed as int) as u64
    }
}

/// The view of a ledger record.
pub open spec fn view_of(r: TaskRecord) -> ViewModel {
    ViewModel {
        id: r.gid,
        filename: r.filename,
        url: r.url,
        speed: r.download_speed,
        completed: r.completed_length,
        total: r.total_length,
        remaining_secs: remaining(r.download_speed, r.total_length, r.completed_length),
        state: r.state,
        added_at: r.added_at,
        save_path: r.save_path,
        error_message: r.error_message,
        user_agent: r.user_agent,
        referer: r.referer,
        proxy: r.proxy,
        headers: r.headers,
        max_download_limit: r.max_download_limit,
        completed_at: r.completed_at,
    }
}

/// Seconds left at `raw_speed` bytes per second.
pub fn calculate_remaining_secs(raw_speed: u64, total: u64, completed: u64) -> (r: u64)
    ensures
        r == remaining(raw_speed, total, completed),
{
    if raw_speed == 0 || total <= completed {
        return 0;
    }
    (total - completed) / raw_speed
}

/// The view of a ledger record.
pub fn to_view(t: &PersistedTask) -> (v: TaskView)
    ensures
        v@ == view_of(t@),
{
    TaskView {
        id: t.gid.clone(),
        filename: t.filename.clone(),
        url: t.url.clone(),
        speed: t.download_speed,
        completed: t.completed_length,
        total: t.total_length,
        remaining_secs: calculate_remaining_secs(t.download_speed, t.total_length, t.completed_length),
        state: t.state,
        added_at: t.added_at,
        save_path: t.save_path.clone(),
        error_message: t.error_message.clone(),
        user_agent: t.user_agent.clone(),
        referer: t.referer.clone(),
        proxy: t.proxy.clone(),
        headers: clone_strings(&t.headers),
        max_download_limit: t.max_download_limit.clone(),
        completed_at: t.completed_at,
    }
}

pub open spec fn models(v: Seq<TaskView>) -> Seq<ViewModel> {
    v.map_values(|t: TaskView| t@)
}

/// The views of ledger records, in order.
pub fn to_views(tasks: &Vec<PersistedTask>) -> (r: Vec<TaskView>)
    ensures
        models(r@) == crate::ledger::records(tasks@).map_values(|t: TaskRecord| view_of(t)),
{
    let mut r: Vec<TaskView> = Vec::new();
    let mut i: usize = 0;
    while i < tasks.len()
        invariant
            i <= tasks@.len(),
            r@.len() == i,
            forall|k: int| 0 <= k < i ==> #[trigger] r@[k]@ == view_of(tasks@[k]@),
        decreases tasks@.len() - i,
    {
        r.push(to_view(&tasks[i]));
        i += 1;
    }
    assert(models(r@) =~= crate::ledger::records(tasks@).map_values(|t: TaskRecord| view_of(t)));
    r
}

fn same_strings(a: &Vec<String>, b: &Vec<String>) -> (r: bool)
    ensures
        r == (strings_view(a@) == strings_view(b@)),
{
    if a.len() != b.len() {
        assert(strings_view(a@).len() != strings_view(b@).len());
        return false;
    }
    let mut i: usize = 0;
    while i < a.len()
        invariant
            a@.len() == b@.len(),
            i <= a@.len(),
            forall|k: int| 0 <= k < i ==> a@[k]@ == b@[k]@,
        decreases a@.len() - i,
    {
        if !str_equal(a[i].as_str(), b[i].as_str()) {
            assert(strings_view(a@)[i as int] != strings_view(b@)[i as int]);
            return false;
        }
        i += 1;
    }
    assert(strings_view(a@) =~= strings_view(b@));
    true
}

/// Whether two views are equal as values.
pub fn same_view(a: &TaskView, b: &TaskView) -> (r: bool)
    ensures
        r == (a@ == b@),
{
    a.speed == b.speed && a.completed == b.completed && a.total == b.total && a.remaining_secs
        == b.remaining_secs && a.state == b.state && a.added_at == b.added_at && a.completed_at
        == b.completed_at && str_equal(a.id.as_str(), b.id.as_str()) && str_equal(
        a.filename.as_str(),
        b.filename.as_str(),
    ) && str_equal(a.url.as_str(), b.url.as_str()) && str_equal(
        a.save_path.as_str(),
        b.save_path.as_str(),
    ) && str_equal(a.error_message.as_str(), b.error_message.as_str()) && str_equal(
        a.user_agent.as_str(),
        b.user_agent.as_str(),
    ) && str_equal(a.referer.as_str(), b.referer.as_str()) && str_equal(
        a.proxy.as_str(),
        b.proxy.as_str(),
    ) && str_equal(a.max_download_limit.as_str(), b.max_download_limit.as_str())
        && same_strings(&a.headers, &b.headers)
}

/// One entry of a delta.
#[derive(Debug, Clone)]
pub enum TaskDeltaChange {
    Upsert { task: TaskView },
    Remove { id: String },
}

pub ghost enum ChangeModel {
    Upsert(ViewModel),
    Remove(Seq<char>),
}

impl View for TaskDeltaChange {
    type V = ChangeModel;

    open spec fn view(&self) -> ChangeModel {
        match self {
            TaskDeltaChange::Upsert { task } => ChangeModel::Upsert(task@),
            TaskDeltaChange::Remove { id } => ChangeModel::Remove(id@),
        }
    }
}

/// An event of the change feed.
#[derive(Debug, Clone)]
pub enum TaskDeltaEvent {
    Snapshot { revision: u64, tasks: Vec<TaskView> },
    Delta { from_revision: u64, to_revision: u64, seq: u64, changes: Vec<TaskDeltaChange> },
}

pub open spec fn unique_view_ids(s: Seq<ViewModel>) -> bool {
    forall|i: int, j: int| 0 <= i < s.len() && 0 <= j < s.len() && i != j ==> s[i].id != s[j].id
}

/// The views of `s` keyed by id.
pub open spec fn vmap(s: Seq<ViewModel>) -> Map<Seq<char>, ViewModel>
    decreases s.len(),
{
    if s.len() == 0 {
        Map::empty()
    } else {
        vmap(s.drop_last()).insert(s.last().id, s.last())
    }
}

/// Views of `cur` that are new or differ from the view with their id in `prev`, in order.
pub open spec fn upserts(prev: Seq<ViewModel>, cur: Seq<ViewModel>) -> Seq<ViewModel>
    decreases cur.len(),
{
    if cur.len() == 0 {
        Seq::empty()
    } else {
        let p = upserts(prev, cur.drop_last());
        let x = cur.last();
        if vmap(prev).contains_key(x.id) && vmap(prev)[x.id] == x {
            p
        } else {
            p.push(x)
        }
    }
}

/// Ids of `prev`, in order, that `cur` no longer has.
pub open spec fn removals(prev: Seq<ViewModel>, cur: Seq<ViewModel>) -> Seq<Seq<char>>
    decreases prev.len(),
{
    if prev.len() == 0 {
        Seq::empty()
    } else {
        let p = removals(prev.drop_last(), cur);
        if vmap(cur).contains_key(prev.last().id) {
            p
        } else {
            p.push(prev.last().id)
        }
    }
}

/// The changes of a delta from `prev` to `cur`: upserts first, then removals.
pub open spec fn delta_changes(prev: Seq<ViewModel>, cur: Seq<ViewModel>) -> Seq<ChangeModel> {
    upserts(prev, cur).map_values(|v: ViewModel| ChangeModel::Upsert(v)) + removals(prev, cur).map_values(
        |id: Seq<char>| ChangeModel::Remove(id),
    )
}

/// `m` after the changes `cs`, applied in order.
pub open spec fn apply_changes(m: Map<Seq<char>, ViewModel>, cs: Seq<ChangeModel>) -> Map<Seq<char>, ViewModel>
    decreases cs.len(),
{
    if cs.len() == 0 {
        m
    } else {
        let prev = apply_changes(m, cs.drop_last());
        match cs.last() {
            ChangeModel::Upsert(v) => prev.insert(v.id, v),
            ChangeModel::Remove(id) => prev.remove(id),
        }
    }
}

proof fn lemma_vmap(s: Seq<ViewModel>)
    requires
        unique_view_ids(s),
    ensures
        forall|id: Seq<char>| #[trigger] vmap(s).contains_key(id) <==> exists|i: int| 0 <= i < s.len() && s[i].id == id,
        forall|i: int| 0 <= i < s.len() ==> #[trigger] vmap(s)[s[i].id] == s[i],
    decreases s.len(),
{
    if s.len() > 0 {
        let pre = s.drop_last();
        assert(unique_view_ids(pre)) by {
            assert forall|i: int, j: int| 0 <= i < pre.len() && 0 <= j < pre.len() && i != j implies pre[i].id != pre[j].id by {
                assert(pre[i] == s[i] && pre[j] == s[j]);
            }
        }
        lemma_vmap(pre);
        assert forall|id: Seq<char>| #[trigger] vmap(s).contains_key(id) <==> exists|i: int| 0 <= i < s.len() && s[i].id == id by {
            if vmap(pre).contains_key(id) {
                let i = choose|i: int| 0 <= i < pre.len() && pre[i].id == id;
                assert(s[i].id == id);
            }
            if exists|i: int| 0 <= i < s.len() && s[i].id == id {
                let i = choose|i: int| 0 <= i < s.len() && s[i].id == id;
                if i < pre.len() {
                    assert(pre[i].id == id);
                }
            }
        }
        assert forall|i: int| 0 <= i < s.len() implies #[trigger] vmap(s)[s[i].id] == s[i] by {
            if i < pre.len() {
                assert(pre[i] == s[i]);
                assert(s[i].id != s[s.len() - 1].id);
                assert(vmap(pre)[pre[i].id] == pre[i]);
            }
        }
    }
}

proof fn lemma_apply_upserts(m: Map<Seq<char>, ViewModel>, us: Seq<ViewModel>)
    ensures
        apply_changes(m, us.map_values(|v: ViewModel| ChangeModel::Upsert(v))) == m.union_prefer_right(vmap(us)),
    decreases us.len(),
{
    let cs = us.map_values(|v: ViewModel| ChangeModel::Upsert(v));
    if us.len() == 0 {
        assert(m.union_prefer_right(vmap(us)) =~= m);
    } else {
        lemma_apply_upserts(m, us.drop_last());
        assert(cs.drop_last() =~= us.drop_last().map_values(|v: ViewModel| ChangeModel::Upsert(v)));
        assert(m.union_prefer_right(vmap(us)) =~= m.union_prefer_right(vmap(us.drop_last())).insert(
            us.last().id,
            us.last(),
        ));
    }
}

proof fn lemma_apply_removes(m: Map<Seq<char>, ViewModel>, pre: Seq<ChangeModel>, rs: Seq<Seq<char>>)
    ensures
        apply_changes(m, pre + rs.map_values(|id: Seq<char>| ChangeModel::Remove(id)))
            == apply_changes(m, pre).remove_keys(rs.to_set()),
    decreases rs.len(),
{
    let cs = pre + rs.map_values(|id: Seq<char>| ChangeModel::Remove(id));
    if rs.len() == 0 {
        assert(cs =~= pre);
        assert(apply_changes(m, pre).remove_keys(rs.to_set()) =~= apply_changes(m, pre));
    } else {
        lemma_apply_removes(m, pre, rs.drop_last());
        assert(cs.drop_last() =~= pre + rs.drop_last().map_values(|id: Seq<char>| ChangeModel::Remove(id)));
        assert(cs.last() == ChangeModel::Remove(rs.last()));
        assert(rs.to_set() =~= rs.drop_last().to_set().insert(rs.last())) by {
            assert(rs =~= rs.drop_last().push(rs.last()));
            rs.drop_last().lemma_push_to_set_commute(rs.last()); 
        }
        assert(apply_changes(m, pre).remove_keys(rs.to_set()) =~= apply_changes(m, pre).remove_keys(
            rs.drop_last().to_set(),
        ).remove(rs.last()));
    }
}

proof fn lemma_upserts(prev: Seq<ViewModel>, cur: Seq<ViewModel>)
    requires
        unique_view_ids(cur),
    ensures
        forall|id: Seq<char>| #[trigger] vmap(upserts(prev, cur)).contains_key(id) <==> (vmap(cur).contains_key(id)
            && !(vmap(prev).contains_key(id) && vmap(prev)[id] == vmap(cur)[id])),
        forall|id: Seq<char>| #[trigger] vmap(upserts(prev, cur)).contains_key(id) ==> vmap(upserts(prev, cur))[id]
            == vmap(cur)[id],
    decreases cur.len(),
{
    if cur.len() > 0 {
        let pre = cur.drop_last();
        assert(unique_view_ids(pre)) by {
            assert forall|i: int, j: int| 0 <= i < pre.len() && 0 <= j < pre.len() && i != j implies pre[i].id != pre[j].id by {
                assert(pre[i] == cur[i] && pre[j] == cur[j]);
            }
        }
        lemma_upserts(prev, pre);
        lemma_vmap(pre);
        let x = cur.last();
        assert(!vmap(pre).contains_key(x.id)) by {
            if vmap(pre).contains_key(x.id) {
                let i = choose|i: int| 0 <= i < pre.len() && pre[i].id == x.id;
                assert(cur[i].id == cur[cur.len() - 1].id);
            }
        }
        let up = upserts(prev, pre);
        let changed = !(vmap(prev).contains_key(x.id) && vmap(prev)[x.id] == x);
        assert(up.push(x).drop_last() =~= up);
        assert(vmap(cur) == vmap(pre).insert(x.id, x));
        if changed {
            assert(upserts(prev, cur) == up.push(x));
            assert(vmap(upserts(prev, cur)) == vmap(up).insert(x.id, x));
        } else {
            assert(upserts(prev, cur) == up);
        }
        assert forall|id: Seq<char>| #[trigger] vmap(upserts(prev, cur)).contains_key(id) <==> (vmap(cur).contains_key(id)
            && !(vmap(prev).contains_key(id) && vmap(prev)[id] == vmap(cur)[id])) by {
            if id != x.id {
                assert(vmap(up).contains_key(id) <==> (vmap(pre).contains_key(id)
                    && !(vmap(prev).contains_key(id) && vmap(prev)[id] == vmap(pre)[id])));
            }
        }
        assert forall|id: Seq<char>| #[trigger] vmap(upserts(prev, cur)).contains_key(id) implies vmap(upserts(prev, cur))[id]
            == vmap(cur)[id] by {
            if id != x.id {
                assert(vmap(up).contains_key(id) ==> vmap(up)[id] == vmap(pre)[id]);
            }
        }
    }
}

proof fn lemma_removals(prev: Seq<ViewModel>, cur: Seq<ViewModel>)
    requires
        unique_view_ids(prev),
    ensures
        forall|id: Seq<char>| #[trigger] removals(prev, cur).to_set().contains(id) <==> (vmap(prev).contains_key(id)
            && !vmap(cur).contains_key(id)),
    decreases prev.len(),
{
    if prev.len() > 0 {
        let pre = prev.drop_last();
        assert(unique_view_ids(pre)) by {
            assert forall|i: int, j: int| 0 <= i < pre.len() && 0 <= j < pre.len() && i != j implies pre[i].id != pre[j].id by {
                assert(pre[i] == prev[i] && pre[j] == prev[j]);
            }
        }
        lemma_removals(pre, cur);
        let p = removals(pre, cur);
        p.lemma_push_to_set_commute(prev.last().id);
    }
}

/// Deltas are exact: from a snapshot `prev` to a later task set `cur`, the delta upserts
/// exactly the views of `cur` that are new or changed and removes exactly the ids that
/// `cur` no longer has; applied to `prev` it gives `cur`.
pub proof fn lemma_delta_correct(prev: Seq<ViewModel>, cur: Seq<ViewModel>)
    requires
        unique_view_ids(prev),
        unique_view_ids(cur),
    ensures
        forall|id: Seq<char>| #[trigger] vmap(upserts(prev, cur)).contains_key(id) <==> (vmap(cur).contains_key(id)
            && !(vmap(prev).contains_key(id) && vmap(prev)[id] == vmap(cur)[id])),
        forall|id: Seq<char>| #[trigger] removals(prev, cur).contains(id) <==> (vmap(prev).contains_key(id)
            && !vmap(cur).contains_key(id)),
        apply_changes(vmap(prev), delta_changes(prev, cur)) == vmap(cur),
{
    lemma_upserts(prev, cur);
    lemma_removals(prev, cur);
    let ups = upserts(prev, cur);
    let rs = removals(prev, cur);
    let pre = ups.map_values(|v: ViewModel| ChangeModel::Upsert(v));
    lemma_apply_upserts(vmap(prev), ups);
    lemma_apply_removes(vmap(prev), pre, rs);
    assert forall|id: Seq<char>| #[trigger] rs.contains(id) <==> (vmap(prev).contains_key(id) && !vmap(cur).contains_key(id)) by {
        assert(rs.to_set().contains(id) == rs.contains(id));
    }
    assert(vmap(prev).union_prefer_right(vmap(ups)).remove_keys(rs.to_set()) =~= vmap(cur));
}

pub open spec fn change_models(v: Seq<TaskDeltaChange>) -> Seq<ChangeModel> {
    v.map_values(|c: TaskDeltaChange| c@)
}

impl TaskView {
    /// A copy with the same model.
    pub fn duplicate(&self) -> (r: TaskView)
        ensures
            r@ == self@,
    {
        TaskView {
            id: self.id.clone(),
            filename: self.filename.clone(),
            url: self.url.clone(),
            speed: self.speed,
            completed: self.completed,
            total: self.total,
            remaining_secs: self.remaining_secs,
            state: self.state,
            added_at: self.added_at,
            save_path: self.save_path.clone(),
            error_message: self.error_message.clone(),
            user_agent: self.user_agent.clone(),
            referer: self.referer.clone(),
            proxy: self.proxy.clone(),
            headers: clone_strings(&self.headers),
            max_download_limit: self.max_download_limit.clone(),
            completed_at: self.completed_at,
        }
    }
}

fn clone_views(v: &Vec<TaskView>) -> (r: Vec<TaskView>)
    ensures
        models(r@) == models(v@),
{
    let mut r: Vec<TaskView> = Vec::new();
    let mut i: usize = 0;
    while i < v.len()
        invariant
            i <= v@.len(),
            r@.len() == i,
            forall|k: int| 0 <= k < i ==> #[trigger] r@[k]@ == v@[k]@,
        decreases v@.len() - i,
    {
        r.push(v[i].duplicate());
        i += 1;
    }
    assert(models(r@) =~= models(v@));
    r
}

fn index_of_view(v: &Vec<TaskView>, id: &str) -> (r: Option<usize>)
    ensures
        match r {
            Some(j) => j < v@.len() && models(v@)[j as int].id == id@,
            None => forall|j: int| 0 <= j < v@.len() ==> models(v@)[j].id != id@,
        },
{
    let mut j: usize = 0;
    while j < v.len()
        invariant
            j <= v@.len(),
            forall|k: int| 0 <= k < j ==> models(v@)[k].id != id@,
        decreases v@.len() - j,
    {
        if str_equal(v[j].id.as_str(), id) {
            return Some(j);
        }
        j += 1;
    }
    None
}

/// The changes that take observers from `prev` to `cur`: upserts of the new or changed
/// views in the order of `cur`, then removals of the ids gone, in the order of `prev`.
pub fn compute_delta(prev: &Vec<TaskView>, cur: &Vec<TaskView>) -> (r: Vec<TaskDeltaChange>)
    requires
        unique_view_ids(models(prev@)),
        unique_view_ids(models(cur@)),
    ensures
        change_models(r@) == delta_changes(models(prev@), models(cur@)),
{
    let ghost pm = models(prev@);
    let ghost cm = models(cur@);
    proof {
        lemma_vmap(pm);
        lemma_vmap(cm);
    }
    let mut r: Vec<TaskDeltaChange> = Vec::new();
    let mut i: usize = 0;
    while i < cur.len()
        invariant
            pm == models(prev@),
            cm == models(cur@),
            i <= cur@.len(),
            forall|id: Seq<char>| #[trigger] vmap(pm).contains_key(id) <==> exists|k: int| 0 <= k < pm.len() && pm[k].id == id,
            forall|k: int| 0 <= k < pm.len() ==> #[trigger] vmap(pm)[pm[k].id] == pm[k],
            change_models(r@) == upserts(pm, cm.subrange(0, i as int)).map_values(|v: ViewModel| ChangeModel::Upsert(v)),
        decreases cur@.len() - i,
    {
        let ghost pre = cm.subrange(0, i as int);
        assert(cm.subrange(0, i + 1).drop_last() =~= pre);
        let ghost x = cm[i as int];
        assert(cm.subrange(0, i + 1).last() == x);
        let unchanged = match index_of_view(prev, cur[i].id.as_str()) {
            Some(j) => {
                assert(vmap(pm)[x.id] == pm[j as int]);
                same_view(&prev[j], &cur[i])
            },
            None => {
                assert(!vmap(pm).contains_key(x.id));
                false
            },
        };
        if !unchanged {
            let ghost before = r@;
            r.push(TaskDeltaChange::Upsert { task: cur[i].duplicate() });
            assert(change_models(r@) =~= change_models(before).push(ChangeModel::Upsert(x)));
            assert(upserts(pm, pre).push(x).map_values(|v: ViewModel| ChangeModel::Upsert(v)) =~= upserts(
                pm,
                pre,
            ).map_values(|v: ViewModel| ChangeModel::Upsert(v)).push(ChangeModel::Upsert(x)));
        }
        i += 1;
    }
    assert(cm.subrange(0, cur@.len() as int) =~= cm);
    let ghost ups = change_models(r@);
    let mut i: usize = 0;
    while i < prev.len()
        invariant
            pm == models(prev@),
            cm == models(cur@),
            i <= prev@.len(),
            forall|id: Seq<char>| #[trigger] vmap(cm).contains_key(id) <==> exists|k: int| 0 <= k < cm.len() && cm[k].id == id,
            ups == upserts(pm, cm).map_values(|v: ViewModel| ChangeModel::Upsert(v)),
            change_models(r@) == ups + removals(pm.subrange(0, i as int), cm).map_values(
                |id: Seq<char>| ChangeModel::Remove(id),
            ),
        decreases prev@.len() - i,
    {
        let ghost pre = pm.subrange(0, i as int);
        assert(pm.subrange(0, i + 1).drop_last() =~= pre);
        let ghost y = pm[i as int];
        assert(pm.subrange(0, i + 1).last() == y);
        let found = index_of_view(cur, prev[i].id.as_str());
        if found.is_none() {
            assert(!vmap(cm).contains_key(y.id));
            let ghost before = r@;
            r.push(TaskDeltaChange::Remove { id: prev[i].id.clone() });
            assert(change_models(r@) =~= change_models(before).push(ChangeModel::Remove(y.id)));
            assert(removals(pm.subrange(0, i + 1), cm) == removals(pre, cm).push(y.id));
            assert(ups + removals(pre, cm).push(y.id).map_values(|id: Seq<char>| ChangeModel::Remove(id)) =~= (ups
                + removals(pre, cm).map_values(|id: Seq<char>| ChangeModel::Remove(id))).push(ChangeModel::Remove(y.id)));
        } else {
            assert(vmap(cm).contains_key(y.id)) by {
                let j = found.unwrap() as int;
                assert(cm[j].id == y.id);
            }
        }
        i += 1;
    }
    assert(pm.subrange(0, prev@.len() as int) =~= pm);
    r
}

pub open spec fn bump(x: u64) -> u64 {
    if x < u64::MAX {
        (x + 1) as u64
    } else {
        x
    }
}

/// Publisher of the change feed: a full snapshot first, then deltas against what was
/// last published.
pub struct ChangeFeed {
    pub revision: u64,
    pub seq: u64,
    pub emitted: bool,
    pub last: Vec<TaskView>,
}

impl ChangeFeed {
    pub open spec fn wf(&self) -> bool {
        unique_view_ids(models(self.last@))
    }

    pub fn new() -> (r: ChangeFeed)
        ensures
            r.wf(),
            r.revision == 0,
            r.seq == 0,
            !r.emitted,
            r.last@.len() == 0,
    {
        ChangeFeed { revision: 0, seq: 0, emitted: false, last: Vec::new() }
    }

    /// The event for the task set of a tick, if any: the snapshot while none has gone
    /// out, then a delta when something changed.
    pub fn publish(&mut self, tasks: Vec<TaskView>) -> (r: Option<TaskDeltaEvent>)
        requires
            old(self).wf(),
            unique_view_ids(models(tasks@)),
        ensures
            final(self).wf(),
            !old(self).emitted ==> (match r {
                Some(TaskDeltaEvent::Snapshot { revision, tasks: t }) => revision == bump(old(self).revision)
                    && models(t@) == models(tasks@),
                _ => false,
            }) && final(self).emitted && final(self).revision == bump(old(self).revision)
                && final(self).seq == old(self).seq && models(final(self).last@) == models(tasks@),
            old(self).emitted && delta_changes(models(old(self).last@), models(tasks@)).len() == 0 ==> r is None
                && final(self).revision == old(self).revision && final(self).seq == old(self).seq
                && final(self).emitted && models(final(self).last@) == models(old(self).last@),
            old(self).emitted && delta_changes(models(old(self).last@), models(tasks@)).len() > 0 ==> (match r {
                Some(TaskDeltaEvent::Delta { from_revision, to_revision, seq, changes }) => from_revision
                    == old(self).revision && to_revision == bump(old(self).revision) && seq == bump(old(self).seq)
                    && change_models(changes@) == delta_changes(models(old(self).last@), models(tasks@)),
                _ => false,
            }) && final(self).emitted && final(self).revision == bump(old(self).revision)
                && final(self).seq == bump(old(self).seq) && models(final(self).last@) == models(tasks@),
    {
        if !self.emitted {
            self.revision = if self.revision < u64::MAX { self.revision + 1 } else { self.revision };
            self.emitted = true;
            let copy = clone_views(&tasks);
            self.last = tasks;
            return Some(TaskDeltaEvent::Snapshot { revision: self.revision, tasks: copy });
        }
        let changes = compute_delta(&self.last, &tasks);
        if changes.len() == 0 {
            return None;
        }
        let from_revision = self.revision;
        self.revision = if self.revision < u64::MAX { self.revision + 1 } else { self.revision };
        self.seq = if self.seq < u64::MAX { self.seq + 1 } else { self.seq };
        self.last = tasks;
        Some(TaskDeltaEvent::Delta { from_revision, to_revision: self.revision, seq: self.seq, changes })
    }

    /// Makes the next tick publish a full snapshot, for observers that saw a gap.
    pub fn resync(&mut self)
        ensures
            !final(self).emitted,
            final(self).revision == old(self).revision,
            final(self).seq == old(self).seq,
            final(self).last@ == old(self).last@,
    {
        self.emitted = false;
    }
}

/// Poll interval while some task is live (active, waiting or paused), in milliseconds.
pub const BUSY_POLL_MS: u64 = 200;

/// Poll interval while no task is live, in milliseconds.
pub const IDLE_POLL_MS: u64 = 2000;

/// Delay before the next reconciliation tick for the task set of this one.
pub fn next_poll_delay_ms(tasks: &Vec<TaskView>) -> (r: u64)
    ensures
        r == if exists|i: int| 0 <= i < tasks@.len() && (#[trigger] tasks@[i]).state.spec_is_active() {
            BUSY_POLL_MS
        } else {
            IDLE_POLL_MS
        },
{
    let mut i: usize = 0;
    while i < tasks.len()
        invariant
            i <= tasks@.len(),
            forall|k: int| 0 <= k < i ==> !(#[trigger] tasks@[k]).state.spec_is_active(),
        decreases tasks@.len() - i,
    {
        if tasks[i].state.is_active() {
            return BUSY_POLL_MS;
        }
        i += 1;
    }
    IDLE_POLL_MS
}

/// Sum of the speeds of the active tasks, stopping at the largest value.
pub open spec fn active_speed(s: Seq<ViewModel>) -> u64
    decreases s.len(),
{
    if s.len() == 0 {
        0
    } else {
        let p = active_speed(s.drop_last());
        if s.last().state is Active {
            if p + s.last().speed > u64::MAX {
                u64::MAX
            } else {
                (p + s.last().speed) as u64
            }
        } else {
            p
        }
    }
}

/// Total download speed of the active tasks.
pub fn total_active_speed(tasks: &Vec<TaskView>) -> (r: u64)
    ensures
        r == active_speed(models(tasks@)),
{
    let mut total: u64 = 0;
    let mut i: usize = 0;
    while i < tasks.len()
        invariant
            i <= tasks@.len(),
            total == active_speed(models(tasks@).subrange(0, i as int)),
        decreases tasks@.len() - i,
    {
        assert(models(tasks@).subrange(0, i + 1).drop_last() =~= models(tasks@).subrange(0, i as int));
        if tasks[i].state == TaskState::Active {
            total = total.saturating_add(tasks[i].speed);
        }
        i += 1;
    }
    assert(models(tasks@).subrange(0, i as int) =~= models(tasks@));
    total
}

} // verus!
