use vstd::prelude::*;
use crate::state::TaskState;

verus! {

/// The durable record of one transfer, with what it takes to submit it again.
/// Times are milliseconds since the Unix epoch; byte counts are raw numbers.
#[derive(Debug, Clone)]
pub struct PersistedTask {
    pub gid: String,
    pub filename: String,
    pub url: String,
    pub save_path: String,
    pub added_at: i64,
    pub state: TaskState,
    pub total_length: u64,
    pub completed_length: u64,
    pub download_speed: u64,
    pub completed_at: Option<i64>,
    pub error_message: String,
    pub user_agent: String,
    pub referer: String,
    pub proxy: String,
    pub headers: Vec<String>,
    pub max_download_limit: String,
    pub select_file: Option<String>,
    pub trackers: Option<String>,
}

/// Mathematical model of a [`PersistedTask`].
pub ghost struct TaskRecord {
    pub gid: Seq<char>,
    pub filename: Seq<char>,
    pub url: Seq<char>,
    pub save_path: Seq<char>,
    pub added_at: i64,
    pub state: TaskState,
    pub total_length: u64,
    pub completed_length: u64,
    pub download_speed: u64,
    pub completed_at: Option<i64>,
    pub error_message: Seq<char>,
    pub user_agent: Seq<char>,
    pub referer: Seq<char>,
    pub proxy: Seq<char>,
    pub headers: Seq<Seq<char>>,
    pub max_download_limit: Seq<char>,
    pub select_file: Option<Seq<char>>,
    pub trackers: Option<Seq<char>>,
}

pub open spec fn opt_view(o: Option<String>) -> Option<Seq<char>> {
    match o {
        Some(s) => Some(s@),
        None => None,
    }
}

pub open spec fn strings_view(v: Seq<String>) -> Seq<Seq<char>> {
    v.map_values(|s: String| s@)
}

impl View for PersistedTask {
    type V = TaskRecord;

    open spec fn view(&self) -> TaskRecord {
        TaskRecord {
            gid: self.gid@,
            filename: self.filename@,
            url: self.url@,
            save_path: self.save_path@,
            added_at: self.added_at,
            state: self.state,
            total_length: self.total_length,
            completed_length: self.completed_length,
            download_speed: self.download_speed,
            completed_at: self.completed_at,
            error_message: self.error_message@,
            user_agent: self.user_agent@,
            referer: self.referer@,
            proxy: self.proxy@,
            headers: strings_view(self.headers@),
            max_download_limit: self.max_download_limit@,
            select_file: opt_view(self.select_file),
            trackers: opt_view(self.trackers),
        }
    }
}

/// A record after a move to `t` at time `now`: the single place where `completed_at`
/// is kept. Entering a stamped state stamps it (a completed transfer that goes missing
/// keeps its stamp); entering `Active` or `Waiting` clears it; staying put changes nothing.
pub open spec fn transitioned(r: TaskRecord, t: TaskState, now: i64) -> TaskRecord {
    if r.state == t {
        r
    } else if t.is_stamped() {
        if r.completed_at is Some && r.state is Complete {
            TaskRecord { state: t, ..r }
        } else {
            TaskRecord { state: t, completed_at: Some(now), ..r }
        }
    } else {
        TaskRecord { state: t, completed_at: None, ..r }
    }
}

/// The stamp is there exactly when the state asks for one.
pub open spec fn stamp_consistent(r: TaskRecord) -> bool {
    (r.completed_at is Some) == r.state.is_stamped()
}

/// A move between two different states leaves `completed_at` set exactly when the target
/// is terminal or `Paused`, and cleared exactly when it is `Active` or `Waiting`; a move to
/// the same state changes nothing.
pub proof fn lemma_transition_stamps(r: TaskRecord, t: TaskState, now: i64)
    ensures
        r.state != t ==> stamp_consistent(transitioned(r, t, now)),
        r.state != t ==> (transitioned(r, t, now).completed_at is None <==> (t is Active
            || t is Waiting)),
        r.state == t ==> transitioned(r, t, now) == r,
        transitioned(r, t, now).state == t,
        stamp_consistent(r) ==> stamp_consistent(transitioned(r, t, now)),
{
}

pub fn clone_strings(v: &Vec<String>) -> (r: Vec<String>)
    ensures
        strings_view(r@) == strings_view(v@),
{
    let mut r: Vec<String> = Vec::new();
    let mut i: usize = 0;
    while i < v.len()
        invariant
            i <= v@.len(),
            r@.len() == i,
            forall|k: int| 0 <= k < i ==> r@[k]@ == v@[k]@,
        decreases v@.len() - i,
    {
        r.push(v[i].clone());
        i += 1;
    }
    assert(strings_view(r@) =~= strings_view(v@));
    r
}

pub fn clone_opt(o: &Option<String>) -> (r: Option<String>)
    ensures
        opt_view(r) == opt_view(*o),
{
    match o {
        Some(s) => Some(s.clone()),
        None => None,
    }
}

/// Relies on chrono's `Local::now` and `DateTime::timestamp_millis`: the current time in
/// milliseconds since the epoch. Nothing is known of the value.
#[verifier::external_body]
pub(crate) fn now_millis() -> (r: i64) {
    chrono::Local::now().timestamp_millis()
}

impl PersistedTask {
    /// A copy with the same model.
    pub fn duplicate(&self) -> (r: PersistedTask)
        ensures
            r@ == self@,
    {
        PersistedTask {
            gid: self.gid.clone(),
            filename: self.filename.clone(),
            url: self.url.clone(),
            save_path: self.save_path.clone(),
            added_at: self.added_at,
            state: self.state,
            total_length: self.total_length,
            completed_length: self.completed_length,
            download_speed: self.download_speed,
            completed_at: self.completed_at,
            error_message: self.error_message.clone(),
            user_agent: self.user_agent.clone(),
            referer: self.referer.clone(),
            proxy: self.proxy.clone(),
            headers: clone_strings(&self.headers),
            max_download_limit: self.max_download_limit.clone(),
            select_file: clone_opt(&self.select_file),
            trackers: clone_opt(&self.trackers),
        }
    }

    /// Moves to `new_state` at time `now`; returns whether the state changed.
    pub fn transition_state_at(&mut self, new_state: TaskState, now: i64) -> (changed: bool)
        ensures
            final(self)@ == transitioned(old(self)@, new_state, now),
            changed == (old(self).state != new_state),
    {
        if self.state == new_state {
            return false;
        }
        let old_state = self.state;
        self.state = new_state;
        if new_state.is_terminal() || new_state == TaskState::Paused {
            if self.completed_at.is_none() || old_state != TaskState::Complete {
                self.completed_at = Some(now);
            }
        } else {
            self.completed_at = None;
        }
        true
    }

    /// Moves to `new_state`, stamping with the current time; returns whether the state
    /// changed.
    pub fn transition_state(&mut self, new_state: TaskState) -> (changed: bool)
        ensures
            exists|now: i64| final(self)@ == transitioned(old(self)@, new_state, now),
            changed == (old(self).state != new_state),
    {
        let now = now_millis();
        self.transition_state_at(new_state, now)
    }
}

} // verus!
