use vstd::prelude::*;

verus! {

/// Lifecycle state of a tracked transfer.
#[derive(Debug, Clone, Copy, PartialEq, Eq, Structural, Hash)]
pub enum TaskState {
    Active,
    Waiting,
    Paused,
    Complete,
    Error,
    Removed,
    Missing,
}

/// The state that a worker status word stands for; unknown words read as `Waiting`.
pub open spec fn status_word_state(w: Seq<char>) -> TaskState {
    if w == "active"@ || w == "downloading"@ {
        TaskState::Active
    } else if w == "waiting"@ {
        TaskState::Waiting
    } else if w == "paused"@ {
        TaskState::Paused
    } else if w == "complete"@ || w == "completed"@ {
        TaskState::Complete
    } else if w == "error"@ {
        TaskState::Error
    } else if w == "removed"@ || w == "cancelled"@ {
        TaskState::Removed
    } else if w == "missing"@ {
        TaskState::Missing
    } else {
        TaskState::Waiting
    }
}

/// Whether `s` and `t` hold the same characters.
pub fn str_equal(s: &str, t: &str) -> (r: bool)
    ensures
        r == (s@ == t@),
{
    let n = s.unicode_len();
    if n != t.unicode_len() {
        return false;
    }
    let mut i: usize = 0;
    while i < n
        invariant
            n == s@.len(),
            n == t@.len(),
            i <= n,
            forall|j: int| 0 <= j < i ==> s@[j] == t@[j],
        decreases n - i,
    {
        if s.get_char(i) != t.get_char(i) {
            return false;
        }
        i += 1;
    }
    assert(s@ =~= t@);
    true
}

impl TaskState {
    pub open spec fn spec_is_terminal(self) -> bool {
        self is Complete || self is Error || self is Removed || self is Missing
    }

    pub open spec fn spec_is_active(self) -> bool {
        self is Active || self is Waiting || self is Paused
    }

    /// States that carry a `completed_at` stamp.
    pub open spec fn is_stamped(self) -> bool {
        self.spec_is_terminal() || self is Paused
    }

    pub open spec fn spec_as_str(self) -> Seq<char> {
        match self {
            TaskState::Active => "active"@,
            TaskState::Waiting => "waiting"@,
            TaskState::Paused => "paused"@,
            TaskState::Complete => "complete"@,
            TaskState::Error => "error"@,
            TaskState::Removed => "removed"@,
            TaskState::Missing => "missing"@,
        }
    }

    /// Reads a worker status word.
    pub fn from_aria2_status(status: &str) -> (r: TaskState)
        ensures
            r == status_word_state(status@),
    {
        proof {
            reveal_strlit("active");
            reveal_strlit("downloading");
            reveal_strlit("waiting");
            reveal_strlit("paused");
            reveal_strlit("complete");
            reveal_strlit("completed");
            reveal_strlit("error");
            reveal_strlit("removed");
            reveal_strlit("cancelled");
            reveal_strlit("missing");
        }
        if str_equal(status, "active") || str_equal(status, "downloading") {
            TaskState::Active
        } else if str_equal(status, "waiting") {
            TaskState::Waiting
        } else if str_equal(status, "paused") {
            TaskState::Paused
        } else if str_equal(status, "complete") || str_equal(status, "completed") {
            TaskState::Complete
        } else if str_equal(status, "error") {
            TaskState::Error
        } else if str_equal(status, "removed") || str_equal(status, "cancelled") {
            TaskState::Removed
        } else if str_equal(status, "missing") {
            TaskState::Missing
        } else {
            TaskState::Waiting
        }
    }

    /// The status word of this state.
    pub fn as_str(&self) -> (r: &'static str)
        ensures
            r@ == self.spec_as_str(),
    {
        proof {
            reveal_strlit("active");
            reveal_strlit("waiting");
            reveal_strlit("paused");
            reveal_strlit("complete");
            reveal_strlit("error");
            reveal_strlit("removed");
            reveal_strlit("missing");
        }
        match self {
            TaskState::Active => "active",
            TaskState::Waiting => "waiting",
            TaskState::Paused => "paused",
            TaskState::Complete => "complete",
            TaskState::Error => "error",
            TaskState::Removed => "removed",
            TaskState::Missing => "missing",
        }
    }

    /// Sort score: 1 for the live states, 0 for the others.
    pub fn score(&self) -> (r: i32)
        ensures
            r == (if self.spec_is_active() { 1i32 } else { 0i32 }),
    {
        match self {
            TaskState::Active | TaskState::Waiting | TaskState::Paused => 1,
            _ => 0,
        }
    }

    pub fn is_active(&self) -> (r: bool)
        ensures
            r == self.spec_is_active(),
    {
        matches!(self, TaskState::Active | TaskState::Waiting | TaskState::Paused)
    }

    pub fn is_terminal(&self) -> (r: bool)
        ensures
            r == self.spec_is_terminal(),
    {
        matches!(self, TaskState::Complete | TaskState::Removed | TaskState::Error | TaskState::Missing)
    }
}

/// Reads a worker status word into a state.
pub fn map_status(aria2_status: &str) -> (r: TaskState)
    ensures
        r == status_word_state(aria2_status@),
{
    TaskState::from_aria2_status(aria2_status)
}

pub fn get_state_score(state: TaskState) -> (r: i32)
    ensures
        r == (if state.spec_is_active() { 1i32 } else { 0i32 }),
{
    state.score()
}

pub fn is_active_state(state: TaskState) -> (r: bool)
    ensures
        r == state.spec_is_active(),
{
    state.is_active()
}

} // verus!
