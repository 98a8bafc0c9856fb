use mua_core::feed::{compute_delta, to_view, ChangeFeed, TaskDeltaChange, TaskDeltaEvent, TaskView, calculate_remaining_secs};
use mua_core::reconcile::{apply_lookup, find_orphans, reconcile_task, reconcile_tasks, Aria2File, Aria2Task};
use mua_core::state::{get_state_score, is_active_state, map_status, TaskState};
use mua_core::supervisor::{on_worker_exit, ExitAction, LogBuffer};
use mua_core::task::PersistedTask;

fn task(gid: &str, state: TaskState) -> PersistedTask {
    PersistedTask {
        gid: gid.to_string(),
        filename: "file.bin".to_string(),
        url: "http://x/file.bin".to_string(),
        save_path: "/d".to_string(),
        added_at: 1,
        state,
        total_length: 0,
        completed_length: 0,
        download_speed: 7,
        completed_at: None,
        error_message: String::new(),
        user_agent: String::new(),
        referer: String::new(),
        proxy: String::new(),
        headers: vec![],
        max_download_limit: String::new(),
        select_file: None,
        trackers: None,
    }
}

fn live(gid: &str, status: &str, path: &str) -> Aria2Task {
    Aria2Task {
        gid: gid.to_string(),
        status: status.to_string(),
        total_length: "1000".to_string(),
        completed_length: "250".to_string(),
        download_speed: "50".to_string(),
        upload_length: "0".to_string(),
        upload_speed: "0".to_string(),
        error_code: None,
        error_message: None,
        dir: "/d".to_string(),
        files: vec![Aria2File {
            index: "1".to_string(),
            path: path.to_string(),
            length: "1000".to_string(),
            completed_length: "250".to_string(),
            selected: "true".to_string(),
            uris: vec![],
        }],
    }
}

#[test]
fn status_words_map_to_states() {
    assert_eq!(map_status("downloading"), TaskState::Active);
    assert_eq!(map_status("completed"), TaskState::Complete);
    assert_eq!(map_status("cancelled"), TaskState::Removed);
    assert_eq!(map_status("bogus"), TaskState::Waiting);
    assert_eq!(TaskState::Missing.as_str(), "missing");
    assert_eq!(get_state_score(TaskState::Paused), 1);
    assert_eq!(get_state_score(TaskState::Error), 0);
    assert!(is_active_state(TaskState::Waiting));
    assert!(TaskState::Removed.is_terminal());
}

#[test]
fn live_status_updates_counters_and_name() {
    let mut t = task("g", TaskState::Waiting);
    let l = live("g", "active", "/d/file.1.bin");
    assert!(!reconcile_task(&mut t, Some(&l), true, 10));
    assert_eq!(t.state, TaskState::Active);
    assert_eq!((t.total_length, t.completed_length, t.download_speed), (1000, 250, 50));
    assert_eq!(t.filename, "file.1.bin");
    assert_eq!(t.completed_at, None);
}

#[test]
fn complete_without_file_becomes_missing() {
    let mut t = task("g", TaskState::Active);
    let l = live("g", "complete", "/d/file.bin");
    reconcile_task(&mut t, Some(&l), false, 10);
    assert_eq!(t.state, TaskState::Missing);
    assert_eq!(t.completed_at, Some(10));
    let mut e = task("e", TaskState::Error);
    assert!(!reconcile_task(&mut e, None, false, 11));
    assert_eq!(e.state, TaskState::Error);
}

#[test]
fn worker_crash_marks_lost_tasks_as_error() {
    assert_eq!(
        on_worker_exit(None, Some(9), false),
        ExitAction::Restart { report_crash: true, delay_secs: 5 }
    );
    assert_eq!(on_worker_exit(Some(0), None, true), ExitAction::Stop);
    let mut tasks = vec![task("a", TaskState::Active), task("b", TaskState::Active)];
    let lookups = reconcile_tasks(&mut tasks, &vec![], &vec![true, true], 100);
    assert_eq!(lookups, vec!["a".to_string(), "b".to_string()]);
    for t in tasks.iter_mut() {
        apply_lookup(t, None, 101);
    }
    assert!(tasks.iter().all(|t| t.state == TaskState::Error && t.download_speed == 0));
    assert!(tasks.iter().all(|t| t.completed_at == Some(101)));
}

#[test]
fn stderr_tail_keeps_last_lines() {
    let mut b = LogBuffer::new(2);
    b.push("one".to_string());
    b.push("two".to_string());
    b.push("three".to_string());
    assert_eq!(b.lines, vec!["two".to_string(), "three".to_string()]);
}

#[test]
fn orphans_are_the_untracked_live_ids() {
    let tasks = vec![task("a", TaskState::Active)];
    let l = vec![live("a", "active", "/d/x"), live("o", "active", "/d/y"), live("o", "paused", "/d/y")];
    assert_eq!(find_orphans(&tasks, &l), vec!["o".to_string()]);
    let mut mine = tasks.clone();
    reconcile_tasks(&mut mine, &l, &vec![true], 5);
    assert_eq!(mine.len(), 1);
    assert_eq!(mine[0].gid, "a");
}

fn view(id: &str, completed: u64) -> TaskView {
    let mut t = task(id, TaskState::Active);
    t.completed_length = completed;
    t.total_length = 100;
    to_view(&t)
}

#[test]
fn delta_holds_exactly_the_changes() {
    let s0 = vec![view("a", 1), view("b", 2), view("c", 3)];
    let s1 = vec![view("a", 1), view("b", 5), view("d", 0)];
    let changes = compute_delta(&s0, &s1);
    let mut ups = vec![];
    let mut rems = vec![];
    for c in &changes {
        match c {
            TaskDeltaChange::Upsert { task } => ups.push((task.id.clone(), task.completed)),
            TaskDeltaChange::Remove { id } => rems.push(id.clone()),
        }
    }
    assert_eq!(ups, vec![("b".to_string(), 5), ("d".to_string(), 0)]);
    assert_eq!(rems, vec!["c".to_string()]);
    let mut applied: Vec<(String, u64)> = s0.iter().map(|v| (v.id.clone(), v.completed)).collect();
    for c in &changes {
        match c {
            TaskDeltaChange::Upsert { task } => {
                applied.retain(|(id, _)| id != &task.id);
                applied.push((task.id.clone(), task.completed));
            }
            TaskDeltaChange::Remove { id } => applied.retain(|(i, _)| i != id),
        }
    }
    applied.sort();
    let mut expected: Vec<(String, u64)> = s1.iter().map(|v| (v.id.clone(), v.completed)).collect();
    expected.sort();
    assert_eq!(applied, expected);
}

#[test]
fn feed_sends_snapshot_then_deltas() {
    let mut f = ChangeFeed::new();
    match f.publish(vec![view("a", 1)]) {
        Some(TaskDeltaEvent::Snapshot { revision, tasks }) => {
            assert_eq!(revision, 1);
            assert_eq!(tasks.len(), 1);
        }
        _ => panic!("expected a snapshot"),
    }
    assert!(f.publish(vec![view("a", 1)]).is_none());
    match f.publish(vec![view("a", 2)]) {
        Some(TaskDeltaEvent::Delta { from_revision, to_revision, seq, changes }) => {
            assert_eq!((from_revision, to_revision, seq), (1, 2, 1));
            assert_eq!(changes.len(), 1);
        }
        _ => panic!("expected a delta"),
    }
    f.resync();
    assert!(matches!(f.publish(vec![]), Some(TaskDeltaEvent::Snapshot { revision: 3, .. })));
}

#[test]
fn remaining_seconds() {
    assert_eq!(calculate_remaining_secs(10, 100, 40), 6);
    assert_eq!(calculate_remaining_secs(0, 100, 40), 0);
    assert_eq!(calculate_remaining_secs(10, 40, 100), 0);
    assert_eq!(view("a", 40).remaining_secs, 8);
}
