use mua_core::error::AppError;
use mua_core::state::TaskState;
use mua_core::store::{SaveAction, TaskStore};
use mua_core::task::PersistedTask;
use mua_core::commands::{partition_batch, should_smart_resume, resubmission_of, Resubmission};

fn task(gid: &str, name: &str, added_at: i64, state: TaskState) -> PersistedTask {
    PersistedTask {
        gid: gid.to_string(),
        filename: name.to_string(),
        url: format!("http://x/{}", name),
        save_path: "/downloads".to_string(),
        added_at,
        state,
        total_length: 100,
        completed_length: 40,
        download_speed: 10,
        completed_at: None,
        error_message: String::new(),
        user_agent: "ua".to_string(),
        referer: String::new(),
        proxy: String::new(),
        headers: vec!["Cookie: a=1".to_string()],
        max_download_limit: String::new(),
        select_file: None,
        trackers: None,
    }
}

#[test]
fn store_keeps_newest_first_and_replaces_by_id() {
    let mut s = TaskStore::new();
    s.add_task(task("a", "a.bin", 10, TaskState::Active));
    s.add_task(task("b", "b.bin", 30, TaskState::Waiting));
    s.add_task(task("c", "c.bin", 20, TaskState::Paused));
    let ids: Vec<String> = s.get_all().iter().map(|t| t.gid.clone()).collect();
    assert_eq!(ids, vec!["b", "c", "a"]);
    s.add_task(task("a", "renamed.bin", 40, TaskState::Active));
    let all = s.get_all();
    assert_eq!(all.len(), 3);
    assert_eq!(all[0].gid, "a");
    assert_eq!(all[0].filename, "renamed.bin");
    assert!(s.get_task("zzz").is_none());
    assert_eq!(s.get_task("c").unwrap().filename, "c.bin");
}

#[test]
fn state_transition_stamps_completed_at() {
    let mut t = task("a", "a.bin", 1, TaskState::Active);
    assert!(t.transition_state_at(TaskState::Paused, 500));
    assert_eq!(t.completed_at, Some(500));
    assert!(t.transition_state_at(TaskState::Active, 600));
    assert_eq!(t.completed_at, None);
    assert!(t.transition_state_at(TaskState::Complete, 700));
    assert_eq!(t.completed_at, Some(700));
    assert!(!t.transition_state_at(TaskState::Complete, 800));
    assert_eq!(t.completed_at, Some(700));
    assert!(t.transition_state_at(TaskState::Missing, 900));
    assert_eq!(t.completed_at, Some(700));
    let mut w = task("w", "w.bin", 1, TaskState::Waiting);
    assert!(w.transition_state_at(TaskState::Error, 42));
    assert_eq!(w.completed_at, Some(42));
}

#[test]
fn debounced_saves_leave_one_deferred_writer() {
    let mut s = TaskStore::new();
    assert_eq!(s.save_at(2000), SaveAction::WriteNow);
    assert_eq!(s.save_at(2100), SaveAction::ScheduleDeferred { delay_ms: 1500 });
    assert_eq!(s.save_at(2200), SaveAction::Coalesced);
    assert_eq!(s.save_at(3000), SaveAction::Coalesced);
    assert!(s.deferred_fire(3600));
    assert!(!s.deferred_fire(3700));
    assert_eq!(s.save_at(5200), SaveAction::WriteNow);
    assert_eq!(s.force_save(), SaveAction::WriteNow);
}

#[test]
fn batch_state_and_bulk_moves() {
    let mut s = TaskStore::new();
    s.add_task(task("a", "a.bin", 1, TaskState::Active));
    s.add_task(task("b", "b.bin", 2, TaskState::Waiting));
    s.add_task(task("c", "c.bin", 3, TaskState::Complete));
    s.update_batch_state_at(&vec!["a".to_string(), "zz".to_string(), "a".to_string()], TaskState::Removed, 77);
    assert_eq!(s.get_task("a").unwrap().state, TaskState::Removed);
    assert_eq!(s.get_task("a").unwrap().completed_at, Some(77));
    s.update_all_active_to_paused_at(88);
    assert_eq!(s.get_task("b").unwrap().state, TaskState::Paused);
    assert_eq!(s.get_task("b").unwrap().completed_at, Some(88));
    assert_eq!(s.get_task("c").unwrap().state, TaskState::Complete);
    s.update_all_paused_to_waiting();
    assert_eq!(s.get_task("b").unwrap().state, TaskState::Waiting);
    assert_eq!(s.get_task("b").unwrap().completed_at, None);
    s.update_filename("c", "c (1).bin");
    assert_eq!(s.get_task("c").unwrap().filename, "c (1).bin");
    s.update_from_aria2_at("c", TaskState::Complete, 5, 6, 7, 99);
    let c = s.get_task("c").unwrap();
    assert_eq!((c.completed_length, c.download_speed, c.total_length), (5, 6, 7));
    let names = s.get_active_filenames();
    assert_eq!(names.len(), 3);
}

#[test]
fn smart_resume_replaces_the_entry() {
    let mut s = TaskStore::new();
    s.add_task(task("old", "movie.mkv", 5, TaskState::Error));
    assert!(should_smart_resume(&s.get_task("old")));
    assert!(!should_smart_resume(&None));
    match resubmission_of(&s.get_task("old").unwrap()) {
        Resubmission::Uri { url } => assert_eq!(url, "http://x/movie.mkv"),
        Resubmission::Torrent { .. } => panic!("expected a URL"),
    }
    assert!(s.replace_resubmitted("old", "new".to_string(), 50));
    assert!(s.get_task("old").is_none());
    let n = s.get_task("new").unwrap();
    assert_eq!(n.state, TaskState::Waiting);
    assert_eq!((n.completed_length, n.total_length, n.download_speed), (0, 0, 0));
    assert_eq!(n.completed_at, None);
    assert_eq!(n.filename, "movie.mkv");
    assert_eq!(n.url, "http://x/movie.mkv");
    assert_eq!(n.save_path, "/downloads");
    assert_eq!(n.headers, vec!["Cookie: a=1".to_string()]);
    assert!(!s.replace_resubmitted("missing", "x".to_string(), 60));
}

#[test]
fn torrent_source_is_resubmitted_from_its_file() {
    let mut t = task("t", "a.torrent", 1, TaskState::Complete);
    t.url = "file:///tmp/a.torrent".to_string();
    match resubmission_of(&t) {
        Resubmission::Torrent { path } => assert_eq!(path, "/tmp/a.torrent"),
        Resubmission::Uri { .. } => panic!("expected a torrent"),
    }
}

#[test]
fn remove_batch_reports_the_one_failed_id() {
    let mut s = TaskStore::new();
    s.add_task(task("g1", "one.bin", 1, TaskState::Active));
    s.add_task(task("g2", "two.bin", 2, TaskState::Active));
    s.add_task(task("g3", "three.bin", 3, TaskState::Active));
    let gids = vec!["g1".to_string(), "g2".to_string(), "g3".to_string()];
    let cancel = vec![None, Some(AppError::Aria2("connection refused".to_string())), None];
    let purge = vec![None, None, Some(AppError::Aria2("GID g3 is not found".to_string()))];
    let r = partition_batch(&gids, &cancel, &purge);
    assert_eq!(r.requested, 3);
    assert_eq!(r.failed_gids, vec!["g2".to_string()]);
    assert_eq!(r.succeeded_gids, vec!["g1".to_string(), "g3".to_string()]);
    assert!(r.partial);
    let removed = s.remove_tasks_batch(&r.succeeded_gids);
    assert_eq!(removed, vec!["g1".to_string(), "g3".to_string()]);
    assert!(s.get_task("g1").is_none());
    assert!(s.get_task("g3").is_none());
    assert!(s.get_task("g2").is_some());
    assert_eq!(s.get_all().len(), 1);
    assert_eq!(s.save_at(10_000), SaveAction::WriteNow);
}

#[test]
fn remove_task_reports_presence() {
    let mut s = TaskStore::new();
    s.add_task(task("a", "a.bin", 1, TaskState::Active));
    assert!(s.remove_task("a"));
    assert!(!s.remove_task("a"));
    s.add_task(task("x", "x.bin", 1, TaskState::Active));
    s.update_all(vec![task("x", "y.bin", 1, TaskState::Paused), task("z", "z.bin", 2, TaskState::Waiting)]);
    assert_eq!(s.get_task("x").unwrap().filename, "y.bin");
    assert!(s.get_task("z").is_some());
}

#[test]
fn not_found_errors_are_recognised() {
    assert!(AppError::aria2("GID abc is not found".to_string()).is_aria2_not_found());
    assert!(!AppError::aria2("timeout".to_string()).is_aria2_not_found());
    assert!(!AppError::validation("not found".to_string()).is_aria2_not_found());
    assert!(matches!(AppError::task_not_found("g".to_string()), AppError::TaskNotFound(m) if m == "g"));
    assert!(matches!(AppError::io("disk".to_string()), AppError::Fs(_)));
    assert!(matches!(AppError::config("c".to_string()), AppError::Config(_)));
}
