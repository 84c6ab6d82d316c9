use sync_remote::config::SyncLocation;
use sync_remote::execute::{backup_root, do_nothing, plan_backup, plan_transfers, Direction, Report};
use sync_remote::link::{compare_timestamps, link_all_files, resolve_verdicts, LinkedFile, Verdict};
use sync_remote::paths::{join_path, relative_to_root, starts_with, under_root};
use sync_remote::records::{truncate_to_minute, FileRecord};
use sync_remote::run::{first_stage, is_final, next_stage, Stage};
use sync_remote::walk::{EntryKind, ListingEntry, TreeWalk};

fn location(remote_path: &str, local_path: &str) -> SyncLocation {
    SyncLocation {
        remote: "ftp.example.org:21".to_string(),
        name: "docs".to_string(),
        name_encoded: "docs".to_string(),
        remote_path: remote_path.to_string(),
        local_path: local_path.to_string(),
        remote_username: "anonymous".to_string(),
        remote_password: "anon@localhost".to_string(),
        advanced_backups: false,
    }
}

fn record(root: &str, relative: &str, t: i64) -> FileRecord {
    let full = format!("{root}{relative}");
    let directory = match full.rfind('/') {
        Some(i) => full[..i].to_string(),
        None => full.clone(),
    };
    FileRecord { directory, full_path: full, relative_path: relative.to_string(), modified_at: t }
}

fn entry(name: &str, kind: EntryKind, t: Option<i64>) -> ListingEntry {
    ListingEntry { name: name.to_string(), kind, modified_at: t }
}

fn verdict_of(files: &[LinkedFile], path: &str) -> Verdict {
    let found: Vec<&LinkedFile> = files.iter().filter(|f| f.relative_path == path).collect();
    assert_eq!(found.len(), 1, "one entry for {path}");
    found[0].verdict
}

/// Runs every pass with transfers that all succeed.
fn run_all(files: &Vec<LinkedFile>, loc: &SyncLocation) -> Report {
    let mut report = Report::new();
    do_nothing(files, &mut report);
    let ups = plan_transfers(files, loc, Direction::Upload);
    let outcomes: Vec<bool> = ups.iter().map(|t| t.is_some()).collect();
    report.record_outcomes(Direction::Upload, &outcomes);
    let downs = plan_transfers(files, loc, Direction::Download);
    let outcomes: Vec<bool> = downs.iter().map(|t| t.is_some()).collect();
    report.record_outcomes(Direction::Download, &outcomes);
    report
}

#[test]
fn join_path_does_not_double_the_root() {
    assert_eq!(join_path(&"/".to_string(), "a.txt"), "/a.txt");
    assert_eq!(join_path(&"/srv/data".to_string(), "a.txt"), "/srv/data/a.txt");
}

#[test]
fn relative_paths_drop_the_root_and_keep_one_separator() {
    assert_eq!(relative_to_root(&"/srv/data/x/y.txt".to_string(), &"/srv/data".to_string()), "/x/y.txt");
    assert_eq!(relative_to_root(&"/srv/data".to_string(), &"/srv/data".to_string()), "/");
    assert_eq!(relative_to_root(&"/a.txt".to_string(), &"/".to_string()), "/a.txt");
    assert_eq!(relative_to_root(&"elsewhere".to_string(), &"/srv".to_string()), "/elsewhere");
    assert!(starts_with("/srv/data", "/srv"));
    assert!(!starts_with("/sr", "/srv"));
    assert_eq!(under_root(&"/srv".to_string(), &"/a".to_string()), "/srv/a");
}

#[test]
fn truncation_keeps_whole_minutes() {
    assert_eq!(truncate_to_minute(125), Some(120));
    assert_eq!(truncate_to_minute(120), Some(120));
    assert_eq!(truncate_to_minute(0), Some(0));
    assert_eq!(truncate_to_minute(-1), Some(-60));
    assert_eq!(truncate_to_minute(-60), Some(-60));
    assert_eq!(truncate_to_minute(i64::MIN), None);
    assert_eq!(truncate_to_minute(i64::MAX), Some(i64::MAX - 7));
}

#[test]
fn walk_is_breadth_first_and_keeps_only_regular_files() {
    let mut walk = TreeWalk::new("/home/u/sync".to_string(), true);
    walk.record_listing(&vec![
        entry("a.txt", EntryKind::File, Some(1_000_059)),
        entry("sub", EntryKind::Directory, None),
        entry("link", EntryKind::Other, Some(5)),
        entry("unreadable", EntryKind::File, None),
    ]);
    assert_eq!(walk.pending, vec!["/home/u/sync/sub".to_string()]);
    assert!(walk.advance());
    assert_eq!(walk.current, "/home/u/sync/sub");
    // A listing that failed: nothing is handed in, the walk goes on.
    walk.record_listing(&vec![entry("b.txt", EntryKind::File, Some(61))]);
    assert!(!walk.advance());
    let records = walk.into_records();
    assert_eq!(records.len(), 2);
    assert_eq!(records[0].relative_path, "/a.txt");
    assert_eq!(records[0].directory, "/home/u/sync");
    assert_eq!(records[0].full_path, "/home/u/sync/a.txt");
    assert_eq!(records[0].modified_at, 1_000_020);
    assert_eq!(records[1].relative_path, "/sub/b.txt");
    assert_eq!(records[1].modified_at, 60);
}

#[test]
fn remote_walk_keeps_seconds() {
    let mut walk = TreeWalk::new("/".to_string(), false);
    walk.record_listing(&vec![entry("a.txt", EntryKind::File, Some(61))]);
    let records = walk.into_records();
    assert_eq!(records[0].full_path, "/a.txt");
    assert_eq!(records[0].relative_path, "/a.txt");
    assert_eq!(records[0].modified_at, 61);
}

#[test]
fn minute_normalization_is_stable_across_runs() {
    let loc = location("/remote", "/local");
    let t0 = 1_700_000_040;
    for seconds in [0, 1, 30, 59] {
        let mut walk = TreeWalk::new("/local".to_string(), true);
        walk.record_listing(&vec![entry("f.txt", EntryKind::File, Some(t0 + seconds))]);
        let local = walk.into_records();
        let remote = vec![record("/remote", "/f.txt", t0)];
        let linked = resolve_verdicts(link_all_files(&remote, &local, &loc));
        assert_eq!(verdict_of(&linked, "/f.txt"), Verdict::DoNothing);
    }
}

#[test]
fn scenario_two_trees_with_one_shared_file() {
    let loc = location("/remote", "/local");
    let t0 = 1_600_000_000;
    let local = vec![record("/local", "/a.txt", t0), record("/local", "/b.txt", t0)];
    let remote = vec![record("/remote", "/a.txt", t0), record("/remote", "/c.txt", t0)];
    let linked = link_all_files(&remote, &local, &loc);
    assert_eq!(linked.len(), 3);
    assert_eq!(linked[0].relative_path, "/a.txt");
    assert_eq!(linked[0].verdict, Verdict::Undecided);
    assert_eq!(linked[1].relative_path, "/c.txt");
    assert_eq!(linked[1].verdict, Verdict::Download);
    assert_eq!(linked[2].relative_path, "/b.txt");
    assert_eq!(linked[2].verdict, Verdict::Upload);
    let resolved = resolve_verdicts(linked);
    assert_eq!(verdict_of(&resolved, "/a.txt"), Verdict::DoNothing);
    assert_eq!(verdict_of(&resolved, "/b.txt"), Verdict::Upload);
    assert_eq!(verdict_of(&resolved, "/c.txt"), Verdict::Download);
    let report = run_all(&resolved, &loc);
    assert_eq!(report, Report { uploaded: 1, downloaded: 1, ignored: 1, errors: 0 });
}

#[test]
fn scenario_newer_local_file_is_uploaded() {
    let loc = location("/remote", "/local");
    let local = vec![record("/local", "/x.txt", 1_600_000_120)];
    let remote = vec![record("/remote", "/x.txt", 1_600_000_000)];
    let resolved = resolve_verdicts(link_all_files(&remote, &local, &loc));
    assert_eq!(verdict_of(&resolved, "/x.txt"), Verdict::Upload);
    let plan = plan_transfers(&resolved, &loc, Direction::Upload);
    assert_eq!(plan.len(), 1);
    let t = plan[0].as_ref().unwrap();
    assert_eq!(t.source, "/local/x.txt");
    assert_eq!(t.target, "/remote/x.txt");
    assert_eq!(t.target_directory, "/remote/");
    assert!(plan_transfers(&resolved, &loc, Direction::Download).is_empty());
}

#[test]
fn newer_remote_file_is_downloaded() {
    let loc = location("/remote", "/local");
    let local = vec![record("/local", "/d/x.txt", 100)];
    let remote = vec![record("/remote", "/d/x.txt", 160)];
    let resolved = resolve_verdicts(link_all_files(&remote, &local, &loc));
    assert_eq!(verdict_of(&resolved, "/d/x.txt"), Verdict::Download);
    let plan = plan_transfers(&resolved, &loc, Direction::Download);
    let t = plan[0].as_ref().unwrap();
    assert_eq!(t.source, "/remote/d/x.txt");
    assert_eq!(t.target, "/local/d/x.txt");
    assert_eq!(t.target_directory, "/local/d");
}

#[test]
fn second_run_on_synced_trees_moves_nothing() {
    let loc = location("/remote", "/local");
    let local = vec![record("/local", "/a.txt", 60), record("/local", "/b/c.txt", 120)];
    let remote = vec![record("/remote", "/a.txt", 60), record("/remote", "/b/c.txt", 120)];
    let resolved = resolve_verdicts(link_all_files(&remote, &local, &loc));
    assert!(plan_transfers(&resolved, &loc, Direction::Upload).is_empty());
    assert!(plan_transfers(&resolved, &loc, Direction::Download).is_empty());
    let report = run_all(&resolved, &loc);
    assert_eq!(report, Report { uploaded: 0, downloaded: 0, ignored: 2, errors: 0 });
}

#[test]
fn timestamps_decide_at_whole_seconds() {
    assert_eq!(compare_timestamps(5, 5), Verdict::DoNothing);
    assert_eq!(compare_timestamps(6, 5), Verdict::Upload);
    assert_eq!(compare_timestamps(4, 5), Verdict::Download);
}

#[test]
fn empty_trees_link_to_nothing() {
    let loc = location("/remote", "/local");
    let linked = link_all_files(&vec![], &vec![], &loc);
    assert!(linked.is_empty());
    assert_eq!(run_all(&linked, &loc), Report::new());
}

#[test]
fn one_sided_paths_get_one_entry_each() {
    let loc = location("/r", "/l");
    let local = vec![record("/l", "/only-local", 1), record("/l", "/both", 1)];
    let remote = vec![record("/r", "/only-remote", 1), record("/r", "/both", 1)];
    let linked = link_all_files(&remote, &local, &loc);
    assert_eq!(linked.len(), 3);
    assert_eq!(verdict_of(&linked, "/only-local"), Verdict::Upload);
    assert_eq!(verdict_of(&linked, "/only-remote"), Verdict::Download);
    assert_eq!(verdict_of(&linked, "/both"), Verdict::Undecided);
    let only_local = linked.iter().find(|f| f.relative_path == "/only-local").unwrap();
    assert!(only_local.remote.is_none() && only_local.local.is_some());
    assert_eq!(only_local.relative_directory, "/");
}

#[test]
fn duplicate_paths_pair_every_match() {
    let loc = location("/r", "/l");
    let local = vec![record("/l", "/a", 1), record("/l", "/a", 2)];
    let remote = vec![record("/r", "/a", 1)];
    let linked = link_all_files(&remote, &local, &loc);
    assert_eq!(linked.len(), 2);
    assert!(linked.iter().all(|f| f.verdict == Verdict::Undecided));
}

#[test]
fn undecided_entries_are_counted_as_errors() {
    let loc = location("/r", "/l");
    let stray = LinkedFile {
        relative_path: "/ghost".to_string(),
        relative_directory: "/".to_string(),
        local: None,
        remote: None,
        verdict: Verdict::Undecided,
    };
    let resolved = resolve_verdicts(vec![stray]);
    assert_eq!(resolved[0].verdict, Verdict::Undecided);
    let report = run_all(&resolved, &loc);
    assert_eq!(report, Report { uploaded: 0, downloaded: 0, ignored: 0, errors: 1 });
}

#[test]
fn upload_without_a_local_record_is_an_error() {
    let loc = location("/r", "/l");
    let odd = LinkedFile {
        relative_path: "/x".to_string(),
        relative_directory: "/".to_string(),
        local: None,
        remote: Some(record("/r", "/x", 1)),
        verdict: Verdict::Upload,
    };
    let plan = plan_transfers(&vec![odd], &loc, Direction::Upload);
    assert_eq!(plan.len(), 1);
    assert!(plan[0].is_none());
}

#[test]
fn one_failed_transfer_counts_one_error() {
    let mut report = Report::new();
    report.record_outcomes(Direction::Upload, &vec![true, true, false, true, true]);
    assert_eq!(report, Report { uploaded: 4, downloaded: 0, ignored: 0, errors: 1 });
    report.record_outcomes(Direction::Download, &vec![false, true]);
    assert_eq!(report, Report { uploaded: 4, downloaded: 1, ignored: 0, errors: 2 });
}

#[test]
fn backup_mirrors_relative_paths() {
    let loc = SyncLocation { name_encoded: "my_docs".to_string(), ..location("/r", "/home/u/docs") };
    let root = backup_root(&"/home/u/.local/share/app".to_string(), &loc);
    assert_eq!(root, "/home/u/.local/share/app/backups/my_docs");
    let local = vec![record("/home/u/docs", "/a/b.txt", 1), record("/home/u/docs", "/c.txt", 1)];
    let plan = plan_backup(&local, &root, &loc);
    assert_eq!(plan.len(), 2);
    assert_eq!(plan[0].source, "/home/u/docs/a/b.txt");
    assert_eq!(plan[0].target, "/home/u/.local/share/app/backups/my_docs/a/b.txt");
    assert_eq!(plan[0].target_directory, "/home/u/.local/share/app/backups/my_docs/a");
    assert_eq!(plan[1].target_directory, "/home/u/.local/share/app/backups/my_docs/");
}

#[test]
fn failed_backup_aborts_before_any_transfer() {
    let mut stage = first_stage();
    for ok in [true, true, true, true] {
        stage = next_stage(stage, ok, true);
    }
    assert_eq!(stage, Stage::BackingUp);
    stage = next_stage(stage, false, true);
    assert_eq!(stage, Stage::Aborted);
    assert!(is_final(stage));
    for ok in [true, false, true] {
        stage = next_stage(stage, ok, true);
        assert_ne!(stage, Stage::Syncing);
    }
}

#[test]
fn stages_of_a_run_without_backup() {
    let mut seen = vec![first_stage()];
    let mut stage = first_stage();
    while !is_final(stage) {
        stage = next_stage(stage, true, false);
        seen.push(stage);
    }
    assert_eq!(
        seen,
        vec![Stage::Connecting, Stage::LoggingIn, Stage::ListingRemote, Stage::ListingLocal, Stage::Syncing, Stage::Finished]
    );
    assert_eq!(next_stage(Stage::Connecting, false, false), Stage::Aborted);
    assert_eq!(next_stage(Stage::LoggingIn, false, false), Stage::Aborted);
    assert_eq!(next_stage(Stage::ListingRemote, false, false), Stage::ListingLocal);
    assert_eq!(next_stage(Stage::Syncing, false, false), Stage::Finished);
}
