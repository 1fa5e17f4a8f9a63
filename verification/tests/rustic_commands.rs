use rustic_backup::commands::list_tags;
use rustic_backup::config::{Config, NotifyConfig, RepoConfig, RetentionConfig, ScheduleType, TaskConfig, TaskNotifyConfig};
use rustic_backup::rustic::{
    extract_number_from_line, format_size, joined_output, parse_diff_line, retention_tier, size_with_places, CmdOutput,
    DiffChangeType, RepoStats, Rustic, RusticAction, RusticError, Snapshot,
};

fn rustic() -> Rustic {
    Rustic { repo_path: "D:\\repo".to_string(), password: "pw".to_string() }
}

fn out(stdout: &str, stderr: &str, code: i32) -> CmdOutput {
    CmdOutput { stdout: stdout.to_string(), stderr: stderr.to_string(), code }
}

fn task(name: &str, schedule: ScheduleType) -> TaskConfig {
    TaskConfig {
        name: name.to_string(),
        source: "D:\\data".to_string(),
        schedule,
        time: "07:30".to_string(),
        weekday: None,
        monthday: None,
        includes: vec![],
        exclude: vec![],
        exclude_regex: vec![],
        zip_root_files: false,
        root_file_patterns: vec![],
        notify: TaskNotifyConfig { skip_first_run: false, incremental: false, recursive_send: false },
        enabled: true,
    }
}

fn snap(id: &str, time: &str, tags: &[&str]) -> Snapshot {
    Snapshot {
        id: id.to_string(),
        time: time.to_string(),
        hostname: None,
        tags: tags.iter().map(|t| t.to_string()).collect(),
        paths: vec![],
        summary: None,
    }
}

fn strs(v: &[&str]) -> Vec<String> {
    v.iter().map(|s| s.to_string()).collect()
}

#[test]
fn format_size_examples() {
    assert_eq!(format_size(0), "0.00 B");
    assert_eq!(format_size(512), "512.00 B");
    assert_eq!(format_size(1023), "1023.00 B");
    assert_eq!(format_size(1024), "1.00 KB");
    assert_eq!(format_size(1536), "1.50 KB");
    assert_eq!(format_size(1048576), "1.00 MB");
    assert_eq!(format_size(5 * 1073741824), "5.00 GB");
    assert_eq!(format_size(3 * 1099511627776), "3.00 TB");
    assert_eq!(format_size(2048 * 1099511627776), "2048.00 TB");
    assert_eq!(format_size(1u64 << 50), "1024.00 TB");
    assert_eq!(format_size(u64::MAX), "16777216.00 TB");
}

#[test]
fn format_size_agrees_with_float_formatting() {
    let units = ["B", "KB", "MB", "GB", "TB"];
    let mut samples: Vec<u64> = vec![u64::MAX, u64::MAX - 1, 1 << 53, (1 << 53) + 1, 9_007_199_254_740_993];
    let mut x: u64 = 1;
    for _ in 0..400 {
        x = x.wrapping_mul(6364136223846793005).wrapping_add(1442695040888963407);
        samples.push(x >> (x % 60));
        samples.push(x);
    }
    for k in 0..2000u64 {
        samples.push(k * 37 + 5);
        samples.push(1024 * k + 5);
        samples.push(1048576 * k + 5243);
    }
    for b in samples {
        let mut size = b as f64;
        let mut idx = 0;
        while size >= 1024.0 && idx < units.len() - 1 {
            size /= 1024.0;
            idx += 1;
        }
        assert_eq!(format_size(b), format!("{:.2} {}", size, units[idx]), "bytes = {}", b);
        assert_eq!(size_with_places(b, 1), format!("{:.1} {}", size, units[idx]), "bytes = {}", b);
    }
}

#[test]
fn numbers_in_lines() {
    assert_eq!(extract_number_from_line(&"total: 1,234 files".chars().collect()), Some(1234));
    assert_eq!(extract_number_from_line(&"none".chars().collect()), None);
    assert_eq!(extract_number_from_line(&"99999999999999999999".chars().collect()), None);
}

#[test]
fn retention_tiers() {
    assert_eq!(retention_tier(&snap("a", "t", &["x", "weekly", "daily"])), "每周");
    assert_eq!(retention_tier(&snap("a", "t", &["yearly"])), "每年");
    assert_eq!(retention_tier(&snap("a", "t", &["任务"])), "未知");
}

#[test]
fn diff_lines() {
    let l = |s: &str| -> Vec<char> { s.chars().collect() };
    let a = parse_diff_line(&l("+ docs/new.txt")).unwrap();
    assert_eq!(a.path, "docs/new.txt");
    assert_eq!(a.change_type, DiffChangeType::Added);
    let m = parse_diff_line(&l("M  a.xlsx")).unwrap();
    assert_eq!(m.change_type, DiffChangeType::Modified);
    assert_eq!(m.path, "a.xlsx");
    let r = parse_diff_line(&l("-old.doc")).unwrap();
    assert_eq!(r.change_type, DiffChangeType::Removed);
    assert_eq!(r.path, "old.doc");
    let a2 = parse_diff_line(&l("Added: x/y.txt")).unwrap();
    assert_eq!(a2.change_type, DiffChangeType::Added);
    assert_eq!(a2.path, "x/y.txt");
    let m2 = parse_diff_line(&l("modified:  z")).unwrap();
    assert_eq!(m2.change_type, DiffChangeType::Modified);
    assert_eq!(m2.path, "z");
    let r2 = parse_diff_line(&l("REMOVED: w")).unwrap();
    assert_eq!(r2.change_type, DiffChangeType::Removed);
    assert_eq!(r2.path, "w");
    assert!(parse_diff_line(&l("  ")).is_none());
    assert!(parse_diff_line(&l("unchanged: q")).is_none());
}

#[test]
fn diff_of_command_output() {
    let files = rustic().diff(&out("+ a\nM b\n\n", "- c\nnoise", 0)).ok().unwrap();
    let got: Vec<(String, DiffChangeType)> = files.into_iter().map(|f| (f.path, f.change_type)).collect();
    assert_eq!(
        got,
        vec![
            ("a".to_string(), DiffChangeType::Added),
            ("b".to_string(), DiffChangeType::Modified),
            ("c".to_string(), DiffChangeType::Removed),
        ]
    );
    assert!(matches!(
        rustic().diff(&out("", "boom", 2)),
        Err(RusticError::CommandFailed { action: RusticAction::Diff, code: 2, .. })
    ));
}

#[test]
fn command_lines() {
    let r = rustic();
    assert_eq!(r.base_args(), strs(&["--repo", "D:\\repo"]));
    assert_eq!(r.init_args(), strs(&["--repo", "D:\\repo", "init"]));
    assert_eq!(
        r.backup_args(&task("财务", ScheduleType::Weekly), &strs(&["--glob", "!*.tmp"])),
        strs(&["--repo", "D:\\repo", "backup", "D:\\data", "--tag", "weekly", "--tag", "财务", "--glob", "!*.tmp"])
    );
    assert_eq!(r.snapshots_args(), strs(&["--repo", "D:\\repo", "snapshots", "--json"]));
    assert_eq!(
        r.restore_args("abc", "E:\\out", None),
        strs(&["--repo", "D:\\repo", "restore", "abc", "--target", "E:\\out"])
    );
    assert_eq!(
        r.restore_args("abc", "E:\\out", Some("docs")),
        strs(&["--repo", "D:\\repo", "restore", "abc", "--target", "E:\\out", "--include", "docs"])
    );
    let retention = RetentionConfig { daily: 15, weekly: 12, monthly: 12, yearly: 3 };
    assert_eq!(
        r.forget_args(&retention, Some("财务"), true),
        strs(&[
            "--repo", "D:\\repo", "forget", "--keep-daily", "15", "--keep-weekly", "12", "--keep-monthly", "12",
            "--keep-yearly", "3", "--tag", "财务", "--dry-run",
        ])
    );
    assert_eq!(r.forget_args(&retention, None, false).last().unwrap(), "--prune");
    assert_eq!(r.check_args(), strs(&["--repo", "D:\\repo", "check"]));
    assert_eq!(r.diff_args("a", "b"), strs(&["--repo", "D:\\repo", "diff", "a", "b"]));
    let (k, v) = r.password_env();
    assert_eq!(k, "RUSTIC_PASSWORD");
    assert_eq!(v, "pw");
}

#[test]
fn rustic_from_config() {
    let c = Config {
        repo: RepoConfig { path: "/r".to_string(), password: "p".to_string() },
        notify: NotifyConfig {
            webhook: String::new(),
            wedrive_enabled: false,
            max_webhook_size: 1,
            split_large_files: false,
            split_part_size: 1,
        },
        retention: RetentionConfig::default(),
        tasks: vec![],
        rustic_path: None,
        log_dir: None,
    };
    let r = Rustic::new(&c);
    assert_eq!(r.repo_path, "/r");
    assert_eq!(r.password, "p");
}

#[test]
fn init_refuses_existing_repository() {
    assert!(matches!(rustic().init_check(true), Err(RusticError::RepoExists { .. })));
    assert!(rustic().init_check(false).is_ok());
    assert!(rustic().init(&out("", "", 0)).is_ok());
    assert!(matches!(
        rustic().init(&out("", "bad", 1)),
        Err(RusticError::CommandFailed { action: RusticAction::Init, code: 1, .. })
    ));
}

#[test]
fn backup_reports_snapshot_id() {
    let o = out("files: 3\nsnapshot 1a2b3c4d successfully saved\n", "", 0);
    assert_eq!(rustic().backup(&o).ok().unwrap(), "1a2b3c4d");
    let e = out("", "snapshot 9f9f9f9f successfully saved.", 0);
    assert_eq!(rustic().backup(&e).ok().unwrap(), "9f9f9f9f");
    assert!(matches!(rustic().backup(&out("done", "", 0)), Err(RusticError::MissingSnapshotId { .. })));
    assert!(matches!(
        rustic().backup(&out("", "x", 3)),
        Err(RusticError::CommandFailed { action: RusticAction::Backup, code: 3, .. })
    ));
}

#[test]
fn snapshots_filtered_by_tags() {
    let all = vec![
        snap("a", "2024-01-01", &["daily", "财务"]),
        snap("b", "2024-01-02", &["weekly", "财务"]),
        snap("c", "2024-01-03", &["daily", "人事"]),
    ];
    let tags = strs(&["daily", "财务"]);
    let kept = rustic().snapshots(&out("[]", "", 0), Ok(all), &tags).ok().unwrap();
    assert_eq!(kept.len(), 1);
    assert_eq!(kept[0].id, "a");
    assert!(matches!(
        rustic().snapshots(&out("", "", 0), Err("bad json".to_string()), &tags),
        Err(RusticError::InvalidSnapshotList { .. })
    ));
    assert!(matches!(
        rustic().snapshots(&out("", "", 1), Ok(vec![]), &tags),
        Err(RusticError::CommandFailed { action: RusticAction::Snapshots, .. })
    ));
}

#[test]
fn task_tags_and_latest_snapshot() {
    assert_eq!(Rustic::task_tags(&task("a", ScheduleType::Monthly)), strs(&["monthly", "a"]));
    let v = vec![
        snap("a", "2024-01-01T00:00:00", &[]),
        snap("b", "2024-05-01T00:00:00", &[]),
        snap("c", "2024-05-01T00:00:00", &[]),
        snap("d", "2024-03-01T00:00:00", &[]),
    ];
    assert_eq!(rustic().latest_snapshot(v).unwrap().id, "b");
    assert!(rustic().latest_snapshot(vec![]).is_none());
}

#[test]
fn repoinfo_from_json() {
    let j = r#"{"index":{"blobs":[]},"total_size":4096,"snapshots":7}"#;
    let info = rustic().repoinfo(&out(j, "", 0));
    assert_eq!(info.stats.total_size, 4096);
    assert_eq!(info.stats.snapshot_count, 7);
    assert!(!info.needs_snapshot_count);
}

#[test]
fn repoinfo_from_text() {
    let t = "repository\nTotal Size: 1,024 bytes\nsomething else\n";
    let info = rustic().repoinfo(&out(t, "", 0));
    assert_eq!(info.stats.total_size, 1024);
    let failed = rustic().repoinfo(&out("", "", 1));
    assert_eq!(failed.stats, RepoStats::default());
}

#[test]
fn forget_output_joins_streams() {
    assert_eq!(rustic().forget_and_prune(&out("a", "b", 0)).ok().unwrap(), "a\nb");
    assert_eq!(joined_output(&out("x", "", 0)), "x\n");
    assert!(matches!(
        rustic().forget_and_prune(&out("a", "b", 1)),
        Err(RusticError::CommandFailed { action: RusticAction::Forget, .. })
    ));
}

#[test]
fn check_and_restore_outcomes() {
    assert!(rustic().check(&out("ok", "", 0)).is_ok());
    assert!(matches!(
        rustic().check(&out("", "err", 1)),
        Err(RusticError::CommandFailed { action: RusticAction::Check, .. })
    ));
    assert!(rustic().restore(&out("", "", 0)).is_ok());
    assert!(matches!(
        rustic().restore(&out("", "", 4)),
        Err(RusticError::CommandFailed { action: RusticAction::Restore, code: 4, .. })
    ));
}

#[test]
fn task_listing_finds_backups_of_the_task() {
    let c = Config {
        repo: RepoConfig { path: "/r".to_string(), password: "p".to_string() },
        notify: NotifyConfig {
            webhook: String::new(),
            wedrive_enabled: false,
            max_webhook_size: 1,
            split_large_files: false,
            split_part_size: 1,
        },
        retention: RetentionConfig::default(),
        tasks: vec![task("财务", ScheduleType::Weekly), task("人事", ScheduleType::Daily)],
        rustic_path: None,
        log_dir: None,
    };
    let r = Rustic::new(&c);
    let line = r.backup_args(&c.tasks[0], &vec![]);
    let tags: Vec<&str> = line.iter().enumerate().filter(|(i, _)| *i > 0 && line[i - 1] == "--tag").map(|(_, t)| t.as_str()).collect();
    let made = vec![snap("new", "2024-01-01", &tags), snap("other", "2024-01-01", &["daily", "人事"])];
    let shown = r.snapshots(&out("", "", 0), Ok(made), &list_tags(&c, Some(1), None)).ok().unwrap();
    assert_eq!(shown.len(), 1);
    assert_eq!(shown[0].id, "new");
}
