use rustic_backup::commands::{display_id, latest_backup_error_line, latest_backup_line, listing_row};
use rustic_backup::config::{ScheduleType, TaskConfig, TaskNotifyConfig};
use rustic_backup::rustic::{Snapshot, SnapshotSummary};
use rustic_backup::scheduler::{due_task_indices, record_selection, select_files, summary_due, LocalDate, TaskResult};
use rustic_backup::sending::{
    chunked_part_failure, finish_parts, merge_note, merge_note_name, part_failure, record_nothing_copied,
    record_oversize_skip, record_webhook_file, record_wedrive_upload, seven_zip_args, tally_part, volume_failure,
    volume_name, where_first_path, zip_name, PartTally,
};
use rustic_backup::timing::{changed_since, changed_since_instant, recent_snapshots, StampedFile};
use rustic_backup::wedrive::WedriveResult;
use rustic_backup::zip_util::FileEntry;

fn entry(name: &str) -> FileEntry {
    FileEntry { path: format!("/src/{}", name), name: name.to_string() }
}

fn stamped(name: &str, modified: Option<(i64, u32)>) -> StampedFile {
    StampedFile { entry: entry(name), modified }
}

fn snap(id: &str, time: &str) -> Snapshot {
    Snapshot { id: id.to_string(), time: time.to_string(), hostname: None, tags: vec![], paths: vec![], summary: None }
}

fn task(schedule: ScheduleType, weekday: Option<u32>, enabled: bool) -> TaskConfig {
    TaskConfig {
        name: "t".to_string(),
        source: "/s".to_string(),
        schedule,
        time: "07:30".to_string(),
        weekday,
        monthday: None,
        includes: vec![],
        exclude: vec![],
        exclude_regex: vec![],
        zip_root_files: false,
        root_file_patterns: vec![],
        notify: TaskNotifyConfig { skip_first_run: false, incremental: false, recursive_send: false },
        enabled,
    }
}

fn names(v: &[FileEntry]) -> Vec<String> {
    v.iter().map(|f| f.name.clone()).collect()
}

#[test]
fn files_changed_after_the_snapshot() {
    // 2024-01-05T07:30:00Z is 1704439800 seconds after the epoch.
    let files = vec![
        stamped("old.xlsx", Some((1704439799, 999_999_999))),
        stamped("same.xlsx", Some((1704439800, 0))),
        stamped("new.xlsx", Some((1704439800, 1))),
        stamped("unknown.xlsx", None),
    ];
    let kept = changed_since(files, "2024-01-05T07:30:00Z", (0, 0));
    assert_eq!(names(&kept), vec!["new.xlsx", "unknown.xlsx"]);
    let offset = changed_since(vec![stamped("a", Some((1704439801, 0)))], "2024-01-05T15:30:00+08:00", (0, 0));
    assert_eq!(names(&offset), vec!["a"]);
}

#[test]
fn unreadable_snapshot_time_compares_with_now() {
    let files = vec![stamped("a", Some((100, 0))), stamped("b", Some((300, 0)))];
    let kept = changed_since(files, "not a time", (200, 0));
    assert_eq!(names(&kept), vec!["b"]);
    let direct = changed_since_instant(vec![stamped("c", Some((5, 5)))], (5, 4));
    assert_eq!(names(&direct), vec!["c"]);
}

#[test]
fn recent_snapshots_of_the_last_days() {
    let now = (1704439800i64, 0u32); // 2024-01-05T07:30:00Z
    let v = vec![
        snap("a", "2024-01-04T07:30:00Z"),
        snap("b", "2024-01-02T07:30:00Z"),
        snap("c", "2024-01-02T07:30:01Z"),
        snap("d", "garbled"),
    ];
    let ids: Vec<String> = recent_snapshots(v, now, 3).into_iter().map(|s| s.id).collect();
    assert_eq!(ids, vec!["a", "c", "d"]);
}

#[test]
fn due_tasks_on_a_day() {
    let tasks = vec![
        task(ScheduleType::Daily, None, true),
        task(ScheduleType::Weekly, Some(1), true),
        task(ScheduleType::Daily, None, false),
        task(ScheduleType::Weekly, Some(2), true),
    ];
    assert_eq!(due_task_indices(&tasks, LocalDate { weekday: 1, day: 8, month: 1 }), vec![0, 1]);
    assert_eq!(due_task_indices(&tasks, LocalDate { weekday: 2, day: 9, month: 1 }), vec![0, 3]);
    assert_eq!(due_task_indices(&tasks, LocalDate { weekday: 0, day: 7, month: 1 }), vec![0]);
    assert!(summary_due(1, true));
    assert!(!summary_due(0, true));
    assert!(!summary_due(3, false));
}

#[test]
fn failed_task_result() {
    let r = TaskResult::failed("财务", "rustic 未找到");
    assert_eq!(r.task_name, "财务");
    assert!(!r.success);
    assert_eq!(r.error.as_deref(), Some("rustic 未找到"));
    assert!(r.snapshot_id.is_none());
}

#[test]
fn selection_is_recorded() {
    let mut r = TaskResult::new_for("t");
    record_selection(&mut r, &vec![Some(10), None, Some(5)], &vec![entry("a.xlsx"), entry("b.xls")]);
    assert_eq!(r.files_scanned, 3);
    assert_eq!(r.files_size, 15);
    assert_eq!(r.changed_files, vec!["a.xlsx".to_string(), "b.xls".to_string()]);
    assert_eq!(r.files_sent, 2);
}

#[test]
fn single_archive_outcomes() {
    let mut r = TaskResult::new_for("t");
    record_webhook_file(&mut r, Ok(()));
    assert_eq!(r.send_type, "webhook直发");
    assert!(r.send_success);
    record_webhook_file(&mut r, Err("timeout".to_string()));
    assert!(!r.send_success);
    assert_eq!(r.error.as_deref(), Some("发送失败: timeout"));

    let mut w = TaskResult::new_for("t");
    let ok = WedriveResult { success: true, file_path: Some("/d/x.zip".to_string()), file_id: None, error: None };
    record_wedrive_upload(&mut w, Ok(ok));
    assert_eq!(w.send_type, "微盘上传");
    assert!(w.send_success);
    assert_eq!(w.wedrive_path.as_deref(), Some("/d/x.zip"));
    let bad = WedriveResult { success: false, file_path: None, file_id: None, error: Some("denied".to_string()) };
    record_wedrive_upload(&mut w, Ok(bad));
    assert!(!w.send_success);
    assert_eq!(w.error.as_deref(), Some("denied"));
    record_wedrive_upload(&mut w, Err("no network".to_string()));
    assert_eq!(w.error.as_deref(), Some("微盘异常: no network"));

    let mut s = TaskResult::new_for("t");
    record_oversize_skip(&mut s);
    assert_eq!(s.send_type, "超限跳过");
    record_nothing_copied(&mut s);
    assert_eq!(s.send_type, "无文件可发");
    assert_eq!(zip_name("b"), "b.zip");
}

#[test]
fn parts_are_tallied() {
    let mut r = TaskResult::new_for("t");
    let mut t = PartTally::new();
    tally_part(&mut t, &mut r, None);
    tally_part(&mut t, &mut r, Some(part_failure(2, "busy")));
    tally_part(&mut t, &mut r, None);
    finish_parts(&mut r, "webhook分片", &t, 3);
    assert_eq!(r.send_type, "webhook分片(2/3)");
    assert!(!r.send_success);
    assert_eq!(r.error.as_deref(), Some("分片2发送失败: busy"));
    let mut all = TaskResult::new_for("t");
    let mut t2 = PartTally::new();
    tally_part(&mut t2, &mut all, None);
    finish_parts(&mut all, "7z分卷", &t2, 1);
    assert_eq!(all.send_type, "7z分卷(1/1)");
    assert!(all.send_success);
    assert_eq!(volume_failure(3, "x"), "分卷3发送失败: x");
    assert_eq!(chunked_part_failure(4), "分片4拆分后发送失败");
}

#[test]
fn seven_zip_volumes() {
    assert_eq!(
        seven_zip_args(18874368, "/tmp/b.zip", &vec!["/s/a".to_string(), "/s/b".to_string()]),
        vec!["a", "-tzip", "-v18874368", "-mx=1", "/tmp/b.zip", "/s/a", "/s/b"]
    );
    assert_eq!(volume_name("b", 1), "b.z01");
    assert_eq!(volume_name("b", 12), "b.z12");
    assert_eq!(where_first_path("C:\\7z\\7za.exe \r\nC:\\other\\7za.exe\r\n").as_deref(), Some("C:\\7z\\7za.exe"));
    assert!(where_first_path("").is_none());
}

#[test]
fn merge_notes() {
    assert_eq!(merge_note_name("b_part1.zip"), "b_part1.zip_合并说明.txt");
    let text = merge_note("b_part1.zip", 1536, 2);
    assert_eq!(
        text,
        "文件拆分合并说明\n================\n\n原文件: b_part1.zip\n大小: 1.50 KB\n拆分块数: 2\n\n合并方法（Windows命令行）:\n  copy /b b_part1.zip_chunk1_*.bin + b_part1.zip_chunk2_*..bin + ... b_part1.zip\n\n或使用 PowerShell:\n  Get-Content b_part1.zip_chunk*.bin -Encoding Byte | Set-Content b_part1.zip -Encoding Byte\n\n注意: 必须按序号顺序合并，合并后文件为 zip 格式，可直接解压。"
    );
}

#[test]
fn listing_rows_and_status_lines() {
    let mut s = snap("0123456789abcdef", "2024-01-05T07:30:00+08:00");
    s.tags = vec!["weekly".to_string(), "财务".to_string()];
    s.summary = Some(SnapshotSummary { files_new: Some(1), files_total: Some(42), bytes_processed: Some(2048) });
    let row = listing_row(&s, false);
    assert_eq!(row.id, "01234567");
    assert_eq!(row.time, "2024-01-05T07:30:00+08:00");
    assert_eq!(row.task, "财务");
    assert_eq!(row.files, 42);
    assert_eq!(row.size, "2.00 KB");
    assert_eq!(row.tier, "每周");
    assert_eq!(listing_row(&snap("x", "t"), true).size, "0.00 B");
    assert_eq!(
        latest_backup_line(2, "财务", &Some(s)),
        "  [2] 财务 | 2024-01-05T07:30:00+08:00 | 42 文件 | 01234567"
    );
    assert_eq!(latest_backup_line(1, "a", &None), "  [1] a | 暂无备份");
    assert_eq!(latest_backup_error_line(3, "b", "exit 1"), "  [3] b | 查询失败: exit 1");
}

#[test]
fn ids_are_cut_at_eight_bytes() {
    assert_eq!(display_id(&"中中ab".to_string(), false), "中中ab");
    assert_eq!(display_id(&"ab中中".to_string(), false), "ab中中");
    assert_eq!(display_id(&"中中中中".to_string(), true), "中中中中");
}

fn zip_task(zip: bool, incremental: bool) -> TaskConfig {
    let mut t = task(ScheduleType::Daily, None, true);
    t.zip_root_files = zip;
    t.notify.incremental = incremental;
    t
}

#[test]
fn files_selected_for_a_run() {
    let found = || vec![stamped("old.xlsx", Some((100, 0))), stamped("new.xlsx", Some((300, 0)))];
    // Incremental, with a previous snapshot: only the changed file.
    let mut r = TaskResult::new_for("t");
    let sent = select_files(&mut r, &zip_task(true, true), Some("1970-01-01T00:03:20Z"), found(), &vec![Some(1), Some(2)], (0, 0));
    assert_eq!(names(&sent), vec!["new.xlsx"]);
    assert!(!r.is_first_run);
    assert_eq!((r.files_scanned, r.files_size, r.files_sent), (2, 3, 1));
    assert_eq!(r.changed_files, vec!["new.xlsx".to_string()]);
    // First run: everything found is sent.
    let mut f = TaskResult::new_for("t");
    let all = select_files(&mut f, &zip_task(true, true), None, found(), &vec![Some(1), None], (0, 0));
    assert_eq!(names(&all), vec!["old.xlsx", "new.xlsx"]);
    assert!(f.is_first_run);
    assert_eq!((f.files_scanned, f.files_size, f.files_sent), (2, 1, 2));
    // Not incremental: everything found is sent.
    let mut n = TaskResult::new_for("t");
    let every = select_files(&mut n, &zip_task(true, false), Some("1970-01-01T00:03:20Z"), found(), &vec![None, None], (0, 0));
    assert_eq!(every.len(), 2);
    // Root files not sent: nothing counts.
    let mut z = TaskResult::new_for("t");
    let none = select_files(&mut z, &zip_task(false, true), Some("x"), found(), &vec![Some(1), Some(2)], (0, 0));
    assert!(none.is_empty());
    assert_eq!((z.files_scanned, z.files_size, z.files_sent), (0, 0, 0));
}
