use rustic_backup::config::{NotifyConfig, ScheduleType, TaskConfig, TaskNotifyConfig};
use rustic_backup::report::summary_markdown;
use rustic_backup::scheduler::{
    archive_base_name, chunk_name, chunk_plan, needs_split, part_name, parts_summary, record_backup,
    record_missing_source, record_plan, send_plan, sends_changes_only, should_run_on,
    single_archive_route, split_into_groups, staging_dir_name, ArchiveRoute, LocalDate, SendPlan, SizedFile,
    TaskResult,
};

fn task(schedule: ScheduleType, weekday: Option<u32>, monthday: Option<u32>, enabled: bool) -> TaskConfig {
    TaskConfig {
        name: "财务".to_string(),
        source: "D:\\data".to_string(),
        schedule,
        time: "07:30".to_string(),
        weekday,
        monthday,
        includes: vec![],
        exclude: vec![],
        exclude_regex: vec![],
        zip_root_files: true,
        root_file_patterns: vec![],
        notify: TaskNotifyConfig { skip_first_run: true, incremental: true, recursive_send: false },
        enabled,
    }
}

fn notify(max: u64, split: bool, wedrive: bool) -> NotifyConfig {
    NotifyConfig {
        webhook: String::new(),
        wedrive_enabled: wedrive,
        max_webhook_size: max,
        split_large_files: split,
        split_part_size: 18 * 1024 * 1024,
    }
}

fn day(weekday: u32, day: u32, month: u32) -> LocalDate {
    LocalDate { weekday, day, month }
}

#[test]
fn daily_tasks_run_every_day() {
    let t = task(ScheduleType::Daily, None, None, true);
    for w in 0..7 {
        assert!(should_run_on(&t, day(w, 10, 5)));
    }
}

#[test]
fn disabled_tasks_never_run() {
    let t = task(ScheduleType::Daily, None, None, false);
    assert!(!should_run_on(&t, day(1, 1, 1)));
}

#[test]
fn weekly_tasks_run_on_their_weekday() {
    let sunday = task(ScheduleType::Weekly, Some(0), None, true);
    assert!(should_run_on(&sunday, day(0, 7, 1)));
    assert!(!should_run_on(&sunday, day(1, 8, 1)));
    let unset = task(ScheduleType::Weekly, None, None, true);
    assert!(should_run_on(&unset, day(6, 6, 1)));
    assert!(!should_run_on(&unset, day(5, 5, 1)));
}

#[test]
fn monthly_and_yearly_tasks() {
    let m = task(ScheduleType::Monthly, None, Some(15), true);
    assert!(should_run_on(&m, day(3, 15, 7)));
    assert!(!should_run_on(&m, day(3, 16, 7)));
    let first = task(ScheduleType::Monthly, None, None, true);
    assert!(should_run_on(&first, day(3, 1, 7)));
    let y = task(ScheduleType::Yearly, None, None, true);
    assert!(should_run_on(&y, day(2, 1, 1)));
    assert!(!should_run_on(&y, day(2, 1, 2)));
}

#[test]
fn missing_source_is_recorded() {
    let t = task(ScheduleType::Daily, None, None, true);
    let mut r = TaskResult::new_for("财务");
    let notice = record_missing_source(&mut r, &t);
    assert_eq!(r.error.as_deref(), Some("源目录不存在: D:\\data"));
    assert_eq!(notice, "❌ 备份失败：源目录不存在: D:\\data\n任务: 财务");
    assert!(!r.success);
    assert!(r.snapshot_id.is_none());
    assert_eq!((r.files_scanned, r.files_sent), (0, 0));
}

#[test]
fn plans_keep_what_was_found() {
    let mut r = TaskResult::new_for("a");
    r.files_scanned = 4;
    r.files_sent = 2;
    r.changed_files = vec!["x".to_string()];
    r.snapshot_id = Some("id".to_string());
    record_plan(&mut r, SendPlan::NoChanges);
    assert_eq!((r.files_scanned, r.files_sent), (4, 2));
    assert_eq!(r.changed_files, vec!["x".to_string()]);
    assert_eq!(r.snapshot_id.as_deref(), Some("id"));
    record_backup(&mut r, Err("x".to_string()));
    assert_eq!(r.files_scanned, 4);
    assert_eq!(r.send_type, "无变化");
}

#[test]
fn backup_outcomes_are_recorded() {
    let mut r = TaskResult::new_for("a");
    record_backup(&mut r, Ok("abcd1234".to_string()));
    assert!(r.success);
    assert_eq!(r.snapshot_id.as_deref(), Some("abcd1234"));
    let mut f = TaskResult::new_for("a");
    record_backup(&mut f, Err("exit 1".to_string()));
    assert!(!f.success);
    assert_eq!(f.error.as_deref(), Some("rustic 备份失败: exit 1"));
}

#[test]
fn send_plans() {
    let t = task(ScheduleType::Daily, None, None, true);
    assert_eq!(send_plan(true, false, false, &t, false), SendPlan::Pack);
    assert_eq!(send_plan(false, true, false, &t, false), SendPlan::NotifyDisabled);
    assert_eq!(send_plan(true, false, true, &t, false), SendPlan::FirstRunSkipped);
    assert_eq!(send_plan(true, true, true, &t, false), SendPlan::Pack);
    assert_eq!(send_plan(true, false, false, &t, true), SendPlan::NoChanges);
    let mut r = TaskResult::new_for("a");
    record_plan(&mut r, SendPlan::FirstRunSkipped);
    assert_eq!(r.send_type, "首次运行跳过");
    assert!(!r.send_success);
    record_plan(&mut r, SendPlan::NoChanges);
    assert_eq!(r.send_type, "无变化");
    assert!(r.send_success);
    record_plan(&mut r, SendPlan::NotifyDisabled);
    assert_eq!(r.send_type, "通知禁用");
}

#[test]
fn incremental_only_after_first_run() {
    let t = task(ScheduleType::Daily, None, None, true);
    assert!(sends_changes_only(&t, false));
    assert!(!sends_changes_only(&t, true));
}

#[test]
fn archive_names() {
    let t = task(ScheduleType::Daily, None, None, true);
    assert_eq!(staging_dir_name(&t), "财务_staging");
    assert_eq!(archive_base_name(&t, "20240105", false), "财务_20240105_增量");
    assert_eq!(archive_base_name(&t, "20240105", true), "财务_20240105_全量");
    assert_eq!(chunk_name("b", 2, 5), "b_chunk2_5.bin");
    assert_eq!(part_name("b", 3), "b_part3.zip");
    assert_eq!(parts_summary("分片", 2, 3), "分片(2/3)");
}

#[test]
fn archive_routes() {
    assert!(needs_split(&notify(100, true, false), 101));
    assert!(!needs_split(&notify(100, true, false), 100));
    assert!(!needs_split(&notify(100, false, false), 1000));
    assert_eq!(single_archive_route(&notify(100, false, true), 100), ArchiveRoute::Webhook);
    assert_eq!(single_archive_route(&notify(100, false, true), 101), ArchiveRoute::Wedrive);
    assert_eq!(single_archive_route(&notify(100, false, false), 101), ArchiveRoute::Skip);
}

#[test]
fn chunks_cover_the_file() {
    let mib = 1024 * 1024;
    assert_eq!(chunk_plan(20 * mib, 50 * mib), (19 * mib, 3));
    assert_eq!(chunk_plan(20 * mib, 19 * mib), (19 * mib, 1));
    assert_eq!(chunk_plan(20 * mib, 19 * mib + 1), (19 * mib, 2));
    for size in [1u64, 5, 19 * mib - 1, 38 * mib, 100 * mib + 7] {
        let (chunk, total) = chunk_plan(20 * mib, size);
        assert!(total * chunk >= size);
        assert!((total - 1) * chunk < size);
    }
}

fn f(path: &str, size: u64) -> SizedFile {
    SizedFile { path: path.to_string(), size }
}

#[test]
fn groups_largest_first_into_first_fit() {
    let groups = split_into_groups(vec![f("a", 3), f("b", 8), f("c", 5), f("d", 2), f("e", 12)], 10);
    let names: Vec<Vec<String>> = groups.iter().map(|g| g.iter().map(|x| x.path.clone()).collect()).collect();
    assert_eq!(
        names,
        vec![
            vec!["e".to_string()],
            vec!["b".to_string(), "d".to_string()],
            vec!["c".to_string(), "a".to_string()],
        ]
    );
}

#[test]
fn groups_partition_the_files() {
    let files: Vec<SizedFile> = (0..30u64).map(|i| f(&format!("f{}", i), (i * 7919) % 23 + 1)).collect();
    let total: u64 = files.iter().map(|x| x.size).sum();
    let groups = split_into_groups(files, 20);
    let mut seen: Vec<String> = groups.iter().flat_map(|g| g.iter().map(|x| x.path.clone())).collect();
    seen.sort();
    let mut expected: Vec<String> = (0..30u64).map(|i| format!("f{}", i)).collect();
    expected.sort();
    assert_eq!(seen, expected);
    let sum: u64 = groups.iter().flat_map(|g| g.iter().map(|x| x.size)).sum();
    assert_eq!(sum, total);
    for g in &groups {
        assert!(!g.is_empty());
        let s: u64 = g.iter().map(|x| x.size).sum();
        assert!(g.len() == 1 || s <= 20);
    }
    assert!(split_into_groups(vec![], 5).is_empty());
}

fn result(name: &str, success: bool) -> TaskResult {
    let mut r = TaskResult::new_for(name);
    r.success = success;
    r
}

#[test]
fn report_markdown() {
    let mut a = result("财务", true);
    a.snapshot_id = Some("0123456789abcdef".to_string());
    a.files_scanned = 3;
    a.files_size = 1536;
    a.send_type = "单包".to_string();
    a.send_success = true;
    a.is_first_run = true;
    a.changed_files = vec!["x.xlsx".to_string(), "y.xls".to_string()];
    let mut b = result("人事", false);
    b.error = Some("源目录不存在: D:\\hr".to_string());
    b.wedrive_path = Some("/backup/b.zip".to_string());
    b.changed_files = (0..11).map(|i| format!("f{}", i)).collect();
    let text = summary_markdown(&vec![a, b], "2024-01-05 07:30:00");
    let expected = [
        "### ⚠️ 备份报告",
        "",
        "**📅 备份时间**: 2024-01-05 07:30:00",
        "",
        "**📊 备份统计**",
        "> 扫描文件: 3 个",
        "> 总大小: 1.50 KB",
        "",
        "**📂 各任务详情**",
        "> **财务**: 成功 (3个/1.50 KB)",
        ">   发送: 单包 ✅ | 快照: 01234567",
        ">   ℹ️ 首次运行",
        ">   🔄 变化文件: x.xlsx, y.xls",
        "> **人事**: 失败 (0个/0.00 B)",
        ">   发送:  ❌ | 快照: 无",
        ">   🔄 变化文件: 11 个",
        ">   📁 微盘: /backup/b.zip",
        ">   ❌ 错误: 源目录不存在: D:\\hr",
        "",
        "---",
        "*自动备份任务 · rustic-backup-rs*",
    ]
    .join("\n");
    assert_eq!(text, expected);
}

#[test]
fn report_all_succeeded() {
    let text = summary_markdown(&vec![result("a", true)], "now");
    assert!(text.starts_with("### ✅ 备份报告\n"));
}
