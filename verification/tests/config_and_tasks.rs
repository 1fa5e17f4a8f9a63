use rustic_backup::commands::{display_id, list_tags, prune_notice, prune_runs, snapshot_task_name, sort_newest_first};
use rustic_backup::config::{
    default_config_example, default_daily, default_false, default_max_webhook_size, default_monthly,
    default_root_patterns, default_schedule, default_split_size, default_time, default_true, default_weekly,
    default_yearly, Config, NotifyConfig, RepoConfig, RetentionConfig, ScheduleType, TaskConfig, TaskNotifyConfig,
};
use rustic_backup::rustic::Snapshot;
use rustic_backup::setup::{new_config, parse_u32_or, schedule_choice_index, schedule_from_choice, split_patterns, task_index_from_choice};
use rustic_backup::task::{TaskError, TaskManager};

fn task(name: &str, schedule: ScheduleType, enabled: bool) -> TaskConfig {
    TaskConfig {
        name: name.to_string(),
        source: format!("D:\\data\\{}", name),
        schedule,
        time: "07:30".to_string(),
        weekday: None,
        monthday: None,
        includes: vec![],
        exclude: vec!["*.tmp".to_string()],
        exclude_regex: vec![],
        zip_root_files: true,
        root_file_patterns: vec!["*.xlsx".to_string()],
        notify: TaskNotifyConfig { skip_first_run: true, incremental: false, recursive_send: false },
        enabled,
    }
}

fn config_with(tasks: Vec<TaskConfig>) -> Config {
    Config {
        repo: RepoConfig { path: "D:\\repo".to_string(), password: "secret".to_string() },
        notify: NotifyConfig {
            webhook: "https://example.invalid/cgi-bin/webhook/send?key=abc".to_string(),
            wedrive_enabled: false,
            max_webhook_size: 20 * 1024 * 1024,
            split_large_files: true,
            split_part_size: 18 * 1024 * 1024,
        },
        retention: RetentionConfig::default(),
        tasks,
        rustic_path: None,
        log_dir: None,
    }
}

fn snap(id: &str, time: &str, tags: &[&str]) -> Snapshot {
    Snapshot {
        id: id.to_string(),
        time: time.to_string(),
        hostname: None,
        tags: tags.iter().map(|t| t.to_string()).collect(),
        paths: vec![],
        summary: None,
    }
}

#[test]
fn defaults_match_documented_values() {
    assert!(default_true());
    assert!(!default_false());
    assert_eq!(default_max_webhook_size(), 20 * 1024 * 1024);
    assert_eq!(default_split_size(), 18 * 1024 * 1024);
    assert_eq!(default_daily(), 15);
    assert_eq!(default_weekly(), 12);
    assert_eq!(default_monthly(), 12);
    assert_eq!(default_yearly(), 3);
    assert_eq!(default_schedule(), ScheduleType::Daily);
    assert_eq!(default_time(), "07:30");
    assert_eq!(default_root_patterns(), vec!["*.xlsx".to_string(), "*.xls".to_string()]);
    let r = RetentionConfig::default();
    assert_eq!((r.daily, r.weekly, r.monthly, r.yearly), (15, 12, 12, 3));
}

#[test]
fn schedule_tags() {
    assert_eq!(ScheduleType::Daily.as_tag(), "daily");
    assert_eq!(ScheduleType::Weekly.as_tag(), "weekly");
    assert_eq!(ScheduleType::Monthly.as_tag(), "monthly");
    assert_eq!(ScheduleType::Yearly.as_tag(), "yearly");
}

#[test]
fn example_config_has_a_daily_task() {
    let c = default_config_example();
    assert_eq!(c.tasks.len(), 1);
    assert_eq!(c.tasks[0].schedule, ScheduleType::Daily);
    assert!(c.tasks[0].enabled);
    assert_eq!(c.retention.daily, 15);
    assert_eq!(c.notify.max_webhook_size, 20 * 1024 * 1024);
}

#[test]
fn task_by_index_is_one_based() {
    let c = config_with(vec![task("a", ScheduleType::Daily, true), task("b", ScheduleType::Weekly, true)]);
    assert!(c.task_by_index(0).is_none());
    assert_eq!(c.task_by_index(1).unwrap().name, "a");
    assert_eq!(c.task_by_index(2).unwrap().name, "b");
    assert!(c.task_by_index(3).is_none());
}

#[test]
fn resolve_abs_keeps_absolute_paths() {
    assert_eq!(Config::resolve_abs("/data/repo", "/opt/app"), "/data/repo");
    assert_eq!(Config::resolve_abs("repo", "/opt/app"), "/opt/app/repo");
    let once = Config::resolve_abs("repo", "/opt/app");
    assert_eq!(Config::resolve_abs(&once, "/opt/app"), once);
}

#[test]
fn resolve_paths_joins_relative_ones() {
    let mut c = config_with(vec![task("a", ScheduleType::Daily, true)]);
    c.repo.path = "repo".to_string();
    c.tasks[0].source = "/srv/a".to_string();
    c.rustic_path = Some("bin/rustic".to_string());
    c.log_dir = Some("/var/log/backup".to_string());
    c.resolve_paths("/opt/app");
    assert_eq!(c.repo.path, "/opt/app/repo");
    assert_eq!(c.tasks[0].source, "/srv/a");
    assert_eq!(c.rustic_path.as_deref(), Some("/opt/app/bin/rustic"));
    assert_eq!(c.log_dir.as_deref(), Some("/var/log/backup"));
}

#[test]
fn default_locations_beside_the_program() {
    let c = config_with(vec![]);
    assert_eq!(c.rustic_exe("/opt/app"), "/opt/app/bin/rustic.exe");
    assert_eq!(c.log_dir("/opt/app"), "/opt/app/logs");
    assert_eq!(c.temp_dir("/opt/app"), "/opt/app/temp");
}

#[test]
fn enable_and_disable_switch_one_task() {
    let mut c = config_with(vec![task("a", ScheduleType::Daily, false), task("b", ScheduleType::Weekly, true)]);
    assert!(TaskManager::enable(&mut c, 1).is_ok());
    assert!(c.tasks[0].enabled);
    assert!(c.tasks[1].enabled);
    assert!(TaskManager::disable(&mut c, 2).is_ok());
    assert!(c.tasks[0].enabled);
    assert!(!c.tasks[1].enabled);
    let listing = TaskManager::list(&c);
    assert_eq!(listing.len(), 2);
    assert_eq!(listing[0].index, 1);
    assert!(listing[0].enabled);
    assert_eq!(listing[1].index, 2);
    assert!(!listing[1].enabled);
    assert_eq!(listing[1].schedule, "Weekly");
}

#[test]
fn enable_unknown_task_is_an_error() {
    let mut c = config_with(vec![task("a", ScheduleType::Daily, false)]);
    assert!(matches!(TaskManager::enable(&mut c, 2), Err(TaskError::NoSuchTask(2))));
    assert!(matches!(TaskManager::disable(&mut c, 5), Err(TaskError::NoSuchTask(5))));
    assert!(matches!(TaskManager::enable(&mut c, 0), Err(TaskError::NoSuchTask(0))));
    assert!(matches!(TaskManager::disable(&mut c, 0), Err(TaskError::NoSuchTask(0))));
    assert!(!c.tasks[0].enabled);
}

#[test]
fn switching_off_and_on_restores() {
    let mut c = config_with(vec![task("a", ScheduleType::Daily, true)]);
    TaskManager::disable(&mut c, 1).ok();
    TaskManager::enable(&mut c, 1).ok();
    assert!(c.tasks[0].enabled);
    assert_eq!(c.tasks[0].name, "a");
    assert_eq!(c.tasks[0].exclude, vec!["*.tmp".to_string()]);
}

#[test]
fn listing_tags_for_a_task() {
    let c = config_with(vec![task("a", ScheduleType::Daily, true), task("财务", ScheduleType::Monthly, true)]);
    assert_eq!(list_tags(&c, Some(2), None), vec!["monthly".to_string(), "财务".to_string()]);
    assert_eq!(list_tags(&c, Some(1), Some("x")), vec!["x".to_string(), "daily".to_string(), "a".to_string()]);
    assert!(list_tags(&c, Some(3), None).is_empty());
    assert_eq!(list_tags(&c, None, Some("y")), vec!["y".to_string()]);
}

#[test]
fn snapshot_task_names() {
    assert_eq!(snapshot_task_name(&snap("1", "t", &["daily", "财务"])), "财务");
    assert_eq!(snapshot_task_name(&snap("1", "t", &["weekly"])), "-");
}

#[test]
fn display_ids() {
    let id = "0123456789abcdef".to_string();
    assert_eq!(display_id(&id, false), "01234567");
    assert_eq!(display_id(&id, true), "0123456789abcdef");
    assert_eq!(display_id(&"abc".to_string(), false), "abc");
}

#[test]
fn snapshots_newest_first() {
    let v = vec![
        snap("a", "2024-01-02T00:00:00", &[]),
        snap("b", "2024-03-01T00:00:00", &[]),
        snap("c", "2024-02-01T00:00:00", &[]),
        snap("d", "2024-03-01T00:00:00", &[]),
    ];
    let ids: Vec<String> = sort_newest_first(v).into_iter().map(|s| s.id).collect();
    assert_eq!(ids, vec!["b", "d", "c", "a"]);
}

#[test]
fn prune_only_when_confirmed() {
    assert!(!prune_runs(false, false));
    assert!(!prune_runs(true, true));
    assert!(!prune_runs(true, false));
    assert!(prune_runs(false, true));
}

#[test]
fn prune_notice_text() {
    let r = RetentionConfig { daily: 7, weekly: 4, monthly: 6, yearly: 2 };
    assert_eq!(prune_notice(&r, "D:\\repo"), "🧹 备份仓库清理完成\n保留策略: 日7 周4 月6 年2\n仓库: D:\\repo");
}

#[test]
fn wizard_numbers() {
    assert_eq!(parse_u32_or("30", 15), 30);
    assert_eq!(parse_u32_or("+8", 15), 8);
    assert_eq!(parse_u32_or("abc", 15), 15);
    assert_eq!(parse_u32_or("", 3), 3);
    assert_eq!(parse_u32_or(" 5", 3), 3);
    assert_eq!(parse_u32_or("4294967295", 1), 4294967295);
    assert_eq!(parse_u32_or("4294967296", 1), 1);
}

#[test]
fn wizard_pattern_lists() {
    assert_eq!(split_patterns("*.xlsx, *.xls"), vec!["*.xlsx".to_string(), "*.xls".to_string()]);
    assert_eq!(split_patterns(" a ,, b ,"), vec!["a".to_string(), "b".to_string()]);
    assert!(split_patterns("").is_empty());
}

#[test]
fn wizard_schedule_choice() {
    assert_eq!(schedule_from_choice("daily - 每天"), ScheduleType::Daily);
    assert_eq!(schedule_from_choice("weekly - 每周"), ScheduleType::Weekly);
    assert_eq!(schedule_from_choice("monthly - 每月"), ScheduleType::Monthly);
    assert_eq!(schedule_from_choice("yearly - 每年"), ScheduleType::Yearly);
    assert_eq!(schedule_choice_index(Some(ScheduleType::Monthly)), 2);
    assert_eq!(schedule_choice_index(None), 0);
}

#[test]
fn wizard_task_choice() {
    assert_eq!(task_index_from_choice("[1] 财务"), 0);
    assert_eq!(task_index_from_choice("[12] x"), 11);
    assert_eq!(task_index_from_choice("[x] y"), 0);
}

#[test]
fn wizard_new_config() {
    let c = new_config(
        "repo".to_string(),
        "pw".to_string(),
        "hook".to_string(),
        true,
        false,
        RetentionConfig::default(),
        vec![task("a", ScheduleType::Daily, true)],
    );
    assert_eq!(c.repo.path, "repo");
    assert_eq!(c.notify.max_webhook_size, 20 * 1024 * 1024);
    assert_eq!(c.notify.split_part_size, 18 * 1024 * 1024);
    assert!(c.notify.wedrive_enabled);
    assert!(!c.notify.split_large_files);
    assert!(c.rustic_path.is_none());
    assert_eq!(c.tasks.len(), 1);
}

#[test]
fn resolving_again_changes_nothing() {
    for p in ["repo", "/abs/repo", "a/../b", ""] {
        let once = Config::resolve_abs(p, "/opt/app");
        assert_eq!(Config::resolve_abs(&once, "/opt/app"), once);
    }
}
