use rustic_backup::config::{Config, NotifyConfig, RepoConfig, RetentionConfig, ScheduleType, TaskConfig, TaskNotifyConfig};
use rustic_backup::notify::{NotifyError, WechatNotifier};
use rustic_backup::plan::PlanError;
use rustic_backup::rustic::{RusticAction, RusticError};
use rustic_backup::setup::{
    add_task, confirmed_password, menu_action, remove_task, replace_task, task_defaults, task_from_answers, toggle_task,
    MenuAction, TaskAnswers,
};
use rustic_backup::task::TaskError;
use rustic_backup::wedrive::{WedriveError, WedriveUploader};
use rustic_backup::zip_util::{entry_for, name_in_archive, staging_copy_target};

fn task(name: &str) -> TaskConfig {
    TaskConfig {
        name: name.to_string(),
        source: "/s".to_string(),
        schedule: ScheduleType::Monthly,
        time: "08:00".to_string(),
        weekday: Some(3),
        monthday: Some(9),
        includes: vec!["docs".to_string()],
        exclude: vec!["*.tmp".to_string()],
        exclude_regex: vec!["^~".to_string()],
        zip_root_files: true,
        root_file_patterns: vec!["*.doc".to_string()],
        notify: TaskNotifyConfig { skip_first_run: false, incremental: false, recursive_send: true },
        enabled: false,
    }
}

fn config(tasks: Vec<TaskConfig>) -> Config {
    Config {
        repo: RepoConfig { path: "r".to_string(), password: "p".to_string() },
        notify: NotifyConfig {
            webhook: String::new(),
            wedrive_enabled: false,
            max_webhook_size: 1,
            split_large_files: false,
            split_part_size: 1,
        },
        retention: RetentionConfig::default(),
        tasks,
        rustic_path: None,
        log_dir: None,
    }
}

fn answers(zip: bool) -> TaskAnswers {
    TaskAnswers {
        name: "新".to_string(),
        source: "/n".to_string(),
        schedule: ScheduleType::Weekly,
        time: "09:15".to_string(),
        zip_root_files: zip,
        root_file_patterns: vec!["*.pdf".to_string()],
        incremental: true,
        skip_first_run: true,
        recursive_send: false,
        enabled: true,
        exclude: vec![],
    }
}

#[test]
fn defaults_for_new_and_edited_tasks() {
    let d = task_defaults(None);
    assert_eq!(d.name, "");
    assert_eq!(d.time, "07:30");
    assert_eq!(d.schedule_index, 0);
    assert_eq!(d.root_file_patterns, vec!["*.xlsx".to_string(), "*.xls".to_string()]);
    assert!(d.zip_root_files && d.incremental && d.skip_first_run && !d.recursive_send && d.enabled);
    let t = task("old");
    let e = task_defaults(Some(&t));
    assert_eq!(e.name, "old");
    assert_eq!(e.schedule_index, 2);
    assert_eq!(e.time, "08:00");
    assert!(!e.enabled && e.recursive_send);
    assert_eq!(e.exclude, vec!["*.tmp".to_string()]);
}

#[test]
fn tasks_from_answers() {
    let fresh = task_from_answers(None, answers(true));
    assert_eq!(fresh.name, "新");
    assert_eq!(fresh.root_file_patterns, vec!["*.pdf".to_string()]);
    assert!(fresh.weekday.is_none() && fresh.includes.is_empty() && fresh.exclude_regex.is_empty());
    let old = task("old");
    let edited = task_from_answers(Some(&old), answers(false));
    assert_eq!(edited.weekday, Some(3));
    assert_eq!(edited.monthday, Some(9));
    assert_eq!(edited.includes, vec!["docs".to_string()]);
    assert_eq!(edited.exclude_regex, vec!["^~".to_string()]);
    assert!(edited.root_file_patterns.is_empty());
    assert_eq!(edited.schedule, ScheduleType::Weekly);
}

#[test]
fn task_list_operations() {
    let mut c = config(vec![task("a")]);
    add_task(&mut c, task("b"));
    assert_eq!(c.tasks.len(), 2);
    replace_task(&mut c, 0, task("z"));
    assert_eq!(c.tasks[0].name, "z");
    assert!(toggle_task(&mut c, 1));
    assert!(c.tasks[1].enabled);
    assert!(!toggle_task(&mut c, 1));
    assert!(!c.tasks[1].enabled);
    remove_task(&mut c, 0);
    assert_eq!(c.tasks.len(), 1);
    assert_eq!(c.tasks[0].name, "b");
}

#[test]
fn wizard_menu_and_passwords() {
    assert_eq!(menu_action("1. 仓库配置（路径、密码）"), MenuAction::EditRepo);
    assert_eq!(menu_action("4. 备份任务管理"), MenuAction::ManageTasks);
    assert_eq!(menu_action("7. 放弃修改"), MenuAction::Discard);
    assert_eq!(menu_action("x"), MenuAction::Nothing);
    assert_eq!(confirmed_password("pw".to_string(), "pw"), Some("pw".to_string()));
    assert_eq!(confirmed_password("pw".to_string(), "pW"), None);
}

#[test]
fn robot_message_bodies() {
    assert_eq!(WechatNotifier::text_message("你好\n\"x\""), r#"{"msgtype":"text","text":{"content":"你好\n\"x\""}}"#);
    assert_eq!(WechatNotifier::markdown_message("**b**"), r#"{"markdown":{"content":"**b**"},"msgtype":"markdown"}"#);
    assert_eq!(WechatNotifier::file_message("M1"), r#"{"file":{"media_id":"M1"},"msgtype":"file"}"#);
    assert_eq!(
        WechatNotifier::text_message("a\u{1}\u{8}\t\u{c}\r\\\u{1f}\u{7f}/"),
        "{\"msgtype\":\"text\",\"text\":{\"content\":\"a\\u0001\\b\\t\\f\\r\\\\\\u001f\u{7f}/\"}}"
    );
}

#[test]
fn error_texts() {
    let e = NotifyError::Api { code: 93000, message: "invalid".to_string() };
    assert_eq!(e.text(false), "企业微信返回错误 (errcode 93000): invalid");
    assert_eq!(e.text(true), "上传文件失败 (errcode 93000): invalid");
    let h = NotifyError::Http { status: "404 Not Found".to_string(), body: "x".to_string() };
    assert_eq!(h.text(false), "企业微信请求失败 (HTTP 404 Not Found): x");
    let r = RusticError::CommandFailed { action: RusticAction::Backup, code: 3, stdout: "o".to_string(), stderr: "e".to_string() };
    assert_eq!(r.text(), "备份失败 (exit 3):\no\ne");
    let d = RusticError::CommandFailed { action: RusticAction::Diff, code: -1, stdout: "o".to_string(), stderr: "e".to_string() };
    assert_eq!(d.text(), "diff 失败 (exit -1):\ne");
    assert_eq!(RusticError::RepoExists { path: "/r".to_string() }.text(), "仓库已存在: /r");
    assert_eq!(PlanError::AlreadyInstalled { name: "T".to_string() }.text(), "计划任务已存在: T（请先 uninstall）");
    assert_eq!(TaskError::NoSuchTask(4).text(), "任务序号不存在: 4");
    assert_eq!(WedriveError::Unavailable.text(), "微盘上传不可用：未找到 wecom-cli，且未配置 corpid/corpsecret");
    match WedriveUploader::access_token(r#"{ "errcode" : 40001 }"#) {
        Err(w) => assert_eq!(w.text(), r#"获取 access_token 失败: {"errcode":40001}"#),
        Ok(_) => panic!("expected no token"),
    }
}

#[test]
fn archive_and_staging_names() {
    assert_eq!(name_in_archive("/tmp/s/a.xlsx", Some("/tmp/s")), "a.xlsx");
    assert_eq!(name_in_archive("/other/a.xlsx", Some("/tmp/s")), "/other/a.xlsx");
    assert_eq!(name_in_archive("/tmp/s/a.xlsx", None), "a.xlsx");
    assert_eq!(name_in_archive("/", None), "file");
    assert_eq!(staging_copy_target("/data/b.xls", "/tmp/s").as_deref(), Some("/tmp/s/b.xls"));
    assert!(staging_copy_target("/", "/tmp/s").is_none());
    let e = entry_for("/data/c.xlsx");
    assert_eq!(e.name, "c.xlsx");
    assert_eq!(entry_for("/").name, "");
}
