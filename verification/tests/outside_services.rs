use rustic_backup::download::{archive_kind, candidate, ensure_rustic, rustic_setup_for, fmt_size, is_rustic_entry, rustic_exists, select_asset, ArchiveKind, ReleaseAsset, RusticSetup};
use rustic_backup::logger::Logger;
use rustic_backup::matching::{JsonDoc, NameMatcher, Pattern};
use rustic_backup::notify::{NotifyError, WechatNotifier};
use rustic_backup::plan::{PlanError, TaskScheduler};
use rustic_backup::wedrive::{UploadRoute, WedriveError, WedriveUploader};
use rustic_backup::zip_util::{filter_by_regex, scan_root_files, FileEntry, PatternError};

fn entry(path: &str, name: &str) -> FileEntry {
    FileEntry { path: path.to_string(), name: name.to_string() }
}

fn strs(v: &[&str]) -> Vec<String> {
    v.iter().map(|s| s.to_string()).collect()
}

#[test]
fn pattern_compilation() {
    assert!(Pattern::compile(r"snapshot ([a-f0-9]+) successfully saved").is_some());
    assert!(Pattern::compile("(unclosed").is_none());
    assert!(NameMatcher::build(&strs(&["*.xlsx", "*.xls"])).is_some());
    assert!(NameMatcher::build(&strs(&["a[b"])).is_none());
    assert!(JsonDoc::parse(r#"{"a":1}"#).is_some());
    assert!(JsonDoc::parse("not json").is_none());
}

#[test]
fn json_replies_are_read_by_field() {
    // u64 and key lookups, through the repository statistics.
    let r = rustic_backup::rustic::Rustic { repo_path: "/r".to_string(), password: "p".to_string() };
    let out = |s: &str| rustic_backup::rustic::CmdOutput { stdout: s.to_string(), stderr: String::new(), code: 0 };
    let sized = r.repoinfo(&out(r#"{"size":77,"snapshot_count":2}"#));
    assert_eq!(sized.stats.total_size, 77);
    assert_eq!(sized.stats.snapshot_count, 2);
    let negative = r.repoinfo(&out(r#"{"total_size":-5}"#));
    assert_eq!(negative.stats.total_size, 0);
    // i64 and string lookups, through a robot reply.
    match WechatNotifier::check_reply(true, "200", r#"{"errcode":-3,"errmsg":7}"#) {
        Err(NotifyError::Api { code, message }) => {
            assert_eq!(code, -3);
            assert_eq!(message, "unknown");
        },
        _ => panic!("expected an API error"),
    }
}

#[test]
fn root_files_by_glob() {
    let files = vec![entry("/s/a.xlsx", "a.xlsx"), entry("/s/b.txt", "b.txt"), entry("/s/c.xls", "c.xls")];
    let kept = scan_root_files(files, &strs(&["*.xlsx", "*.xls"])).ok().unwrap();
    let names: Vec<String> = kept.into_iter().map(|f| f.name).collect();
    assert_eq!(names, strs(&["a.xlsx", "c.xls"]));
    assert!(matches!(scan_root_files(vec![], &strs(&["[x"])), Err(PatternError::InvalidGlob)));
    let none = scan_root_files(vec![entry("/s/a.xlsx", "a.xlsx")], &vec![]).ok().unwrap();
    assert!(none.is_empty());
}

#[test]
fn regex_exclusion() {
    let files = vec![entry("/s/~$a.xlsx", "~$a.xlsx"), entry("/s/tmp/b.xlsx", "b.xlsx"), entry("/s/c.xlsx", "c.xlsx")];
    let kept = filter_by_regex(files, &strs(&[r"^~\$", "/tmp/"])).ok().unwrap();
    let names: Vec<String> = kept.into_iter().map(|f| f.name).collect();
    assert_eq!(names, strs(&["c.xlsx"]));
    let same = filter_by_regex(vec![entry("a", "a")], &vec![]).ok().unwrap();
    assert_eq!(same.len(), 1);
    match filter_by_regex(vec![], &strs(&["ok", "(bad"])) {
        Err(PatternError::InvalidRegex { pattern }) => assert_eq!(pattern, "(bad"),
        _ => panic!("expected an invalid pattern"),
    }
}

#[test]
fn gbk_status_report() {
    let s = TaskScheduler::new("T");
    // "\"PC\",\"就绪\"" in GBK on the second line.
    let mut report = b"header\r\n\"PC\",\"".to_vec();
    report.extend_from_slice(&[0xBE, 0xCD, 0xD0, 0xF7]);
    report.extend_from_slice(b"\"\r\n");
    let st = s.status(true, &report).ok().unwrap();
    assert_eq!(st.status, "就绪");
    assert_eq!(st.next_run, "");
}

#[test]
fn scheduled_task_commands() {
    let s = TaskScheduler::new("RusticBackup");
    assert_eq!(
        s.install_args("C:\\app\\rustic-backup.exe", "07:30"),
        strs(&["/Create", "/TN", "RusticBackup", "/TR", "\"C:\\app\\rustic-backup.exe\" run", "/SC", "DAILY", "/ST", "07:30", "/F"])
    );
    assert_eq!(s.uninstall_args(), strs(&["/Delete", "/TN", "RusticBackup", "/F"]));
    assert_eq!(s.query_args(), strs(&["/Query", "/TN", "RusticBackup", "/FO", "CSV"]));
    assert_eq!(s.status_args(), strs(&["/Query", "/TN", "RusticBackup", "/FO", "CSV", "/V"]));
    assert!(matches!(s.install_check(true), Err(PlanError::AlreadyInstalled { .. })));
    assert!(s.install_check(false).is_ok());
    assert!(matches!(s.uninstall_check(false), Err(PlanError::NotInstalled { .. })));
    assert!(s.install(true, &vec![], &vec![]).is_ok());
    match s.install(false, &b"out".to_vec(), &vec![0xB4, 0xED]) {
        Err(PlanError::CreateFailed { detail }) => assert_eq!(detail, "错out"),
        _ => panic!("expected a failure"),
    }
    match s.uninstall(false, &b"no".to_vec()) {
        Err(PlanError::DeleteFailed { detail }) => assert_eq!(detail, "no"),
        _ => panic!("expected a failure"),
    }
}

#[test]
fn scheduled_task_status() {
    let s = TaskScheduler::new("RusticBackup");
    let report = "\"HostName\",\"TaskName\",\"Next Run Time\",\"Status\",\"Last Run Time\",\"Last Result\"\r\n\"PC\",\"\\RusticBackup\",\"2024/1/6 7:30:00\",\"Ready\",\"2024/1/5 7:30:00\",\"0\"\r\n";
    let st = s.status(true, &report.as_bytes().to_vec()).ok().unwrap();
    assert_eq!(st.name, "RusticBackup");
    assert_eq!(st.status, "\\RusticBackup");
    assert_eq!(st.next_run, "2024/1/6 7:30:00");
    assert_eq!(st.last_run, "2024/1/5 7:30:00");
    assert_eq!(st.last_result, "0");
    assert!(matches!(s.status(true, &b"only one line".to_vec()), Err(PlanError::UnreadableStatus)));
    assert!(matches!(s.status(false, &vec![]), Err(PlanError::QueryFailed { .. })));
}

#[test]
fn webhook_replies() {
    let n = WechatNotifier::new("https://qyapi.weixin.qq.com/cgi-bin/webhook/send?key=K");
    assert_eq!(n.upload_url(), "https://qyapi.weixin.qq.com/cgi-bin/webhook/upload_media?type=file&key=K");
    assert!(WechatNotifier::check_reply(true, "200 OK", r#"{"errcode":0,"errmsg":"ok"}"#).is_ok());
    match WechatNotifier::check_reply(true, "200 OK", r#"{"errcode":93000,"errmsg":"invalid"}"#) {
        Err(NotifyError::Api { code, message }) => {
            assert_eq!(code, 93000);
            assert_eq!(message, "invalid");
        },
        _ => panic!("expected an API error"),
    }
    assert!(matches!(WechatNotifier::check_reply(false, "500", "x"), Err(NotifyError::Http { .. })));
    assert!(matches!(WechatNotifier::check_reply(true, "200", "<html>"), Err(NotifyError::BadResponse { .. })));
    match WechatNotifier::check_reply(true, "200", "{}") {
        Err(NotifyError::Api { code, message }) => {
            assert_eq!(code, -1);
            assert_eq!(message, "unknown");
        },
        _ => panic!("expected an API error"),
    }
    assert_eq!(
        WechatNotifier::media_id(true, "200", r#"{"errcode":0,"media_id":"M1"}"#).ok().unwrap(),
        "M1"
    );
    assert!(matches!(
        WechatNotifier::media_id(true, "200", r#"{"errcode":0}"#),
        Err(NotifyError::NoMediaId { .. })
    ));
}

#[test]
fn wedrive_routes_and_replies() {
    let none = WedriveUploader::new(None, None, None);
    assert!(matches!(none.upload("/x.zip", false, true), Err(WedriveError::FileMissing { .. })));
    assert_eq!(none.upload("/x.zip", true, true).ok().unwrap(), UploadRoute::Cli);
    assert!(matches!(none.upload("/x.zip", true, false), Err(WedriveError::Unavailable)));
    let api = WedriveUploader::new(Some("C:\\wecom-cli.exe".to_string()), Some("id".to_string()), Some("sec".to_string()));
    assert_eq!(api.upload("/x.zip", true, false).ok().unwrap(), UploadRoute::Api);
    assert_eq!(api.cli_program(), "C:\\wecom-cli.exe");
    assert_eq!(none.cli_program(), "wecom-cli");
    assert_eq!(WedriveUploader::cli_args("/x.zip"), strs(&["disk", "files", "upload", "--file-path", "/x.zip"]));
    assert_eq!(
        api.token_url().unwrap(),
        "https://qyapi.weixin.qq.com/cgi-bin/gettoken?corpid=id&corpsecret=sec"
    );
    assert!(none.token_url().is_none());
    assert_eq!(WedriveUploader::access_token(r#"{"access_token":"T"}"#).ok().unwrap(), "T");
    assert!(matches!(WedriveUploader::access_token("{}"), Err(WedriveError::NoToken { .. })));
    assert!(matches!(WedriveUploader::access_token("x"), Err(WedriveError::BadResponse { .. })));
    let ok = WedriveUploader::cli_result(true, r#"{"file":{"path":"/d/x.zip","id":"F1"}}"#, "");
    assert!(ok.success);
    assert_eq!(ok.file_path.as_deref(), Some("/d/x.zip"));
    assert_eq!(ok.file_id.as_deref(), Some("F1"));
    let plain = WedriveUploader::cli_result(true, "  uploaded \n", "");
    assert_eq!(plain.file_path.as_deref(), Some("uploaded"));
    let failed = WedriveUploader::cli_result(false, "o", "e");
    assert!(!failed.success);
    assert_eq!(failed.error.as_deref(), Some("o\ne"));
    let r = WedriveUploader::api_result(r#"{"errcode":0,"fileid":"F2"}"#, "x.zip").ok().unwrap();
    assert!(r.success);
    assert_eq!(r.file_path.as_deref(), Some("x.zip"));
    assert_eq!(r.file_id.as_deref(), Some("F2"));
    let e = WedriveUploader::api_result(r#"{"errcode":40014,"errmsg":"bad token"}"#, "x.zip").ok().unwrap();
    assert!(!e.success);
    assert_eq!(e.error.as_deref(), Some("errcode=40014: bad token"));
}

#[test]
fn release_assets() {
    let a = |n: &str| ReleaseAsset { name: Some(n.to_string()), url: Some(format!("https://dl/{}", n)) };
    let assets = vec![
        a("rustic-v0.9-x86_64-unknown-linux-musl.tar.gz"),
        a("rustic-v0.9-x86_64-pc-windows-msvc.tar.gz"),
        a("rustic-v0.9-x86_64-pc-Windows-msvc.ZIP"),
    ];
    assert_eq!(select_asset(&assets), Some(2));
    let no_zip = vec![a("rustic-v0.9-x86_64-unknown-linux-musl.tar.gz"), a("rustic-v0.9-x86_64-pc-windows-msvc.tar.gz")];
    assert_eq!(select_asset(&no_zip), Some(1));
    assert_eq!(select_asset(&vec![ReleaseAsset { name: Some("windows.zip".to_string()), url: None }]), None);
    assert_eq!(archive_kind("X.Zip"), Some(ArchiveKind::Zip));
    assert_eq!(archive_kind("x.TAR.GZ"), Some(ArchiveKind::TarGz));
    assert_eq!(archive_kind("x.7z"), None);
    assert!(is_rustic_entry("rustic-v0.9/RUSTIC.EXE"));
    assert!(!is_rustic_entry("readme.md"));
    assert_eq!(fmt_size(1536), "1.5 KB");
    assert_eq!(fmt_size(10 * 1048576), "10.0 MB");
}

#[test]
fn locating_rustic() {
    let dir = "/nonexistent-dir-for-tests";
    assert!(!rustic_exists(None, dir));
    match ensure_rustic(None, dir) {
        RusticSetup::Download { bin_dir, exe } => {
            assert_eq!(bin_dir, "/nonexistent-dir-for-tests/bin");
            assert_eq!(exe, "/nonexistent-dir-for-tests/bin/rustic.exe");
        },
        _ => panic!("expected a download"),
    }
    match ensure_rustic(Some("/nonexistent-dir-for-tests/r.exe"), dir) {
        RusticSetup::ConfiguredMissing(p) => assert_eq!(p, "/nonexistent-dir-for-tests/r.exe"),
        _ => panic!("expected a missing executable"),
    }
}

#[test]
fn log_lines_and_files() {
    let l = Logger::new("/var/log/backup");
    assert_eq!(l.info("2024-01-05 07:30:00", "开始"), "[2024-01-05 07:30:00] [INFO] 开始\n");
    assert_eq!(l.warn("t", "w"), "[t] [WARN] w\n");
    assert_eq!(l.error("t", "e"), "[t] [ERROR] e\n");
    assert_eq!(l.log_file_for("20240105"), "/var/log/backup/backup-20240105.log");
    assert_eq!(Logger::no_log_today(), "今日暂无日志");
    assert_eq!(Logger::no_log_for("20240101"), "无日志: 20240101");
}

#[test]
fn rustic_setup_decisions() {
    match rustic_setup_for(Some("/x/r.exe"), "/app", true) {
        RusticSetup::Ready(p) => assert_eq!(p, "/x/r.exe"),
        _ => panic!("expected ready"),
    }
    match rustic_setup_for(Some("/x/r.exe"), "/app", false) {
        RusticSetup::ConfiguredMissing(p) => assert_eq!(p, "/x/r.exe"),
        _ => panic!("expected missing"),
    }
    match rustic_setup_for(None, "/app", true) {
        RusticSetup::Ready(p) => assert_eq!(p, "/app/bin/rustic.exe"),
        _ => panic!("expected ready"),
    }
    match rustic_setup_for(None, "/app", false) {
        RusticSetup::Download { bin_dir, exe } => {
            assert_eq!(bin_dir, "/app/bin");
            assert_eq!(exe, "/app/bin/rustic.exe");
        },
        _ => panic!("expected a download"),
    }
    assert_eq!(candidate(None, "/app"), "/app/bin/rustic.exe");
    assert_eq!(candidate(Some("C:\\r.exe"), "/app"), "C:\\r.exe");
}
