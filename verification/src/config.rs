use vstd::prelude::*;
use crate::text::clone_strings;

verus! {

broadcast use vstd::string::group_string_axioms;

/// Top-level configuration.
pub struct Config {
    pub repo: RepoConfig,
    pub notify: NotifyConfig,
    pub retention: RetentionConfig,
    pub tasks: Vec<TaskConfig>,
    /// Path of the rustic executable; by default `bin/rustic.exe` beside the program.
    pub rustic_path: Option<String>,
    /// Log directory; by default `logs` beside the program.
    pub log_dir: Option<String>,
}

/// Where the repository lives and how it is unlocked.
pub struct RepoConfig {
    pub path: String,
    pub password: String,
}

/// Where reports and files are sent.
pub struct NotifyConfig {
    /// Full WeCom webhook URL.
    pub webhook: String,
    /// Whether archives too large for the webhook go to WeDrive.
    pub wedrive_enabled: bool,
    /// Largest file the webhook takes, in bytes.
    pub max_webhook_size: u64,
    /// Whether large archives are split into several parts.
    pub split_large_files: bool,
    /// Largest part, in bytes.
    pub split_part_size: u64,
}

/// How many snapshots of each period are kept.
pub struct RetentionConfig {
    pub daily: u32,
    pub weekly: u32,
    pub monthly: u32,
    pub yearly: u32,
}

/// How often a backup task runs.
#[derive(Clone, Copy, Debug, PartialEq, Eq, Structural)]
pub enum ScheduleType {
    Daily,
    Weekly,
    Monthly,
    Yearly,
}

/// One backup task.
pub struct TaskConfig {
    /// Display name, also a snapshot tag.
    pub name: String,
    /// Source directory.
    pub source: String,
    pub schedule: ScheduleType,
    /// Time of day, `HH:MM`.
    pub time: String,
    /// Day of the week for weekly tasks, 0 = Sunday.
    pub weekday: Option<u32>,
    /// Day of the month for monthly tasks.
    pub monthday: Option<u32>,
    /// Glob patterns handed to rustic.
    pub includes: Vec<String>,
    pub exclude: Vec<String>,
    /// Regular expressions filtering the files that are sent.
    pub exclude_regex: Vec<String>,
    /// Whether files of the source root are archived and sent.
    pub zip_root_files: bool,
    /// Glob patterns selecting the files that are sent.
    pub root_file_patterns: Vec<String>,
    pub notify: TaskNotifyConfig,
    pub enabled: bool,
}

/// Per-task switches for sending files.
pub struct TaskNotifyConfig {
    /// Send nothing when the task has no earlier snapshot.
    pub skip_first_run: bool,
    /// Send only files changed since the last snapshot.
    pub incremental: bool,
    /// Scan subdirectories too.
    pub recursive_send: bool,
}

pub fn default_true() -> (b: bool)
    ensures
        b,
{
    true
}

pub fn default_false() -> (b: bool)
    ensures
        !b,
{
    false
}

/// 20 MiB.
pub fn default_max_webhook_size() -> (n: u64)
    ensures
        n == 20 * 1024 * 1024,
{
    20 * 1024 * 1024
}

/// 18 MiB, the documented default part size (a margin below the 20 MiB
/// webhook limit).
pub fn default_split_size() -> (n: u64)
    ensures
        n == 18 * 1024 * 1024,
{
    18 * 1024 * 1024
}

pub fn default_daily() -> (n: u32)
    ensures
        n == 15,
{
    15
}

pub fn default_weekly() -> (n: u32)
    ensures
        n == 12,
{
    12
}

pub fn default_monthly() -> (n: u32)
    ensures
        n == 12,
{
    12
}

pub fn default_yearly() -> (n: u32)
    ensures
        n == 3,
{
    3
}

pub fn default_schedule() -> (s: ScheduleType)
    ensures
        s == ScheduleType::Daily,
{
    ScheduleType::Daily
}

pub fn default_time() -> (s: String)
    ensures
        s@ == "07:30"@,
{
    "07:30".to_string()
}

/// `*.xlsx` and `*.xls`.
pub fn default_root_patterns() -> (v: Vec<String>)
    ensures
        v.len() == 2,
        v[0]@ == "*.xlsx"@,
        v[1]@ == "*.xls"@,
{
    let mut v: Vec<String> = Vec::new();
    v.push("*.xlsx".to_string());
    v.push("*.xls".to_string());
    v
}

impl Default for RetentionConfig {
    fn default() -> (r: Self)
        ensures
            r.daily == 15 && r.weekly == 12 && r.monthly == 12 && r.yearly == 3,
    {
        RetentionConfig { daily: 15, weekly: 12, monthly: 12, yearly: 3 }
    }
}

impl Default for TaskNotifyConfig {
    fn default() -> (r: Self)
        ensures
            r.skip_first_run && r.incremental && !r.recursive_send,
    {
        TaskNotifyConfig { skip_first_run: true, incremental: true, recursive_send: false }
    }
}

/// The tag under which snapshots of a schedule are stored.
pub open spec fn schedule_tag(s: ScheduleType) -> Seq<char> {
    match s {
        ScheduleType::Daily => "daily"@,
        ScheduleType::Weekly => "weekly"@,
        ScheduleType::Monthly => "monthly"@,
        ScheduleType::Yearly => "yearly"@,
    }
}

impl ScheduleType {
    pub fn as_tag(&self) -> (r: &'static str)
        ensures
            r@ == schedule_tag(*self),
    {
        match self {
            ScheduleType::Daily => "daily",
            ScheduleType::Weekly => "weekly",
            ScheduleType::Monthly => "monthly",
            ScheduleType::Yearly => "yearly",
        }
    }
}

// ---------------------------------------------------------------------------
// Paths
// ---------------------------------------------------------------------------

/// What `Path::is_absolute` answers for a path; fixed by the platform the
/// program is built for.
pub uninterp spec fn spec_path_is_absolute(p: Seq<char>) -> bool;

/// What `Path::join` followed by `to_string_lossy` gives for two valid UTF-8
/// paths; fixed by the platform the program is built for.
pub uninterp spec fn spec_path_join(base: Seq<char>, p: Seq<char>) -> Seq<char>;

/// `Path::is_absolute`.
#[verifier::external_body]
pub(crate) fn path_is_absolute(p: &str) -> (b: bool)
    ensures
        b == spec_path_is_absolute(p@),
{
    std::path::Path::new(p).is_absolute()
}

/// `Path::join`, as a string. By the cases of `PathBuf::push`: an absolute
/// `p` replaces the base; a `p` with a prefix but no root replaces it too;
/// a `p` with a root but no prefix keeps the base's prefix; any other `p` is
/// appended after a separator (verbatim bases are normalised). So joining
/// onto an absolute base gives an absolute path, or `p` itself.
#[verifier::external_body]
pub(crate) fn path_join(base: &str, p: &str) -> (r: String)
    ensures
        r@ == spec_path_join(base@, p@),
        spec_path_is_absolute(p@) ==> r@ == p@,
        spec_path_is_absolute(base@) ==> spec_path_is_absolute(r@) || r@ == p@,
{
    std::path::Path::new(base).join(p).to_string_lossy().to_string()
}

/// What `Path::strip_prefix` leaves of a path (as a string) when `base` is
/// a prefix of it, component by component; fixed by the platform the
/// program is built for.
pub uninterp spec fn spec_path_strip_prefix(p: Seq<char>, base: Seq<char>) -> Option<Seq<char>>;

/// The last component of a path (`Path::file_name`), when there is one;
/// fixed by the platform the program is built for.
pub uninterp spec fn spec_path_file_name(p: Seq<char>) -> Option<Seq<char>>;

/// `Path::strip_prefix`, as a string.
#[verifier::external_body]
pub(crate) fn path_strip_prefix(p: &str, base: &str) -> (r: Option<String>)
    ensures
        match r {
            Some(s) => spec_path_strip_prefix(p@, base@) == Some(s@),
            None => spec_path_strip_prefix(p@, base@) is None,
        },
{
    std::path::Path::new(p).strip_prefix(base).ok().map(|q| q.to_string_lossy().to_string())
}

/// `Path::file_name`, as a string.
#[verifier::external_body]
pub(crate) fn path_file_name(p: &str) -> (r: Option<String>)
    ensures
        match r {
            Some(s) => spec_path_file_name(p@) == Some(s@),
            None => spec_path_file_name(p@) is None,
        },
{
    std::path::Path::new(p).file_name().map(|n| n.to_string_lossy().to_string())
}

/// A path relative to `base` made absolute; an absolute path unchanged.
pub open spec fn resolved(p: Seq<char>, base: Seq<char>) -> Seq<char> {
    if spec_path_is_absolute(p) {
        p
    } else {
        spec_path_join(base, p)
    }
}

pub open spec fn resolved_opt(p: Option<String>, base: Seq<char>) -> Option<Seq<char>> {
    match p {
        Some(s) => Some(resolved(s@, base)),
        None => None,
    }
}

pub open spec fn opt_view(p: Option<String>) -> Option<Seq<char>> {
    match p {
        Some(s) => Some(s@),
        None => None,
    }
}

/// The default location of the rustic executable beside the program.
pub open spec fn default_rustic_exe(exe_dir: Seq<char>) -> Seq<char> {
    spec_path_join(spec_path_join(exe_dir, "bin"@), "rustic.exe"@)
}

impl Config {
    /// Turns a path relative to `base_dir` into an absolute one. Against an
    /// absolute base, resolving the result again leaves it unchanged.
    pub fn resolve_abs(path: &str, base_dir: &str) -> (r: String)
        ensures
            r@ == resolved(path@, base_dir@),
            spec_path_is_absolute(base_dir@) ==> resolved(r@, base_dir@) == r@,
    {
        if path_is_absolute(path) {
            path.to_string()
        } else {
            path_join(base_dir, path)
        }
    }

    /// Resolves the repository, log, rustic and source paths against the
    /// directory of the configuration file.
    pub fn resolve_paths(&mut self, base_dir: &str)
        ensures
            final(self).repo.path@ == resolved(old(self).repo.path@, base_dir@),
            final(self).repo.password == old(self).repo.password,
            opt_view(final(self).log_dir) == resolved_opt(old(self).log_dir, base_dir@),
            opt_view(final(self).rustic_path) == resolved_opt(old(self).rustic_path, base_dir@),
            final(self).tasks.len() == old(self).tasks.len(),
            forall|i: int|
                0 <= i < final(self).tasks.len() ==> {
                    let t = #[trigger] final(self).tasks[i];
                    let o = old(self).tasks[i];
                    &&& t.source@ == resolved(o.source@, base_dir@)
                    &&& same_but_source(t, o)
                },
            final(self).notify == old(self).notify,
            final(self).retention == old(self).retention,
    {
        self.repo.path = Self::resolve_abs(&self.repo.path, base_dir);
        match &self.log_dir {
            Some(d) => {
                let r = Self::resolve_abs(d, base_dir);
                self.log_dir = Some(r);
            },
            None => {},
        }
        match &self.rustic_path {
            Some(p) => {
                let r = Self::resolve_abs(p, base_dir);
                self.rustic_path = Some(r);
            },
            None => {},
        }
        let n = self.tasks.len();
        let ghost old_tasks = self.tasks@;
        let ghost before_repo = self.repo;
        let ghost before_log = self.log_dir;
        let ghost before_rustic = self.rustic_path;
        let ghost before_notify = self.notify;
        let ghost before_retention = self.retention;
        for i in 0..n
            invariant
                n == self.tasks.len() == old_tasks.len(),
                self.repo == before_repo,
                self.log_dir == before_log,
                self.rustic_path == before_rustic,
                self.notify == before_notify,
                self.retention == before_retention,
                forall|j: int|
                    0 <= j < n ==> {
                        let t = #[trigger] self.tasks[j];
                        let o = old_tasks[j];
                        &&& (j < i ==> t.source@ == resolved(o.source@, base_dir@))
                        &&& (j >= i ==> t.source == o.source)
                        &&& same_but_source(t, o)
                    },
        {
            let src = Self::resolve_abs(&self.tasks[i].source, base_dir);
            self.tasks[i].source = src;
        }
    }

    /// Path of the rustic executable.
    pub fn rustic_exe(&self, exe_dir: &str) -> (r: String)
        ensures
            r@ == match self.rustic_path {
                Some(p) => p@,
                None => default_rustic_exe(exe_dir@),
            },
    {
        match &self.rustic_path {
            Some(p) => p.clone(),
            None => {
                let bin = path_join(exe_dir, "bin");
                path_join(&bin, "rustic.exe")
            },
        }
    }

    /// The log directory.
    pub fn log_dir(&self, exe_dir: &str) -> (r: String)
        ensures
            r@ == match self.log_dir {
                Some(d) => d@,
                None => spec_path_join(exe_dir@, "logs"@),
            },
    {
        match &self.log_dir {
            Some(d) => d.clone(),
            None => path_join(exe_dir, "logs"),
        }
    }

    /// The directory for temporary files.
    pub fn temp_dir(&self, exe_dir: &str) -> (r: String)
        ensures
            r@ == spec_path_join(exe_dir@, "temp"@),
    {
        path_join(exe_dir, "temp")
    }

    /// The task with 1-based number `idx`.
    pub fn task_by_index(&self, idx: usize) -> (r: Option<&TaskConfig>)
        ensures
            r == (if 1 <= idx <= self.tasks.len() {
                Some(&self.tasks[idx - 1])
            } else {
                None
            }),
    {
        if idx >= 1 && idx <= self.tasks.len() {
            Some(&self.tasks[idx - 1])
        } else {
            None
        }
    }
}

/// The configuration written by `gen-config`.
pub fn default_config_example() -> (c: Config)
    ensures
        c.repo.path@ == "./repo"@,
        c.repo.password@ == "请修改为你的仓库密码"@,
        c.notify.webhook@ == "https://qyapi.weixin.qq.com/cgi-bin/webhook/send?key=你的key"@,
        !c.notify.wedrive_enabled,
        c.notify.max_webhook_size == 20 * 1024 * 1024,
        c.notify.split_large_files,
        c.notify.split_part_size == 18 * 1024 * 1024,
        c.retention.daily == 15 && c.retention.weekly == 12 && c.retention.monthly == 12
            && c.retention.yearly == 3,
        c.rustic_path is None,
        c.log_dir is None,
        c.tasks.len() == 1,
        c.tasks[0].name@ == "检测数据"@,
        c.tasks[0].source@ == "\\\\nas\\质量部\\检测数据"@,
        c.tasks[0].schedule == ScheduleType::Daily,
        c.tasks[0].time@ == "07:30"@,
        c.tasks[0].weekday is None,
        c.tasks[0].monthday is None,
        c.tasks[0].includes.len() == 0,
        c.tasks[0].exclude.len() == 2,
        c.tasks[0].exclude[0]@ == "~$*"@,
        c.tasks[0].exclude[1]@ == "*.tmp"@,
        c.tasks[0].exclude_regex.len() == 0,
        c.tasks[0].zip_root_files,
        c.tasks[0].root_file_patterns.len() == 2,
        c.tasks[0].root_file_patterns[0]@ == "*.xlsx"@,
        c.tasks[0].root_file_patterns[1]@ == "*.xls"@,
        c.tasks[0].notify.skip_first_run,
        c.tasks[0].notify.incremental,
        !c.tasks[0].notify.recursive_send,
        c.tasks[0].enabled,
{
    let mut exclude: Vec<String> = Vec::new();
    exclude.push("~$*".to_string());
    exclude.push("*.tmp".to_string());
    let task = TaskConfig {
        name: "检测数据".to_string(),
        source: "\\\\nas\\质量部\\检测数据".to_string(),
        schedule: ScheduleType::Daily,
        time: "07:30".to_string(),
        weekday: None,
        monthday: None,
        includes: Vec::new(),
        exclude,
        exclude_regex: Vec::new(),
        zip_root_files: true,
        root_file_patterns: default_root_patterns(),
        notify: TaskNotifyConfig::default(),
        enabled: true,
    };
    let mut tasks: Vec<TaskConfig> = Vec::new();
    tasks.push(task);
    Config {
        repo: RepoConfig { path: "./repo".to_string(), password: "请修改为你的仓库密码".to_string() },
        notify: NotifyConfig {
            webhook: "https://qyapi.weixin.qq.com/cgi-bin/webhook/send?key=你的key".to_string(),
            wedrive_enabled: false,
            max_webhook_size: 20 * 1024 * 1024,
            split_large_files: true,
            split_part_size: 18 * 1024 * 1024,
        },
        retention: RetentionConfig::default(),
        rustic_path: None,
        log_dir: None,
        tasks,
    }
}

/// Whether two tasks hold the same settings.
pub open spec fn same_task(a: TaskConfig, b: TaskConfig) -> bool {
    &&& a.name == b.name
    &&& a.source == b.source
    &&& a.schedule == b.schedule
    &&& a.time == b.time
    &&& a.weekday == b.weekday
    &&& a.monthday == b.monthday
    &&& a.includes@ == b.includes@
    &&& a.exclude@ == b.exclude@
    &&& a.exclude_regex@ == b.exclude_regex@
    &&& a.zip_root_files == b.zip_root_files
    &&& a.root_file_patterns@ == b.root_file_patterns@
    &&& a.notify == b.notify
    &&& a.enabled == b.enabled
}

/// Whether two tasks agree in everything but their source directory.
pub open spec fn same_but_source(a: TaskConfig, b: TaskConfig) -> bool {
    &&& a.name == b.name
    &&& a.schedule == b.schedule
    &&& a.time == b.time
    &&& a.weekday == b.weekday
    &&& a.monthday == b.monthday
    &&& a.includes == b.includes
    &&& a.exclude == b.exclude
    &&& a.exclude_regex == b.exclude_regex
    &&& a.zip_root_files == b.zip_root_files
    &&& a.root_file_patterns == b.root_file_patterns
    &&& a.notify == b.notify
    &&& a.enabled == b.enabled
}

/// A copy of a task's settings.
pub fn clone_task(t: &TaskConfig) -> (r: TaskConfig)
    ensures
        same_task(r, *t),
{
    TaskConfig {
        name: t.name.clone(),
        source: t.source.clone(),
        schedule: t.schedule,
        time: t.time.clone(),
        weekday: t.weekday,
        monthday: t.monthday,
        includes: clone_strings(&t.includes),
        exclude: clone_strings(&t.exclude),
        exclude_regex: clone_strings(&t.exclude_regex),
        zip_root_files: t.zip_root_files,
        root_file_patterns: clone_strings(&t.root_file_patterns),
        notify: TaskNotifyConfig {
            skip_first_run: t.notify.skip_first_run,
            incremental: t.notify.incremental,
            recursive_send: t.notify.recursive_send,
        },
        enabled: t.enabled,
    }
}

} // verus!
