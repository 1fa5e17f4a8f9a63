//! What the configuration wizard makes of the answers it is given.
use vstd::prelude::*;
use crate::config::{Config, NotifyConfig, RepoConfig, RetentionConfig, ScheduleType, TaskConfig, TaskNotifyConfig};
use crate::task::same_task_but_enabled;
use crate::plan::{split_chars, split_on};
use crate::text::{char_vec_views, chars_of, digits_value, is_ascii_digit, parse_digits, parse_digits_exec,
    skip_chars, starts_with_str, string_from, string_views, trim, trim_chars, is_prefix_of, clone_strings, equals_str};

verus! {

broadcast use vstd::string::group_string_axioms;

/// `str::parse::<u32>`: an optional `+`, then one or more ASCII digits, of
/// value at most `u32::MAX`.
pub open spec fn parse_u32(s: Seq<char>) -> Option<u32> {
    match parse_unsigned_value(s) {
        Some(v) => if v <= u32::MAX { Some(v as u32) } else { None },
        None => None,
    }
}

/// `str::parse::<usize>`.
pub open spec fn parse_usize(s: Seq<char>) -> Option<usize> {
    match parse_unsigned_value(s) {
        Some(v) => if v <= usize::MAX { Some(v as usize) } else { None },
        None => None,
    }
}

fn all_digits(v: &Vec<char>) -> (b: bool)
    ensures
        b == (forall|i: int| 0 <= i < v.len() ==> is_ascii_digit(#[trigger] v@[i])),
{
    for i in 0..v.len()
        invariant
            forall|j: int| 0 <= j < i ==> is_ascii_digit(#[trigger] v@[j]),
    {
        if !('0' <= v[i] && v[i] <= '9') {
            return false;
        }
    }
    true
}

/// The digits of an unsigned number, after an optional leading `+`.
pub open spec fn unsigned_digits(s: Seq<char>) -> Seq<char> {
    if s.len() > 0 && s[0] == '+' {
        s.drop_first()
    } else {
        s
    }
}

/// `str::parse` of an unsigned integer type, as a number without bound.
pub open spec fn parse_unsigned_value(s: Seq<char>) -> Option<nat> {
    let digits = unsigned_digits(s);
    if digits.len() > 0 && (forall|i: int| 0 <= i < digits.len() ==> is_ascii_digit(#[trigger] digits[i])) {
        Some(digits_value(digits))
    } else {
        None
    }
}

fn parse_unsigned(s: &Vec<char>) -> (r: Option<u64>)
    ensures
        r == match parse_unsigned_value(s@) {
            Some(v) => if v <= u64::MAX { Some(v as u64) } else { None },
            None => None,
        },
{
    let digits = if s.len() > 0 && s[0] == '+' {
        skip_chars(s, 1)
    } else {
        skip_chars(s, 0)
    };
    assert(s@.skip(0) =~= s@);
    assert(s@.skip(1) =~= s@.drop_first());
    assert(digits@ == unsigned_digits(s@));
    if digits.len() == 0 || !all_digits(&digits) {
        return None;
    }
    parse_digits_exec(&digits)
}

/// A number typed into the wizard, or the default when it is not one.
pub fn parse_u32_or(text: &str, default: u32) -> (n: u32)
    ensures
        n == match parse_u32(text@) {
            Some(v) => v,
            None => default,
        },
{
    match parse_unsigned(&chars_of(text)) {
        Some(v) => if v <= u32::MAX as u64 {
            v as u32
        } else {
            default
        },
        None => default,
    }
}

/// The non-empty pieces of a comma-separated list, trimmed.
pub open spec fn pattern_list(pieces: Seq<Seq<char>>) -> Seq<Seq<char>>
    decreases pieces.len(),
{
    if pieces.len() == 0 {
        seq![]
    } else if trim(pieces.last()).len() > 0 {
        pattern_list(pieces.drop_last()).push(trim(pieces.last()))
    } else {
        pattern_list(pieces.drop_last())
    }
}

/// Reads `*.xlsx, *.xls` as a list of patterns.
pub fn split_patterns(input: &str) -> (r: Vec<String>)
    ensures
        string_views(r@) == pattern_list(split_on(input@, ',')),
{
    let pieces = split_chars(&chars_of(input), ',');
    let ghost pv = char_vec_views(pieces@);
    let mut r: Vec<String> = Vec::new();
    for i in 0..pieces.len()
        invariant
            pv == char_vec_views(pieces@),
            string_views(r@) == pattern_list(pv.take(i as int)),
    {
        assert(pv.take(i + 1).drop_last() =~= pv.take(i as int));
        assert(pv.take(i + 1).last() == pieces[i as int]@);
        let t = trim_chars(&pieces[i]);
        if t.len() > 0 {
            let ghost before = r@;
            r.push(string_from(&t));
            assert(string_views(r@) =~= string_views(before).push(t@));
        }
    }
    assert(pv.take(pieces.len() as int) =~= pv);
    r
}

/// The schedules the wizard offers, in the order it lists them.
pub open spec fn schedule_options() -> Seq<Seq<char>> {
    seq!["daily（每天）"@, "weekly（每周）"@, "monthly（每月）"@, "yearly（每年）"@]
}

/// The schedule a label of the list stands for: the one whose name it
/// starts with, yearly when none of the others.
pub open spec fn schedule_of_choice(label: Seq<char>) -> ScheduleType {
    if is_prefix_of("daily"@, label) {
        ScheduleType::Daily
    } else if is_prefix_of("weekly"@, label) {
        ScheduleType::Weekly
    } else if is_prefix_of("monthly"@, label) {
        ScheduleType::Monthly
    } else {
        ScheduleType::Yearly
    }
}

/// The schedule chosen by its label (`daily...`, `weekly...`, `monthly...`, else yearly).
pub fn schedule_from_choice(label: &str) -> (s: ScheduleType)
    ensures
        s == schedule_of_choice(label@),
        s == if is_prefix_of("daily"@, label@) {
            ScheduleType::Daily
        } else if is_prefix_of("weekly"@, label@) {
            ScheduleType::Weekly
        } else if is_prefix_of("monthly"@, label@) {
            ScheduleType::Monthly
        } else {
            ScheduleType::Yearly
        },
{
    let c = chars_of(label);
    if starts_with_str(&c, "daily") {
        ScheduleType::Daily
    } else if starts_with_str(&c, "weekly") {
        ScheduleType::Weekly
    } else if starts_with_str(&c, "monthly") {
        ScheduleType::Monthly
    } else {
        ScheduleType::Yearly
    }
}

/// Where the schedule list starts: at the current schedule, else at daily.
pub fn schedule_choice_index(current: Option<ScheduleType>) -> (i: usize)
    ensures
        i == match current {
            Some(ScheduleType::Daily) => 0usize,
            Some(ScheduleType::Weekly) => 1,
            Some(ScheduleType::Monthly) => 2,
            Some(ScheduleType::Yearly) => 3,
            None => 0,
        },
{
    match current {
        Some(ScheduleType::Daily) => 0,
        Some(ScheduleType::Weekly) => 1,
        Some(ScheduleType::Monthly) => 2,
        Some(ScheduleType::Yearly) => 3,
        None => 0,
    }
}

/// The number in a choice `[n] name`, read after its first character up to
/// the first `]`; 1 when it is not a number.
pub open spec fn choice_number(label: Seq<char>) -> usize {
    match parse_usize(trim(split_on(label.drop_first(), ']')[0])) {
        Some(n) => n,
        None => 1,
    }
}

/// The number in a choice `[n] name`.
pub fn choice_number_of(label: &str) -> (n: usize)
    requires
        label@.len() > 0,
        (label@[0] as u32) < 128,
    ensures
        n == choice_number(label@),
{
    let c = chars_of(label);
    let rest = skip_chars(&c, 1);
    assert(c@.skip(1) =~= c@.drop_first());
    let pieces = split_chars(&rest, ']');
    proof {
        lemma_split_nonempty(rest@, ']');
    }
    let first = trim_chars(&pieces[0]);
    assert(first@ == trim(split_on(label@.drop_first(), ']')[0]));
    match parse_unsigned(&first) {
        Some(v) => if v <= usize::MAX as u64 {
            v as usize
        } else {
            1
        },
        None => 1,
    }
}

/// The 0-based task index of a choice `[n] name`.
pub fn task_index_from_choice(label: &str) -> (i: usize)
    requires
        label@.len() > 0,
        (label@[0] as u32) < 128,
        choice_number(label@) >= 1,
    ensures
        i == choice_number(label@) - 1,
{
    choice_number_of(label) - 1
}

proof fn lemma_split_nonempty(s: Seq<char>, c: char)
    ensures
        split_on(s, c).len() >= 1,
{
}

/// The configuration the wizard creates from its answers: webhook files up to
/// 20 MiB, parts of 18 MiB, the rustic and log locations by default.
pub fn new_config(repo_path: String, password: String, webhook: String, wedrive_enabled: bool, split_large_files: bool, retention: RetentionConfig, tasks: Vec<TaskConfig>) -> (c: Config)
    ensures
        c.repo.path == repo_path,
        c.repo.password == password,
        c.notify.webhook == webhook,
        c.notify.wedrive_enabled == wedrive_enabled,
        c.notify.max_webhook_size == 20 * 1024 * 1024,
        c.notify.split_large_files == split_large_files,
        c.notify.split_part_size == 18 * 1024 * 1024,
        c.retention == retention,
        c.tasks == tasks,
        c.rustic_path is None,
        c.log_dir is None,
{
    Config {
        repo: RepoConfig { path: repo_path, password },
        notify: NotifyConfig {
            webhook,
            wedrive_enabled,
            max_webhook_size: 20 * 1024 * 1024,
            split_large_files,
            split_part_size: 18 * 1024 * 1024,
        },
        retention,
        tasks,
        rustic_path: None,
        log_dir: None,
    }
}

/// The answers given for one task.
pub struct TaskAnswers {
    pub name: String,
    pub source: String,
    pub schedule: ScheduleType,
    pub time: String,
    pub zip_root_files: bool,
    /// The file patterns shown and kept (only asked for when files are sent).
    pub root_file_patterns: Vec<String>,
    pub incremental: bool,
    pub skip_first_run: bool,
    pub recursive_send: bool,
    pub enabled: bool,
    pub exclude: Vec<String>,
}

/// What the questions about a task offer first: the task's current
/// settings when it is edited, else the defaults of a new task.
pub struct TaskDefaults {
    pub name: String,
    pub source: String,
    pub schedule_index: usize,
    pub time: String,
    pub zip_root_files: bool,
    pub root_file_patterns: Vec<String>,
    pub incremental: bool,
    pub skip_first_run: bool,
    pub recursive_send: bool,
    pub enabled: bool,
    pub exclude: Vec<String>,
}

pub fn task_defaults(existing: Option<&TaskConfig>) -> (d: TaskDefaults)
    ensures
        match existing {
            Some(t) => {
                &&& d.name == t.name
                &&& d.source == t.source
                &&& d.schedule_index == schedule_choice_index_of(Some(t.schedule))
                &&& d.schedule_index < schedule_options().len()
                &&& schedule_of_choice(schedule_options()[d.schedule_index as int]) == t.schedule
                &&& d.time == t.time
                &&& d.zip_root_files == t.zip_root_files
                &&& d.root_file_patterns@ == t.root_file_patterns@
                &&& d.incremental == t.notify.incremental
                &&& d.skip_first_run == t.notify.skip_first_run
                &&& d.recursive_send == t.notify.recursive_send
                &&& d.enabled == t.enabled
                &&& d.exclude@ == t.exclude@
            },
            None => {
                &&& d.name@.len() == 0
                &&& d.source@.len() == 0
                &&& d.schedule_index == 0
                &&& schedule_of_choice(schedule_options()[d.schedule_index as int]) == ScheduleType::Daily
                &&& d.time@ == "07:30"@
                &&& d.zip_root_files
                &&& string_views(d.root_file_patterns@) == seq!["*.xlsx"@, "*.xls"@]
                &&& d.incremental
                &&& d.skip_first_run
                &&& !d.recursive_send
                &&& d.enabled
                &&& d.exclude.len() == 0
            },
        },
{
    proof {
        crate::laws::schedule_list_starts_at_current();
    }
    match existing {
        Some(t) => TaskDefaults {
            name: t.name.clone(),
            source: t.source.clone(),
            schedule_index: schedule_choice_index(Some(t.schedule)),
            time: t.time.clone(),
            zip_root_files: t.zip_root_files,
            root_file_patterns: clone_strings(&t.root_file_patterns),
            incremental: t.notify.incremental,
            skip_first_run: t.notify.skip_first_run,
            recursive_send: t.notify.recursive_send,
            enabled: t.enabled,
            exclude: clone_strings(&t.exclude),
        },
        None => {
            let mut patterns: Vec<String> = Vec::new();
            patterns.push("*.xlsx".to_string());
            patterns.push("*.xls".to_string());
            assert(string_views(patterns@) =~= seq!["*.xlsx"@, "*.xls"@]);
            TaskDefaults {
                name: String::new(),
                source: String::new(),
                schedule_index: 0,
                time: "07:30".to_string(),
                zip_root_files: true,
                root_file_patterns: patterns,
                incremental: true,
                skip_first_run: true,
                recursive_send: false,
                enabled: true,
                exclude: Vec::new(),
            }
        },
    }
}

/// Where the schedule list starts, as a number.
pub open spec fn schedule_choice_index_of(current: Option<ScheduleType>) -> usize {
    match current {
        Some(ScheduleType::Daily) => 0,
        Some(ScheduleType::Weekly) => 1,
        Some(ScheduleType::Monthly) => 2,
        Some(ScheduleType::Yearly) => 3,
        None => 0,
    }
}

/// The task the answers describe. What is not asked (the weekday, the day
/// of the month, the include patterns and the regular expressions) is kept
/// from the task that is edited, or left empty; no file patterns are kept
/// when root files are not sent.
pub fn task_from_answers(existing: Option<&TaskConfig>, answers: TaskAnswers) -> (t: TaskConfig)
    ensures
        t.name == answers.name,
        t.source == answers.source,
        t.schedule == answers.schedule,
        t.time == answers.time,
        t.zip_root_files == answers.zip_root_files,
        answers.zip_root_files ==> t.root_file_patterns@ == answers.root_file_patterns@,
        !answers.zip_root_files ==> t.root_file_patterns.len() == 0,
        t.notify.incremental == answers.incremental,
        t.notify.skip_first_run == answers.skip_first_run,
        t.notify.recursive_send == answers.recursive_send,
        t.enabled == answers.enabled,
        t.exclude@ == answers.exclude@,
        match existing {
            Some(e) => t.weekday == e.weekday && t.monthday == e.monthday && t.includes@ == e.includes@
                && t.exclude_regex@ == e.exclude_regex@,
            None => t.weekday is None && t.monthday is None && t.includes.len() == 0 && t.exclude_regex.len() == 0,
        },
{
    let (weekday, monthday, includes, exclude_regex) = match existing {
        Some(e) => (e.weekday, e.monthday, clone_strings(&e.includes), clone_strings(&e.exclude_regex)),
        None => (None, None, Vec::new(), Vec::new()),
    };
    let patterns = if answers.zip_root_files {
        answers.root_file_patterns
    } else {
        Vec::new()
    };
    TaskConfig {
        name: answers.name,
        source: answers.source,
        schedule: answers.schedule,
        time: answers.time,
        weekday,
        monthday,
        includes,
        exclude: answers.exclude,
        exclude_regex,
        zip_root_files: answers.zip_root_files,
        root_file_patterns: patterns,
        notify: TaskNotifyConfig {
            skip_first_run: answers.skip_first_run,
            incremental: answers.incremental,
            recursive_send: answers.recursive_send,
        },
        enabled: answers.enabled,
    }
}

/// Whether every task but the one at `idx` is unchanged.
pub open spec fn others_unchanged(old: Seq<TaskConfig>, new: Seq<TaskConfig>, idx: int) -> bool {
    &&& new.len() == old.len()
    &&& forall|j: int| 0 <= j < old.len() && j != idx ==> #[trigger] new[j] == old[j]
}

/// Whether only the task list of the configuration differs.
pub open spec fn same_settings(old: Config, new: Config) -> bool {
    &&& new.repo == old.repo
    &&& new.notify == old.notify
    &&& new.retention == old.retention
    &&& new.rustic_path == old.rustic_path
    &&& new.log_dir == old.log_dir
}

/// Adds a task at the end of the list.
pub fn add_task(config: &mut Config, task: TaskConfig)
    ensures
        final(config).tasks@ == old(config).tasks@.push(task),
        same_settings(*old(config), *final(config)),
{
    config.tasks.push(task);
}

/// Puts a task in place of the one at `idx` (from 0).
pub fn replace_task(config: &mut Config, idx: usize, task: TaskConfig)
    requires
        idx < old(config).tasks.len(),
    ensures
        final(config).tasks@ == old(config).tasks@.update(idx as int, task),
        same_settings(*old(config), *final(config)),
{
    config.tasks.set(idx, task);
}

/// Removes the task at `idx` (from 0).
pub fn remove_task(config: &mut Config, idx: usize)
    requires
        idx < old(config).tasks.len(),
    ensures
        final(config).tasks@ == old(config).tasks@.remove(idx as int),
        same_settings(*old(config), *final(config)),
{
    let _ = config.tasks.remove(idx);
}

/// `new` is `old` with the task at `idx` switched the other way.
pub open spec fn toggled(old: Seq<TaskConfig>, new: Seq<TaskConfig>, idx: int) -> bool {
    &&& new[idx].enabled == !old[idx].enabled
    &&& same_task_but_enabled(new[idx], old[idx])
    &&& others_unchanged(old, new, idx)
}

/// Switches the task at `idx` (from 0) on or off; returns whether it is now on.
pub fn toggle_task(config: &mut Config, idx: usize) -> (on: bool)
    requires
        idx < old(config).tasks.len(),
    ensures
        on == !old(config).tasks[idx as int].enabled,
        toggled(old(config).tasks@, final(config).tasks@, idx as int),
        same_settings(*old(config), *final(config)),
{
    let on = !config.tasks[idx].enabled;
    config.tasks[idx].enabled = on;
    on
}

/// What a choice of the main menu of the wizard does.
#[derive(Clone, Copy, Debug, PartialEq, Eq, Structural)]
pub enum MenuAction {
    EditRepo,
    EditNotify,
    EditRetention,
    ManageTasks,
    StartOver,
    SaveAndQuit,
    Discard,
    Nothing,
}

/// The action of a main menu choice, by its number (`1.` to `7.`).
pub fn menu_action(choice: &str) -> (a: MenuAction)
    ensures
        a == if is_prefix_of("1."@, choice@) {
            MenuAction::EditRepo
        } else if is_prefix_of("2."@, choice@) {
            MenuAction::EditNotify
        } else if is_prefix_of("3."@, choice@) {
            MenuAction::EditRetention
        } else if is_prefix_of("4."@, choice@) {
            MenuAction::ManageTasks
        } else if is_prefix_of("5."@, choice@) {
            MenuAction::StartOver
        } else if is_prefix_of("6."@, choice@) {
            MenuAction::SaveAndQuit
        } else if is_prefix_of("7."@, choice@) {
            MenuAction::Discard
        } else {
            MenuAction::Nothing
        },
{
    let c = chars_of(choice);
    if starts_with_str(&c, "1.") {
        MenuAction::EditRepo
    } else if starts_with_str(&c, "2.") {
        MenuAction::EditNotify
    } else if starts_with_str(&c, "3.") {
        MenuAction::EditRetention
    } else if starts_with_str(&c, "4.") {
        MenuAction::ManageTasks
    } else if starts_with_str(&c, "5.") {
        MenuAction::StartOver
    } else if starts_with_str(&c, "6.") {
        MenuAction::SaveAndQuit
    } else if starts_with_str(&c, "7.") {
        MenuAction::Discard
    } else {
        MenuAction::Nothing
    }
}

/// A password typed twice: accepted only when both are the same.
pub fn confirmed_password(first: String, second: &str) -> (r: Option<String>)
    ensures
        first@ == second@ ==> r == Some(first),
        first@ != second@ ==> r is None,
{
    if equals_str(&chars_of(first.as_str()), second) {
        Some(first)
    } else {
        None
    }
}

} // verus!
