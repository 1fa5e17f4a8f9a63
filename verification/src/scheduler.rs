//! The decisions of a backup run: which tasks are due, what is sent, how
//! large archives are split, and the report that ends a run.
use vstd::prelude::*;
use crate::config::{NotifyConfig, ScheduleType, TaskConfig};
use crate::text::{decimal, push_decimal, push_str, string_from, string_views};
use crate::zip_util::FileEntry;
use crate::timing::{changed_files, changed_since, snapshot_reference, StampedFile};
use crate::sending::same_but_sending;

verus! {

broadcast use vstd::string::group_string_axioms;

/// The outcome of one task.
pub struct TaskResult {
    pub task_name: String,
    pub success: bool,
    pub snapshot_id: Option<String>,
    pub files_scanned: u64,
    pub files_size: u64,
    pub files_sent: u64,
    pub send_type: String,
    pub send_success: bool,
    pub wedrive_path: Option<String>,
    pub is_first_run: bool,
    pub changed_files: Vec<String>,
    pub error: Option<String>,
}

/// A result that records nothing yet, for the named task.
pub open spec fn fresh_result(r: TaskResult, name: Seq<char>) -> bool {
    &&& r.task_name@ == name
    &&& !r.success
    &&& r.snapshot_id is None
    &&& r.files_scanned == 0
    &&& r.files_size == 0
    &&& r.files_sent == 0
    &&& r.send_type@.len() == 0
    &&& !r.send_success
    &&& r.wedrive_path is None
    &&& !r.is_first_run
    &&& r.changed_files.len() == 0
    &&& r.error is None
}

impl Default for TaskResult {
    fn default() -> (r: Self)
        ensures
            fresh_result(r, Seq::empty()),
    {
        TaskResult {
            task_name: String::new(),
            success: false,
            snapshot_id: None,
            files_scanned: 0,
            files_size: 0,
            files_sent: 0,
            send_type: String::new(),
            send_success: false,
            wedrive_path: None,
            is_first_run: false,
            changed_files: Vec::new(),
            error: None,
        }
    }
}

impl TaskResult {
    /// The result of a task that stopped on an error: nothing recorded but
    /// its name and the error.
    pub fn failed(name: &str, message: &str) -> (r: TaskResult)
        ensures
            r.task_name@ == name@,
            r.error matches Some(e) && e@ == message@,
            !r.success && r.snapshot_id is None && r.files_scanned == 0 && r.files_size == 0
                && r.files_sent == 0 && r.send_type@.len() == 0 && !r.send_success && r.wedrive_path is None
                && !r.is_first_run && r.changed_files.len() == 0,
    {
        let mut r = TaskResult::new_for(name);
        r.error = Some(message.to_string());
        r
    }

    /// The result a task starts with.
    pub fn new_for(name: &str) -> (r: TaskResult)
        ensures
            fresh_result(r, name@),
    {
        TaskResult {
            task_name: name.to_string(),
            success: false,
            snapshot_id: None,
            files_scanned: 0,
            files_size: 0,
            files_sent: 0,
            send_type: String::new(),
            send_success: false,
            wedrive_path: None,
            is_first_run: false,
            changed_files: Vec::new(),
            error: None,
        }
    }
}

// ---------------------------------------------------------------------------
// Which tasks are due
// ---------------------------------------------------------------------------

/// A calendar day as the schedule sees it.
#[derive(Clone, Copy, Debug, PartialEq, Eq, Structural)]
pub struct LocalDate {
    /// Day of the week, 0 = Sunday.
    pub weekday: u32,
    /// Day of the month, from 1.
    pub day: u32,
    /// Month, from 1.
    pub month: u32,
}

/// Whether an enabled task runs on the day: daily ones always, weekly ones on
/// their weekday (Saturday when none is set), monthly ones on their day of the
/// month (the first when none is set), yearly ones on January 1st.
pub open spec fn runs_on(task: TaskConfig, date: LocalDate) -> bool {
    task.enabled && match task.schedule {
        ScheduleType::Daily => true,
        ScheduleType::Weekly => date.weekday == match task.weekday {
            Some(w) => w,
            None => 6,
        },
        ScheduleType::Monthly => date.day == match task.monthday {
            Some(d) => d,
            None => 1,
        },
        ScheduleType::Yearly => date.month == 1 && date.day == 1,
    }
}

pub fn should_run_on(task: &TaskConfig, date: LocalDate) -> (b: bool)
    ensures
        b == runs_on(*task, date),
        !task.enabled ==> !b,
        task.enabled && task.schedule == ScheduleType::Daily ==> b,
        task.enabled && task.schedule == ScheduleType::Weekly ==> (b <==> date.weekday == task.weekday.unwrap_or(6)),
        task.enabled && task.schedule == ScheduleType::Monthly ==> (b <==> date.day == task.monthday.unwrap_or(1)),
        task.enabled && task.schedule == ScheduleType::Yearly ==> (b <==> date.month == 1 && date.day == 1),
{
    if !task.enabled {
        return false;
    }
    match task.schedule {
        ScheduleType::Daily => true,
        ScheduleType::Weekly => {
            let target = match task.weekday {
                Some(w) => w,
                None => 6,
            };
            date.weekday == target
        },
        ScheduleType::Monthly => {
            let target = match task.monthday {
                Some(d) => d,
                None => 1,
            };
            date.day == target
        },
        ScheduleType::Yearly => date.month == 1 && date.day == 1,
    }
}

/// The positions (from 0) of the tasks that run on the day, in order.
pub open spec fn due_indices(tasks: Seq<TaskConfig>, date: LocalDate) -> Seq<usize>
    decreases tasks.len(),
{
    if tasks.len() == 0 {
        seq![]
    } else if runs_on(tasks.last(), date) {
        due_indices(tasks.drop_last(), date).push((tasks.len() - 1) as usize)
    } else {
        due_indices(tasks.drop_last(), date)
    }
}

/// The due positions are exactly those of the tasks that run on the day.
pub proof fn due_tasks_are_those_that_run(tasks: Seq<TaskConfig>, date: LocalDate)
    requires
        tasks.len() <= usize::MAX,
    ensures
        forall|k: int| 0 <= k < due_indices(tasks, date).len() ==> {
            let i = #[trigger] due_indices(tasks, date)[k];
            i < tasks.len() && runs_on(tasks[i as int], date)
        },
        forall|i: int| 0 <= i < tasks.len() && runs_on(#[trigger] tasks[i], date) ==> due_indices(tasks, date).contains(i as usize),
    decreases tasks.len(),
{
    if tasks.len() > 0 {
        let init = tasks.drop_last();
        let last = (tasks.len() - 1) as usize;
        due_tasks_are_those_that_run(init, date);
        let d0 = due_indices(init, date);
        let d = due_indices(tasks, date);
        if runs_on(tasks.last(), date) {
            assert(d == d0.push(last));
        } else {
            assert(d == d0);
        }
        assert forall|i: int| 0 <= i < tasks.len() && runs_on(#[trigger] tasks[i], date) implies d.contains(i as usize) by {
            if i < tasks.len() - 1 {
                assert(init[i] == tasks[i]);
                assert(d0.contains(i as usize));
                let k = choose|k: int| 0 <= k < d0.len() && d0[k] == i as usize;
                assert(d[k] == i as usize);
            } else {
                assert(d[d.len() - 1] == i as usize);
            }
        }
        assert forall|k: int| 0 <= k < d.len() implies {
            let i = #[trigger] d[k];
            i < tasks.len() && runs_on(tasks[i as int], date)
        } by {
            if k < d0.len() {
                let i = d0[k];
                assert(d[k] == i);
                assert(init[i as int] == tasks[i as int]);
            }
        }
    }
}

/// The positions (from 0) of the tasks due on the day.
pub fn due_task_indices(tasks: &Vec<TaskConfig>, date: LocalDate) -> (r: Vec<usize>)
    ensures
        r@ == due_indices(tasks@, date),
{
    let mut r: Vec<usize> = Vec::new();
    for i in 0..tasks.len()
        invariant
            r@ == due_indices(tasks@.take(i as int), date),
    {
        assert(tasks@.take(i + 1).drop_last() =~= tasks@.take(i as int));
        assert(tasks@.take(i + 1).last() == tasks@[i as int]);
        if should_run_on(&tasks[i], date) {
            r.push(i);
        }
    }
    assert(tasks@.take(tasks.len() as int) =~= tasks@);
    r
}

/// The report ends a run when at least one task ran and notifications are on.
pub fn summary_due(ran: usize, notify_enabled: bool) -> (b: bool)
    ensures
        b == (ran > 0 && notify_enabled),
{
    ran > 0 && notify_enabled
}

// ---------------------------------------------------------------------------
// Running one task
// ---------------------------------------------------------------------------

/// Records a missing source directory; returns the text of the notice.
pub fn record_missing_source(result: &mut TaskResult, task: &TaskConfig) -> (notice: String)
    ensures
        final(result).error matches Some(e) && e@ == "源目录不存在: "@ + task.source@,
        notice@ == "❌ 备份失败："@ + "源目录不存在: "@ + task.source@ + "\n任务: "@ + task.name@,
        same_but_sending(*old(result), *final(result)),
        final(result).send_type == old(result).send_type,
        final(result).send_success == old(result).send_success,
        final(result).wedrive_path == old(result).wedrive_path,
{
    let mut msg = "源目录不存在: ".to_string();
    push_str(&mut msg, task.source.as_str());
    let mut notice = "❌ 备份失败：".to_string();
    push_str(&mut notice, msg.as_str());
    push_str(&mut notice, "\n任务: ");
    push_str(&mut notice, task.name.as_str());
    result.error = Some(msg);
    notice
}

/// The total of the sizes that could be read.
pub open spec fn known_total(sizes: Seq<Option<u64>>) -> nat
    decreases sizes.len(),
{
    if sizes.len() == 0 {
        0
    } else {
        known_total(sizes.drop_last()) + match sizes.last() {
            Some(n) => n as nat,
            None => 0,
        }
    }
}

/// The names of the files.
pub open spec fn entry_names(files: Seq<FileEntry>) -> Seq<Seq<char>> {
    Seq::new(files.len(), |i: int| files[i].name@)
}

/// Records what was found and what is sent: the number of files found and
/// their total size (of those whose size could be read), the names of the
/// files sent and their number.
pub fn record_selection(result: &mut TaskResult, found_sizes: &Vec<Option<u64>>, to_send: &Vec<FileEntry>)
    requires
        known_total(found_sizes@) <= u64::MAX,
    ensures
        final(result).files_scanned == found_sizes.len(),
        final(result).files_size == known_total(found_sizes@),
        string_views(final(result).changed_files@) == entry_names(to_send@),
        final(result).files_sent == to_send.len(),
        final(result).task_name == old(result).task_name,
        final(result).success == old(result).success,
        final(result).snapshot_id == old(result).snapshot_id,
        final(result).send_type == old(result).send_type,
        final(result).send_success == old(result).send_success,
        final(result).wedrive_path == old(result).wedrive_path,
        final(result).is_first_run == old(result).is_first_run,
        final(result).error == old(result).error,
{
    let mut total: u64 = 0;
    for i in 0..found_sizes.len()
        invariant
            known_total(found_sizes@) <= u64::MAX,
            total == known_total(found_sizes@.take(i as int)),
    {
        proof {
            assert(found_sizes@.take(i + 1).drop_last() =~= found_sizes@.take(i as int));
            lemma_known_total_prefix(found_sizes@, i + 1);
        }
        match found_sizes[i] {
            Some(n) => {
                total = total + n;
            },
            None => {},
        }
    }
    assert(found_sizes@.take(found_sizes.len() as int) =~= found_sizes@);
    let mut names: Vec<String> = Vec::new();
    for i in 0..to_send.len()
        invariant
            string_views(names@) == entry_names(to_send@.take(i as int)),
    {
        let ghost before = names@;
        let c = to_send[i].name.clone();
        names.push(c);
        assert(string_views(names@) =~= string_views(before).push(c@));
        assert(entry_names(to_send@.take(i + 1)) =~= entry_names(to_send@.take(i as int)).push(to_send@[i as int].name@));
    }
    assert(to_send@.take(to_send.len() as int) =~= to_send@);
    result.files_scanned = found_sizes.len() as u64;
    result.files_size = total;
    result.changed_files = names;
    result.files_sent = to_send.len() as u64;
}

proof fn lemma_known_total_prefix(sizes: Seq<Option<u64>>, k: int)
    requires
        0 <= k <= sizes.len(),
    ensures
        known_total(sizes.take(k)) <= known_total(sizes),
    decreases sizes.len() - k,
{
    if k < sizes.len() {
        lemma_known_total_prefix(sizes.drop_last(), k);
        assert(sizes.drop_last().take(k) =~= sizes.take(k));
    } else {
        assert(sizes.take(k) =~= sizes);
    }
}

/// The entries of stamped files.
pub open spec fn stamped_entries(files: Seq<StampedFile>) -> Seq<FileEntry> {
    Seq::new(files.len(), |i: int| files[i].entry)
}

/// The files a run sends: those changed after the previous snapshot when the
/// task is incremental and there is one, else all it counts.
pub open spec fn files_to_send(counted: Seq<StampedFile>, incremental: bool, previous_time: Option<Seq<char>>, now: (i64, u32)) -> Seq<FileEntry> {
    match previous_time {
        Some(t) => if incremental {
            changed_files(counted, snapshot_reference(t, now))
        } else {
            stamped_entries(counted)
        },
        None => stamped_entries(counted),
    }
}

proof fn lemma_changed_files_len(files: Seq<StampedFile>, reference: (i64, u32))
    ensures
        changed_files(files, reference).len() <= files.len(),
    decreases files.len(),
{
    if files.len() > 0 {
        lemma_changed_files_len(files.drop_last(), reference);
    }
}

/// Records what a run found and chooses what it sends. The files found
/// count only when the task sends root files; the run is a first run exactly
/// when there is no previous snapshot (given by its time); an incremental
/// task that has one sends the files changed since, otherwise every counted
/// file is sent.
pub fn select_files(
    result: &mut TaskResult,
    task: &TaskConfig,
    previous_time: Option<&str>,
    found: Vec<StampedFile>,
    found_sizes: &Vec<Option<u64>>,
    now: (i64, u32),
) -> (to_send: Vec<FileEntry>)
    requires
        found_sizes.len() == found.len(),
        known_total(found_sizes@) <= u64::MAX,
    ensures
        ({
            let counted = if task.zip_root_files { found@ } else { Seq::empty() };
            let prev = match previous_time {
                Some(t) => Some(t@),
                None => None,
            };
            &&& final(result).is_first_run == (previous_time is None)
            &&& final(result).files_scanned == counted.len()
            &&& final(result).files_size == if task.zip_root_files { known_total(found_sizes@) } else { 0 }
            &&& to_send@ == files_to_send(counted, task.notify.incremental, prev, now)
        }),
        string_views(final(result).changed_files@) == entry_names(to_send@),
        final(result).files_sent == to_send.len(),
        final(result).files_sent <= final(result).files_scanned,
        !task.zip_root_files ==> final(result).files_scanned == 0 && final(result).files_sent == 0,
        final(result).is_first_run || !task.notify.incremental ==> final(result).files_sent == final(result).files_scanned,
        final(result).task_name == old(result).task_name,
        final(result).success == old(result).success,
        final(result).snapshot_id == old(result).snapshot_id,
        final(result).send_type == old(result).send_type,
        final(result).send_success == old(result).send_success,
        final(result).wedrive_path == old(result).wedrive_path,
        final(result).error == old(result).error,
{
    let ghost counted = if task.zip_root_files { found@ } else { Seq::<StampedFile>::empty() };
    result.is_first_run = previous_time.is_none();
    let (files, sizes) = if task.zip_root_files {
        (found, clone_sizes(found_sizes))
    } else {
        (Vec::new(), Vec::new())
    };
    assert(files@ == counted);
    proof {
        assert(known_total(Seq::<Option<u64>>::empty()) == 0);
    }
    let to_send = match previous_time {
        Some(t) => if task.notify.incremental {
            let r = changed_since(files, t, now);
            proof {
                lemma_changed_files_len(counted, snapshot_reference(t@, now));
            }
            r
        } else {
            entries_of(files)
        },
        None => entries_of(files),
    };
    record_selection(result, &sizes, &to_send);
    to_send
}

fn clone_sizes(v: &Vec<Option<u64>>) -> (r: Vec<Option<u64>>)
    ensures
        r@ == v@,
{
    let mut r: Vec<Option<u64>> = Vec::new();
    for i in 0..v.len()
        invariant
            r@ == v@.take(i as int),
    {
        r.push(v[i]);
        assert(v@.take(i + 1) =~= v@.take(i as int).push(v@[i as int]));
    }
    assert(v@.take(v.len() as int) =~= v@);
    r
}

fn entries_of(files: Vec<StampedFile>) -> (r: Vec<FileEntry>)
    ensures
        r@ == stamped_entries(files@),
{
    let ghost all = files@;
    let mut r: Vec<FileEntry> = Vec::new();
    for f in it: files
        invariant
            it.seq() == all,
            r@ == stamped_entries(all.take(it.index() as int)),
    {
        let ghost idx = it.index() as int;
        assert(all.take(idx + 1)[idx] == f);
        r.push(f.entry);
        assert(r@ =~= stamped_entries(all.take(idx + 1)));
    }
    assert(all.take(all.len() as int) =~= all);
    r
}

/// Whether only the files changed since the last snapshot are sent.
pub fn sends_changes_only(task: &TaskConfig, is_first_run: bool) -> (b: bool)
    ensures
        b == (task.notify.incremental && !is_first_run),
{
    task.notify.incremental && !is_first_run
}

/// What happens to the files of a task.
#[derive(Clone, Copy, Debug, PartialEq, Eq, Structural)]
pub enum SendPlan {
    /// Archive and send them.
    Pack,
    /// Notifications are off.
    NotifyDisabled,
    /// First run of a task that skips it.
    FirstRunSkipped,
    /// Nothing changed.
    NoChanges,
}

/// Files are sent unless notifications are off, or this is the first run of a
/// task that skips it and sending is not forced; and only when there are any.
pub open spec fn send_plan_for(notify_enabled: bool, force_notify: bool, is_first_run: bool, skip_first_run: bool, nothing_to_send: bool) -> SendPlan {
    let skip = !notify_enabled || (!force_notify && is_first_run && skip_first_run);
    if !skip && !nothing_to_send {
        SendPlan::Pack
    } else if !notify_enabled {
        SendPlan::NotifyDisabled
    } else if skip {
        SendPlan::FirstRunSkipped
    } else {
        SendPlan::NoChanges
    }
}

pub fn send_plan(notify_enabled: bool, force_notify: bool, is_first_run: bool, task: &TaskConfig, nothing_to_send: bool) -> (p: SendPlan)
    ensures
        p == send_plan_for(notify_enabled, force_notify, is_first_run, task.notify.skip_first_run, nothing_to_send),
        notify_enabled && !nothing_to_send ==> (p == SendPlan::Pack <==> !(is_first_run && task.notify.skip_first_run && !force_notify)),
        !notify_enabled ==> p == SendPlan::NotifyDisabled,
        p == SendPlan::FirstRunSkipped <==> (notify_enabled && is_first_run && task.notify.skip_first_run && !force_notify),
        p == SendPlan::NoChanges <==> (notify_enabled && nothing_to_send && !(is_first_run && task.notify.skip_first_run && !force_notify)),
{
    let skip = !notify_enabled || (!force_notify && is_first_run && task.notify.skip_first_run);
    if !skip && !nothing_to_send {
        SendPlan::Pack
    } else if !notify_enabled {
        SendPlan::NotifyDisabled
    } else if skip {
        SendPlan::FirstRunSkipped
    } else {
        SendPlan::NoChanges
    }
}

/// The send type and success that a plan other than `Pack` records.
pub open spec fn plan_label(p: SendPlan) -> Seq<char> {
    match p {
        SendPlan::Pack => Seq::empty(),
        SendPlan::NotifyDisabled => "通知禁用"@,
        SendPlan::FirstRunSkipped => "首次运行跳过"@,
        SendPlan::NoChanges => "无变化"@,
    }
}

/// Records a plan that sends nothing.
pub fn record_plan(result: &mut TaskResult, p: SendPlan)
    requires
        p != SendPlan::Pack,
    ensures
        final(result).send_type@ == plan_label(p),
        final(result).send_success == (p == SendPlan::NotifyDisabled || p == SendPlan::NoChanges)
            || (p == SendPlan::FirstRunSkipped && old(result).send_success),
        final(result).error == old(result).error,
        final(result).wedrive_path == old(result).wedrive_path,
        same_but_sending(*old(result), *final(result)),
{
    match p {
        SendPlan::NotifyDisabled => {
            result.send_type = "通知禁用".to_string();
            result.send_success = true;
        },
        SendPlan::FirstRunSkipped => {
            result.send_type = "首次运行跳过".to_string();
        },
        _ => {
            result.send_type = "无变化".to_string();
            result.send_success = true;
        },
    }
}

/// Records the outcome of the backup: the snapshot id, or the error text.
pub fn record_backup(result: &mut TaskResult, outcome: Result<String, String>)
    ensures
        match outcome {
            Ok(id) => final(result).success && final(result).snapshot_id == Some(id)
                && final(result).error == old(result).error,
            Err(e) => !final(result).success && final(result).snapshot_id == old(result).snapshot_id
                && (final(result).error matches Some(m) && m@ == "rustic 备份失败: "@ + e@),
        },
        final(result).task_name == old(result).task_name,
        final(result).send_type == old(result).send_type,
        final(result).send_success == old(result).send_success,
        final(result).wedrive_path == old(result).wedrive_path,
        final(result).files_scanned == old(result).files_scanned,
        final(result).files_size == old(result).files_size,
        final(result).files_sent == old(result).files_sent,
        final(result).is_first_run == old(result).is_first_run,
        final(result).changed_files == old(result).changed_files,
{
    match outcome {
        Ok(id) => {
            result.snapshot_id = Some(id);
            result.success = true;
        },
        Err(e) => {
            let mut msg = "rustic 备份失败: ".to_string();
            push_str(&mut msg, e.as_str());
            result.error = Some(msg);
            result.success = false;
        },
    }
}

// ---------------------------------------------------------------------------
// Archiving and sending
// ---------------------------------------------------------------------------

/// `<name>_staging`, the directory the files are copied to.
pub fn staging_dir_name(task: &TaskConfig) -> (s: String)
    ensures
        s@ == task.name@ + "_staging"@,
{
    let mut s = task.name.clone();
    push_str(&mut s, "_staging");
    s
}

/// `<name>_<date>_增量` for changed files only, `<name>_<date>_全量` otherwise.
pub fn archive_base_name(task: &TaskConfig, date: &str, is_first_run: bool) -> (s: String)
    ensures
        s@ == task.name@ + "_"@ + date@ + "_"@ + if task.notify.incremental && !is_first_run {
            "增量"@
        } else {
            "全量"@
        },
{
    let mut s = task.name.clone();
    push_str(&mut s, "_");
    push_str(&mut s, date);
    push_str(&mut s, "_");
    if task.notify.incremental && !is_first_run {
        push_str(&mut s, "增量");
    } else {
        push_str(&mut s, "全量");
    }
    s
}

/// Whether the files are sent as several parts.
pub fn needs_split(notify: &NotifyConfig, total_size: u64) -> (b: bool)
    ensures
        b == (notify.split_large_files && total_size > notify.max_webhook_size),
{
    notify.split_large_files && total_size > notify.max_webhook_size
}

/// Where a single archive goes.
#[derive(Clone, Copy, Debug, PartialEq, Eq, Structural)]
pub enum ArchiveRoute {
    Webhook,
    Wedrive,
    Skip,
}

/// The webhook takes an archive up to its limit; a larger one goes to WeDrive
/// when that is enabled, else it is not sent.
pub fn single_archive_route(notify: &NotifyConfig, size: u64) -> (r: ArchiveRoute)
    ensures
        r == if size <= notify.max_webhook_size {
            ArchiveRoute::Webhook
        } else if notify.wedrive_enabled {
            ArchiveRoute::Wedrive
        } else {
            ArchiveRoute::Skip
        },
{
    if size <= notify.max_webhook_size {
        ArchiveRoute::Webhook
    } else if notify.wedrive_enabled {
        ArchiveRoute::Wedrive
    } else {
        ArchiveRoute::Skip
    }
}

/// How a split archive is cut into chunks for the webhook: chunks 1 MiB under
/// the limit, and their number.
pub open spec fn chunk_plan_for(max_size: nat, file_size: nat) -> (nat, nat) {
    let chunk = (max_size - 1048576) as nat;
    (chunk, (file_size + chunk - 1) as nat / chunk)
}

pub fn chunk_plan(max_size: u64, file_size: u64) -> (r: (u64, u64))
    requires
        max_size > 1048576,
        file_size + max_size - 1048576 <= u64::MAX + 1,
    ensures
        r.0 == chunk_plan_for(max_size as nat, file_size as nat).0,
        r.1 == chunk_plan_for(max_size as nat, file_size as nat).1,
        r.0 > 0,
{
    let chunk = max_size - 1048576;
    let total = (file_size + (chunk - 1)) / chunk;
    (chunk, total)
}

/// `<base>_chunk<i>_<total>.bin`.
pub fn chunk_name(base: &str, i: u64, total: u64) -> (s: String)
    ensures
        s@ == base@ + "_chunk"@ + decimal(i as nat) + "_"@ + decimal(total as nat) + ".bin"@,
{
    let mut s = base.to_string();
    push_str(&mut s, "_chunk");
    push_str(&mut s, crate::text::u64_to_string(i).as_str());
    push_str(&mut s, "_");
    push_str(&mut s, crate::text::u64_to_string(total).as_str());
    push_str(&mut s, ".bin");
    s
}

/// `<base>_part<n>.zip`.
pub fn part_name(base: &str, n: u64) -> (s: String)
    ensures
        s@ == base@ + "_part"@ + decimal(n as nat) + ".zip"@,
{
    let mut s = base.to_string();
    push_str(&mut s, "_part");
    push_str(&mut s, crate::text::u64_to_string(n).as_str());
    push_str(&mut s, ".zip");
    s
}

/// `<label>(<sent>/<total>)`, the send type of a split archive.
pub fn parts_summary(label: &str, sent: u64, total: u64) -> (s: String)
    ensures
        s@ == label@ + "("@ + decimal(sent as nat) + "/"@ + decimal(total as nat) + ")"@,
{
    let mut s = label.to_string();
    push_str(&mut s, "(");
    push_str(&mut s, crate::text::u64_to_string(sent).as_str());
    push_str(&mut s, "/");
    push_str(&mut s, crate::text::u64_to_string(total).as_str());
    push_str(&mut s, ")");
    s
}

// ---------------------------------------------------------------------------
// Splitting an archive into parts of bounded size
// ---------------------------------------------------------------------------

/// A file and its size in bytes.
pub struct SizedFile {
    pub path: String,
    pub size: u64,
}

/// Where a stable sort by size, largest first, puts a file after the ones
/// before it: behind every file at least as large.
pub open spec fn size_insert_pos(sorted: Seq<SizedFile>, size: u64, i: int) -> int
    decreases sorted.len() - i,
{
    if i < 0 || i >= sorted.len() {
        sorted.len() as int
    } else if sorted[i].size < size {
        i
    } else {
        size_insert_pos(sorted, size, i + 1)
    }
}

/// The files sorted by size, largest first; files of equal size keep their order.
pub open spec fn sorted_by_size(files: Seq<SizedFile>) -> Seq<SizedFile>
    decreases files.len(),
{
    if files.len() == 0 {
        seq![]
    } else {
        let s = sorted_by_size(files.drop_last());
        s.insert(size_insert_pos(s, files.last().size, 0), files.last())
    }
}

pub open spec fn total_size(files: Seq<SizedFile>) -> nat
    decreases files.len(),
{
    if files.len() == 0 {
        0
    } else {
        total_size(files.drop_last()) + files.last().size as nat
    }
}

/// The first group, from `i` on, whose size leaves room for `size`.
pub open spec fn first_fit_from(sizes: Seq<nat>, size: nat, cap: nat, i: int) -> int
    decreases sizes.len() - i,
{
    if i < 0 || i >= sizes.len() {
        sizes.len() as int
    } else if sizes[i] + size <= cap {
        i
    } else {
        first_fit_from(sizes, size, cap, i + 1)
    }
}

/// The groups and their sizes after placing the files in order, each into the
/// first group with room for it, or into a new group.
pub open spec fn first_fit(files: Seq<SizedFile>, cap: nat) -> (Seq<Seq<SizedFile>>, Seq<nat>)
    decreases files.len(),
{
    if files.len() == 0 {
        (seq![], seq![])
    } else {
        let (groups, sizes) = first_fit(files.drop_last(), cap);
        let f = files.last();
        let k = first_fit_from(sizes, f.size as nat, cap, 0);
        if 0 <= k < sizes.len() {
            (groups.update(k, groups[k].push(f)), sizes.update(k, sizes[k] + f.size as nat))
        } else {
            (groups.push(seq![f]), sizes.push(f.size as nat))
        }
    }
}

/// The parts of a split archive: the files, largest first, each put into the
/// first part that stays within `cap` with it, else into a new part.
pub open spec fn split_groups(files: Seq<SizedFile>, cap: nat) -> Seq<Seq<SizedFile>> {
    first_fit(sorted_by_size(files), cap).0
}

/// All files of the groups, group after group.
pub open spec fn grouped_files(groups: Seq<Seq<SizedFile>>) -> Seq<SizedFile>
    decreases groups.len(),
{
    if groups.len() == 0 {
        seq![]
    } else {
        grouped_files(groups.drop_last()) + groups.last()
    }
}

proof fn lemma_sorted_by_size_multiset(files: Seq<SizedFile>)
    ensures
        sorted_by_size(files).to_multiset() == files.to_multiset(),
        sorted_by_size(files).len() == files.len(),
    decreases files.len(),
{
    broadcast use vstd::seq_lib::group_to_multiset_ensures;

    if files.len() > 0 {
        let s = sorted_by_size(files.drop_last());
        lemma_sorted_by_size_multiset(files.drop_last());
        lemma_insert_pos_bounds(s, files.last().size, 0);
        vstd::seq_lib::to_multiset_insert(s, size_insert_pos(s, files.last().size, 0), files.last());
        assert(files =~= files.drop_last().push(files.last()));
    }
}

proof fn lemma_insert_pos_bounds(sorted: Seq<SizedFile>, size: u64, i: int)
    requires
        0 <= i,
    ensures
        0 <= size_insert_pos(sorted, size, i) <= sorted.len(),
    decreases sorted.len() - i,
{
    if i < sorted.len() && sorted[i].size >= size {
        lemma_insert_pos_bounds(sorted, size, i + 1);
    }
}

proof fn lemma_total_size_multiset(a: Seq<SizedFile>, b: Seq<SizedFile>)
    requires
        a.to_multiset() == b.to_multiset(),
    ensures
        total_size(a) == total_size(b),
    decreases a.len(),
{
    broadcast use vstd::seq_lib::group_to_multiset_ensures;

    if a.len() > 0 {
        let x = a.last();
        assert(a =~= a.drop_last().push(x));
        assert(b.to_multiset().count(x) > 0);
        assert(b.contains(x));
        let j = choose|j: int| 0 <= j < b.len() && b[j] == x;
        let b2 = b.remove(j);
        assert(b2.to_multiset() =~= a.drop_last().to_multiset());
        lemma_total_size_multiset(a.drop_last(), b2);
        lemma_total_size_remove(b, j);
    } else {
        assert(a.to_multiset().len() == 0);
        assert(b.len() == b.to_multiset().len());
    }
}

proof fn lemma_total_size_remove(b: Seq<SizedFile>, j: int)
    requires
        0 <= j < b.len(),
    ensures
        total_size(b) == total_size(b.remove(j)) + b[j].size,
    decreases b.len(),
{
    if j < b.len() - 1 {
        assert(b.remove(j).drop_last() =~= b.drop_last().remove(j));
        assert(b.remove(j).last() == b.last());
        lemma_total_size_remove(b.drop_last(), j);
    } else {
        assert(b.remove(j) =~= b.drop_last());
    }
}

proof fn lemma_total_size_append(a: Seq<SizedFile>, b: Seq<SizedFile>)
    ensures
        total_size(a + b) == total_size(a) + total_size(b),
    decreases b.len(),
{
    if b.len() > 0 {
        assert((a + b).drop_last() =~= a + b.drop_last());
        lemma_total_size_append(a, b.drop_last());
    } else {
        assert(a + b =~= a);
    }
}

/// What the first-fit placement keeps: every group is non-empty; a group of
/// two files or more stays within the cap; the recorded sizes are the group
/// totals; the files of the groups are the files placed.
pub open spec fn first_fit_state(files: Seq<SizedFile>, cap: nat, groups: Seq<Seq<SizedFile>>, sizes: Seq<nat>) -> bool {
    &&& groups.len() == sizes.len()
    &&& forall|k: int| 0 <= k < groups.len() ==> #[trigger] groups[k].len() >= 1
    &&& forall|k: int| 0 <= k < groups.len() ==> sizes[k] == total_size(#[trigger] groups[k])
    &&& forall|k: int| 0 <= k < groups.len() && #[trigger] groups[k].len() >= 2 ==> sizes[k] <= cap
    &&& grouped_files(groups).to_multiset() == files.to_multiset()
}

proof fn lemma_grouped_files_update(groups: Seq<Seq<SizedFile>>, k: int, f: SizedFile)
    requires
        0 <= k < groups.len(),
    ensures
        grouped_files(groups.update(k, groups[k].push(f))).to_multiset()
            == grouped_files(groups).to_multiset().insert(f),
    decreases groups.len(),
{
    broadcast use vstd::seq_lib::group_to_multiset_ensures;
    broadcast use vstd::multiset::group_multiset_axioms;

    let g2 = groups.update(k, groups[k].push(f));
    if k == groups.len() - 1 {
        assert(g2.drop_last() =~= groups.drop_last());
        assert(grouped_files(g2) =~= (grouped_files(groups.drop_last()) + groups.last()).push(f));
    } else {
        assert(g2.drop_last() =~= groups.drop_last().update(k, groups[k].push(f)));
        lemma_grouped_files_update(groups.drop_last(), k, f);
        let a = grouped_files(groups.drop_last());
        let a2 = grouped_files(g2.drop_last());
        vstd::seq_lib::lemma_multiset_commutative(a2, groups.last());
        vstd::seq_lib::lemma_multiset_commutative(a, groups.last());
        assert(grouped_files(g2).to_multiset() =~= grouped_files(groups).to_multiset().insert(f));
    }
}

proof fn lemma_first_fit_from(sizes: Seq<nat>, size: nat, cap: nat, i: int)
    requires
        0 <= i,
    ensures
        first_fit_from(sizes, size, cap, i) == sizes.len() || (i <= first_fit_from(sizes, size, cap, i) < sizes.len()
            && sizes[first_fit_from(sizes, size, cap, i)] + size <= cap),
    decreases sizes.len() - i,
{
    if i < sizes.len() && sizes[i] + size > cap {
        lemma_first_fit_from(sizes, size, cap, i + 1);
    }
}

proof fn lemma_first_fit_state(files: Seq<SizedFile>, cap: nat)
    ensures
        first_fit_state(files, cap, first_fit(files, cap).0, first_fit(files, cap).1),
    decreases files.len(),
{
    broadcast use vstd::seq_lib::group_to_multiset_ensures;
    broadcast use vstd::multiset::group_multiset_axioms;

    if files.len() == 0 {
        assert(grouped_files(seq![]).to_multiset() =~= files.to_multiset());
    } else {
        let (groups, sizes) = first_fit(files.drop_last(), cap);
        lemma_first_fit_state(files.drop_last(), cap);
        let f = files.last();
        let k = first_fit_from(sizes, f.size as nat, cap, 0);
        lemma_first_fit_from(sizes, f.size as nat, cap, 0);
        assert(files =~= files.drop_last().push(f));
        let (g2, z2) = first_fit(files, cap);
        if 0 <= k < sizes.len() {
            lemma_grouped_files_update(groups, k, f);
            assert(groups[k].push(f).drop_last() =~= groups[k]);
            assert forall|j: int| 0 <= j < g2.len() implies z2[j] == total_size(#[trigger] g2[j]) by {
                if j == k {
                    assert(g2[j] == groups[k].push(f));
                }
            }
            assert forall|j: int| 0 <= j < g2.len() && #[trigger] g2[j].len() >= 2 implies z2[j] <= cap by {
                if j != k {
                    assert(g2[j] == groups[j]);
                }
            }
            assert forall|j: int| 0 <= j < g2.len() implies #[trigger] g2[j].len() >= 1 by {
                if j != k {
                    assert(g2[j] == groups[j]);
                }
            }
            assert(grouped_files(g2).to_multiset() == files.to_multiset());
        } else {
            assert(g2.drop_last() =~= groups);
            assert(seq![f].drop_last() =~= Seq::<SizedFile>::empty());
            assert(total_size(seq![f].drop_last()) == 0);
            assert(total_size(seq![f]) == f.size);
            assert(grouped_files(g2) =~= grouped_files(groups) + seq![f]);
            assert(grouped_files(g2) =~= grouped_files(groups).push(f));
            assert forall|j: int| 0 <= j < g2.len() implies z2[j] == total_size(#[trigger] g2[j]) by {
                if j < groups.len() {
                    assert(g2[j] == groups[j]);
                }
            }
            assert forall|j: int| 0 <= j < g2.len() && #[trigger] g2[j].len() >= 2 implies z2[j] <= cap by {
                if j < groups.len() {
                    assert(g2[j] == groups[j]);
                }
            }
            assert forall|j: int| 0 <= j < g2.len() implies #[trigger] g2[j].len() >= 1 by {
                if j < groups.len() {
                    assert(g2[j] == groups[j]);
                }
            }
            assert(grouped_files(g2).to_multiset() == files.to_multiset());
        }
    }
}

/// Every file goes into exactly one part, and a part of two files or more
/// stays within the cap.
pub proof fn split_groups_partition(files: Seq<SizedFile>, cap: nat)
    ensures
        grouped_files(split_groups(files, cap)).to_multiset() == files.to_multiset(),
        forall|k: int|
            0 <= k < split_groups(files, cap).len() && #[trigger] split_groups(files, cap)[k].len() >= 2
                ==> total_size(split_groups(files, cap)[k]) <= cap,
        forall|k: int| 0 <= k < split_groups(files, cap).len() ==> #[trigger] split_groups(files, cap)[k].len() >= 1,
{
    let sorted = sorted_by_size(files);
    lemma_sorted_by_size_multiset(files);
    lemma_first_fit_state(sorted, cap);
}

/// The stable sort by size, largest first.
fn sort_by_size(files: Vec<SizedFile>) -> (r: Vec<SizedFile>)
    ensures
        r@ == sorted_by_size(files@),
{
    let ghost all = files@;
    let mut sorted: Vec<SizedFile> = Vec::new();
    for f in it: files
        invariant
            it.seq() == all,
            sorted@ == sorted_by_size(all.take(it.index() as int)),
    {
        let ghost idx = it.index() as int;
        assert(all.take(idx + 1).drop_last() =~= all.take(idx));
        assert(all.take(idx + 1).last() == f);
        let mut pos: usize = 0;
        while pos < sorted.len() && sorted[pos].size >= f.size
            invariant
                pos <= sorted.len(),
                size_insert_pos(sorted@, f.size, 0) == size_insert_pos(sorted@, f.size, pos as int),
            decreases sorted.len() - pos,
        {
            pos += 1;
        }
        sorted.insert(pos, f);
    }
    assert(all.take(all.len() as int) =~= all);
    sorted
}

/// Splits files into parts: largest first, each into the first part that
/// stays within `cap` with it, else into a new part.
pub fn split_into_groups(files: Vec<SizedFile>, cap: u64) -> (r: Vec<Vec<SizedFile>>)
    requires
        total_size(files@) <= u64::MAX,
    ensures
        r.len() == split_groups(files@, cap as nat).len(),
        forall|k: int| 0 <= k < r.len() ==> #[trigger] r[k]@ == split_groups(files@, cap as nat)[k],
{
    let ghost input = files@;
    let sorted = sort_by_size(files);
    proof {
        lemma_sorted_by_size_multiset(input);
        lemma_total_size_multiset(sorted@, input);
    }
    let ghost all = sorted@;
    let mut groups: Vec<Vec<SizedFile>> = Vec::new();
    let mut sizes: Vec<u64> = Vec::new();
    assert(all.take(0) =~= Seq::<SizedFile>::empty());
    assert(all.skip(0) =~= all);
    for f in it: sorted
        invariant
            it.seq() == all,
            total_size(all) <= u64::MAX,
            groups.len() == sizes.len(),
            first_fit(all.take(it.index() as int), cap as nat).0.len() == groups.len(),
            forall|k: int| 0 <= k < groups.len() ==> #[trigger] groups[k]@ == first_fit(all.take(it.index() as int), cap as nat).0[k],
            forall|k: int| 0 <= k < sizes.len() ==> #[trigger] sizes[k] as nat == first_fit(all.take(it.index() as int), cap as nat).1[k],
            total_size(all.take(it.index() as int)) + total_size(all.skip(it.index() as int)) == total_size(all),
    {
        let ghost idx = it.index() as int;
        let ghost prefix = all.take(idx);
        let ghost (g0, z0) = first_fit(prefix, cap as nat);
        proof {
            assert(all.take(idx + 1).drop_last() =~= prefix);
            assert(all.take(idx + 1).last() == f);
            lemma_first_fit_state(prefix, cap as nat);
            assert(all.skip(idx) =~= seq![f] + all.skip(idx + 1));
            lemma_total_size_append(seq![f], all.skip(idx + 1));
            lemma_total_size_append(prefix, seq![f]);
            assert(all.take(idx + 1) =~= prefix + seq![f]);
            assert(total_size(seq![f]) == f.size) by {
                assert(seq![f].drop_last() =~= Seq::<SizedFile>::empty());
            }
            lemma_sizes_bounded(prefix, cap as nat);
        }
        let mut k: usize = 0;
        while k < sizes.len() && !(sizes[k] + f.size <= cap)
            invariant
                k <= sizes.len(),
                sizes.len() == z0.len(),
                forall|j: int| 0 <= j < sizes.len() ==> #[trigger] sizes[j] as nat == z0[j],
                forall|j: int| 0 <= j < z0.len() ==> #[trigger] z0[j] <= total_size(prefix),
                total_size(prefix) + f.size <= u64::MAX,
                first_fit_from(z0, f.size as nat, cap as nat, 0) == first_fit_from(z0, f.size as nat, cap as nat, k as int),
            decreases sizes.len() - k,
        {
            k += 1;
        }
        let fsize = f.size;
        if k < sizes.len() {
            let mut g = groups.remove(k);
            g.push(f);
            groups.insert(k, g);
            let z = sizes[k] + fsize;
            sizes.set(k, z);
        } else {
            groups.push(vec![f]);
            sizes.push(fsize);
        }
    }
    assert(all.take(all.len() as int) =~= all);
    groups
}

proof fn lemma_sizes_bounded(files: Seq<SizedFile>, cap: nat)
    ensures
        forall|j: int| 0 <= j < first_fit(files, cap).1.len() ==> #[trigger] first_fit(files, cap).1[j] <= total_size(files),
{
    lemma_first_fit_state(files, cap);
    let (groups, sizes) = first_fit(files, cap);
    assert forall|j: int| 0 <= j < sizes.len() implies #[trigger] sizes[j] <= total_size(files) by {
        lemma_group_total_le(groups, j);
        lemma_total_size_multiset(grouped_files(groups), files);
    }
}

proof fn lemma_group_total_le(groups: Seq<Seq<SizedFile>>, j: int)
    requires
        0 <= j < groups.len(),
    ensures
        total_size(groups[j]) <= total_size(grouped_files(groups)),
    decreases groups.len(),
{
    lemma_total_size_append(grouped_files(groups.drop_last()), groups.last());
    if j < groups.len() - 1 {
        lemma_group_total_le(groups.drop_last(), j);
    }
}

} // verus!
