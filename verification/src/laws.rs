//! Properties that span several operations of the library.
use vstd::prelude::*;
use crate::commands::{first_task_tag, is_schedule_tag, listing_tags, snapshot_task};
use crate::config::{same_task, schedule_tag, Config, RetentionConfig, TaskConfig};
use crate::rustic::{as_float_value, fixed_point, float_round_from, has_all_tags, round_half_even, size_text,
    size_unit_divisor, size_unit_index, size_unit_name, tier_label, two_pow, Rustic, Snapshot};
use crate::config::{resolved, spec_path_is_absolute};
use crate::download::{rustic_candidate, setup_outcome, RusticSetup};
use crate::scheduler::{chunk_plan_for, runs_on, send_plan_for, LocalDate, SendPlan};
use crate::config::ScheduleType;
use crate::task::switched;
use crate::timing::{changed_after, changed_files, StampedFile};
use crate::zip_util::{regex_excluded, regex_kept, FileEntry};
use crate::setup::{schedule_choice_index_of, schedule_of_choice, schedule_options, toggled};
use crate::text::{decimal, decimal2, string_views};

verus! {

/// Switching a task off and back on (or on and back off) leaves the
/// configuration as it was: every task has all its settings again, and the
/// rest of the configuration is unchanged.
pub proof fn switch_back_restores(c0: Config, c1: Config, c2: Config, idx: int)
    requires
        1 <= idx <= c0.tasks.len(),
        switched(c0, c1, idx, !c0.tasks[idx - 1].enabled),
        switched(c1, c2, idx, c0.tasks[idx - 1].enabled),
    ensures
        c2.tasks.len() == c0.tasks.len(),
        forall|j: int| 0 <= j < c0.tasks.len() ==> same_task(#[trigger] c2.tasks[j], c0.tasks[j]),
        c2.repo == c0.repo,
        c2.notify == c0.notify,
        c2.retention == c0.retention,
        c2.rustic_path == c0.rustic_path,
        c2.log_dir == c0.log_dir,
{
    assert forall|j: int| 0 <= j < c0.tasks.len() implies same_task(#[trigger] c2.tasks[j], c0.tasks[j]) by {
        if j != idx - 1 {
            assert(same_task(c2.tasks[j], c1.tasks[j]));
            assert(same_task(c1.tasks[j], c0.tasks[j]));
        }
    }
}

/// A snapshot that carries the tags a backup of task `idx` (1-based) is
/// given on its command line is among those the listing for that task shows.
pub proof fn task_listing_finds_its_backups(config: Config, idx: usize, r: Rustic, extra: Seq<Seq<char>>, s: Snapshot)
    requires
        1 <= idx <= config.tasks.len(),
        ({
            let line = r.backup_line(config.tasks[idx - 1], extra);
            let tags = string_views(s.tags@);
            &&& tags.contains(line[r.base().len() + 3int])
            &&& tags.contains(line[r.base().len() + 5int])
        }),
    ensures
        has_all_tags(s, listing_tags(config, Some(idx), None)),
{
    let t = config.tasks[idx - 1];
    let line = r.backup_line(t, extra);
    assert(line[r.base().len() + 2int] == "--tag"@);
    assert(line[r.base().len() + 3int] == schedule_tag(t.schedule));
    assert(line[r.base().len() + 5int] == t.name@);
    let wanted = listing_tags(config, Some(idx), None);
    assert(wanted =~= seq![schedule_tag(t.schedule), t.name@]);
}

/// A prune ends its rustic command line with `--prune` only when it is
/// confirmed and not asked for as a preview; otherwise with `--dry-run`.
pub proof fn prune_previews_unless_confirmed(r: Rustic, retention: RetentionConfig, tag: Option<Seq<char>>, dry_run: bool, yes: bool)
    ensures
        r.forget_line(retention, tag, !(yes && !dry_run)).last()
            == if yes && !dry_run { "--prune"@ } else { "--dry-run"@ },
{
}

/// Files are never sent when notifications are off, nor on the first run of
/// a task that skips it unless sending is forced.
pub proof fn skipped_runs_send_nothing(notify_enabled: bool, force_notify: bool, is_first_run: bool, task: TaskConfig, nothing_to_send: bool)
    ensures
        !notify_enabled ==> send_plan_for(notify_enabled, force_notify, is_first_run, task.notify.skip_first_run, nothing_to_send) != SendPlan::Pack,
        is_first_run && task.notify.skip_first_run && !force_notify
            ==> send_plan_for(notify_enabled, force_notify, is_first_run, task.notify.skip_first_run, nothing_to_send) != SendPlan::Pack,
{
}

/// The chunks of a split archive cover it exactly: all of them together are
/// at least as large as the file, and all but one are smaller than it.
pub proof fn chunks_cover_file(max_size: nat, file_size: nat)
    requires
        max_size > 1048576,
        file_size > 0,
    ensures
        ({
            let (chunk, total) = chunk_plan_for(max_size, file_size);
            &&& total >= 1
            &&& (total - 1) * chunk < file_size
            &&& file_size <= total * chunk
        }),
{
    let chunk = (max_size - 1048576) as nat;
    let n = (file_size + chunk - 1) as nat;
    let total = n / chunk;
    assert(chunk_plan_for(max_size, file_size) == (chunk, total));
    assert(total >= 1 && (total - 1) * chunk < file_size && file_size <= total * chunk) by (nonlinear_arith)
        requires
            chunk > 0,
            file_size > 0,
            n == file_size + chunk - 1,
            total == n / chunk,
    {
        assert(n == chunk * (n / chunk) + n % chunk);
        assert(0 <= n % chunk < chunk);
    }
}

/// A size under one kilobyte is shown in bytes with two zero decimals, such
/// as `512.00 B`.
pub proof fn small_sizes_in_bytes(bytes: nat)
    requires
        bytes < 1024,
    ensures
        size_text(bytes, 2) == decimal(bytes) + seq!['.', '0', '0', ' ', 'B'],
{
    assert(float_round_from(bytes, 0, 1) == round_half_even(bytes, 1) * 1);
    assert(round_half_even(bytes, 1) == bytes) by (nonlinear_arith)
        requires bytes / 1 == bytes, bytes % 1 == 0;
    assert(as_float_value(bytes) == bytes);
    assert(round_half_even(bytes * 100, 1) == bytes * 100) by (nonlinear_arith)
        requires (bytes * 100) / 1 == bytes * 100, (bytes * 100) % 1 == 0;
    assert((bytes * 100) / 100 == bytes && (bytes * 100) % 100 == 0) by (nonlinear_arith);
    assert(decimal2(0) == seq!['0', '0']);
    assert(fixed_point(bytes * 100, 2) == decimal(bytes) + seq!['.'] + seq!['0', '0']);
    assert(size_text(bytes, 2) =~= decimal(bytes) + seq!['.', '0', '0', ' ', 'B']);
}

/// Switching a task the other way twice in the wizard gives back the task
/// list as it was.
pub proof fn toggle_twice_restores(a: Seq<TaskConfig>, b: Seq<TaskConfig>, c: Seq<TaskConfig>, idx: int)
    requires
        0 <= idx < a.len(),
        toggled(a, b, idx),
        toggled(b, c, idx),
    ensures
        c.len() == a.len(),
        forall|j: int| 0 <= j < a.len() ==> same_task(#[trigger] c[j], a[j]),
{
    assert forall|j: int| 0 <= j < a.len() implies same_task(#[trigger] c[j], a[j]) by {
        if j != idx {
            assert(c[j] == b[j]);
            assert(b[j] == a[j]);
        }
    }
}

/// In incremental mode exactly the files changed after the reference
/// instant are sent: every file sent changed after it, and every file that
/// changed after it is sent.
pub proof fn incremental_sends_exactly_changed(files: Seq<StampedFile>, reference: (i64, u32))
    ensures
        forall|e: FileEntry| changed_files(files, reference).contains(e) <==>
            (exists|i: int| 0 <= i < files.len() && #[trigger] files[i].entry == e && changed_after(files[i], reference)),
    decreases files.len(),
{
    if files.len() > 0 {
        let init = files.drop_last();
        incremental_sends_exactly_changed(init, reference);
        assert forall|e: FileEntry| changed_files(files, reference).contains(e) <==>
            (exists|i: int| 0 <= i < files.len() && #[trigger] files[i].entry == e && changed_after(files[i], reference)) by {
            if changed_files(files, reference).contains(e) {
                if changed_files(init, reference).contains(e) {
                    let i = choose|i: int| 0 <= i < init.len() && #[trigger] init[i].entry == e && changed_after(init[i], reference);
                    assert(files[i] == init[i]);
                } else {
                    assert(files[files.len() - 1].entry == e);
                }
            }
            if exists|i: int| 0 <= i < files.len() && #[trigger] files[i].entry == e && changed_after(files[i], reference) {
                let i = choose|i: int| 0 <= i < files.len() && #[trigger] files[i].entry == e && changed_after(files[i], reference);
                if i < files.len() - 1 {
                    assert(init[i] == files[i]);
                    assert(init[i].entry == e && changed_after(init[i], reference));
                    assert(changed_files(init, reference).contains(e));
                    let k = choose|k: int| 0 <= k < changed_files(init, reference).len() && changed_files(init, reference)[k] == e;
                    assert(changed_files(files, reference)[k] == e);
                } else {
                    let c = changed_files(files, reference);
                    assert(c[c.len() - 1] == e);
                }
            }
        }
    }
}

/// No file that one of the regular expressions matches, by name or by path,
/// is kept; every other file is.
pub proof fn regex_filter_keeps_exactly_unmatched(files: Seq<FileEntry>, patterns: Seq<Seq<char>>)
    ensures
        forall|f: FileEntry| regex_kept(files, patterns).contains(f) <==> (files.contains(f) && !regex_excluded(f, patterns)),
    decreases files.len(),
{
    if files.len() > 0 {
        let init = files.drop_last();
        regex_filter_keeps_exactly_unmatched(init, patterns);
        let kept = regex_kept(files, patterns);
        let kept0 = regex_kept(init, patterns);
        let last = files[files.len() - 1];
        if !regex_excluded(last, patterns) {
            assert(kept == kept0.push(last));
        } else {
            assert(kept == kept0);
        }
        assert forall|f: FileEntry| kept.contains(f) <==> (files.contains(f) && !regex_excluded(f, patterns)) by {
            if kept.contains(f) {
                if kept0.contains(f) {
                    assert(init.contains(f) && !regex_excluded(f, patterns));
                    let i = choose|i: int| 0 <= i < init.len() && init[i] == f;
                    assert(files[i] == f);
                } else {
                    let k = choose|k: int| 0 <= k < kept.len() && kept[k] == f;
                    if k < kept0.len() {
                        assert(kept0[k] == f);
                    }
                    assert(f == last);
                    assert(files[files.len() - 1] == f);
                }
            }
            if files.contains(f) && !regex_excluded(f, patterns) {
                let i = choose|i: int| 0 <= i < files.len() && files[i] == f;
                if i < files.len() - 1 {
                    assert(init[i] == f);
                    assert(init.contains(f));
                    assert(kept0.contains(f));
                    let k = choose|k: int| 0 <= k < kept0.len() && kept0[k] == f;
                    assert(kept[k] == f);
                } else {
                    assert(kept[kept.len() - 1] == f);
                }
            }
        }
    }
}

/// Resolving a path that resolution has made absolute changes it no more.
pub proof fn resolving_twice_changes_nothing(p: Seq<char>, base: Seq<char>)
    requires
        spec_path_is_absolute(resolved(p, base)),
    ensures
        resolved(resolved(p, base), base) == resolved(p, base),
{
}

/// The unit a byte count is shown in.
pub open spec fn size_unit(bytes: nat) -> Seq<char> {
    size_unit_name(size_unit_index(as_float_value(bytes)))
}

proof fn lemma_float_value_large(b: nat, s: nat, d: nat)
    requires
        b >= 9007199254740992,
        s <= 11,
        d == two_pow(s),
        2 * b >= 9007199254740992 * d,
    ensures
        float_round_from(b, s, d) >= 1099511627776,
    decreases 11 - s,
{
    lemma_two_pow_bounds(s);
    if s >= 11 || b < 9007199254740992 * d {
        let q = b / d;
        assert(round_half_even(b, d) >= q);
        assert(q * d > b - d && d >= 1 && d <= 2048) by (nonlinear_arith)
            requires
                d >= 1,
                d <= 2048,
                q == b / d,
        {
            assert(b == d * (b / d) + b % d);
        }
        assert(round_half_even(b, d) * d >= q * d) by (nonlinear_arith)
            requires
                round_half_even(b, d) >= q,
        ;
    } else {
        assert(two_pow(s + 1) == 2 * two_pow(s));
        lemma_float_value_large(b, s + 1, 2 * d);
    }
}

proof fn lemma_two_pow_bounds(s: nat)
    requires
        s <= 11,
    ensures
        1 <= two_pow(s) <= 2048,
{
    lemma_two_pow_positive(s);
    lemma_two_pow_at_most(s);
}

proof fn lemma_two_pow_positive(s: nat)
    ensures
        1 <= two_pow(s),
    decreases s,
{
    if s > 0 {
        lemma_two_pow_positive((s - 1) as nat);
    }
}

proof fn lemma_two_pow_at_most(s: nat)
    requires
        s <= 11,
    ensures
        two_pow(s) <= 2048,
    decreases 11 - s,
{
    if s == 11 {
        reveal_with_fuel(two_pow, 12);
    } else {
        lemma_two_pow_at_most(s + 1);
        assert(two_pow(s + 1) == 2 * two_pow(s));
    }
}

proof fn lemma_float_value_small(b: nat)
    requires
        b < 9007199254740992,
    ensures
        as_float_value(b) == b,
{
    assert(float_round_from(b, 0, 1) == round_half_even(b, 1) * 1);
    assert(round_half_even(b, 1) == b) by (nonlinear_arith)
        requires b / 1 == b, b % 1 == 0;
}

/// A size is shown in bytes exactly when it is under 1024; a size of 1 TiB
/// or more is always shown in TB, the largest unit.
pub proof fn size_units(bytes: nat)
    ensures
        size_text(bytes, 2) == fixed_point(round_half_even(as_float_value(bytes) * 100,
            size_unit_divisor(size_unit_index(as_float_value(bytes)))), 2) + seq![' '] + size_unit(bytes),
        size_unit(bytes) == seq!['B'] <==> bytes < 1024,
        bytes >= 1099511627776 ==> size_unit(bytes) == seq!['T', 'B'],
{
    if bytes < 9007199254740992 {
        lemma_float_value_small(bytes);
    } else {
        assert(two_pow(0) == 1);
        lemma_float_value_large(bytes, 0, 1);
    }
    let k = size_unit_index(as_float_value(bytes));
    if k != 0 {
        assert(size_unit_name(k).len() == 2);
    }
}

/// Where the rustic executable the program would use exists, it is used as
/// it is: nothing is downloaded.
pub proof fn existing_rustic_is_used(configured: Option<Seq<char>>, exe_dir: Seq<char>, r: RusticSetup)
    requires
        setup_outcome(configured, exe_dir, true, r),
    ensures
        r matches RusticSetup::Ready(p) && p@ == rustic_candidate(configured, exe_dir),
{
}

/// A task that is switched off never runs; an enabled task runs every day
/// when daily, on its weekday (Saturday when none is set) when weekly, on its
/// day of the month (the 1st when none is set) when monthly, and only on
/// January 1st when yearly.
pub proof fn schedules_pick_their_days(task: TaskConfig, date: LocalDate)
    ensures
        !task.enabled ==> !runs_on(task, date),
        task.enabled && task.schedule == ScheduleType::Daily ==> runs_on(task, date),
        task.enabled && task.schedule == ScheduleType::Weekly
            ==> (runs_on(task, date) <==> date.weekday == task.weekday.unwrap_or(6)),
        task.enabled && task.schedule == ScheduleType::Monthly
            ==> (runs_on(task, date) <==> date.day == task.monthday.unwrap_or(1)),
        task.enabled && task.schedule == ScheduleType::Yearly
            ==> (runs_on(task, date) <==> date.month == 1 && date.day == 1),
        task.enabled && task.schedule == ScheduleType::Yearly && date.day != 1 ==> !runs_on(task, date),
{
}

/// With notifications on and files to send, a task's files are packed and
/// sent unless it is the first run of a task that skips it and sending is
/// not forced; a task that does not skip its first run is sent on it too.
/// With notifications off nothing is sent, and only the skipped first run is
/// recorded as skipped.
pub proof fn files_are_sent_unless_skipped(notify_enabled: bool, force_notify: bool, is_first_run: bool, skip_first_run: bool, nothing_to_send: bool)
    ensures
        ({
            let p = send_plan_for(notify_enabled, force_notify, is_first_run, skip_first_run, nothing_to_send);
            &&& notify_enabled && !nothing_to_send
                ==> (p == SendPlan::Pack <==> !(is_first_run && skip_first_run && !force_notify))
            &&& notify_enabled && !nothing_to_send && !skip_first_run ==> p == SendPlan::Pack
            &&& !notify_enabled ==> p == SendPlan::NotifyDisabled
            &&& p == SendPlan::FirstRunSkipped <==> (notify_enabled && is_first_run && skip_first_run && !force_notify)
            &&& p == SendPlan::NoChanges
                <==> (notify_enabled && nothing_to_send && !(is_first_run && skip_first_run && !force_notify))
        }),
{
}

proof fn lemma_first_task_tag(tags: Seq<Seq<char>>, i: int)
    requires
        0 <= i <= tags.len(),
    ensures
        i <= first_task_tag(tags, i) <= tags.len(),
        first_task_tag(tags, i) < tags.len() ==> !is_schedule_tag(tags[first_task_tag(tags, i)]),
        forall|j: int| i <= j < first_task_tag(tags, i) ==> is_schedule_tag(#[trigger] tags[j]),
    decreases tags.len() - i,
{
    if i < tags.len() && is_schedule_tag(tags[i]) {
        lemma_first_task_tag(tags, i + 1);
    }
}

/// The task a snapshot is shown under is never one of the schedule tags
/// `daily`, `weekly`, `monthly` and `yearly`: it is the first of its tags
/// outside those four, or `-` when it has none.
pub proof fn snapshot_task_is_no_schedule(tags: Seq<Seq<char>>)
    ensures
        ({
            let r = snapshot_task(tags);
            r != "daily"@ && r != "weekly"@ && r != "monthly"@ && r != "yearly"@
        }),
        (forall|j: int| 0 <= j < tags.len() ==> {
            let t = #[trigger] tags[j];
            t == "daily"@ || t == "weekly"@ || t == "monthly"@ || t == "yearly"@
        }) ==> snapshot_task(tags) == "-"@,
        forall|k: int| 0 <= k < tags.len()
            && !(tags[k] == "daily"@ || tags[k] == "weekly"@ || tags[k] == "monthly"@ || tags[k] == "yearly"@)
            && (forall|j: int| 0 <= j < k ==> {
                let t = #[trigger] tags[j];
                t == "daily"@ || t == "weekly"@ || t == "monthly"@ || t == "yearly"@
            }) ==> snapshot_task(tags) == #[trigger] tags[k],
{
    reveal_strlit("-");
    reveal_strlit("daily");
    reveal_strlit("weekly");
    reveal_strlit("monthly");
    reveal_strlit("yearly");
    lemma_first_task_tag(tags, 0);
    let f = first_task_tag(tags, 0);
    if f < tags.len() {
        assert(!is_schedule_tag(tags[f]));
    } else {
        assert("-"@.len() == 1);
    }
    assert forall|k: int| 0 <= k < tags.len()
        && !(tags[k] == "daily"@ || tags[k] == "weekly"@ || tags[k] == "monthly"@ || tags[k] == "yearly"@)
        && (forall|j: int| 0 <= j < k ==> {
            let t = #[trigger] tags[j];
            t == "daily"@ || t == "weekly"@ || t == "monthly"@ || t == "yearly"@
        }) implies snapshot_task(tags) == #[trigger] tags[k] by {
        if f < k {
            assert(is_schedule_tag(tags[f]));
        } else if k < f {
            assert(is_schedule_tag(tags[k]));
        }
    }
}

/// In a forget command line, after `--repo <path>` and `forget`, each
/// `--keep-X` flag is followed by the decimal of the X count of the
/// retention: daily, weekly, monthly and yearly, in that order; a task's tag,
/// when there is one, follows them as `--tag <tag>`.
pub proof fn forget_keeps_each_count(r: Rustic, retention: RetentionConfig, tag: Option<Seq<char>>, dry_run: bool)
    ensures
        ({
            let line = r.forget_line(retention, tag, dry_run);
            let b = r.base().len();
            &&& line.len() == b + 9 + (if tag is Some { 2int } else { 0int }) + 1
            &&& line.take(b as int) == r.base()
            &&& line[b + 0int] == "forget"@
            &&& line[b + 1int] == "--keep-daily"@ && line[b + 2int] == decimal(retention.daily as nat)
            &&& line[b + 3int] == "--keep-weekly"@ && line[b + 4int] == decimal(retention.weekly as nat)
            &&& line[b + 5int] == "--keep-monthly"@ && line[b + 6int] == decimal(retention.monthly as nat)
            &&& line[b + 7int] == "--keep-yearly"@ && line[b + 8int] == decimal(retention.yearly as nat)
            &&& tag matches Some(t) ==> line[b + 9int] == "--tag"@ && line[b + 10int] == t
        }),
{
    let line = r.forget_line(retention, tag, dry_run);
    assert(line.take(r.base().len() as int) =~= r.base());
}

/// The schedule list of the wizard starts on the option that stands for the
/// current schedule, so that accepting it keeps the schedule; with no current
/// schedule it starts on daily.
pub proof fn schedule_list_starts_at_current()
    ensures
        forall|s: ScheduleType| #![trigger schedule_choice_index_of(Some(s))]
            schedule_choice_index_of(Some(s)) < schedule_options().len()
            && schedule_of_choice(schedule_options()[schedule_choice_index_of(Some(s)) as int]) == s,
        schedule_of_choice(schedule_options()[schedule_choice_index_of(None) as int]) == ScheduleType::Daily,
{
    reveal_strlit("daily");
    reveal_strlit("weekly");
    reveal_strlit("monthly");
    reveal_strlit("daily（每天）");
    reveal_strlit("weekly（每周）");
    reveal_strlit("monthly（每月）");
    reveal_strlit("yearly（每年）");
    let o = schedule_options();
    assert(o[0].take(5) =~= "daily"@);
    assert(o[1].take(6) =~= "weekly"@);
    assert(o[2].take(7) =~= "monthly"@);
    assert(o[1].take(5) != "daily"@) by { assert(o[1].take(5)[0] != "daily"@[0]); }
    assert(o[2].take(5) != "daily"@) by { assert(o[2].take(5)[0] != "daily"@[0]); }
    assert(o[2].take(6) != "weekly"@) by { assert(o[2].take(6)[0] != "weekly"@[0]); }
    assert(o[3].take(5) != "daily"@) by { assert(o[3].take(5)[0] != "daily"@[0]); }
    assert(o[3].take(6) != "weekly"@) by { assert(o[3].take(6)[0] != "weekly"@[0]); }
    assert(o[3].take(7) != "monthly"@) by { assert(o[3].take(7)[0] != "monthly"@[0]); }
}

/// A snapshot that carries just the two tags a backup of a task gives it,
/// in either order, is listed under the task's name and in the retention
/// tier of the task's schedule (每日, 每周, 每月 or 每年), where the name is
/// no schedule word itself.
pub proof fn backups_are_listed_under_their_task(r: Rustic, task: TaskConfig, extra: Seq<Seq<char>>, tags: Seq<Seq<char>>)
    requires
        ({
            let line = r.backup_line(task, extra);
            let b = r.base().len();
            tags == seq![line[b + 3int], line[b + 5int]] || tags == seq![line[b + 5int], line[b + 3int]]
        }),
        !(task.name@ == "daily"@ || task.name@ == "weekly"@ || task.name@ == "monthly"@ || task.name@ == "yearly"@),
    ensures
        tier_label(tags) == match task.schedule {
            ScheduleType::Daily => "每日"@,
            ScheduleType::Weekly => "每周"@,
            ScheduleType::Monthly => "每月"@,
            ScheduleType::Yearly => "每年"@,
        },
        snapshot_task(tags) == task.name@,
{
    reveal_strlit("daily");
    reveal_strlit("weekly");
    reveal_strlit("monthly");
    reveal_strlit("yearly");
    let line = r.backup_line(task, extra);
    let b = r.base().len();
    assert(line[b + 3int] == schedule_tag(task.schedule));
    assert(line[b + 5int] == task.name@);
    let rest = tags.drop_first();
    let sched = schedule_tag(task.schedule);
    let label = match task.schedule {
        ScheduleType::Daily => "每日"@,
        ScheduleType::Weekly => "每周"@,
        ScheduleType::Monthly => "每月"@,
        ScheduleType::Yearly => "每年"@,
    };
    let one = seq![sched];
    assert(one.len() == 1 && one[0] == sched);
    assert("yearly"@ != "weekly"@) by { assert("yearly"@[0] != "weekly"@[0]); }
    assert("daily"@.len() == 5 && "weekly"@.len() == 6 && "monthly"@.len() == 7 && "yearly"@.len() == 6);
    assert(tier_label(one) == label);
    if tags[0] != sched {
        assert(tags[0] == task.name@);
        assert(rest =~= one);
        assert(tier_label(tags) == tier_label(rest));
    } else {
        assert(tier_label(tags) == label);
    }
    snapshot_task_is_no_schedule(tags);
    if tags[0] != task.name@ {
        assert(tags[0] == schedule_tag(task.schedule));
    }
}

/// The tag a schedule gives its snapshots, read as a choice of the wizard's
/// schedule list, is that schedule again.
pub proof fn schedule_tag_reads_back(s: ScheduleType)
    ensures
        schedule_of_choice(schedule_tag(s)) == s,
{
    reveal_strlit("daily");
    reveal_strlit("weekly");
    reveal_strlit("monthly");
    reveal_strlit("yearly");
    assert("daily"@.take(5) =~= "daily"@);
    assert("weekly"@.take(6) =~= "weekly"@);
    assert("monthly"@.take(7) =~= "monthly"@);
    assert("weekly"@.take(5) != "daily"@) by { assert("weekly"@.take(5)[0] != "daily"@[0]); }
    assert("monthly"@.take(5) != "daily"@) by { assert("monthly"@.take(5)[0] != "daily"@[0]); }
    assert("monthly"@.take(6) != "weekly"@) by { assert("monthly"@.take(6)[0] != "weekly"@[0]); }
    assert("yearly"@.take(5) != "daily"@) by { assert("yearly"@.take(5)[0] != "daily"@[0]); }
    assert("yearly"@.take(6) != "weekly"@) by { assert("yearly"@.take(6)[0] != "weekly"@[0]); }
}

} // verus!
