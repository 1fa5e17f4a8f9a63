//! Listing, enabling and disabling the tasks of a configuration.
use vstd::prelude::*;
use crate::config::{Config, ScheduleType, TaskConfig, same_task};
use crate::text::{clone_strings, decimal, push_str, u64_to_string};

verus! {

broadcast use vstd::string::group_string_axioms;

pub struct TaskManager;

/// What a task listing shows of one task.
pub struct TaskInfo {
    pub index: usize,
    pub name: String,
    pub source: String,
    pub schedule: String,
    pub time: String,
    pub enabled: bool,
    pub includes: Vec<String>,
    pub exclude: Vec<String>,
    pub zip_root_files: bool,
    pub skip_first_run: bool,
    pub incremental: bool,
}

#[derive(Clone, Copy, Debug, PartialEq, Eq, Structural)]
pub enum TaskError {
    /// There is no task with this 1-based number.
    NoSuchTask(usize),
}

/// The name of a schedule as `Debug` prints it.
pub open spec fn schedule_name(s: ScheduleType) -> Seq<char> {
    match s {
        ScheduleType::Daily => "Daily"@,
        ScheduleType::Weekly => "Weekly"@,
        ScheduleType::Monthly => "Monthly"@,
        ScheduleType::Yearly => "Yearly"@,
    }
}

/// Whether `info` shows task `t`, numbered `index`.
pub open spec fn shows_task(info: TaskInfo, t: TaskConfig, index: int) -> bool {
    &&& info.index == index
    &&& info.name == t.name
    &&& info.source == t.source
    &&& info.schedule@ == schedule_name(t.schedule)
    &&& info.time == t.time
    &&& info.enabled == t.enabled
    &&& info.includes@ == t.includes@
    &&& info.exclude@ == t.exclude@
    &&& info.zip_root_files == t.zip_root_files
    &&& info.skip_first_run == t.notify.skip_first_run
    &&& info.incremental == t.notify.incremental
}

/// `new` is `old` with task `idx` (1-based) switched on or off and nothing else changed.
pub open spec fn switched(old: Config, new: Config, idx: int, on: bool) -> bool {
    &&& new.tasks.len() == old.tasks.len()
    &&& new.tasks[idx - 1].enabled == on
    &&& same_task_but_enabled(new.tasks[idx - 1], old.tasks[idx - 1])
    &&& forall|j: int| 0 <= j < old.tasks.len() && j != idx - 1 ==> same_task(#[trigger] new.tasks[j], old.tasks[j])
    &&& new.repo == old.repo
    &&& new.notify == old.notify
    &&& new.retention == old.retention
    &&& new.rustic_path == old.rustic_path
    &&& new.log_dir == old.log_dir
}

pub open spec fn same_task_but_enabled(a: TaskConfig, b: TaskConfig) -> bool {
    &&& a.name == b.name
    &&& a.source == b.source
    &&& a.schedule == b.schedule
    &&& a.time == b.time
    &&& a.weekday == b.weekday
    &&& a.monthday == b.monthday
    &&& a.includes@ == b.includes@
    &&& a.exclude@ == b.exclude@
    &&& a.exclude_regex@ == b.exclude_regex@
    &&& a.zip_root_files == b.zip_root_files
    &&& a.root_file_patterns@ == b.root_file_patterns@
    &&& a.notify == b.notify
}

fn schedule_text(s: ScheduleType) -> (r: String)
    ensures
        r@ == schedule_name(s),
{
    match s {
        ScheduleType::Daily => "Daily".to_string(),
        ScheduleType::Weekly => "Weekly".to_string(),
        ScheduleType::Monthly => "Monthly".to_string(),
        ScheduleType::Yearly => "Yearly".to_string(),
    }
}

impl TaskManager {
    fn set_enabled(config: &mut Config, task_index: usize, on: bool) -> (r: Result<(), TaskError>)
        ensures
            1 <= task_index <= old(config).tasks.len() ==> r is Ok && switched(*old(config), *final(config), task_index as int, on),
            task_index == 0 || task_index > old(config).tasks.len() ==> r == Err::<(), TaskError>(TaskError::NoSuchTask(task_index))
                && *final(config) == *old(config),
    {
        if task_index == 0 || task_index - 1 >= config.tasks.len() {
            return Err(TaskError::NoSuchTask(task_index));
        }
        config.tasks[task_index - 1].enabled = on;
        Ok(())
    }

    /// Enables task `task_index` (1-based) of the configuration.
    pub fn enable(config: &mut Config, task_index: usize) -> (r: Result<(), TaskError>)
        ensures
            1 <= task_index <= old(config).tasks.len() ==> r is Ok && switched(*old(config), *final(config), task_index as int, true),
            task_index == 0 || task_index > old(config).tasks.len() ==> r == Err::<(), TaskError>(TaskError::NoSuchTask(task_index))
                && *final(config) == *old(config),
    {
        Self::set_enabled(config, task_index, true)
    }

    /// Disables task `task_index` (1-based) of the configuration.
    pub fn disable(config: &mut Config, task_index: usize) -> (r: Result<(), TaskError>)
        ensures
            1 <= task_index <= old(config).tasks.len() ==> r is Ok && switched(*old(config), *final(config), task_index as int, false),
            task_index == 0 || task_index > old(config).tasks.len() ==> r == Err::<(), TaskError>(TaskError::NoSuchTask(task_index))
                && *final(config) == *old(config),
    {
        Self::set_enabled(config, task_index, false)
    }

    /// What the task listing shows, task by task, numbered from 1.
    pub fn list(config: &Config) -> (r: Vec<TaskInfo>)
        ensures
            r.len() == config.tasks.len(),
            forall|i: int| 0 <= i < r.len() ==> shows_task(#[trigger] r[i], config.tasks[i], i + 1),
    {
        let mut r: Vec<TaskInfo> = Vec::new();
        for i in 0..config.tasks.len()
            invariant
                r.len() == i,
                forall|j: int| 0 <= j < i ==> shows_task(#[trigger] r[j], config.tasks[j], j + 1),
        {
            let t = &config.tasks[i];
            r.push(TaskInfo {
                index: i + 1,
                name: t.name.clone(),
                source: t.source.clone(),
                schedule: schedule_text(t.schedule),
                time: t.time.clone(),
                enabled: t.enabled,
                includes: clone_strings(&t.includes),
                exclude: clone_strings(&t.exclude),
                zip_root_files: t.zip_root_files,
                skip_first_run: t.notify.skip_first_run,
                incremental: t.notify.incremental,
            });
        }
        r
    }
}

/// After a task is enabled or disabled, the listing shows it so, and shows
/// every other task as before.
pub proof fn switch_shows_in_listing(old: Config, new: Config, idx: int, on: bool, before: Seq<TaskInfo>, after: Seq<TaskInfo>)
    requires
        1 <= idx <= old.tasks.len(),
        switched(old, new, idx, on),
        before.len() == old.tasks.len(),
        after.len() == new.tasks.len(),
        forall|i: int| 0 <= i < before.len() ==> shows_task(#[trigger] before[i], old.tasks[i], i + 1),
        forall|i: int| 0 <= i < after.len() ==> shows_task(#[trigger] after[i], new.tasks[i], i + 1),
    ensures
        after[idx - 1].enabled == on,
        after[idx - 1].index == idx,
        after[idx - 1].name == before[idx - 1].name,
        forall|i: int| 0 <= i < after.len() && i != idx - 1 ==> (#[trigger] after[i]).enabled == before[i].enabled
            && after[i].name == before[i].name,
{
    assert(shows_task(after[idx - 1], new.tasks[idx - 1], idx));
    assert(shows_task(before[idx - 1], old.tasks[idx - 1], idx));
    assert forall|i: int| 0 <= i < after.len() && i != idx - 1 implies (#[trigger] after[i]).enabled == before[i].enabled
        && after[i].name == before[i].name by {
        assert(shows_task(after[i], new.tasks[i], i + 1));
        assert(shows_task(before[i], old.tasks[i], i + 1));
        assert(same_task(new.tasks[i], old.tasks[i]));
    }
}

impl TaskError {
    /// How the error reads on the console.
    pub fn text(&self) -> (s: String)
        ensures
            match *self {
                TaskError::NoSuchTask(i) => s@ == "任务序号不存在: "@ + decimal(i as nat),
            },
    {
        match self {
            TaskError::NoSuchTask(i) => {
                let mut s = "任务序号不存在: ".to_string();
                push_str(&mut s, u64_to_string(*i as u64).as_str());
                s
            },
        }
    }
}

} // verus!
