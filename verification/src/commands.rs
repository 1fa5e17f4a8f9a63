//! The decisions behind the command line: which snapshots a listing shows
//! and how, and when a prune really runs.
use vstd::prelude::*;
use crate::config::{Config, RetentionConfig, schedule_tag};
use crate::rustic::{format_size, retention_tier, size_text, tier_label, Snapshot};
use crate::text::{chars_of, decimal, equals_str, less_than, push_str, string_from, string_views,
    text_less, u64_to_string, byte_len_at_least, byte_prefix, cuttable_at, take_bytes, utf8_len};

verus! {

broadcast use vstd::string::group_string_axioms;

/// The tags a listing filters by: the given tag, then the schedule tag and
/// name of the chosen task (1-based) when there is such a task.
pub open spec fn listing_tags(config: Config, task_idx: Option<usize>, tag: Option<Seq<char>>) -> Seq<Seq<char>> {
    (match tag {
        Some(t) => seq![t],
        None => Seq::empty(),
    }) + match task_idx {
        Some(i) => if 1 <= i <= config.tasks.len() {
            seq![schedule_tag(config.tasks[i - 1].schedule), config.tasks[i - 1].name@]
        } else {
            Seq::empty()
        },
        None => Seq::empty(),
    }
}

pub fn list_tags(config: &Config, task_idx: Option<usize>, tag: Option<&str>) -> (r: Vec<String>)
    ensures
        string_views(r@) == listing_tags(*config, task_idx, match tag {
            Some(t) => Some(t@),
            None => None,
        }),
{
    let mut v: Vec<String> = Vec::new();
    match tag {
        Some(t) => v.push(t.to_string()),
        None => {},
    }
    let ghost first = v@;
    match task_idx {
        Some(i) => match config.task_by_index(i) {
            Some(task) => {
                v.push(task.schedule.as_tag().to_string());
                v.push(task.name.clone());
            },
            None => {},
        },
        None => {},
    }
    assert(string_views(v@) =~= listing_tags(*config, task_idx, match tag {
            Some(t) => Some(t@),
            None => None,
        }));
    v
}

/// Whether a tag names a schedule.
pub open spec fn is_schedule_tag(t: Seq<char>) -> bool {
    t == "daily"@ || t == "weekly"@ || t == "monthly"@ || t == "yearly"@
}

/// The index of the first tag, from `i` on, that is no schedule tag; or the length.
pub open spec fn first_task_tag(tags: Seq<Seq<char>>, i: int) -> int
    decreases tags.len() - i,
{
    if i < 0 || i >= tags.len() {
        tags.len() as int
    } else if !is_schedule_tag(tags[i]) {
        i
    } else {
        first_task_tag(tags, i + 1)
    }
}

/// The task a snapshot belongs to: its first tag that is no schedule tag, or `-`.
pub open spec fn snapshot_task(tags: Seq<Seq<char>>) -> Seq<char> {
    let k = first_task_tag(tags, 0);
    if 0 <= k < tags.len() {
        tags[k]
    } else {
        "-"@
    }
}

pub fn snapshot_task_name(snap: &Snapshot) -> (r: String)
    ensures
        r@ == snapshot_task(string_views(snap.tags@)),
        r@ != "daily"@ && r@ != "weekly"@ && r@ != "monthly"@ && r@ != "yearly"@,
        (forall|j: int| 0 <= j < snap.tags.len() ==> {
            let g = #[trigger] string_views(snap.tags@)[j];
            g == "daily"@ || g == "weekly"@ || g == "monthly"@ || g == "yearly"@
        }) ==> r@ == "-"@,
        ({
            let tags = string_views(snap.tags@);
            forall|k: int| 0 <= k < tags.len()
                && !(tags[k] == "daily"@ || tags[k] == "weekly"@ || tags[k] == "monthly"@ || tags[k] == "yearly"@)
                && (forall|j: int| 0 <= j < k ==> {
                    let g = #[trigger] tags[j];
                    g == "daily"@ || g == "weekly"@ || g == "monthly"@ || g == "yearly"@
                }) ==> r@ == #[trigger] tags[k]
        }),
{
    let ghost tags = string_views(snap.tags@);
    let mut i: usize = 0;
    while i < snap.tags.len()
        invariant
            i <= snap.tags.len(),
            tags == string_views(snap.tags@),
            first_task_tag(tags, 0) == first_task_tag(tags, i as int),
        decreases snap.tags.len() - i,
    {
        let t = chars_of(snap.tags[i].as_str());
        if !(equals_str(&t, "daily") || equals_str(&t, "weekly") || equals_str(&t, "monthly")
            || equals_str(&t, "yearly")) {
            proof {
                crate::laws::snapshot_task_is_no_schedule(tags);
            }
            return snap.tags[i].clone();
        }
        i += 1;
    }
    proof {
        crate::laws::snapshot_task_is_no_schedule(tags);
    }
    "-".to_string()
}

/// A snapshot id as a listing shows it: whole, or its first eight bytes.
pub open spec fn displayed_id(id: Seq<char>, long: bool) -> Seq<char> {
    if long || utf8_len(id) < 8 {
        id
    } else {
        byte_prefix(id, 8)
    }
}

pub fn display_id(id: &String, long: bool) -> (r: String)
    requires
        long || cuttable_at(id@, 8),
    ensures
        r@ == displayed_id(id@, long),
{
    reveal(cuttable_at);
    let c = chars_of(id.as_str());
    if long || !byte_len_at_least(&c, 8) {
        id.clone()
    } else {
        string_from(&take_bytes(&c, 8))
    }
}

/// Where a stable sort by time, newest first, puts a snapshot after the ones
/// before it: behind every snapshot that is not older.
pub open spec fn time_insert_pos(sorted: Seq<Snapshot>, time: Seq<char>, i: int) -> int
    decreases sorted.len() - i,
{
    if i < 0 || i >= sorted.len() {
        sorted.len() as int
    } else if text_less(sorted[i].time@, time) {
        i
    } else {
        time_insert_pos(sorted, time, i + 1)
    }
}

/// The snapshots sorted by time, newest first; equally new ones keep their order.
pub open spec fn newest_first(snaps: Seq<Snapshot>) -> Seq<Snapshot>
    decreases snaps.len(),
{
    if snaps.len() == 0 {
        seq![]
    } else {
        let s = newest_first(snaps.drop_last());
        s.insert(time_insert_pos(s, snaps.last().time@, 0), snaps.last())
    }
}

proof fn lemma_time_insert_pos_bounds(sorted: Seq<Snapshot>, time: Seq<char>, i: int)
    requires
        0 <= i,
    ensures
        0 <= time_insert_pos(sorted, time, i) <= sorted.len(),
    decreases sorted.len() - i,
{
    if i < sorted.len() && !text_less(sorted[i].time@, time) {
        lemma_time_insert_pos_bounds(sorted, time, i + 1);
    }
}

/// Sorts snapshots by time, newest first, keeping the order of equal times.
pub fn sort_newest_first(snaps: Vec<Snapshot>) -> (r: Vec<Snapshot>)
    ensures
        r@ == newest_first(snaps@),
{
    let ghost all = snaps@;
    let mut sorted: Vec<Snapshot> = Vec::new();
    for s in it: snaps
        invariant
            it.seq() == all,
            sorted@ == newest_first(all.take(it.index() as int)),
    {
        let ghost idx = it.index() as int;
        assert(all.take(idx + 1).drop_last() =~= all.take(idx));
        assert(all.take(idx + 1).last() == s);
        let t = chars_of(s.time.as_str());
        let mut pos: usize = 0;
        while pos < sorted.len() && !less_than(&chars_of(sorted[pos].time.as_str()), &t)
            invariant
                pos <= sorted.len(),
                t@ == s.time@,
                time_insert_pos(sorted@, s.time@, 0) == time_insert_pos(sorted@, s.time@, pos as int),
            decreases sorted.len() - pos,
        {
            pos += 1;
        }
        proof {
            lemma_time_insert_pos_bounds(sorted@, s.time@, 0);
        }
        sorted.insert(pos, s);
    }
    assert(all.take(all.len() as int) =~= all);
    sorted
}

/// One row of the snapshot listing.
pub struct ListingRow {
    pub id: String,
    pub time: String,
    pub task: String,
    pub files: u64,
    pub size: String,
    pub tier: String,
}

/// The number of files a snapshot holds, 0 when it does not say.
pub open spec fn snapshot_files(s: Snapshot) -> u64 {
    match s.summary {
        Some(sum) => match sum.files_total {
            Some(n) => n,
            None => 0,
        },
        None => 0,
    }
}

/// The bytes a snapshot processed, 0 when it does not say.
pub open spec fn snapshot_bytes(s: Snapshot) -> u64 {
    match s.summary {
        Some(sum) => match sum.bytes_processed {
            Some(n) => n,
            None => 0,
        },
        None => 0,
    }
}

fn files_of(s: &Snapshot) -> (n: u64)
    ensures
        n == snapshot_files(*s),
{
    match &s.summary {
        Some(sum) => match sum.files_total {
            Some(n) => n,
            None => 0,
        },
        None => 0,
    }
}

/// The row that shows a snapshot: its id, time, task, number of files,
/// processed size and retention tier.
pub fn listing_row(snap: &Snapshot, long: bool) -> (r: ListingRow)
    requires
        long || cuttable_at(snap.id@, 8),
    ensures
        r.id@ == displayed_id(snap.id@, long),
        r.time@ == snap.time@,
        r.task@ == snapshot_task(string_views(snap.tags@)),
        r.files == snapshot_files(*snap),
        r.size@ == size_text(snapshot_bytes(*snap) as nat, 2),
        r.tier@ == tier_label(string_views(snap.tags@)),
{
    let size = match &snap.summary {
        Some(sum) => match sum.bytes_processed {
            Some(n) => n,
            None => 0,
        },
        None => 0,
    };
    ListingRow {
        id: display_id(&snap.id, long),
        time: snap.time.clone(),
        task: snapshot_task_name(snap),
        files: files_of(snap),
        size: format_size(size),
        tier: retention_tier(snap).to_string(),
    }
}

/// The status line of a task's newest snapshot:
/// `  [<n>] <name> | <time> | <files> 文件 | <short id>`, or that it has none.
pub open spec fn latest_line(index: nat, name: Seq<char>, latest: Option<Snapshot>) -> Seq<char> {
    "  ["@ + decimal(index) + "] "@ + name + match latest {
        Some(s) => " | "@ + s.time@ + " | "@ + decimal(snapshot_files(s) as nat) + " 文件 | "@
            + displayed_id(s.id@, false),
        None => " | 暂无备份"@,
    }
}

pub fn latest_backup_line(index: u64, name: &str, latest: &Option<Snapshot>) -> (s: String)
    requires
        latest matches Some(snap) ==> cuttable_at(snap.id@, 8),
    ensures
        s@ == latest_line(index as nat, name@, *latest),
{
    let mut s = "  [".to_string();
    push_str(&mut s, u64_to_string(index).as_str());
    push_str(&mut s, "] ");
    push_str(&mut s, name);
    match latest {
        Some(snap) => {
            push_str(&mut s, " | ");
            push_str(&mut s, snap.time.as_str());
            push_str(&mut s, " | ");
            push_str(&mut s, u64_to_string(files_of(snap)).as_str());
            push_str(&mut s, " 文件 | ");
            push_str(&mut s, display_id(&snap.id, false).as_str());
        },
        None => {
            push_str(&mut s, " | 暂无备份");
        },
    }
    s
}

/// The status line of a task whose snapshots could not be listed.
pub fn latest_backup_error_line(index: u64, name: &str, error: &str) -> (s: String)
    ensures
        s@ == "  ["@ + decimal(index as nat) + "] "@ + name@ + " | 查询失败: "@ + error@,
{
    let mut s = "  [".to_string();
    push_str(&mut s, u64_to_string(index).as_str());
    push_str(&mut s, "] ");
    push_str(&mut s, name);
    push_str(&mut s, " | 查询失败: ");
    push_str(&mut s, error);
    s
}

/// A prune really runs only when confirmed and not asked for a preview.
pub fn prune_runs(dry_run: bool, yes: bool) -> (b: bool)
    ensures
        b == (yes && !dry_run),
{
    yes && !dry_run
}

/// The notice sent after a prune.
pub fn prune_notice(retention: &RetentionConfig, repo_path: &str) -> (s: String)
    ensures
        s@ == "🧹 备份仓库清理完成\n保留策略: 日"@ + decimal(retention.daily as nat) + " 周"@
            + decimal(retention.weekly as nat) + " 月"@ + decimal(retention.monthly as nat) + " 年"@
            + decimal(retention.yearly as nat) + "\n仓库: "@ + repo_path@,
{
    let mut s = "🧹 备份仓库清理完成\n保留策略: 日".to_string();
    push_str(&mut s, u64_to_string(retention.daily as u64).as_str());
    push_str(&mut s, " 周");
    push_str(&mut s, u64_to_string(retention.weekly as u64).as_str());
    push_str(&mut s, " 月");
    push_str(&mut s, u64_to_string(retention.monthly as u64).as_str());
    push_str(&mut s, " 年");
    push_str(&mut s, u64_to_string(retention.yearly as u64).as_str());
    push_str(&mut s, "\n仓库: ");
    push_str(&mut s, repo_path);
    s
}

} // verus!
