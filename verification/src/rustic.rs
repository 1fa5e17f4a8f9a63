use vstd::prelude::*;
use crate::config::{Config, RetentionConfig, TaskConfig, schedule_tag};
use crate::matching::{Pattern, JsonDoc, spec_regex_compiles, spec_regex_group1, spec_json_has_key,
    spec_json_u64_at, spec_json_parses};
use crate::text::{ascii_digits_of, char_vec_views, chars_of, contains_seq, contains_str, decimal,
    decimal2, equals_str, is_prefix_of, keep_ascii_digits, less_than, lines_of, parse_digits,
    parse_digits_exec, push_decimal2, push_decimal_wide, push_str, skip_chars, spec_to_lowercase,
    starts_with_str, string_from, string_views, text_less, text_lines, to_lowercase, trim,
    trim_chars, u64_to_string, push_signed_decimal, signed_decimal, lemma_text_less_irreflexive, lemma_text_less_transitive,
    lemma_text_less_total};

verus! {

broadcast use vstd::string::group_string_axioms;

// ---------------------------------------------------------------------------
// Snapshots, diffs, statistics
// ---------------------------------------------------------------------------

/// A snapshot as `rustic snapshots --json` lists it.
pub struct Snapshot {
    pub id: String,
    pub time: String,
    pub hostname: Option<String>,
    pub tags: Vec<String>,
    pub paths: Vec<String>,
    pub summary: Option<SnapshotSummary>,
}

pub struct SnapshotSummary {
    pub files_new: Option<u64>,
    pub files_total: Option<u64>,
    pub bytes_processed: Option<u64>,
}

/// A file that changed between two snapshots.
pub struct DiffFile {
    pub path: String,
    pub change_type: DiffChangeType,
}

#[derive(Clone, Copy, Debug, PartialEq, Eq, Structural)]
pub enum DiffChangeType {
    Added,
    Modified,
    Removed,
}

/// Repository statistics.
#[derive(Clone, Copy, Debug, PartialEq, Eq, Structural)]
pub struct RepoStats {
    pub total_size: u64,
    pub snapshot_count: u64,
}

impl Default for RepoStats {
    fn default() -> (r: Self)
        ensures
            r.total_size == 0 && r.snapshot_count == 0,
    {
        RepoStats { total_size: 0, snapshot_count: 0 }
    }
}

/// What a finished command printed, and its exit code (-1 when it had none).
pub struct CmdOutput {
    pub stdout: String,
    pub stderr: String,
    pub code: i32,
}

/// The rustic subcommands this library runs.
#[derive(Clone, Copy, Debug, PartialEq, Eq, Structural)]
pub enum RusticAction {
    Init,
    Backup,
    Snapshots,
    Restore,
    Forget,
    Check,
    Diff,
}

pub enum RusticError {
    /// `init` on a path that exists already.
    RepoExists { path: String },
    /// The command exited with a code other than 0.
    CommandFailed { action: RusticAction, code: i32, stdout: String, stderr: String },
    /// `backup` succeeded but printed no snapshot id.
    MissingSnapshotId { stdout: String, stderr: String },
    /// `snapshots --json` printed something that is not a snapshot list.
    InvalidSnapshotList { detail: String },
}

/// Builds the command lines of rustic and reads what rustic printed.
pub struct Rustic {
    pub repo_path: String,
    pub password: String,
}

/// The error for a command that exited with a code other than 0.
pub open spec fn command_failed(action: RusticAction, out: CmdOutput) -> RusticError {
    RusticError::CommandFailed { action, code: out.code, stdout: out.stdout, stderr: out.stderr }
}

fn failure(action: RusticAction, out: &CmdOutput) -> (e: RusticError)
    ensures
        e == command_failed(action, *out),
{
    RusticError::CommandFailed {
        action,
        code: out.code,
        stdout: out.stdout.clone(),
        stderr: out.stderr.clone(),
    }
}

/// Whether a command succeeded, else the error for it.
pub open spec fn exit_status(action: RusticAction, out: CmdOutput) -> Result<(), RusticError> {
    if out.code == 0 {
        Ok(())
    } else {
        Err(command_failed(action, out))
    }
}

fn check_exit(action: RusticAction, out: &CmdOutput) -> (r: Result<(), RusticError>)
    ensures
        r == exit_status(action, *out),
{
    if out.code != 0 {
        Err(failure(action, out))
    } else {
        Ok(())
    }
}

impl Rustic {
    pub fn new(config: &Config) -> (r: Rustic)
        ensures
            r.repo_path == config.repo.path,
            r.password == config.repo.password,
    {
        Rustic { repo_path: config.repo.path.clone(), password: config.repo.password.clone() }
    }

    /// The environment variable that carries the password.
    pub fn password_env(&self) -> (r: (String, String))
        ensures
            r.0@ == "RUSTIC_PASSWORD"@,
            r.1 == self.password,
    {
        ("RUSTIC_PASSWORD".to_string(), self.password.clone())
    }

    pub open spec fn base(&self) -> Seq<Seq<char>> {
        seq!["--repo"@, self.repo_path@]
    }

    /// `--repo <path>`, the start of every command line.
    pub fn base_args(&self) -> (r: Vec<String>)
        ensures
            string_views(r@) == self.base(),
    {
        let mut v: Vec<String> = Vec::new();
        v.push("--repo".to_string());
        v.push(self.repo_path.clone());
        assert(string_views(v@) =~= self.base());
        v
    }

    /// `init` refuses a repository path that exists already.
    pub fn init_check(&self, repo_exists: bool) -> (r: Result<(), RusticError>)
        ensures
            repo_exists ==> r == Err::<(), RusticError>(RusticError::RepoExists { path: self.repo_path }),
            !repo_exists ==> r is Ok,
    {
        if repo_exists {
            Err(RusticError::RepoExists { path: self.repo_path.clone() })
        } else {
            Ok(())
        }
    }

    pub fn init_args(&self) -> (r: Vec<String>)
        ensures
            string_views(r@) == self.base() + seq!["init"@],
    {
        let mut v = self.base_args();
        v.push("init".to_string());
        assert(string_views(v@) =~= self.base() + seq!["init"@]);
        v
    }

    /// The outcome of `init`.
    pub fn init(&self, out: &CmdOutput) -> (r: Result<(), RusticError>)
        ensures
            r == exit_status(RusticAction::Init, *out),
    {
        check_exit(RusticAction::Init, out)
    }

    pub open spec fn backup_line(&self, task: TaskConfig, extra: Seq<Seq<char>>) -> Seq<Seq<char>> {
        self.base() + seq!["backup"@, task.source@, "--tag"@, schedule_tag(task.schedule), "--tag"@, task.name@]
            + extra
    }

    /// `backup <source> --tag <schedule> --tag <name> <extra...>`.
    pub fn backup_args(&self, task: &TaskConfig, extra: &Vec<String>) -> (r: Vec<String>)
        ensures
            string_views(r@) == self.backup_line(*task, string_views(extra@)),
    {
        let mut v = self.base_args();
        v.push("backup".to_string());
        v.push(task.source.clone());
        v.push("--tag".to_string());
        v.push(task.schedule.as_tag().to_string());
        v.push("--tag".to_string());
        v.push(task.name.clone());
        let ghost head = v@;
        for i in 0..extra.len()
            invariant
                v@ == head + extra@.take(i as int),
        {
            v.push(extra[i].clone());
            assert(extra@.take(i + 1) =~= extra@.take(i as int).push(extra@[i as int]));
        }
        assert(extra@.take(extra.len() as int) =~= extra@);
        assert(string_views(v@) =~= self.backup_line(*task, string_views(extra@)));
        v
    }

    pub fn snapshots_args(&self) -> (r: Vec<String>)
        ensures
            string_views(r@) == self.base() + seq!["snapshots"@, "--json"@],
    {
        let mut v = self.base_args();
        v.push("snapshots".to_string());
        v.push("--json".to_string());
        assert(string_views(v@) =~= self.base() + seq!["snapshots"@, "--json"@]);
        v
    }

    /// `restore <id> --target <target> [--include <path>]`.
    pub fn restore_args(&self, snapshot_id: &str, target: &str, include_path: Option<&str>) -> (r: Vec<String>)
        ensures
            string_views(r@) == self.base() + seq!["restore"@, snapshot_id@, "--target"@, target@]
                + match include_path {
                    Some(p) => seq!["--include"@, p@],
                    None => Seq::<Seq<char>>::empty(),
                },
    {
        let mut v = self.base_args();
        v.push("restore".to_string());
        v.push(snapshot_id.to_string());
        v.push("--target".to_string());
        v.push(target.to_string());
        match include_path {
            Some(p) => {
                v.push("--include".to_string());
                v.push(p.to_string());
            },
            None => {},
        }
        assert(string_views(v@) =~= self.base() + seq!["restore"@, snapshot_id@, "--target"@, target@]
                + match include_path {
                    Some(p) => seq!["--include"@, p@],
                    None => Seq::<Seq<char>>::empty(),
                });
        v
    }

    /// The outcome of `restore`.
    pub fn restore(&self, out: &CmdOutput) -> (r: Result<(), RusticError>)
        ensures
            r == exit_status(RusticAction::Restore, *out),
    {
        check_exit(RusticAction::Restore, out)
    }

    pub open spec fn forget_line(&self, retention: RetentionConfig, tag: Option<Seq<char>>, dry_run: bool) -> Seq<Seq<char>> {
        self.base() + seq![
            "forget"@,
            "--keep-daily"@, decimal(retention.daily as nat),
            "--keep-weekly"@, decimal(retention.weekly as nat),
            "--keep-monthly"@, decimal(retention.monthly as nat),
            "--keep-yearly"@, decimal(retention.yearly as nat),
        ] + match tag {
            Some(t) => seq!["--tag"@, t],
            None => Seq::<Seq<char>>::empty(),
        } + if dry_run {
            seq!["--dry-run"@]
        } else {
            seq!["--prune"@]
        }
    }

    /// `forget --keep-daily .. --keep-yearly .. [--tag t] (--dry-run | --prune)`.
    pub fn forget_args(&self, retention: &RetentionConfig, tag: Option<&str>, dry_run: bool) -> (r: Vec<String>)
        ensures
            string_views(r@) == self.forget_line(*retention, match tag {
                Some(t) => Some(t@),
                None => None,
            }, dry_run),
            ({
                let line = string_views(r@);
                let b = self.base().len();
                &&& line[b + 0int] == "forget"@
                &&& line[b + 1int] == "--keep-daily"@ && line[b + 2int] == decimal(retention.daily as nat)
                &&& line[b + 3int] == "--keep-weekly"@ && line[b + 4int] == decimal(retention.weekly as nat)
                &&& line[b + 5int] == "--keep-monthly"@ && line[b + 6int] == decimal(retention.monthly as nat)
                &&& line[b + 7int] == "--keep-yearly"@ && line[b + 8int] == decimal(retention.yearly as nat)
            }),
    {
        let mut v = self.base_args();
        v.push("forget".to_string());
        v.push("--keep-daily".to_string());
        v.push(u64_to_string(retention.daily as u64));
        v.push("--keep-weekly".to_string());
        v.push(u64_to_string(retention.weekly as u64));
        v.push("--keep-monthly".to_string());
        v.push(u64_to_string(retention.monthly as u64));
        v.push("--keep-yearly".to_string());
        v.push(u64_to_string(retention.yearly as u64));
        match tag {
            Some(t) => {
                v.push("--tag".to_string());
                v.push(t.to_string());
            },
            None => {},
        }
        if dry_run {
            v.push("--dry-run".to_string());
        } else {
            v.push("--prune".to_string());
        }
        assert(string_views(v@) =~= self.forget_line(*retention, match tag {
                Some(t) => Some(t@),
                None => None,
            }, dry_run));
        proof {
            crate::laws::forget_keeps_each_count(*self, *retention, match tag {
                Some(t) => Some(t@),
                None => None,
            }, dry_run);
        }
        v
    }

    /// The outcome of `forget`: what rustic printed on both streams.
    pub fn forget_and_prune(&self, out: &CmdOutput) -> (r: Result<String, RusticError>)
        ensures
            out.code == 0 ==> (r matches Ok(s) && s@ == out.stdout@ + seq!['\n'] + out.stderr@),
            out.code != 0 ==> r == Err::<String, RusticError>(command_failed(RusticAction::Forget, *out)),
    {
        if out.code != 0 {
            return Err(failure(RusticAction::Forget, out));
        }
        Ok(joined_output(out))
    }

    pub fn check_args(&self) -> (r: Vec<String>)
        ensures
            string_views(r@) == self.base() + seq!["check"@],
    {
        let mut v = self.base_args();
        v.push("check".to_string());
        assert(string_views(v@) =~= self.base() + seq!["check"@]);
        v
    }

    /// The outcome of `check`.
    pub fn check(&self, out: &CmdOutput) -> (r: Result<(), RusticError>)
        ensures
            r == exit_status(RusticAction::Check, *out),
    {
        check_exit(RusticAction::Check, out)
    }

    pub fn repoinfo_args(&self) -> (r: Vec<String>)
        ensures
            string_views(r@) == self.base() + seq!["repoinfo"@, "--json"@],
    {
        let mut v = self.base_args();
        v.push("repoinfo".to_string());
        v.push("--json".to_string());
        assert(string_views(v@) =~= self.base() + seq!["repoinfo"@, "--json"@]);
        v
    }

    pub fn diff_args(&self, old_id: &str, new_id: &str) -> (r: Vec<String>)
        ensures
            string_views(r@) == self.base() + seq!["diff"@, old_id@, new_id@],
    {
        let mut v = self.base_args();
        v.push("diff".to_string());
        v.push(old_id.to_string());
        v.push(new_id.to_string());
        assert(string_views(v@) =~= self.base() + seq!["diff"@, old_id@, new_id@]);
        v
    }
}

// ---------------------------------------------------------------------------
// Reading what rustic printed
// ---------------------------------------------------------------------------

/// The pattern of the line with which `backup` reports the new snapshot.
pub open spec fn snapshot_saved_pattern() -> Seq<char> {
    "snapshot ([a-f0-9]+) successfully saved"@
}

/// Capture group 1 of the first line, in order, that the pattern matches.
pub open spec fn first_group1(pattern: Seq<char>, lines: Seq<Seq<char>>) -> Option<Seq<char>>
    decreases lines.len(),
{
    if lines.len() == 0 {
        None
    } else {
        match spec_regex_group1(pattern, lines[0]) {
            Some(g) => Some(g),
            None => first_group1(pattern, lines.drop_first()),
        }
    }
}

/// The snapshot id that `backup` printed: from the first line of standard
/// output, then of standard error, that reports a saved snapshot.
pub open spec fn reported_snapshot_id(out: CmdOutput) -> Option<Seq<char>> {
    if spec_regex_compiles(snapshot_saved_pattern()) {
        first_group1(snapshot_saved_pattern(), text_lines(out.stdout@) + text_lines(out.stderr@))
    } else {
        None
    }
}

/// Whether a snapshot carries every one of the tags.
pub open spec fn has_all_tags(s: Snapshot, tags: Seq<Seq<char>>) -> bool {
    forall|i: int| 0 <= i < tags.len() ==> string_views(s.tags@).contains(#[trigger] tags[i])
}

/// The snapshots that carry every one of the tags, in order.
pub open spec fn tagged(snaps: Seq<Snapshot>, tags: Seq<Seq<char>>) -> Seq<Snapshot>
    decreases snaps.len(),
{
    if snaps.len() == 0 {
        seq![]
    } else if has_all_tags(snaps.last(), tags) {
        tagged(snaps.drop_last(), tags).push(snaps.last())
    } else {
        tagged(snaps.drop_last(), tags)
    }
}

/// The index of the newest snapshot: the first one whose time no other time
/// sorts after (what a stable sort by time, newest first, puts in front).
pub open spec fn is_newest_index(snaps: Seq<Snapshot>, k: int) -> bool {
    &&& 0 <= k < snaps.len()
    &&& forall|j: int| 0 <= j < snaps.len() ==> !text_less(snaps[k].time@, #[trigger] snaps[j].time@)
    &&& forall|j: int| 0 <= j < k ==> text_less(#[trigger] snaps[j].time@, snaps[k].time@)
}

fn has_tag(s: &Snapshot, tag: &String) -> (b: bool)
    ensures
        b == string_views(s.tags@).contains(tag@),
{
    for i in 0..s.tags.len()
        invariant
            forall|j: int| 0 <= j < i ==> s.tags@[j]@ != tag@,
    {
        if s.tags[i] == *tag {
            assert(string_views(s.tags@)[i as int] == tag@);
            return true;
        }
    }
    assert forall|j: int| 0 <= j < string_views(s.tags@).len() implies string_views(s.tags@)[j] != tag@ by {
        assert(string_views(s.tags@)[j] == s.tags@[j]@);
    }
    false
}

fn has_all(s: &Snapshot, tags: &Vec<String>) -> (b: bool)
    ensures
        b == has_all_tags(*s, string_views(tags@)),
{
    for i in 0..tags.len()
        invariant
            forall|j: int| 0 <= j < i ==> string_views(s.tags@).contains(#[trigger] string_views(tags@)[j]),
    {
        if !has_tag(s, &tags[i]) {
            assert(string_views(tags@)[i as int] == tags@[i as int]@);
            return false;
        }
    }
    true
}

/// The diff entry a line of `rustic diff` describes: `+`, `M` or `-` before
/// the path, or `added:`, `modified:` or `removed:` in any case.
pub open spec fn diff_entry(line: Seq<char>) -> Option<(Seq<char>, DiffChangeType)> {
    let t = trim(line);
    let lower = spec_to_lowercase(t);
    if t.len() == 0 {
        None
    } else if t[0] == '+' {
        Some((trim(t.drop_first()), DiffChangeType::Added))
    } else if t[0] == 'M' {
        Some((trim(t.drop_first()), DiffChangeType::Modified))
    } else if t[0] == '-' {
        Some((trim(t.drop_first()), DiffChangeType::Removed))
    } else if is_prefix_of("added:"@, lower) {
        if t.len() >= 6 {
            Some((trim(t.skip(6)), DiffChangeType::Added))
        } else {
            None
        }
    } else if is_prefix_of("modified:"@, lower) {
        if t.len() >= 9 {
            Some((trim(t.skip(9)), DiffChangeType::Modified))
        } else {
            None
        }
    } else if is_prefix_of("removed:"@, lower) {
        if t.len() >= 8 {
            Some((trim(t.skip(8)), DiffChangeType::Removed))
        } else {
            None
        }
    } else {
        None
    }
}

/// The diff entries of the lines, in order.
pub open spec fn diff_entries(lines: Seq<Seq<char>>) -> Seq<(Seq<char>, DiffChangeType)>
    decreases lines.len(),
{
    if lines.len() == 0 {
        seq![]
    } else {
        match diff_entry(lines.last()) {
            Some(e) => diff_entries(lines.drop_last()).push(e),
            None => diff_entries(lines.drop_last()),
        }
    }
}

pub open spec fn diff_file_views(files: Seq<DiffFile>) -> Seq<(Seq<char>, DiffChangeType)> {
    files.map_values(|f: DiffFile| (f.path@, f.change_type))
}

/// The number in a line: its ASCII digits read as one decimal number.
pub open spec fn number_in_line(line: Seq<char>) -> Option<u64> {
    parse_digits(ascii_digits_of(line))
}

/// The statistics that a text report of `repoinfo` gives: the number on the
/// last line that mentions the total or repository size, and on the last line
/// that mentions a snapshot count.
pub open spec fn text_stats(lines: Seq<Seq<char>>) -> RepoStats
    decreases lines.len(),
{
    if lines.len() == 0 {
        RepoStats { total_size: 0, snapshot_count: 0 }
    } else {
        let prev = text_stats(lines.drop_last());
        let line = lines.last();
        let lower = spec_to_lowercase(line);
        let n = number_in_line(line);
        let total = if (contains_seq(lower, "total size"@) || contains_seq(lower, "repo size"@))
            && n is Some {
            n.unwrap()
        } else {
            prev.total_size
        };
        let count = if contains_seq(lower, "snapshot"@) && contains_seq(lower, "count"@) && n is Some {
            n.unwrap()
        } else {
            prev.snapshot_count
        };
        RepoStats { total_size: total, snapshot_count: count }
    }
}

/// The value under the first key, else under the second, when it is a `u64`; else 0.
pub open spec fn json_number(text: Seq<char>, key: Seq<char>, other: Seq<char>) -> u64 {
    let v = if spec_json_has_key(text, key) {
        spec_json_u64_at(text, key)
    } else {
        spec_json_u64_at(text, other)
    };
    match v {
        Some(n) => n,
        None => 0,
    }
}

/// The statistics of a JSON report of `repoinfo`.
pub open spec fn json_stats(text: Seq<char>) -> RepoStats {
    RepoStats {
        total_size: json_number(text, "total_size"@, "size"@),
        snapshot_count: json_number(text, "snapshot_count"@, "snapshots"@),
    }
}

/// Statistics read from `repoinfo`, and whether the snapshot count is still
/// to be taken from a listing of the snapshots.
pub struct RepoInfo {
    pub stats: RepoStats,
    pub needs_snapshot_count: bool,
}

/// What `repoinfo` reports: the JSON statistics when it succeeded and printed
/// JSON, else the statistics of its text on both streams; a count of 0 from
/// the text is to be replaced by the number of snapshots.
pub open spec fn repo_info(out: CmdOutput) -> RepoInfo {
    if out.code == 0 && spec_json_parses(out.stdout@) {
        RepoInfo { stats: json_stats(out.stdout@), needs_snapshot_count: false }
    } else {
        let stats = text_stats(text_lines(out.stdout@ + seq!['\n'] + out.stderr@));
        RepoInfo { stats, needs_snapshot_count: stats.snapshot_count == 0 }
    }
}

/// The retention label of the first schedule tag of a snapshot.
pub open spec fn tier_label(tags: Seq<Seq<char>>) -> Seq<char>
    decreases tags.len(),
{
    if tags.len() == 0 {
        "未知"@
    } else if tags[0] == "daily"@ {
        "每日"@
    } else if tags[0] == "weekly"@ {
        "每周"@
    } else if tags[0] == "monthly"@ {
        "每月"@
    } else if tags[0] == "yearly"@ {
        "每年"@
    } else {
        tier_label(tags.drop_first())
    }
}

/// The number in a line (`extract_number_from_line`).
pub fn extract_number_from_line(line: &Vec<char>) -> (r: Option<u64>)
    ensures
        r == number_in_line(line@),
{
    let digits = keep_ascii_digits(line);
    parse_digits_exec(&digits)
}

fn text_stats_exec(text: &String) -> (r: RepoStats)
    ensures
        r == text_stats(text_lines(text@)),
{
    let lines = lines_of(&chars_of(text.as_str()));
    let ghost ls = char_vec_views(lines@);
    let mut stats = RepoStats { total_size: 0, snapshot_count: 0 };
    for i in 0..lines.len()
        invariant
            ls == char_vec_views(lines@),
            ls == text_lines(text@),
            stats == text_stats(ls.take(i as int)),
    {
        let line = &lines[i];
        let lower = to_lowercase(line);
        let n = extract_number_from_line(line);
        assert(ls.take(i + 1).drop_last() =~= ls.take(i as int));
        assert(ls.take(i + 1).last() == line@);
        if contains_str(&lower, "total size") || contains_str(&lower, "repo size") {
            match n {
                Some(v) => {
                    stats.total_size = v;
                },
                None => {},
            }
        }
        if contains_str(&lower, "snapshot") && contains_str(&lower, "count") {
            match n {
                Some(v) => {
                    stats.snapshot_count = v;
                },
                None => {},
            }
        }
    }
    assert(ls.take(lines.len() as int) =~= ls);
    stats
}

proof fn lemma_first_group1_append(p: Seq<char>, a: Seq<Seq<char>>, b: Seq<Seq<char>>)
    ensures
        first_group1(p, a + b) == match first_group1(p, a) {
            Some(g) => Some(g),
            None => first_group1(p, b),
        },
    decreases a.len(),
{
    if a.len() > 0 {
        assert((a + b).drop_first() =~= a.drop_first() + b);
        assert((a + b)[0] == a[0]);
        lemma_first_group1_append(p, a.drop_first(), b);
    } else {
        assert(a + b =~= b);
    }
}

/// Capture group 1 of the first of the lines that the pattern matches.
fn first_group1_exec(pattern: &Pattern, lines: &Vec<Vec<char>>) -> (r: Option<String>)
    ensures
        match first_group1(pattern.source(), char_vec_views(lines@)) {
            Some(g) => (r matches Some(s) && s@ == g),
            None => r is None,
        },
{
    let ghost all = char_vec_views(lines@);
    let ghost p = pattern.source();
    assert(all.skip(0) =~= all);
    for i in 0..lines.len()
        invariant
            all == char_vec_views(lines@),
            p == pattern.source(),
            first_group1(p, all) == first_group1(p, all.skip(i as int)),
    {
        let line = string_from(&lines[i]);
        assert(all.skip(i as int).drop_first() =~= all.skip(i + 1));
        assert(all.skip(i as int)[0] == line@);
        match pattern.group1(line.as_str()) {
            Some(id) => {
                return Some(id);
            },
            None => {},
        }
    }
    assert(all.skip(lines.len() as int) =~= Seq::<Seq<char>>::empty());
    None
}

impl Rustic {
    /// The outcome of `backup`: the id of the new snapshot.
    pub fn backup(&self, out: &CmdOutput) -> (r: Result<String, RusticError>)
        ensures
            out.code != 0 ==> r == Err::<String, RusticError>(command_failed(RusticAction::Backup, *out)),
            out.code == 0 ==> match reported_snapshot_id(*out) {
                Some(id) => (r matches Ok(s) && s@ == id),
                None => r == Err::<String, RusticError>(RusticError::MissingSnapshotId {
                    stdout: out.stdout,
                    stderr: out.stderr,
                }),
            },
    {
        if out.code != 0 {
            return Err(failure(RusticAction::Backup, out));
        }
        let pattern = Pattern::compile("snapshot ([a-f0-9]+) successfully saved");
        let missing = RusticError::MissingSnapshotId {
            stdout: out.stdout.clone(),
            stderr: out.stderr.clone(),
        };
        let pattern = match pattern {
            Some(p) => p,
            None => return Err(missing),
        };
        let first = lines_of(&chars_of(out.stdout.as_str()));
        let more = lines_of(&chars_of(out.stderr.as_str()));
        let ghost p = snapshot_saved_pattern();
        proof {
            lemma_first_group1_append(p, char_vec_views(first@), char_vec_views(more@));
        }
        match first_group1_exec(&pattern, &first) {
            Some(id) => return Ok(id),
            None => {},
        }
        match first_group1_exec(&pattern, &more) {
            Some(id) => return Ok(id),
            None => {},
        }
        Err(missing)
    }

    /// The outcome of `snapshots --json`: the listed snapshots that carry all
    /// the tags (all of them when no tag is given). `parsed` is the listing
    /// read from standard output, or why it could not be read.
    pub fn snapshots(&self, out: &CmdOutput, parsed: Result<Vec<Snapshot>, String>, tags: &Vec<String>) -> (r: Result<Vec<Snapshot>, RusticError>)
        ensures
            out.code != 0 ==> r == Err::<Vec<Snapshot>, RusticError>(command_failed(RusticAction::Snapshots, *out)),
            out.code == 0 ==> match parsed {
                Err(d) => r == Err::<Vec<Snapshot>, RusticError>(RusticError::InvalidSnapshotList { detail: d }),
                Ok(v) => (r matches Ok(w) && w@ == tagged(v@, string_views(tags@))),
            },
    {
        if out.code != 0 {
            return Err(failure(RusticAction::Snapshots, out));
        }
        let listed = match parsed {
            Err(d) => return Err(RusticError::InvalidSnapshotList { detail: d }),
            Ok(v) => v,
        };
        let ghost all = listed@;
        let ghost tv = string_views(tags@);
        let mut kept: Vec<Snapshot> = Vec::new();
        for s in it: listed
            invariant
                it.seq() == all,
                tv == string_views(tags@),
                kept@ == tagged(all.take(it.index() as int), tv),
        {
            let ghost idx = it.index() as int;
            assert(all.take(idx + 1).drop_last() =~= all.take(idx));
            assert(all.take(idx + 1).last() == s);
            assert(tagged(all.take(idx + 1), tv) == if has_all_tags(s, tv) {
                tagged(all.take(idx), tv).push(s)
            } else {
                tagged(all.take(idx), tv)
            });
            if has_all(&s, tags) {
                kept.push(s);
            }
        }
        assert(all.take(all.len() as int) =~= all);
        Ok(kept)
    }

    /// `daily`/`weekly`/... and the task name: the tags of a task's snapshots.
    pub fn task_tags(task: &TaskConfig) -> (r: Vec<String>)
        ensures
            string_views(r@) == seq![schedule_tag(task.schedule), task.name@],
    {
        let mut v: Vec<String> = Vec::new();
        v.push(task.schedule.as_tag().to_string());
        v.push(task.name.clone());
        assert(string_views(v@) =~= seq![schedule_tag(task.schedule), task.name@]);
        v
    }

    /// The newest of a task's snapshots (listed with `task_tags`); the first
    /// of equally new ones.
    pub fn latest_snapshot(&self, snapshots: Vec<Snapshot>) -> (r: Option<Snapshot>)
        ensures
            snapshots.len() == 0 ==> r is None,
            snapshots.len() > 0 ==> exists|k: int| is_newest_index(snapshots@, k) && r == Some(snapshots@[k]),
    {
        if snapshots.len() == 0 {
            return None;
        }
        let mut best: usize = 0;
        let mut best_time = chars_of(snapshots[0].time.as_str());
        proof {
            lemma_text_less_irreflexive(snapshots@[0].time@);
        }
        for i in 1..snapshots.len()
            invariant
                best < i <= snapshots.len(),
                best_time@ == snapshots@[best as int].time@,
                forall|j: int| 0 <= j < i ==> !text_less(best_time@, #[trigger] snapshots@[j].time@),
                forall|j: int| 0 <= j < best ==> text_less(#[trigger] snapshots@[j].time@, best_time@),
        {
            let t = chars_of(snapshots[i].time.as_str());
            if less_than(&best_time, &t) {
                proof {
                    assert forall|j: int| 0 <= j < i implies text_less(#[trigger] snapshots@[j].time@, t@) by {
                        let sj = snapshots@[j].time@;
                        lemma_text_less_total(sj, best_time@);
                        if text_less(sj, best_time@) {
                            lemma_text_less_transitive(sj, best_time@, t@);
                        }
                    }
                    lemma_text_less_irreflexive(t@);
                    assert forall|j: int| 0 <= j < i + 1 implies !text_less(t@, #[trigger] snapshots@[j].time@) by {
                        if j < i {
                            let sj = snapshots@[j].time@;
                            if text_less(t@, sj) {
                                lemma_text_less_transitive(sj, t@, sj);
                                lemma_text_less_irreflexive(sj);
                            }
                        }
                    }
                }
                best = i;
                best_time = t;
            }
        }
        let ghost k = best as int;
        let ghost orig = snapshots@;
        assert(is_newest_index(orig, k));
        let mut snapshots = snapshots;
        let r = snapshots.swap_remove(best);
        Some(r)
    }

    /// The outcome of `repoinfo --json`.
    pub fn repoinfo(&self, out: &CmdOutput) -> (r: RepoInfo)
        ensures
            r == repo_info(*out),
    {
        if out.code == 0 {
            match JsonDoc::parse(out.stdout.as_str()) {
                Some(doc) => {
                    let total = if doc.has_key("total_size") {
                        doc.u64_at("total_size")
                    } else {
                        doc.u64_at("size")
                    };
                    let count = if doc.has_key("snapshot_count") {
                        doc.u64_at("snapshot_count")
                    } else {
                        doc.u64_at("snapshots")
                    };
                    let stats = RepoStats {
                        total_size: match total {
                            Some(n) => n,
                            None => 0,
                        },
                        snapshot_count: match count {
                            Some(n) => n,
                            None => 0,
                        },
                    };
                    return RepoInfo { stats, needs_snapshot_count: false };
                },
                None => {},
            }
        }
        let combined = joined_output(out);
        let stats = text_stats_exec(&combined);
        RepoInfo { stats, needs_snapshot_count: stats.snapshot_count == 0 }
    }

    /// The outcome of `diff`: the changed files it lists on both streams.
    pub fn diff(&self, out: &CmdOutput) -> (r: Result<Vec<DiffFile>, RusticError>)
        ensures
            out.code != 0 ==> r == Err::<Vec<DiffFile>, RusticError>(command_failed(RusticAction::Diff, *out)),
            out.code == 0 ==> (r matches Ok(files) && diff_file_views(files@) == diff_entries(
                text_lines(out.stdout@ + seq!['\n'] + out.stderr@),
            )),
    {
        if out.code != 0 {
            return Err(failure(RusticAction::Diff, out));
        }
        let combined = joined_output(out);
        let lines = lines_of(&chars_of(combined.as_str()));
        let ghost ls = char_vec_views(lines@);
        let mut files: Vec<DiffFile> = Vec::new();
        for i in 0..lines.len()
            invariant
                ls == char_vec_views(lines@),
                ls == text_lines(combined@),
                diff_file_views(files@) == diff_entries(ls.take(i as int)),
        {
            assert(ls.take(i + 1).drop_last() =~= ls.take(i as int));
            assert(ls.take(i + 1).last() == lines[i as int]@);
            let ghost before = files@;
            match parse_diff_line(&lines[i]) {
                Some(f) => {
                    files.push(f);
                    assert(diff_file_views(files@) =~= diff_file_views(before).push((f.path@, f.change_type)));
                },
                None => {},
            }
        }
        assert(ls.take(lines.len() as int) =~= ls);
        Ok(files)
    }
}

/// Reads one line of `rustic diff`.
pub fn parse_diff_line(line: &Vec<char>) -> (r: Option<DiffFile>)
    ensures
        match diff_entry(line@) {
            Some(e) => (r matches Some(f) && f.path@ == e.0 && f.change_type == e.1),
            None => r is None,
        },
{
    let t = trim_chars(line);
    let lower = to_lowercase(&t);
    if t.len() == 0 {
        return None;
    }
    let (skip, kind): (usize, DiffChangeType) = if t[0] == '+' {
        (1, DiffChangeType::Added)
    } else if t[0] == 'M' {
        (1, DiffChangeType::Modified)
    } else if t[0] == '-' {
        (1, DiffChangeType::Removed)
    } else if starts_with_str(&lower, "added:") {
        (6, DiffChangeType::Added)
    } else if starts_with_str(&lower, "modified:") {
        (9, DiffChangeType::Modified)
    } else if starts_with_str(&lower, "removed:") {
        (8, DiffChangeType::Removed)
    } else {
        return None;
    };
    if skip > t.len() {
        return None;
    }
    let rest = skip_chars(&t, skip);
    assert(skip == 1 ==> rest@ == t@.drop_first());
    let path = string_from(&trim_chars(&rest));
    Some(DiffFile { path, change_type: kind })
}

/// The retention label of a snapshot (`每日`, `每周`, `每月`, `每年` or `未知`).
pub fn retention_tier(snapshot: &Snapshot) -> (r: &'static str)
    ensures
        r@ == tier_label(string_views(snapshot.tags@)),
{
    let ghost tags = string_views(snapshot.tags@);
    assert(tags.skip(0) =~= tags);
    let mut i: usize = 0;
    while i < snapshot.tags.len()
        invariant
            i <= snapshot.tags.len(),
            tags == string_views(snapshot.tags@),
            tier_label(tags) == tier_label(tags.skip(i as int)),
        decreases snapshot.tags.len() - i,
    {
        let t = chars_of(snapshot.tags[i].as_str());
        assert(tags.skip(i as int)[0] == t@);
        assert(tags.skip(i as int).drop_first() =~= tags.skip(i + 1));
        if equals_str(&t, "daily") {
            return "每日";
        } else if equals_str(&t, "weekly") {
            return "每周";
        } else if equals_str(&t, "monthly") {
            return "每月";
        } else if equals_str(&t, "yearly") {
            return "每年";
        }
        i += 1;
    }
    assert(tags.skip(i as int) =~= Seq::<Seq<char>>::empty());
    "未知"
}

/// Standard output, a line break, then standard error.
pub fn joined_output(out: &CmdOutput) -> (s: String)
    ensures
        s@ == out.stdout@ + seq!['\n'] + out.stderr@,
{
    let mut s = out.stdout.clone();
    push_str(&mut s, "\n");
    proof {
        reveal_strlit("\n");
    }
    push_str(&mut s, out.stderr.as_str());
    s
}

/// How a failed command reads: `<what failed> (exit <code>):` and what it printed.
pub open spec fn failure_text(action: RusticAction, code: i32, stdout: Seq<char>, stderr: Seq<char>) -> Seq<char> {
    let head = match action {
        RusticAction::Init => "初始化仓库失败"@,
        RusticAction::Backup => "备份失败"@,
        RusticAction::Snapshots => "列出快照失败"@,
        RusticAction::Restore => "恢复失败"@,
        RusticAction::Forget => "清理失败"@,
        RusticAction::Check => "仓库校验失败"@,
        RusticAction::Diff => "diff 失败"@,
    };
    let tail = match action {
        RusticAction::Snapshots | RusticAction::Diff => stderr,
        _ => stdout + "\n"@ + stderr,
    };
    head + " (exit "@ + signed_decimal(code as int) + "):\n"@ + tail
}

pub open spec fn rustic_error_text(e: RusticError) -> Seq<char> {
    match e {
        RusticError::RepoExists { path } => "仓库已存在: "@ + path@,
        RusticError::CommandFailed { action, code, stdout, stderr } => failure_text(action, code, stdout@, stderr@),
        RusticError::MissingSnapshotId { stdout, stderr } => "无法解析快照ID，输出:\n"@ + stdout@ + "\n"@ + stderr@,
        RusticError::InvalidSnapshotList { detail } => "解析快照JSON失败: "@ + detail@,
    }
}

impl RusticError {
    /// How the error reads in a log or on the console.
    pub fn text(&self) -> (s: String)
        ensures
            s@ == rustic_error_text(*self),
    {
        let mut s = String::new();
        match self {
            RusticError::RepoExists { path } => {
                push_str(&mut s, "仓库已存在: ");
                push_str(&mut s, path.as_str());
            },
            RusticError::CommandFailed { action, code, stdout, stderr } => {
                push_str(&mut s, match action {
                    RusticAction::Init => "初始化仓库失败",
                    RusticAction::Backup => "备份失败",
                    RusticAction::Snapshots => "列出快照失败",
                    RusticAction::Restore => "恢复失败",
                    RusticAction::Forget => "清理失败",
                    RusticAction::Check => "仓库校验失败",
                    RusticAction::Diff => "diff 失败",
                });
                push_str(&mut s, " (exit ");
                let mut digits: Vec<char> = Vec::new();
                push_signed_decimal(&mut digits, *code as i64);
                push_str(&mut s, string_from(&digits).as_str());
                push_str(&mut s, "):\n");
                match action {
                    RusticAction::Snapshots | RusticAction::Diff => {
                        push_str(&mut s, stderr.as_str());
                    },
                    _ => {
                        push_str(&mut s, stdout.as_str());
                        push_str(&mut s, "\n");
                        push_str(&mut s, stderr.as_str());
                    },
                }
            },
            RusticError::MissingSnapshotId { stdout, stderr } => {
                push_str(&mut s, "无法解析快照ID，输出:\n");
                push_str(&mut s, stdout.as_str());
                push_str(&mut s, "\n");
                push_str(&mut s, stderr.as_str());
            },
            RusticError::InvalidSnapshotList { detail } => {
                push_str(&mut s, "解析快照JSON失败: ");
                push_str(&mut s, detail.as_str());
            },
        }
        s
    }
}

// ---------------------------------------------------------------------------
// Human readable sizes
// ---------------------------------------------------------------------------

/// `n / d` rounded to the nearest integer, a tie to the even one.
pub open spec fn round_half_even(n: nat, d: nat) -> nat {
    let q = n / d;
    let r = n % d;
    if 2 * r > d || (2 * r == d && q % 2 == 1) {
        q + 1
    } else {
        q
    }
}

/// The value of `b` rounded to a binary floating-point number with a 53-bit
/// significand: `d` is the least power of two, from the given one on and at
/// most 2^11, for which `b < 2^53 * d`; `b` is rounded to a multiple of `d`.
pub open spec fn float_round_from(b: nat, s: nat, d: nat) -> nat
    decreases 11 - s,
{
    if s >= 11 || b < 9007199254740992 * d {
        round_half_even(b, d) * d
    } else {
        float_round_from(b, s + 1, 2 * d)
    }
}

/// The exact value of `bytes as f64`.
pub open spec fn as_float_value(b: nat) -> nat {
    float_round_from(b, 0, 1)
}

/// Index into B, KB, MB, GB, TB: how often a value of at least 1024 is divided
/// by 1024, at most four times.
pub open spec fn size_unit_index(v: nat) -> nat {
    if v >= 1099511627776 {
        4
    } else if v >= 1073741824 {
        3
    } else if v >= 1048576 {
        2
    } else if v >= 1024 {
        1
    } else {
        0
    }
}

pub open spec fn size_unit_divisor(k: nat) -> nat {
    if k == 0 {
        1
    } else if k == 1 {
        1024
    } else if k == 2 {
        1048576
    } else if k == 3 {
        1073741824
    } else {
        1099511627776
    }
}

pub open spec fn size_unit_name(k: nat) -> Seq<char> {
    if k == 0 {
        seq!['B']
    } else if k == 1 {
        seq!['K', 'B']
    } else if k == 2 {
        seq!['M', 'B']
    } else if k == 3 {
        seq!['G', 'B']
    } else {
        seq!['T', 'B']
    }
}

/// `n / 10^places` written with `places` (1 or 2) decimals.
pub open spec fn fixed_point(n: nat, places: nat) -> Seq<char> {
    if places == 1 {
        decimal(n / 10) + seq!['.'] + decimal(n % 10)
    } else {
        decimal(n / 100) + seq!['.'] + decimal2(n % 100)
    }
}

pub open spec fn ten_pow(places: nat) -> nat {
    if places == 1 {
        10
    } else {
        100
    }
}

/// A byte count in the largest unit (up to TB) that leaves a value of at least
/// one, with `places` decimals: the floating-point value of the count divided
/// by the unit, rounded half to even, then a space and the unit.
pub open spec fn size_text(bytes: nat, places: nat) -> Seq<char> {
    let v = as_float_value(bytes);
    let k = size_unit_index(v);
    let n = round_half_even(v * ten_pow(places), size_unit_divisor(k));
    fixed_point(n, places) + seq![' '] + size_unit_name(k)
}

pub open spec fn two_pow(n: nat) -> nat
    decreases n,
{
    if n == 0 {
        1
    } else {
        2 * two_pow((n - 1) as nat)
    }
}

proof fn lemma_two_pow_monotone(a: nat, b: nat)
    requires
        a <= b,
    ensures
        two_pow(a) <= two_pow(b),
    decreases b,
{
    if a < b {
        lemma_two_pow_monotone(a, (b - 1) as nat);
    }
}

fn round_half_even_exec(n: u128, d: u128) -> (r: u128)
    requires
        0 < d <= 1099511627776,
        n < u128::MAX,
    ensures
        r == round_half_even(n as nat, d as nat),
{
    let q = n / d;
    let r = n % d;
    assert(r < d) by (nonlinear_arith)
        requires
            d > 0,
            r == n % d,
    ;
    assert(q <= n) by (nonlinear_arith)
        requires
            d > 0,
            q == n / d,
    ;
    if 2 * r > d || (2 * r == d && q % 2 == 1) {
        q + 1
    } else {
        q
    }
}

/// Renders a byte count with `places` (1 or 2) decimals and a unit.
pub fn size_with_places(bytes: u64, places: u64) -> (s: String)
    requires
        places == 1 || places == 2,
    ensures
        s@ == size_text(bytes as nat, places as nat),
{
    let b = bytes as u128;
    let mut s: u64 = 0;
    let mut d: u128 = 1;
    proof {
        reveal_with_fuel(two_pow, 12);
    }
    while s < 11 && b >= 9007199254740992 * d
        invariant
            s <= 11,
            d == two_pow(s as nat),
            d <= 2048,
            b < 18446744073709551616,
            as_float_value(b as nat) == float_round_from(b as nat, s as nat, d as nat),
        decreases 11 - s,
    {
        proof {
            lemma_two_pow_monotone(s as nat, 10);
            assert(two_pow(10) == 1024) by {
                reveal_with_fuel(two_pow, 11);
            }
        }
        s = s + 1;
        d = 2 * d;
    }
    proof {
        lemma_two_pow_monotone(s as nat, 11);
        assert(two_pow(11) == 2048) by {
            reveal_with_fuel(two_pow, 12);
        }
    }
    let q = round_half_even_exec(b, d);
    assert(q <= b / d + 1);
    assert(q * d <= b + d) by (nonlinear_arith)
        requires
            q <= b / d + 1,
            d > 0,
    ;
    let v = q * d;
    let k: u64 = if v >= 1099511627776 {
        4
    } else if v >= 1073741824 {
        3
    } else if v >= 1048576 {
        2
    } else if v >= 1024 {
        1
    } else {
        0
    };
    let div: u128 = if k == 0 {
        1
    } else if k == 1 {
        1024
    } else if k == 2 {
        1048576
    } else if k == 3 {
        1073741824
    } else {
        1099511627776
    };
    let scale: u128 = if places == 1 {
        10
    } else {
        100
    };
    let n = round_half_even_exec(v * scale, div);
    let mut out: Vec<char> = Vec::new();
    push_decimal_wide(&mut out, n / scale);
    out.push('.');
    if places == 1 {
        push_decimal_wide(&mut out, n % 10);
    } else {
        let frac = (n % 100) as u64;
        push_decimal2(&mut out, frac);
    }
    out.push(' ');
    if k == 0 {
        out.push('B');
    } else {
        if k == 1 {
            out.push('K');
        } else if k == 2 {
            out.push('M');
        } else if k == 3 {
            out.push('G');
        } else {
            out.push('T');
        }
        out.push('B');
    }
    assert(out@ =~= size_text(bytes as nat, places as nat));
    string_from(&out)
}

/// A byte count with two decimals and a unit, such as `1.50 KB`.
pub fn format_size(bytes: u64) -> (s: String)
    ensures
        s@ == size_text(bytes as nat, 2),
{
    size_with_places(bytes, 2)
}

} // verus!
