//! The Windows scheduled task (`schtasks`) that runs the backups daily.
use vstd::prelude::*;
use crate::text::{chars_of, lines_of, string_from, string_views, char_vec_views, text_lines, sub_chars,
    push_str};

verus! {

broadcast use vstd::string::group_string_axioms;

/// What `encoding_rs::GBK.decode` makes of some bytes: GBK text (or the
/// encoding its byte order mark names), with malformed sequences replaced.
pub uninterp spec fn spec_gbk_decode(bytes: Seq<u8>) -> Seq<char>;

/// `encoding_rs::GBK.decode`, the text of `schtasks` output on Chinese Windows.
#[verifier::external_body]
pub(crate) fn decode_gbk(bytes: &Vec<u8>) -> (s: String)
    requires
        bytes.len() <= usize::MAX / 4,
    ensures
        s@ == spec_gbk_decode(bytes@),
{
    let (text, _, _) = encoding_rs::GBK.decode(bytes.as_slice());
    text.to_string()
}

/// The scheduled task, by name.
pub struct TaskScheduler {
    pub task_name: String,
}

/// What `schtasks /Query /V` reports of the task.
pub struct TaskStatus {
    pub name: String,
    pub status: String,
    pub next_run: String,
    pub last_run: String,
    pub last_result: String,
}

pub enum PlanError {
    /// `install` on a task that exists already.
    AlreadyInstalled { name: String },
    /// `uninstall` of a task that does not exist.
    NotInstalled { name: String },
    /// `schtasks` failed; what it printed.
    CreateFailed { detail: String },
    DeleteFailed { detail: String },
    QueryFailed { name: String },
    /// The report of `schtasks` has no line for the task.
    UnreadableStatus,
}

/// Index of the first `c` at or after `i`, or the length when there is none.
pub open spec fn index_of_from(s: Seq<char>, c: char, i: int) -> int
    decreases s.len() - i,
{
    if i < 0 || i >= s.len() {
        s.len() as int
    } else if s[i] == c {
        i
    } else {
        index_of_from(s, c, i + 1)
    }
}

proof fn lemma_index_of_from(s: Seq<char>, c: char, i: int, m: int)
    requires
        0 <= i <= m <= s.len(),
        forall|j: int| i <= j < m ==> #[trigger] s[j] != c,
        m == s.len() || s[m] == c,
    ensures
        index_of_from(s, c, i) == m,
    decreases m - i,
{
    if i < m {
        lemma_index_of_from(s, c, i + 1, m);
    }
}

proof fn lemma_index_of_from_bounds(s: Seq<char>, c: char, i: int)
    requires
        0 <= i,
    ensures
        index_of_from(s, c, i) <= s.len(),
        i <= index_of_from(s, c, i) || index_of_from(s, c, i) == s.len(),
    decreases s.len() - i,
{
    if i < s.len() && s[i] != c {
        lemma_index_of_from_bounds(s, c, i + 1);
    }
}

/// The pieces of `s` between the separators `c` (`str::split`); at least one.
pub open spec fn split_on(s: Seq<char>, c: char) -> Seq<Seq<char>>
    decreases s.len(),
{
    let k = index_of_from(s, c, 0);
    if k >= s.len() || k < 0 {
        seq![s]
    } else {
        seq![s.take(k)] + split_on(s.skip(k + 1), c)
    }
}

/// `s` without the characters `c` at either end (`str::trim_matches`).
pub open spec fn strip_char(s: Seq<char>, c: char) -> Seq<char>
    decreases s.len(),
{
    if s.len() > 0 && s[0] == c {
        strip_char(s.drop_first(), c)
    } else if s.len() > 0 && s.last() == c {
        strip_char(s.drop_last(), c)
    } else {
        s
    }
}

/// Splits `s` at every `c`.
pub fn split_chars(s: &Vec<char>, c: char) -> (r: Vec<Vec<char>>)
    ensures
        char_vec_views(r@) == split_on(s@, c),
{
    let mut out: Vec<Vec<char>> = Vec::new();
    let mut cur: Vec<char> = Vec::new();
    let mut start: usize = 0;
    assert(s@.skip(0) =~= s@);
    for i in 0..s.len()
        invariant
            start <= i,
            cur@ == s@.subrange(start as int, i as int),
            forall|j: int| start <= j < i ==> #[trigger] s@[j] != c,
            char_vec_views(out@) + split_on(s@.skip(start as int), c) == split_on(s@, c),
    {
        if s[i] == c {
            let ghost t = s@.skip(start as int);
            proof {
                assert forall|j: int| 0 <= j < i - start implies #[trigger] t[j] != c by {
                    assert(t[j] == s@[j + start]);
                }
                lemma_index_of_from(t, c, 0, i - start);
                assert(t.take(i - start) =~= cur@);
                assert(t.skip(i - start + 1) =~= s@.skip(i + 1));
            }
            let ghost before = out@;
            out.push(cur);
            assert(char_vec_views(out@) =~= char_vec_views(before).push(cur@));
            assert(char_vec_views(out@) + split_on(s@.skip(i + 1), c) =~= char_vec_views(before)
                + split_on(t, c));
            cur = Vec::new();
            start = i + 1;
            assert(s@.subrange(start as int, start as int) =~= Seq::<char>::empty());
        } else {
            cur.push(s[i]);
            assert(s@.subrange(start as int, i + 1) =~= s@.subrange(start as int, i as int).push(s@[i as int]));
        }
    }
    let ghost t = s@.skip(start as int);
    proof {
        assert forall|j: int| 0 <= j < t.len() implies #[trigger] t[j] != c by {
            assert(t[j] == s@[j + start]);
        }
        lemma_index_of_from(t, c, 0, t.len() as int);
        assert(cur@ =~= t);
    }
    let ghost before = out@;
    out.push(cur);
    assert(char_vec_views(out@) =~= char_vec_views(before).push(t));
    assert(split_on(t, c) =~= seq![t]);
    out
}

/// Removes the characters `c` at either end.
pub fn strip_char_exec(s: &Vec<char>, c: char) -> (r: Vec<char>)
    ensures
        r@ == strip_char(s@, c),
{
    let mut i: usize = 0;
    let mut j: usize = s.len();
    assert(s@.subrange(0, s.len() as int) =~= s@);
    while i < j && (s[i] == c || s[j - 1] == c)
        invariant
            i <= j <= s.len(),
            strip_char(s@, c) == strip_char(s@.subrange(i as int, j as int), c),
        decreases j - i,
    {
        let ghost t = s@.subrange(i as int, j as int);
        if s[i] == c {
            assert(t.drop_first() =~= s@.subrange(i + 1, j as int));
            i += 1;
        } else {
            assert(t.drop_last() =~= s@.subrange(i as int, j - 1));
            j -= 1;
        }
    }
    assert(s@.subrange(0, s.len() as int) =~= s@);
    sub_chars(s, i, j)
}

/// Field `k` of a CSV line without its quotes, or empty when there is none.
pub open spec fn csv_field(fields: Seq<Seq<char>>, k: int) -> Seq<char> {
    if 0 <= k < fields.len() {
        strip_char(fields[k], '"')
    } else {
        Seq::empty()
    }
}

/// The status in the second line of `schtasks /Query /FO CSV /V`: fields 2,
/// 3, 5 and 6 of it, split at commas.
pub open spec fn status_from_report(name: Seq<char>, report: Seq<char>) -> Option<(Seq<char>, Seq<char>, Seq<char>, Seq<char>)> {
    let lines = text_lines(report);
    if lines.len() < 2 {
        None
    } else {
        let fields = split_on(lines[1], ',');
        Some((csv_field(fields, 1), csv_field(fields, 2), csv_field(fields, 4), csv_field(fields, 5)))
    }
}

fn field_text(fields: &Vec<Vec<char>>, k: usize) -> (r: String)
    ensures
        r@ == csv_field(char_vec_views(fields@), k as int),
{
    if k < fields.len() {
        string_from(&strip_char_exec(&fields[k], '"'))
    } else {
        String::new()
    }
}

impl TaskScheduler {
    pub fn new(task_name: &str) -> (r: TaskScheduler)
        ensures
            r.task_name@ == task_name@,
    {
        TaskScheduler { task_name: task_name.to_string() }
    }

    /// `install` refuses a task that exists already.
    pub fn install_check(&self, installed: bool) -> (r: Result<(), PlanError>)
        ensures
            installed ==> r == Err::<(), PlanError>(PlanError::AlreadyInstalled { name: self.task_name }),
            !installed ==> r is Ok,
    {
        if installed {
            Err(PlanError::AlreadyInstalled { name: self.task_name.clone() })
        } else {
            Ok(())
        }
    }

    /// `/Create /TN <name> /TR "<exe>" run /SC DAILY /ST <time> /F`.
    pub fn install_args(&self, exe_path: &str, time: &str) -> (r: Vec<String>)
        ensures
            string_views(r@) == seq!["/Create"@, "/TN"@, self.task_name@, "/TR"@,
                "\""@ + exe_path@ + "\" run"@, "/SC"@, "DAILY"@, "/ST"@, time@, "/F"@],
    {
        let mut command = "\"".to_string();
        push_str(&mut command, exe_path);
        push_str(&mut command, "\" run");
        let mut v: Vec<String> = Vec::new();
        v.push("/Create".to_string());
        v.push("/TN".to_string());
        v.push(self.task_name.clone());
        v.push("/TR".to_string());
        v.push(command);
        v.push("/SC".to_string());
        v.push("DAILY".to_string());
        v.push("/ST".to_string());
        v.push(time.to_string());
        v.push("/F".to_string());
        assert(string_views(v@) =~= seq!["/Create"@, "/TN"@, self.task_name@, "/TR"@,
                "\""@ + exe_path@ + "\" run"@, "/SC"@, "DAILY"@, "/ST"@, time@, "/F"@]);
        v
    }

    /// The outcome of `schtasks /Create`.
    pub fn install(&self, succeeded: bool, stdout: &Vec<u8>, stderr: &Vec<u8>) -> (r: Result<(), PlanError>)
        requires
            stdout.len() <= usize::MAX / 4,
            stderr.len() <= usize::MAX / 4,
        ensures
            succeeded ==> r is Ok,
            !succeeded ==> (r matches Err(PlanError::CreateFailed { detail })
                && detail@ == spec_gbk_decode(stderr@) + spec_gbk_decode(stdout@)),
    {
        if succeeded {
            return Ok(());
        }
        let mut detail = decode_gbk(stderr);
        let out = decode_gbk(stdout);
        push_str(&mut detail, out.as_str());
        Err(PlanError::CreateFailed { detail })
    }

    /// `uninstall` refuses a task that does not exist.
    pub fn uninstall_check(&self, installed: bool) -> (r: Result<(), PlanError>)
        ensures
            !installed ==> r == Err::<(), PlanError>(PlanError::NotInstalled { name: self.task_name }),
            installed ==> r is Ok,
    {
        if !installed {
            Err(PlanError::NotInstalled { name: self.task_name.clone() })
        } else {
            Ok(())
        }
    }

    /// `/Delete /TN <name> /F`.
    pub fn uninstall_args(&self) -> (r: Vec<String>)
        ensures
            string_views(r@) == seq!["/Delete"@, "/TN"@, self.task_name@, "/F"@],
    {
        let mut v: Vec<String> = Vec::new();
        v.push("/Delete".to_string());
        v.push("/TN".to_string());
        v.push(self.task_name.clone());
        v.push("/F".to_string());
        assert(string_views(v@) =~= seq!["/Delete"@, "/TN"@, self.task_name@, "/F"@]);
        v
    }

    /// The outcome of `schtasks /Delete`.
    pub fn uninstall(&self, succeeded: bool, stderr: &Vec<u8>) -> (r: Result<(), PlanError>)
        requires
            stderr.len() <= usize::MAX / 4,
        ensures
            succeeded ==> r is Ok,
            !succeeded ==> (r matches Err(PlanError::DeleteFailed { detail }) && detail@ == spec_gbk_decode(stderr@)),
    {
        if succeeded {
            return Ok(());
        }
        Err(PlanError::DeleteFailed { detail: decode_gbk(stderr) })
    }

    /// `/Query /TN <name> /FO CSV`, which succeeds when the task exists.
    pub fn query_args(&self) -> (r: Vec<String>)
        ensures
            string_views(r@) == seq!["/Query"@, "/TN"@, self.task_name@, "/FO"@, "CSV"@],
    {
        let mut v: Vec<String> = Vec::new();
        v.push("/Query".to_string());
        v.push("/TN".to_string());
        v.push(self.task_name.clone());
        v.push("/FO".to_string());
        v.push("CSV".to_string());
        assert(string_views(v@) =~= seq!["/Query"@, "/TN"@, self.task_name@, "/FO"@, "CSV"@]);
        v
    }

    /// `/Query /TN <name> /FO CSV /V`.
    pub fn status_args(&self) -> (r: Vec<String>)
        ensures
            string_views(r@) == seq!["/Query"@, "/TN"@, self.task_name@, "/FO"@, "CSV"@, "/V"@],
    {
        let mut v = self.query_args();
        let ghost before = v@;
        v.push("/V".to_string());
        assert(string_views(v@) =~= string_views(before).push("/V"@));
        assert(string_views(v@) =~= seq!["/Query"@, "/TN"@, self.task_name@, "/FO"@, "CSV"@, "/V"@]);
        v
    }

    /// The status that `schtasks /Query /FO CSV /V` reported.
    pub fn status(&self, succeeded: bool, stdout: &Vec<u8>) -> (r: Result<TaskStatus, PlanError>)
        requires
            stdout.len() <= usize::MAX / 4,
        ensures
            !succeeded ==> (r matches Err(PlanError::QueryFailed { name }) && name == self.task_name),
            succeeded ==> match status_from_report(self.task_name@, spec_gbk_decode(stdout@)) {
                None => r matches Err(PlanError::UnreadableStatus),
                Some((status, next_run, last_run, last_result)) => (r matches Ok(st) && st.name
                    == self.task_name && st.status@ == status && st.next_run@ == next_run
                    && st.last_run@ == last_run && st.last_result@ == last_result),
            },
    {
        if !succeeded {
            return Err(PlanError::QueryFailed { name: self.task_name.clone() });
        }
        let text = decode_gbk(stdout);
        let lines = lines_of(&chars_of(text.as_str()));
        if lines.len() < 2 {
            return Err(PlanError::UnreadableStatus);
        }
        let fields = split_chars(&lines[1], ',');
        Ok(TaskStatus {
            name: self.task_name.clone(),
            status: field_text(&fields, 1),
            next_run: field_text(&fields, 2),
            last_run: field_text(&fields, 4),
            last_result: field_text(&fields, 5),
        })
    }
}

impl PlanError {
    /// How the error reads on the console.
    pub fn text(&self) -> (s: String)
        ensures
            s@ == match *self {
                PlanError::AlreadyInstalled { name } => "计划任务已存在: "@ + name@ + "（请先 uninstall）"@,
                PlanError::NotInstalled { name } => "计划任务不存在: "@ + name@,
                PlanError::CreateFailed { detail } => "创建计划任务失败: "@ + detail@,
                PlanError::DeleteFailed { detail } => "删除计划任务失败: "@ + detail@,
                PlanError::QueryFailed { name } => "查询计划任务失败: "@ + name@,
                PlanError::UnreadableStatus => "无法解析计划任务信息"@,
            },
    {
        let mut s = String::new();
        match self {
            PlanError::AlreadyInstalled { name } => {
                push_str(&mut s, "计划任务已存在: ");
                push_str(&mut s, name.as_str());
                push_str(&mut s, "（请先 uninstall）");
            },
            PlanError::NotInstalled { name } => {
                push_str(&mut s, "计划任务不存在: ");
                push_str(&mut s, name.as_str());
            },
            PlanError::CreateFailed { detail } => {
                push_str(&mut s, "创建计划任务失败: ");
                push_str(&mut s, detail.as_str());
            },
            PlanError::DeleteFailed { detail } => {
                push_str(&mut s, "删除计划任务失败: ");
                push_str(&mut s, detail.as_str());
            },
            PlanError::QueryFailed { name } => {
                push_str(&mut s, "查询计划任务失败: ");
                push_str(&mut s, name.as_str());
            },
            PlanError::UnreadableStatus => {
                push_str(&mut s, "无法解析计划任务信息");
            },
        }
        s
    }
}

} // verus!
