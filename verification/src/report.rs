//! The Markdown report sent at the end of a run.
use vstd::prelude::*;
use crate::rustic::{format_size, size_text};
use crate::scheduler::TaskResult;
use crate::text::{char_vec_views, chars_of, decimal, extend_chars, join_chars, join_strings, joined,
    push_decimal, string_from, string_views, byte_len_at_least, byte_prefix, cuttable_at, take_bytes, utf8_len};

verus! {

broadcast use vstd::string::group_string_axioms;

pub open spec fn scanned_total(results: Seq<TaskResult>) -> nat
    decreases results.len(),
{
    if results.len() == 0 {
        0
    } else {
        scanned_total(results.drop_last()) + results.last().files_scanned as nat
    }
}

pub open spec fn size_total(results: Seq<TaskResult>) -> nat
    decreases results.len(),
{
    if results.len() == 0 {
        0
    } else {
        size_total(results.drop_last()) + results.last().files_size as nat
    }
}

pub open spec fn all_succeeded(results: Seq<TaskResult>) -> bool {
    forall|i: int| 0 <= i < results.len() ==> #[trigger] results[i].success
}

/// The first eight bytes of a snapshot id, or `无` when there is none.
#[verifier::opaque]
pub open spec fn short_id(id: Option<String>) -> Seq<char> {
    match id {
        Some(s) => if utf8_len(s@) >= 8 {
            byte_prefix(s@, 8)
        } else {
            s@
        },
        None => "无"@,
    }
}

pub open spec fn changed_line(r: TaskResult) -> Seq<Seq<char>> {
    let n = r.changed_files.len();
    if n != 0 && n <= 10 {
        seq![">   🔄 变化文件: "@ + joined(string_views(r.changed_files@), ", "@)]
    } else if n > 10 {
        seq![">   🔄 变化文件: "@ + decimal(n as nat) + " 个"@]
    } else {
        seq![]
    }
}

/// The lines that describe one task.
pub open spec fn result_lines(r: TaskResult) -> Seq<Seq<char>> {
    seq![
        "> **"@ + r.task_name@ + "**: "@ + (if r.success { "成功"@ } else { "失败"@ }) + " ("@
            + decimal(r.files_scanned as nat) + "个/"@ + size_text(r.files_size as nat, 2) + ")"@,
        ">   发送: "@ + r.send_type@ + " "@ + (if r.send_success { "✅"@ } else { "❌"@ })
            + " | 快照: "@ + short_id(r.snapshot_id),
    ] + (if r.is_first_run {
        seq![">   ℹ️ 首次运行"@]
    } else {
        seq![]
    }) + changed_line(r) + match r.wedrive_path {
        Some(p) => seq![">   📁 微盘: "@ + p@],
        None => seq![],
    } + match r.error {
        Some(e) => seq![">   ❌ 错误: "@ + e@],
        None => seq![],
    }
}

pub open spec fn all_result_lines(results: Seq<TaskResult>) -> Seq<Seq<char>>
    decreases results.len(),
{
    if results.len() == 0 {
        seq![]
    } else {
        all_result_lines(results.drop_last()) + result_lines(results.last())
    }
}

/// The lines of the report: a heading with the overall status, the time,
/// the totals, the tasks, and a footer.
pub open spec fn report_lines(results: Seq<TaskResult>, now: Seq<char>) -> Seq<Seq<char>> {
    seq![
        "### "@ + (if all_succeeded(results) { "✅"@ } else { "⚠️"@ }) + " 备份报告"@,
        Seq::empty(),
        "**📅 备份时间**: "@ + now,
        Seq::empty(),
        "**📊 备份统计**"@,
        "> 扫描文件: "@ + decimal(scanned_total(results)) + " 个"@,
        "> 总大小: "@ + size_text(size_total(results), 2),
        Seq::empty(),
        "**📂 各任务详情**"@,
    ] + all_result_lines(results) + seq![Seq::empty(), "---"@, "*自动备份任务 · rustic-backup-rs*"@]
}

/// The report, its lines joined with line breaks.
pub open spec fn report_text(results: Seq<TaskResult>, now: Seq<char>) -> Seq<char> {
    joined(report_lines(results, now), seq!['\n'])
}

fn push_line(lines: &mut Vec<Vec<char>>, line: Vec<char>)
    ensures
        char_vec_views(final(lines)@) == char_vec_views(old(lines)@).push(line@),
{
    lines.push(line);
    assert(char_vec_views(final(lines)@) =~= char_vec_views(old(lines)@).push(line@));
}

fn push_text(v: &mut Vec<char>, s: &str)
    ensures
        final(v)@ == old(v)@ + s@,
{
    extend_chars(v, &chars_of(s));
}

fn short_id_chars(id: &Option<String>) -> (r: Vec<char>)
    requires
        id matches Some(s) ==> cuttable_at(s@, 8),
    ensures
        r@ == short_id(*id),
{
    reveal(short_id);
    reveal(cuttable_at);
    match id {
        Some(s) => {
            let c = chars_of(s.as_str());
            if byte_len_at_least(&c, 8) {
                take_bytes(&c, 8)
            } else {
                c
            }
        },
        None => chars_of("无"),
    }
}

fn task_lines(r: &TaskResult) -> (lines: Vec<Vec<char>>)
    requires
        r.snapshot_id matches Some(id) ==> cuttable_at(id@, 8),
    ensures
        char_vec_views(lines@) == result_lines(*r),
{
    let mut lines: Vec<Vec<char>> = Vec::new();
    let mut l1 = chars_of("> **");
    push_text(&mut l1, r.task_name.as_str());
    push_text(&mut l1, "**: ");
    push_text(&mut l1, if r.success { "成功" } else { "失败" });
    push_text(&mut l1, " (");
    push_decimal(&mut l1, r.files_scanned);
    push_text(&mut l1, "个/");
    push_text(&mut l1, format_size(r.files_size).as_str());
    push_text(&mut l1, ")");
    push_line(&mut lines, l1);
    let mut l2 = chars_of(">   发送: ");
    push_text(&mut l2, r.send_type.as_str());
    push_text(&mut l2, " ");
    push_text(&mut l2, if r.send_success { "✅" } else { "❌" });
    push_text(&mut l2, " | 快照: ");
    extend_chars(&mut l2, &short_id_chars(&r.snapshot_id));
    push_line(&mut lines, l2);
    let ghost head = char_vec_views(lines@);
    if r.is_first_run {
        push_line(&mut lines, chars_of(">   ℹ️ 首次运行"));
    }
    let ghost with_first = char_vec_views(lines@);
    let n = r.changed_files.len();
    if n != 0 && n <= 10 {
        let mut l = chars_of(">   🔄 变化文件: ");
        push_text(&mut l, join_strings(&r.changed_files, ", ").as_str());
        push_line(&mut lines, l);
    } else if n > 10 {
        let mut l = chars_of(">   🔄 变化文件: ");
        push_decimal(&mut l, n as u64);
        push_text(&mut l, " 个");
        push_line(&mut lines, l);
    }
    let ghost with_changed = char_vec_views(lines@);
    assert(with_changed =~= with_first + changed_line(*r));
    match &r.wedrive_path {
        Some(p) => {
            let mut l = chars_of(">   📁 微盘: ");
            push_text(&mut l, p.as_str());
            push_line(&mut lines, l);
        },
        None => {},
    }
    let ghost with_wedrive = char_vec_views(lines@);
    match &r.error {
        Some(e) => {
            let mut l = chars_of(">   ❌ 错误: ");
            push_text(&mut l, e.as_str());
            push_line(&mut lines, l);
        },
        None => {},
    }
    assert(char_vec_views(lines@) =~= result_lines(*r));
    lines
}

/// The Markdown report of a run (`now` is the time it is written at).
pub fn summary_markdown(results: &Vec<TaskResult>, now: &str) -> (s: String)
    requires
        scanned_total(results@) <= u64::MAX,
        size_total(results@) <= u64::MAX,
        forall|i: int| 0 <= i < results.len() ==> (#[trigger] results@[i].snapshot_id matches Some(id)
            ==> cuttable_at(id@, 8)),
    ensures
        s@ == report_text(results@, now@),
{
    let mut total_files: u64 = 0;
    let mut total_size: u64 = 0;
    let mut all_ok = true;
    let mut body: Vec<Vec<char>> = Vec::new();
    for i in 0..results.len()
        invariant
            scanned_total(results@) <= u64::MAX,
            size_total(results@) <= u64::MAX,
            forall|i: int| 0 <= i < results.len() ==> (#[trigger] results@[i].snapshot_id matches Some(id)
                ==> cuttable_at(id@, 8)),
            total_files as nat == scanned_total(results@.take(i as int)),
            total_size as nat == size_total(results@.take(i as int)),
            all_ok == all_succeeded(results@.take(i as int)),
            char_vec_views(body@) == all_result_lines(results@.take(i as int)),
    {
        let r = &results[i];
        let ghost pre = results@.take(i as int);
        assert(results@.take(i + 1).drop_last() =~= pre);
        assert(results@.take(i + 1).last() == *r);
        proof {
            lemma_totals_prefix(results@, i + 1);
        }
        total_files = total_files + r.files_scanned;
        total_size = total_size + r.files_size;
        all_ok = all_ok && r.success;
        proof {
            if all_ok {
                assert forall|j: int| 0 <= j < i + 1 implies #[trigger] results@.take(i + 1)[j].success by {
                    if j < i {
                        assert(results@.take(i + 1)[j] == pre[j]);
                    }
                }
            } else if !r.success {
                assert(!results@.take(i + 1)[i as int].success);
            } else {
                let j = choose|j: int| 0 <= j < pre.len() && !pre[j].success;
                assert(!results@.take(i + 1)[j].success);
            }
        }
        let tl = task_lines(r);
        let ghost before = char_vec_views(body@);
        for k in 0..tl.len()
            invariant
                char_vec_views(body@) == before + char_vec_views(tl@).take(k as int),
        {
            let l = tl[k].clone();
            assert(l@ == tl[k as int]@);
            push_line(&mut body, l);
            assert(char_vec_views(tl@).take(k + 1) =~= char_vec_views(tl@).take(k as int).push(tl[k as int]@));
        }
        assert(char_vec_views(tl@).take(tl.len() as int) =~= char_vec_views(tl@));
    }
    assert(results@.take(results.len() as int) =~= results@);
    let mut lines: Vec<Vec<char>> = Vec::new();
    let mut h = chars_of("### ");
    push_text(&mut h, if all_ok { "✅" } else { "⚠️" });
    push_text(&mut h, " 备份报告");
    push_line(&mut lines, h);
    push_line(&mut lines, Vec::new());
    let mut t = chars_of("**📅 备份时间**: ");
    push_text(&mut t, now);
    push_line(&mut lines, t);
    push_line(&mut lines, Vec::new());
    push_line(&mut lines, chars_of("**📊 备份统计**"));
    let mut f = chars_of("> 扫描文件: ");
    push_decimal(&mut f, total_files);
    push_text(&mut f, " 个");
    push_line(&mut lines, f);
    let mut z = chars_of("> 总大小: ");
    push_text(&mut z, format_size(total_size).as_str());
    push_line(&mut lines, z);
    push_line(&mut lines, Vec::new());
    push_line(&mut lines, chars_of("**📂 各任务详情**"));
    let ghost head = char_vec_views(lines@);
    for k in 0..body.len()
        invariant
            char_vec_views(lines@) == head + char_vec_views(body@).take(k as int),
    {
        let l = body[k].clone();
        assert(l@ == body[k as int]@);
        push_line(&mut lines, l);
        assert(char_vec_views(body@).take(k + 1) =~= char_vec_views(body@).take(k as int).push(body[k as int]@));
    }
    assert(char_vec_views(body@).take(body.len() as int) =~= char_vec_views(body@));
    push_line(&mut lines, Vec::new());
    push_line(&mut lines, chars_of("---"));
    push_line(&mut lines, chars_of("*自动备份任务 · rustic-backup-rs*"));
    assert(char_vec_views(lines@) =~= report_lines(results@, now@));
    let text = join_chars(&lines, "\n");
    proof {
        reveal_strlit("\n");
        assert("\n"@ =~= seq!['\n']);
    }
    string_from(&text)
}

proof fn lemma_totals_prefix(results: Seq<TaskResult>, k: int)
    requires
        0 <= k <= results.len(),
    ensures
        scanned_total(results.take(k)) <= scanned_total(results),
        size_total(results.take(k)) <= size_total(results),
    decreases results.len() - k,
{
    if k < results.len() {
        lemma_totals_prefix(results.drop_last(), k);
        assert(results.drop_last().take(k) =~= results.take(k));
    } else {
        assert(results.take(k) =~= results);
    }
}

} // verus!
