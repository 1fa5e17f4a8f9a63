//! How the sending of archives is recorded in a task's result, and the
//! names and texts that go with archives cut into volumes, parts and chunks.
use vstd::prelude::*;
use crate::rustic::{format_size, size_text};
use crate::scheduler::{parts_summary, TaskResult};
use crate::text::{decimal, decimal2, push_decimal2, push_str, string_from, string_views, trim, lines_of, chars_of, trim_chars, text_lines};
use crate::wedrive::WedriveResult;

verus! {

broadcast use vstd::string::group_string_axioms;

/// Whether `new` is `old` with at most the sending fields changed.
pub open spec fn same_but_sending(old: TaskResult, new: TaskResult) -> bool {
    &&& new.task_name == old.task_name
    &&& new.success == old.success
    &&& new.snapshot_id == old.snapshot_id
    &&& new.files_scanned == old.files_scanned
    &&& new.files_size == old.files_size
    &&& new.files_sent == old.files_sent
    &&& new.is_first_run == old.is_first_run
    &&& new.changed_files == old.changed_files
}

/// `<base>.zip`, the single archive of a task.
pub fn zip_name(base: &str) -> (s: String)
    ensures
        s@ == base@ + ".zip"@,
{
    let mut s = base.to_string();
    push_str(&mut s, ".zip");
    s
}

/// Records that no file could be copied for sending.
pub fn record_nothing_copied(result: &mut TaskResult)
    ensures
        final(result).send_type@ == "无文件可发"@,
        final(result).send_success == old(result).send_success,
        final(result).error == old(result).error,
        final(result).wedrive_path == old(result).wedrive_path,
        same_but_sending(*old(result), *final(result)),
{
    result.send_type = "无文件可发".to_string();
}

/// Records the outcome of sending the archive through the webhook.
pub fn record_webhook_file(result: &mut TaskResult, outcome: Result<(), String>)
    ensures
        final(result).send_type@ == "webhook直发"@,
        match outcome {
            Ok(()) => final(result).send_success && final(result).error == old(result).error,
            Err(e) => !final(result).send_success
                && (final(result).error matches Some(m) && m@ == "发送失败: "@ + e@),
        },
        final(result).wedrive_path == old(result).wedrive_path,
        same_but_sending(*old(result), *final(result)),
{
    result.send_type = "webhook直发".to_string();
    match outcome {
        Ok(()) => {
            result.send_success = true;
        },
        Err(e) => {
            result.send_success = false;
            let mut m = "发送失败: ".to_string();
            push_str(&mut m, e.as_str());
            result.error = Some(m);
        },
    }
}

/// Records the outcome of uploading the archive to WeDrive: its path there
/// on success, else the error that the upload reported or met.
pub fn record_wedrive_upload(result: &mut TaskResult, outcome: Result<WedriveResult, String>)
    ensures
        final(result).send_type@ == "微盘上传"@,
        match outcome {
            Ok(w) => if w.success {
                final(result).send_success && final(result).wedrive_path == w.file_path
                    && final(result).error == old(result).error
            } else {
                !final(result).send_success && final(result).error == w.error
                    && final(result).wedrive_path == old(result).wedrive_path
            },
            Err(e) => !final(result).send_success
                && (final(result).error matches Some(m) && m@ == "微盘异常: "@ + e@)
                && final(result).wedrive_path == old(result).wedrive_path,
        },
        same_but_sending(*old(result), *final(result)),
{
    result.send_type = "微盘上传".to_string();
    match outcome {
        Ok(w) => {
            if w.success {
                result.send_success = true;
                result.wedrive_path = w.file_path;
            } else {
                result.send_success = false;
                result.error = w.error;
            }
        },
        Err(e) => {
            result.send_success = false;
            let mut m = "微盘异常: ".to_string();
            push_str(&mut m, e.as_str());
            result.error = Some(m);
        },
    }
}

/// Records that an archive too large for the webhook was not sent.
pub fn record_oversize_skip(result: &mut TaskResult)
    ensures
        final(result).send_type@ == "超限跳过"@,
        final(result).send_success == old(result).send_success,
        final(result).error == old(result).error,
        final(result).wedrive_path == old(result).wedrive_path,
        same_but_sending(*old(result), *final(result)),
{
    result.send_type = "超限跳过".to_string();
}

/// `a -tzip -v<part size> -mx=1 <archive> <files...>`, the 7-Zip command
/// that writes a volume archive.
pub fn seven_zip_args(part_size: u64, archive: &str, files: &Vec<String>) -> (r: Vec<String>)
    ensures
        string_views(r@) == seq!["a"@, "-tzip"@, "-v"@ + decimal(part_size as nat), "-mx=1"@, archive@]
            + string_views(files@),
{
    let mut v: Vec<String> = Vec::new();
    v.push("a".to_string());
    v.push("-tzip".to_string());
    let mut vol = "-v".to_string();
    push_str(&mut vol, crate::text::u64_to_string(part_size).as_str());
    v.push(vol);
    v.push("-mx=1".to_string());
    v.push(archive.to_string());
    let ghost head = v@;
    for i in 0..files.len()
        invariant
            v@ == head + files@.take(i as int),
    {
        v.push(files[i].clone());
        assert(files@.take(i + 1) =~= files@.take(i as int).push(files@[i as int]));
    }
    assert(files@.take(files.len() as int) =~= files@);
    assert(string_views(v@) =~= seq!["a"@, "-tzip"@, "-v"@ + decimal(part_size as nat), "-mx=1"@, archive@]
        + string_views(files@));
    v
}

/// `<base>.z<nn>`, volume `n` after the first of a 7-Zip volume archive.
pub fn volume_name(base: &str, n: u64) -> (s: String)
    ensures
        s@ == base@ + ".z"@ + decimal2(n as nat),
{
    let mut v: Vec<char> = chars_of(base);
    v.push('.');
    v.push('z');
    push_decimal2(&mut v, n);
    proof {
        reveal_strlit(".z");
    }
    assert(v@ =~= base@ + ".z"@ + decimal2(n as nat));
    string_from(&v)
}

/// The first line of what `where` printed, trimmed: the path it found.
pub fn where_first_path(stdout: &str) -> (r: Option<String>)
    ensures
        text_lines(stdout@).len() == 0 ==> r is None,
        text_lines(stdout@).len() > 0 ==> (r matches Some(p) && p@ == trim(text_lines(stdout@)[0])),
{
    let lines = lines_of(&chars_of(stdout));
    if lines.len() == 0 {
        None
    } else {
        Some(string_from(&trim_chars(&lines[0])))
    }
}

/// How many parts were sent, and whether every one was.
pub struct PartTally {
    pub sent: u64,
    pub all_ok: bool,
}

impl PartTally {
    pub fn new() -> (t: PartTally)
        ensures
            t.sent == 0 && t.all_ok,
    {
        PartTally { sent: 0, all_ok: true }
    }
}

/// `分卷<n>发送失败: <error>`, the error of a 7-Zip volume that was not sent.
pub fn volume_failure(n: u64, error: &str) -> (s: String)
    ensures
        s@ == "分卷"@ + decimal(n as nat) + "发送失败: "@ + error@,
{
    let mut s = "分卷".to_string();
    push_str(&mut s, crate::text::u64_to_string(n).as_str());
    push_str(&mut s, "发送失败: ");
    push_str(&mut s, error);
    s
}

/// `分片<n>发送失败: <error>`, the error of a part that was not sent.
pub fn part_failure(n: u64, error: &str) -> (s: String)
    ensures
        s@ == "分片"@ + decimal(n as nat) + "发送失败: "@ + error@,
{
    let mut s = "分片".to_string();
    push_str(&mut s, crate::text::u64_to_string(n).as_str());
    push_str(&mut s, "发送失败: ");
    push_str(&mut s, error);
    s
}

/// `分片<n>拆分后发送失败`, the error of a part cut into chunks of which one
/// was not sent.
pub fn chunked_part_failure(n: u64) -> (s: String)
    ensures
        s@ == "分片"@ + decimal(n as nat) + "拆分后发送失败"@,
{
    let mut s = "分片".to_string();
    push_str(&mut s, crate::text::u64_to_string(n).as_str());
    push_str(&mut s, "拆分后发送失败");
    s
}

/// Counts one part: sent when there is no failure; otherwise not every part
/// was sent, and the failure becomes the task's error.
pub fn tally_part(tally: &mut PartTally, result: &mut TaskResult, failure: Option<String>)
    requires
        old(tally).sent < u64::MAX,
    ensures
        match failure {
            None => final(tally).sent == old(tally).sent + 1 && final(tally).all_ok == old(tally).all_ok
                && final(result).error == old(result).error,
            Some(m) => final(tally).sent == old(tally).sent && !final(tally).all_ok
                && final(result).error == Some(m),
        },
        final(result).send_type == old(result).send_type,
        final(result).send_success == old(result).send_success,
        final(result).wedrive_path == old(result).wedrive_path,
        same_but_sending(*old(result), *final(result)),
{
    match failure {
        None => {
            tally.sent = tally.sent + 1;
        },
        Some(m) => {
            tally.all_ok = false;
            result.error = Some(m);
        },
    }
}

/// Records the outcome of sending parts: `<label>(<sent>/<total>)`, a
/// success only when every part was sent.
pub fn finish_parts(result: &mut TaskResult, label: &str, tally: &PartTally, total: u64)
    ensures
        final(result).send_type@ == label@ + "("@ + decimal(tally.sent as nat) + "/"@ + decimal(total as nat) + ")"@,
        final(result).send_success == tally.all_ok,
        final(result).error == old(result).error,
        final(result).wedrive_path == old(result).wedrive_path,
        same_but_sending(*old(result), *final(result)),
{
    result.send_type = parts_summary(label, tally.sent, total);
    result.send_success = tally.all_ok;
}

/// `<base>_合并说明.txt`, the note sent after the chunks of a part.
pub fn merge_note_name(base: &str) -> (s: String)
    ensures
        s@ == base@ + "_合并说明.txt"@,
{
    let mut s = base.to_string();
    push_str(&mut s, "_合并说明.txt");
    s
}

/// The note that tells how the chunks of a part are joined again.
pub open spec fn merge_note_text(base: Seq<char>, file_size: nat, chunks: nat) -> Seq<char> {
    "文件拆分合并说明\n================\n\n原文件: "@ + base + "\n大小: "@ + size_text(file_size, 2)
        + "\n拆分块数: "@ + decimal(chunks) + "\n\n合并方法（Windows命令行）:\n  copy /b "@ + base
        + "_chunk1_*.bin + "@ + base + "_chunk2_*..bin + ... "@ + base + "\n\n或使用 PowerShell:\n  Get-Content "@
        + base + "_chunk*.bin -Encoding Byte | Set-Content "@ + base
        + " -Encoding Byte\n\n注意: 必须按序号顺序合并，合并后文件为 zip 格式，可直接解压。"@
}

pub fn merge_note(base: &str, file_size: u64, chunks: u64) -> (s: String)
    ensures
        s@ == merge_note_text(base@, file_size as nat, chunks as nat),
{
    let mut s = "文件拆分合并说明\n================\n\n原文件: ".to_string();
    push_str(&mut s, base);
    push_str(&mut s, "\n大小: ");
    push_str(&mut s, format_size(file_size).as_str());
    push_str(&mut s, "\n拆分块数: ");
    push_str(&mut s, crate::text::u64_to_string(chunks).as_str());
    push_str(&mut s, "\n\n合并方法（Windows命令行）:\n  copy /b ");
    push_str(&mut s, base);
    push_str(&mut s, "_chunk1_*.bin + ");
    push_str(&mut s, base);
    push_str(&mut s, "_chunk2_*..bin + ... ");
    push_str(&mut s, base);
    push_str(&mut s, "\n\n或使用 PowerShell:\n  Get-Content ");
    push_str(&mut s, base);
    push_str(&mut s, "_chunk*.bin -Encoding Byte | Set-Content ");
    push_str(&mut s, base);
    push_str(&mut s, " -Encoding Byte\n\n注意: 必须按序号顺序合并，合并后文件为 zip 格式，可直接解压。");
    s
}

} // verus!
