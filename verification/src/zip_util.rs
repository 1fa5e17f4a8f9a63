//! Selecting the files of a task that are archived and sent.
use vstd::prelude::*;
use crate::matching::{NameMatcher, Pattern, spec_glob_set_builds, spec_glob_set_is_match,
    spec_regex_compiles, spec_regex_is_match};
use crate::text::string_views;
use crate::config::{path_file_name, path_join, path_strip_prefix, spec_path_file_name, spec_path_join, spec_path_strip_prefix};

verus! {

broadcast use vstd::string::group_string_axioms;

/// A file found in a task's source directory: its path and its file name.
pub struct FileEntry {
    pub path: String,
    pub name: String,
}

pub enum PatternError {
    /// A glob pattern that `globset` refuses.
    InvalidGlob,
    /// A regular expression that `regex` refuses.
    InvalidRegex { pattern: String },
}

/// The files whose name matches one of the glob patterns, in order.
pub open spec fn glob_selected(files: Seq<FileEntry>, patterns: Seq<Seq<char>>) -> Seq<FileEntry>
    decreases files.len(),
{
    if files.len() == 0 {
        seq![]
    } else if spec_glob_set_is_match(patterns, files.last().name@) {
        glob_selected(files.drop_last(), patterns).push(files.last())
    } else {
        glob_selected(files.drop_last(), patterns)
    }
}

/// Whether one of the expressions matches the file's name or its path.
pub open spec fn regex_excluded(f: FileEntry, patterns: Seq<Seq<char>>) -> bool {
    exists|i: int|
        0 <= i < patterns.len() && (spec_regex_is_match(#[trigger] patterns[i], f.name@)
            || spec_regex_is_match(patterns[i], f.path@))
}

/// The files that no expression excludes, in order.
pub open spec fn regex_kept(files: Seq<FileEntry>, patterns: Seq<Seq<char>>) -> Seq<FileEntry>
    decreases files.len(),
{
    if files.len() == 0 {
        seq![]
    } else if !regex_excluded(files.last(), patterns) {
        regex_kept(files.drop_last(), patterns).push(files.last())
    } else {
        regex_kept(files.drop_last(), patterns)
    }
}

/// The index of the first expression that `regex` refuses, or the length.
pub open spec fn first_invalid_regex(patterns: Seq<Seq<char>>, i: int) -> int
    decreases patterns.len() - i,
{
    if i < 0 || i >= patterns.len() {
        patterns.len() as int
    } else if !spec_regex_compiles(patterns[i]) {
        i
    } else {
        first_invalid_regex(patterns, i + 1)
    }
}

/// The files (found in a source directory) whose name matches one of the
/// glob patterns; an error when a pattern is invalid.
pub fn scan_root_files(candidates: Vec<FileEntry>, patterns: &Vec<String>) -> (r: Result<Vec<FileEntry>, PatternError>)
    ensures
        !spec_glob_set_builds(string_views(patterns@)) ==> r matches Err(PatternError::InvalidGlob),
        spec_glob_set_builds(string_views(patterns@)) ==> (r matches Ok(v) && v@ == glob_selected(
            candidates@,
            string_views(patterns@),
        )),
        patterns.len() == 0 ==> (r matches Ok(v) && v.len() == 0),
{
    let matcher = match NameMatcher::build(patterns) {
        Some(m) => m,
        None => return Err(PatternError::InvalidGlob),
    };
    let ghost all = candidates@;
    let ghost pv = string_views(patterns@);
    let mut kept: Vec<FileEntry> = Vec::new();
    for f in it: candidates
        invariant
            it.seq() == all,
            matcher.patterns() == pv,
            pv == string_views(patterns@),
            kept@ == glob_selected(all.take(it.index() as int), pv),
            pv.len() == 0 ==> kept.len() == 0,
    {
        let ghost idx = it.index() as int;
        assert(all.take(idx + 1).drop_last() =~= all.take(idx));
        assert(all.take(idx + 1).last() == f);
        if matcher.is_match(f.name.as_str()) {
            kept.push(f);
        }
    }
    assert(all.take(all.len() as int) =~= all);
    Ok(kept)
}

/// The files that none of the regular expressions matches, by name or by
/// path; an error naming the first invalid expression.
pub fn filter_by_regex(files: Vec<FileEntry>, regex_patterns: &Vec<String>) -> (r: Result<Vec<FileEntry>, PatternError>)
    ensures
        ({
            let pv = string_views(regex_patterns@);
            let bad = first_invalid_regex(pv, 0);
            &&& bad < pv.len() ==> (r matches Err(PatternError::InvalidRegex { pattern }) && pattern@ == pv[bad])
            &&& bad >= pv.len() ==> (r matches Ok(v) && v@ == regex_kept(files@, pv))
        }),
{
    let ghost pv = string_views(regex_patterns@);
    let mut compiled: Vec<Pattern> = Vec::new();
    assert(first_invalid_regex(pv, 0) == first_invalid_regex(pv, 0));
    for i in 0..regex_patterns.len()
        invariant
            pv == string_views(regex_patterns@),
            compiled.len() == i,
            forall|j: int| 0 <= j < i ==> (#[trigger] compiled[j]).source() == pv[j],
            first_invalid_regex(pv, 0) == first_invalid_regex(pv, i as int),
    {
        match Pattern::compile(regex_patterns[i].as_str()) {
            Some(p) => {
                compiled.push(p);
            },
            None => {
                return Err(PatternError::InvalidRegex { pattern: regex_patterns[i].clone() });
            },
        }
    }
    if regex_patterns.len() == 0 {
        assert(files@ == regex_kept(files@, pv)) by {
            lemma_regex_kept_none(files@, pv);
        }
        return Ok(files);
    }
    let ghost all = files@;
    let mut kept: Vec<FileEntry> = Vec::new();
    for f in it: files
        invariant
            it.seq() == all,
            pv == string_views(regex_patterns@),
            compiled.len() == pv.len(),
            forall|j: int| 0 <= j < compiled.len() ==> (#[trigger] compiled[j]).source() == pv[j],
            kept@ == regex_kept(all.take(it.index() as int), pv),
    {
        let ghost idx = it.index() as int;
        assert(all.take(idx + 1).drop_last() =~= all.take(idx));
        assert(all.take(idx + 1).last() == f);
        let mut hit = false;
        let mut j: usize = 0;
        while j < compiled.len()
            invariant
                j <= compiled.len() == pv.len(),
                forall|k: int| 0 <= k < compiled.len() ==> (#[trigger] compiled[k]).source() == pv[k],
                hit == exists|k: int| 0 <= k < j && (spec_regex_is_match(#[trigger] pv[k], f.name@)
                    || spec_regex_is_match(pv[k], f.path@)),
            decreases compiled.len() - j,
        {
            let m = compiled[j].is_match(f.name.as_str()) || compiled[j].is_match(f.path.as_str());
            if m {
                assert(spec_regex_is_match(pv[j as int], f.name@) || spec_regex_is_match(pv[j as int], f.path@));
            }
            hit = hit || m;
            j += 1;
        }
        if !hit {
            kept.push(f);
        }
    }
    assert(all.take(all.len() as int) =~= all);
    Ok(kept)
}

proof fn lemma_regex_kept_none(files: Seq<FileEntry>, pv: Seq<Seq<char>>)
    requires
        pv.len() == 0,
    ensures
        regex_kept(files, pv) == files,
    decreases files.len(),
{
    if files.len() > 0 {
        lemma_regex_kept_none(files.drop_last(), pv);
        assert(files.drop_last().push(files.last()) =~= files);
    }
}

/// The name a file has inside an archive: its path below `base` when one is
/// given (the whole path when it is not below it); else its file name, or
/// `file` when it has none.
pub open spec fn archive_entry_name(path: Seq<char>, base: Option<Seq<char>>) -> Seq<char> {
    match base {
        Some(b) => match spec_path_strip_prefix(path, b) {
            Some(rel) => rel,
            None => path,
        },
        None => match spec_path_file_name(path) {
            Some(n) => n,
            None => "file"@,
        },
    }
}

pub fn name_in_archive(path: &str, base: Option<&str>) -> (r: String)
    ensures
        r@ == archive_entry_name(path@, match base {
            Some(b) => Some(b@),
            None => None,
        }),
{
    match base {
        Some(b) => match path_strip_prefix(path, b) {
            Some(rel) => rel,
            None => path.to_string(),
        },
        None => match path_file_name(path) {
            Some(n) => n,
            None => "file".to_string(),
        },
    }
}

/// Where a file is copied to in the staging directory: under its file name;
/// `None` (the file is skipped) when it has none.
pub fn staging_copy_target(src: &str, staging_dir: &str) -> (r: Option<String>)
    ensures
        match spec_path_file_name(src@) {
            Some(n) => r matches Some(t) && t@ == spec_path_join(staging_dir@, n),
            None => r is None,
        },
{
    match path_file_name(src) {
        Some(n) => Some(path_join(staging_dir, n.as_str())),
        None => None,
    }
}

/// A file found while scanning: its path, and its file name (empty when it
/// has none), which the patterns are matched against.
pub fn entry_for(path: &str) -> (r: FileEntry)
    ensures
        r.path@ == path@,
        r.name@ == match spec_path_file_name(path@) {
            Some(n) => n,
            None => Seq::empty(),
        },
{
    let name = match path_file_name(path) {
        Some(n) => n,
        None => String::new(),
    };
    FileEntry { path: path.to_string(), name }
}

} // verus!
