//! Finding the rustic executable, and choosing what to fetch when it is missing.
use vstd::prelude::*;
use crate::config::{path_join, spec_path_join, default_rustic_exe};
use crate::rustic::{size_text, size_with_places};
use crate::text::{chars_of, contains_seq, contains_str, ends_with_str, equals_str, is_suffix_of,
    spec_to_lowercase, string_views, to_lowercase};
use crate::matching::{JsonDoc, opt_pair_views, spec_json_array_pairs, spec_json_parses, spec_json_str_field};

verus! {

broadcast use vstd::string::group_string_axioms;

/// Whether something exists at a path (`Path::exists`). What is on disk is
/// not modelled: nothing is stated of the answer.
#[verifier::external_body]
pub(crate) fn path_exists(p: &str) -> bool {
    std::path::Path::new(p).exists()
}

/// The rustic executable the program uses: the configured one, or
/// `bin/rustic.exe` beside the program.
pub open spec fn rustic_candidate(configured: Option<Seq<char>>, exe_dir: Seq<char>) -> Seq<char> {
    match configured {
        Some(p) => p,
        None => default_rustic_exe(exe_dir),
    }
}

/// The path of the rustic executable the program uses.
pub fn candidate(config_rustic_path: Option<&str>, exe_dir: &str) -> (r: String)
    ensures
        r@ == rustic_candidate(match config_rustic_path {
            Some(p) => Some(p@),
            None => None,
        }, exe_dir@),
{
    match config_rustic_path {
        Some(p) => p.to_string(),
        None => {
            let bin = path_join(exe_dir, "bin");
            path_join(bin.as_str(), "rustic.exe")
        },
    }
}

/// Whether the rustic executable is in place: whether something exists at
/// the path `candidate` gives. That answer comes from the disk at the moment
/// of the call, so no clause states it.
pub fn rustic_exists(config_rustic_path: Option<&str>, exe_dir: &str) -> bool {
    let path = candidate(config_rustic_path, exe_dir);
    path_exists(path.as_str())
}

/// What `ensure_rustic` does.
pub enum RusticSetup {
    /// The executable is in place.
    Ready(String),
    /// The configured executable is missing; that is an error.
    ConfiguredMissing(String),
    /// Fetch it into the directory, as the file.
    Download { bin_dir: String, exe: String },
}

/// What is done about the rustic executable, given whether the file that
/// would be used exists.
pub open spec fn setup_outcome(configured: Option<Seq<char>>, exe_dir: Seq<char>, exists: bool, r: RusticSetup) -> bool {
    match configured {
        Some(p) => if exists {
            r matches RusticSetup::Ready(q) && q@ == p
        } else {
            r matches RusticSetup::ConfiguredMissing(q) && q@ == p
        },
        None => if exists {
            r matches RusticSetup::Ready(q) && q@ == default_rustic_exe(exe_dir)
        } else {
            r matches RusticSetup::Download { bin_dir, exe } && bin_dir@ == spec_path_join(exe_dir, "bin"@)
                && exe@ == default_rustic_exe(exe_dir)
        },
    }
}

/// What is done about the rustic executable when the file that would be
/// used (`rustic_candidate`) does or does not exist.
pub fn rustic_setup_for(config_rustic_path: Option<&str>, exe_dir: &str, exists: bool) -> (r: RusticSetup)
    ensures
        setup_outcome(match config_rustic_path {
            Some(p) => Some(p@),
            None => None,
        }, exe_dir@, exists, r),
{
    match config_rustic_path {
        Some(p) => {
            if exists {
                RusticSetup::Ready(p.to_string())
            } else {
                RusticSetup::ConfiguredMissing(p.to_string())
            }
        },
        None => {
            let bin_dir = path_join(exe_dir, "bin");
            let exe = path_join(bin_dir.as_str(), "rustic.exe");
            if exists {
                RusticSetup::Ready(exe)
            } else {
                RusticSetup::Download { bin_dir, exe }
            }
        },
    }
}

/// Finds the rustic executable, or where to download it: what
/// `rustic_setup_for` does for whether the file exists on disk now.
pub fn ensure_rustic(config_rustic_path: Option<&str>, exe_dir: &str) -> (r: RusticSetup)
    ensures
        setup_outcome(match config_rustic_path {
            Some(p) => Some(p@),
            None => None,
        }, exe_dir@, true, r) || setup_outcome(match config_rustic_path {
            Some(p) => Some(p@),
            None => None,
        }, exe_dir@, false, r),
{
    let path = candidate(config_rustic_path, exe_dir);
    let exists = path_exists(path.as_str());
    rustic_setup_for(config_rustic_path, exe_dir, exists)
}

/// An asset of a GitHub release.
pub struct ReleaseAsset {
    pub name: Option<String>,
    pub url: Option<String>,
}

/// An asset as its name and download address, where the release gives them.
pub type AssetView = (Option<Seq<char>>, Option<Seq<char>>);

pub open spec fn asset_views(assets: Seq<ReleaseAsset>) -> Seq<AssetView> {
    Seq::new(assets.len(), |i: int| (
        match assets[i].name {
            Some(s) => Some(s@),
            None => None,
        },
        match assets[i].url {
            Some(s) => Some(s@),
            None => None,
        },
    ))
}

/// A Windows build packed with the extension: its lower-case name mentions
/// `windows` and ends with the extension, and it can be downloaded.
pub open spec fn is_windows_asset(a: AssetView, ext: Seq<char>) -> bool {
    &&& a.0 is Some
    &&& a.1 is Some
    &&& contains_seq(spec_to_lowercase(a.0.unwrap()), "windows"@)
    &&& is_suffix_of(ext, spec_to_lowercase(a.0.unwrap()))
}

/// The first Windows asset with the extension, from `i` on.
pub open spec fn first_asset_from(assets: Seq<AssetView>, ext: Seq<char>, i: int) -> int
    decreases assets.len() - i,
{
    if i < 0 || i >= assets.len() {
        -1
    } else if is_windows_asset(assets[i], ext) {
        i
    } else {
        first_asset_from(assets, ext, i + 1)
    }
}

/// The asset to download: the first Windows `.zip`, else the first Windows
/// `.tar.gz`; -1 when there is none.
pub open spec fn chosen_asset(assets: Seq<AssetView>) -> int {
    if first_asset_from(assets, ".zip"@, 0) >= 0 {
        first_asset_from(assets, ".zip"@, 0)
    } else {
        first_asset_from(assets, ".tar.gz"@, 0)
    }
}

proof fn lemma_first_asset(assets: Seq<AssetView>, ext: Seq<char>, i: int)
    requires
        0 <= i,
    ensures
        first_asset_from(assets, ext, i) >= 0 ==> i <= first_asset_from(assets, ext, i) < assets.len()
            && is_windows_asset(assets[first_asset_from(assets, ext, i)], ext),
        first_asset_from(assets, ext, i) < 0 ==> first_asset_from(assets, ext, i) == -1,
    decreases assets.len() - i,
{
    if i < assets.len() && !is_windows_asset(assets[i], ext) {
        lemma_first_asset(assets, ext, i + 1);
    }
}

fn windows_asset(a: &ReleaseAsset, ext: &str) -> (b: bool)
    ensures
        b == is_windows_asset(asset_views(seq![*a])[0], ext@),
{
    match (&a.name, &a.url) {
        (Some(name), Some(_)) => {
            let lower = to_lowercase(&chars_of(name.as_str()));
            contains_str(&lower, "windows") && ends_with_str(&lower, ext)
        },
        _ => false,
    }
}

fn find_asset(assets: &Vec<ReleaseAsset>, ext: &str) -> (r: Option<usize>)
    ensures
        match r {
            Some(i) => i as int == first_asset_from(asset_views(assets@), ext@, 0) && 0 <= i < assets.len(),
            None => first_asset_from(asset_views(assets@), ext@, 0) == -1,
        },
{
    let ghost views = asset_views(assets@);
    let mut i: usize = 0;
    while i < assets.len()
        invariant
            i <= assets.len(),
            views == asset_views(assets@),
            first_asset_from(views, ext@, 0) == first_asset_from(views, ext@, i as int),
        decreases assets.len() - i,
    {
        assert(asset_views(seq![assets@[i as int]])[0] == views[i as int]);
        if windows_asset(&assets[i], ext) {
            return Some(i);
        }
        i += 1;
    }
    None
}

/// The index of the asset to download (`.zip` first, then `.tar.gz`).
pub fn select_asset(assets: &Vec<ReleaseAsset>) -> (r: Option<usize>)
    ensures
        match r {
            Some(i) => i as int == chosen_asset(asset_views(assets@)) && i < assets.len(),
            None => chosen_asset(asset_views(assets@)) == -1,
        },
{
    match find_asset(assets, ".zip") {
        Some(i) => Some(i),
        None => find_asset(assets, ".tar.gz"),
    }
}

/// The release asset chosen for download.
pub struct ReleaseChoice {
    /// The release's tag, `unknown` when it has none.
    pub tag: String,
    pub asset_name: String,
    pub url: String,
}

pub enum ReleaseError {
    /// The reply is not JSON.
    NotJson,
    /// The release lists no assets.
    NoAssets,
    /// No asset is a Windows build; the names of the assets.
    NoWindowsAsset { names: Vec<String> },
}

/// The names that the assets have.
pub open spec fn present_names(assets: Seq<AssetView>) -> Seq<Seq<char>>
    decreases assets.len(),
{
    if assets.len() == 0 {
        seq![]
    } else if assets.last().0 is Some {
        present_names(assets.drop_last()).push(assets.last().0.unwrap())
    } else {
        present_names(assets.drop_last())
    }
}

/// What is downloaded from a release with the tag and assets: the chosen
/// Windows asset, or why there is none.
pub open spec fn release_outcome(tag: Option<Seq<char>>, assets: Option<Seq<AssetView>>, r: Result<ReleaseChoice, ReleaseError>) -> bool {
    match assets {
        None => r matches Err(ReleaseError::NoAssets),
        Some(v) => {
            let k = chosen_asset(v);
            if k < 0 {
                r matches Err(ReleaseError::NoWindowsAsset { names }) && string_views(names@) == present_names(v)
            } else {
                r matches Ok(c) && c.asset_name@ == v[k].0.unwrap() && c.url@ == v[k].1.unwrap()
                    && c.tag@ == match tag {
                        Some(t) => t,
                        None => "unknown"@,
                    }
            }
        },
    }
}

fn opt_view(o: &Option<String>) -> (r: Option<String>)
    ensures
        r == *o,
{
    match o {
        Some(s) => Some(s.clone()),
        None => None,
    }
}

/// The asset to download from a release with the tag and assets.
pub fn choose_release(tag: Option<String>, assets: Option<Vec<ReleaseAsset>>) -> (r: Result<ReleaseChoice, ReleaseError>)
    ensures
        release_outcome(
            match tag {
                Some(t) => Some(t@),
                None => None,
            },
            match assets {
                Some(v) => Some(asset_views(v@)),
                None => None,
            },
            r,
        ),
{
    let assets = match assets {
        None => return Err(ReleaseError::NoAssets),
        Some(v) => v,
    };
    let ghost views = asset_views(assets@);
    match select_asset(&assets) {
        Some(k) => {
            proof {
                lemma_first_asset(views, ".zip"@, 0);
                lemma_first_asset(views, ".tar.gz"@, 0);
                assert(views[k as int].0 is Some && views[k as int].1 is Some);
            }
            let name = match &assets[k].name {
                Some(n) => n.clone(),
                None => String::new(),
            };
            let url = match &assets[k].url {
                Some(u) => u.clone(),
                None => String::new(),
            };
            let tag = match tag {
                Some(t) => t,
                None => "unknown".to_string(),
            };
            Ok(ReleaseChoice { tag, asset_name: name, url })
        },
        None => {
            let mut names: Vec<String> = Vec::new();
            for i in 0..assets.len()
                invariant
                    views == asset_views(assets@),
                    string_views(names@) == present_names(views.take(i as int)),
            {
                assert(views.take(i + 1).drop_last() =~= views.take(i as int));
                let ghost before = names@;
                match &assets[i].name {
                    Some(n) => {
                        names.push(n.clone());
                        assert(string_views(names@) =~= string_views(before).push(n@));
                    },
                    None => {},
                }
            }
            assert(views.take(assets.len() as int) =~= views);
            Err(ReleaseError::NoWindowsAsset { names })
        },
    }
}

/// The asset to download, read from the GitHub reply that describes the
/// latest release (`tag_name`, and `name` and `browser_download_url` of each
/// of its `assets`).
pub fn release_download(body: &str) -> (r: Result<ReleaseChoice, ReleaseError>)
    ensures
        !spec_json_parses(body@) ==> r matches Err(ReleaseError::NotJson),
        spec_json_parses(body@) ==> release_outcome(
            spec_json_str_field(body@, "tag_name"@),
            spec_json_array_pairs(body@, "assets"@, "name"@, "browser_download_url"@),
            r,
        ),
{
    let doc = match JsonDoc::parse(body) {
        None => return Err(ReleaseError::NotJson),
        Some(d) => d,
    };
    let tag = doc.str_field("tag_name");
    let assets = match doc.array_pairs("assets", "name", "browser_download_url") {
        None => None,
        Some(pairs) => {
            let mut v: Vec<ReleaseAsset> = Vec::new();
            for i in 0..pairs.len()
                invariant
                    asset_views(v@) == opt_pair_views(pairs@.take(i as int)),
            {
                let (n, u) = (opt_view(&pairs[i].0), opt_view(&pairs[i].1));
                let ghost before = v@;
                assert(asset_views(before).len() == before.len());
                assert(opt_pair_views(pairs@.take(i as int)).len() == i);
                assert(before.len() == i);
                v.push(ReleaseAsset { name: n, url: u });
                assert(v@ == before.push(ReleaseAsset { name: n, url: u }));
                assert(pairs@.take(i + 1)[i as int] == pairs@[i as int]);
                assert forall|j: int| 0 <= j < i implies #[trigger] pairs@.take(i + 1)[j] == pairs@.take(i as int)[j] by {}
                assert(asset_views(v@) =~= opt_pair_views(pairs@.take(i + 1))) by {
                    assert forall|j: int| 0 <= j < v@.len() implies #[trigger] asset_views(v@)[j] == opt_pair_views(pairs@.take(i + 1))[j] by {
                        if j < i {
                            assert(v@[j] == before[j]);
                            assert(asset_views(before)[j] == opt_pair_views(pairs@.take(i as int))[j]);
                        }
                    }
                }
            }
            assert(pairs@.take(pairs.len() as int) =~= pairs@);
            Some(v)
        },
    };
    choose_release(tag, assets)
}

/// How a downloaded archive is packed.
#[derive(Clone, Copy, Debug, PartialEq, Eq, Structural)]
pub enum ArchiveKind {
    Zip,
    TarGz,
}

/// The packing of an asset, from its lower-case name; `None` for another one.
pub fn archive_kind(asset_name: &str) -> (r: Option<ArchiveKind>)
    ensures
        r == if is_suffix_of(".zip"@, spec_to_lowercase(asset_name@)) {
            Some(ArchiveKind::Zip)
        } else if is_suffix_of(".tar.gz"@, spec_to_lowercase(asset_name@)) {
            Some(ArchiveKind::TarGz)
        } else {
            None::<ArchiveKind>
        },
{
    let lower = to_lowercase(&chars_of(asset_name));
    if ends_with_str(&lower, ".zip") {
        Some(ArchiveKind::Zip)
    } else if ends_with_str(&lower, ".tar.gz") {
        Some(ArchiveKind::TarGz)
    } else {
        None
    }
}

/// Whether an archive entry is the rustic executable.
pub fn is_rustic_entry(name: &str) -> (b: bool)
    ensures
        b == (is_suffix_of("rustic.exe"@, spec_to_lowercase(name@)) || name@ == "rustic.exe"@),
{
    let c = chars_of(name);
    let lower = to_lowercase(&c);
    ends_with_str(&lower, "rustic.exe") || equals_str(&c, "rustic.exe")
}

/// A byte count with one decimal and a unit, for download progress.
pub fn fmt_size(bytes: u64) -> (s: String)
    ensures
        s@ == size_text(bytes as nat, 1),
{
    size_with_places(bytes, 1)
}

} // verus!
