use rustic_backup::download::{choose_release, release_download, ReleaseAsset, ReleaseError};
use rustic_backup::unpack::{rustic_from_tar_gz, rustic_from_zip, unpack_rustic, UnpackError};
use std::io::Write;

fn zip_with(entries: &[(&str, &[u8])]) -> Vec<u8> {
    let mut w = zip::ZipWriter::new(std::io::Cursor::new(Vec::new()));
    for (name, data) in entries {
        w.start_file(*name, zip::write::SimpleFileOptions::default()).unwrap();
        w.write_all(data).unwrap();
    }
    w.finish().unwrap().into_inner()
}

fn tar_gz_with(entries: &[(&str, &[u8])]) -> Vec<u8> {
    let enc = flate2::write::GzEncoder::new(Vec::new(), flate2::Compression::default());
    let mut b = tar::Builder::new(enc);
    for (name, data) in entries {
        let mut h = tar::Header::new_gnu();
        h.set_size(data.len() as u64);
        h.set_mode(0o755);
        h.set_cksum();
        b.append_data(&mut h, name, *data).unwrap();
    }
    b.into_inner().unwrap().finish().unwrap()
}

#[test]
fn release_reply_picks_windows_zip() {
    let body = r#"{"tag_name":"v0.9.5","assets":[
        {"name":"rustic-v0.9.5-x86_64-unknown-linux-musl.tar.gz","browser_download_url":"https://dl/linux"},
        {"name":"rustic-v0.9.5-x86_64-pc-windows-msvc.tar.gz","browser_download_url":"https://dl/wtar"},
        {"name":"rustic-v0.9.5-x86_64-pc-windows-msvc.zip","browser_download_url":"https://dl/wzip"}]}"#;
    let c = release_download(body).ok().unwrap();
    assert_eq!(c.tag, "v0.9.5");
    assert_eq!(c.asset_name, "rustic-v0.9.5-x86_64-pc-windows-msvc.zip");
    assert_eq!(c.url, "https://dl/wzip");
}

#[test]
fn release_reply_errors() {
    assert!(matches!(release_download("<html>"), Err(ReleaseError::NotJson)));
    assert!(matches!(release_download(r#"{"tag_name":"v1"}"#), Err(ReleaseError::NoAssets)));
    match release_download(r#"{"assets":[{"name":"a.deb","browser_download_url":"u"},{"browser_download_url":"v"}]}"#) {
        Err(ReleaseError::NoWindowsAsset { names }) => assert_eq!(names, vec!["a.deb".to_string()]),
        _ => panic!("expected no Windows asset"),
    }
    let c = release_download(r#"{"assets":[{"name":"x-windows.tar.gz","browser_download_url":"u"}]}"#).ok().unwrap();
    assert_eq!(c.tag, "unknown");
    assert_eq!(c.url, "u");
}

#[test]
fn release_choice_from_assets() {
    let assets = vec![
        ReleaseAsset { name: Some("r-windows.zip".to_string()), url: None },
        ReleaseAsset { name: Some("r-Windows.Zip".to_string()), url: Some("u2".to_string()) },
    ];
    let c = choose_release(Some("v2".to_string()), Some(assets)).ok().unwrap();
    assert_eq!(c.asset_name, "r-Windows.Zip");
    assert_eq!(c.url, "u2");
    assert!(matches!(choose_release(None, None), Err(ReleaseError::NoAssets)));
}

#[test]
fn executable_from_zip() {
    let bytes = zip_with(&[("README.md", b"hello"), ("rustic-v0.9/rustic.exe", b"MZ-binary")]);
    let (name, data) = rustic_from_zip(&bytes).ok().unwrap();
    assert_eq!(name, "rustic-v0.9/rustic.exe");
    assert_eq!(data, b"MZ-binary".to_vec());
    let none = zip_with(&[("README.md", b"hello")]);
    assert!(matches!(rustic_from_zip(&none), Err(UnpackError::NotFound)));
    assert!(matches!(rustic_from_zip(&b"not a zip".to_vec()), Err(UnpackError::BadArchive)));
}

#[test]
fn executable_from_tar_gz() {
    let bytes = tar_gz_with(&[("rustic/LICENSE", b"MIT"), ("rustic/RUSTIC.EXE", b"binary")]);
    let (name, data) = rustic_from_tar_gz(&bytes).ok().unwrap();
    assert_eq!(name, "rustic/RUSTIC.EXE");
    assert_eq!(data, b"binary".to_vec());
    let none = tar_gz_with(&[("rustic/LICENSE", b"MIT")]);
    assert!(matches!(rustic_from_tar_gz(&none), Err(UnpackError::NotFound)));
}

#[test]
fn unpack_by_asset_name() {
    let z = zip_with(&[("rustic.exe", b"Z")]);
    assert_eq!(unpack_rustic("r-windows.ZIP", &z).ok().unwrap().1, b"Z".to_vec());
    let t = tar_gz_with(&[("rustic.exe", b"T")]);
    assert_eq!(unpack_rustic("r-windows.tar.gz", &t).ok().unwrap().1, b"T".to_vec());
    match unpack_rustic("r.7z", &z) {
        Err(UnpackError::Unsupported { name }) => assert_eq!(name, "r.7z"),
        _ => panic!("expected an unsupported archive"),
    }
}
