use std::io::{Read, Write};

use dotsetup::install::{
    extract_members, file_name, strip_version_marker, ArchiveEntry, ArchiveType, Binary,
    BinaryArgs, InstallAction, InstallArgs, InstallConfig, InstallError, InstallEvent, Target,
};

fn target() -> Target {
    Target {
        triplet: "x86_64-unknown-linux-gnu".into(),
        os: "linux".into(),
        arch: "amd64".into(),
    }
}

fn tar_gz(members: &[(&str, &[u8])]) -> Vec<u8> {
    let enc = flate2::write::GzEncoder::new(Vec::new(), flate2::Compression::default());
    let mut builder = tar::Builder::new(enc);
    for (path, data) in members {
        let mut header = tar::Header::new_gnu();
        header.set_size(data.len() as u64);
        header.set_mode(0o755);
        header.set_cksum();
        builder.append_data(&mut header, path, *data).unwrap();
    }
    let mut enc = builder.into_inner().unwrap();
    enc.flush().unwrap();
    enc.finish().unwrap()
}

fn unpack(bytes: &[u8]) -> Vec<ArchiveEntry> {
    let mut archive = tar::Archive::new(flate2::read::GzDecoder::new(bytes));
    let mut out = Vec::new();
    for entry in archive.entries().unwrap() {
        let mut entry = entry.unwrap();
        let path = entry.path().unwrap().to_string_lossy().into_owned();
        let mut data = Vec::new();
        entry.read_to_end(&mut data).unwrap();
        out.push(ArchiveEntry { path, data });
    }
    out
}

fn entry(path: &str, data: &[u8]) -> ArchiveEntry {
    ArchiveEntry { path: path.into(), data: data.to_vec() }
}

#[test]
fn test_install_starship() {
    let bin_dir = "/tmp/bin";
    match InstallConfig::Starship.download(&target(), bin_dir, InstallEvent::Start) {
        InstallAction::Fetch { url } => assert_eq!(
            url,
            "https://github.com/starship/starship/releases/latest/download/starship-x86_64-unknown-linux-gnu.tar.gz"
        ),
        _ => panic!("expected a download"),
    }
    let body = tar_gz(&[("starship", b"#!starship")]);
    match InstallConfig::Starship.download(&target(), bin_dir, InstallEvent::Fetched(body.clone())) {
        InstallAction::Unpack { kind, data } => {
            assert_eq!(kind, ArchiveType::TarGz);
            assert_eq!(data, body);
        }
        _ => panic!("expected an unpack"),
    }
    match InstallConfig::Starship.download(&target(), bin_dir, InstallEvent::Unpacked(unpack(&body)))
    {
        InstallAction::Install { dir, files } => {
            assert_eq!(dir, bin_dir);
            assert_eq!(files, vec![("/tmp/bin/starship".to_string(), b"#!starship".to_vec())]);
        }
        _ => panic!("expected an install"),
    }
    match InstallConfig::Starship.download(&target(), bin_dir, InstallEvent::Installed) {
        InstallAction::RunVersion { program, arg } => {
            assert_eq!(program, "/tmp/bin/starship");
            assert_eq!(arg, "--version");
        }
        _ => panic!("expected a version check"),
    }
}

#[test]
fn test_install_direnv() {
    let bin_dir = "/tmp/bin/";
    match InstallConfig::Direnv.download(&target(), bin_dir, InstallEvent::Start) {
        InstallAction::Fetch { url } => assert_eq!(
            url,
            "https://github.com/direnv/direnv/releases/latest/download/direnv.linux-amd64"
        ),
        _ => panic!("expected a download"),
    }
    match InstallConfig::Direnv.download(&target(), bin_dir, InstallEvent::Fetched(vec![1, 2, 3])) {
        InstallAction::Install { dir, files } => {
            assert_eq!(dir, bin_dir);
            assert_eq!(files, vec![("/tmp/bin/direnv".to_string(), vec![1, 2, 3])]);
        }
        _ => panic!("expected an install"),
    }
    assert!(matches!(
        InstallConfig::Direnv.download(&target(), bin_dir, InstallEvent::VersionChecked(true)),
        InstallAction::Done
    ));
    assert!(matches!(
        InstallConfig::Direnv.download(&target(), bin_dir, InstallEvent::VersionChecked(false)),
        InstallAction::Fail(InstallError::VersionCheckFailed)
    ));
}

#[test]
fn tar_gz_member_bytes_are_extracted_exactly() {
    let body = tar_gz(&[("README.md", b"docs"), ("bin/tool", b"\x7fELF tool"), ("LICENSE", b"MIT")]);
    let got = extract_members(&unpack(&body), &vec!["bin/tool".to_string()]).unwrap();
    assert_eq!(got, vec![b"\x7fELF tool".to_vec()]);
}

#[test]
fn missing_member_fails() {
    let body = tar_gz(&[("bin/tool", b"tool")]);
    let got = extract_members(&unpack(&body), &vec!["bin/tool".into(), "bin/other".into()]);
    assert_eq!(got, Err(InstallError::MissingMember("bin/other".into())));
}

#[test]
fn first_matching_member_wins() {
    let es = vec![entry("a", b"1"), entry("b", b"2"), entry("a", b"3")];
    assert_eq!(
        extract_members(&es, &vec!["a".into(), "b".into()]).unwrap(),
        vec![b"1".to_vec(), b"2".to_vec()]
    );
    assert_eq!(extract_members(&es, &vec!["./a".into()]), Err(InstallError::MissingMember("./a".into())));
    assert_eq!(extract_members(&es, &vec![]).unwrap(), Vec::<Vec<u8>>::new());
}

#[test]
fn members_install_under_their_file_names() {
    let b = Binary {
        name: "tool".into(),
        url: "https://example.com/tool.zip".into(),
        archive: Some((ArchiveType::Zip, Some(vec!["dist/tool".into(), "dist/helper".into()]))),
        version_arg: "^-V".into(),
    };
    let es = vec![entry("dist/helper", b"h"), entry("dist/tool", b"t")];
    match b.download("/opt/bin", InstallEvent::Unpacked(es)) {
        InstallAction::Install { files, .. } => assert_eq!(
            files,
            vec![
                ("/opt/bin/tool".to_string(), b"t".to_vec()),
                ("/opt/bin/helper".to_string(), b"h".to_vec())
            ]
        ),
        _ => panic!("expected an install"),
    }
    match b.download("/opt/bin", InstallEvent::Installed) {
        InstallAction::RunVersion { program, arg } => {
            assert_eq!(program, "/opt/bin/tool");
            assert_eq!(arg, "-V");
        }
        _ => panic!("expected a version check"),
    }
}

#[test]
fn failures_stop_the_install() {
    let b = InstallConfig::Starship.binary(&target());
    assert!(matches!(
        b.download("/b", InstallEvent::FetchFailed),
        InstallAction::Fail(InstallError::DownloadFailed)
    ));
    assert!(matches!(
        b.download("/b", InstallEvent::UnpackFailed),
        InstallAction::Fail(InstallError::BadArchive)
    ));
    assert!(matches!(
        b.download("/b", InstallEvent::WriteFailed),
        InstallAction::Fail(InstallError::WriteFailed)
    ));
    match b.download("/b", InstallEvent::Unpacked(vec![entry("other", b"x")])) {
        InstallAction::Fail(InstallError::MissingMember(p)) => assert_eq!(p, "starship"),
        _ => panic!("expected a missing member"),
    }
}

#[test]
fn helpers() {
    assert_eq!(file_name("a/b/c"), "c");
    assert_eq!(file_name("c"), "c");
    assert_eq!(file_name("a/"), "");
    assert_eq!(strip_version_marker("^--version"), "--version");
    assert_eq!(strip_version_marker("--version"), "--version");
    assert_eq!(strip_version_marker("^^x"), "^x");
}

fn args(archive_type: Option<ArchiveType>) -> BinaryArgs {
    BinaryArgs {
        name: "t".into(),
        url: "u".into(),
        archive_type,
        archive_paths: Some(vec!["p".into()]),
        version_arg: "^-v".into(),
    }
}

#[test]
fn install_args_resolve_directory() {
    let a = InstallArgs { bin_dir: Some("/flag".into()), binary: args(None) };
    let (b, dir) = a.resolve(Some("/env".into())).unwrap();
    assert_eq!(dir, "/flag");
    assert!(b.archive.is_none());
    let a = InstallArgs { bin_dir: None, binary: args(Some(ArchiveType::Zip)) };
    let (b, dir) = a.resolve(Some("/env".into())).unwrap();
    assert_eq!(dir, "/env");
    assert_eq!(b.archive, Some((ArchiveType::Zip, Some(vec!["p".to_string()]))));
    let a = InstallArgs { bin_dir: None, binary: args(None) };
    assert!(matches!(a.resolve(None), Err(InstallError::MissingBinDir)));
}
