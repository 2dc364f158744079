use std::io::Write;

use reposync::package::error::PackageError;
use reposync::package::extract::{
    extract_plan, link_is_kept, plan_extraction, tar_entry_kind, ArchiveEntry, ArchiveFormat, EntryKind, WriteStep,
};

fn tar_gz(entries: &[(&[u8], tar::EntryType, u32, &[u8], &[u8])]) -> Vec<u8> {
    let gz = flate2::write::GzEncoder::new(Vec::new(), flate2::Compression::default());
    let mut builder = tar::Builder::new(gz);
    for (path, kind, mode, link, contents) in entries {
        let mut header = tar::Header::new_old();
        header.as_old_mut().name[..path.len()].copy_from_slice(path);
        header.as_old_mut().linkname[..link.len()].copy_from_slice(link);
        header.set_entry_type(*kind);
        header.set_size(contents.len() as u64);
        header.set_mode(*mode);
        header.set_cksum();
        builder.append(&header, *contents).unwrap();
    }
    builder.into_inner().unwrap().finish().unwrap()
}

fn entry(path: &str, kind: EntryKind, link: Option<&str>, contents: &[u8]) -> ArchiveEntry {
    ArchiveEntry {
        path: path.to_string(),
        kind,
        mode: Some(0o644),
        link: link.map(|l| l.to_string()),
        contents: contents.to_vec(),
    }
}

fn cause(r: Result<Vec<WriteStep>, PackageError>) -> String {
    match r {
        Err(PackageError::Extraction { name, version, cause }) => {
            assert_eq!((name.as_str(), version.as_str()), ("test", "1.0.0"));
            cause
        }
        other => panic!("expected an extraction failure, got {other:?}"),
    }
}

fn steps(r: Result<Vec<WriteStep>, PackageError>) -> Vec<String> {
    r.unwrap()
        .into_iter()
        .map(|s| match s {
            WriteStep::Dir { path } => format!("dir {path}"),
            WriteStep::File { path, contents, mode } => {
                format!("file {path} {} {mode:?}", String::from_utf8(contents).unwrap())
            }
            WriteStep::Link { path, target } => format!("link {path} -> {target}"),
        })
        .collect()
}

#[test]
fn roundtrip_tar_gz() {
    let bytes = tar_gz(&[(b"package/hello.txt", tar::EntryType::Regular, 0o644, b"", b"hello")]);
    let plan = extract_plan("dest", &bytes, Some("tgz"), "test", "1.0.0").unwrap();
    assert!(matches!(plan.as_slice(), [WriteStep::File { path, contents, .. }] if path == "dest/hello.txt" && contents == b"hello"));
}

#[test]
fn tar_entries_become_steps_in_order() {
    let bytes = tar_gz(&[
        (b"package/", tar::EntryType::Directory, 0o755, b"", b""),
        (b"package/bin/run", tar::EntryType::Regular, 0o700, b"", b"#!"),
        (b"package/lib/./a.js", tar::EntryType::Regular, 0o600, b"", b"a"),
        (b"package/lib/b.js", tar::EntryType::Symlink, 0o777, b"a.js", b""),
        (b"package/lib/c.js", tar::EntryType::Link, 0o777, b"/etc/passwd", b""),
        (b"package/lib/d.js", tar::EntryType::Symlink, 0o777, b"../../x", b""),
    ]);
    assert_eq!(
        steps(extract_plan("/tmp/out", &bytes, None, "test", "1.0.0")),
        vec![
            "dir /tmp/out/".to_string(),
            "file /tmp/out/bin/run #! Some(493)".to_string(),
            "file /tmp/out/lib/a.js a Some(420)".to_string(),
            "link /tmp/out/lib/b.js -> a.js".to_string(),
        ]
    );
}

#[test]
fn tar_refuses_escaping_entries() {
    let bytes = tar_gz(&[
        (b"package/ok.txt", tar::EntryType::Regular, 0o644, b"", b"ok"),
        (b"/etc/passwd", tar::EntryType::Regular, 0o644, b"", b"x"),
    ]);
    assert_eq!(cause(extract_plan("dest", &bytes, None, "test", "1.0.0")), "absolute path not allowed: /etc/passwd");
    let bytes = tar_gz(&[(b"package/../../evil", tar::EntryType::Regular, 0o644, b"", b"x")]);
    assert_eq!(cause(extract_plan("dest", &bytes, None, "test", "1.0.0")), "'..' not allowed: package/../../evil");
}

#[test]
fn unreadable_archive_fails_extraction() {
    let reason = cause(extract_plan("dest", b"not an archive", None, "test", "1.0.0"));
    assert!(!reason.is_empty());
    let reason = cause(extract_plan("dest", b"PK\x03\x04 truncated", None, "test", "1.0.0"));
    assert!(!reason.is_empty());
}

#[test]
fn zip_entries_keep_their_paths() {
    let mut zip = zip::ZipWriter::new(std::io::Cursor::new(Vec::new()));
    let options = zip::write::SimpleFileOptions::default().compression_method(zip::CompressionMethod::Stored);
    zip.add_directory("package/", options).unwrap();
    zip.start_file("package/a.txt", options).unwrap();
    zip.write_all(b"zipped").unwrap();
    let bytes = zip.finish().unwrap().into_inner();
    assert_eq!(
        steps(extract_plan("dest", &bytes, Some("zip"), "test", "1.0.0")),
        vec!["dir dest/package".to_string(), "file dest/package/a.txt zipped None".to_string()]
    );
}

#[test]
fn plan_stops_at_first_refused_entry() {
    let entries = vec![
        entry("a.txt", EntryKind::File, None, b"a"),
        entry("b/../../c", EntryKind::File, None, b"c"),
        entry("/abs", EntryKind::File, None, b"d"),
    ];
    let r = plan_extraction("dest", ArchiveFormat::Zip, &entries, "test", "1.0.0");
    assert_eq!(cause(r), "'..' not allowed: b/../../c");
}

#[test]
fn plan_caps_tar_modes_and_defaults_unreadable_ones() {
    let mut unreadable = entry("package/x", EntryKind::File, None, b"x");
    unreadable.mode = None;
    let mut exec = entry("package/y", EntryKind::File, None, b"y");
    exec.mode = Some(0o4751);
    let r = plan_extraction("d", ArchiveFormat::TarGz, &[unreadable, exec], "test", "1.0.0").unwrap();
    assert_eq!(r.len(), 2);
    assert!(matches!(&r[0], WriteStep::File { path, mode: Some(0o644), .. } if path == "d/x"));
    assert!(matches!(&r[1], WriteStep::File { path, mode: Some(0o755), .. } if path == "d/y"));
    let zipped = plan_extraction("d", ArchiveFormat::Zip, &[entry("package/x", EntryKind::File, None, b"x")], "t", "1").unwrap();
    assert!(matches!(&zipped[0], WriteStep::File { path, mode: None, .. } if path == "d/package/x"));
}

#[test]
fn links_resolve_from_their_directory() {
    assert!(link_is_kept("/tmp/d", "a/b", "x"));
    assert!(link_is_kept("/tmp/d", "a", "x/y"));
    assert!(!link_is_kept("/tmp/d", "a", "../x"));
    assert!(!link_is_kept("/tmp/d", "a", "/etc"));
    assert!(!link_is_kept("/tmp/d", "", "x"));
    assert!(link_is_kept("/tmp/d", "", "d/y"));
    assert!(link_is_kept("", "", "x"));
    let skipped = plan_extraction("/tmp/d", ArchiveFormat::TarGz, &[entry("package", EntryKind::Symlink, Some("x"), b"")], "t", "1");
    assert!(skipped.unwrap().is_empty());
    let no_target = plan_extraction("/tmp/d", ArchiveFormat::TarGz, &[entry("l", EntryKind::HardLink, None, b"")], "t", "1");
    assert!(no_target.unwrap().is_empty());
}

#[test]
fn tar_type_flags_classify() {
    assert_eq!(tar_entry_kind(b'5'), EntryKind::Dir);
    assert_eq!(tar_entry_kind(b'2'), EntryKind::Symlink);
    assert_eq!(tar_entry_kind(b'1'), EntryKind::HardLink);
    assert_eq!(tar_entry_kind(b'0'), EntryKind::File);
    assert_eq!(tar_entry_kind(b'6'), EntryKind::File);
}
