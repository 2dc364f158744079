use reposync::package::acquire::{package_start, package_step, PackageAction, PackageEvent, PackagePhase};
use reposync::package::error::PackageError;
use reposync::package::layout::package_dir;
use reposync::package::registry::ResolvedPackage;
use reposync::package::spec::PackageSpec;

fn resolved(spec: &PackageSpec, url: &str, integrity: Option<&str>) -> ResolvedPackage {
    ResolvedPackage {
        spec: spec.clone(),
        version: "1.0.0".to_string(),
        tarball_url: url.to_string(),
        integrity: integrity.map(|s| s.to_string()),
        shasum: None,
    }
}

fn tarball() -> Vec<u8> {
    let gz = flate2::write::GzEncoder::new(Vec::new(), flate2::Compression::default());
    let mut builder = tar::Builder::new(gz);
    let mut header = tar::Header::new_gnu();
    header.set_path("package/hello.txt").unwrap();
    header.set_size(5);
    header.set_mode(0o644);
    header.set_cksum();
    builder.append(&header, b"hello".as_slice()).unwrap();
    builder.into_inner().unwrap().finish().unwrap()
}

#[test]
fn pinned_cache_hit_needs_no_network() {
    let spec = PackageSpec::parse("zod@3.22.4", None).unwrap();
    let expected = package_dir("/cache", &spec, "3.22.4");
    let (state, action) = package_start(spec, "/cache".to_string());
    assert!(matches!(action, PackageAction::CheckCache(ref v) if v == "3.22.4"));
    let (state, action) = package_step(state, PackageEvent::Cached(true));
    assert!(matches!(action, PackageAction::Done(ref d) if *d == expected));
    assert_eq!(state.phase, PackagePhase::Finished);
}

#[test]
fn miss_resolves_fetches_checks_extracts_and_materializes() {
    let spec = PackageSpec::parse("zod", None).unwrap();
    let (state, action) = package_start(spec.clone(), "/cache".to_string());
    assert!(matches!(action, PackageAction::Resolve));
    let (state, action) = package_step(state, PackageEvent::Resolved(resolved(&spec, "https://r/zod.tgz", None)));
    assert!(matches!(action, PackageAction::CheckCache(ref v) if v == "1.0.0"));
    let (state, action) = package_step(state, PackageEvent::Cached(false));
    assert!(matches!(action, PackageAction::Download(ref u) if u == "https://r/zod.tgz"));
    let (state, action) = package_step(state, PackageEvent::Downloaded { bytes: tarball(), extract_dest: "/tmp/x".to_string() });
    assert!(state.verified);
    match action {
        PackageAction::Extract(steps) => assert_eq!(steps.len(), 1),
        other => panic!("expected extraction steps, got {other:?}"),
    }
    let (state, action) = package_step(state, PackageEvent::Extracted);
    assert!(matches!(action, PackageAction::Materialize(ref v) if v == "1.0.0"));
    let (_, action) = package_step(state, PackageEvent::Materialized(true));
    assert!(matches!(action, PackageAction::Done(ref d) if *d == package_dir("/cache", &spec, "1.0.0")));
}

#[test]
fn resolved_cache_hit_skips_the_download() {
    let spec = PackageSpec::parse("zod", None).unwrap();
    let (state, _) = package_start(spec.clone(), "/cache".to_string());
    let (state, _) = package_step(state, PackageEvent::Resolved(resolved(&spec, "https://r/zod.tgz", None)));
    let (_, action) = package_step(state, PackageEvent::Cached(true));
    assert!(matches!(action, PackageAction::Done(ref d) if *d == package_dir("/cache", &spec, "1.0.0")));
}

#[test]
fn npm_tarball_must_be_https() {
    let spec = PackageSpec::parse("zod", None).unwrap();
    let (state, _) = package_start(spec.clone(), "/cache".to_string());
    let (state, _) = package_step(state, PackageEvent::Resolved(resolved(&spec, "http://r/zod.tgz", None)));
    let (_, action) = package_step(state, PackageEvent::Cached(false));
    assert!(matches!(action, PackageAction::Fail(PackageError::InvalidSpec { .. })));
}

#[test]
fn digest_mismatch_stops_before_extraction() {
    let spec = PackageSpec::parse("pypi:requests", None).unwrap();
    let (state, _) = package_start(spec.clone(), "/cache".to_string());
    let digest = "0".repeat(64);
    let (state, _) = package_step(state, PackageEvent::Resolved(resolved(&spec, "https://f/requests.tar.gz", Some(&digest))));
    let (state, _) = package_step(state, PackageEvent::Cached(false));
    let (state, action) = package_step(state, PackageEvent::Downloaded { bytes: tarball(), extract_dest: "/tmp/x".to_string() });
    assert!(!state.verified);
    assert!(matches!(action, PackageAction::Fail(PackageError::Integrity { .. })));
    let (_, action) = package_step(state, PackageEvent::Extracted);
    assert!(matches!(action, PackageAction::Halt));
}

#[test]
fn missing_materialized_directory_fails() {
    let spec = PackageSpec::parse("zod", None).unwrap();
    let (state, _) = package_start(spec.clone(), "/cache".to_string());
    let (state, _) = package_step(state, PackageEvent::Resolved(resolved(&spec, "https://r/zod.tgz", None)));
    let (state, _) = package_step(state, PackageEvent::Cached(false));
    let (state, _) = package_step(state, PackageEvent::Downloaded { bytes: tarball(), extract_dest: "/tmp/x".to_string() });
    let (state, _) = package_step(state, PackageEvent::Extracted);
    let (_, action) = package_step(state, PackageEvent::Materialized(false));
    assert!(matches!(action, PackageAction::Fail(PackageError::Io { ref cause, .. }) if cause == "materialized directory missing"));
}

#[test]
fn each_answer_moves_the_work_on() {
    let spec = PackageSpec::parse("zod", None).unwrap();
    let (state, _) = package_start(spec.clone(), "/cache".to_string());
    let (state, _) = package_step(state, PackageEvent::Resolved(resolved(&spec, "https://r/zod.tgz", None)));
    let (state, action) = package_step(state, PackageEvent::Cached(false));
    assert_eq!(state.phase, PackagePhase::Fetching);
    assert!(matches!(action, PackageAction::Download(_)));
    let (state, action) = package_step(state, PackageEvent::Downloaded { bytes: b"not an archive".to_vec(), extract_dest: "/tmp/x".to_string() });
    assert_eq!(state.phase, PackagePhase::Finished);
    assert!(matches!(action, PackageAction::Fail(PackageError::Extraction { .. })));
}
