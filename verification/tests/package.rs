use reposync::package::archive::{
    capped_mode, is_within, is_zip, link_is_safe, sanitize_entry_path, strip_npm_package_prefix,
};
use reposync::package::cache::{after_lock_attempt, map_io_err, LockAttempt, LockStep};
use reposync::package::error::PackageError;
use reposync::package::integrity::{
    digest_matches, npm_integrity_check, verify_npm_shasum, verify_sha256_hex, verify_sha512,
    IntegrityCheck,
};
use reposync::package::layout::{
    cache_root, complete_marker, evict_spec, join_path, lock_path, package_dir,
    package_versions_dir, Eviction,
};
use reposync::package::registry::{
    check_download_status, check_metadata_status, check_tarball_url, npm_base_url,
    npm_metadata_url, pypi_base_url, pypi_metadata_url, resolve_npm, resolve_pypi,
    verify_npm_download, verify_pypi_download, NpmDist, NpmMeta, PypiMeta, PypiUrl,
    ResolvedPackage,
};
use reposync::package::spec::{normalize_pypi_name, PackageSpec, Registry};

const HELLO_SHA512_B64: &str =
    "m3HSJL1i83hdltRq0+o9czGb+8KJDKra4t/3JRlnPKcjI8PZm6XBHXx6zG4UuMXaDEZjR1wuXDre9G9zvN7AQw==";
const HELLO_SHA256_HEX: &str = "2cf24dba5fb0a30e26e83b2ac5b9e29e1b161e5c1fa7425e73043362938b9824";

fn spec(s: &str) -> PackageSpec {
    PackageSpec::parse(s, None).unwrap()
}

#[test]
fn rejects_absolute_and_parent() {
    assert!(sanitize_entry_path("/etc/passwd").is_err());
    assert!(sanitize_entry_path("../../a").is_err());
    assert!(sanitize_entry_path("a/../b").is_err());
    assert_eq!(sanitize_entry_path("a/b/c").unwrap(), "a/b/c");
}

#[test]
fn sanitize_normalizes_and_reports() {
    assert_eq!(sanitize_entry_path("./a//b/./c/").unwrap(), "a/b/c");
    assert_eq!(sanitize_entry_path("/etc/passwd").unwrap_err(), "absolute path not allowed: /etc/passwd");
    assert_eq!(sanitize_entry_path("a/../b").unwrap_err(), "'..' not allowed: a/../b");
    assert_eq!(sanitize_entry_path("a/..b").unwrap(), "a/..b");
}

#[test]
fn strips_npm_prefix() {
    assert_eq!(strip_npm_package_prefix("package/src/index.ts"), "src/index.ts");
    assert_eq!(strip_npm_package_prefix("src/index.ts"), "src/index.ts");
}

#[test]
fn strip_keeps_other_first_components() {
    assert_eq!(strip_npm_package_prefix("packages/a"), "packages/a");
    assert_eq!(strip_npm_package_prefix("/package/a"), "/package/a");
    assert_eq!(strip_npm_package_prefix("package"), "");
}

#[test]
fn within_compares_components() {
    assert!(is_within("/tmp/dest", "/tmp/dest/a/b"));
    assert!(is_within("/tmp/dest", "/tmp/dest"));
    assert!(!is_within("/tmp/dest", "/tmp/destination/a"));
    assert!(!is_within("/tmp/dest", "tmp/dest/a"));
    assert!(is_within("/tmp/dest/", "/tmp//dest/x"));
}

#[test]
fn links_and_permissions() {
    assert!(link_is_safe("lib/index.js"));
    assert!(!link_is_safe("/etc/passwd"));
    assert!(!link_is_safe("../x"));
    assert!(!link_is_safe("a..b"));
    assert_eq!(capped_mode(0o777), 0o755);
    assert_eq!(capped_mode(0o100), 0o755);
    assert_eq!(capped_mode(0o666), 0o644);
}

#[test]
fn archive_kind_by_magic_or_extension() {
    assert!(is_zip(b"PK\x03\x04rest", None));
    assert!(is_zip(b"\x1f\x8b", Some("zip")));
    assert!(!is_zip(b"\x1f\x8b\x08\x00", Some("tgz")));
    assert!(!is_zip(b"PK", None));
}

#[test]
fn npm_bare() {
    let s = spec("zod");
    assert_eq!(s.registry, Registry::Npm);
    assert_eq!(s.name, "zod");
    assert_eq!(s.version, None);
}

#[test]
fn npm_with_version() {
    let s = spec("zod@3.22.4");
    assert_eq!(s.name, "zod");
    assert_eq!(s.version, Some("3.22.4".to_owned()));
}

#[test]
fn npm_scoped() {
    let s = spec("@scope/pkg@1.0.0");
    assert_eq!(s.name, "@scope/pkg");
    assert_eq!(s.version, Some("1.0.0".to_owned()));
    let s2 = spec("@scope/pkg");
    assert_eq!(s2.version, None);
}

#[test]
fn pypi_bare() {
    let s = spec("pypi:requests");
    assert_eq!(s.registry, Registry::Pypi);
    assert_eq!(s.name, "requests");
}

#[test]
fn pypi_with_eq() {
    let s = spec("pypi:requests==2.31.0");
    assert_eq!(s.version, Some("2.31.0".to_owned()));
}

#[test]
fn pypi_normalizes() {
    let s = spec("pypi:My_Package");
    assert_eq!(s.normalized_name(), "my-package");
}

#[test]
fn version_override_mismatch() {
    let e = PackageSpec::parse("zod@1.0.0", Some("2.0.0")).unwrap_err();
    assert!(e.message().contains("mismatch"));
}

#[test]
fn unsupported_registry() {
    let e = PackageSpec::parse("crates:serde", None).unwrap_err();
    assert!(matches!(e, PackageError::UnsupportedRegistry { .. }));
}

#[test]
fn parse_edge_cases() {
    assert_eq!(PackageSpec::parse("   ", None).unwrap_err().message(), "invalid package spec '': package spec must not be empty");
    assert_eq!(
        PackageSpec::parse("npm:", None).unwrap_err().message(),
        "invalid package spec 'npm:': missing package name after registry prefix"
    );
    assert_eq!(
        PackageSpec::parse("zod@", None).unwrap_err().message(),
        "invalid package spec 'zod@': version after '@' must not be empty"
    );
    assert_eq!(
        PackageSpec::parse("pypi:requests==", None).unwrap_err().message(),
        "invalid package spec 'requests==': version after '==' must not be empty"
    );
    assert_eq!(
        PackageSpec::parse("zod@1.0.0", Some("2.0.0")).unwrap_err().message(),
        "invalid package spec 'zod@1.0.0': version mismatch: '1.0.0' vs '--version 2.0.0'"
    );
    let e = PackageSpec::parse("crates:serde", None).unwrap_err();
    assert_eq!(e.message(), "unsupported registry 'crates'");
    assert_eq!(e.exit_code(), 2);
}

#[test]
fn parse_versions_and_overrides() {
    let s = PackageSpec::parse(" NPM:Zod ", Some(" 1.2.3 ")).unwrap();
    assert_eq!(s.registry, Registry::Npm);
    assert_eq!(s.name, "Zod");
    assert_eq!(s.version, Some("1.2.3".to_owned()));
    assert_eq!(s.normalized_name(), "zod");
    let same = PackageSpec::parse("zod@1.0.0", Some("1.0.0")).unwrap();
    assert_eq!(same.version, Some("1.0.0".to_owned()));
    let blank = PackageSpec::parse("zod", Some("  ")).unwrap();
    assert_eq!(blank.version, None);
    let at = PackageSpec::parse("pypi:requests@2.0", None).unwrap();
    assert_eq!(at.name, "requests");
    assert_eq!(at.version, Some("2.0".to_owned()));
    let spaced = PackageSpec::parse("pypi:requests == 2.31.0", None).unwrap();
    assert_eq!(spaced.name, "requests");
    assert_eq!(spaced.version, Some("2.31.0".to_owned()));
}

#[test]
fn registry_names() {
    assert_eq!(Registry::Npm.as_str(), "npm");
    assert_eq!(Registry::Pypi.as_str(), "pypi");
    assert_eq!(Registry::from_str("PyPI"), Some(Registry::Pypi));
    assert_eq!(Registry::from_str("cargo"), None);
    assert_eq!(normalize_pypi_name("A__b..C-_d"), "a-b-c-d");
    assert_eq!(normalize_pypi_name("-x-"), "-x-");
    assert_eq!(Registry::Npm.normalize_name("@Scope/Pkg"), "@scope/pkg");
}

#[test]
fn exit_codes_and_messages() {
    let s = |x: &str| x.to_string();
    let cases = vec![
        (PackageError::InvalidSpec { spec: s("x"), reason: s("r") }, 2, "invalid package spec 'x': r"),
        (PackageError::UnsupportedRegistry { registry: s("c") }, 2, "unsupported registry 'c'"),
        (PackageError::NotFound { registry: s("npm"), name: s("n") }, 3, "package 'n' not found in registry 'npm'"),
        (PackageError::VersionNotFound { name: s("n"), version: s("1") }, 3, "version '1' not found for 'n'"),
        (PackageError::Network { url: s("u"), cause: s("c") }, 4, "failed to fetch u: c"),
        (PackageError::Integrity { name: s("n"), version: s("1") }, 5, "integrity check failed for n@1"),
        (PackageError::Extraction { name: s("n"), version: s("1"), cause: s("c") }, 6, "failed to extract n@1: c"),
        (PackageError::Io { path: s("p"), cause: s("c") }, 6, "cache I/O error at p: c"),
        (
            PackageError::Permission { path: s("p"), cause: s("c") },
            6,
            "permission denied writing cache at p: c. hint: set $REPOSYNC_CACHE to a writable directory",
        ),
    ];
    for (e, code, text) in cases {
        assert_eq!(e.exit_code(), code);
        assert_eq!(e.message(), text);
    }
    assert_eq!(PackageError::supported_registries(), "supported registries: npm, pypi");
}

#[test]
fn cache_root_respects_env() {
    assert_eq!(cache_root(Some("/tmp/my-cache"), None, None), "/tmp/my-cache");
}

#[test]
fn cache_root_falls_back() {
    assert_eq!(cache_root(Some("  "), Some("/xdg"), None), "/xdg/reposync");
    assert_eq!(cache_root(None, Some(""), Some("/home/u")), "/home/u/.cache/reposync");
    assert_eq!(cache_root(None, None, None), "./.cache/reposync");
}

#[test]
fn package_dir_layout() {
    let spec = PackageSpec { registry: Registry::Npm, name: "Zod".to_owned(), version: Some("3.22.4".to_owned()) };
    assert_eq!(package_dir("/tmp/c", &spec, "3.22.4"), "/tmp/c/packages/npm/zod/3.22.4/package");
}

#[test]
fn cache_layout_files() {
    let spec = spec("pypi:My_Pkg==1.0");
    assert_eq!(complete_marker("/c", &spec, "1.0"), "/c/packages/pypi/my-pkg/1.0/.complete");
    assert_eq!(lock_path("/c/", &spec, "1.0"), "/c/packages/pypi/my-pkg/1.0/.lock");
    assert_eq!(package_versions_dir("/c", &spec), "/c/packages/pypi/my-pkg");
    assert_eq!(join_path("a", "/b"), "/b");
    assert_eq!(join_path("", "b"), "b");
}

#[test]
fn eviction_plans() {
    assert!(matches!(evict_spec("", None, false, true).unwrap(), Eviction::All));
    match evict_spec("pypi:requests==2.31.0", None, false, false).unwrap() {
        Eviction::One(s, v) => {
            assert_eq!(s.name, "requests");
            assert_eq!(v, "2.31.0");
        }
        _ => panic!("expected one version"),
    }
    assert!(matches!(evict_spec("zod", None, false, false).unwrap(), Eviction::AllVersions(_)));
    assert!(matches!(evict_spec("zod@1", None, true, false).unwrap(), Eviction::AllVersions(_)));
    assert!(evict_spec("", None, false, false).is_err());
}

#[test]
fn npm_integrity_is_checked() {
    let integrity = format!("sha512-{HELLO_SHA512_B64}");
    match npm_integrity_check(&integrity, "n", "1").unwrap() {
        IntegrityCheck::Sha512(expected) => {
            assert_eq!(expected.len(), 64);
            assert!(verify_sha512(b"hello", &expected, "n", "1").is_ok());
            assert!(verify_sha512(b"hello!", &expected, "n", "1").is_err());
        }
        IntegrityCheck::Skip => panic!("expected a sha512 check"),
    }
    assert!(matches!(npm_integrity_check("sha1-abc", "n", "1").unwrap(), IntegrityCheck::Skip));
    let bad = npm_integrity_check("sha512-!!!", "n", "1").unwrap_err();
    assert_eq!(bad.exit_code(), 5);
    assert!(digest_matches(&[1, 2], &[1, 2], "n", "1").is_ok());
    assert!(digest_matches(&[1, 2], &[1], "n", "1").is_err());
}

#[test]
fn shasum_and_sha256_checks() {
    let forty = "0123456789012345678901234567890123456789";
    assert!(verify_npm_shasum(forty, 0, "n", "1").is_err());
    assert!(verify_npm_shasum(forty, 3, "n", "1").is_ok());
    assert!(verify_npm_shasum("short", 0, "n", "1").is_ok());
    assert!(verify_sha256_hex(b"hello", HELLO_SHA256_HEX, "n", "1").is_ok());
    assert!(verify_sha256_hex(b"hello!", HELLO_SHA256_HEX, "n", "1").is_err());
}

#[test]
fn registry_urls() {
    assert_eq!(npm_base_url(None), "https://registry.npmjs.org");
    assert_eq!(npm_base_url(Some("https://r.example//")), "https://r.example");
    assert_eq!(pypi_base_url(None), "https://pypi.org");
    assert_eq!(npm_metadata_url("https://r", "@s/p").unwrap(), "https://r/@s%2Fp");
    assert_eq!(npm_metadata_url("http://r", "p").unwrap_err().message(), "invalid package spec 'p': registry URL must be https");
    assert_eq!(pypi_metadata_url("http://127.0.0.1:1", "requests").unwrap(), "http://127.0.0.1:1/pypi/requests/json");
    assert!(pypi_metadata_url("ftp://x", "r").is_err());
    assert!(check_tarball_url("https://x/a.tgz").is_ok());
    assert!(check_tarball_url("http://x/a.tgz").is_err());
}

#[test]
fn response_statuses() {
    assert!(check_metadata_status(200, "200 OK", "u", "npm", "n").is_ok());
    let missing = check_metadata_status(404, "404 Not Found", "u", "npm", "n").unwrap_err();
    assert_eq!(missing.message(), "package 'n' not found in registry 'npm'");
    let failed = check_metadata_status(500, "500 Internal Server Error", "u", "npm", "n").unwrap_err();
    assert_eq!(failed.message(), "failed to fetch u: HTTP 500 Internal Server Error");
    assert!(check_download_status(404, "404 Not Found", "u").is_err());
    assert!(check_download_status(204, "204 No Content", "u").is_ok());
}

fn dist(tarball: &str) -> NpmDist {
    NpmDist { tarball: tarball.to_string(), shasum: None, integrity: Some("sha512-x".to_string()) }
}

#[test]
fn npm_resolution() {
    let meta = NpmMeta {
        dist_tags: Some(vec![("latest".to_string(), "2.0.0".to_string())]),
        versions: Some(vec![
            ("1.0.0".to_string(), dist("https://r/p-1.0.0.tgz")),
            ("2.0.0".to_string(), dist("https://r/p-2.0.0.tgz")),
        ]),
        version: None,
        dist: None,
    };
    let latest = resolve_npm(&spec("p"), "https://r/p", &meta).unwrap();
    assert_eq!(latest.version, "2.0.0");
    assert_eq!(latest.tarball_url, "https://r/p-2.0.0.tgz");
    assert_eq!(latest.integrity, Some("sha512-x".to_string()));
    let pinned = resolve_npm(&spec("p@1.0.0"), "https://r/p", &meta).unwrap();
    assert_eq!(pinned.tarball_url, "https://r/p-1.0.0.tgz");
    let missing = resolve_npm(&spec("p@3.0.0"), "https://r/p", &meta).unwrap_err();
    assert_eq!(missing.message(), "version '3.0.0' not found for 'p'");
    let bare = NpmMeta { dist_tags: None, versions: None, version: None, dist: None };
    assert_eq!(resolve_npm(&spec("p"), "u", &bare).unwrap_err().message(), "failed to fetch u: no version found");
    let single = NpmMeta { dist_tags: None, versions: None, version: Some("0.1.0".to_string()), dist: Some(dist("https://r/s.tgz")) };
    let one = resolve_npm(&spec("p"), "u", &single).unwrap();
    assert_eq!(one.version, "0.1.0");
    assert_eq!(one.tarball_url, "https://r/s.tgz");
}

fn file(url: &str, kind: Option<&str>, sha: Option<&str>) -> PypiUrl {
    PypiUrl {
        url: url.to_string(),
        packagetype: kind.map(|k| k.to_string()),
        digests: sha.map(|d| vec![("md5".to_string(), "m".to_string()), ("sha256".to_string(), d.to_string())]),
    }
}

#[test]
fn pypi_resolution_prefers_sdist() {
    let meta = PypiMeta {
        info_version: "2.31.0".to_string(),
        urls: vec![file("https://f/w.whl", Some("bdist_wheel"), Some("w")), file("https://f/s.tar.gz", Some("sdist"), Some("s"))],
        releases: None,
    };
    let r = resolve_pypi(&spec("pypi:requests"), &meta).unwrap();
    assert_eq!(r.version, "2.31.0");
    assert_eq!(r.tarball_url, "https://f/s.tar.gz");
    assert_eq!(r.integrity, Some("s".to_string()));
    assert_eq!(r.shasum, Some("s".to_string()));
    let other = resolve_pypi(&spec("pypi:requests==1.0"), &meta).unwrap_err();
    assert_eq!(other.message(), "version '1.0' not found for 'requests'");
    let releases = PypiMeta {
        info_version: "2.0".to_string(),
        urls: vec![],
        releases: Some(vec![("1.0".to_string(), vec![file("https://f/old.whl", None, None)])]),
    };
    let old = resolve_pypi(&spec("pypi:requests==1.0"), &releases).unwrap();
    assert_eq!(old.tarball_url, "https://f/old.whl");
    assert_eq!(old.integrity, None);
}

#[test]
fn downloads_are_verified() {
    let npm = ResolvedPackage {
        spec: spec("p"),
        version: "1".to_string(),
        tarball_url: "https://r/p.tgz".to_string(),
        integrity: Some(format!("sha512-{HELLO_SHA512_B64}")),
        shasum: None,
    };
    assert!(verify_npm_download(&npm, b"hello").is_ok());
    assert_eq!(verify_npm_download(&npm, b"tampered").unwrap_err().message(), "integrity check failed for p@1");
    let pypi = ResolvedPackage {
        spec: spec("pypi:r"),
        version: "1".to_string(),
        tarball_url: "https://f/r.tar.gz".to_string(),
        integrity: Some(HELLO_SHA256_HEX.to_string()),
        shasum: None,
    };
    assert!(verify_pypi_download(&pypi, b"hello").is_ok());
    assert!(verify_pypi_download(&pypi, b"other").is_err());
}

#[test]
fn cache_writer_decisions() {
    assert_eq!(map_io_err("/p", true, "denied").message(), "permission denied writing cache at /p: denied. hint: set $REPOSYNC_CACHE to a writable directory");
    assert_eq!(map_io_err("/p", false, "gone").message(), "cache I/O error at /p: gone");
    assert_eq!(after_lock_attempt(LockAttempt::Acquired, 99), LockStep::Proceed);
    assert_eq!(after_lock_attempt(LockAttempt::WouldBlock, 59), LockStep::Retry);
    assert_eq!(after_lock_attempt(LockAttempt::WouldBlock, 60), LockStep::Fail);
    assert_eq!(after_lock_attempt(LockAttempt::Failed, 0), LockStep::Fail);
}

#[test]
fn cache_names_are_their_own_cache_names() {
    for name in ["My_Package", "a..b", "-x__Y-", "Zod", "@Scope/Pkg"] {
        for registry in [Registry::Npm, Registry::Pypi] {
            let once = registry.normalize_name(name);
            assert_eq!(registry.normalize_name(&once), once);
        }
    }
}

#[test]
fn sanitized_entries_stay_inside() {
    for entry in ["a/b", "./x/../y", "package/../../etc", "/abs", "", ".", "a//./b/", "package/lib/x.js", "package"] {
        if let Ok(path) = sanitize_entry_path(entry) {
            let dest = "/tmp/extract";
            assert!(is_within(dest, &join_path(dest, &path)), "{entry} -> {path}");
            let stripped = strip_npm_package_prefix(&path);
            assert!(is_within(dest, &join_path(dest, &stripped)), "{entry} -> {stripped}");
        }
    }
}

#[test]
fn version_override_completes_the_spec() {
    let bare = PackageSpec::parse("zod", None).unwrap();
    assert_eq!(PackageSpec::parse("zod", Some("  ")).unwrap(), bare);
    let over = PackageSpec::parse("zod", Some(" 3.22.4 ")).unwrap();
    assert_eq!(over.version.as_deref(), Some("3.22.4"));
    assert_eq!((over.registry, over.name.as_str()), (bare.registry, bare.name.as_str()));
    let pinned = PackageSpec::parse("zod@3.22.4", None).unwrap();
    assert_eq!(PackageSpec::parse("zod@3.22.4", Some(" 3.22.4")).unwrap(), pinned);
    assert!(PackageSpec::parse("zod@3.22.4", Some("3.22.5")).is_err());
    assert!(PackageSpec::parse("zod@ 1", Some(" 1")).is_err());
}

#[test]
fn pypi_cache_names_are_clean_and_stable() {
    assert_eq!(Registry::Npm.normalize_name("My_Package"), "my_package");
    assert_eq!(Registry::Pypi.normalize_name("My_Package"), "my-package");
    assert_eq!(Registry::Pypi.normalize_name("a._-b"), "a-b");
    let once = Registry::Pypi.normalize_name("Zope.Interface__X");
    assert_eq!(once, "zope-interface-x");
    assert_eq!(Registry::Pypi.normalize_name(&once), once);
}
