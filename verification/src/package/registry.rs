//! Registry answers and what is made of them: the metadata URL asked for, the
//! version and archive a package resolves to, and the checks its download
//! must pass. The requests themselves are made by the caller.
use vstd::prelude::*;

use crate::package::error::{Failure, PackageError};
use crate::package::integrity::{npm_integrity_check, verify_npm_shasum, verify_sha256_hex, verify_sha512, IntegrityCheck};
use crate::entries::{find_key, lookup};
use crate::package::spec::{copy_opt, copy_string, opt_view, PackageSpec};
use crate::text::{chars_eq, chars_of, concat_chars, has_prefix, starts_with, string_of};

verus! {

/// A package resolved to one version, with where to fetch its archive and
/// how to check it.
#[derive(Debug)]
pub struct ResolvedPackage {
    pub spec: PackageSpec,
    pub version: String,
    pub tarball_url: String,
    /// For npm: `integrity` (`sha512-...`); for PyPI: the SHA-256 digest.
    pub integrity: Option<String>,
    pub shasum: Option<String>,
}

/// A registry that resolves package specs and fetches their archives.
pub trait RegistryClient {
    fn resolve(&self, spec: &PackageSpec) -> Result<ResolvedPackage, PackageError>;

    fn fetch(&self, resolved: &ResolvedPackage, dest_file: &str) -> Result<(), PackageError>;
}

/// `s` without its trailing `/` characters (`trim_end_matches('/')`).
pub open spec fn without_trailing_slashes(s: Seq<char>) -> Seq<char>
    decreases s.len(),
{
    if s.len() > 0 && s.last() == '/' {
        without_trailing_slashes(s.drop_last())
    } else {
        s
    }
}

/// The registry base URL: the configured one, else `default`, without
/// trailing slashes.
pub open spec fn base_url_of(configured: Option<Seq<char>>, default: Seq<char>) -> Seq<char> {
    without_trailing_slashes(
        match configured {
            Some(c) => c,
            None => default,
        },
    )
}

fn strip_trailing_slashes(v: &[char]) -> (r: Vec<char>)
    ensures
        r@ == without_trailing_slashes(v@),
{
    let mut j: usize = v.len();
    assert(v@.subrange(0, j as int) =~= v@);
    while j > 0 && v[j - 1] == '/'
        invariant
            j <= v@.len(),
            without_trailing_slashes(v@) == without_trailing_slashes(v@.subrange(0, j as int)),
        decreases j,
    {
        assert(v@.subrange(0, j as int).drop_last() =~= v@.subrange(0, j - 1));
        j = j - 1;
    }
    crate::text::sub_chars(v, 0, j)
}

/// The npm registry base URL: `$REPOSYNC_NPM_REGISTRY` when set, else the
/// public registry.
pub fn npm_base_url(configured: Option<&str>) -> (r: String)
    ensures
        r@ == base_url_of(crate::package::spec::opt_str_view(configured), "https://registry.npmjs.org"@),
{
    let raw = match configured {
        Some(c) => chars_of(c),
        None => chars_of("https://registry.npmjs.org"),
    };
    string_of(&strip_trailing_slashes(&raw))
}

/// The PyPI base URL: `$REPOSYNC_PYPI_REGISTRY` when set, else the public
/// index.
pub fn pypi_base_url(configured: Option<&str>) -> (r: String)
    ensures
        r@ == base_url_of(crate::package::spec::opt_str_view(configured), "https://pypi.org"@),
{
    let raw = match configured {
        Some(c) => chars_of(c),
        None => chars_of("https://pypi.org"),
    };
    string_of(&strip_trailing_slashes(&raw))
}

/// `name` with each `/` written `%2F`, as a scoped npm name is put in a URL.
pub open spec fn url_encoded_name(name: Seq<char>) -> Seq<char>
    decreases name.len(),
{
    if name.len() == 0 {
        seq![]
    } else if name[0] == '/' {
        "%2F"@ + url_encoded_name(name.drop_first())
    } else {
        seq![name[0]] + url_encoded_name(name.drop_first())
    }
}

/// The metadata URL of an npm package, which must be `https`.
pub open spec fn npm_metadata_url_of(base: Seq<char>, name: Seq<char>) -> Result<Seq<char>, Failure> {
    let url = base + "/"@ + url_encoded_name(name);
    if has_prefix(url, "https://"@) {
        Ok(url)
    } else {
        Err(Failure::InvalidSpec(name, "registry URL must be https"@))
    }
}

/// The URL npm metadata for `name` is read from; refused unless `https`.
pub fn npm_metadata_url(base: &str, name: &str) -> (r: Result<String, PackageError>)
    ensures
        match r {
            Ok(u) => npm_metadata_url_of(base@, name@) == Ok::<Seq<char>, Failure>(u@),
            Err(e) => npm_metadata_url_of(base@, name@) == Err::<Seq<char>, Failure>(e@),
        },
{
    let v = chars_of(name);
    let n = v.len();
    let mut enc: Vec<char> = Vec::new();
    let mut i: usize = 0;
    assert(v@.subrange(0, n as int) =~= v@);
    while i < n
        invariant
            n == v@.len(),
            i <= n,
            enc@ + url_encoded_name(v@.subrange(i as int, n as int)) == url_encoded_name(v@),
        decreases n - i,
    {
        let ghost rest = v@.subrange(i as int, n as int);
        assert(rest.drop_first() =~= v@.subrange(i + 1, n as int));
        let ghost before = enc@;
        if v[i] == '/' {
            enc = concat_chars(&enc, &chars_of("%2F"));
        } else {
            enc.push(v[i]);
            assert(enc@ =~= before + seq![v@[i as int]]);
        }
        i = i + 1;
    }
    assert(v@.subrange(n as int, n as int) =~= Seq::<char>::empty());
    assert(enc@ + Seq::<char>::empty() =~= enc@);
    let url = concat_chars(&concat_chars(&chars_of(base), &chars_of("/")), &enc);
    if starts_with(&url, &chars_of("https://")) {
        Ok(string_of(&url))
    } else {
        Err(PackageError::InvalidSpec { spec: string_of(&v), reason: string_of(&chars_of("registry URL must be https")) })
    }
}

/// The JSON metadata URL of a PyPI project, which must be `https` or
/// `http`.
pub open spec fn pypi_metadata_url_of(base: Seq<char>, name: Seq<char>) -> Result<Seq<char>, Failure> {
    let url = base + "/pypi/"@ + name + "/json"@;
    if has_prefix(url, "https://"@) || has_prefix(url, "http://"@) {
        Ok(url)
    } else {
        Err(Failure::InvalidSpec(name, "registry URL must be https"@))
    }
}

/// The URL PyPI metadata for `name` is read from.
pub fn pypi_metadata_url(base: &str, name: &str) -> (r: Result<String, PackageError>)
    ensures
        match r {
            Ok(u) => pypi_metadata_url_of(base@, name@) == Ok::<Seq<char>, Failure>(u@),
            Err(e) => pypi_metadata_url_of(base@, name@) == Err::<Seq<char>, Failure>(e@),
        },
{
    let url = concat_chars(&concat_chars(&concat_chars(&chars_of(base), &chars_of("/pypi/")), &chars_of(name)), &chars_of("/json"));
    if starts_with(&url, &chars_of("https://")) || starts_with(&url, &chars_of("http://")) {
        Ok(string_of(&url))
    } else {
        Err(PackageError::InvalidSpec { spec: string_of(&chars_of(name)), reason: string_of(&chars_of("registry URL must be https")) })
    }
}

/// A success status: `2xx`.
pub open spec fn is_success(status: u16) -> bool {
    200 <= status <= 299
}

/// What a metadata response's status means: `404` is a missing package,
/// any other status but `2xx` a network failure reported with the status
/// text.
pub open spec fn metadata_status_of(status: u16, status_text: Seq<char>, url: Seq<char>, registry: Seq<char>, name: Seq<char>) -> Option<Failure> {
    if status == 404 {
        Some(Failure::NotFound(registry, name))
    } else if !is_success(status) {
        Some(Failure::Network(url, "HTTP "@ + status_text))
    } else {
        None
    }
}

/// Checks the status of a metadata response (`status_text` being how the
/// status is written, such as `500 Internal Server Error`).
pub fn check_metadata_status(status: u16, status_text: &str, url: &str, registry: &str, name: &str) -> (r: Result<(), PackageError>)
    ensures
        match r {
            Ok(()) => metadata_status_of(status, status_text@, url@, registry@, name@) is None,
            Err(e) => metadata_status_of(status, status_text@, url@, registry@, name@) == Some(e@),
        },
{
    if status == 404 {
        return Err(PackageError::NotFound { registry: string_of(&chars_of(registry)), name: string_of(&chars_of(name)) });
    }
    check_download_status(status, status_text, url)
}

/// Checks the status of an archive download: anything but `2xx` is a
/// network failure reported with the status text.
pub fn check_download_status(status: u16, status_text: &str, url: &str) -> (r: Result<(), PackageError>)
    ensures
        match r {
            Ok(()) => is_success(status),
            Err(e) => !is_success(status) && e@ == Failure::Network(url@, "HTTP "@ + status_text@),
        },
{
    if 200 <= status && status <= 299 {
        Ok(())
    } else {
        Err(PackageError::Network { url: string_of(&chars_of(url)), cause: string_of(&concat_chars(&chars_of("HTTP "), &chars_of(status_text))) })
    }
}

/// Where an npm archive is downloaded from, and how it is checked.
#[derive(Debug)]
pub struct NpmDist {
    pub tarball: String,
    pub shasum: Option<String>,
    pub integrity: Option<String>,
}

/// The parts of an npm metadata document that resolution reads; maps are
/// given as their entries.
#[derive(Debug)]
pub struct NpmMeta {
    pub dist_tags: Option<Vec<(String, String)>>,
    pub versions: Option<Vec<(String, NpmDist)>>,
    pub version: Option<String>,
    pub dist: Option<NpmDist>,
}

/// The version an npm spec resolves to: its pinned version, else the
/// `latest` dist-tag, else the document's own version.
pub open spec fn npm_version_of(pinned: Option<Seq<char>>, url: Seq<char>, meta: NpmMeta) -> Result<Seq<char>, Failure> {
    match pinned {
        Some(v) => Ok(v),
        None => match meta.dist_tags {
            Some(tags) => match lookup(tags@, "latest"@) {
                Some(v) => Ok(v@),
                None => Err(Failure::Network(url, "no dist-tag 'latest'"@)),
            },
            None => match meta.version {
                Some(v) => Ok(v@),
                None => Err(Failure::Network(url, "no version found"@)),
            },
        },
    }
}

/// The version and archive an npm spec resolves to.
pub open spec fn npm_resolution(s: PackageSpec, url: Seq<char>, meta: NpmMeta) -> Result<(Seq<char>, NpmDist), Failure> {
    match npm_version_of(opt_view(s.version), url, meta) {
        Err(e) => Err(e),
        Ok(version) => match meta.versions {
            Some(versions) => match lookup(versions@, version) {
                Some(d) => Ok((version, d)),
                None => Err(Failure::VersionNotFound(s.name@, version)),
            },
            None => match meta.dist {
                Some(d) => Ok((version, d)),
                None => Err(Failure::Network(url, "no dist info"@)),
            },
        },
    }
}

fn copy_dist(d: &NpmDist) -> (r: NpmDist)
    ensures
        r == *d,
{
    NpmDist { tarball: copy_string(&d.tarball), shasum: copy_opt(&d.shasum), integrity: copy_opt(&d.integrity) }
}

/// Resolves an npm spec against the metadata read from `url`.
pub fn resolve_npm(spec: &PackageSpec, url: &str, meta: &NpmMeta) -> (r: Result<ResolvedPackage, PackageError>)
    ensures
        match (r, npm_resolution(*spec, url@, *meta)) {
            (Ok(p), Ok((v, d))) => p.spec == *spec && p.version@ == v && p.tarball_url == d.tarball
                && p.integrity == d.integrity && p.shasum == d.shasum,
            (Err(e), Err(f)) => e@ == f,
            _ => false,
        },
{
    proof {
        reveal_strlit("latest");
    }
    let version: Vec<char> = match &spec.version {
        Some(v) => chars_of(v.as_str()),
        None => match &meta.dist_tags {
            Some(tags) => match find_key(tags, &chars_of("latest")) {
                Some(i) => chars_of(tags[i].1.as_str()),
                None => {
                    return Err(PackageError::Network { url: string_of(&chars_of(url)), cause: string_of(&chars_of("no dist-tag 'latest'")) });
                },
            },
            None => match &meta.version {
                Some(v) => chars_of(v.as_str()),
                None => {
                    return Err(PackageError::Network { url: string_of(&chars_of(url)), cause: string_of(&chars_of("no version found")) });
                },
            },
        },
    };
    assert(npm_version_of(opt_view(spec.version), url@, *meta) == Ok::<Seq<char>, Failure>(version@));
    let dist: NpmDist = match &meta.versions {
        Some(versions) => match find_key(versions, &version) {
            Some(i) => copy_dist(&versions[i].1),
            None => {
                return Err(PackageError::VersionNotFound { name: copy_string(&spec.name), version: string_of(&version) });
            },
        },
        None => match &meta.dist {
            Some(d) => copy_dist(d),
            None => {
                return Err(PackageError::Network { url: string_of(&chars_of(url)), cause: string_of(&chars_of("no dist info")) });
            },
        },
    };
    Ok(ResolvedPackage {
        spec: spec.clone(),
        version: string_of(&version),
        tarball_url: dist.tarball,
        integrity: dist.integrity,
        shasum: dist.shasum,
    })
}

/// One file a PyPI release offers.
#[derive(Debug)]
pub struct PypiUrl {
    pub url: String,
    pub packagetype: Option<String>,
    pub digests: Option<Vec<(String, String)>>,
}

/// The parts of a PyPI JSON document that resolution reads.
#[derive(Debug)]
pub struct PypiMeta {
    /// `info.version`: the latest version.
    pub info_version: String,
    /// The files of the latest version.
    pub urls: Vec<PypiUrl>,
    /// The files of each version, as entries.
    pub releases: Option<Vec<(String, Vec<PypiUrl>)>>,
}

/// The files offered for `version`: from `releases` when present, else the
/// top-level files when `version` is the latest.
pub open spec fn pypi_files(meta: PypiMeta, version: Seq<char>) -> Seq<PypiUrl> {
    match meta.releases {
        Some(rel) => match lookup(rel@, version) {
            Some(files) => files@,
            None => seq![],
        },
        None => if version == meta.info_version@ { meta.urls@ } else { seq![] },
    }
}

/// A file is a source distribution.
pub open spec fn is_sdist(u: PypiUrl) -> bool {
    match u.packagetype {
        Some(t) => t@ == "sdist"@,
        None => false,
    }
}

/// Index of the first source distribution among `files`, else `0`.
pub open spec fn chosen_index(files: Seq<PypiUrl>) -> int {
    if exists|i: int| 0 <= i < files.len() && is_sdist(files[i]) && forall|j: int| 0 <= j < i ==> !is_sdist(files[j]) {
        choose|i: int| 0 <= i < files.len() && is_sdist(files[i]) && forall|j: int| 0 <= j < i ==> !is_sdist(files[j])
    } else {
        0
    }
}

/// The SHA-256 digest a file lists, if any.
pub open spec fn sha256_digest(u: PypiUrl) -> Option<String> {
    match u.digests {
        Some(d) => lookup(d@, "sha256"@),
        None => None,
    }
}

/// The version a PyPI spec resolves to (its pinned version, else the
/// latest), the file chosen for it and its digest.
pub open spec fn pypi_resolution(s: PackageSpec, meta: PypiMeta) -> Result<(Seq<char>, PypiUrl), Failure> {
    let version = match opt_view(s.version) {
        Some(v) => v,
        None => meta.info_version@,
    };
    let files = pypi_files(meta, version);
    if files.len() == 0 {
        Err(Failure::VersionNotFound(s.name@, version))
    } else {
        Ok((version, files[chosen_index(files)]))
    }
}

fn is_sdist_exec(u: &PypiUrl) -> (r: bool)
    ensures
        r == is_sdist(*u),
{
    match &u.packagetype {
        Some(t) => chars_eq(&chars_of(t.as_str()), &chars_of("sdist")),
        None => false,
    }
}

fn choose_file(files: &Vec<PypiUrl>) -> (r: usize)
    requires
        files@.len() > 0,
    ensures
        r == chosen_index(files@),
        r < files@.len(),
{
    let mut i: usize = 0;
    while i < files.len()
        invariant
            i <= files@.len(),
            forall|j: int| 0 <= j < i ==> !is_sdist(files@[j]),
        decreases files@.len() - i,
    {
        if is_sdist_exec(&files[i]) {
            proof {
                let c = choose|c: int| 0 <= c < files@.len() && is_sdist(files@[c]) && forall|j: int| 0 <= j < c ==> !is_sdist(files@[j]);
                assert(c == i) by {
                    if c < i {
                    } else if c > i {
                    }
                }
            }
            return i;
        }
        i = i + 1;
    }
    0
}

/// Resolves a PyPI spec against its JSON metadata.
pub fn resolve_pypi(spec: &PackageSpec, meta: &PypiMeta) -> (r: Result<ResolvedPackage, PackageError>)
    ensures
        match (r, pypi_resolution(*spec, *meta)) {
            (Ok(p), Ok((v, u))) => p.spec == *spec && p.version@ == v && p.tarball_url == u.url
                && p.integrity == sha256_digest(u) && p.shasum == sha256_digest(u),
            (Err(e), Err(f)) => e@ == f,
            _ => false,
        },
{
    proof {
        reveal_strlit("sha256");
    }
    let version: Vec<char> = match &spec.version {
        Some(v) => chars_of(v.as_str()),
        None => chars_of(meta.info_version.as_str()),
    };
    let files: &Vec<PypiUrl> = match &meta.releases {
        Some(rel) => match find_key(rel, &version) {
            Some(i) => &rel[i].1,
            None => {
                return Err(PackageError::VersionNotFound { name: copy_string(&spec.name), version: string_of(&version) });
            },
        },
        None => {
            if chars_eq(&version, &chars_of(meta.info_version.as_str())) {
                &meta.urls
            } else {
                return Err(PackageError::VersionNotFound { name: copy_string(&spec.name), version: string_of(&version) });
            }
        },
    };
    if files.len() == 0 {
        return Err(PackageError::VersionNotFound { name: copy_string(&spec.name), version: string_of(&version) });
    }
    let k = choose_file(files);
    let chosen = &files[k];
    let sha: Option<String> = match &chosen.digests {
        Some(d) => match find_key(d, &chars_of("sha256")) {
            Some(j) => Some(copy_string(&d[j].1)),
            None => None,
        },
        None => None,
    };
    Ok(ResolvedPackage {
        spec: spec.clone(),
        version: string_of(&version),
        tarball_url: copy_string(&chosen.url),
        integrity: copy_opt(&sha),
        shasum: sha,
    })
}

/// The tarball of an npm package must be fetched over `https`.
pub fn check_tarball_url(url: &str) -> (r: Result<(), PackageError>)
    ensures
        match r {
            Ok(()) => has_prefix(url@, "https://"@),
            Err(e) => !has_prefix(url@, "https://"@) && e@ == Failure::InvalidSpec(url@, "tarball URL must be https"@),
        },
{
    if starts_with(&chars_of(url), &chars_of("https://")) {
        Ok(())
    } else {
        Err(PackageError::InvalidSpec { spec: string_of(&chars_of(url)), reason: string_of(&chars_of("tarball URL must be https")) })
    }
}

/// What a downloaded npm archive must pass: the `sha512-` integrity when
/// the registry gave an integrity, else the shasum sanity check.
pub open spec fn npm_download_ok(p: ResolvedPackage, data: Seq<u8>) -> bool {
    match p.integrity {
        Some(i) => match crate::package::integrity::integrity_expectation(i@) {
            Some(Some(expected)) => crate::package::integrity::sha512_of(data) == expected,
            Some(None) => true,
            None => false,
        },
        None => match p.shasum {
            Some(s) => !(vstd::utf8::encode_utf8(s@).len() as usize == 40 && data.len() == 0),
            None => true,
        },
    }
}

/// Checks a downloaded npm archive.
pub fn verify_npm_download(resolved: &ResolvedPackage, data: &[u8]) -> (r: Result<(), PackageError>)
    ensures
        match r {
            Ok(()) => npm_download_ok(*resolved, data@),
            Err(e) => !npm_download_ok(*resolved, data@) && e@ == Failure::Integrity(resolved.spec.name@, resolved.version@),
        },
{
    let name = resolved.spec.name.as_str();
    let version = resolved.version.as_str();
    match &resolved.integrity {
        Some(integrity) => match npm_integrity_check(integrity.as_str(), name, version) {
            Ok(IntegrityCheck::Sha512(expected)) => verify_sha512(data, &expected, name, version),
            Ok(IntegrityCheck::Skip) => Ok(()),
            Err(e) => Err(e),
        },
        None => match &resolved.shasum {
            Some(shasum) => verify_npm_shasum(shasum.as_str(), data.len(), name, version),
            None => Ok(()),
        },
    }
}

/// Checks a downloaded PyPI archive against the SHA-256 digest the index
/// listed, if any.
pub fn verify_pypi_download(resolved: &ResolvedPackage, data: &[u8]) -> (r: Result<(), PackageError>)
    ensures
        match r {
            Ok(()) => match resolved.integrity {
                Some(expected) => crate::model::blob::hex_of(crate::model::blob::sha256_of(data@)) == expected@,
                None => true,
            },
            Err(e) => resolved.integrity is Some
                && crate::model::blob::hex_of(crate::model::blob::sha256_of(data@)) != resolved.integrity->0@
                && e@ == Failure::Integrity(resolved.spec.name@, resolved.version@),
        },
{
    match &resolved.integrity {
        Some(expected) => verify_sha256_hex(data, expected.as_str(), resolved.spec.name.as_str(), resolved.version.as_str()),
        None => Ok(()),
    }
}

} // verus!
