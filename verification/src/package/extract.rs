//! Extracting a downloaded archive. The `tar` crate (over `flate2`'s gzip
//! decoder) or the `zip` crate reads the entries; each entry then passes the
//! sandbox and becomes a step that creates a directory, writes a file or
//! recreates a link under the destination. The first entry the sandbox
//! refuses fails the whole extraction. The archive is read whole before
//! its entries pass the sandbox, so a read error anywhere in it fails the
//! extraction before any entry is looked at, and entry paths are taken as
//! text (bytes that are not UTF-8 become U+FFFD).
use vstd::prelude::*;

use std::io::Read;

use crate::package::archive::{
    is_prefix_of, is_zip, link_is_safe, named, named_parts, safe_link, sanitize_entry_path, sanitized, segments,
    split_segments, strip_npm_package_prefix, views, without_npm_prefix, zip_archive, capped, capped_mode, lies_within,
    lemma_sanitized_entry_stays_inside,
};
use crate::package::error::{Failure, PackageError};
use crate::package::layout::{join_path, path_joined};
use crate::package::spec::opt_str_view;
use crate::text::{chars_eq, chars_of, string_of};

verus! {

/// What an archive entry is.
#[derive(Clone, Copy, Debug, PartialEq, Eq, Structural)]
pub enum EntryKind {
    /// A directory.
    Dir,
    /// A regular file, or any other entry that is written as one.
    File,
    /// A symbolic link.
    Symlink,
    /// A hard link.
    HardLink,
}

/// The two archive formats a package can come in.
#[derive(Clone, Copy, Debug, PartialEq, Eq, Structural)]
pub enum ArchiveFormat {
    /// A gzipped tar archive, as npm and PyPI source distributions ship.
    TarGz,
    /// A zip archive.
    Zip,
}

/// One entry as the archive reader hands it out: its path as stored, its
/// kind, its permission bits where the header holds readable ones, its link
/// target where it has one, and its contents.
#[derive(Debug)]
pub struct ArchiveEntry {
    pub path: String,
    pub kind: EntryKind,
    pub mode: Option<u32>,
    pub link: Option<String>,
    pub contents: Vec<u8>,
}

/// The mathematical value of an [`ArchiveEntry`].
pub struct EntryModel {
    pub path: Seq<char>,
    pub kind: EntryKind,
    pub mode: Option<u32>,
    pub link: Option<Seq<char>>,
    pub contents: Seq<u8>,
}

impl View for ArchiveEntry {
    type V = EntryModel;

    open spec fn view(&self) -> EntryModel {
        EntryModel {
            path: self.path@,
            kind: self.kind,
            mode: self.mode,
            link: match self.link {
                Some(l) => Some(l@),
                None => None,
            },
            contents: self.contents@,
        }
    }
}

/// The value of each entry.
pub open spec fn entry_models(v: Seq<ArchiveEntry>) -> Seq<EntryModel> {
    v.map_values(|e: ArchiveEntry| e@)
}

/// A tar entry as the `tar` crate reads it: its path and link target as
/// raw bytes (`Entry::path_bytes`, `Entry::link_name_bytes`), the type flag
/// of its header, its permission bits where the header holds readable ones
/// (`Header::mode`), and its contents.
#[derive(Debug)]
pub struct TarEntry {
    pub path: Vec<u8>,
    pub type_flag: u8,
    pub mode: Option<u32>,
    pub link: Option<Vec<u8>>,
    pub contents: Vec<u8>,
}

/// The mathematical value of a [`TarEntry`].
pub struct TarEntryModel {
    pub path: Seq<u8>,
    pub type_flag: u8,
    pub mode: Option<u32>,
    pub link: Option<Seq<u8>>,
    pub contents: Seq<u8>,
}

impl View for TarEntry {
    type V = TarEntryModel;

    open spec fn view(&self) -> TarEntryModel {
        TarEntryModel {
            path: self.path@,
            type_flag: self.type_flag,
            mode: self.mode,
            link: match self.link {
                Some(l) => Some(l@),
                None => None,
            },
            contents: self.contents@,
        }
    }
}

/// A zip entry as the `zip` crate reads it: its name, whether it is a
/// directory (`ZipFile::is_dir`), and its contents.
#[derive(Debug)]
pub struct ZipEntry {
    pub name: String,
    pub is_dir: bool,
    pub contents: Vec<u8>,
}

/// The mathematical value of a [`ZipEntry`].
pub struct ZipEntryModel {
    pub name: Seq<char>,
    pub is_dir: bool,
    pub contents: Seq<u8>,
}

impl View for ZipEntry {
    type V = ZipEntryModel;

    open spec fn view(&self) -> ZipEntryModel {
        ZipEntryModel { name: self.name@, is_dir: self.is_dir, contents: self.contents@ }
    }
}

/// The entries the `tar` crate reads from the gzipped tar archive `bytes`
/// (through `flate2`'s gzip decoder), in archive order, or the message of
/// the first error either crate reports.
pub uninterp spec fn tar_gz_entries_of(bytes: Seq<u8>) -> Result<Seq<TarEntryModel>, Seq<char>>;

/// The entries the `zip` crate reads from the zip archive `bytes`, in
/// index order, or the message of the first error it reports.
pub uninterp spec fn zip_entries_of(bytes: Seq<u8>) -> Result<Seq<ZipEntryModel>, Seq<char>>;

/// The text `String::from_utf8_lossy` makes of `bytes`.
pub uninterp spec fn utf8_lossy_of(bytes: Seq<u8>) -> Seq<char>;

/// Reads a gzipped tar archive held in memory with `tar::Archive` over
/// `flate2::read::GzDecoder`, entry by entry. The contract claims only that
/// the outcome is what those crates read from these bytes.
#[verifier::external_body]
fn read_tar_gz(bytes: &[u8]) -> (r: Result<Vec<TarEntry>, String>)
    ensures
        match r {
            Ok(v) => tar_gz_entries_of(bytes@) == Ok::<Seq<TarEntryModel>, Seq<char>>(v@.map_values(|t: TarEntry| t@)),
            Err(m) => tar_gz_entries_of(bytes@) == Err::<Seq<TarEntryModel>, Seq<char>>(m@),
        },
{
    let mut out = Vec::new();
    let mut archive = tar::Archive::new(flate2::read::GzDecoder::new(bytes));
    for entry in archive.entries().map_err(|e| e.to_string())? {
        let mut e = entry.map_err(|e| e.to_string())?;
        let path = e.path_bytes().into_owned();
        let link = e.link_name_bytes().map(|l| l.into_owned());
        let mut contents = Vec::new();
        e.read_to_end(&mut contents).map_err(|e| e.to_string())?;
        let h = e.header();
        out.push(TarEntry { path, type_flag: h.entry_type().as_byte(), mode: h.mode().ok(), link, contents });
    }
    Ok(out)
}

/// Reads a zip archive held in memory with `zip::ZipArchive`, entry by
/// entry. The contract claims only that the outcome is what the crate reads
/// from these bytes.
#[verifier::external_body]
fn read_zip(bytes: &[u8]) -> (r: Result<Vec<ZipEntry>, String>)
    ensures
        match r {
            Ok(v) => zip_entries_of(bytes@) == Ok::<Seq<ZipEntryModel>, Seq<char>>(v@.map_values(|z: ZipEntry| z@)),
            Err(m) => zip_entries_of(bytes@) == Err::<Seq<ZipEntryModel>, Seq<char>>(m@),
        },
{
    let mut zip = zip::ZipArchive::new(std::io::Cursor::new(bytes)).map_err(|e| e.to_string())?;
    let mut out = Vec::new();
    for i in 0..zip.len() {
        let mut e = zip.by_index(i).map_err(|e| e.to_string())?;
        let mut contents = Vec::new();
        e.read_to_end(&mut contents).map_err(|e| e.to_string())?;
        out.push(ZipEntry { name: e.name().to_owned(), is_dir: e.is_dir(), contents });
    }
    Ok(out)
}

/// `bytes` as text, with `String::from_utf8_lossy`; the contract claims
/// only that the result is the crate's text for these bytes.
#[verifier::external_body]
fn lossy_text(bytes: &[u8]) -> (r: String)
    ensures
        r@ == utf8_lossy_of(bytes@),
{
    String::from_utf8_lossy(bytes).into_owned()
}

/// The kind a tar type flag stands for, as `tar::EntryType` tells them
/// apart: `5` a directory, `2` a symlink, `1` a hard link, anything else
/// written as a file.
pub open spec fn kind_of_flag(flag: u8) -> EntryKind {
    if flag == 0x35u8 {
        EntryKind::Dir
    } else if flag == 0x32u8 {
        EntryKind::Symlink
    } else if flag == 0x31u8 {
        EntryKind::HardLink
    } else {
        EntryKind::File
    }
}

/// A tar entry as an archive entry: path and link target as text.
pub open spec fn tar_entry_model(t: TarEntryModel) -> EntryModel {
    EntryModel {
        path: utf8_lossy_of(t.path),
        kind: kind_of_flag(t.type_flag),
        mode: t.mode,
        link: match t.link {
            Some(l) => Some(utf8_lossy_of(l)),
            None => None,
        },
        contents: t.contents,
    }
}

/// A zip entry as an archive entry: a directory or a file, with neither
/// permission bits nor a link target.
pub open spec fn zip_entry_model(z: ZipEntryModel) -> EntryModel {
    EntryModel {
        path: z.name,
        kind: if z.is_dir {
            EntryKind::Dir
        } else {
            EntryKind::File
        },
        mode: None,
        link: None,
        contents: z.contents,
    }
}

/// Classifies a tar type flag ([`kind_of_flag`]).
pub fn tar_entry_kind(flag: u8) -> (r: EntryKind)
    ensures
        r == kind_of_flag(flag),
{
    if flag == 0x35u8 {
        EntryKind::Dir
    } else if flag == 0x32u8 {
        EntryKind::Symlink
    } else if flag == 0x31u8 {
        EntryKind::HardLink
    } else {
        EntryKind::File
    }
}

/// The archive entries of a tar archive's entries ([`tar_entry_model`]).
pub fn tar_archive_entries(v: &Vec<TarEntry>) -> (r: Vec<ArchiveEntry>)
    ensures
        entry_models(r@) == v@.map_values(|t: TarEntry| tar_entry_model(t@)),
{
    let mut out: Vec<ArchiveEntry> = Vec::new();
    let mut i: usize = 0;
    while i < v.len()
        invariant
            i <= v@.len(),
            entry_models(out@) == v@.subrange(0, i as int).map_values(|t: TarEntry| tar_entry_model(t@)),
        decreases v@.len() - i,
    {
        let t = &v[i];
        let link = match &t.link {
            Some(l) => Some(lossy_text(l.as_slice())),
            None => None,
        };
        let e = ArchiveEntry {
            path: lossy_text(t.path.as_slice()),
            kind: tar_entry_kind(t.type_flag),
            mode: t.mode,
            link,
            contents: copy_bytes(&t.contents),
        };
        let ghost before = entry_models(out@);
        out.push(e);
        assert(entry_models(out@) =~= before.push(e@));
        assert(v@.subrange(0, i + 1).map_values(|t: TarEntry| tar_entry_model(t@)) =~= v@.subrange(0, i as int).map_values(|t: TarEntry| tar_entry_model(t@)).push(tar_entry_model(t@)));
        assert(e@ == tar_entry_model(t@));
        i = i + 1;
    }
    assert(v@.subrange(0, v@.len() as int) =~= v@);
    out
}

/// The archive entries of a zip archive's entries ([`zip_entry_model`]).
pub fn zip_archive_entries(v: &Vec<ZipEntry>) -> (r: Vec<ArchiveEntry>)
    ensures
        entry_models(r@) == v@.map_values(|z: ZipEntry| zip_entry_model(z@)),
{
    let mut out: Vec<ArchiveEntry> = Vec::new();
    let mut i: usize = 0;
    while i < v.len()
        invariant
            i <= v@.len(),
            entry_models(out@) == v@.subrange(0, i as int).map_values(|z: ZipEntry| zip_entry_model(z@)),
        decreases v@.len() - i,
    {
        let z = &v[i];
        let e = ArchiveEntry {
            path: string_of(&chars_of(z.name.as_str())),
            kind: if z.is_dir {
                EntryKind::Dir
            } else {
                EntryKind::File
            },
            mode: None,
            link: None,
            contents: copy_bytes(&z.contents),
        };
        let ghost before = entry_models(out@);
        out.push(e);
        assert(entry_models(out@) =~= before.push(e@));
        assert(v@.subrange(0, i + 1).map_values(|z: ZipEntry| zip_entry_model(z@)) =~= v@.subrange(0, i as int).map_values(|z: ZipEntry| zip_entry_model(z@)).push(zip_entry_model(z@)));
        i = i + 1;
    }
    assert(v@.subrange(0, v@.len() as int) =~= v@);
    out
}

/// One step of an extraction, as the file system is to carry it out.
#[derive(Debug)]
pub enum WriteStep {
    /// Create this directory and any missing parents.
    Dir { path: String },
    /// Create the parent directories, write these bytes to this file, and
    /// then give it these permission bits where they are set.
    File { path: String, contents: Vec<u8>, mode: Option<u32> },
    /// Replace whatever is at `path` with a symbolic link to `target`.
    Link { path: String, target: String },
}

/// The mathematical value of a [`WriteStep`].
pub enum StepModel {
    Dir(Seq<char>),
    File(Seq<char>, Seq<u8>, Option<u32>),
    Link(Seq<char>, Seq<char>),
}

impl View for WriteStep {
    type V = StepModel;

    open spec fn view(&self) -> StepModel {
        match self {
            WriteStep::Dir { path } => StepModel::Dir(path@),
            WriteStep::File { path, contents, mode } => StepModel::File(path@, contents@, *mode),
            WriteStep::Link { path, target } => StepModel::Link(path@, target@),
        }
    }
}

/// The value of each step.
pub open spec fn step_models(v: Seq<WriteStep>) -> Seq<StepModel> {
    v.map_values(|s: WriteStep| s@)
}

/// The path a step writes.
pub open spec fn step_path(s: StepModel) -> Seq<char> {
    match s {
        StepModel::Dir(p) => p,
        StepModel::File(p, _, _) => p,
        StepModel::Link(p, _) => p,
    }
}

/// Where an entry that passed the sandbox goes, relative to the
/// destination: a tar entry loses npm's leading `package` component.
pub open spec fn entry_relative(format: ArchiveFormat, clean: Seq<char>) -> Seq<char> {
    match format {
        ArchiveFormat::TarGz => without_npm_prefix(clean),
        ArchiveFormat::Zip => clean,
    }
}

/// The components of the directory a link entry sits in: those of its
/// place under the destination without the last one (`Path::parent`); for
/// an entry that names the destination itself, the destination's parent,
/// or the destination where it has no components.
pub open spec fn link_dir_parts(dest: Seq<char>, rel: Seq<char>) -> Seq<Seq<char>> {
    let d = named(segments(dest));
    let r = named(segments(rel));
    if r.len() > 0 {
        d + r.drop_last()
    } else if d.len() > 0 {
        d.drop_last()
    } else {
        d
    }
}

/// A link entry is recreated when its target is safe and, resolved from the
/// directory the link sits in, stays within the destination.
pub open spec fn link_kept(dest: Seq<char>, rel: Seq<char>, link: Seq<char>) -> bool {
    safe_link(link) && is_prefix_of(named(segments(dest)), link_dir_parts(dest, rel) + named(segments(link)))
}

/// The step for an entry that passed the sandbox and goes to `rel` under
/// `dest`. In a tar archive a link entry becomes a link when it is kept and
/// is skipped otherwise, and a file gets its permission bits capped (`0o644`
/// standing for unreadable ones); a zip archive holds directories and files
/// only, whose permission bits are left alone.
pub open spec fn entry_step(dest: Seq<char>, format: ArchiveFormat, e: EntryModel, rel: Seq<char>) -> Option<StepModel> {
    let at = path_joined(dest, rel);
    match format {
        ArchiveFormat::Zip => if e.kind == EntryKind::Dir {
            Some(StepModel::Dir(at))
        } else {
            Some(StepModel::File(at, e.contents, None))
        },
        ArchiveFormat::TarGz => match e.kind {
            EntryKind::Dir => Some(StepModel::Dir(at)),
            EntryKind::Symlink | EntryKind::HardLink => match e.link {
                Some(l) => if link_kept(dest, rel, l) {
                    Some(StepModel::Link(at, l))
                } else {
                    None
                },
                None => None,
            },
            EntryKind::File => {
                let mode = match e.mode {
                    Some(m) => m,
                    None => 0o644u32,
                };
                Some(StepModel::File(at, e.contents, Some(capped(mode))))
            },
        },
    }
}

/// The steps that extract `entries` into `dest`, in order, or the refusal of
/// the first entry whose path the sandbox refuses.
pub open spec fn plan_of(dest: Seq<char>, format: ArchiveFormat, entries: Seq<EntryModel>) -> Result<Seq<StepModel>, Seq<char>>
    decreases entries.len(),
{
    if entries.len() == 0 {
        Ok(seq![])
    } else {
        match plan_of(dest, format, entries.drop_last()) {
            Err(c) => Err(c),
            Ok(steps) => match sanitized(entries.last().path) {
                Err(c) => Err(c),
                Ok(clean) => match entry_step(dest, format, entries.last(), entry_relative(format, clean)) {
                    Some(s) => Ok(steps.push(s)),
                    None => Ok(steps),
                },
            },
        }
    }
}

/// What extracting `entries` of package `name` at `version` gives: the
/// steps, or an extraction failure with the sandbox's refusal as its cause.
pub open spec fn extraction_of(dest: Seq<char>, format: ArchiveFormat, entries: Seq<EntryModel>, name: Seq<char>, version: Seq<char>) -> Result<Seq<StepModel>, Failure> {
    match plan_of(dest, format, entries) {
        Ok(steps) => Ok(steps),
        Err(c) => Err(Failure::Extraction(name, version, c)),
    }
}

/// The value of an extraction's outcome.
pub open spec fn outcome(r: Result<Vec<WriteStep>, PackageError>) -> Result<Seq<StepModel>, Failure> {
    match r {
        Ok(v) => Ok(step_models(v@)),
        Err(e) => Err(e@),
    }
}

/// The format an archive is read in, from its bytes and file extension.
pub open spec fn format_of(bytes: Seq<u8>, extension: Option<Seq<char>>) -> ArchiveFormat {
    if zip_archive(bytes, extension) {
        ArchiveFormat::Zip
    } else {
        ArchiveFormat::TarGz
    }
}

/// What extracting the archive `bytes` (with file extension `extension`)
/// into `dest` gives: a read error becomes an extraction failure with its
/// message as the cause; otherwise the entries read are planned.
pub open spec fn archive_extraction_of(
    dest: Seq<char>,
    bytes: Seq<u8>,
    extension: Option<Seq<char>>,
    name: Seq<char>,
    version: Seq<char>,
) -> Result<Seq<StepModel>, Failure> {
    let format = format_of(bytes, extension);
    let read = match format {
        ArchiveFormat::Zip => match zip_entries_of(bytes) {
            Ok(v) => Ok(v.map_values(|z: ZipEntryModel| zip_entry_model(z))),
            Err(c) => Err(c),
        },
        ArchiveFormat::TarGz => match tar_gz_entries_of(bytes) {
            Ok(v) => Ok(v.map_values(|t: TarEntryModel| tar_entry_model(t))),
            Err(c) => Err(c),
        },
    };
    match read {
        Ok(entries) => extraction_of(dest, format, entries, name, version),
        Err(c) => Err(Failure::Extraction(name, version, c)),
    }
}

/// An extraction writes nothing outside its destination: whatever the
/// entries, every step of a plan lies at or below `dest`, and every link it
/// recreates has a safe target (relative, with no `..`).
pub proof fn lemma_plan_stays_inside(dest: Seq<char>, format: ArchiveFormat, entries: Seq<EntryModel>)
    requires
        plan_of(dest, format, entries) is Ok,
    ensures
        forall|i: int|
            #![trigger plan_of(dest, format, entries)->Ok_0[i]]
            0 <= i < plan_of(dest, format, entries)->Ok_0.len() ==> {
                let s = plan_of(dest, format, entries)->Ok_0[i];
                &&& lies_within(dest, step_path(s))
                &&& (s matches StepModel::Link(_, t) ==> safe_link(t))
            },
    decreases entries.len(),
{
    if entries.len() > 0 {
        let rest = entries.drop_last();
        lemma_plan_stays_inside(dest, format, rest);
        let e = entries.last();
        if let Ok(clean) = sanitized(e.path) {
            lemma_sanitized_entry_stays_inside(dest, e.path, clean);
        }
    }
}

/// Whether a link entry is recreated ([`link_kept`]).
pub fn link_is_kept(dest: &str, rel: &str, link: &str) -> (r: bool)
    ensures
        r == link_kept(dest@, rel@, link@),
{
    if !link_is_safe(link) {
        return false;
    }
    let d = named_parts(&split_segments(&chars_of(dest)));
    let rp = named_parts(&split_segments(&chars_of(rel)));
    let lp = named_parts(&split_segments(&chars_of(link)));
    let ghost dv = views(d@);
    let ghost lv = views(lp@);
    let ghost target = link_dir_parts(dest@, rel@) + lv;
    if rp.len() > 0 || d.len() == 0 {
        proof {
            if rp@.len() > 0 {
                assert(target.subrange(0, dv.len() as int) =~= dv);
            } else {
                assert(dv =~= Seq::<Seq<char>>::empty());
                assert(target.subrange(0, 0) =~= dv);
            }
        }
        return true;
    }
    let m = d.len();
    if lp.len() == 0 {
        assert(!is_prefix_of(dv, target)) by {
            assert(target =~= dv.drop_last());
        }
        return false;
    }
    let same = chars_eq(&lp[0], &d[m - 1]);
    proof {
        assert(dv[m - 1] == d@[m - 1]@);
        assert(lv[0] == lp@[0]@);
        assert(target =~= dv.drop_last() + lv);
        if same {
            assert(target.subrange(0, m as int) =~= dv);
        } else {
            assert(target.subrange(0, m as int)[m - 1] == lv[0]);
        }
    }
    same
}

/// A copy of a byte vector.
fn copy_bytes(v: &Vec<u8>) -> (r: Vec<u8>)
    ensures
        r@ == v@,
{
    let r = v.clone();
    assert(r@ =~= v@);
    r
}

/// The step for an entry that passed the sandbox ([`entry_step`]).
pub fn step_for(dest: &str, format: ArchiveFormat, e: &ArchiveEntry, rel: &str) -> (r: Option<WriteStep>)
    ensures
        match r {
            Some(s) => entry_step(dest@, format, e@, rel@) == Some(s@),
            None => entry_step(dest@, format, e@, rel@) is None,
        },
{
    let at = join_path(dest, rel);
    match format {
        ArchiveFormat::Zip => {
            if e.kind == EntryKind::Dir {
                Some(WriteStep::Dir { path: at })
            } else {
                Some(WriteStep::File { path: at, contents: copy_bytes(&e.contents), mode: None })
            }
        },
        ArchiveFormat::TarGz => match e.kind {
            EntryKind::Dir => Some(WriteStep::Dir { path: at }),
            EntryKind::Symlink | EntryKind::HardLink => match &e.link {
                Some(l) => {
                    if link_is_kept(dest, rel, l.as_str()) {
                        Some(WriteStep::Link { path: at, target: string_of(&chars_of(l.as_str())) })
                    } else {
                        None
                    }
                },
                None => None,
            },
            EntryKind::File => {
                let mode = match e.mode {
                    Some(m) => m,
                    None => 0o644u32,
                };
                Some(WriteStep::File { path: at, contents: copy_bytes(&e.contents), mode: Some(capped_mode(mode)) })
            },
        },
    }
}

/// Once a prefix of the entries is refused, so is the whole.
proof fn lemma_refusal_stays(dest: Seq<char>, format: ArchiveFormat, entries: Seq<EntryModel>, k: int, c: Seq<char>)
    requires
        0 <= k <= entries.len(),
        plan_of(dest, format, entries.subrange(0, k)) == Err::<Seq<StepModel>, Seq<char>>(c),
    ensures
        plan_of(dest, format, entries) == Err::<Seq<StepModel>, Seq<char>>(c),
    decreases entries.len() - k,
{
    if k == entries.len() {
        assert(entries.subrange(0, k) =~= entries);
    } else {
        assert(entries.subrange(0, k + 1).drop_last() =~= entries.subrange(0, k));
        lemma_refusal_stays(dest, format, entries, k + 1, c);
    }
}

/// Plans the extraction of `entries` into `dest` ([`extraction_of`]): each
/// entry passes the sandbox, in order, and becomes its step; the first
/// entry refused fails the extraction of package `name` at `version`.
pub fn plan_extraction(dest: &str, format: ArchiveFormat, entries: &[ArchiveEntry], name: &str, version: &str) -> (r: Result<Vec<WriteStep>, PackageError>)
    ensures
        outcome(r) == extraction_of(dest@, format, entry_models(entries@), name@, version@),
{
    let ghost all = entry_models(entries@);
    let mut steps: Vec<WriteStep> = Vec::new();
    let mut i: usize = 0;
    assert(all.subrange(0, 0) =~= Seq::<EntryModel>::empty());
    assert(step_models(steps@) =~= Seq::<StepModel>::empty());
    while i < entries.len()
        invariant
            i <= entries@.len(),
            all == entry_models(entries@),
            plan_of(dest@, format, all.subrange(0, i as int)) == Ok::<Seq<StepModel>, Seq<char>>(step_models(steps@)),
        decreases entries@.len() - i,
    {
        let e = &entries[i];
        let ghost prefix = all.subrange(0, i + 1);
        assert(prefix.drop_last() =~= all.subrange(0, i as int));
        assert(prefix.last() == e@);
        let clean = match sanitize_entry_path(e.path.as_str()) {
            Ok(c) => c,
            Err(cause) => {
                proof {
                    lemma_refusal_stays(dest@, format, all, i + 1, cause@);
                }
                return Err(PackageError::Extraction {
                    name: string_of(&chars_of(name)),
                    version: string_of(&chars_of(version)),
                    cause,
                });
            },
        };
        let rel = match format {
            ArchiveFormat::TarGz => strip_npm_package_prefix(clean.as_str()),
            ArchiveFormat::Zip => clean,
        };
        let ghost before = step_models(steps@);
        match step_for(dest, format, e, rel.as_str()) {
            Some(s) => {
                steps.push(s);
                assert(step_models(steps@) =~= before.push(steps@.last()@));
            },
            None => {},
        }
        i = i + 1;
    }
    assert(all.subrange(0, entries@.len() as int) =~= all);
    Ok(steps)
}

/// Extracts the archive `bytes`, whose file name has extension `extension`,
/// into `dest` ([`archive_extraction_of`]): it is read as a zip archive when
/// it starts with the zip magic or is named `.zip`, else as a gzipped tar;
/// a read error fails the extraction of package `name` at `version`, and
/// otherwise its entries are planned.
pub fn extract_plan(dest: &str, bytes: &[u8], extension: Option<&str>, name: &str, version: &str) -> (r: Result<Vec<WriteStep>, PackageError>)
    ensures
        outcome(r) == archive_extraction_of(dest@, bytes@, opt_str_view(extension), name@, version@),
{
    let format = if is_zip(bytes, extension) {
        ArchiveFormat::Zip
    } else {
        ArchiveFormat::TarGz
    };
    let read = match format {
        ArchiveFormat::Zip => match read_zip(bytes) {
            Ok(v) => {
                let entries = zip_archive_entries(&v);
                assert(entry_models(entries@) =~= v@.map_values(|z: ZipEntry| z@).map_values(|z: ZipEntryModel| zip_entry_model(z)));
                Ok(entries)
            },
            Err(c) => Err(c),
        },
        ArchiveFormat::TarGz => match read_tar_gz(bytes) {
            Ok(v) => {
                let entries = tar_archive_entries(&v);
                assert(entry_models(entries@) =~= v@.map_values(|t: TarEntry| t@).map_values(|t: TarEntryModel| tar_entry_model(t)));
                Ok(entries)
            },
            Err(c) => Err(c),
        },
    };
    match read {
        Ok(entries) => plan_extraction(dest, format, entries.as_slice(), name, version),
        Err(cause) => Err(PackageError::Extraction {
            name: string_of(&chars_of(name)),
            version: string_of(&chars_of(version)),
            cause,
        }),
    }
}

} // verus!
