//! RPM package writer.
//!
//! The package is described first as an [`RpmSpec`] of plain values: the
//! metadata, dependencies, files and scripts that the `rpm` crate is given.
//! [`rpm_builder`] hands the spec to `rpm::PackageBuilder`, [`build_rpm`]
//! builds the package, and `Package::write_rpm` appends its bytes.
use vstd::prelude::*;
use vstd::string::*;
use vstd::utf8::{decode_utf8, encode_utf8, valid_utf8};

use crate::arch::rpm_arch_name;
use crate::content::Content;
use crate::relation::{
    Op, Relation, RelationError, RelationView, VirtualPackage, VirtualPackageView, parse_relation,
    parse_virtual,
};
use crate::rpmbuild::{
    DependencyView, RpmBuilderView, dots_only, RpmFileModel, RpmFileType, builder_config_file, builder_files,
    builder_view, last_segment, no_files, regular_entry, rpm_dest_ok, rpm_dest_plain, rpm_file_key,
    trim_trailing_slashes,
    builder_build_bytes, builder_build_host, builder_compression,
    builder_conflicts, builder_description, builder_dir, builder_epoch, builder_file,
    builder_ghost, builder_group, builder_new, builder_obsoletes, builder_packager,
    builder_post_install, builder_post_trans, builder_post_uninstall, builder_pre_install,
    builder_pre_trans, builder_pre_uninstall, builder_provides, builder_release,
    builder_requires, builder_symlink, builder_url, builder_vendor, builder_verify,
    dependency_any, dependency_eq, dependency_greater, dependency_greater_eq, dependency_less,
    dependency_less_eq, dependency_view, rpm_magic,
};
use crate::stdio::append_bytes;
use crate::text::{chars_of, line_bounds, lines, oct, push_oct, strs};
use crate::{EntryKind, EntryKindView, EntryView, Error, Package, RpmCompression, entries_view};
use crate::distro::deb::is_config_file;

verus! {

// --- the plain description of an rpm package ---

/// Payload compression and level handed to the `rpm` crate.
#[derive(Clone, Copy, PartialEq, Eq, Structural)]
pub enum RpmPayload {
    Gzip(u32),
    Xz(u32),
    Zstd(i32),
}

/// The payload compression for a configured algorithm: gzip 9, xz 9,
/// zstd 19, and gzip 9 for LZMA, which the `rpm` crate does not offer.
pub open spec fn rpm_payload(c: RpmCompression) -> RpmPayload {
    match c {
        RpmCompression::Gzip => RpmPayload::Gzip(9),
        RpmCompression::Xz => RpmPayload::Xz(9),
        RpmCompression::Zstd => RpmPayload::Zstd(19),
        RpmCompression::Lzma => RpmPayload::Gzip(9),
    }
}

/// What a file of the package is.
pub enum RpmFileKind {
    File { data: Vec<u8>, config: bool },
    Dir,
    Symlink { target: String },
}

/// A file of the package, with a mode that fits in 16 bits.
pub struct RpmFile {
    pub dest: String,
    pub kind: RpmFileKind,
    pub mode: u16,
    pub user: String,
    pub group: String,
}

/// The lifecycle scripts an rpm can carry.
#[derive(Clone, Copy, PartialEq, Eq, Structural)]
pub enum RpmScriptKind {
    PreInstall,
    PostInstall,
    PreUninstall,
    PostUninstall,
    PreTrans,
    PostTrans,
    Verify,
}

/// Everything the `rpm` crate is given to build a package.
pub struct RpmSpec {
    pub name: String,
    pub version: String,
    pub license: String,
    pub arch: &'static str,
    pub summary: String,
    pub description: String,
    pub release: String,
    pub epoch: Option<u32>,
    pub url: Option<String>,
    pub vendor: Option<String>,
    pub group: Option<String>,
    pub packager: Option<String>,
    pub build_host: Option<String>,
    pub payload: RpmPayload,
    pub required: Vec<Relation>,
    pub provides: Vec<VirtualPackage>,
    pub conflicts: Vec<Relation>,
    pub obsoletes: Vec<Relation>,
    pub files: Vec<RpmFile>,
    pub ghosts: Vec<String>,
    pub scripts: Vec<(RpmScriptKind, String)>,
}

/// The abstract value of an optional string.
pub open spec fn opt_view(o: Option<String>) -> Option<Seq<char>> {
    match o {
        Some(s) => Some(s@),
        None => None,
    }
}

/// The abstract value of a file of the package.
pub struct RpmFileView {
    pub dest: Seq<char>,
    pub kind: EntryKindView,
    pub mode: u16,
    pub user: Seq<char>,
    pub group: Seq<char>,
}

impl View for RpmFile {
    type V = RpmFileView;

    open spec fn view(&self) -> RpmFileView {
        RpmFileView {
            dest: self.dest@,
            kind: match self.kind {
                RpmFileKind::File { data, config } => EntryKindView::File { data: data@, is_config: config },
                RpmFileKind::Dir => EntryKindView::Directory,
                RpmFileKind::Symlink { target } => EntryKindView::Symlink { target: target@ },
            },
            mode: self.mode,
            user: self.user@,
            group: self.group@,
        }
    }
}

/// The summary: the configured one, or else the first line of the
/// description (empty when there is none).
pub open spec fn rpm_summary(p: Package) -> Seq<char> {
    match p.rpm.summary {
        Some(s) => s@,
        None => if lines(p.description@).len() == 0 {
            Seq::empty()
        } else {
            lines(p.description@)[0]
        },
    }
}

/// The license, `Unknown` when none is set.
pub open spec fn rpm_license(p: Package) -> Seq<char> {
    match p.license {
        Some(l) => l@,
        None => "Unknown"@,
    }
}

/// The packager: the rpm packager, or else the maintainer.
pub open spec fn rpm_packager(p: Package) -> Option<Seq<char>> {
    match p.rpm.packager {
        Some(s) => Some(s@),
        None => opt_view(p.maintainer),
    }
}

/// The error of the first dependency string that does not parse.
pub open spec fn first_relation_error(l: Seq<Seq<char>>) -> Option<RelationError>
    decreases l.len(),
{
    if l.len() == 0 {
        None
    } else {
        match parse_relation(l[0]) {
            Err(e) => Some(e),
            Ok(_) => first_relation_error(l.drop_first()),
        }
    }
}

/// The error of the first provides string that does not parse.
pub open spec fn first_virtual_error(l: Seq<Seq<char>>) -> Option<RelationError>
    decreases l.len(),
{
    if l.len() == 0 {
        None
    } else {
        match parse_virtual(l[0]) {
            Err(e) => Some(e),
            Ok(_) => first_virtual_error(l.drop_first()),
        }
    }
}

/// The first entry mode that does not fit in 16 bits.
pub open spec fn first_bad_mode(es: Seq<EntryView>) -> Option<u32>
    decreases es.len(),
{
    if es.len() == 0 {
        None
    } else if es[0].mode > 0xFFFF {
        Some(es[0].mode)
    } else {
        first_bad_mode(es.drop_first())
    }
}

/// The scripts in the order they are handed to the builder.
pub open spec fn rpm_script_slots(p: Package) -> Seq<(RpmScriptKind, Option<Content>)> {
    seq![
        (RpmScriptKind::PreInstall, p.scripts.pre_install),
        (RpmScriptKind::PostInstall, p.scripts.post_install),
        (RpmScriptKind::PreUninstall, p.scripts.pre_remove),
        (RpmScriptKind::PostUninstall, p.scripts.post_remove),
        (RpmScriptKind::PreTrans, p.rpm.scripts.pre_trans),
        (RpmScriptKind::PostTrans, p.rpm.scripts.post_trans),
        (RpmScriptKind::Verify, p.rpm.scripts.verify),
    ]
}

/// The scripts that are set, decoded; `None` where one of them is not
/// UTF-8.
pub open spec fn rpm_scripts_of(s: Seq<(RpmScriptKind, Option<Content>)>) -> Option<Seq<(RpmScriptKind, Seq<char>)>>
    decreases s.len(),
{
    if s.len() == 0 {
        Some(Seq::empty())
    } else {
        match (rpm_scripts_of(s.drop_last()), s.last().1) {
            (Some(v), None) => Some(v),
            (Some(v), Some(c)) => if valid_utf8(c@) {
                Some(v.push((s.last().0, decode_utf8(c@))))
            } else {
                None
            },
            (None, _) => None,
        }
    }
}

/// Why the package cannot be described.
pub enum RpmFailure {
    /// A dependency string does not parse.
    Dependency(RelationError),
    /// A mode does not fit in 16 bits.
    Mode(u32),
    /// A destination (of an entry or a ghost file) names no file.
    Destination(Seq<char>),
    /// A script is not UTF-8.
    Script,
}

/// The destinations handed to the builder: those of the entries, then the
/// ghost files.
pub open spec fn rpm_dests(p: Package) -> Seq<Seq<char>> {
    entries_view(p.entries@).map_values(|e: EntryView| e.dest) + strs(p.rpm.ghost_files@)
}

/// The first destination that names no file.
pub open spec fn first_bad_dest(ds: Seq<Seq<char>>) -> Option<Seq<char>>
    decreases ds.len(),
{
    if ds.len() == 0 {
        None
    } else if !rpm_dest_ok(ds[0]) {
        Some(ds[0])
    } else {
        first_bad_dest(ds.drop_first())
    }
}

/// No destination is refused: each names a file.
proof fn lemma_no_bad_dest(ds: Seq<Seq<char>>)
    requires
        first_bad_dest(ds) is None,
    ensures
        forall|i: int| 0 <= i < ds.len() ==> rpm_dest_ok(#[trigger] ds[i]),
    decreases ds.len(),
{
    if ds.len() > 0 {
        lemma_no_bad_dest(ds.drop_first());
        assert forall|i: int| 0 <= i < ds.len() implies rpm_dest_ok(#[trigger] ds[i]) by {
            if i > 0 {
                assert(ds[i] == ds.drop_first()[i - 1]);
            }
        }
    }
}

/// The first reason, in the order dependencies, modes, destinations,
/// scripts, why the package cannot be described; `None` when it can.
pub open spec fn rpm_failure(p: Package) -> Option<RpmFailure> {
    if first_relation_error(strs(p.depends@)) is Some {
        Some(RpmFailure::Dependency(first_relation_error(strs(p.depends@)).unwrap()))
    } else if first_virtual_error(strs(p.provides@)) is Some {
        Some(RpmFailure::Dependency(first_virtual_error(strs(p.provides@)).unwrap()))
    } else if first_relation_error(strs(p.conflicts@)) is Some {
        Some(RpmFailure::Dependency(first_relation_error(strs(p.conflicts@)).unwrap()))
    } else if first_relation_error(strs(p.replaces@)) is Some {
        Some(RpmFailure::Dependency(first_relation_error(strs(p.replaces@)).unwrap()))
    } else if first_bad_mode(entries_view(p.entries@)) is Some {
        Some(RpmFailure::Mode(first_bad_mode(entries_view(p.entries@)).unwrap()))
    } else if first_bad_dest(rpm_dests(p)) is Some {
        Some(RpmFailure::Destination(first_bad_dest(rpm_dests(p)).unwrap()))
    } else if rpm_scripts_of(rpm_script_slots(p)) is None {
        Some(RpmFailure::Script)
    } else {
        None
    }
}

/// The message of a mode that does not fit: `mode 0o... overflows u16`.
pub open spec fn mode_overflow_message(mode: u32) -> Seq<char> {
    "mode 0o"@ + oct(mode as nat) + " overflows u16"@
}

/// The error that a failure is reported as.
pub open spec fn failure_error(f: RpmFailure, e: Error) -> bool {
    match f {
        RpmFailure::Dependency(r) => e matches Error::Rpm(m) && m@ == relation_error_message(r),
        RpmFailure::Mode(m) => e matches Error::Rpm(msg) && msg@ == mode_overflow_message(m),
        RpmFailure::Destination(d) => e matches Error::Rpm(msg) && msg@ == "destination path has no file name: "@ + d,
        RpmFailure::Script => e is Io,
    }
}

/// The message of a dependency string that does not parse.
pub open spec fn relation_error_message(r: RelationError) -> Seq<char> {
    match r {
        RelationError::EmptyName => "relationship has no package name"@,
        RelationError::EmptyVersion => "relationship has no version after operator"@,
        RelationError::NonEqualProvides => "provides may only use '=' (no '<' or '>')"@,
    }
}

/// The rpm file of an entry (whose mode fits in 16 bits).
pub open spec fn rpm_file_of(e: EntryView) -> RpmFileView {
    RpmFileView { dest: e.dest, kind: e.kind, mode: e.mode as u16, user: e.owner, group: e.group }
}

/// The spec describes the package.
pub open spec fn describes(s: RpmSpec, p: Package) -> bool {
    &&& s.name@ == p.name@
    &&& s.version@ == p.version@
    &&& s.license@ == rpm_license(p)
    &&& s.arch@ == rpm_arch_name(p.arch)
    &&& s.summary@ == rpm_summary(p)
    &&& s.description@ == p.description@
    &&& s.release@ == p.release@
    &&& s.epoch == p.epoch
    &&& opt_view(s.url) == opt_view(p.homepage)
    &&& opt_view(s.vendor) == opt_view(p.vendor)
    &&& opt_view(s.group) == opt_view(p.rpm.group)
    &&& opt_view(s.packager) == rpm_packager(p)
    &&& opt_view(s.build_host) == opt_view(p.rpm.build_host)
    &&& s.payload == rpm_payload(p.rpm.compression)
    &&& s.required@.len() == p.depends@.len()
    &&& (forall|i: int| 0 <= i < s.required@.len() ==> parse_relation(#[trigger] p.depends@[i]@) == Ok::<RelationView, RelationError>(s.required@[i]@))
    &&& s.provides@.len() == p.provides@.len()
    &&& (forall|i: int| 0 <= i < s.provides@.len() ==> parse_virtual(#[trigger] p.provides@[i]@) == Ok::<VirtualPackageView, RelationError>(s.provides@[i]@))
    &&& s.conflicts@.len() == p.conflicts@.len()
    &&& (forall|i: int| 0 <= i < s.conflicts@.len() ==> parse_relation(#[trigger] p.conflicts@[i]@) == Ok::<RelationView, RelationError>(s.conflicts@[i]@))
    &&& s.obsoletes@.len() == p.replaces@.len()
    &&& (forall|i: int| 0 <= i < s.obsoletes@.len() ==> parse_relation(#[trigger] p.replaces@[i]@) == Ok::<RelationView, RelationError>(s.obsoletes@[i]@))
    &&& s.files@.map_values(|f: RpmFile| f@) == entries_view(p.entries@).map_values(|e: EntryView| rpm_file_of(e))
    &&& strs(s.ghosts@) == strs(p.rpm.ghost_files@)
    &&& rpm_scripts_of(rpm_script_slots(p)) == Some(s.scripts@.map_values(|k: (RpmScriptKind, String)| (k.0, k.1@)))
}

// --- building the description ---

/// Parse dependency strings; the first one that does not parse decides the
/// error.
fn parse_relations(list: &Vec<String>) -> (res: Result<Vec<Relation>, RelationError>)
    ensures
        match first_relation_error(strs(list@)) {
            Some(e) => res == Err::<Vec<Relation>, RelationError>(e),
            None => res matches Ok(v) && v@.len() == list@.len() && forall|i: int| 0 <= i < v@.len()
                ==> parse_relation(#[trigger] list@[i]@) == Ok::<RelationView, RelationError>(v@[i]@),
        },
{
    let ghost l = strs(list@);
    let mut out: Vec<Relation> = Vec::new();
    let mut i: usize = 0;
    assert(l.subrange(0, l.len() as int) == l);
    while i < list.len()
        invariant
            i <= list@.len(),
            l == strs(list@),
            first_relation_error(l) == first_relation_error(l.subrange(i as int, l.len() as int)),
            out@.len() == i,
            forall|k: int| 0 <= k < i ==> parse_relation(#[trigger] list@[k]@) == Ok::<RelationView, RelationError>(out@[k]@),
        decreases list@.len() - i,
    {
        let ghost rest = l.subrange(i as int, l.len() as int);
        assert(rest[0] == list@[i as int]@);
        assert(rest.drop_first() == l.subrange(i + 1, l.len() as int));
        match Relation::parse(list[i].as_str()) {
            Ok(r) => out.push(r),
            Err(e) => return Err(e),
        }
        i += 1;
    }
    assert(l.subrange(l.len() as int, l.len() as int).len() == 0);
    Ok(out)
}

/// Parse provides strings; the first one that does not parse decides the
/// error.
fn parse_provides(list: &Vec<String>) -> (res: Result<Vec<VirtualPackage>, RelationError>)
    ensures
        match first_virtual_error(strs(list@)) {
            Some(e) => res == Err::<Vec<VirtualPackage>, RelationError>(e),
            None => res matches Ok(v) && v@.len() == list@.len() && forall|i: int| 0 <= i < v@.len()
                ==> parse_virtual(#[trigger] list@[i]@) == Ok::<VirtualPackageView, RelationError>(v@[i]@),
        },
{
    let ghost l = strs(list@);
    let mut out: Vec<VirtualPackage> = Vec::new();
    let mut i: usize = 0;
    assert(l.subrange(0, l.len() as int) == l);
    while i < list.len()
        invariant
            i <= list@.len(),
            l == strs(list@),
            first_virtual_error(l) == first_virtual_error(l.subrange(i as int, l.len() as int)),
            out@.len() == i,
            forall|k: int| 0 <= k < i ==> parse_virtual(#[trigger] list@[k]@) == Ok::<VirtualPackageView, RelationError>(out@[k]@),
        decreases list@.len() - i,
    {
        let ghost rest = l.subrange(i as int, l.len() as int);
        assert(rest[0] == list@[i as int]@);
        assert(rest.drop_first() == l.subrange(i + 1, l.len() as int));
        match VirtualPackage::parse(list[i].as_str()) {
            Ok(r) => out.push(r),
            Err(e) => return Err(e),
        }
        i += 1;
    }
    assert(l.subrange(l.len() as int, l.len() as int).len() == 0);
    Ok(out)
}

/// A mode as 16 bits, or the error that it overflows.
pub fn mode_u16(mode: u32) -> (res: Result<u16, Error>)
    ensures
        mode <= 0xFFFF ==> res == Ok::<u16, Error>(mode as u16),
        mode > 0xFFFF ==> (res matches Err(Error::Rpm(m)) && m@ == mode_overflow_message(mode)),
{
    if mode <= 0xFFFF {
        Ok(mode as u16)
    } else {
        let mut msg = String::from_str("mode 0o");
        push_oct(&mut msg, mode as u64);
        msg.append(" overflows u16");
        Err(Error::Rpm(msg))
    }
}

/// Whether the builder can take a destination apart into a directory and a
/// file name.
pub fn rpm_dest_has_file_name(dest: &str) -> (res: bool)
    ensures
        res == rpm_dest_ok(dest@),
{
    let cs = chars_of(dest);
    if is_dots_only(&cs) {
        return false;
    }
    let mut end: usize = cs.len();
    assert(cs@.subrange(0, end as int) == cs@);
    while end > 0 && cs[end - 1] == '/'
        invariant
            end <= cs@.len(),
            trim_trailing_slashes(cs@) == trim_trailing_slashes(cs@.subrange(0, end as int)),
        decreases end,
    {
        assert(cs@.subrange(0, end as int).drop_last() == cs@.subrange(0, end - 1));
        end -= 1;
    }
    let ghost u = cs@.subrange(0, end as int);
    assert(trim_trailing_slashes(cs@) == u);
    let mut start: usize = end;
    assert(u.subrange(start as int, end as int).len() == 0);
    assert(u.subrange(0, start as int) == u);
    while start > 0 && cs[start - 1] != '/'
        invariant
            start <= end <= cs@.len(),
            u == cs@.subrange(0, end as int),
            last_segment(u) == last_segment(u.subrange(0, start as int)) + u.subrange(start as int, end as int),
        decreases start,
    {
        let ghost p = u.subrange(0, start as int);
        assert(p.drop_last() == u.subrange(0, start - 1));
        assert(p.last() == cs@[start - 1]);
        assert(u.subrange(start - 1, end as int) == seq![cs@[start - 1]] + u.subrange(start as int, end as int));
        start -= 1;
    }
    let ghost seg = u.subrange(start as int, end as int);
    if start > 0 {
        assert(u.subrange(0, start as int).last() == '/');
    }
    assert(last_segment(u) == seg);
    if end - start == 2 && cs[start] == '.' && cs[start + 1] == '.' {
        assert(seg == seq!['.', '.']);
        false
    } else {
        assert(seg.len() == 2 ==> seg[0] == cs@[start as int] && seg[1] == cs@[start + 1]);
        true
    }
}

/// Whether a path is made of `.` segments alone.
fn is_dots_only(cs: &Vec<char>) -> (res: bool)
    ensures
        res == dots_only(cs@),
{
    if cs.len() == 0 || cs[0] != '.' {
        return false;
    }
    let mut i: usize = 0;
    while i < cs.len()
        invariant
            i <= cs@.len(),
            cs@.len() > 0,
            cs@[0] == '.',
            forall|k: int| 0 <= k < i ==> (#[trigger] cs@[k] == '.' || cs@[k] == '/'),
            forall|k: int| 0 <= k < i && #[trigger] cs@[k] == '.' ==> k + 1 == cs@.len() || cs@[k + 1] == '/',
        decreases cs@.len() - i,
    {
        let c = cs[i];
        if c != '.' && c != '/' {
            return false;
        }
        if c == '.' && i + 1 < cs.len() && cs[i + 1] != '/' {
            return false;
        }
        i += 1;
    }
    true
}

/// The index of the first destination that names no file.
fn first_bad_dest_index(ds: &Vec<String>) -> (res: Option<usize>)
    ensures
        match first_bad_dest(strs(ds@)) {
            Some(d) => res matches Some(i) && i < ds@.len() && ds@[i as int]@ == d,
            None => res is None,
        },
{
    let ghost l = strs(ds@);
    let mut i: usize = 0;
    assert(l.subrange(0, l.len() as int) == l);
    while i < ds.len()
        invariant
            i <= ds@.len(),
            l == strs(ds@),
            first_bad_dest(l) == first_bad_dest(l.subrange(i as int, l.len() as int)),
        decreases ds@.len() - i,
    {
        let ghost rest = l.subrange(i as int, l.len() as int);
        assert(rest[0] == ds@[i as int]@);
        assert(rest.drop_first() == l.subrange(i + 1, l.len() as int));
        if !rpm_dest_has_file_name(ds[i].as_str()) {
            return Some(i);
        }
        i += 1;
    }
    assert(l.subrange(l.len() as int, l.len() as int).len() == 0);
    None
}

/// The views of a list of rpm files.
pub open spec fn files_view(v: Seq<RpmFile>) -> Seq<RpmFileView> {
    v.map_values(|f: RpmFile| f@)
}

/// The scripts as (kind, text) views.
pub open spec fn scripts_view(v: Seq<(RpmScriptKind, String)>) -> Seq<(RpmScriptKind, Seq<char>)> {
    v.map_values(|k: (RpmScriptKind, String)| (k.0, k.1@))
}

impl Package {
    /// The summary: the configured one or the first line of the description.
    fn rpm_summary_string(&self) -> (res: String)
        ensures
            res@ == rpm_summary(*self),
    {
        match &self.rpm.summary {
            Some(s) => s.clone(),
            None => {
                let cs = chars_of(self.description.as_str());
                let ls = line_bounds(&cs);
                if ls.len() == 0 {
                    String::new()
                } else {
                    let (a, b) = ls[0];
                    let ghost lv = ls@.map_values(|b: (usize, usize)| cs@.subrange(b.0 as int, b.1 as int));
                    assert(lv[0] == cs@.subrange(a as int, b as int));
                    String::from_str(self.description.as_str().substring_char(a, b))
                }
            },
        }
    }

    /// The files of the package; the first entry whose mode does not fit in
    /// 16 bits decides the error.
    fn rpm_files(&self) -> (res: Result<Vec<RpmFile>, Error>)
        ensures
            match first_bad_mode(entries_view(self.entries@)) {
                Some(m) => res matches Err(Error::Rpm(msg)) && msg@ == mode_overflow_message(m),
                None => res matches Ok(v) && files_view(v@) == entries_view(self.entries@).map_values(
                    |e: EntryView| rpm_file_of(e),
                ),
            },
    {
        let ghost ev = entries_view(self.entries@);
        let mut out: Vec<RpmFile> = Vec::new();
        let mut i: usize = 0;
        assert(ev.subrange(0, ev.len() as int) == ev);
        assert(files_view(out@) =~= ev.subrange(0, 0).map_values(|e: EntryView| rpm_file_of(e)));
        while i < self.entries.len()
            invariant
                i <= self.entries@.len(),
                ev == entries_view(self.entries@),
                first_bad_mode(ev) == first_bad_mode(ev.subrange(i as int, ev.len() as int)),
                files_view(out@) == ev.subrange(0, i as int).map_values(|e: EntryView| rpm_file_of(e)),
            decreases self.entries@.len() - i,
        {
            let entry = &self.entries[i];
            let ghost rest = ev.subrange(i as int, ev.len() as int);
            proof {
                assert(ev[i as int] == entry@);
                assert(rest[0] == entry@);
                assert(rest.drop_first() == ev.subrange(i + 1, ev.len() as int));
            }
            let mode = match mode_u16(entry.mode) {
                Ok(m) => m,
                Err(e) => return Err(e),
            };
            let kind = match &entry.kind {
                EntryKind::File { source, is_config } => RpmFileKind::File { data: source.read_all(), config: *is_config },
                EntryKind::Directory => RpmFileKind::Dir,
                EntryKind::Symlink { target } => RpmFileKind::Symlink { target: target.clone() },
            };
            let f = RpmFile { dest: entry.dest.clone(), kind, mode, user: entry.owner.clone(), group: entry.group.clone() };
            proof {
                assert(f@ == rpm_file_of(entry@));
                assert(ev.subrange(0, i + 1).map_values(|e: EntryView| rpm_file_of(e)) =~= ev.subrange(
                    0,
                    i as int,
                ).map_values(|e: EntryView| rpm_file_of(e)).push(rpm_file_of(entry@)));
            }
            out.push(f);
            i += 1;
        }
        assert(ev.subrange(0, ev.len() as int) == ev);
        assert(ev.subrange(ev.len() as int, ev.len() as int).len() == 0);
        Ok(out)
    }

    /// The destinations of the entries, then those of the ghost files.
    fn rpm_dest_list(&self) -> (res: Vec<String>)
        ensures
            strs(res@) == rpm_dests(*self),
    {
        let ghost ev = entries_view(self.entries@);
        let ghost target = rpm_dests(*self);
        let mut out: Vec<String> = Vec::new();
        let mut i: usize = 0;
        while i < self.entries.len()
            invariant
                i <= self.entries@.len(),
                ev == entries_view(self.entries@),
                strs(out@) == ev.map_values(|e: EntryView| e.dest).subrange(0, i as int),
            decreases self.entries@.len() - i,
        {
            let ghost prev = out@;
            out.push(self.entries[i].dest.clone());
            proof {
                assert(ev[i as int] == self.entries@[i as int]@);
                assert(strs(out@) =~= strs(prev).push(self.entries@[i as int].dest@));
                assert(ev.map_values(|e: EntryView| e.dest).subrange(0, i + 1) =~= ev.map_values(
                    |e: EntryView| e.dest,
                ).subrange(0, i as int).push(ev[i as int].dest));
            }
            i += 1;
        }
        let ghost n = out@.len();
        let ghost gs = strs(self.rpm.ghost_files@);
        assert(ev.map_values(|e: EntryView| e.dest).subrange(0, ev.len() as int) == ev.map_values(|e: EntryView| e.dest));
        let mut j: usize = 0;
        while j < self.rpm.ghost_files.len()
            invariant
                j <= self.rpm.ghost_files@.len(),
                ev == entries_view(self.entries@),
                gs == strs(self.rpm.ghost_files@),
                strs(out@) == ev.map_values(|e: EntryView| e.dest) + gs.subrange(0, j as int),
            decreases self.rpm.ghost_files@.len() - j,
        {
            let ghost prev = out@;
            out.push(self.rpm.ghost_files[j].clone());
            proof {
                assert(strs(out@) =~= strs(prev).push(self.rpm.ghost_files@[j as int]@));
                assert(gs.subrange(0, j + 1) =~= gs.subrange(0, j as int).push(gs[j as int]));
                assert(ev.map_values(|e: EntryView| e.dest) + gs.subrange(0, j + 1) =~= (ev.map_values(
                    |e: EntryView| e.dest,
                ) + gs.subrange(0, j as int)).push(gs[j as int]));
            }
            j += 1;
        }
        assert(gs.subrange(0, gs.len() as int) == gs);
        out
    }

    /// The scripts that are set, decoded as UTF-8.
    fn rpm_scripts(&self) -> (res: Result<Vec<(RpmScriptKind, String)>, Error>)
        ensures
            match rpm_scripts_of(rpm_script_slots(*self)) {
                Some(v) => res matches Ok(s) && scripts_view(s@) == v,
                None => res matches Err(e) && e is Io,
            },
    {
        let ghost slots = rpm_script_slots(*self);
        let kinds: [RpmScriptKind; 7] = [
            RpmScriptKind::PreInstall,
            RpmScriptKind::PostInstall,
            RpmScriptKind::PreUninstall,
            RpmScriptKind::PostUninstall,
            RpmScriptKind::PreTrans,
            RpmScriptKind::PostTrans,
            RpmScriptKind::Verify,
        ];
        let scripts: [&Option<Content>; 7] = [
            &self.scripts.pre_install,
            &self.scripts.post_install,
            &self.scripts.pre_remove,
            &self.scripts.post_remove,
            &self.rpm.scripts.pre_trans,
            &self.rpm.scripts.post_trans,
            &self.rpm.scripts.verify,
        ];
        let mut out: Vec<(RpmScriptKind, String)> = Vec::new();
        let mut i: usize = 0;
        proof {
            assert(slots.subrange(0, 0) == Seq::<(RpmScriptKind, Option<Content>)>::empty());
            assert(scripts_view(out@) =~= Seq::<(RpmScriptKind, Seq<char>)>::empty());
        }
        while i < 7
            invariant
                i <= 7,
                slots == rpm_script_slots(*self),
                slots.len() == 7,
                forall|k: int| 0 <= k < 7 ==> #[trigger] slots[k] == (kinds@[k], *scripts@[k]),
                rpm_scripts_of(slots.subrange(0, i as int)) == Some(scripts_view(out@)),
            decreases 7 - i,
        {
            proof {
                assert(slots.subrange(0, i + 1).drop_last() == slots.subrange(0, i as int));
                assert(slots.subrange(0, i + 1).last() == slots[i as int]);
            }
            if let Some(c) = scripts[i] {
                let text = match c.read_string() {
                    Ok(t) => t,
                    Err(e) => {
                        proof {
                            lemma_scripts_prefix_none(slots, i + 1);
                        }
                        return Err(Error::Io(e));
                    },
                };
                let ghost before = scripts_view(out@);
                out.push((kinds[i], text));
                assert(scripts_view(out@) =~= before.push((kinds@[i as int], decode_utf8(c@))));
            }
            i += 1;
        }
        assert(slots.subrange(0, 7) == slots);
        Ok(out)
    }

    /// Describe the package for the `rpm` crate. Dependency strings are
    /// parsed as [`Relation`]s (provides as [`VirtualPackage`]s); file modes
    /// must fit in 16 bits; scripts must be UTF-8.
    pub fn rpm_spec(&self) -> (res: Result<RpmSpec, Error>)
        ensures
            rpm_failure(*self) matches Some(f) ==> (res matches Err(e) && failure_error(f, e)),
            rpm_failure(*self) is None ==> (res matches Ok(s) && describes(s, *self)),
            res matches Ok(s) ==> rpm_paths_ok(s),
    {
        let required = match parse_relations(&self.depends) {
            Ok(v) => v,
            Err(e) => return Err(Error::Rpm(e.to_string())),
        };
        let provides = match parse_provides(&self.provides) {
            Ok(v) => v,
            Err(e) => return Err(Error::Rpm(e.to_string())),
        };
        let conflicts = match parse_relations(&self.conflicts) {
            Ok(v) => v,
            Err(e) => return Err(Error::Rpm(e.to_string())),
        };
        let obsoletes = match parse_relations(&self.replaces) {
            Ok(v) => v,
            Err(e) => return Err(Error::Rpm(e.to_string())),
        };
        let files = match self.rpm_files() {
            Ok(f) => f,
            Err(e) => return Err(e),
        };
        let dests = self.rpm_dest_list();
        if let Some(i) = first_bad_dest_index(&dests) {
            let mut msg = String::from_str("destination path has no file name: ");
            msg.append(dests[i].as_str());
            return Err(Error::Rpm(msg));
        }
        let scripts = match self.rpm_scripts() {
            Ok(s) => s,
            Err(e) => return Err(e),
        };
        let license = match &self.license {
            Some(l) => l.clone(),
            None => String::from_str("Unknown"),
        };
        let packager = match &self.rpm.packager {
            Some(p) => Some(p.clone()),
            None => self.maintainer.clone(),
        };
        let payload = match self.rpm.compression {
            RpmCompression::Gzip => RpmPayload::Gzip(9),
            RpmCompression::Xz => RpmPayload::Xz(9),
            RpmCompression::Zstd => RpmPayload::Zstd(19),
            RpmCompression::Lzma => RpmPayload::Gzip(9),
        };
        let mut ghosts: Vec<String> = Vec::new();
        let mut i: usize = 0;
        while i < self.rpm.ghost_files.len()
            invariant
                i <= self.rpm.ghost_files@.len(),
                strs(ghosts@) == strs(self.rpm.ghost_files@.subrange(0, i as int)),
            decreases self.rpm.ghost_files@.len() - i,
        {
            let ghost prev = ghosts@;
            let g = self.rpm.ghost_files[i].clone();
            ghosts.push(g);
            proof {
                let gf = self.rpm.ghost_files@;
                assert(strs(prev).len() == i);
                assert forall|k: int| 0 <= k < i + 1 implies #[trigger] strs(ghosts@)[k] == strs(gf.subrange(0, i + 1))[k] by {
                    if k < i {
                        assert(strs(prev)[k] == strs(gf.subrange(0, i as int))[k]);
                    }
                }
                assert(strs(ghosts@) =~= strs(gf.subrange(0, i + 1)));
            }
            i += 1;
        }
        assert(self.rpm.ghost_files@.subrange(0, self.rpm.ghost_files@.len() as int) == self.rpm.ghost_files@);
        proof {
            let ds = rpm_dests(*self);
            let ev = entries_view(self.entries@);
            lemma_no_bad_dest(ds);
            assert(files_view(files@) == ev.map_values(|e: EntryView| rpm_file_of(e)));
            assert(files_view(files@).len() == files@.len());
            assert(files@.len() == ev.len());
            assert forall|i: int| 0 <= i < files@.len() implies rpm_dest_ok(#[trigger] files@[i].dest@) by {
                assert(files_view(files@)[i] == files@[i]@);
                assert(ev.map_values(|e: EntryView| rpm_file_of(e))[i] == rpm_file_of(ev[i]));
                assert(ds[i] == ev[i].dest);
            }
            assert forall|i: int| 0 <= i < ghosts@.len() implies rpm_dest_ok(#[trigger] ghosts@[i]@) by {
                assert(strs(ghosts@)[i] == ghosts@[i]@);
                assert(strs(self.rpm.ghost_files@)[i] == self.rpm.ghost_files@[i]@);
                assert(ds[ev.len() + i] == strs(self.rpm.ghost_files@)[i]);
            }
        }
        Ok(RpmSpec {
            name: self.name.clone(),
            version: self.version.clone(),
            license,
            arch: self.arch.to_rpm(),
            summary: self.rpm_summary_string(),
            description: self.description.clone(),
            release: self.release.clone(),
            epoch: self.epoch,
            url: self.homepage.clone(),
            vendor: self.vendor.clone(),
            group: self.rpm.group.clone(),
            packager,
            build_host: self.rpm.build_host.clone(),
            payload,
            required,
            provides,
            conflicts,
            obsoletes,
            files,
            ghosts,
            scripts,
        })
    }
}

proof fn lemma_scripts_prefix_none(s: Seq<(RpmScriptKind, Option<Content>)>, k: int)
    requires
        0 <= k <= s.len(),
        rpm_scripts_of(s.subrange(0, k)) is None,
    ensures
        rpm_scripts_of(s) is None,
    decreases s.len() - k,
{
    if k < s.len() {
        assert(s.subrange(0, k + 1).drop_last() == s.subrange(0, k));
        lemma_scripts_prefix_none(s, k + 1);
    } else {
        assert(s.subrange(0, k) == s);
    }
}


// --- handing the description to the `rpm` crate ---

/// The bits of `rpm::DependencyFlags` for an operator: `LESS` 2,
/// `GREATER` 4, `EQUAL` 8, and their unions for `<=` and `>=`.
pub open spec fn dependency_flags(op: Op) -> u32 {
    match op {
        Op::Less => 2,
        Op::LessEqual => 10,
        Op::Equal => 8,
        Op::GreaterEqual => 12,
        Op::Greater => 4,
    }
}

/// The rpm dependency of a relation: the name, and the constraint's flags
/// and version, or no flags and an empty version without a constraint.
pub open spec fn relation_dependency(r: RelationView) -> (Seq<char>, u32, Seq<char>) {
    match r.constraint {
        Some((op, v)) => (r.name, dependency_flags(op), v),
        None => (r.name, 0u32, Seq::empty()),
    }
}

/// The rpm capability of a provided virtual package: `name = version`, or
/// the bare name.
pub open spec fn provide_dependency(p: VirtualPackageView) -> (Seq<char>, u32, Seq<char>) {
    match p.version {
        Some(v) => (p.name, 8u32, v),
        None => (p.name, 0u32, Seq::empty()),
    }
}

/// The rpm dependency of a relation: its name, and its constraint's
/// operator and version where it has one.
fn rpm_relation(rel: &Relation) -> (res: rpm::Dependency)
    ensures
        dependency_view(res) == relation_dependency(rel@),
{
    let name = rel.name.as_str();
    match &rel.constraint {
        None => dependency_any(name),
        Some(c) => {
            let ver = c.version.as_str();
            match c.op {
                Op::GreaterEqual => dependency_greater_eq(name, ver),
                Op::LessEqual => dependency_less_eq(name, ver),
                Op::Greater => dependency_greater(name, ver),
                Op::Less => dependency_less(name, ver),
                Op::Equal => dependency_eq(name, ver),
            }
        },
    }
}

/// The rpm capability of a provided virtual package: `name` alone, or
/// `name = version`.
fn rpm_provide(prov: &VirtualPackage) -> (res: rpm::Dependency)
    ensures
        dependency_view(res) == provide_dependency(prov@),
{
    match &prov.version {
        None => dependency_any(prov.name.as_str()),
        Some(v) => dependency_eq(prov.name.as_str(), v.as_str()),
    }
}

/// The bytes were appended to the buffer and start with the rpm lead's
/// magic number.
pub open spec fn appended_rpm(before: Seq<u8>, after: Seq<u8>) -> bool {
    &&& after.len() >= before.len() + 4
    &&& after.subrange(0, before.len() as int) == before
    &&& after.subrange(before.len() as int, before.len() + 4 as int) == rpm_magic()
}

/// The scripts as the map from kind to text that the builder holds: a
/// later script of a kind replaces an earlier one.
pub open spec fn scripts_map(v: Seq<(RpmScriptKind, Seq<char>)>) -> Map<RpmScriptKind, Seq<char>>
    decreases v.len(),
{
    if v.len() == 0 {
        Map::empty()
    } else {
        scripts_map(v.drop_last()).insert(v.last().0, v.last().1)
    }
}

/// What the builder is to hold once a described package has been handed
/// to it: the metadata, the payload compression, the dependencies in
/// order and the scripts.
pub open spec fn spec_builder_view(s: RpmSpec) -> RpmBuilderView {
    RpmBuilderView {
        name: s.name@,
        version: s.version@,
        license: s.license@,
        arch: s.arch@,
        summary: s.summary@,
        description: Some(s.description@),
        release: s.release@,
        epoch: s.epoch,
        url: opt_view(s.url),
        vendor: opt_view(s.vendor),
        group: opt_view(s.group),
        packager: opt_view(s.packager),
        build_host: opt_view(s.build_host),
        payload: s.payload,
        requires: s.required@.map_values(|r: Relation| relation_dependency(r@)),
        provides: s.provides@.map_values(|p: VirtualPackage| provide_dependency(p@)),
        conflicts: s.conflicts@.map_values(|r: Relation| relation_dependency(r@)),
        obsoletes: s.obsoletes@.map_values(|r: Relation| relation_dependency(r@)),
        scripts: scripts_map(scripts_view(s.scripts@)),
    }
}

/// The builder entry of a file of the spec.
pub open spec fn rpm_file_entry(f: RpmFileView) -> RpmFileModel {
    match f.kind {
        EntryKindView::File { data, is_config } => regular_entry(data, f.mode, f.user, f.group, is_config, false),
        EntryKindView::Directory => RpmFileModel {
            file_type: RpmFileType::Dir,
            data: Seq::empty(),
            link: Seq::empty(),
            permissions: (f.mode % 4096) as u16,
            user: f.user,
            group: f.group,
            config: false,
            noreplace: false,
            ghost_file: false,
        },
        EntryKindView::Symlink { target } => RpmFileModel {
            file_type: RpmFileType::Symlink,
            data: encode_utf8(target),
            link: target,
            permissions: (f.mode % 4096) as u16,
            user: f.user,
            group: f.group,
            config: false,
            noreplace: false,
            ghost_file: false,
        },
    }
}

/// The builder entry of a ghost file: mode 0o644, owned by `root`.
pub open spec fn ghost_entry() -> RpmFileModel {
    regular_entry(Seq::empty(), 0o644, seq!['r', 'o', 'o', 't'], seq!['r', 'o', 'o', 't'], false, true)
}

/// The files handed to a builder, each filed under its key in order.
pub open spec fn add_files(m: Map<Seq<char>, RpmFileModel>, fs: Seq<RpmFileView>) -> Map<Seq<char>, RpmFileModel>
    decreases fs.len(),
{
    if fs.len() == 0 {
        m
    } else {
        add_files(m, fs.drop_last()).insert(rpm_file_key(fs.last().dest), rpm_file_entry(fs.last()))
    }
}

/// The ghost files handed to a builder, each filed under its key in order.
pub open spec fn add_ghosts(m: Map<Seq<char>, RpmFileModel>, gs: Seq<Seq<char>>) -> Map<Seq<char>, RpmFileModel>
    decreases gs.len(),
{
    if gs.len() == 0 {
        m
    } else {
        add_ghosts(m, gs.drop_last()).insert(rpm_file_key(gs.last()), ghost_entry())
    }
}

/// The files the builder is to hold for a described package: its files,
/// then its ghost files.
pub open spec fn spec_files(s: RpmSpec) -> Map<Seq<char>, RpmFileModel> {
    add_ghosts(add_files(no_files(), files_view(s.files@)), strs(s.ghosts@))
}

/// The keys of the files and ghost files of the spec, in order.
pub open spec fn spec_keys(s: RpmSpec) -> Seq<Seq<char>> {
    files_view(s.files@).map_values(|f: RpmFileView| rpm_file_key(f.dest)) + strs(s.ghosts@).map_values(
        |g: Seq<char>| rpm_file_key(g),
    )
}

/// A symlink's target is not empty.
pub open spec fn symlink_target_ok(f: RpmFileView) -> bool {
    match f.kind {
        EntryKindView::Symlink { target } => target.len() > 0,
        _ => true,
    }
}

/// Every file of the spec is one the builder takes: plain destinations,
/// pairwise different keys, and no empty symlink target.
pub open spec fn rpm_files_plain(s: RpmSpec) -> bool {
    &&& forall|i: int| 0 <= i < s.files@.len() ==> rpm_dest_plain(#[trigger] s.files@[i].dest@)
    &&& forall|i: int| 0 <= i < s.files@.len() ==> symlink_target_ok(#[trigger] s.files@[i]@)
    &&& forall|i: int| 0 <= i < s.ghosts@.len() ==> rpm_dest_plain(#[trigger] s.ghosts@[i]@)
    &&& forall|i: int, j: int| 0 <= i < j < spec_keys(s).len() ==> #[trigger] spec_keys(s)[i] != #[trigger] spec_keys(s)[j]
}

/// The keys that adding files puts into a map.
proof fn lemma_add_files_keys(m: Map<Seq<char>, RpmFileModel>, fs: Seq<RpmFileView>, k: Seq<char>)
    ensures
        add_files(m, fs).contains_key(k) <==> (m.contains_key(k) || exists|i: int| 0 <= i < fs.len() && rpm_file_key(#[trigger] fs[i].dest) == k),
    decreases fs.len(),
{
    if fs.len() > 0 {
        lemma_add_files_keys(m, fs.drop_last(), k);
        if exists|i: int| 0 <= i < fs.drop_last().len() && rpm_file_key(#[trigger] fs.drop_last()[i].dest) == k {
            let i = choose|i: int| 0 <= i < fs.drop_last().len() && rpm_file_key(#[trigger] fs.drop_last()[i].dest) == k;
            assert(fs[i] == fs.drop_last()[i]);
        }
        if exists|i: int| 0 <= i < fs.len() && rpm_file_key(#[trigger] fs[i].dest) == k {
            let i = choose|i: int| 0 <= i < fs.len() && rpm_file_key(#[trigger] fs[i].dest) == k;
            if i < fs.len() - 1 {
                assert(fs.drop_last()[i] == fs[i]);
            }
        }
    }
}

/// The keys that adding ghost files puts into a map.
proof fn lemma_add_ghosts_keys(m: Map<Seq<char>, RpmFileModel>, gs: Seq<Seq<char>>, k: Seq<char>)
    ensures
        add_ghosts(m, gs).contains_key(k) <==> (m.contains_key(k) || exists|i: int| 0 <= i < gs.len() && rpm_file_key(#[trigger] gs[i]) == k),
    decreases gs.len(),
{
    if gs.len() > 0 {
        lemma_add_ghosts_keys(m, gs.drop_last(), k);
        if exists|i: int| 0 <= i < gs.drop_last().len() && rpm_file_key(#[trigger] gs.drop_last()[i]) == k {
            let i = choose|i: int| 0 <= i < gs.drop_last().len() && rpm_file_key(#[trigger] gs.drop_last()[i]) == k;
            assert(gs[i] == gs.drop_last()[i]);
        }
        if exists|i: int| 0 <= i < gs.len() && rpm_file_key(#[trigger] gs[i]) == k {
            let i = choose|i: int| 0 <= i < gs.len() && rpm_file_key(#[trigger] gs[i]) == k;
            if i < gs.len() - 1 {
                assert(gs.drop_last()[i] == gs[i]);
            }
        }
    }
}

/// Every destination of the spec names a file.
pub open spec fn rpm_paths_ok(s: RpmSpec) -> bool {
    &&& forall|i: int| 0 <= i < s.files@.len() ==> rpm_dest_ok(#[trigger] s.files@[i].dest@)
    &&& forall|i: int| 0 <= i < s.ghosts@.len() ==> rpm_dest_ok(#[trigger] s.ghosts@[i]@)
}

/// The relations as the dependencies handed to the builder.
pub open spec fn relation_deps(v: Seq<Relation>) -> Seq<DependencyView> {
    v.map_values(|r: Relation| relation_dependency(r@))
}

/// Hand the dependencies to the builder one by one, with `add`.
fn add_relations(b: &mut rpm::PackageBuilder, rels: &Vec<Relation>, which: u8)
    requires
        which < 3,
    ensures
        which == 0 ==> builder_view(*final(b)) == (RpmBuilderView {
            requires: builder_view(*old(b)).requires + relation_deps(rels@),
            ..builder_view(*old(b))
        }),
        which == 1 ==> builder_view(*final(b)) == (RpmBuilderView {
            conflicts: builder_view(*old(b)).conflicts + relation_deps(rels@),
            ..builder_view(*old(b))
        }),
        which == 2 ==> builder_view(*final(b)) == (RpmBuilderView {
            obsoletes: builder_view(*old(b)).obsoletes + relation_deps(rels@),
            ..builder_view(*old(b))
        }),
        builder_files(*final(b)) == builder_files(*old(b)),
{
    let ghost v0 = builder_view(*b);
    let mut i: usize = 0;
    assert(v0.requires + relation_deps(rels@.subrange(0, 0)) =~= v0.requires);
    assert(v0.conflicts + relation_deps(rels@.subrange(0, 0)) =~= v0.conflicts);
    assert(v0.obsoletes + relation_deps(rels@.subrange(0, 0)) =~= v0.obsoletes);
    while i < rels.len()
        invariant
            i <= rels@.len(),
            which < 3,
            v0 == builder_view(*old(b)),
            builder_files(*b) == builder_files(*old(b)),
            which == 0 ==> builder_view(*b) == (RpmBuilderView {
                requires: v0.requires + relation_deps(rels@.subrange(0, i as int)),
                ..v0
            }),
            which == 1 ==> builder_view(*b) == (RpmBuilderView {
                conflicts: v0.conflicts + relation_deps(rels@.subrange(0, i as int)),
                ..v0
            }),
            which == 2 ==> builder_view(*b) == (RpmBuilderView {
                obsoletes: v0.obsoletes + relation_deps(rels@.subrange(0, i as int)),
                ..v0
            }),
        decreases rels@.len() - i,
    {
        let d = rpm_relation(&rels[i]);
        proof {
            assert(relation_deps(rels@.subrange(0, i + 1)) =~= relation_deps(rels@.subrange(0, i as int)).push(
                relation_dependency(rels@[i as int]@),
            ));
        }
        if which == 0 {
            builder_requires(b, d);
        } else if which == 1 {
            builder_conflicts(b, d);
        } else {
            builder_obsoletes(b, d);
        }
        proof {
            let r = relation_dependency(rels@[i as int]@);
            assert(v0.requires + relation_deps(rels@.subrange(0, i + 1)) =~= (v0.requires + relation_deps(
                rels@.subrange(0, i as int),
            )).push(r));
            assert(v0.conflicts + relation_deps(rels@.subrange(0, i + 1)) =~= (v0.conflicts + relation_deps(
                rels@.subrange(0, i as int),
            )).push(r));
            assert(v0.obsoletes + relation_deps(rels@.subrange(0, i + 1)) =~= (v0.obsoletes + relation_deps(
                rels@.subrange(0, i as int),
            )).push(r));
        }
        i += 1;
    }
    assert(rels@.subrange(0, rels@.len() as int) == rels@);
}

/// Hand a described package to a new `rpm::PackageBuilder`: the metadata,
/// the payload compression, the dependencies (requires, provides,
/// conflicts, obsoletes, each in order), the files (configuration files
/// marked as config and noreplace), the ghost files (mode 0o644) and the
/// scripts. The `rpm` crate refuses a file whose destination it cannot
/// take or whose key is already taken; its refusal is returned as
/// [`Error::Rpm`], and it does not refuse when every file is plain
/// (`rpm_files_plain`). On success the builder's metadata, dependencies
/// and scripts (`builder_view`) and its files (`builder_files`) are those
/// the spec describes.
pub fn rpm_builder(spec: RpmSpec) -> (res: Result<rpm::PackageBuilder, Error>)
    requires
        rpm_paths_ok(spec),
    ensures
        res matches Ok(b) ==> builder_view(b) == spec_builder_view(spec) && builder_files(b) == spec_files(spec),
        res matches Err(e) ==> e is Rpm,
        rpm_files_plain(spec) ==> res is Ok,
{
    let ghost target = spec_builder_view(spec);
    let ghost sv = spec;
    let RpmSpec {
        name, version, license, arch, summary, description, release, epoch, url, vendor,
        group, packager, build_host, payload, required, provides, conflicts, obsoletes,
        files, ghosts, scripts,
    } = spec;
    let mut b = builder_new(name.as_str(), version.as_str(), license.as_str(), arch, summary.as_str());
    builder_description(&mut b, description.as_str());
    builder_release(&mut b, release.as_str());
    if let Some(e) = epoch {
        builder_epoch(&mut b, e);
    }
    if let Some(u) = &url {
        builder_url(&mut b, u.as_str());
    }
    if let Some(v) = &vendor {
        builder_vendor(&mut b, v.as_str());
    }
    if let Some(g) = &group {
        builder_group(&mut b, g.as_str());
    }
    if let Some(p) = &packager {
        builder_packager(&mut b, p.as_str());
    }
    if let Some(h) = &build_host {
        builder_build_host(&mut b, h.as_str());
    }
    builder_compression(&mut b, payload);
    let ghost meta = RpmBuilderView {
        requires: Seq::empty(),
        provides: Seq::empty(),
        conflicts: Seq::empty(),
        obsoletes: Seq::empty(),
        scripts: Map::empty(),
        ..target
    };
    assert(builder_view(b) =~= meta);
    add_relations(&mut b, &required, 0);
    let ghost v1 = builder_view(b);
    let mut i: usize = 0;
    while i < provides.len()
        invariant
            i <= provides@.len(),
            builder_files(b) == no_files(),
            builder_view(b) == (RpmBuilderView {
                provides: provides@.subrange(0, i as int).map_values(|p: VirtualPackage| provide_dependency(p@)),
                ..v1
            }),
        decreases provides@.len() - i,
    {
        let d = rpm_provide(&provides[i]);
        builder_provides(&mut b, d);
        assert(provides@.subrange(0, i + 1).map_values(|p: VirtualPackage| provide_dependency(p@))
            =~= provides@.subrange(0, i as int).map_values(|p: VirtualPackage| provide_dependency(p@)).push(
            provide_dependency(provides@[i as int]@),
        ));
        i += 1;
    }
    assert(provides@.subrange(0, provides@.len() as int) == provides@);
    add_relations(&mut b, &conflicts, 1);
    add_relations(&mut b, &obsoletes, 2);
    let ghost deps = builder_view(b);
    assert(deps =~= (RpmBuilderView { scripts: Map::empty(), ..target }));
    let ghost fv = files_view(files@);
    let ghost gv = strs(ghosts@);
    let ghost n = files@.len();
    assert(files@.len() == files.len());
    let ghost orig = files@;
    let ghost keys = spec_keys(sv);
    proof {
        assert(fv == files_view(sv.files@));
        assert(gv == strs(sv.ghosts@));
        assert(fv.subrange(0, 0) =~= Seq::<RpmFileView>::empty());
    }
    let mut files = files;
    let mut k: usize = 0;
    while files.len() > 0
        invariant
            sv == spec,
            n == orig.len(),
            n <= usize::MAX,
            fv == files_view(orig),
            k <= n,
            files@ == orig.subrange(k as int, n as int),
            files@.len() == n - k,
            builder_view(b) == deps,
            builder_files(b) == add_files(no_files(), fv.subrange(0, k as int)),
            forall|i: int| 0 <= i < orig.len() ==> rpm_dest_ok(#[trigger] orig[i].dest@),
            rpm_files_plain(sv) ==> (forall|i: int| 0 <= i < orig.len() ==> rpm_dest_plain(#[trigger] orig[i].dest@)),
            rpm_files_plain(sv) ==> (forall|i: int| 0 <= i < orig.len() ==> symlink_target_ok(#[trigger] orig[i]@)),
            rpm_files_plain(sv) ==> (forall|i: int, j: int| 0 <= i < j < keys.len() ==> #[trigger] keys[i] != #[trigger] keys[j]),
            keys == fv.map_values(|f: RpmFileView| rpm_file_key(f.dest)) + gv.map_values(|g: Seq<char>| rpm_file_key(g)),
        decreases files.len(),
    {
        let ghost before = files@;
        let ghost m0 = builder_files(b);
        let f = files.remove(0);
        proof {
            assert(before[0] == orig[k as int]);
            assert(f == orig[k as int]);
            assert(files@ =~= orig.subrange(k + 1, n as int));
            assert(fv[k as int] == f@);
            assert(fv.subrange(0, k + 1).drop_last() =~= fv.subrange(0, k as int));
            assert(fv.subrange(0, k + 1).last() == f@);
            assert(rpm_files_plain(sv) ==> rpm_dest_plain(f.dest@) && symlink_target_ok(f@)
                && !m0.contains_key(rpm_file_key(f.dest@))) by {
                if rpm_files_plain(sv) {
                    assert(rpm_dest_plain(orig[k as int].dest@));
                    assert(symlink_target_ok(orig[k as int]@));
                    lemma_add_files_keys(no_files(), fv.subrange(0, k as int), rpm_file_key(f.dest@));
                    assert forall|i: int| 0 <= i < k implies rpm_file_key(#[trigger] fv.subrange(0, k as int)[i].dest) != rpm_file_key(f.dest@) by {
                        assert(keys[i] == rpm_file_key(fv[i].dest));
                        assert(keys[k as int] == rpm_file_key(fv[k as int].dest));
                    }
                }
            }
        }
        let ghost fview = f@;
        let RpmFile { dest, kind, mode, user, group } = f;
        let added = match kind {
            RpmFileKind::File { data, config } => if config {
                builder_config_file(&mut b, dest.as_str(), data, mode, user.as_str(), group.as_str())
            } else {
                builder_file(&mut b, dest.as_str(), data, mode, user.as_str(), group.as_str())
            },
            RpmFileKind::Dir => builder_dir(&mut b, dest.as_str(), mode, user.as_str(), group.as_str()),
            RpmFileKind::Symlink { target } => builder_symlink(
                &mut b,
                dest.as_str(),
                target.as_str(),
                mode,
                user.as_str(),
                group.as_str(),
            ),
        };
        if let Err(m) = added {
            return Err(Error::Rpm(m));
        }
        proof {
            assert(builder_files(b) == m0.insert(rpm_file_key(fview.dest), rpm_file_entry(fview)));
        }
        k = k + 1;
    }
    proof {
        assert(fv.subrange(0, n as int) == fv);
    }
    let ghost base = builder_files(b);
    let mut j: usize = 0;
    assert(gv.subrange(0, 0) =~= Seq::<Seq<char>>::empty());
    while j < ghosts.len()
        invariant
            sv == spec,
            j <= ghosts@.len(),
            gv == strs(ghosts@),
            builder_view(b) == deps,
            base == add_files(no_files(), fv),
            builder_files(b) == add_ghosts(base, gv.subrange(0, j as int)),
            forall|k: int| 0 <= k < ghosts@.len() ==> rpm_dest_ok(#[trigger] ghosts@[k]@),
            rpm_files_plain(sv) ==> (forall|i: int| 0 <= i < ghosts@.len() ==> rpm_dest_plain(#[trigger] ghosts@[i]@)),
            rpm_files_plain(sv) ==> (forall|i: int, j: int| 0 <= i < j < keys.len() ==> #[trigger] keys[i] != #[trigger] keys[j]),
            keys == fv.map_values(|f: RpmFileView| rpm_file_key(f.dest)) + gv.map_values(|g: Seq<char>| rpm_file_key(g)),
        decreases ghosts@.len() - j,
    {
        let ghost m0 = builder_files(b);
        proof {
            assert(gv[j as int] == ghosts@[j as int]@);
            assert(gv.subrange(0, j + 1).drop_last() =~= gv.subrange(0, j as int));
            assert(gv.subrange(0, j + 1).last() == gv[j as int]);
            assert(rpm_files_plain(sv) ==> rpm_dest_plain(ghosts@[j as int]@)
                && !m0.contains_key(rpm_file_key(gv[j as int]))) by {
            if rpm_files_plain(sv) {
                assert(rpm_dest_plain(ghosts@[j as int]@));
                let key = rpm_file_key(gv[j as int]);
                lemma_add_ghosts_keys(base, gv.subrange(0, j as int), key);
                lemma_add_files_keys(no_files(), fv, key);
                let nf = fv.len() as int;
                assert(keys[nf + j] == key);
                assert forall|i: int| 0 <= i < j implies rpm_file_key(#[trigger] gv.subrange(0, j as int)[i]) != key by {
                    assert(keys[nf + i] == rpm_file_key(gv[i]));
                }
                assert forall|i: int| 0 <= i < fv.len() implies rpm_file_key(#[trigger] fv[i].dest) != key by {
                    assert(keys[i] == rpm_file_key(fv[i].dest));
                }
            }
            }
        }
        if let Err(m) = builder_ghost(&mut b, ghosts[j].as_str(), 0o644) {
            return Err(Error::Rpm(m));
        }
        j += 1;
    }
    assert(gv.subrange(0, gv.len() as int) == gv);
    assert(builder_files(b) == spec_files(sv));
    let ghost sc = scripts_view(scripts@);
    let mut k: usize = 0;
    while k < scripts.len()
        invariant
            k <= scripts@.len(),
            sc == scripts_view(scripts@),
            builder_files(b) == spec_files(sv),
            builder_view(b) == (RpmBuilderView { scripts: scripts_map(sc.subrange(0, k as int)), ..deps }),
        decreases scripts@.len() - k,
    {
        let kind = scripts[k].0;
        let text = scripts[k].1.clone();
        match kind {
            RpmScriptKind::PreInstall => builder_pre_install(&mut b, text),
            RpmScriptKind::PostInstall => builder_post_install(&mut b, text),
            RpmScriptKind::PreUninstall => builder_pre_uninstall(&mut b, text),
            RpmScriptKind::PostUninstall => builder_post_uninstall(&mut b, text),
            RpmScriptKind::PreTrans => builder_pre_trans(&mut b, text),
            RpmScriptKind::PostTrans => builder_post_trans(&mut b, text),
            RpmScriptKind::Verify => builder_verify(&mut b, text),
        }
        proof {
            assert(sc.subrange(0, k + 1).drop_last() =~= sc.subrange(0, k as int));
            assert(sc.subrange(0, k + 1).last() == (kind, scripts@[k as int].1@));
        }
        k += 1;
    }
    assert(sc.subrange(0, sc.len() as int) == sc);
    assert(builder_view(b) =~= target);
    Ok(b)
}

/// The package was built from a builder that holds what a description of
/// the package says: its metadata, dependencies, scripts and files.
pub open spec fn built_as_described(p: Package, s: RpmSpec, b: rpm::PackageBuilder) -> bool {
    &&& describes(s, p)
    &&& builder_view(b) == spec_builder_view(s)
    &&& builder_files(b) == spec_files(s)
}

/// Hand a described package to `rpm::PackageBuilder` ([`rpm_builder`])
/// and build it: the bytes of the package, which start with the rpm lead's
/// magic number, and (as a ghost value) the builder they were built from,
/// which holds the spec's metadata, dependencies, scripts and files. An
/// error of the `rpm` crate is returned as [`Error::Rpm`].
pub fn build_rpm(spec: RpmSpec) -> (res: Result<(Vec<u8>, Ghost<rpm::PackageBuilder>), Error>)
    requires
        rpm_paths_ok(spec),
    ensures
        res matches Ok((bytes, b)) ==> {
            &&& bytes@.len() >= 4
            &&& bytes@.subrange(0, 4) == rpm_magic()
            &&& builder_view(b@) == spec_builder_view(spec)
            &&& builder_files(b@) == spec_files(spec)
        },
        res matches Err(e) ==> e is Rpm,
{
    let mut b = match rpm_builder(spec) {
        Ok(b) => b,
        Err(e) => return Err(e),
    };
    let ghost built = b;
    match builder_build_bytes(&mut b) {
        Ok(v) => Ok((v, Ghost(built))),
        Err(m) => Err(Error::Rpm(m)),
    }
}

impl Package {
    /// Write an `.rpm` package to `w`.
    ///
    /// The package is described first ([`Package::rpm_spec`]): a dependency
    /// string that does not parse, a mode that does not fit in 16 bits, a
    /// destination that names no file (such as `/usr/..`) or a script that
    /// is not UTF-8 is refused before anything is built. The description is
    /// then handed to the `rpm` crate ([`rpm_builder`]), whose errors are
    /// reported as [`Error::Rpm`]. On success the package, which starts
    /// with the rpm lead's magic number, is appended to `w`; on failure `w`
    /// is left as it was.
    pub fn write_rpm(&self, w: &mut Vec<u8>) -> (res: Result<(), Error>)
        ensures
            rpm_failure(*self) matches Some(f) ==> (res matches Err(e) && failure_error(f, e)),
            rpm_failure(*self) is None && res is Err ==> res matches Err(Error::Rpm(_)),
            res is Ok ==> appended_rpm(old(w)@, final(w)@),
            res is Ok ==> exists|s: RpmSpec, b: rpm::PackageBuilder| #[trigger] built_as_described(*self, s, b),
            res is Err ==> final(w)@ == old(w)@,
    {
        let spec = match self.rpm_spec() {
            Ok(s) => s,
            Err(e) => return Err(e),
        };
        let ghost described = spec;
        let bytes = match build_rpm(spec) {
            Ok((v, b)) => {
                proof {
                    assert(built_as_described(*self, described, b@));
                }
                v
            },
            Err(e) => return Err(e),
        };
        append_bytes(w, bytes.as_slice());
        proof {
            assert(w@.subrange(0, old(w)@.len() as int) =~= old(w)@);
            assert(w@.subrange(old(w)@.len() as int, old(w)@.len() + 4 as int) =~= bytes@.subrange(0, 4));
        }
        Ok(())
    }
}

/// The files handed to the rpm crate are the package's entries, in order:
/// each has the entry's destination, its owner as user, its group, its
/// kind and content, and its mode as 16 bits.
pub proof fn lemma_rpm_files_are_entries(s: RpmSpec, p: Package)
    requires
        describes(s, p),
    ensures
        s.files@.len() == p.entries@.len(),
        forall|i: int| 0 <= i < s.files@.len() ==> {
            &&& (#[trigger] s.files@[i]).dest@ == p.entries@[i].dest@
            &&& s.files@[i].user@ == p.entries@[i].owner@
            &&& s.files@[i].group@ == p.entries@[i].group@
            &&& s.files@[i].mode == p.entries@[i].mode as u16
            &&& s.files@[i]@.kind == p.entries@[i]@.kind
        },
{
    let ev = entries_view(p.entries@);
    assert(files_view(s.files@).len() == s.files@.len());
    assert forall|i: int| 0 <= i < s.files@.len() implies {
        &&& (#[trigger] s.files@[i]).dest@ == p.entries@[i].dest@
        &&& s.files@[i].user@ == p.entries@[i].owner@
        &&& s.files@[i].group@ == p.entries@[i].group@
        &&& s.files@[i].mode == p.entries@[i].mode as u16
        &&& s.files@[i]@.kind == p.entries@[i]@.kind
    } by {
        assert(files_view(s.files@)[i] == s.files@[i]@);
        assert(ev.map_values(|e: EntryView| rpm_file_of(e))[i] == rpm_file_of(ev[i]));
        assert(ev[i] == p.entries@[i]@);
    }
}

/// The scriptlet of kind `k` in a builder's scripts is the given script,
/// decoded, or absent when the script is not set.
pub open spec fn scriptlet_is(m: Map<RpmScriptKind, Seq<char>>, k: RpmScriptKind, script: Option<Content>) -> bool {
    match script {
        Some(c) => m.contains_key(k) && m[k] == decode_utf8(c@),
        None => !m.contains_key(k),
    }
}

/// Decoding the set scripts of distinct kinds and filing them by kind puts
/// each script under its own kind and nothing under a kind whose script is
/// not set.
proof fn lemma_scripts_map_of(s: Seq<(RpmScriptKind, Option<Content>)>)
    requires
        rpm_scripts_of(s) is Some,
        forall|i: int, j: int| 0 <= i < j < s.len() ==> #[trigger] s[i].0 != #[trigger] s[j].0,
    ensures
        forall|i: int| 0 <= i < s.len() ==> #[trigger] scriptlet_is(scripts_map(rpm_scripts_of(s).unwrap()), s[i].0, s[i].1),
        forall|k: RpmScriptKind| #[trigger] scripts_map(rpm_scripts_of(s).unwrap()).contains_key(k) ==> exists|i: int| 0 <= i < s.len() && s[i].0 == k,
    decreases s.len(),
{
    if s.len() > 0 {
        let s0 = s.drop_last();
        assert forall|i: int, j: int| 0 <= i < j < s0.len() implies #[trigger] s0[i].0 != #[trigger] s0[j].0 by {
            assert(s0[i] == s[i] && s0[j] == s[j]);
        }
        lemma_scripts_map_of(s0);
        let v0 = rpm_scripts_of(s0).unwrap();
        let v = rpm_scripts_of(s).unwrap();
        let m0 = scripts_map(v0);
        let m = scripts_map(v);
        let last = s.last();
        match last.1 {
            Some(c) => {
                let x = (last.0, decode_utf8(c@));
                assert(v == v0.push(x));
                assert(v0.push(x).drop_last() =~= v0);
                assert(m == m0.insert(x.0, x.1));
            },
            None => {
                assert(v == v0);
            },
        }
        assert forall|i: int| 0 <= i < s.len() implies #[trigger] scriptlet_is(m, s[i].0, s[i].1) by {
            if i < s.len() - 1 {
                assert(s0[i] == s[i]);
                assert(scriptlet_is(m0, s0[i].0, s0[i].1));
                assert(s[i].0 != last.0);
            } else {
                if last.1 is None {
                    if m0.contains_key(last.0) {
                        let j = choose|j: int| 0 <= j < s0.len() && s0[j].0 == last.0;
                        assert(s[j].0 == last.0);
                    }
                }
            }
        }
        assert forall|k: RpmScriptKind| #[trigger] m.contains_key(k) implies exists|i: int| 0 <= i < s.len() && s[i].0 == k by {
            if m0.contains_key(k) {
                let j = choose|j: int| 0 <= j < s0.len() && s0[j].0 == k;
                assert(s[j].0 == k);
            } else {
                assert(s[s.len() - 1].0 == k);
            }
        }
    }
}

/// The scripts handed to the rpm crate are the package's scripts, each as
/// its own scriptlet: `pre_install` as %pre, `post_install` as %post,
/// `pre_remove` as %preun, `post_remove` as %postun, and the rpm
/// `pre_trans`, `post_trans` and `verify` scripts as %pretrans,
/// %posttrans and %verifyscript; a script that is not set gives no
/// scriptlet.
pub proof fn lemma_rpm_scriptlets(s: RpmSpec, p: Package)
    requires
        describes(s, p),
    ensures
        scriptlet_is(spec_builder_view(s).scripts, RpmScriptKind::PreInstall, p.scripts.pre_install),
        scriptlet_is(spec_builder_view(s).scripts, RpmScriptKind::PostInstall, p.scripts.post_install),
        scriptlet_is(spec_builder_view(s).scripts, RpmScriptKind::PreUninstall, p.scripts.pre_remove),
        scriptlet_is(spec_builder_view(s).scripts, RpmScriptKind::PostUninstall, p.scripts.post_remove),
        scriptlet_is(spec_builder_view(s).scripts, RpmScriptKind::PreTrans, p.rpm.scripts.pre_trans),
        scriptlet_is(spec_builder_view(s).scripts, RpmScriptKind::PostTrans, p.rpm.scripts.post_trans),
        scriptlet_is(spec_builder_view(s).scripts, RpmScriptKind::Verify, p.rpm.scripts.verify),
{
    let slots = rpm_script_slots(p);
    assert forall|i: int, j: int| 0 <= i < j < slots.len() implies #[trigger] slots[i].0 != #[trigger] slots[j].0 by {}
    lemma_scripts_map_of(slots);
    assert(scripts_view(s.scripts@) == rpm_scripts_of(slots).unwrap());
    assert(scriptlet_is(scripts_map(rpm_scripts_of(slots).unwrap()), slots[0].0, slots[0].1));
    assert(scriptlet_is(scripts_map(rpm_scripts_of(slots).unwrap()), slots[1].0, slots[1].1));
    assert(scriptlet_is(scripts_map(rpm_scripts_of(slots).unwrap()), slots[2].0, slots[2].1));
    assert(scriptlet_is(scripts_map(rpm_scripts_of(slots).unwrap()), slots[3].0, slots[3].1));
    assert(scriptlet_is(scripts_map(rpm_scripts_of(slots).unwrap()), slots[4].0, slots[4].1));
    assert(scriptlet_is(scripts_map(rpm_scripts_of(slots).unwrap()), slots[5].0, slots[5].1));
    assert(scriptlet_is(scripts_map(rpm_scripts_of(slots).unwrap()), slots[6].0, slots[6].1));
}

/// A file whose key no later file takes is filed with its own entry.
proof fn lemma_add_files_at(m: Map<Seq<char>, RpmFileModel>, fs: Seq<RpmFileView>, i: int)
    requires
        0 <= i < fs.len(),
        forall|j: int| i < j < fs.len() ==> rpm_file_key(#[trigger] fs[j].dest) != rpm_file_key(fs[i].dest),
    ensures
        add_files(m, fs).contains_key(rpm_file_key(fs[i].dest)),
        add_files(m, fs)[rpm_file_key(fs[i].dest)] == rpm_file_entry(fs[i]),
    decreases fs.len(),
{
    if i < fs.len() - 1 {
        let f0 = fs.drop_last();
        assert(f0[i] == fs[i]);
        assert forall|j: int| i < j < f0.len() implies rpm_file_key(#[trigger] f0[j].dest) != rpm_file_key(f0[i].dest) by {
            assert(f0[j] == fs[j]);
        }
        lemma_add_files_at(m, f0, i);
        assert(rpm_file_key(fs.last().dest) != rpm_file_key(fs[i].dest));
    }
}

/// Ghost files under other keys leave a key's entry as it was.
proof fn lemma_add_ghosts_keep(m: Map<Seq<char>, RpmFileModel>, gs: Seq<Seq<char>>, k: Seq<char>)
    requires
        forall|j: int| 0 <= j < gs.len() ==> rpm_file_key(#[trigger] gs[j]) != k,
    ensures
        add_ghosts(m, gs).contains_key(k) == m.contains_key(k),
        m.contains_key(k) ==> add_ghosts(m, gs)[k] == m[k],
    decreases gs.len(),
{
    if gs.len() > 0 {
        let g0 = gs.drop_last();
        assert forall|j: int| 0 <= j < g0.len() implies rpm_file_key(#[trigger] g0[j]) != k by {
            assert(g0[j] == gs[j]);
        }
        lemma_add_ghosts_keep(m, g0, k);
        assert(rpm_file_key(gs.last()) != k);
    }
}

/// The scripts of a package written as an rpm: the builder it was built
/// from holds `pre_install` as %pre, `post_install` as %post, `pre_remove`
/// as %preun, `post_remove` as %postun, and the rpm `pre_trans`,
/// `post_trans` and `verify` scripts as %pretrans, %posttrans and
/// %verifyscript, and no scriptlet for a script that is not set.
pub proof fn lemma_written_rpm_scriptlets(p: Package, s: RpmSpec, b: rpm::PackageBuilder)
    requires
        built_as_described(p, s, b),
    ensures
        scriptlet_is(builder_view(b).scripts, RpmScriptKind::PreInstall, p.scripts.pre_install),
        scriptlet_is(builder_view(b).scripts, RpmScriptKind::PostInstall, p.scripts.post_install),
        scriptlet_is(builder_view(b).scripts, RpmScriptKind::PreUninstall, p.scripts.pre_remove),
        scriptlet_is(builder_view(b).scripts, RpmScriptKind::PostUninstall, p.scripts.post_remove),
        scriptlet_is(builder_view(b).scripts, RpmScriptKind::PreTrans, p.rpm.scripts.pre_trans),
        scriptlet_is(builder_view(b).scripts, RpmScriptKind::PostTrans, p.rpm.scripts.post_trans),
        scriptlet_is(builder_view(b).scripts, RpmScriptKind::Verify, p.rpm.scripts.verify),
{
    lemma_rpm_scriptlets(s, p);
}

/// The entries of a package written as an rpm: where every file is one
/// the builder takes, the builder it was built from holds each entry under
/// its destination's key, with the entry's owner as user, its group, the
/// permission bits of its mode, and the config and noreplace flags exactly
/// for a configuration file.
pub proof fn lemma_written_rpm_files(p: Package, s: RpmSpec, b: rpm::PackageBuilder, i: int)
    requires
        built_as_described(p, s, b),
        rpm_files_plain(s),
        0 <= i < p.entries@.len(),
    ensures
        builder_files(b).contains_key(rpm_file_key(p.entries@[i].dest@)),
        builder_files(b)[rpm_file_key(p.entries@[i].dest@)].user == p.entries@[i].owner@,
        builder_files(b)[rpm_file_key(p.entries@[i].dest@)].group == p.entries@[i].group@,
        builder_files(b)[rpm_file_key(p.entries@[i].dest@)].permissions == ((p.entries@[i].mode as u16) % 4096) as u16,
        builder_files(b)[rpm_file_key(p.entries@[i].dest@)].config == is_config_file(p.entries@[i]@),
        builder_files(b)[rpm_file_key(p.entries@[i].dest@)].noreplace == is_config_file(p.entries@[i]@),
        !builder_files(b)[rpm_file_key(p.entries@[i].dest@)].ghost_file,
{
    lemma_rpm_files_are_entries(s, p);
    let fv = files_view(s.files@);
    let gv = strs(s.ghosts@);
    let keys = spec_keys(s);
    let k = rpm_file_key(fv[i].dest);
    assert(fv[i] == s.files@[i]@);
    assert(keys[i] == k);
    assert forall|j: int| i < j < fv.len() implies rpm_file_key(#[trigger] fv[j].dest) != rpm_file_key(fv[i].dest) by {
        assert(keys[j] == rpm_file_key(fv[j].dest));
    }
    lemma_add_files_at(no_files(), fv, i);
    assert forall|j: int| 0 <= j < gv.len() implies rpm_file_key(#[trigger] gv[j]) != k by {
        assert(keys[fv.len() + j] == rpm_file_key(gv[j]));
    }
    lemma_add_ghosts_keep(add_files(no_files(), fv), gv, k);
}

/// A ghost file whose key no later ghost file takes is filed as a ghost.
proof fn lemma_add_ghosts_at(m: Map<Seq<char>, RpmFileModel>, gs: Seq<Seq<char>>, i: int)
    requires
        0 <= i < gs.len(),
        forall|j: int| i < j < gs.len() ==> rpm_file_key(#[trigger] gs[j]) != rpm_file_key(gs[i]),
    ensures
        add_ghosts(m, gs).contains_key(rpm_file_key(gs[i])),
        add_ghosts(m, gs)[rpm_file_key(gs[i])] == ghost_entry(),
    decreases gs.len(),
{
    if i < gs.len() - 1 {
        let g0 = gs.drop_last();
        assert(g0[i] == gs[i]);
        assert forall|j: int| i < j < g0.len() implies rpm_file_key(#[trigger] g0[j]) != rpm_file_key(g0[i]) by {
            assert(g0[j] == gs[j]);
        }
        lemma_add_ghosts_at(m, g0, i);
        assert(rpm_file_key(gs.last()) != rpm_file_key(gs[i]));
    }
}

/// The ghost files of a package written as an rpm: where every file is one
/// the builder takes, the builder it was built from holds each ghost path
/// under its key as an empty regular file marked ghost, with mode 0o644,
/// owned by `root:root`, and not a configuration file.
pub proof fn lemma_written_rpm_ghosts(p: Package, s: RpmSpec, b: rpm::PackageBuilder, i: int)
    requires
        built_as_described(p, s, b),
        rpm_files_plain(s),
        0 <= i < p.rpm.ghost_files@.len(),
    ensures
        builder_files(b).contains_key(rpm_file_key(p.rpm.ghost_files@[i]@)),
        builder_files(b)[rpm_file_key(p.rpm.ghost_files@[i]@)].ghost_file,
        builder_files(b)[rpm_file_key(p.rpm.ghost_files@[i]@)].file_type == RpmFileType::Regular,
        builder_files(b)[rpm_file_key(p.rpm.ghost_files@[i]@)].data.len() == 0,
        builder_files(b)[rpm_file_key(p.rpm.ghost_files@[i]@)].permissions == 0o644,
        builder_files(b)[rpm_file_key(p.rpm.ghost_files@[i]@)].user == "root"@,
        builder_files(b)[rpm_file_key(p.rpm.ghost_files@[i]@)].group == "root"@,
        !builder_files(b)[rpm_file_key(p.rpm.ghost_files@[i]@)].config,
{
    let fv = files_view(s.files@);
    let gv = strs(s.ghosts@);
    let keys = spec_keys(s);
    assert(gv[i] == strs(p.rpm.ghost_files@)[i]);
    assert(strs(p.rpm.ghost_files@)[i] == p.rpm.ghost_files@[i]@);
    assert(keys[fv.len() + i] == rpm_file_key(gv[i]));
    assert forall|j: int| i < j < gv.len() implies rpm_file_key(#[trigger] gv[j]) != rpm_file_key(gv[i]) by {
        assert(keys[fv.len() + j] == rpm_file_key(gv[j]));
    }
    lemma_add_ghosts_at(add_files(no_files(), fv), gv, i);
    reveal_strlit("root");
    assert("root"@ =~= seq!['r', 'o', 'o', 't']);
}

/// The flag bits of an rpm dependency: `LESS` (2) for `<` and `<=`,
/// `GREATER` (4) for `>` and `>=`, and `EQUAL` (8) for `<=`, `=` and `>=`.
pub proof fn lemma_dependency_flag_bits(op: Op)
    ensures
        dependency_flags(op) == (if op == Op::Less || op == Op::LessEqual { 2u32 } else { 0u32 }) + (if op
            == Op::Greater || op == Op::GreaterEqual {
            4u32
        } else {
            0u32
        }) + (if op == Op::LessEqual || op == Op::Equal || op == Op::GreaterEqual {
            8u32
        } else {
            0u32
        }),
{
}

/// The metadata and dependencies of a package written as an rpm: the
/// builder it was built from holds the package's name, version, release,
/// epoch, description, homepage as URL, vendor, group and build host; its
/// license (`Unknown` when none is set); its rpm packager, or else its
/// maintainer; its rpm summary when one is set; and its `depends`,
/// `provides`, `conflicts` and `replaces`, each parsed, in order, as the
/// requires, provides, conflicts and obsoletes dependencies.
pub proof fn lemma_written_rpm_metadata(p: Package, s: RpmSpec, b: rpm::PackageBuilder)
    requires
        built_as_described(p, s, b),
    ensures
        builder_view(b).name == p.name@,
        builder_view(b).version == p.version@,
        builder_view(b).release == p.release@,
        builder_view(b).epoch == p.epoch,
        builder_view(b).description == Some(p.description@),
        builder_view(b).url == opt_view(p.homepage),
        builder_view(b).vendor == opt_view(p.vendor),
        builder_view(b).group == opt_view(p.rpm.group),
        builder_view(b).build_host == opt_view(p.rpm.build_host),
        p.license matches Some(l) ==> builder_view(b).license == l@,
        p.license is None ==> builder_view(b).license == "Unknown"@,
        p.rpm.packager matches Some(x) ==> builder_view(b).packager == Some(x@),
        p.rpm.packager is None ==> builder_view(b).packager == opt_view(p.maintainer),
        p.rpm.summary matches Some(x) ==> builder_view(b).summary == x@,
        builder_view(b).requires.len() == p.depends@.len(),
        forall|i: int| 0 <= i < p.depends@.len() ==> (parse_relation(#[trigger] p.depends@[i]@) matches Ok(r)
            && builder_view(b).requires[i] == relation_dependency(r)),
        builder_view(b).provides.len() == p.provides@.len(),
        forall|i: int| 0 <= i < p.provides@.len() ==> (parse_virtual(#[trigger] p.provides@[i]@) matches Ok(v)
            && builder_view(b).provides[i] == provide_dependency(v)),
        builder_view(b).conflicts.len() == p.conflicts@.len(),
        forall|i: int| 0 <= i < p.conflicts@.len() ==> (parse_relation(#[trigger] p.conflicts@[i]@) matches Ok(r)
            && builder_view(b).conflicts[i] == relation_dependency(r)),
        builder_view(b).obsoletes.len() == p.replaces@.len(),
        forall|i: int| 0 <= i < p.replaces@.len() ==> (parse_relation(#[trigger] p.replaces@[i]@) matches Ok(r)
            && builder_view(b).obsoletes[i] == relation_dependency(r)),
{
    assert forall|i: int| 0 <= i < p.depends@.len() implies (parse_relation(#[trigger] p.depends@[i]@) matches Ok(r)
        && builder_view(b).requires[i] == relation_dependency(r)) by {
        assert(s.required@.map_values(|r: Relation| relation_dependency(r@))[i] == relation_dependency(s.required@[i]@));
    }
    assert forall|i: int| 0 <= i < p.provides@.len() implies (parse_virtual(#[trigger] p.provides@[i]@) matches Ok(v)
        && builder_view(b).provides[i] == provide_dependency(v)) by {
        assert(s.provides@.map_values(|v: VirtualPackage| provide_dependency(v@))[i] == provide_dependency(s.provides@[i]@));
    }
    assert forall|i: int| 0 <= i < p.conflicts@.len() implies (parse_relation(#[trigger] p.conflicts@[i]@) matches Ok(r)
        && builder_view(b).conflicts[i] == relation_dependency(r)) by {
        assert(s.conflicts@.map_values(|r: Relation| relation_dependency(r@))[i] == relation_dependency(s.conflicts@[i]@));
    }
    assert forall|i: int| 0 <= i < p.replaces@.len() implies (parse_relation(#[trigger] p.replaces@[i]@) matches Ok(r)
        && builder_view(b).obsoletes[i] == relation_dependency(r)) by {
        assert(s.obsoletes@.map_values(|r: Relation| relation_dependency(r@))[i] == relation_dependency(s.obsoletes@[i]@));
    }
}

} // verus!
