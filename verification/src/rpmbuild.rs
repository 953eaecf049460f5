//! The calls into the `rpm` crate that build a package.
//!
//! What an `rpm::PackageBuilder` holds of the package's metadata,
//! dependencies and scripts is named by `builder_view`, and its files, keyed
//! by their normalised path, by `builder_files`; each wrapper states how its
//! call changes both. Of an
//! `rpm::Dependency` the wrappers state its name, flags and version
//! (`dependency_view`). The package that is built depends on the build
//! time (and, unless a build host is given, on the machine's host name), so
//! nothing is stated of it beyond the magic number that starts the written
//! package. Errors of the `rpm` crate are handed on as their `Display`
//! text.
use vstd::prelude::*;
use vstd::utf8::encode_utf8;

use crate::distro::rpmpkg::{RpmPayload, RpmScriptKind};

verus! {

#[verifier::external_type_specification]
#[verifier::external_body]
pub struct ExPackageBuilder(rpm::PackageBuilder);

#[verifier::external_type_specification]
#[verifier::external_body]
pub struct ExDependency(rpm::Dependency);

/// The lead magic number that starts every rpm package.
pub open spec fn rpm_magic() -> Seq<u8> {
    seq![0xEDu8, 0xABu8, 0xEEu8, 0xDBu8]
}

/// A dependency as its name, flag bits and version.
pub type DependencyView = (Seq<char>, u32, Seq<char>);

/// What an `rpm::PackageBuilder` holds of the package's metadata,
/// dependencies and scripts (its fields `name`, `version`, `license`,
/// `arch`, `summary`, `desc`, `release`, `epoch`, `url`, `vendor`, `group`,
/// `packager`, `build_host`, the compression of its `config`, `requires`,
/// `provides`, `conflicts`, `obsoletes` and the seven scriptlets).
#[verifier::ext_equal]
pub struct RpmBuilderView {
    pub name: Seq<char>,
    pub version: Seq<char>,
    pub license: Seq<char>,
    pub arch: Seq<char>,
    pub summary: Seq<char>,
    pub description: Option<Seq<char>>,
    pub release: Seq<char>,
    pub epoch: Option<u32>,
    pub url: Option<Seq<char>>,
    pub vendor: Option<Seq<char>>,
    pub group: Option<Seq<char>>,
    pub packager: Option<Seq<char>>,
    pub build_host: Option<Seq<char>>,
    /// The compression of the builder's `BuildConfig`.
    pub payload: RpmPayload,
    pub requires: Seq<DependencyView>,
    pub provides: Seq<DependencyView>,
    pub conflicts: Seq<DependencyView>,
    pub obsoletes: Seq<DependencyView>,
    pub scripts: Map<RpmScriptKind, Seq<char>>,
}

/// What a builder holds of the package it will build.
pub uninterp spec fn builder_view(b: rpm::PackageBuilder) -> RpmBuilderView;

/// The last `/`-separated segment of a path.
pub open spec fn last_segment(s: Seq<char>) -> Seq<char>
    decreases s.len(),
{
    if s.len() == 0 {
        s
    } else if s.last() == '/' {
        Seq::empty()
    } else {
        last_segment(s.drop_last()).push(s.last())
    }
}

/// A path without its trailing slashes.
pub open spec fn trim_trailing_slashes(s: Seq<char>) -> Seq<char>
    decreases s.len(),
{
    if s.len() > 0 && s.last() == '/' {
        trim_trailing_slashes(s.drop_last())
    } else {
        s
    }
}

/// A relative path made of `.` segments alone, such as `./.`.
pub open spec fn dots_only(s: Seq<char>) -> bool {
    &&& s.len() > 0
    &&& s[0] == '.'
    &&& forall|i: int| 0 <= i < s.len() ==> (#[trigger] s[i] == '.' || s[i] == '/')
    &&& forall|i: int| 0 <= i < s.len() && #[trigger] s[i] == '.' ==> i + 1 == s.len() || s[i + 1] == '/'
}

/// A destination that `PackageBuilder` does not panic on. It unwraps the
/// file name of the normalised path, which a path ending in `..` (such as
/// `/usr/..`) does not have, and, for a relative path whose parent is
/// empty, the parent without its leading `.`, which a path of `.` segments
/// alone (such as `./.`) does not have.
pub open spec fn rpm_dest_ok(dest: Seq<char>) -> bool {
    &&& last_segment(trim_trailing_slashes(dest)) != seq!['.', '.']
    &&& !dots_only(dest)
}

/// The path with runs of slashes collapsed to one (`normalize_path`).
pub open spec fn collapse_slashes(s: Seq<char>) -> Seq<char>
    decreases s.len(),
{
    if s.len() == 0 {
        s
    } else {
        let r = collapse_slashes(s.drop_last());
        if s.last() == '/' && r.len() > 0 && r.last() == '/' {
            r
        } else {
            r.push(s.last())
        }
    }
}

/// The key under which the builder files an entry: the path with slashes
/// collapsed and one trailing slash removed, with `.` in front of an
/// absolute path.
pub open spec fn rpm_file_key(dest: Seq<char>) -> Seq<char> {
    let c = collapse_slashes(dest);
    let n = if c.len() > 1 && c.last() == '/' { c.drop_last() } else { c };
    if n.len() > 0 && n[0] == '.' { n } else { seq!['.'] + n }
}

/// An absolute destination with a proper file name: it starts with `/` and
/// its last segment (trailing slashes aside) is neither empty, `.` nor `..`.
/// The builder takes such a destination apart without refusing it.
pub open spec fn rpm_dest_plain(dest: Seq<char>) -> bool {
    let seg = last_segment(trim_trailing_slashes(dest));
    &&& dest.len() > 0
    &&& dest[0] == '/'
    &&& seg.len() > 0
    &&& seg != seq!['.']
    &&& seg != seq!['.', '.']
}

/// The builder refuses the destination outright: it does not start with
/// `/` or `./`, or it is the root itself.
pub open spec fn rpm_dest_refused(dest: Seq<char>) -> bool {
    ||| !(dest.len() > 0 && dest[0] == '/') && !(dest.len() > 1 && dest[0] == '.' && dest[1] == '/')
    ||| dest == seq!['/']
    ||| dest == seq!['.', '/']
}

/// The type of a file entry of the builder.
pub enum RpmFileType {
    Regular,
    Dir,
    Symlink,
}

/// What the builder holds of one of its files (a `PackageFileEntry`): the
/// type, the content, the link target, the permission bits, the owner, the
/// group, and the config, noreplace and ghost flags. Its timestamps are
/// left out.
pub struct RpmFileModel {
    pub file_type: RpmFileType,
    pub data: Seq<u8>,
    pub link: Seq<char>,
    pub permissions: u16,
    pub user: Seq<char>,
    pub group: Seq<char>,
    pub config: bool,
    pub noreplace: bool,
    pub ghost_file: bool,
}

/// No files.
pub open spec fn no_files() -> Map<Seq<char>, RpmFileModel> {
    Map::empty()
}

/// The files a builder holds, by their key (`rpm_file_key`).
pub uninterp spec fn builder_files(b: rpm::PackageBuilder) -> Map<Seq<char>, RpmFileModel>;

/// What a file call does to the builder's files, by the destination: a
/// refused destination or a key already present is an error that changes
/// nothing; a plain destination whose key is new is added; on success the
/// entry is added under its key.
pub open spec fn file_added(
    before: Map<Seq<char>, RpmFileModel>,
    after: Map<Seq<char>, RpmFileModel>,
    dest: Seq<char>,
    entry: RpmFileModel,
    ok: bool,
) -> bool {
    &&& ok ==> after == before.insert(rpm_file_key(dest), entry)
    &&& !ok ==> after == before
    &&& (rpm_dest_refused(dest) || before.contains_key(rpm_file_key(dest))) ==> !ok
    &&& rpm_dest_plain(dest) && !before.contains_key(rpm_file_key(dest)) ==> ok
}

/// `PackageBuilder::new`: the given metadata, release `1`, the default
/// `BuildConfig` (whose compression, with the crate's default features, is
/// zstd at level 19), and nothing else set; no files.
#[verifier::external_body]
pub(crate) fn builder_new(name: &str, version: &str, license: &str, arch: &str, summary: &str) -> (res: rpm::PackageBuilder)
    ensures
        builder_view(res) == (RpmBuilderView {
            name: name@,
            version: version@,
            license: license@,
            arch: arch@,
            summary: summary@,
            description: None,
            release: seq!['1'],
            epoch: None,
            url: None,
            vendor: None,
            group: None,
            packager: None,
            build_host: None,
            payload: RpmPayload::Zstd(19),
            requires: Seq::empty(),
            provides: Seq::empty(),
            conflicts: Seq::empty(),
            obsoletes: Seq::empty(),
            scripts: Map::empty(),
        }),
        builder_files(res) == no_files(),
{
    rpm::PackageBuilder::new(name, version, license, arch, summary)
}

/// `PackageBuilder::description`: sets the description.
#[verifier::external_body]
pub(crate) fn builder_description(b: &mut rpm::PackageBuilder, desc: &str)
    ensures
        builder_view(*final(b)) == (RpmBuilderView { description: Some(desc@), ..builder_view(*old(b)) }),
        builder_files(*final(b)) == builder_files(*old(b)),
{
    b.description(desc);
}

/// `PackageBuilder::release`: sets the release.
#[verifier::external_body]
pub(crate) fn builder_release(b: &mut rpm::PackageBuilder, release: &str)
    ensures
        builder_view(*final(b)) == (RpmBuilderView { release: release@, ..builder_view(*old(b)) }),
        builder_files(*final(b)) == builder_files(*old(b)),
{
    b.release(release);
}

/// `PackageBuilder::epoch`: sets the epoch.
#[verifier::external_body]
pub(crate) fn builder_epoch(b: &mut rpm::PackageBuilder, epoch: u32)
    ensures
        builder_view(*final(b)) == (RpmBuilderView { epoch: Some(epoch), ..builder_view(*old(b)) }),
        builder_files(*final(b)) == builder_files(*old(b)),
{
    b.epoch(epoch);
}

/// `PackageBuilder::url`: sets the URL.
#[verifier::external_body]
pub(crate) fn builder_url(b: &mut rpm::PackageBuilder, url: &str)
    ensures
        builder_view(*final(b)) == (RpmBuilderView { url: Some(url@), ..builder_view(*old(b)) }),
        builder_files(*final(b)) == builder_files(*old(b)),
{
    b.url(url);
}

/// `PackageBuilder::vendor`: sets the vendor.
#[verifier::external_body]
pub(crate) fn builder_vendor(b: &mut rpm::PackageBuilder, vendor: &str)
    ensures
        builder_view(*final(b)) == (RpmBuilderView { vendor: Some(vendor@), ..builder_view(*old(b)) }),
        builder_files(*final(b)) == builder_files(*old(b)),
{
    b.vendor(vendor);
}

/// `PackageBuilder::group`: sets the group.
#[verifier::external_body]
pub(crate) fn builder_group(b: &mut rpm::PackageBuilder, group: &str)
    ensures
        builder_view(*final(b)) == (RpmBuilderView { group: Some(group@), ..builder_view(*old(b)) }),
        builder_files(*final(b)) == builder_files(*old(b)),
{
    b.group(group);
}

/// `PackageBuilder::packager`: sets the packager.
#[verifier::external_body]
pub(crate) fn builder_packager(b: &mut rpm::PackageBuilder, packager: &str)
    ensures
        builder_view(*final(b)) == (RpmBuilderView { packager: Some(packager@), ..builder_view(*old(b)) }),
        builder_files(*final(b)) == builder_files(*old(b)),
{
    b.packager(packager);
}

/// `PackageBuilder::build_host`: sets the build host.
#[verifier::external_body]
pub(crate) fn builder_build_host(b: &mut rpm::PackageBuilder, host: &str)
    ensures
        builder_view(*final(b)) == (RpmBuilderView { build_host: Some(host@), ..builder_view(*old(b)) }),
        builder_files(*final(b)) == builder_files(*old(b)),
{
    b.build_host(host);
}

/// `PackageBuilder::using_config` with the default `BuildConfig` and the
/// given payload compression (`CompressionWithLevel`).
#[verifier::external_body]
pub(crate) fn builder_compression(b: &mut rpm::PackageBuilder, payload: RpmPayload)
    ensures
        builder_view(*final(b)) == (RpmBuilderView { payload: payload, ..builder_view(*old(b)) }),
        builder_files(*final(b)) == builder_files(*old(b)),
{
    let c = match payload {
        RpmPayload::Gzip(level) => rpm::CompressionWithLevel::Gzip(level),
        RpmPayload::Xz(level) => rpm::CompressionWithLevel::Xz(level),
        RpmPayload::Zstd(level) => rpm::CompressionWithLevel::Zstd(level),
    };
    b.using_config(rpm::BuildConfig::default().compression(c));
}

/// What an `rpm::Dependency` holds: its public fields `name`, `flags` (as
/// the bits of the `DependencyFlags`) and `version`.
pub uninterp spec fn dependency_view(d: rpm::Dependency) -> (Seq<char>, u32, Seq<char>);

/// `Dependency::any`: the name, no flags (`ANY`, 0) and an empty version.
#[verifier::external_body]
pub(crate) fn dependency_any(name: &str) -> (res: rpm::Dependency)
    ensures
        dependency_view(res) == (name@, 0u32, Seq::<char>::empty()),
{
    rpm::Dependency::any(name)
}

/// `Dependency::eq`: the name, `EQUAL` (8) and the version.
#[verifier::external_body]
pub(crate) fn dependency_eq(name: &str, version: &str) -> (res: rpm::Dependency)
    ensures
        dependency_view(res) == (name@, 8u32, version@),
{
    rpm::Dependency::eq(name, version)
}

/// `Dependency::less`: the name, `LESS` (2) and the version.
#[verifier::external_body]
pub(crate) fn dependency_less(name: &str, version: &str) -> (res: rpm::Dependency)
    ensures
        dependency_view(res) == (name@, 2u32, version@),
{
    rpm::Dependency::less(name, version)
}

/// `Dependency::less_eq`: the name, `LESS | EQUAL` (10) and the version.
#[verifier::external_body]
pub(crate) fn dependency_less_eq(name: &str, version: &str) -> (res: rpm::Dependency)
    ensures
        dependency_view(res) == (name@, 10u32, version@),
{
    rpm::Dependency::less_eq(name, version)
}

/// `Dependency::greater`: the name, `GREATER` (4) and the version.
#[verifier::external_body]
pub(crate) fn dependency_greater(name: &str, version: &str) -> (res: rpm::Dependency)
    ensures
        dependency_view(res) == (name@, 4u32, version@),
{
    rpm::Dependency::greater(name, version)
}

/// `Dependency::greater_eq`: the name, `GREATER | EQUAL` (12) and the
/// version.
#[verifier::external_body]
pub(crate) fn dependency_greater_eq(name: &str, version: &str) -> (res: rpm::Dependency)
    ensures
        dependency_view(res) == (name@, 12u32, version@),
{
    rpm::Dependency::greater_eq(name, version)
}

/// `PackageBuilder::requires`: appends the dependency.
#[verifier::external_body]
pub(crate) fn builder_requires(b: &mut rpm::PackageBuilder, dep: rpm::Dependency)
    ensures
        builder_view(*final(b)) == (RpmBuilderView {
            requires: builder_view(*old(b)).requires.push(dependency_view(dep)),
            ..builder_view(*old(b))
        }),
        builder_files(*final(b)) == builder_files(*old(b)),
{
    b.requires(dep);
}

/// `PackageBuilder::provides`: appends the capability.
#[verifier::external_body]
pub(crate) fn builder_provides(b: &mut rpm::PackageBuilder, dep: rpm::Dependency)
    ensures
        builder_view(*final(b)) == (RpmBuilderView {
            provides: builder_view(*old(b)).provides.push(dependency_view(dep)),
            ..builder_view(*old(b))
        }),
        builder_files(*final(b)) == builder_files(*old(b)),
{
    b.provides(dep);
}

/// `PackageBuilder::conflicts`: appends the dependency.
#[verifier::external_body]
pub(crate) fn builder_conflicts(b: &mut rpm::PackageBuilder, dep: rpm::Dependency)
    ensures
        builder_view(*final(b)) == (RpmBuilderView {
            conflicts: builder_view(*old(b)).conflicts.push(dependency_view(dep)),
            ..builder_view(*old(b))
        }),
        builder_files(*final(b)) == builder_files(*old(b)),
{
    b.conflicts(dep);
}

/// `PackageBuilder::obsoletes`: appends the dependency.
#[verifier::external_body]
pub(crate) fn builder_obsoletes(b: &mut rpm::PackageBuilder, dep: rpm::Dependency)
    ensures
        builder_view(*final(b)) == (RpmBuilderView {
            obsoletes: builder_view(*old(b)).obsoletes.push(dependency_view(dep)),
            ..builder_view(*old(b))
        }),
        builder_files(*final(b)) == builder_files(*old(b)),
{
    b.obsoletes(dep);
}

/// The entry of a regular file, a configuration file or a ghost file.
pub open spec fn regular_entry(data: Seq<u8>, mode: u16, user: Seq<char>, group: Seq<char>, config: bool, is_ghost: bool) -> RpmFileModel {
    RpmFileModel {
        file_type: RpmFileType::Regular,
        data,
        link: Seq::empty(),
        permissions: (mode % 4096) as u16,
        user,
        group,
        config,
        noreplace: config,
        ghost_file: is_ghost,
    }
}

/// `PackageBuilder::with_file_contents` of a regular file whose
/// `FileOptions` carry the destination, `FileMode::regular(mode)` (whose
/// permission bits are `mode & 0o7777`), owner and group. On success the
/// file is filed under its key; a refused destination or a key already
/// present is an error.
#[verifier::external_body]
pub(crate) fn builder_file(b: &mut rpm::PackageBuilder, dest: &str, data: Vec<u8>, mode: u16, user: &str, group: &str) -> (res: Result<(), String>)
    requires
        rpm_dest_ok(dest@),
    ensures
        builder_view(*final(b)) == builder_view(*old(b)),
        file_added(
            builder_files(*old(b)),
            builder_files(*final(b)),
            dest@,
            regular_entry(data@, mode, user@, group@, false, false),
            res is Ok,
        ),
{
    let opts = rpm::FileOptions::new(dest).mode(rpm::FileMode::regular(mode)).user(user).group(group);
    match b.with_file_contents(data, opts) {
        Ok(_) => Ok(()),
        Err(e) => Err(e.to_string()),
    }
}

/// `PackageBuilder::with_file_contents` of a configuration file: as
/// [`builder_file`], with `config()` and `noreplace()` set on the options.
#[verifier::external_body]
pub(crate) fn builder_config_file(b: &mut rpm::PackageBuilder, dest: &str, data: Vec<u8>, mode: u16, user: &str, group: &str) -> (res: Result<(), String>)
    requires
        rpm_dest_ok(dest@),
    ensures
        builder_view(*final(b)) == builder_view(*old(b)),
        file_added(
            builder_files(*old(b)),
            builder_files(*final(b)),
            dest@,
            regular_entry(data@, mode, user@, group@, true, false),
            res is Ok,
        ),
{
    let opts = rpm::FileOptions::new(dest).mode(rpm::FileMode::regular(mode)).user(user).group(group);
    match b.with_file_contents(data, opts.config().noreplace()) {
        Ok(_) => Ok(()),
        Err(e) => Err(e.to_string()),
    }
}

/// `PackageBuilder::with_dir_entry` with `FileOptions::dir(dest)`,
/// `FileMode::dir(mode)`, owner and group: a directory entry with no
/// content.
#[verifier::external_body]
pub(crate) fn builder_dir(b: &mut rpm::PackageBuilder, dest: &str, mode: u16, user: &str, group: &str) -> (res: Result<(), String>)
    requires
        rpm_dest_ok(dest@),
    ensures
        builder_view(*final(b)) == builder_view(*old(b)),
        file_added(
            builder_files(*old(b)),
            builder_files(*final(b)),
            dest@,
            RpmFileModel {
                file_type: RpmFileType::Dir,
                data: Seq::empty(),
                link: Seq::empty(),
                permissions: (mode % 4096) as u16,
                user: user@,
                group: group@,
                config: false,
                noreplace: false,
                ghost_file: false,
            },
            res is Ok,
        ),
{
    let opts = rpm::FileOptions::dir(dest).mode(rpm::FileMode::dir(mode)).user(user).group(group);
    match b.with_dir_entry(opts) {
        Ok(_) => Ok(()),
        Err(e) => Err(e.to_string()),
    }
}

/// `PackageBuilder::with_symlink` with `FileOptions::symlink(dest, target)`,
/// `FileMode::symbolic_link(mode)`, owner and group: a symlink entry whose
/// content is the target's bytes. An empty target is refused.
#[verifier::external_body]
pub(crate) fn builder_symlink(b: &mut rpm::PackageBuilder, dest: &str, target: &str, mode: u16, user: &str, group: &str) -> (res: Result<(), String>)
    requires
        rpm_dest_ok(dest@),
    ensures
        builder_view(*final(b)) == builder_view(*old(b)),
        target@.len() == 0 ==> res is Err && builder_files(*final(b)) == builder_files(*old(b)),
        target@.len() > 0 ==> file_added(
            builder_files(*old(b)),
            builder_files(*final(b)),
            dest@,
            RpmFileModel {
                file_type: RpmFileType::Symlink,
                data: encode_utf8(target@),
                link: target@,
                permissions: (mode % 4096) as u16,
                user: user@,
                group: group@,
                config: false,
                noreplace: false,
                ghost_file: false,
            },
            res is Ok,
        ),
{
    let opts = rpm::FileOptions::symlink(dest, target).mode(rpm::FileMode::symbolic_link(mode)).user(user).group(group);
    match b.with_symlink(opts) {
        Ok(_) => Ok(()),
        Err(e) => Err(e.to_string()),
    }
}

/// `PackageBuilder::with_ghost` with `FileOptions::ghost(dest)` and
/// `FileMode::regular(mode)`: a ghost entry with no content, owned by
/// `root` (the builder's default owner and group).
#[verifier::external_body]
pub(crate) fn builder_ghost(b: &mut rpm::PackageBuilder, dest: &str, mode: u16) -> (res: Result<(), String>)
    requires
        rpm_dest_ok(dest@),
    ensures
        builder_view(*final(b)) == builder_view(*old(b)),
        file_added(
            builder_files(*old(b)),
            builder_files(*final(b)),
            dest@,
            regular_entry(Seq::empty(), mode, seq!['r', 'o', 'o', 't'], seq!['r', 'o', 'o', 't'], false, true),
            res is Ok,
        ),
{
    let opts = rpm::FileOptions::ghost(dest).mode(rpm::FileMode::regular(mode));
    match b.with_ghost(opts) {
        Ok(_) => Ok(()),
        Err(e) => Err(e.to_string()),
    }
}

/// `PackageBuilder::pre_install_script`: sets that scriptlet to the script.
#[verifier::external_body]
pub(crate) fn builder_pre_install(b: &mut rpm::PackageBuilder, script: String)
    ensures
        builder_view(*final(b)) == (RpmBuilderView {
            scripts: builder_view(*old(b)).scripts.insert(RpmScriptKind::PreInstall, script@),
            ..builder_view(*old(b))
        }),
        builder_files(*final(b)) == builder_files(*old(b)),
{
    b.pre_install_script(rpm::Scriptlet::new(script));
}

/// `PackageBuilder::post_install_script`: sets that scriptlet to the script.
#[verifier::external_body]
pub(crate) fn builder_post_install(b: &mut rpm::PackageBuilder, script: String)
    ensures
        builder_view(*final(b)) == (RpmBuilderView {
            scripts: builder_view(*old(b)).scripts.insert(RpmScriptKind::PostInstall, script@),
            ..builder_view(*old(b))
        }),
        builder_files(*final(b)) == builder_files(*old(b)),
{
    b.post_install_script(rpm::Scriptlet::new(script));
}

/// `PackageBuilder::pre_uninstall_script`: sets that scriptlet to the script.
#[verifier::external_body]
pub(crate) fn builder_pre_uninstall(b: &mut rpm::PackageBuilder, script: String)
    ensures
        builder_view(*final(b)) == (RpmBuilderView {
            scripts: builder_view(*old(b)).scripts.insert(RpmScriptKind::PreUninstall, script@),
            ..builder_view(*old(b))
        }),
        builder_files(*final(b)) == builder_files(*old(b)),
{
    b.pre_uninstall_script(rpm::Scriptlet::new(script));
}

/// `PackageBuilder::post_uninstall_script`: sets that scriptlet to the script.
#[verifier::external_body]
pub(crate) fn builder_post_uninstall(b: &mut rpm::PackageBuilder, script: String)
    ensures
        builder_view(*final(b)) == (RpmBuilderView {
            scripts: builder_view(*old(b)).scripts.insert(RpmScriptKind::PostUninstall, script@),
            ..builder_view(*old(b))
        }),
        builder_files(*final(b)) == builder_files(*old(b)),
{
    b.post_uninstall_script(rpm::Scriptlet::new(script));
}

/// `PackageBuilder::pre_trans_script`: sets that scriptlet to the script.
#[verifier::external_body]
pub(crate) fn builder_pre_trans(b: &mut rpm::PackageBuilder, script: String)
    ensures
        builder_view(*final(b)) == (RpmBuilderView {
            scripts: builder_view(*old(b)).scripts.insert(RpmScriptKind::PreTrans, script@),
            ..builder_view(*old(b))
        }),
        builder_files(*final(b)) == builder_files(*old(b)),
{
    b.pre_trans_script(rpm::Scriptlet::new(script));
}

/// `PackageBuilder::post_trans_script`: sets that scriptlet to the script.
#[verifier::external_body]
pub(crate) fn builder_post_trans(b: &mut rpm::PackageBuilder, script: String)
    ensures
        builder_view(*final(b)) == (RpmBuilderView {
            scripts: builder_view(*old(b)).scripts.insert(RpmScriptKind::PostTrans, script@),
            ..builder_view(*old(b))
        }),
        builder_files(*final(b)) == builder_files(*old(b)),
{
    b.post_trans_script(rpm::Scriptlet::new(script));
}

/// `PackageBuilder::verify_script`: sets that scriptlet to the script.
#[verifier::external_body]
pub(crate) fn builder_verify(b: &mut rpm::PackageBuilder, script: String)
    ensures
        builder_view(*final(b)) == (RpmBuilderView {
            scripts: builder_view(*old(b)).scripts.insert(RpmScriptKind::Verify, script@),
            ..builder_view(*old(b))
        }),
        builder_files(*final(b)) == builder_files(*old(b)),
{
    b.verify_script(rpm::Scriptlet::new(script));
}

/// `PackageBuilder::build`, then `Package::write` into a fresh buffer,
/// which is returned. An error of either is returned as its `Display` text.
/// The package that is built depends on the build time (and, unless a build
/// host is given, on the machine's host name), so nothing is stated of the
/// bytes but the lead's magic number, which `Package::write` writes first.
#[verifier::external_body]
pub(crate) fn builder_build_bytes(b: &mut rpm::PackageBuilder) -> (res: Result<Vec<u8>, String>)
    ensures
        res matches Ok(bytes) ==> bytes@.len() >= 4 && bytes@.subrange(0, 4) == rpm_magic(),
{
    let pkg = match b.build() {
        Ok(p) => p,
        Err(e) => return Err(e.to_string()),
    };
    let mut buf: Vec<u8> = Vec::new();
    match pkg.write(&mut buf) {
        Ok(()) => Ok(buf),
        Err(e) => Err(e.to_string()),
    }
}

} // verus!
