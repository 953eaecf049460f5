//! rFPM: build deb, rpm, and Arch Linux packages.
//!
//! A [`Package`] collects metadata, files, directories, symlinks and
//! lifecycle scripts; `write_deb`, `write_rpm` and `write_arch` turn it
//! into the bytes of a `.deb`, `.rpm` or `.pkg.tar.zst` package.
use vstd::prelude::*;

use crate::arch::{deb_arch_name, pacman_arch_name, rpm_arch_name};
use crate::fields::FieldMap;
use crate::stdio::io_error_text;

pub mod arch;
pub mod codec;
pub mod archive;
pub mod content;
pub mod distro;
pub mod fields;
pub mod relation;
pub mod rpmbuild;
pub mod stdio;
pub mod text;

pub use arch::Arch;
pub use content::Content;
pub use relation::{Constraint, Op, Relation, RelationError, VirtualPackage};

verus! {

/// Error type for rFPM operations.
#[derive(Debug)]
pub enum Error {
    /// An I/O error occurred while reading content or writing the package.
    Io(std::io::Error),
    /// The package name contains invalid characters.
    InvalidName(String),
    /// A required field is missing.
    MissingField(&'static str),
    /// An error from the underlying RPM library.
    Rpm(String),
}

impl Error {
    /// The message that describes the error (its `Display` text).
    pub fn to_string(&self) -> (res: String)
        ensures
            match self {
                Error::Io(_) => "I/O error: "@.is_prefix_of(res@),
                Error::InvalidName(name) => res@ == "invalid package name: "@ + name@,
                Error::MissingField(field) => res@ == "missing required field: "@ + field@,
                Error::Rpm(msg) => res@ == "RPM error: "@ + msg@,
            },
    {
        match self {
            Error::Io(e) => {
                let mut out = String::from_str("I/O error: ");
                out.append(io_error_text(e).as_str());
                out
            },
            Error::InvalidName(name) => {
                let mut out = String::from_str("invalid package name: ");
                out.append(name.as_str());
                out
            },
            Error::MissingField(field) => {
                let mut out = String::from_str("missing required field: ");
                out.append(field);
                out
            },
            Error::Rpm(msg) => {
                let mut out = String::from_str("RPM error: ");
                out.append(msg.as_str());
                out
            },
        }
    }
}

impl From<std::io::Error> for Error {
    fn from(e: std::io::Error) -> (res: Error) {
        Error::Io(e)
    }
}

impl vstd::std_specs::convert::FromSpecImpl<std::io::Error> for Error {
    open spec fn obeys_from_spec() -> bool {
        true
    }

    open spec fn from_spec(e: std::io::Error) -> Error {
        Error::Io(e)
    }
}

// --- Package ---

/// A Linux package definition.
///
/// Contains all metadata, files, and scripts needed to build a `.deb`,
/// `.rpm`, or `.pkg.tar.zst` package. Format-specific options are set
/// via the [`deb`](Package::deb), [`rpm`](Package::rpm), and
/// [`arch_linux`](Package::arch_linux) fields.
pub struct Package {
    /// Package name (e.g. "myapp").
    pub name: String,
    /// Upstream version (e.g. "1.0.0").
    pub version: String,
    /// Package release/revision number. Defaults to `"1"`.
    pub release: String,
    /// Version epoch for ordering (e.g. `Some(2)` means `2:1.0.0`).
    pub epoch: Option<u32>,
    /// Target CPU architecture.
    pub arch: Arch,
    /// Package description.
    pub description: String,
    /// Homepage URL.
    pub homepage: Option<String>,
    /// License identifier (e.g. "MIT", "GPL-3.0").
    pub license: Option<String>,
    /// Package maintainer (e.g. "Name <email>").
    pub maintainer: Option<String>,
    /// Organization that distributes the software.
    pub vendor: Option<String>,
    /// Packages this package depends on at runtime.
    pub depends: Vec<String>,
    /// Virtual packages this package provides.
    pub provides: Vec<String>,
    /// Packages this package conflicts with.
    pub conflicts: Vec<String>,
    /// Packages this package replaces/obsoletes.
    pub replaces: Vec<String>,
    /// Recommended (but not required) packages.
    pub recommends: Vec<String>,
    /// Suggested packages.
    pub suggests: Vec<String>,
    /// Shared lifecycle scripts (pre/post install/remove).
    pub scripts: Scripts,
    /// Deb-specific options.
    pub deb: DebOptions,
    /// RPM-specific options.
    pub rpm: RpmOptions,
    /// Arch Linux-specific options.
    pub arch_linux: ArchOptions,
    /// File/directory/symlink entries in the package, in the order added.
    pub entries: Vec<Entry>,
}

/// Everything but the entries of two packages is the same.
pub open spec fn same_metadata(a: &Package, b: &Package) -> bool {
    &&& a.name == b.name
    &&& a.version == b.version
    &&& a.release == b.release
    &&& a.epoch == b.epoch
    &&& a.arch == b.arch
    &&& a.description == b.description
    &&& a.homepage == b.homepage
    &&& a.license == b.license
    &&& a.maintainer == b.maintainer
    &&& a.vendor == b.vendor
    &&& a.depends == b.depends
    &&& a.provides == b.provides
    &&& a.conflicts == b.conflicts
    &&& a.replaces == b.replaces
    &&& a.recommends == b.recommends
    &&& a.suggests == b.suggests
    &&& a.scripts == b.scripts
    &&& a.deb == b.deb
    &&& a.rpm == b.rpm
    &&& a.arch_linux == b.arch_linux
}

/// The abstract value of a package entry.
pub struct EntryView {
    pub dest: Seq<char>,
    pub kind: EntryKindView,
    pub mode: u32,
    pub owner: Seq<char>,
    pub group: Seq<char>,
}

/// The abstract value of an entry's kind.
pub enum EntryKindView {
    File { data: Seq<u8>, is_config: bool },
    Directory,
    Symlink { target: Seq<char> },
}

/// The abstract values of a list of entries.
pub open spec fn entries_view(entries: Seq<Entry>) -> Seq<EntryView> {
    entries.map_values(|e: Entry| e@)
}

impl Package {
    /// Create a new package with required fields.
    pub fn new(name: &str, version: &str, arch: Arch, description: &str) -> (res: Package)
        ensures
            res.name@ == name@,
            res.version@ == version@,
            res.release@ == "1"@,
            res.epoch is None,
            res.arch == arch,
            res.description@ == description@,
            res.homepage is None,
            res.license is None,
            res.maintainer is None,
            res.vendor is None,
            res.depends@.len() == 0,
            res.provides@.len() == 0,
            res.conflicts@.len() == 0,
            res.replaces@.len() == 0,
            res.recommends@.len() == 0,
            res.suggests@.len() == 0,
            res.scripts.is_empty(),
            res.deb.is_default(),
            res.rpm.is_default(),
            res.arch_linux.is_default(),
            res.entries@.len() == 0,
    {
        Package {
            name: String::from_str(name),
            version: String::from_str(version),
            release: String::from_str("1"),
            epoch: None,
            arch,
            description: String::from_str(description),
            homepage: None,
            license: None,
            maintainer: None,
            vendor: None,
            depends: Vec::new(),
            provides: Vec::new(),
            conflicts: Vec::new(),
            replaces: Vec::new(),
            recommends: Vec::new(),
            suggests: Vec::new(),
            scripts: Scripts::default(),
            deb: DebOptions::default(),
            rpm: RpmOptions::default(),
            arch_linux: ArchOptions::default(),
            entries: Vec::new(),
        }
    }

    /// Add a regular file to the package with default mode (0o644) and root ownership.
    ///
    /// `dest` is the absolute path inside the package (e.g. `"/usr/share/myapp/data.txt"`).
    pub fn add_file(&mut self, dest: &str, source: Content)
        ensures
            same_metadata(old(self), final(self)),
            entries_view(final(self).entries@) == entries_view(old(self).entries@).push(
                file_entry(dest@, source@, 0o644, "root"@, "root"@, false),
            ),
    {
        self.add_file_with(dest, source, FileOptions::default());
    }

    /// Add a regular file with explicit [`FileOptions`] (mode, owner, group).
    pub fn add_file_with(&mut self, dest: &str, source: Content, opts: FileOptions)
        ensures
            same_metadata(old(self), final(self)),
            entries_view(final(self).entries@) == entries_view(old(self).entries@).push(
                file_entry(dest@, source@, opts.mode, opts.owner@, opts.group@, false),
            ),
    {
        self.push_file(dest, source, opts, false);
    }

    /// Add a configuration file that package managers treat specially.
    ///
    /// - **deb**: listed in `conffiles`, so dpkg won't overwrite user edits on upgrade
    /// - **rpm**: gets the config flag, so rpm keeps user edits during upgrade
    /// - **arch**: listed in the `backup` field of `.PKGINFO`
    pub fn add_config(&mut self, dest: &str, source: Content)
        ensures
            same_metadata(old(self), final(self)),
            entries_view(final(self).entries@) == entries_view(old(self).entries@).push(
                file_entry(dest@, source@, 0o644, "root"@, "root"@, true),
            ),
    {
        self.push_file(dest, source, FileOptions::default(), true);
    }

    /// Add an explicit empty directory with default mode (0o755).
    ///
    /// Directories are created implicitly as parents of files, but this
    /// lets you create standalone directories (e.g. `"/var/lib/myapp"`).
    pub fn add_dir(&mut self, dest: &str)
        ensures
            same_metadata(old(self), final(self)),
            entries_view(final(self).entries@) == entries_view(old(self).entries@).push(
                dir_entry(dest@, 0o755),
            ),
    {
        self.push_dir(dest, 0o755);
    }

    /// Add an explicit empty directory with specific Unix permissions.
    pub fn add_dir_with_mode(&mut self, dest: &str, mode: u32)
        ensures
            same_metadata(old(self), final(self)),
            entries_view(final(self).entries@) == entries_view(old(self).entries@).push(
                dir_entry(dest@, mode),
            ),
    {
        self.push_dir(dest, mode);
    }

    fn push_file(&mut self, dest: &str, source: Content, opts: FileOptions, is_config: bool)
        ensures
            same_metadata(old(self), final(self)),
            entries_view(final(self).entries@) == entries_view(old(self).entries@).push(
                file_entry(dest@, source@, opts.mode, opts.owner@, opts.group@, is_config),
            ),
    {
        let entry = Entry {
            dest: String::from_str(dest),
            kind: EntryKind::File { source, is_config },
            mode: opts.mode,
            owner: opts.owner,
            group: opts.group,
        };
        self.entries.push(entry);
        assert(entries_view(self.entries@) =~= entries_view(old(self).entries@).push(entry@));
    }

    fn push_dir(&mut self, dest: &str, mode: u32)
        ensures
            same_metadata(old(self), final(self)),
            entries_view(final(self).entries@) == entries_view(old(self).entries@).push(
                dir_entry(dest@, mode),
            ),
    {
        let entry = Entry {
            dest: String::from_str(dest),
            kind: EntryKind::Directory,
            mode,
            owner: String::from_str("root"),
            group: String::from_str("root"),
        };
        self.entries.push(entry);
        assert(entries_view(self.entries@) =~= entries_view(old(self).entries@).push(entry@));
    }

    /// Add a symbolic link.
    ///
    /// `dest` is the path where the symlink is created; `target` is what it
    /// points to. For example, `add_symlink("/usr/bin/foo", "/usr/bin/bar")`
    /// creates a symlink at `/usr/bin/foo` pointing to `/usr/bin/bar`.
    pub fn add_symlink(&mut self, dest: &str, target: &str)
        ensures
            same_metadata(old(self), final(self)),
            entries_view(final(self).entries@) == entries_view(old(self).entries@).push(
                symlink_entry(dest@, target@),
            ),
    {
        let entry = Entry {
            dest: String::from_str(dest),
            kind: EntryKind::Symlink { target: String::from_str(target) },
            mode: 0o777,
            owner: String::from_str("root"),
            group: String::from_str("root"),
        };
        self.entries.push(entry);
        assert(entries_view(self.entries@) =~= entries_view(old(self).entries@).push(entry@));
    }

    /// Returns the conventional `.deb` filename:
    /// `{name}_{version}-{release}_{arch}.deb` (e.g. `"myapp_1.0.0-1_amd64.deb"`).
    pub fn deb_filename(&self) -> (res: String)
        ensures
            res@ == self.name@ + "_"@ + self.version@ + "-"@ + self.release@ + "_"@
                + deb_arch_name(self.arch) + ".deb"@,
    {
        let mut out = self.name.clone();
        out.append("_");
        out.append(self.version.as_str());
        out.append("-");
        out.append(self.release.as_str());
        out.append("_");
        out.append(self.arch.to_deb());
        out.append(".deb");
        out
    }

    /// Returns the conventional `.rpm` filename:
    /// `{name}-{version}-{release}.{arch}.rpm` (e.g. `"myapp-1.0.0-1.x86_64.rpm"`).
    pub fn rpm_filename(&self) -> (res: String)
        ensures
            res@ == self.name@ + "-"@ + self.version@ + "-"@ + self.release@ + "."@
                + rpm_arch_name(self.arch) + ".rpm"@,
    {
        let mut out = self.name.clone();
        out.append("-");
        out.append(self.version.as_str());
        out.append("-");
        out.append(self.release.as_str());
        out.append(".");
        out.append(self.arch.to_rpm());
        out.append(".rpm");
        out
    }

    /// Returns the conventional Arch Linux `.pkg.tar.zst` filename:
    /// `{name}-{version}-{release}-{arch}.pkg.tar.zst`
    /// (e.g. `"myapp-1.0.0-1-x86_64.pkg.tar.zst"`).
    pub fn arch_filename(&self) -> (res: String)
        ensures
            res@ == self.name@ + "-"@ + self.version@ + "-"@ + self.release@ + "-"@
                + pacman_arch_name(self.arch) + ".pkg.tar.zst"@,
    {
        let mut out = self.name.clone();
        out.append("-");
        out.append(self.version.as_str());
        out.append("-");
        out.append(self.release.as_str());
        out.append("-");
        out.append(self.arch.to_arch_linux());
        out.append(".pkg.tar.zst");
        out
    }
}

// --- FileOptions ---

/// Options for file entries: permissions and ownership.
///
/// Fields default to `0o644` / `root:root` via [`Default`].
pub struct FileOptions {
    /// Unix file mode (e.g. `0o755`). Defaults to `0o644`.
    pub mode: u32,
    /// Owner username. Defaults to `"root"`.
    pub owner: String,
    /// Group name. Defaults to `"root"`.
    pub group: String,
}

impl Default for FileOptions {
    fn default() -> (res: Self)
        ensures
            res.mode == 0o644,
            res.owner@ == "root"@,
            res.group@ == "root"@,
    {
        FileOptions { mode: 0o644, owner: String::from_str("root"), group: String::from_str("root") }
    }
}

// --- Entry ---

/// One file, directory or symlink of a package.
pub struct Entry {
    pub dest: String,
    pub kind: EntryKind,
    pub mode: u32,
    pub owner: String,
    pub group: String,
}

/// What an [`Entry`] is.
pub enum EntryKind {
    File { source: Content, is_config: bool },
    Directory,
    Symlink { target: String },
}

impl View for Entry {
    type V = EntryView;

    open spec fn view(&self) -> EntryView {
        EntryView {
            dest: self.dest@,
            kind: match self.kind {
                EntryKind::File { source, is_config } => EntryKindView::File {
                    data: source@,
                    is_config,
                },
                EntryKind::Directory => EntryKindView::Directory,
                EntryKind::Symlink { target } => EntryKindView::Symlink { target: target@ },
            },
            mode: self.mode,
            owner: self.owner@,
            group: self.group@,
        }
    }
}

/// A file entry.
pub open spec fn file_entry(
    dest: Seq<char>,
    data: Seq<u8>,
    mode: u32,
    owner: Seq<char>,
    group: Seq<char>,
    is_config: bool,
) -> EntryView {
    EntryView { dest, kind: EntryKindView::File { data, is_config }, mode, owner, group }
}

/// A directory entry, owned by root.
pub open spec fn dir_entry(dest: Seq<char>, mode: u32) -> EntryView {
    EntryView { dest, kind: EntryKindView::Directory, mode, owner: "root"@, group: "root"@ }
}

/// A symlink entry, mode 0o777 and owned by root.
pub open spec fn symlink_entry(dest: Seq<char>, target: Seq<char>) -> EntryView {
    EntryView {
        dest,
        kind: EntryKindView::Symlink { target },
        mode: 0o777,
        owner: "root"@,
        group: "root"@,
    }
}

// --- Scripts ---

/// Shared lifecycle scripts, used by all package formats.
///
/// These four scripts are supported by deb, rpm, and arch alike.
/// Format-specific *additional* scripts are available via [`DebScripts`],
/// [`RpmScripts`], and [`ArchScripts`] on the corresponding options struct.
pub struct Scripts {
    /// Runs before package files are installed.
    pub pre_install: Option<Content>,
    /// Runs after package files are installed.
    pub post_install: Option<Content>,
    /// Runs before package files are removed.
    pub pre_remove: Option<Content>,
    /// Runs after package files are removed.
    pub post_remove: Option<Content>,
}

impl Scripts {
    /// No script is set.
    pub open spec fn is_empty(&self) -> bool {
        &&& self.pre_install is None
        &&& self.post_install is None
        &&& self.pre_remove is None
        &&& self.post_remove is None
    }
}

impl Default for Scripts {
    fn default() -> (res: Self)
        ensures
            res.is_empty(),
    {
        Scripts { pre_install: None, post_install: None, pre_remove: None, post_remove: None }
    }
}

// --- Deb ---

/// Deb-specific package options.
pub struct DebOptions {
    /// Package section (e.g. "utils", "net").
    pub section: Option<String>,
    /// Package priority. Defaults to `"optional"`.
    pub priority: String,
    /// Compression for `data.tar.*`. Defaults to [`DebCompression::Gzip`].
    pub compression: DebCompression,
    /// Pre-dependency packages (stronger than `depends`).
    pub predepends: Vec<String>,
    /// Packages that this package breaks.
    pub breaks: Vec<String>,
    /// dpkg trigger directives.
    pub triggers: DebTriggers,
    /// Custom fields added to the `control` file.
    pub fields: FieldMap,
    /// Deb-specific scripts (rules, templates, config).
    pub scripts: DebScripts,
}

impl DebOptions {
    /// The options are the defaults.
    pub open spec fn is_default(&self) -> bool {
        &&& self.section is None
        &&& self.priority@ == "optional"@
        &&& self.compression == DebCompression::Gzip
        &&& self.predepends@.len() == 0
        &&& self.breaks@.len() == 0
        &&& self.triggers.is_empty()
        &&& self.fields@.len() == 0
        &&& self.scripts.is_empty()
    }
}

impl Default for DebOptions {
    fn default() -> (res: Self)
        ensures
            res.is_default(),
    {
        DebOptions {
            section: None,
            priority: String::from_str("optional"),
            compression: DebCompression::Gzip,
            predepends: Vec::new(),
            breaks: Vec::new(),
            triggers: DebTriggers::default(),
            fields: FieldMap::new(),
            scripts: DebScripts::default(),
        }
    }
}

/// Compression algorithm for deb `data.tar.*`.
#[derive(Debug, Clone, Copy, PartialEq, Eq, Structural)]
pub enum DebCompression {
    Gzip,
    Xz,
    Zstd,
    /// No compression (`data.tar`).
    Uncompressed,
}

/// dpkg trigger directives.
///
/// See <https://man7.org/linux/man-pages/man5/deb-triggers.5.html>.
pub struct DebTriggers {
    pub interest: Vec<String>,
    pub interest_await: Vec<String>,
    pub interest_noawait: Vec<String>,
    pub activate: Vec<String>,
    pub activate_await: Vec<String>,
    pub activate_noawait: Vec<String>,
}

impl DebTriggers {
    /// No trigger directive is set.
    pub open spec fn is_empty(&self) -> bool {
        &&& self.interest@.len() == 0
        &&& self.interest_await@.len() == 0
        &&& self.interest_noawait@.len() == 0
        &&& self.activate@.len() == 0
        &&& self.activate_await@.len() == 0
        &&& self.activate_noawait@.len() == 0
    }
}

impl Default for DebTriggers {
    fn default() -> (res: Self)
        ensures
            res.is_empty(),
    {
        DebTriggers {
            interest: Vec::new(),
            interest_await: Vec::new(),
            interest_noawait: Vec::new(),
            activate: Vec::new(),
            activate_await: Vec::new(),
            activate_noawait: Vec::new(),
        }
    }
}

/// Deb-specific scripts included in `control.tar.gz`.
///
/// These are *in addition to* the shared [`Scripts`] (pre/post install/remove),
/// which are also written into the deb's control archive.
pub struct DebScripts {
    /// `debian/rules` file.
    pub rules: Option<Content>,
    /// debconf templates file.
    pub templates: Option<Content>,
    /// debconf config script.
    pub config: Option<Content>,
}

impl DebScripts {
    /// No script is set.
    pub open spec fn is_empty(&self) -> bool {
        &&& self.rules is None
        &&& self.templates is None
        &&& self.config is None
    }
}

impl Default for DebScripts {
    fn default() -> (res: Self)
        ensures
            res.is_empty(),
    {
        DebScripts { rules: None, templates: None, config: None }
    }
}

// --- RPM ---

/// RPM-specific package options.
pub struct RpmOptions {
    /// Short one-line summary. Defaults to the first line of `description`.
    pub summary: Option<String>,
    /// RPM package group (e.g. "Applications/System").
    pub group: Option<String>,
    /// Build host name. Defaults to the system hostname.
    pub build_host: Option<String>,
    /// Organization that packaged the software.
    pub packager: Option<String>,
    /// Compression algorithm. Defaults to [`RpmCompression::Gzip`].
    pub compression: RpmCompression,
    /// Prefixes for relocatable packages.
    pub prefixes: Vec<String>,
    /// RPM-specific scripts (pretrans, posttrans, verify).
    pub scripts: RpmScripts,
    /// Destination paths for ghost files (tracked by RPM but not installed).
    pub ghost_files: Vec<String>,
}

impl RpmOptions {
    /// The options are the defaults.
    pub open spec fn is_default(&self) -> bool {
        &&& self.summary is None
        &&& self.group is None
        &&& self.build_host is None
        &&& self.packager is None
        &&& self.compression == RpmCompression::Gzip
        &&& self.prefixes@.len() == 0
        &&& self.scripts.is_empty()
        &&& self.ghost_files@.len() == 0
    }
}

impl Default for RpmOptions {
    fn default() -> (res: Self)
        ensures
            res.is_default(),
    {
        RpmOptions {
            summary: None,
            group: None,
            build_host: None,
            packager: None,
            compression: RpmCompression::Gzip,
            prefixes: Vec::new(),
            scripts: RpmScripts::default(),
            ghost_files: Vec::new(),
        }
    }
}

/// Compression algorithm for RPM packages.
#[derive(Debug, Clone, Copy, PartialEq, Eq, Structural)]
pub enum RpmCompression {
    Gzip,
    Xz,
    Zstd,
    Lzma,
}

/// RPM-specific lifecycle scripts.
///
/// These are *in addition to* the shared [`Scripts`] (pre/post install/remove).
/// Transaction scripts bracket the entire RPM transaction, while the shared
/// scripts run per-package within it.
pub struct RpmScripts {
    /// Runs before the RPM transaction begins (before any pre_install).
    pub pre_trans: Option<Content>,
    /// Runs after the RPM transaction completes (after any post_install).
    pub post_trans: Option<Content>,
    /// Runs when `rpm -V` verifies the package.
    pub verify: Option<Content>,
}

impl RpmScripts {
    /// No script is set.
    pub open spec fn is_empty(&self) -> bool {
        &&& self.pre_trans is None
        &&& self.post_trans is None
        &&& self.verify is None
    }
}

impl Default for RpmScripts {
    fn default() -> (res: Self)
        ensures
            res.is_empty(),
    {
        RpmScripts { pre_trans: None, post_trans: None, verify: None }
    }
}

// --- Arch Linux ---

/// Arch Linux-specific package options.
pub struct ArchOptions {
    /// Base package name for split packages. Defaults to the package name.
    pub pkgbase: Option<String>,
    /// Packager identity string. Defaults to `"Unknown Packager"`.
    pub packager: Option<String>,
    /// Arch-specific scripts (pre/post upgrade).
    pub scripts: ArchScripts,
}

impl ArchOptions {
    /// The options are the defaults.
    pub open spec fn is_default(&self) -> bool {
        &&& self.pkgbase is None
        &&& self.packager is None
        &&& self.scripts.pre_upgrade is None
        &&& self.scripts.post_upgrade is None
    }
}

impl Default for ArchOptions {
    fn default() -> (res: Self)
        ensures
            res.is_default(),
    {
        ArchOptions { pkgbase: None, packager: None, scripts: ArchScripts::default() }
    }
}

/// Arch Linux-specific lifecycle scripts.
///
/// These are *in addition to* the shared [`Scripts`] (pre/post install/remove).
/// The shared scripts handle installs/removes, while these handle upgrades.
/// All are written into the `.INSTALL` file as shell functions.
pub struct ArchScripts {
    /// Runs before an upgrade (not a fresh install).
    pub pre_upgrade: Option<Content>,
    /// Runs after an upgrade (not a fresh install).
    pub post_upgrade: Option<Content>,
}

impl Default for ArchScripts {
    fn default() -> (res: Self)
        ensures
            res.pre_upgrade is None,
            res.post_upgrade is None,
    {
        ArchScripts { pre_upgrade: None, post_upgrade: None }
    }
}

} // verus!
