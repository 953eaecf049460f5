//! Arch Linux package writer.
//!
//! The `.pkg.tar.zst` format is a zstd-compressed tar containing:
//! 1. Package files (regular files, dirs, symlinks)
//! 2. `.PKGINFO`: key-value metadata
//! 3. `.MTREE`: gzip-compressed manifest with md5+sha256 hashes
//! 4. `.INSTALL` (optional): scripts wrapped in shell functions
use vstd::prelude::*;
use vstd::string::*;
use vstd::utf8::{decode_utf8, encode_utf8, valid_utf8};

use crate::arch::pacman_arch_name;
use crate::archive::{
    TarArchive, TarKind, gnu_header_block, tar_cksum_set, tar_header_new_gnu, tar_kind_set,
    tar_link_set, tar_mode_set, tar_padding, tar_path_set, tar_set_cksum, tar_set_entry_type,
    tar_set_link_name, tar_set_mode, tar_set_path, tar_set_size, tar_size_set, tar_written, zeros,
};
use crate::codec::{
    gzip_compress, gzip_stream, md5_compute, md5_digest, sha256_compute, sha256_digest,
    zstd_compress, zstd_magic, zstd_stream,
};
use crate::content::Content;
use crate::distro::deb::{
    contains_text, is_config_file, lemma_contains_extend, lemma_contains_prefix, lemma_contains_prepend,
    lemma_contains_suffix, lemma_flat_map_contains,
    payload,
};
use crate::stdio::append_bytes;
use crate::text::{
    chars_of, dec, flat_map, hex, lemma_flat_map_single, lemma_flat_map_step, oct, push_dec, push_hex, push_oct,
    push_without_slash, strip_slash, strs,
};
use crate::{EntryKind, EntryKindView, EntryView, Error, Package, entries_view};

verus! {

// --- names ---

/// A character allowed in an Arch Linux package name.
pub open spec fn is_name_char(c: char) -> bool {
    ('a' <= c && c <= 'z') || ('A' <= c && c <= 'Z') || ('0' <= c && c <= '9') || c == '.' || c == '_'
        || c == '+' || c == '-'
}

/// A valid Arch Linux package name: not empty, not starting with `-` or
/// `.`, and made of ASCII letters, digits and `.`, `_`, `+`, `-`.
pub open spec fn valid_arch_name(s: Seq<char>) -> bool {
    &&& s.len() > 0
    &&& s[0] != '-'
    &&& s[0] != '.'
    &&& forall|i: int| 0 <= i < s.len() ==> is_name_char(#[trigger] s[i])
}

/// Whether `name` is a valid Arch Linux package name.
pub fn is_valid_arch_name(name: &str) -> (res: bool)
    ensures
        res == valid_arch_name(name@),
{
    let cs = chars_of(name);
    if cs.len() == 0 {
        return false;
    }
    if cs[0] == '-' || cs[0] == '.' {
        return false;
    }
    let mut i: usize = 0;
    while i < cs.len()
        invariant
            i <= cs@.len(),
            cs@ == name@,
            forall|j: int| 0 <= j < i ==> is_name_char(#[trigger] cs@[j]),
        decreases cs@.len() - i,
    {
        let c = cs[i];
        if !(('a' <= c && c <= 'z') || ('A' <= c && c <= 'Z') || ('0' <= c && c <= '9') || c == '.'
            || c == '_' || c == '+' || c == '-') {
            return false;
        }
        i += 1;
    }
    true
}

// --- numbers ---

/// The value of a string of decimal digits.
pub open spec fn digits_value(s: Seq<char>) -> nat
    decreases s.len(),
{
    if s.len() == 0 {
        0
    } else {
        (digits_value(s.drop_last()) * 10 + (s.last() as int - '0' as int)) as nat
    }
}

/// `u32::from_str`: an optional `+` and at least one decimal digit, with a
/// value that fits in 32 bits.
pub open spec fn parse_u32(s: Seq<char>) -> Option<u32> {
    let t = strip_plus(s);
    if t.len() > 0 && all_digits(t) && digits_value(t) <= u32::MAX {
        Some(digits_value(t) as u32)
    } else {
        None
    }
}

/// `s` without one leading `+`.
pub open spec fn strip_plus(s: Seq<char>) -> Seq<char> {
    if s.len() > 0 && s[0] == '+' {
        s.drop_first()
    } else {
        s
    }
}

/// Every character of `t` is a decimal digit.
pub open spec fn all_digits(t: Seq<char>) -> bool {
    forall|i: int| 0 <= i < t.len() ==> '0' <= #[trigger] t[i] && t[i] <= '9'
}

/// Parse a release number as `str::parse::<u32>` does.
pub fn parse_release(s: &str) -> (res: Option<u32>)
    ensures
        res == parse_u32(s@),
{
    let cs = chars_of(s);
    let start: usize = if cs.len() > 0 && cs[0] == '+' { 1 } else { 0 };
    let ghost t = if cs@.len() > 0 && cs@[0] == '+' { cs@.drop_first() } else { cs@ };
    assert(t == cs@.subrange(start as int, cs@.len() as int));
    if start >= cs.len() {
        return None;
    }
    let mut k = start;
    while k < cs.len()
        invariant
            start <= k <= cs@.len(),
            cs@ == s@,
            t == strip_plus(s@),
            t == cs@.subrange(start as int, cs@.len() as int),
            forall|j: int| start <= j < k ==> '0' <= #[trigger] cs@[j] && cs@[j] <= '9',
        decreases cs@.len() - k,
    {
        let c = cs[k];
        if !('0' <= c && c <= '9') {
            assert(t[k - start] == c);
            assert(!(forall|i: int| 0 <= i < t.len() ==> '0' <= #[trigger] t[i] && t[i] <= '9'));
            assert(parse_u32(s@) is None);
            return None;
        }
        k += 1;
    }
    assert(forall|i: int| 0 <= i < t.len() ==> '0' <= #[trigger] t[i] && t[i] <= '9') by {
        assert forall|i: int| 0 <= i < t.len() implies '0' <= #[trigger] t[i] && t[i] <= '9' by {
            assert(t[i] == cs@[start + i]);
        }
    }
    let mut value: u64 = 0;
    let mut i = start;
    while i < cs.len()
        invariant
            start <= i <= cs@.len(),
            start < cs@.len(),
            cs@ == s@,
            t == strip_plus(s@),
            t == cs@.subrange(start as int, cs@.len() as int),
            forall|j: int| 0 <= j < t.len() ==> '0' <= #[trigger] t[j] && t[j] <= '9',
            value as nat == digits_value(cs@.subrange(start as int, i as int)),
            value <= u32::MAX,
        decreases cs@.len() - i,
    {
        let c = cs[i];
        assert(t[i - start] == c);
        let d = (c as u32 - '0' as u32) as u64;
        assert(cs@.subrange(start as int, i + 1).drop_last() == cs@.subrange(start as int, i as int));
        let next = value * 10 + d;
        if next > u32::MAX as u64 {
            proof {
                lemma_digits_value_grows(t, (i + 1 - start) as int);
                assert(t.subrange(0, (i + 1 - start) as int) == cs@.subrange(start as int, i + 1));
            }
            return None;
        }
        value = next;
        i += 1;
    }
    Some(value as u32)
}

/// The value of a digit string is at least that of any prefix.
proof fn lemma_digits_value_grows(s: Seq<char>, k: int)
    requires
        0 <= k <= s.len(),
        forall|i: int| 0 <= i < s.len() ==> '0' <= #[trigger] s[i] && s[i] <= '9',
    ensures
        digits_value(s.subrange(0, k)) <= digits_value(s),
    decreases s.len() - k,
{
    if k < s.len() {
        assert(s.subrange(0, k + 1).drop_last() == s.subrange(0, k));
        lemma_digits_value_grows(s, k + 1);
    } else {
        assert(s.subrange(0, k) == s);
    }
}

// --- .PKGINFO ---

/// A `.PKGINFO` line `key = value`; nothing for an empty value.
pub open spec fn kv(key: Seq<char>, value: Seq<char>) -> Seq<char> {
    if value.len() == 0 {
        Seq::empty()
    } else {
        key + " = "@ + value + "\n"@
    }
}

/// One line per value.
pub open spec fn kvs(key: Seq<char>, values: Seq<Seq<char>>) -> Seq<char> {
    flat_map(values, |v: Seq<char>| kv(key, v))
}

/// A line for a value that may be absent.
pub open spec fn opt_kv(key: Seq<char>, value: Option<String>) -> Seq<char> {
    match value {
        Some(v) => kv(key, v@),
        None => Seq::empty(),
    }
}

/// The `backup` line of a config file: its path without the leading `/`.
pub open spec fn backup_line(e: EntryView) -> Seq<char> {
    match e.kind {
        EntryKindView::File { is_config, .. } => if is_config {
            kv("backup"@, strip_slash(e.dest))
        } else {
            Seq::empty()
        },
        _ => Seq::empty(),
    }
}

/// The `backup` lines of a list of entries.
pub open spec fn backup_text(es: Seq<EntryView>) -> Seq<char> {
    flat_map(es, |e: EntryView| backup_line(e))
}

/// Adding a configuration file (`add_config`) adds a `backup` line with its
/// path without the leading `/` to `.PKGINFO`; adding any other entry
/// leaves the `backup` lines as they were.
pub proof fn lemma_backup_after_add(before: Seq<EntryView>, e: EntryView)
    ensures
        is_config_file(e) ==> backup_text(before.push(e)) == backup_text(before) + kv("backup"@, strip_slash(e.dest)),
        !is_config_file(e) ==> backup_text(before.push(e)) == backup_text(before),
{
    assert(before.push(e).drop_last() == before);
    if !is_config_file(e) {
        assert(backup_text(before) + Seq::<char>::empty() == backup_text(before));
    }
}

/// The pacman version: `[epoch:]version-pkgrel`, where the release is read
/// as a number and taken as 1 when it is not one.
pub open spec fn pkgver(p: Package) -> Seq<char> {
    let pkgrel = match parse_u32(p.release@) {
        Some(r) => r,
        None => 1u32,
    };
    (match p.epoch {
        Some(e) => dec(e as nat) + ":"@,
        None => Seq::empty(),
    }) + p.version@ + "-"@ + dec(pkgrel as nat)
}

/// The description on one line: every line break becomes a space.
pub open spec fn one_line(s: Seq<char>) -> Seq<char> {
    s.map_values(|c: char| if c == '\n' { ' ' } else { c })
}

/// The text of `.PKGINFO`.
pub open spec fn pkginfo_text(p: Package, total_size: u64) -> Seq<char> {
    "# Generated by rFPM\n"@
        + kv("pkgname"@, p.name@)
        + kv("pkgbase"@, match p.arch_linux.pkgbase {
            Some(b) => b@,
            None => p.name@,
        })
        + kv("pkgver"@, pkgver(p))
        + kv("pkgdesc"@, one_line(p.description@))
        + opt_kv("url"@, p.homepage)
        + kv("builddate"@, "0"@)
        + kv("packager"@, match p.arch_linux.packager {
            Some(b) => b@,
            None => "Unknown Packager"@,
        })
        + kv("size"@, dec(total_size as nat))
        + kv("arch"@, pacman_arch_name(p.arch))
        + opt_kv("license"@, p.license)
        + kvs("replaces"@, strs(p.replaces@))
        + kvs("conflict"@, strs(p.conflicts@))
        + kvs("provides"@, strs(p.provides@))
        + kvs("depend"@, strs(p.depends@))
        + backup_text(entries_view(p.entries@))
}

/// Append a `.PKGINFO` line, unless the value is empty.
fn write_kv(buf: &mut String, key: &str, value: &str)
    ensures
        final(buf)@ == old(buf)@ + kv(key@, value@),
{
    if value.unicode_len() == 0 {
        return;
    }
    buf.append(key);
    buf.append(" = ");
    buf.append(value);
    buf.append("\n");
}

/// Append one line per value.
fn write_kvs(buf: &mut String, key: &str, values: &Vec<String>)
    ensures
        final(buf)@ == old(buf)@ + kvs(key@, strs(values@)),
{
    let ghost start = buf@;
    let ghost vs = strs(values@);
    let mut i: usize = 0;
    while i < values.len()
        invariant
            i <= values@.len(),
            vs == strs(values@),
            buf@ == start + kvs(key@, vs.subrange(0, i as int)),
        decreases values@.len() - i,
    {
        proof {
            lemma_flat_map_step(vs, |v: Seq<char>| kv(key@, v), i as int);
        }
        write_kv(buf, key, values[i].as_str());
        i += 1;
    }
    assert(vs.subrange(0, vs.len() as int) == vs);
}

/// `s` with each line break replaced by a space.
fn replace_newlines(s: &str) -> (res: String)
    ensures
        res@ == one_line(s@),
{
    let cs = chars_of(s);
    let mut out = String::new();
    let mut i: usize = 0;
    while i < cs.len()
        invariant
            i <= cs@.len(),
            cs@ == s@,
            out@ == one_line(cs@.subrange(0, i as int)),
        decreases cs@.len() - i,
    {
        if cs[i] == '\n' {
            proof {
                reveal_strlit(" ");
            }
            out.append(" ");
        } else {
            out.append(s.substring_char(i, i + 1));
        }
        assert(one_line(cs@.subrange(0, i + 1)) =~= one_line(cs@.subrange(0, i as int)) + one_line(
            cs@.subrange(i as int, i + 1),
        ));
        i += 1;
    }
    assert(cs@.subrange(0, cs@.len() as int) == cs@);
    out
}

impl Package {
    /// The pacman version string.
    fn pkgver_string(&self) -> (res: String)
        ensures
            res@ == pkgver(*self),
    {
        let pkgrel: u32 = match parse_release(self.release.as_str()) {
            Some(r) => r,
            None => 1,
        };
        let mut v = String::new();
        if let Some(epoch) = self.epoch {
            push_dec(&mut v, epoch as u64);
            v.append(":");
        }
        v.append(self.version.as_str());
        v.append("-");
        push_dec(&mut v, pkgrel as u64);
        v
    }

    /// Render the `.PKGINFO` text.
    pub fn render_pkginfo(&self, total_size: u64) -> (res: String)
        ensures
            res@ == pkginfo_text(*self, total_size),
    {
        let mut buf = String::from_str("# Generated by rFPM\n");
        write_kv(&mut buf, "pkgname", self.name.as_str());
        match &self.arch_linux.pkgbase {
            Some(b) => write_kv(&mut buf, "pkgbase", b.as_str()),
            None => write_kv(&mut buf, "pkgbase", self.name.as_str()),
        }
        let pkgver = self.pkgver_string();
        write_kv(&mut buf, "pkgver", pkgver.as_str());
        let pkgdesc = replace_newlines(self.description.as_str());
        write_kv(&mut buf, "pkgdesc", pkgdesc.as_str());
        if let Some(hp) = &self.homepage {
            write_kv(&mut buf, "url", hp.as_str());
        }
        write_kv(&mut buf, "builddate", "0");
        match &self.arch_linux.packager {
            Some(b) => write_kv(&mut buf, "packager", b.as_str()),
            None => write_kv(&mut buf, "packager", "Unknown Packager"),
        }
        let mut size = String::new();
        push_dec(&mut size, total_size);
        write_kv(&mut buf, "size", size.as_str());
        write_kv(&mut buf, "arch", self.arch.to_arch_linux());
        if let Some(license) = &self.license {
            write_kv(&mut buf, "license", license.as_str());
        }
        write_kvs(&mut buf, "replaces", &self.replaces);
        write_kvs(&mut buf, "conflict", &self.conflicts);
        write_kvs(&mut buf, "provides", &self.provides);
        write_kvs(&mut buf, "depend", &self.depends);
        let ghost start = buf@;
        let ghost ev = entries_view(self.entries@);
        let mut i: usize = 0;
        while i < self.entries.len()
            invariant
                i <= self.entries@.len(),
                ev == entries_view(self.entries@),
                buf@ == start + flat_map(ev.subrange(0, i as int), |e: EntryView| backup_line(e)),
            decreases self.entries@.len() - i,
        {
            let entry = &self.entries[i];
            proof {
                lemma_flat_map_step(ev, |e: EntryView| backup_line(e), i as int);
                assert(ev[i as int] == entry@);
            }
            if let EntryKind::File { is_config: true, .. } = &entry.kind {
                let mut path = String::new();
                push_without_slash(&mut path, entry.dest.as_str());
                write_kv(&mut buf, "backup", path.as_str());
            }
            i += 1;
        }
        assert(ev.subrange(0, ev.len() as int) == ev);
        buf
    }
}

// --- file members ---

/// The header block of a member of the package archive: a GNU header with
/// the type, path, link target (for a symlink), mode, size and checksum.
/// `None` where the path or link target is refused.
pub open spec fn pacman_header(kind: TarKind, path: Seq<char>, link: Option<Seq<char>>, mode: u32, size: u64) -> Option<Seq<u8>> {
    let (path_ok, h2) = tar_path_set(tar_kind_set(gnu_header_block(), kind), path);
    let (link_ok, h3) = match link {
        Some(t) => tar_link_set(h2, t),
        None => (true, h2),
    };
    if !path_ok || !link_ok {
        None
    } else {
        Some(tar_cksum_set(tar_size_set(tar_mode_set(h3, mode), size)))
    }
}

/// The tar type of an entry.
pub open spec fn pacman_kind(e: EntryView) -> TarKind {
    match e.kind {
        EntryKindView::File { .. } => TarKind::Regular,
        EntryKindView::Directory => TarKind::Directory,
        EntryKindView::Symlink { .. } => TarKind::Symlink,
    }
}

/// The mode an entry gets in the package: symlinks always 0o777.
pub open spec fn pacman_mode(e: EntryView) -> u32 {
    match e.kind {
        EntryKindView::Symlink { .. } => 0o777,
        _ => e.mode,
    }
}

/// The link target of a symlink.
pub open spec fn link_of(e: EntryView) -> Option<Seq<char>> {
    match e.kind {
        EntryKindView::Symlink { target } => Some(target),
        _ => None,
    }
}

/// The header of an entry's member: its path without the leading `/`.
pub open spec fn pacman_entry_header(e: EntryView) -> Option<Seq<u8>> {
    pacman_header(pacman_kind(e), strip_slash(e.dest), link_of(e), pacman_mode(e), payload(e).len() as u64)
}

/// The kind of an `.MTREE` line.
#[derive(PartialEq, Eq, Structural)]
pub enum MtreeKind {
    File,
    ConfigFile,
    Dir,
    Link,
}

/// One line of `.MTREE`.
pub struct MtreeEntry {
    path: String,
    kind: MtreeKind,
    mode: u64,
    time: u64,
    size: u64,
    md5: Vec<u8>,
    sha256: Vec<u8>,
    link_target: Option<String>,
}

/// The abstract value of an [`MtreeEntry`].
pub struct MtreeView {
    pub path: Seq<char>,
    pub kind: MtreeKind,
    pub mode: nat,
    pub time: nat,
    pub size: nat,
    pub md5: Seq<u8>,
    pub sha256: Seq<u8>,
    pub link_target: Option<Seq<char>>,
}

impl View for MtreeEntry {
    type V = MtreeView;

    closed spec fn view(&self) -> MtreeView {
        MtreeView {
            path: self.path@,
            kind: self.kind,
            mode: self.mode as nat,
            time: self.time as nat,
            size: self.size as nat,
            md5: self.md5@,
            sha256: self.sha256@,
            link_target: match self.link_target {
                Some(t) => Some(t@),
                None => None,
            },
        }
    }
}

/// The views of a list of mtree entries.
pub open spec fn mtree_views(v: Seq<MtreeEntry>) -> Seq<MtreeView> {
    v.map_values(|m: MtreeEntry| m@)
}

/// The text of an `.MTREE` line.
pub open spec fn mtree_line(m: MtreeView) -> Seq<char> {
    let head = "./"@ + m.path + " time="@ + dec(m.time) + ".0 mode="@ + oct(m.mode);
    match m.kind {
        MtreeKind::Dir => head + " type=dir\n"@,
        MtreeKind::Link => head + " type=link link="@ + match m.link_target {
            Some(t) => t,
            None => Seq::empty(),
        } + "\n"@,
        _ => head + " size="@ + dec(m.size) + " type=file md5digest="@ + hex(m.md5) + " sha256digest="@
            + hex(m.sha256) + "\n"@,
    }
}

/// The `.MTREE` line of an entry.
pub open spec fn entry_mtree(e: EntryView) -> MtreeView {
    let path = strip_slash(e.dest);
    match e.kind {
        EntryKindView::Directory => MtreeView {
            path,
            kind: MtreeKind::Dir,
            mode: e.mode as nat,
            time: 0,
            size: 0,
            md5: Seq::empty(),
            sha256: Seq::empty(),
            link_target: None,
        },
        EntryKindView::Symlink { target } => MtreeView {
            path,
            kind: MtreeKind::Link,
            mode: 0o777,
            time: 0,
            size: 0,
            md5: Seq::empty(),
            sha256: Seq::empty(),
            link_target: Some(target),
        },
        EntryKindView::File { data, is_config } => MtreeView {
            path,
            kind: if is_config { MtreeKind::ConfigFile } else { MtreeKind::File },
            mode: e.mode as nat,
            time: 0,
            size: data.len(),
            md5: md5_digest(data),
            sha256: sha256_digest(data),
            link_target: None,
        },
    }
}

/// The `.MTREE` line of a metadata file of the package.
pub open spec fn meta_mtree(path: Seq<char>, data: Seq<u8>) -> MtreeView {
    MtreeView {
        path,
        kind: MtreeKind::File,
        mode: 0o644,
        time: 0,
        size: data.len(),
        md5: md5_digest(data),
        sha256: sha256_digest(data),
        link_target: None,
    }
}

/// The file members of a package and the total size of its files; `None`
/// where some header is refused.
pub open spec fn pacman_files(es: Seq<EntryView>) -> Option<(Seq<u8>, nat)>
    decreases es.len(),
{
    if es.len() == 0 {
        Some((Seq::empty(), 0))
    } else {
        match (pacman_files(es.drop_last()), pacman_entry_header(es.last())) {
            (Some((m, t)), Some(h)) => Some(
                (
                    m + h + payload(es.last()) + tar_padding(payload(es.last()).len()),
                    t + payload(es.last()).len(),
                ),
            ),
            _ => None,
        }
    }
}

proof fn lemma_pacman_files_prefix_none(es: Seq<EntryView>, k: int)
    requires
        0 <= k <= es.len(),
        pacman_files(es.subrange(0, k)) is None,
    ensures
        pacman_files(es) is None,
    decreases es.len() - k,
{
    if k < es.len() {
        assert(es.subrange(0, k + 1).drop_last() == es.subrange(0, k));
        lemma_pacman_files_prefix_none(es, k + 1);
    } else {
        assert(es.subrange(0, k) == es);
    }
}

/// The `size` that `.PKGINFO` reports is the total size of the package's
/// files.
pub proof fn lemma_pacman_total(es: Seq<EntryView>)
    ensures
        pacman_files(es) matches Some((m, t)) ==> t == crate::distro::deb::files_size(es),
    decreases es.len(),
{
    if es.len() > 0 {
        lemma_pacman_total(es.drop_last());
    }
}


// --- .INSTALL ---

/// The shell function of one script; `None` where the script is not UTF-8.
pub open spec fn install_function(name: Seq<char>, script: Option<Content>) -> Option<Seq<char>> {
    match script {
        Some(c) => if valid_utf8(c@) {
            Some("function "@ + name + "() {\n"@ + decode_utf8(c@) + "\n}\n\n"@)
        } else {
            None
        },
        None => Some(Seq::empty()),
    }
}

/// The scripts of `.INSTALL` in order, by function name.
pub open spec fn install_scripts(p: Package) -> Seq<(Seq<char>, Option<Content>)> {
    seq![
        ("pre_install"@, p.scripts.pre_install),
        ("post_install"@, p.scripts.post_install),
        ("pre_remove"@, p.scripts.pre_remove),
        ("post_remove"@, p.scripts.post_remove),
        ("pre_upgrade"@, p.arch_linux.scripts.pre_upgrade),
        ("post_upgrade"@, p.arch_linux.scripts.post_upgrade),
    ]
}

/// The text of `.INSTALL` built from the first scripts; `None` where one of
/// them is not UTF-8.
pub open spec fn install_text_of(ss: Seq<(Seq<char>, Option<Content>)>) -> Option<Seq<char>>
    decreases ss.len(),
{
    if ss.len() == 0 {
        Some(Seq::empty())
    } else {
        match (install_text_of(ss.drop_last()), install_function(ss.last().0, ss.last().1)) {
            (Some(t), Some(f)) => Some(t + f),
            _ => None,
        }
    }
}

/// The text of `.INSTALL`.
pub open spec fn install_text(p: Package) -> Option<Seq<char>> {
    install_text_of(install_scripts(p))
}

proof fn lemma_install_prefix_none(ss: Seq<(Seq<char>, Option<Content>)>, k: int)
    requires
        0 <= k <= ss.len(),
        install_text_of(ss.subrange(0, k)) is None,
    ensures
        install_text_of(ss) is None,
    decreases ss.len() - k,
{
    if k < ss.len() {
        assert(ss.subrange(0, k + 1).drop_last() == ss.subrange(0, k));
        lemma_install_prefix_none(ss, k + 1);
    } else {
        assert(ss.subrange(0, k) == ss);
    }
}

// --- the whole package ---

/// A metadata member: header and data; `None` where the header is refused.
pub open spec fn meta_member(path: Seq<char>, data: Seq<u8>) -> Option<Seq<u8>> {
    match pacman_header(TarKind::Regular, path, None, 0o644, data.len() as u64) {
        Some(h) => Some(h + data + tar_padding(data.len())),
        None => None,
    }
}

/// The text of `.MTREE`: `#mtree`, the `.PKGINFO` line, then one line per
/// entry.
pub open spec fn mtree_text(pkginfo: Seq<u8>, es: Seq<EntryView>) -> Seq<char> {
    "#mtree\n"@ + mtree_line(meta_mtree(".PKGINFO"@, pkginfo)) + flat_map(es, |e: EntryView| mtree_line(entry_mtree(e)))
}

/// The bytes that `write_arch` writes for a package with a valid name, when
/// every header is accepted and every script is UTF-8: the zstd frame
/// (level 19) of the tar archive of the files, `.PKGINFO`, the gzip
/// (level 6) `.MTREE`, and `.INSTALL` when some script is set.
pub open spec fn arch_package(p: Package) -> Option<Seq<u8>> {
    let es = entries_view(p.entries@);
    match pacman_files(es) {
        Some((files, total)) => {
            let info = encode_utf8(pkginfo_text(p, total as u64));
            let mtree = gzip_stream(encode_utf8(mtree_text(info, es)), 6);
            match (meta_member(".PKGINFO"@, info), meta_member(".MTREE"@, mtree), install_text(p)) {
                (Some(im), Some(mm), Some(it)) => {
                    if it.len() == 0 {
                        Some(zstd_stream(files + im + mm + zeros(1024), 19))
                    } else {
                        match meta_member(".INSTALL"@, encode_utf8(it)) {
                            Some(sm) => Some(zstd_stream(files + im + mm + sm + zeros(1024), 19)),
                            None => None,
                        }
                    }
                },
                _ => None,
            }
        },
        None => None,
    }
}

impl MtreeEntry {
    /// Append the `.MTREE` line of this entry.
    pub fn write_to(&self, out: &mut String)
        ensures
            final(out)@ == old(out)@ + mtree_line(self@),
    {
        out.append("./");
        out.append(self.path.as_str());
        out.append(" time=");
        push_dec(out, self.time);
        out.append(".0 mode=");
        push_oct(out, self.mode);
        match self.kind {
            MtreeKind::Dir => {
                out.append(" type=dir\n");
            },
            MtreeKind::Link => {
                out.append(" type=link link=");
                if let Some(t) = &self.link_target {
                    out.append(t.as_str());
                }
                out.append("\n");
            },
            _ => {
                out.append(" size=");
                push_dec(out, self.size);
                out.append(" type=file md5digest=");
                push_hex(out, self.md5.as_slice());
                out.append(" sha256digest=");
                push_hex(out, self.sha256.as_slice());
                out.append("\n");
            },
        }
    }
}

/// The header block of a member of the package archive.
fn pacman_header_block(kind: TarKind, path: &str, link: Option<&String>, mode: u32, size: u64) -> (res: Result<Vec<u8>, std::io::Error>)
    ensures
        match pacman_header(kind, path@, match link { Some(t) => Some(t@), None => None }, mode, size) {
            Some(h) => res matches Ok(v) && v@ == h,
            None => res is Err,
        },
        res matches Ok(v) ==> v@.len() == 512,
{
    broadcast use crate::archive::lemma_octal_digits_len;
    let mut h = tar_header_new_gnu();
    tar_set_entry_type(&mut h, kind);
    match tar_set_path(&mut h, path) {
        Ok(()) => {},
        Err(e) => return Err(e),
    }
    if let Some(t) = link {
        match tar_set_link_name(&mut h, t.as_str()) {
            Ok(()) => {},
            Err(e) => return Err(e),
        }
    }
    tar_set_mode(&mut h, mode);
    tar_set_size(&mut h, size);
    tar_set_cksum(&mut h);
    Ok(h)
}

/// Write a metadata member.
fn write_meta(tw: &mut TarArchive, path: &str, data: &[u8]) -> (res: Result<(), Error>)
    ensures
        match meta_member(path@, data@) {
            Some(m) => res is Ok && tar_written(*final(tw)) == tar_written(*old(tw)) + m,
            None => res is Err,
        },
        res matches Err(e) ==> e is Io,
{
    let h = match pacman_header_block(TarKind::Regular, path, None, 0o644, data.len() as u64) {
        Ok(h) => h,
        Err(e) => return Err(Error::Io(e)),
    };
    let _ = tw.append(h.as_slice(), data);
    Ok(())
}

/// Write `.MTREE`: the gzip-compressed manifest.
fn write_arch_mtree(tw: &mut TarArchive, entries: &Vec<MtreeEntry>) -> (res: Result<(), Error>)
    ensures
        res is Ok ==> exists|m: Seq<u8>| meta_member(".MTREE"@, gzip_stream(encode_utf8(
            "#mtree\n"@ + flat_map(mtree_views(entries@), |v: MtreeView| mtree_line(v)),
        ), 6)) == Some(m) && tar_written(*final(tw)) == tar_written(*old(tw)) + m,
        meta_member(".MTREE"@, gzip_stream(encode_utf8(
            "#mtree\n"@ + flat_map(mtree_views(entries@), |v: MtreeView| mtree_line(v)),
        ), 6)) is None <==> res is Err,
        res matches Err(e) ==> e is Io,
{
    let ghost mv = mtree_views(entries@);
    let mut text = String::from_str("#mtree\n");
    let mut i: usize = 0;
    while i < entries.len()
        invariant
            i <= entries@.len(),
            mv == mtree_views(entries@),
            text@ == "#mtree\n"@ + flat_map(mv.subrange(0, i as int), |v: MtreeView| mtree_line(v)),
        decreases entries@.len() - i,
    {
        proof {
            lemma_flat_map_step(mv, |v: MtreeView| mtree_line(v), i as int);
            assert(mv[i as int] == entries@[i as int]@);
        }
        entries[i].write_to(&mut text);
        i += 1;
    }
    assert(mv.subrange(0, mv.len() as int) == mv);
    let gz = match gzip_compress(text.as_str().as_bytes(), 6) {
        Ok(g) => g,
        Err(e) => return Err(Error::Io(e)),
    };
    write_meta(tw, ".MTREE", gz.as_slice())
}

impl Package {
    /// Write the package files; return their `.MTREE` lines and total size.
    fn write_arch_files(&self, tw: &mut TarArchive) -> (res: Result<(Vec<MtreeEntry>, u64), Error>)
        requires
            crate::distro::deb::files_size(entries_view(self.entries@)) <= u64::MAX,
        ensures
            pacman_files(entries_view(self.entries@)) is None <==> res is Err,
            res matches Err(e) ==> e is Io,
            res matches Ok((ms, total)) ==> (pacman_files(entries_view(self.entries@)) matches Some((m, t))
                && tar_written(*final(tw)) == tar_written(*old(tw)) + m && total == t
                && mtree_views(ms@) == entries_view(self.entries@).map_values(|e: EntryView| entry_mtree(e))),
    {
        let ghost ev = entries_view(self.entries@);
        let ghost start = tar_written(*tw);
        let mut mtree: Vec<MtreeEntry> = Vec::new();
        let mut total_size: u64 = 0;
        let mut i: usize = 0;
        proof {
            assert(ev.subrange(0, 0) == Seq::<EntryView>::empty());
            assert(start + Seq::<u8>::empty() == start);
        }
        while i < self.entries.len()
            invariant
                i <= self.entries@.len(),
                ev == entries_view(self.entries@),
                crate::distro::deb::files_size(ev) <= u64::MAX,
                start == tar_written(*old(tw)),
                pacman_files(ev.subrange(0, i as int)) matches Some((m, t)) && tar_written(*tw) == start + m
                    && total_size == t,
                mtree_views(mtree@) == ev.subrange(0, i as int).map_values(|e: EntryView| entry_mtree(e)),
            decreases self.entries@.len() - i,
        {
            let entry = &self.entries[i];
            let ghost prefix = ev.subrange(0, i + 1);
            proof {
                assert(ev[i as int] == entry@);
                assert(prefix.drop_last() == ev.subrange(0, i as int));
                assert(prefix.last() == entry@);
            }
            let mut dest = String::new();
            push_without_slash(&mut dest, entry.dest.as_str());
            let (kind, link, mode, data) = match &entry.kind {
                EntryKind::Directory => (TarKind::Directory, None, entry.mode, Vec::new()),
                EntryKind::Symlink { target } => (TarKind::Symlink, Some(target), 0o777u32, Vec::new()),
                EntryKind::File { source, .. } => (TarKind::Regular, None, entry.mode, source.read_all()),
            };
            let h = match pacman_header_block(kind, dest.as_str(), link, mode, data.len() as u64) {
                Ok(h) => h,
                Err(e) => {
                    proof {
                        lemma_pacman_files_prefix_none(ev, i + 1);
                    }
                    return Err(Error::Io(e));
                },
            };
            let _ = tw.append(h.as_slice(), data.as_slice());
            let m = match &entry.kind {
                EntryKind::Directory => MtreeEntry {
                    path: dest,
                    kind: MtreeKind::Dir,
                    mode: entry.mode as u64,
                    time: 0,
                    size: 0,
                    md5: Vec::new(),
                    sha256: Vec::new(),
                    link_target: None,
                },
                EntryKind::Symlink { target } => MtreeEntry {
                    path: dest,
                    kind: MtreeKind::Link,
                    mode: 0o777,
                    time: 0,
                    size: 0,
                    md5: Vec::new(),
                    sha256: Vec::new(),
                    link_target: Some(target.clone()),
                },
                EntryKind::File { is_config, .. } => MtreeEntry {
                    path: dest,
                    kind: if *is_config { MtreeKind::ConfigFile } else { MtreeKind::File },
                    mode: entry.mode as u64,
                    time: 0,
                    size: data.len() as u64,
                    md5: md5_compute(data.as_slice()),
                    sha256: sha256_compute(data.as_slice()),
                    link_target: None,
                },
            };
            proof {
                assert(m@ == entry_mtree(entry@));
                assert(prefix.map_values(|e: EntryView| entry_mtree(e)) =~= ev.subrange(0, i as int).map_values(
                    |e: EntryView| entry_mtree(e),
                ).push(entry_mtree(entry@)));
                lemma_pacman_total(prefix);
                crate::distro::deb::lemma_files_size_prefix(ev, i + 1);
            }
            mtree.push(m);
            total_size = total_size + data.len() as u64;
            i += 1;
        }
        proof {
            assert(ev.subrange(0, ev.len() as int) == ev);
        }
        Ok((mtree, total_size))
    }

    /// Write `.INSTALL` when some script is set.
    fn write_arch_install(&self, tw: &mut TarArchive) -> (res: Result<(), Error>)
        ensures
            install_text(*self) is None ==> res is Err,
            res matches Err(e) ==> e is Io,
            res is Ok ==> (install_text(*self) matches Some(it) && if it.len() == 0 {
                tar_written(*final(tw)) == tar_written(*old(tw))
            } else {
                meta_member(".INSTALL"@, encode_utf8(it)) matches Some(sm) && tar_written(*final(tw))
                    == tar_written(*old(tw)) + sm
            }),
            res is Err ==> (install_text(*self) matches Some(it) ==> it.len() > 0 && meta_member(
                ".INSTALL"@,
                encode_utf8(it),
            ) is None),
    {
        let ghost ss = install_scripts(*self);
        let names: [&str; 6] = ["pre_install", "post_install", "pre_remove", "post_remove", "pre_upgrade", "post_upgrade"];
        let scripts: [&Option<Content>; 6] = [
            &self.scripts.pre_install,
            &self.scripts.post_install,
            &self.scripts.pre_remove,
            &self.scripts.post_remove,
            &self.arch_linux.scripts.pre_upgrade,
            &self.arch_linux.scripts.post_upgrade,
        ];
        proof {
            assert(ss.subrange(0, 0) == Seq::<(Seq<char>, Option<Content>)>::empty());
        }
        let mut install_buf = String::new();
        let mut i: usize = 0;
        while i < 6
            invariant
                i <= 6,
                ss == install_scripts(*self),
                ss.len() == 6,
                forall|k: int| 0 <= k < 6 ==> #[trigger] ss[k] == (names@[k]@, *scripts@[k]),
                install_text_of(ss.subrange(0, i as int)) == Some(install_buf@),
            decreases 6 - i,
        {
            proof {
                assert(ss.subrange(0, i + 1).drop_last() == ss.subrange(0, i as int));
                assert(ss.subrange(0, i + 1).last() == ss[i as int]);
            }
            if let Some(c) = scripts[i] {
                let script_text = match c.read_string() {
                    Ok(t) => t,
                    Err(e) => {
                        proof {
                            lemma_install_prefix_none(ss, i + 1);
                        }
                        return Err(Error::Io(e));
                    },
                };
                install_buf.append("function ");
                install_buf.append(names[i]);
                install_buf.append("() {\n");
                install_buf.append(script_text.as_str());
                install_buf.append("\n}\n\n");
            }
            i += 1;
        }
        proof {
            assert(ss.subrange(0, 6) == ss);
        }
        if install_buf.as_str().unicode_len() == 0 {
            return Ok(());
        }
        write_meta(tw, ".INSTALL", install_buf.as_str().as_bytes())
    }

    /// Write an Arch Linux `.pkg.tar.zst` package: append its bytes to `w`.
    ///
    /// The format is a zstd-compressed tar containing:
    /// - Package files
    /// - `.PKGINFO`: key-value metadata
    /// - `.MTREE`: gzip-compressed manifest with md5+sha256 hashes
    /// - `.INSTALL` (optional): scripts wrapped in shell functions
    ///
    /// A package name that Arch Linux does not accept is refused.
    #[verifier::rlimit(60)]
    pub fn write_arch(&self, w: &mut Vec<u8>) -> (res: Result<(), Error>)
        requires
            crate::distro::deb::files_size(entries_view(self.entries@)) <= u64::MAX,
        ensures
            !valid_arch_name(self.name@) ==> (res matches Err(Error::InvalidName(n)) && n@ == self.name@),
            valid_arch_name(self.name@) ==> (arch_package(*self) is None <==> res is Err),
            res matches Err(e) ==> (e is InvalidName <==> !valid_arch_name(self.name@)),
            res is Ok ==> (arch_package(*self) matches Some(b) && final(w)@ == old(w)@ + b),
            res is Ok ==> zstd_magic().is_prefix_of(final(w)@.subrange(old(w)@.len() as int, final(w)@.len() as int)),
            res is Err ==> final(w)@ == old(w)@,
    {
        if !is_valid_arch_name(self.name.as_str()) {
            return Err(Error::InvalidName(self.name.clone()));
        }
        let ghost es = entries_view(self.entries@);
        let mut tw = TarArchive::new();
        let (mut mtree_entries, total_size) = match self.write_arch_files(&mut tw) {
            Ok(r) => r,
            Err(e) => return Err(e),
        };
        let pkginfo = self.render_pkginfo(total_size);
        let info = pkginfo.as_str().as_bytes();
        let pkginfo_entry = MtreeEntry {
            path: String::from_str(".PKGINFO"),
            kind: MtreeKind::File,
            mode: 0o644,
            time: 0,
            size: info.len() as u64,
            md5: md5_compute(info),
            sha256: sha256_compute(info),
            link_target: None,
        };
        match write_meta(&mut tw, ".PKGINFO", info) {
            Ok(()) => {},
            Err(e) => return Err(e),
        }
        let ghost file_lines = mtree_views(mtree_entries@);
        mtree_entries.insert(0, pkginfo_entry);
        proof {
            let one = seq![meta_mtree(".PKGINFO"@, info@)];
            assert(mtree_views(mtree_entries@) =~= one + file_lines);
            lemma_flat_map_prepend(one, file_lines);
            lemma_flat_map_map(es);
            lemma_flat_map_single(meta_mtree(".PKGINFO"@, info@), |v: MtreeView| mtree_line(v));
            assert(pacman_files(es) matches Some((m, t)) && total_size == t);
            assert(info@ == encode_utf8(pkginfo_text(*self, total_size)));
            assert("#mtree\n"@ + flat_map(mtree_views(mtree_entries@), |v: MtreeView| mtree_line(v))
                == mtree_text(info@, es));
        }
        match write_arch_mtree(&mut tw, &mtree_entries) {
            Ok(()) => {},
            Err(e) => return Err(e),
        }
        match self.write_arch_install(&mut tw) {
            Ok(()) => {},
            Err(e) => return Err(e),
        }
        let tar = match tw.into_bytes() {
            Ok(t) => t,
            Err(e) => return Err(Error::Io(e)),
        };
        let z = match zstd_compress(tar.as_slice(), 19) {
            Ok(z) => z,
            Err(e) => return Err(Error::Io(e)),
        };
        append_bytes(w, z.as_slice());
        assert(w@.subrange(old(w)@.len() as int, w@.len() as int) == z@);
        Ok(())
    }
}

/// Concatenations add up.
proof fn lemma_flat_map_prepend(a: Seq<MtreeView>, b: Seq<MtreeView>)
    ensures
        flat_map(a + b, |v: MtreeView| mtree_line(v)) == flat_map(a, |v: MtreeView| mtree_line(v)) + flat_map(
            b,
            |v: MtreeView| mtree_line(v),
        ),
    decreases b.len(),
{
    if b.len() > 0 {
        assert((a + b).drop_last() == a + b.drop_last());
        lemma_flat_map_prepend(a, b.drop_last());
    } else {
        assert(a + b == a);
    }
}

/// The mtree lines of the entries' lines are the entries' mtree lines.
proof fn lemma_flat_map_map(es: Seq<EntryView>)
    ensures
        flat_map(es.map_values(|e: EntryView| entry_mtree(e)), |v: MtreeView| mtree_line(v)) == flat_map(
            es,
            |e: EntryView| mtree_line(entry_mtree(e)),
        ),
    decreases es.len(),
{
    if es.len() > 0 {
        assert(es.map_values(|e: EntryView| entry_mtree(e)).drop_last() == es.drop_last().map_values(
            |e: EntryView| entry_mtree(e),
        ));
        lemma_flat_map_map(es.drop_last());
    }
}

/// The pacman version carries the release: `[epoch:]version-r` where `r`
/// is the release read as a number, and 1 when the release is not a
/// number. `.PKGINFO` holds it on its `pkgver` line.
pub proof fn lemma_pkgver_release(p: Package, total_size: u64)
    ensures
        parse_u32(p.release@) matches Some(r) ==> pkgver(p) == (match p.epoch {
            Some(e) => dec(e as nat) + ":"@,
            None => Seq::empty(),
        }) + p.version@ + "-"@ + dec(r as nat),
        parse_u32(p.release@) is None ==> pkgver(p) == (match p.epoch {
            Some(e) => dec(e as nat) + ":"@,
            None => Seq::empty(),
        }) + p.version@ + "-"@ + dec(1),
        contains_text(pkginfo_text(p, total_size), "pkgver"@ + " = "@ + pkgver(p) + "\n"@),
{
    broadcast use lemma_contains_prefix, lemma_contains_suffix, lemma_contains_extend;
    assert(pkgver(p).len() > 0);
    assert(contains_text(pkginfo_text(p, total_size), "pkgver"@ + " = "@ + pkgver(p) + "\n"@));
}

/// The function of a script is in the text (the script being UTF-8).
pub open spec fn function_in(t: Seq<char>, name: Seq<char>, script: Option<Content>) -> bool {
    match install_function(name, script) {
        Some(f) => contains_text(t, f),
        None => false,
    }
}

/// Each script that `.INSTALL` is built from appears in it as a function,
/// and `.INSTALL` is built only when every set script is UTF-8.
proof fn lemma_install_text_of_holds(ss: Seq<(Seq<char>, Option<Content>)>)
    ensures
        install_text_of(ss) matches Some(t) ==> forall|i: int| 0 <= i < ss.len() ==> #[trigger] function_in(t, ss[i].0, ss[i].1),
    decreases ss.len(),
{
    broadcast use lemma_contains_suffix, lemma_contains_extend;
    if ss.len() > 0 {
        lemma_install_text_of_holds(ss.drop_last());
        if install_text_of(ss) is Some {
            let t = install_text_of(ss).unwrap();
            let t0 = install_text_of(ss.drop_last()).unwrap();
            let fl = install_function(ss.last().0, ss.last().1).unwrap();
            assert(t == t0 + fl);
            assert forall|i: int| 0 <= i < ss.len() implies #[trigger] function_in(t, ss[i].0, ss[i].1) by {
                if i < ss.len() - 1 {
                    assert(ss.drop_last()[i] == ss[i]);
                    assert(function_in(t0, ss.drop_last()[i].0, ss.drop_last()[i].1));
                    let f = install_function(ss[i].0, ss[i].1).unwrap();
                    assert(contains_text(t0, f));
                    assert(contains_text(t0 + fl, f));
                } else {
                    assert(contains_text(t0 + fl, fl));
                }
            }
        }
    }
}

/// `.INSTALL` holds each set script inside the shell function named after
/// its field: `pre_install`, `post_install`, `pre_remove`, `post_remove`
/// for the shared scripts, `pre_upgrade` and `post_upgrade` for the Arch
/// ones.
pub proof fn lemma_install_functions(p: Package)
    ensures
        install_text(p) matches Some(t) ==> {
            &&& p.scripts.pre_install matches Some(c) ==> contains_text(t, "function "@ + "pre_install"@ + "() {\n"@ + decode_utf8(c@) + "\n}\n\n"@)
            &&& p.scripts.post_install matches Some(c) ==> contains_text(t, "function "@ + "post_install"@ + "() {\n"@ + decode_utf8(c@) + "\n}\n\n"@)
            &&& p.scripts.pre_remove matches Some(c) ==> contains_text(t, "function "@ + "pre_remove"@ + "() {\n"@ + decode_utf8(c@) + "\n}\n\n"@)
            &&& p.scripts.post_remove matches Some(c) ==> contains_text(t, "function "@ + "post_remove"@ + "() {\n"@ + decode_utf8(c@) + "\n}\n\n"@)
            &&& p.arch_linux.scripts.pre_upgrade matches Some(c) ==> contains_text(t, "function "@ + "pre_upgrade"@ + "() {\n"@ + decode_utf8(c@) + "\n}\n\n"@)
            &&& p.arch_linux.scripts.post_upgrade matches Some(c) ==> contains_text(t, "function "@ + "post_upgrade"@ + "() {\n"@ + decode_utf8(c@) + "\n}\n\n"@)
        },
{
    let ss = install_scripts(p);
    lemma_install_text_of_holds(ss);
    if install_text(p) is Some {
        assert(function_in(install_text(p).unwrap(), ss[0].0, ss[0].1));
        assert(function_in(install_text(p).unwrap(), ss[1].0, ss[1].1));
        assert(function_in(install_text(p).unwrap(), ss[2].0, ss[2].1));
        assert(function_in(install_text(p).unwrap(), ss[3].0, ss[3].1));
        assert(function_in(install_text(p).unwrap(), ss[4].0, ss[4].1));
        assert(function_in(install_text(p).unwrap(), ss[5].0, ss[5].1));
    }
}

/// `.PKGINFO` has a line `key = value` for each relationship: one
/// `replaces` line per `replaces` entry, one `conflict` line per
/// `conflicts` entry, one `provides` line per `provides` entry and one
/// `depend` line per `depends` entry (an empty entry gives no line), and
/// lines naming the package and its license.
pub proof fn lemma_pkginfo_lines(p: Package, total_size: u64)
    ensures
        p.name@.len() > 0 ==> contains_text(pkginfo_text(p, total_size), "pkgname"@ + " = "@ + p.name@ + "\n"@),
        p.license matches Some(l) ==> (l@.len() > 0 ==> contains_text(pkginfo_text(p, total_size), "license"@ + " = "@ + l@ + "\n"@)),
        forall|i: int| 0 <= i < p.replaces@.len() && (#[trigger] p.replaces@[i])@.len() > 0 ==> contains_text(
            pkginfo_text(p, total_size),
            "replaces"@ + " = "@ + p.replaces@[i]@ + "\n"@,
        ),
        forall|i: int| 0 <= i < p.conflicts@.len() && (#[trigger] p.conflicts@[i])@.len() > 0 ==> contains_text(
            pkginfo_text(p, total_size),
            "conflict"@ + " = "@ + p.conflicts@[i]@ + "\n"@,
        ),
        forall|i: int| 0 <= i < p.provides@.len() && (#[trigger] p.provides@[i])@.len() > 0 ==> contains_text(
            pkginfo_text(p, total_size),
            "provides"@ + " = "@ + p.provides@[i]@ + "\n"@,
        ),
        forall|i: int| 0 <= i < p.depends@.len() && (#[trigger] p.depends@[i])@.len() > 0 ==> contains_text(
            pkginfo_text(p, total_size),
            "depend"@ + " = "@ + p.depends@[i]@ + "\n"@,
        ),
{
    broadcast use lemma_contains_prefix, lemma_contains_suffix, lemma_contains_extend, lemma_contains_prepend;
    let t = pkginfo_text(p, total_size);
    assert(p.name@.len() > 0 ==> contains_text(t, "pkgname"@ + " = "@ + p.name@ + "\n"@));
    assert(p.license matches Some(l) ==> (l@.len() > 0 ==> contains_text(t, "license"@ + " = "@ + l@ + "\n"@)));
    assert forall|i: int| 0 <= i < p.replaces@.len() && (#[trigger] p.replaces@[i])@.len() > 0 implies contains_text(
        t,
        "replaces"@ + " = "@ + p.replaces@[i]@ + "\n"@,
    ) by {
        assert(strs(p.replaces@)[i] == p.replaces@[i]@);
        lemma_flat_map_contains(strs(p.replaces@), |v: Seq<char>| kv("replaces"@, v), i);
    }
    assert forall|i: int| 0 <= i < p.conflicts@.len() && (#[trigger] p.conflicts@[i])@.len() > 0 implies contains_text(
        t,
        "conflict"@ + " = "@ + p.conflicts@[i]@ + "\n"@,
    ) by {
        assert(strs(p.conflicts@)[i] == p.conflicts@[i]@);
        lemma_flat_map_contains(strs(p.conflicts@), |v: Seq<char>| kv("conflict"@, v), i);
    }
    assert forall|i: int| 0 <= i < p.provides@.len() && (#[trigger] p.provides@[i])@.len() > 0 implies contains_text(
        t,
        "provides"@ + " = "@ + p.provides@[i]@ + "\n"@,
    ) by {
        assert(strs(p.provides@)[i] == p.provides@[i]@);
        lemma_flat_map_contains(strs(p.provides@), |v: Seq<char>| kv("provides"@, v), i);
    }
    assert forall|i: int| 0 <= i < p.depends@.len() && (#[trigger] p.depends@[i])@.len() > 0 implies contains_text(
        t,
        "depend"@ + " = "@ + p.depends@[i]@ + "\n"@,
    ) by {
        assert(strs(p.depends@)[i] == p.depends@[i]@);
        lemma_flat_map_contains(strs(p.depends@), |v: Seq<char>| kv("depend"@, v), i);
    }
}

} // verus!
