//! DEB package writer.
//!
//! A `.deb` is an AR archive containing:
//! 1. `debian-binary`: format version (`"2.0\n"`)
//! 2. `control.tar.gz`: metadata, md5sums, conffiles, triggers, scripts
//! 3. `data.tar.{gz,xz,zst}`: the actual package files
use vstd::prelude::*;
use vstd::string::*;

use vstd::utf8::encode_utf8;

use crate::arch::deb_arch_name;
use crate::archive::{
    ArArchive, TarArchive, TarKind, ar_magic, ar_member, ar_written, gnu_header_block,
    tar_cksum_set, tar_gid_set, tar_groupname_set, tar_header_new_gnu, tar_kind_set,
    tar_link_set, tar_mode_set, tar_padding, tar_path_set, tar_set_cksum, tar_set_entry_type,
    tar_set_gid, tar_set_groupname, tar_set_link_name, tar_set_mode, tar_set_path, tar_set_size,
    tar_set_uid, tar_set_username, tar_size_set, tar_uid_set, tar_username_set, tar_written,
    zeros,
};
use crate::codec::{
    gzip_compress, gzip_stream, md5_compute, md5_digest, xz_compress, xz_stream, zstd_compress,
    zstd_stream,
};
use crate::content::Content;
use crate::stdio::append_bytes;
use crate::fields::FieldMap;
use crate::text::{
    chars_of, dec, hex, push_hex, flat_map, join, lemma_flat_map_step, line_bounds, lines, push_dec,
    push_without_slash, starts_with_slash, strip_slash, strs, trim, trim_bounds,
};
use crate::{
    DebCompression, DebTriggers, Entry, EntryKind, EntryKindView, EntryView, Error, Package,
    entries_view,
};

verus! {

/// A control-file field: `key: value` and a line break.
pub open spec fn field(key: Seq<char>, value: Seq<char>) -> Seq<char> {
    key + ": "@ + value + "\n"@
}

/// A field whose value is the list of `items` separated by `", "`;
/// nothing when the list is empty.
pub open spec fn list_field(key: Seq<char>, items: Seq<Seq<char>>) -> Seq<char> {
    if items.len() == 0 {
        Seq::empty()
    } else {
        field(key, join(items, ", "@))
    }
}

/// A field that is written only when its value is present.
pub open spec fn opt_field(key: Seq<char>, value: Option<String>) -> Seq<char> {
    match value {
        Some(v) => field(key, v@),
        None => Seq::empty(),
    }
}

/// The deb version string: `[epoch:]version[-release]`; the release and
/// its hyphen are left out when the release is empty.
pub open spec fn deb_version(p: Package) -> Seq<char> {
    (match p.epoch {
        Some(e) => dec(e as nat) + ":"@,
        None => Seq::empty(),
    }) + p.version@ + (if p.release@.len() == 0 {
        Seq::empty()
    } else {
        "-"@ + p.release@
    })
}

/// A continuation line of the description: the trimmed line, or `.` for a
/// blank one.
pub open spec fn description_line(line: Seq<char>) -> Seq<char> {
    if trim(line).len() == 0 {
        "."@
    } else {
        trim(line)
    }
}

/// The continuation lines, each after a line break and a space.
pub open spec fn continuation(line: Seq<char>) -> Seq<char> {
    "\n "@ + description_line(line)
}

/// The description as a control-file value: the trimmed first line (the
/// synopsis), then the other lines as continuation lines.
pub open spec fn deb_description(desc: Seq<char>) -> Seq<char> {
    let ls = lines(desc);
    if ls.len() == 0 {
        Seq::empty()
    } else {
        trim(ls[0]) + flat_map(ls.drop_first(), |l: Seq<char>| continuation(l))
    }
}

/// A custom field, written only when its value is not empty.
pub open spec fn custom_field(f: (Seq<char>, Seq<char>)) -> Seq<char> {
    if f.1.len() == 0 {
        Seq::empty()
    } else {
        field(f.0, f.1)
    }
}

/// The text of the `control` file.
pub open spec fn control_text(p: Package, inst_size: u64) -> Seq<char> {
    field("Package"@, p.name@)
        + field("Version"@, deb_version(p))
        + opt_field("Section"@, p.deb.section)
        + field("Priority"@, p.deb.priority@)
        + field("Architecture"@, deb_arch_name(p.arch))
        + opt_field("Maintainer"@, p.maintainer)
        + "Installed-Size: "@ + dec((inst_size / 1024) as nat) + "\n"@
        + list_field("Replaces"@, strs(p.replaces@))
        + list_field("Provides"@, strs(p.provides@))
        + list_field("Pre-Depends"@, strs(p.deb.predepends@))
        + list_field("Depends"@, strs(p.depends@))
        + list_field("Recommends"@, strs(p.recommends@))
        + list_field("Suggests"@, strs(p.suggests@))
        + list_field("Conflicts"@, strs(p.conflicts@))
        + list_field("Breaks"@, strs(p.deb.breaks@))
        + opt_field("Homepage"@, p.homepage)
        + field("Description"@, deb_description(p.description@))
        + flat_map(p.deb.fields@, |f: (Seq<char>, Seq<char>)| custom_field(f))
}

/// The `conffiles` line of an entry: its absolute path for a config file,
/// nothing otherwise.
pub open spec fn conffile_line(e: EntryView) -> Seq<char> {
    match e.kind {
        EntryKindView::File { is_config, .. } => if is_config {
            (if e.dest.len() > 0 && e.dest[0] == '/' {
                e.dest
            } else {
                "/"@ + e.dest
            }) + "\n"@
        } else {
            Seq::empty()
        },
        _ => Seq::empty(),
    }
}

/// The text of the `conffiles` file.
pub open spec fn conffiles_text(entries: Seq<EntryView>) -> Seq<char> {
    flat_map(entries, |e: EntryView| conffile_line(e))
}

/// The entry is a configuration file.
pub open spec fn is_config_file(e: EntryView) -> bool {
    e.kind matches EntryKindView::File { is_config, .. } && is_config
}

/// A path made absolute: itself when it starts with `/`, else `/` and the
/// path.
pub open spec fn absolute_path(dest: Seq<char>) -> Seq<char> {
    if dest.len() > 0 && dest[0] == '/' {
        dest
    } else {
        "/"@ + dest
    }
}

/// Adding a configuration file (`add_config`) adds its absolute path as a
/// line of `conffiles`; adding any other entry (`add_file`, `add_dir`,
/// `add_symlink`) leaves `conffiles` as it was.
pub proof fn lemma_conffiles_after_add(before: Seq<EntryView>, e: EntryView)
    ensures
        is_config_file(e) ==> conffiles_text(before.push(e)) == conffiles_text(before) + absolute_path(e.dest) + "\n"@,
        !is_config_file(e) ==> conffiles_text(before.push(e)) == conffiles_text(before),
{
    assert(before.push(e).drop_last() == before);
    if !is_config_file(e) {
        assert(conffiles_text(before) + Seq::<char>::empty() == conffiles_text(before));
    }
}

/// The trigger lines of one directive: `directive name` for each name.
pub open spec fn trigger_lines(directive: Seq<char>, names: Seq<Seq<char>>) -> Seq<char> {
    flat_map(names, |n: Seq<char>| directive + " "@ + n + "\n"@)
}

/// The text of the `triggers` file.
pub open spec fn triggers_text(t: DebTriggers) -> Seq<char> {
    trigger_lines("interest"@, strs(t.interest@))
        + trigger_lines("interest-await"@, strs(t.interest_await@))
        + trigger_lines("interest-noawait"@, strs(t.interest_noawait@))
        + trigger_lines("activate"@, strs(t.activate@))
        + trigger_lines("activate-await"@, strs(t.activate_await@))
        + trigger_lines("activate-noawait"@, strs(t.activate_noawait@))
}

/// The path of an entry inside the deb data archive: `./` and the
/// destination without its leading `/`.
pub open spec fn deb_path(dest: Seq<char>) -> Seq<char> {
    "./"@ + strip_slash(dest)
}

/// Append a control-file field.
pub fn push_field(out: &mut String, key: &str, value: &str)
    ensures
        final(out)@ == old(out)@ + field(key@, value@),
{
    out.append(key);
    out.append(": ");
    out.append(value);
    out.append("\n");
}

/// `items` joined with `", "`.
fn join_comma(items: &Vec<String>) -> (res: String)
    ensures
        res@ == join(strs(items@), ", "@),
{
    let mut out = String::new();
    let mut i: usize = 0;
    while i < items.len()
        invariant
            i <= items@.len(),
            out@ == join(strs(items@.subrange(0, i as int)), ", "@),
        decreases items@.len() - i,
    {
        let ghost prev = items@.subrange(0, i as int);
        assert(strs(items@.subrange(0, i + 1)).drop_last() == strs(prev));
        if i > 0 {
            out.append(", ");
        }
        out.append(items[i].as_str());
        assert(strs(items@.subrange(0, i + 1)).last() == items@[i as int]@);
        assert(i == 0 ==> strs(items@.subrange(0, 1))[0] == items@[0]@);
        i += 1;
    }
    assert(items@.subrange(0, items@.len() as int) == items@);
    out
}

/// Append a list field, unless the list is empty.
pub fn push_list(out: &mut String, key: &str, items: &Vec<String>)
    ensures
        final(out)@ == old(out)@ + list_field(key@, strs(items@)),
{
    if items.len() > 0 {
        let joined = join_comma(items);
        push_field(out, key, joined.as_str());
    } else {
        assert(old(out)@ + list_field(key@, strs(items@)) == old(out)@);
    }
}

/// Append a field that is written only when present.
fn push_opt_field(out: &mut String, key: &str, value: &Option<String>)
    ensures
        final(out)@ == old(out)@ + opt_field(key@, *value),
{
    match value {
        Some(v) => push_field(out, key, v.as_str()),
        None => {
            assert(old(out)@ + opt_field(key@, *value) == old(out)@);
        },
    }
}

/// Format a description for the deb control file.
/// The first line is the synopsis; the other lines are prefixed with a
/// space, and blank ones become ` .`.
pub fn format_deb_description(desc: &str) -> (res: String)
    ensures
        res@ == deb_description(desc@),
{
    let cs = chars_of(desc);
    let ls = line_bounds(&cs);
    let ghost lv = ls@.map_values(|b: (usize, usize)| cs@.subrange(b.0 as int, b.1 as int));
    let mut out = String::new();
    if ls.len() == 0 {
        return out;
    }
    let (a0, b0) = ls[0];
    assert(lv[0] == cs@.subrange(a0 as int, b0 as int));
    let (t0, u0) = trim_bounds(&cs, a0, b0);
    out.append(desc.substring_char(t0, u0));
    let ghost rest = lv.drop_first();
    let mut i: usize = 1;
    while i < ls.len()
        invariant
            1 <= i <= ls@.len(),
            lv.len() == ls@.len(),
            rest == lv.drop_first(),
            cs@ == desc@,
            lv == ls@.map_values(|b: (usize, usize)| cs@.subrange(b.0 as int, b.1 as int)),
            forall|k: int| 0 <= k < ls@.len() ==> #[trigger] ls@[k].0 <= ls@[k].1 <= cs@.len(),
            out@ == trim(lv[0]) + flat_map(rest.subrange(0, i - 1), |l: Seq<char>| continuation(l)),
        decreases ls@.len() - i,
    {
        let (a, b) = ls[i];
        assert(lv[i as int] == cs@.subrange(a as int, b as int));
        let (t, u) = trim_bounds(&cs, a, b);
        out.append("\n ");
        if t == u {
            out.append(".");
        } else {
            out.append(desc.substring_char(t, u));
        }
        proof {
            lemma_flat_map_step(rest, |l: Seq<char>| continuation(l), i - 1);
            assert(rest[i - 1] == lv[i as int]);
        }
        i += 1;
    }
    assert(rest.subrange(0, rest.len() as int) == rest);
    out
}

/// Append the custom fields with a non-empty value.
fn push_custom_fields(out: &mut String, fields: &FieldMap)
    ensures
        final(out)@ == old(out)@ + flat_map(fields@, |f: (Seq<char>, Seq<char>)| custom_field(f)),
{
    let ghost start = out@;
    let mut i: usize = 0;
    while i < fields.len()
        invariant
            i <= fields@.len(),
            out@ == start + flat_map(fields@.subrange(0, i as int), |f: (Seq<char>, Seq<char>)| custom_field(f)),
        decreases fields@.len() - i,
    {
        let (key, value) = fields.get_index(i);
        proof {
            lemma_flat_map_step(fields@, |f: (Seq<char>, Seq<char>)| custom_field(f), i as int);
        }
        if value.as_str().unicode_len() > 0 {
            push_field(out, key.as_str(), value.as_str());
        }
        i += 1;
    }
    assert(fields@.subrange(0, fields@.len() as int) == fields@);
}

impl Package {
    /// Build the deb version string: `[epoch:]version[-release]`.
    pub fn deb_version_string(&self) -> (res: String)
        ensures
            res@ == deb_version(*self),
    {
        let mut v = String::new();
        if let Some(epoch) = self.epoch {
            push_dec(&mut v, epoch as u64);
            v.append(":");
        }
        v.append(self.version.as_str());
        if self.release.as_str().unicode_len() > 0 {
            v.append("-");
            v.append(self.release.as_str());
        }
        v
    }

    /// Render the `control` file text.
    pub fn render_deb_control(&self, inst_size: u64) -> (res: String)
        ensures
            res@ == control_text(*self, inst_size),
    {
        let mut c = String::new();
        push_field(&mut c, "Package", self.name.as_str());
        let version = self.deb_version_string();
        push_field(&mut c, "Version", version.as_str());
        push_opt_field(&mut c, "Section", &self.deb.section);
        push_field(&mut c, "Priority", self.deb.priority.as_str());
        push_field(&mut c, "Architecture", self.arch.to_deb());
        push_opt_field(&mut c, "Maintainer", &self.maintainer);
        c.append("Installed-Size: ");
        push_dec(&mut c, inst_size / 1024);
        c.append("\n");
        push_list(&mut c, "Replaces", &self.replaces);
        push_list(&mut c, "Provides", &self.provides);
        push_list(&mut c, "Pre-Depends", &self.deb.predepends);
        push_list(&mut c, "Depends", &self.depends);
        push_list(&mut c, "Recommends", &self.recommends);
        push_list(&mut c, "Suggests", &self.suggests);
        push_list(&mut c, "Conflicts", &self.conflicts);
        push_list(&mut c, "Breaks", &self.deb.breaks);
        push_opt_field(&mut c, "Homepage", &self.homepage);
        let desc = format_deb_description(self.description.as_str());
        push_field(&mut c, "Description", desc.as_str());
        push_custom_fields(&mut c, &self.deb.fields);
        c
    }

    /// Render the conffiles content: one absolute path per line for each
    /// config entry.
    pub fn render_deb_conffiles(&self) -> (res: String)
        ensures
            res@ == conffiles_text(entries_view(self.entries@)),
    {
        let ghost ev = entries_view(self.entries@);
        let mut out = String::new();
        let mut i: usize = 0;
        while i < self.entries.len()
            invariant
                i <= self.entries@.len(),
                ev == entries_view(self.entries@),
                out@ == flat_map(ev.subrange(0, i as int), |e: EntryView| conffile_line(e)),
            decreases self.entries@.len() - i,
        {
            let entry = &self.entries[i];
            proof {
                lemma_flat_map_step(ev, |e: EntryView| conffile_line(e), i as int);
                assert(ev[i as int] == entry@);
            }
            if let EntryKind::File { is_config: true, .. } = &entry.kind {
                if !starts_with_slash(entry.dest.as_str()) {
                    out.append("/");
                }
                out.append(entry.dest.as_str());
                out.append("\n");
            }
            i += 1;
        }
        assert(ev.subrange(0, ev.len() as int) == ev);
        out
    }
}

/// Append the trigger lines of one directive.
fn push_trigger_lines(out: &mut String, directive: &str, names: &Vec<String>)
    ensures
        final(out)@ == old(out)@ + trigger_lines(directive@, strs(names@)),
{
    let ghost start = out@;
    let ghost nv = strs(names@);
    let mut i: usize = 0;
    while i < names.len()
        invariant
            i <= names@.len(),
            nv == strs(names@),
            out@ == start + trigger_lines(directive@, nv.subrange(0, i as int)),
        decreases names@.len() - i,
    {
        proof {
            lemma_flat_map_step(nv, |n: Seq<char>| directive@ + " "@ + n + "\n"@, i as int);
        }
        out.append(directive);
        out.append(" ");
        out.append(names[i].as_str());
        out.append("\n");
        i += 1;
    }
    assert(nv.subrange(0, nv.len() as int) == nv);
}

/// Render the `triggers` file text.
pub fn render_deb_triggers(triggers: &DebTriggers) -> (res: String)
    ensures
        res@ == triggers_text(*triggers),
{
    let mut out = String::new();
    push_trigger_lines(&mut out, "interest", &triggers.interest);
    push_trigger_lines(&mut out, "interest-await", &triggers.interest_await);
    push_trigger_lines(&mut out, "interest-noawait", &triggers.interest_noawait);
    push_trigger_lines(&mut out, "activate", &triggers.activate);
    push_trigger_lines(&mut out, "activate-await", &triggers.activate_await);
    push_trigger_lines(&mut out, "activate-noawait", &triggers.activate_noawait);
    out
}

/// The path of an entry inside the deb data archive.
pub fn normalize_deb_path(dest: &str) -> (res: String)
    ensures
        res@ == deb_path(dest@),
{
    let mut out = String::from_str("./");
    push_without_slash(&mut out, dest);
    out
}

// --- data.tar ---

/// The bytes an entry holds: a file's data, nothing for the others.
pub open spec fn payload(e: EntryView) -> Seq<u8> {
    match e.kind {
        EntryKindView::File { data, .. } => data,
        _ => Seq::empty(),
    }
}

/// The tar type of an entry.
pub open spec fn tar_kind(e: EntryView) -> TarKind {
    match e.kind {
        EntryKindView::File { .. } => TarKind::Regular,
        EntryKindView::Directory => TarKind::Directory,
        EntryKindView::Symlink { .. } => TarKind::Symlink,
    }
}

/// The header block of an entry in `data.tar`: a GNU header with the type,
/// the path under `./`, the link target of a symlink, mode, size, owner
/// and group names (a name that does not fit is left out), uid and gid 0,
/// and the checksum. `None` where the path or link target is refused.
pub open spec fn deb_entry_header(e: EntryView) -> Option<Seq<u8>> {
    let h1 = tar_kind_set(gnu_header_block(), tar_kind(e));
    let (path_ok, h2) = tar_path_set(h1, deb_path(e.dest));
    let (link_ok, h3) = match e.kind {
        EntryKindView::Symlink { target } => tar_link_set(h2, target),
        _ => (true, h2),
    };
    if !path_ok || !link_ok {
        None
    } else {
        let h4 = tar_size_set(tar_mode_set(h3, e.mode), payload(e).len() as u64);
        let h5 = tar_groupname_set(tar_username_set(h4, e.owner).1, e.group).1;
        Some(tar_cksum_set(tar_gid_set(tar_uid_set(h5, 0), 0)))
    }
}

/// The `md5sums` line of an entry: for a file, the hex MD5 of its data, two
/// spaces and its path without the leading `/`.
pub open spec fn md5sum_line(e: EntryView) -> Seq<char> {
    match e.kind {
        EntryKindView::File { data, .. } => hex(md5_digest(data)) + "  "@ + strip_slash(e.dest) + "\n"@,
        _ => Seq::empty(),
    }
}

/// What building `data.tar` gives: the archive members written so far,
/// the `md5sums` text and the installed size in bytes.
pub struct DebData {
    pub members: Seq<u8>,
    pub md5sums: Seq<char>,
    pub inst_size: nat,
}

/// The data archive of a list of entries; `None` where some header is
/// refused.
pub open spec fn deb_data(es: Seq<EntryView>) -> Option<DebData>
    decreases es.len(),
{
    if es.len() == 0 {
        Some(DebData { members: Seq::empty(), md5sums: Seq::empty(), inst_size: 0 })
    } else {
        match (deb_data(es.drop_last()), deb_entry_header(es.last())) {
            (Some(d), Some(h)) => Some(
                DebData {
                    members: d.members + h + payload(es.last()) + tar_padding(payload(es.last()).len()),
                    md5sums: d.md5sums + md5sum_line(es.last()),
                    inst_size: d.inst_size + payload(es.last()).len(),
                },
            ),
            _ => None,
        }
    }
}

/// The total size of the files among the entries.
pub open spec fn files_size(es: Seq<EntryView>) -> nat
    decreases es.len(),
{
    if es.len() == 0 {
        0
    } else {
        files_size(es.drop_last()) + payload(es.last()).len()
    }
}

/// The installed size that `control` reports (in KiB) is computed from the
/// total size of the package's files.
pub proof fn lemma_deb_installed_size(es: Seq<EntryView>)
    ensures
        deb_data(es) matches Some(d) ==> d.inst_size == files_size(es),
    decreases es.len(),
{
    if es.len() > 0 {
        lemma_deb_installed_size(es.drop_last());
    }
}

/// The member name and compressed bytes of `data.tar.*`.
pub open spec fn compressed_data(tar: Seq<u8>, c: DebCompression) -> (Seq<char>, Seq<u8>) {
    match c {
        DebCompression::Gzip => ("data.tar.gz"@, gzip_stream(tar, 9)),
        DebCompression::Xz => ("data.tar.xz"@, xz_stream(tar, 6)),
        DebCompression::Zstd => ("data.tar.zst"@, zstd_stream(tar, 19)),
        DebCompression::Uncompressed => ("data.tar"@, tar),
    }
}

// --- control.tar.gz ---

/// The header block of a file in `control.tar.gz`: a GNU header of a
/// regular file with the path, mode, size, uid and gid 0, owner and group
/// `root`, and the checksum. `None` where the path is refused.
pub open spec fn control_header(path: Seq<char>, len: nat, mode: u32) -> Option<Seq<u8>> {
    let (ok, h) = tar_path_set(tar_kind_set(gnu_header_block(), TarKind::Regular), path);
    if !ok {
        None
    } else {
        let h2 = tar_gid_set(tar_uid_set(tar_size_set(tar_mode_set(h, mode), len as u64), 0), 0);
        Some(tar_cksum_set(tar_groupname_set(tar_username_set(h2, "root"@).1, "root"@).1))
    }
}

/// A file of the control archive: path, bytes and mode.
pub struct ControlFile {
    pub path: Seq<char>,
    pub data: Seq<u8>,
    pub mode: u32,
}

/// A script file, when the script is set.
pub open spec fn script_file(path: Seq<char>, script: Option<Content>, mode: u32) -> Seq<ControlFile> {
    match script {
        Some(c) => seq![ControlFile { path, data: c@, mode }],
        None => Seq::empty(),
    }
}

/// A text file, unless the text is empty.
pub open spec fn text_file(path: Seq<char>, text: Seq<char>) -> Seq<ControlFile> {
    if text.len() == 0 {
        Seq::empty()
    } else {
        seq![ControlFile { path, data: encode_utf8(text), mode: 0o644 }]
    }
}

/// The files of `control.tar.gz`, in order.
pub open spec fn control_files(p: Package, md5sums: Seq<char>, inst_size: u64) -> Seq<ControlFile> {
    seq![
        ControlFile { path: "./control"@, data: encode_utf8(control_text(p, inst_size)), mode: 0o644 },
        ControlFile { path: "./md5sums"@, data: encode_utf8(md5sums), mode: 0o644 },
    ]
        + text_file("./conffiles"@, conffiles_text(entries_view(p.entries@)))
        + text_file("./triggers"@, triggers_text(p.deb.triggers))
        + script_file("./preinst"@, p.scripts.pre_install, 0o755)
        + script_file("./postinst"@, p.scripts.post_install, 0o755)
        + script_file("./prerm"@, p.scripts.pre_remove, 0o755)
        + script_file("./postrm"@, p.scripts.post_remove, 0o755)
        + script_file("./rules"@, p.deb.scripts.rules, 0o755)
        + script_file("./templates"@, p.deb.scripts.templates, 0o644)
        + script_file("./config"@, p.deb.scripts.config, 0o755)
}

/// The members of a tar archive holding the given files; `None` where
/// some header is refused.
pub open spec fn control_members(fs: Seq<ControlFile>) -> Option<Seq<u8>>
    decreases fs.len(),
{
    if fs.len() == 0 {
        Some(Seq::empty())
    } else {
        match (control_members(fs.drop_last()), control_header(fs.last().path, fs.last().data.len(), fs.last().mode)) {
            (Some(m), Some(h)) => Some(m + h + fs.last().data + tar_padding(fs.last().data.len())),
            _ => None,
        }
    }
}

/// The bytes of a whole `.deb` package: the ar archive of `debian-binary`,
/// `control.tar.gz` and the data archive, each with mode 0o644 and owner
/// and group 0.
pub open spec fn deb_archive(control_gz: Seq<u8>, data_name: Seq<char>, data: Seq<u8>) -> Seq<u8> {
    ar_magic()
        + ar_member(encode_utf8("debian-binary"@), 0o644, 0, 0, encode_utf8("2.0\n"@))
        + ar_member(encode_utf8("control.tar.gz"@), 0o644, 0, 0, control_gz)
        + ar_member(encode_utf8(data_name), 0o644, 0, 0, data)
}

/// The bytes that `write_deb` writes for a package, when every header is
/// accepted: the data archive is compressed as configured and the control
/// archive with gzip at level 6.
pub open spec fn deb_package(p: Package) -> Option<Seq<u8>> {
    match deb_data(entries_view(p.entries@)) {
        Some(d) => match control_members(control_files(p, d.md5sums, d.inst_size as u64)) {
            Some(ctl) => {
                let (name, data) = compressed_data(d.members + zeros(1024), p.deb.compression);
                Some(deb_archive(gzip_stream(ctl + zeros(1024), 6), name, data))
            },
            None => None,
        },
        None => None,
    }
}

/// A data archive that fails for a prefix of the entries fails for all.
proof fn lemma_deb_data_prefix_none(es: Seq<EntryView>, k: int)
    requires
        0 <= k <= es.len(),
        deb_data(es.subrange(0, k)) is None,
    ensures
        deb_data(es) is None,
    decreases es.len() - k,
{
    if k < es.len() {
        assert(es.subrange(0, k + 1).drop_last() == es.subrange(0, k));
        lemma_deb_data_prefix_none(es, k + 1);
    } else {
        assert(es.subrange(0, k) == es);
    }
}

/// A control archive that fails for a prefix of the files fails for all.
proof fn lemma_control_prefix_none(fs: Seq<ControlFile>, k: int)
    requires
        0 <= k <= fs.len(),
        control_members(fs.subrange(0, k)) is None,
    ensures
        control_members(fs) is None,
    decreases fs.len() - k,
{
    if k < fs.len() {
        assert(fs.subrange(0, k + 1).drop_last() == fs.subrange(0, k));
        lemma_control_prefix_none(fs, k + 1);
    } else {
        assert(fs.subrange(0, k) == fs);
    }
}

/// The `data.tar` header block of an entry whose data is `size` bytes long.
fn deb_entry_header_block(e: &Entry, size: usize) -> (res: Result<Vec<u8>, std::io::Error>)
    requires
        size == payload(e@).len(),
    ensures
        match deb_entry_header(e@) {
            Some(h) => res matches Ok(v) && v@ == h,
            None => res is Err,
        },
        res matches Ok(v) ==> v@.len() == 512,
{
    broadcast use crate::archive::lemma_octal_digits_len;
    let mut h = tar_header_new_gnu();
    let kind = match &e.kind {
        EntryKind::File { .. } => TarKind::Regular,
        EntryKind::Directory => TarKind::Directory,
        EntryKind::Symlink { .. } => TarKind::Symlink,
    };
    tar_set_entry_type(&mut h, kind);
    let dest = normalize_deb_path(e.dest.as_str());
    match tar_set_path(&mut h, dest.as_str()) {
        Ok(()) => {},
        Err(err) => return Err(err),
    }
    if let EntryKind::Symlink { target } = &e.kind {
        match tar_set_link_name(&mut h, target.as_str()) {
            Ok(()) => {},
            Err(err) => return Err(err),
        }
    }
    tar_set_mode(&mut h, e.mode);
    tar_set_size(&mut h, size as u64);
    let _ = tar_set_username(&mut h, e.owner.as_str());
    let _ = tar_set_groupname(&mut h, e.group.as_str());
    tar_set_uid(&mut h, 0);
    tar_set_gid(&mut h, 0);
    tar_set_cksum(&mut h);
    Ok(h)
}

/// A file of the control archive.
struct ControlEntry {
    path: &'static str,
    data: Vec<u8>,
    mode: u32,
}

impl View for ControlEntry {
    type V = ControlFile;

    closed spec fn view(&self) -> ControlFile {
        ControlFile { path: self.path@, data: self.data@, mode: self.mode }
    }
}

/// The views of a list of control files.
spec fn control_view(v: Seq<ControlEntry>) -> Seq<ControlFile> {
    v.map_values(|c: ControlEntry| c@)
}

/// Add a script file to the list, when the script is set.
fn push_script(files: &mut Vec<ControlEntry>, path: &'static str, script: &Option<Content>, mode: u32)
    ensures
        control_view(final(files)@) == control_view(old(files)@) + script_file(path@, *script, mode),
{
    if let Some(c) = script {
        let entry = ControlEntry { path, data: c.read_all(), mode };
        files.push(entry);
        assert(control_view(files@) =~= control_view(old(files)@) + script_file(path@, *script, mode));
    } else {
        assert(control_view(files@) =~= control_view(old(files)@) + script_file(path@, *script, mode));
    }
}

/// Add a text file to the list, unless the text is empty.
fn push_text(files: &mut Vec<ControlEntry>, path: &'static str, text: &String)
    ensures
        control_view(final(files)@) == control_view(old(files)@) + text_file(path@, text@),
{
    if text.as_str().unicode_len() > 0 {
        let entry = ControlEntry { path, data: vstd::slice::slice_to_vec(text.as_str().as_bytes()), mode: 0o644 };
        files.push(entry);
        assert(control_view(files@) =~= control_view(old(files)@) + text_file(path@, text@));
    } else {
        assert(control_view(files@) =~= control_view(old(files)@) + text_file(path@, text@));
    }
}

/// Write one file of the control archive.
fn write_tar_file(tar: &mut TarArchive, path: &str, data: &[u8], mode: u32) -> (res: Result<(), std::io::Error>)
    ensures
        match control_header(path@, data@.len(), mode) {
            Some(h) => res is Ok && tar_written(*final(tar)) == tar_written(*old(tar)) + h + data@
                + tar_padding(data@.len()),
            None => res is Err,
        },
{
    broadcast use crate::archive::lemma_octal_digits_len;
    let mut h = tar_header_new_gnu();
    tar_set_entry_type(&mut h, TarKind::Regular);
    match tar_set_path(&mut h, path) {
        Ok(()) => {},
        Err(err) => return Err(err),
    }
    tar_set_mode(&mut h, mode);
    tar_set_size(&mut h, data.len() as u64);
    tar_set_uid(&mut h, 0);
    tar_set_gid(&mut h, 0);
    let _ = tar_set_username(&mut h, "root");
    let _ = tar_set_groupname(&mut h, "root");
    tar_set_cksum(&mut h);
    tar.append(h.as_slice(), data)
}

/// Compress the data archive as configured: its bytes and member name.
fn compress_deb_data(tar_bytes: &[u8], compression: DebCompression) -> (res: Result<(Vec<u8>, String), Error>)
    ensures
        res is Ok,
        res matches Ok((bytes, name)) ==> (name@, bytes@) == compressed_data(tar_bytes@, compression),
{
    match compression {
        DebCompression::Gzip => match gzip_compress(tar_bytes, 9) {
            Ok(out) => Ok((out, String::from_str("data.tar.gz"))),
            Err(e) => Err(Error::Io(e)),
        },
        DebCompression::Xz => match xz_compress(tar_bytes, 6) {
            Ok(out) => Ok((out, String::from_str("data.tar.xz"))),
            Err(e) => Err(Error::Io(e)),
        },
        DebCompression::Zstd => match zstd_compress(tar_bytes, 19) {
            Ok(out) => Ok((out, String::from_str("data.tar.zst"))),
            Err(e) => Err(Error::Io(e)),
        },
        DebCompression::Uncompressed => Ok(
            (vstd::slice::slice_to_vec(tar_bytes), String::from_str("data.tar")),
        ),
    }
}

impl Package {
    /// Build `data.tar.*`: its bytes, member name, the `md5sums` text and
    /// the installed size in bytes.
    fn build_deb_data(&self) -> (res: Result<(Vec<u8>, String, String, u64), Error>)
        requires
            files_size(entries_view(self.entries@)) <= u64::MAX,
        ensures
            deb_data(entries_view(self.entries@)) is None <==> res is Err,
            res matches Err(e) ==> e is Io,
            res matches Ok((bytes, name, md5sums, inst_size)) ==> (deb_data(entries_view(self.entries@))
                matches Some(d) && (name@, bytes@) == compressed_data(d.members + zeros(1024), self.deb.compression)
                && md5sums@ == d.md5sums && inst_size == d.inst_size),
    {
        let ghost ev = entries_view(self.entries@);
        let mut tar = TarArchive::new();
        let mut md5_lines = String::new();
        let mut inst_size: u64 = 0;
        let mut i: usize = 0;
        proof {
            assert(ev.subrange(0, 0) == Seq::<EntryView>::empty());
        }
        while i < self.entries.len()
            invariant
                i <= self.entries@.len(),
                ev == entries_view(self.entries@),
                files_size(ev) <= u64::MAX,
                deb_data(ev.subrange(0, i as int)) == Some(
                    DebData { members: tar_written(tar), md5sums: md5_lines@, inst_size: inst_size as nat },
                ),
            decreases self.entries@.len() - i,
        {
            let entry = &self.entries[i];
            let ghost prefix = ev.subrange(0, i + 1);
            proof {
                assert(ev[i as int] == entry@);
                assert(prefix.drop_last() == ev.subrange(0, i as int));
                assert(prefix.last() == entry@);
            }
            let data = match &entry.kind {
                EntryKind::File { source, .. } => source.read_all(),
                _ => Vec::new(),
            };
            let header = match deb_entry_header_block(entry, data.len()) {
                Ok(h) => h,
                Err(e) => {
                    proof {
                        lemma_deb_data_prefix_none(ev, i + 1);
                    }
                    return Err(Error::Io(e));
                },
            };
            let _ = tar.append(header.as_slice(), data.as_slice());
            proof {
                assert(data@ == payload(entry@));
                assert(deb_entry_header(prefix.last()) == Some(header@));
            }
            if let EntryKind::File { .. } = &entry.kind {
                let digest = md5_compute(data.as_slice());
                push_hex(&mut md5_lines, digest.as_slice());
                md5_lines.append("  ");
                push_without_slash(&mut md5_lines, entry.dest.as_str());
                md5_lines.append("\n");
                proof {
                    lemma_deb_installed_size(prefix);
                    lemma_files_size_prefix(ev, i + 1);
                }
                inst_size = inst_size + data.len() as u64;
            }
            proof {
                assert(deb_data(ev.subrange(0, i as int)) matches Some(d) && d.md5sums + md5sum_line(entry@) == md5_lines@);
            }
            i += 1;
        }
        proof {
            assert(ev.subrange(0, ev.len() as int) == ev);
        }
        let tar_bytes = match tar.into_bytes() {
            Ok(v) => v,
            Err(e) => return Err(Error::Io(e)),
        };
        let (compressed, data_name) = match compress_deb_data(tar_bytes.as_slice(), self.deb.compression) {
            Ok(r) => r,
            Err(e) => return Err(e),
        };
        Ok((compressed, data_name, md5_lines, inst_size))
    }

    /// The files of the control archive, in order.
    fn control_file_list(&self, md5sums: &String, inst_size: u64) -> (res: Vec<ControlEntry>)
        ensures
            control_view(res@) == control_files(*self, md5sums@, inst_size),
    {
        let mut files: Vec<ControlEntry> = Vec::new();
        let control = self.render_deb_control(inst_size);
        files.push(ControlEntry {
            path: "./control",
            data: vstd::slice::slice_to_vec(control.as_str().as_bytes()),
            mode: 0o644,
        });
        files.push(ControlEntry {
            path: "./md5sums",
            data: vstd::slice::slice_to_vec(md5sums.as_str().as_bytes()),
            mode: 0o644,
        });
        let ghost first = control_view(files@);
        let conffiles = self.render_deb_conffiles();
        push_text(&mut files, "./conffiles", &conffiles);
        let triggers = render_deb_triggers(&self.deb.triggers);
        push_text(&mut files, "./triggers", &triggers);
        push_script(&mut files, "./preinst", &self.scripts.pre_install, 0o755);
        push_script(&mut files, "./postinst", &self.scripts.post_install, 0o755);
        push_script(&mut files, "./prerm", &self.scripts.pre_remove, 0o755);
        push_script(&mut files, "./postrm", &self.scripts.post_remove, 0o755);
        push_script(&mut files, "./rules", &self.deb.scripts.rules, 0o755);
        push_script(&mut files, "./templates", &self.deb.scripts.templates, 0o644);
        push_script(&mut files, "./config", &self.deb.scripts.config, 0o755);
        proof {
            assert(first =~= seq![
                ControlFile { path: "./control"@, data: encode_utf8(control_text(*self, inst_size)), mode: 0o644 },
                ControlFile { path: "./md5sums"@, data: encode_utf8(md5sums@), mode: 0o644 },
            ]);
        }
        files
    }

    /// Build `control.tar.gz`.
    fn build_deb_control(&self, md5sums: &String, inst_size: u64) -> (res: Result<Vec<u8>, Error>)
        ensures
            control_members(control_files(*self, md5sums@, inst_size)) is None <==> res is Err,
            res matches Err(e) ==> e is Io,
            res matches Ok(v) ==> (control_members(control_files(*self, md5sums@, inst_size)) matches Some(m)
                && v@ == gzip_stream(m + zeros(1024), 6)),
    {
        let files = self.control_file_list(md5sums, inst_size);
        let ghost fs = control_view(files@);
        let mut tar = TarArchive::new();
        let mut i: usize = 0;
        proof {
            assert(fs.subrange(0, 0) == Seq::<ControlFile>::empty());
        }
        while i < files.len()
            invariant
                i <= files@.len(),
                fs == control_view(files@),
                fs == control_files(*self, md5sums@, inst_size),
                control_members(fs.subrange(0, i as int)) == Some(tar_written(tar)),
            decreases files@.len() - i,
        {
            let f = &files[i];
            proof {
                assert(fs.subrange(0, i + 1).drop_last() == fs.subrange(0, i as int));
                assert(fs.subrange(0, i + 1).last() == f@);
            }
            match write_tar_file(&mut tar, f.path, f.data.as_slice(), f.mode) {
                Ok(()) => {},
                Err(e) => {
                    proof {
                        lemma_control_prefix_none(fs, i + 1);
                    }
                    return Err(Error::Io(e));
                },
            }
            i += 1;
        }
        proof {
            assert(fs.subrange(0, fs.len() as int) == fs);
        }
        let tar_bytes = match tar.into_bytes() {
            Ok(v) => v,
            Err(e) => return Err(Error::Io(e)),
        };
        match gzip_compress(tar_bytes.as_slice(), 6) {
            Ok(v) => Ok(v),
            Err(e) => Err(Error::Io(e)),
        }
    }

    /// Write a `.deb` package: append its bytes to `w`.
    ///
    /// The deb format is an AR archive containing:
    /// - `debian-binary`: format version (`"2.0\n"`)
    /// - `control.tar.gz`: package metadata, md5sums, scripts
    /// - `data.tar.{gz,xz,zst}`: the actual package files
    pub fn write_deb(&self, w: &mut Vec<u8>) -> (res: Result<(), Error>)
        requires
            files_size(entries_view(self.entries@)) <= u64::MAX,
        ensures
            deb_package(*self) is None <==> res is Err,
            res is Ok ==> (deb_package(*self) matches Some(b) && final(w)@ == old(w)@ + b),
            res is Ok ==> ar_magic().is_prefix_of(final(w)@.subrange(old(w)@.len() as int, final(w)@.len() as int)),
            res is Err ==> final(w)@ == old(w)@,
            res matches Err(e) ==> e is Io,
    {
        let (data_tarball, data_name, md5sums, inst_size) = match self.build_deb_data() {
            Ok(r) => r,
            Err(e) => return Err(e),
        };
        let control_tarball = match self.build_deb_control(&md5sums, inst_size) {
            Ok(c) => c,
            Err(e) => return Err(e),
        };
        write_deb_archive(control_tarball.as_slice(), data_name.as_str(), data_tarball.as_slice(), w);
        assert(w@.subrange(old(w)@.len() as int, w@.len() as int) == deb_archive(
            control_tarball@,
            data_name@,
            data_tarball@,
        ));
        Ok(())
    }
}

/// Append the ar archive of a deb package, given its compressed control
/// archive and its data member's name and bytes: `debian-binary` holding
/// `2.0`, then `control.tar.gz`, then the data member.
pub fn write_deb_archive(control_gz: &[u8], data_name: &str, data: &[u8], w: &mut Vec<u8>)
    ensures
        final(w)@ == old(w)@ + deb_archive(control_gz@, data_name@, data@),
{
    let mut ar = ArArchive::new();
    let _ = ar.append("debian-binary".as_bytes(), 0o644, 0, 0, "2.0\n".as_bytes());
    let _ = ar.append("control.tar.gz".as_bytes(), 0o644, 0, 0, control_gz);
    let _ = ar.append(data_name.as_bytes(), 0o644, 0, 0, data);
    match ar.into_bytes() {
        Ok(bytes) => append_bytes(w, bytes.as_slice()),
        Err(_) => {},
    }
}

/// The total size of the files of a prefix of the entries is at most that
/// of all of them.
pub proof fn lemma_files_size_prefix(es: Seq<EntryView>, k: int)
    requires
        0 <= k <= es.len(),
    ensures
        files_size(es.subrange(0, k)) <= files_size(es),
    decreases es.len() - k,
{
    if k < es.len() {
        assert(es.subrange(0, k + 1).drop_last() == es.subrange(0, k));
        lemma_files_size_prefix(es, k + 1);
    } else {
        assert(es.subrange(0, k) == es);
    }
}

/// `piece` occurs in `t` as a contiguous run.
pub open spec fn contains_text(t: Seq<char>, piece: Seq<char>) -> bool {
    exists|i: int| 0 <= i && i + piece.len() <= t.len() && #[trigger] t.subrange(i, i + piece.len()) == piece
}

/// A text contains what stands between its prefix and its suffix.
pub proof fn lemma_contains_middle(a: Seq<char>, b: Seq<char>, c: Seq<char>)
    ensures
        contains_text(a + b + c, b),
{
    let t = a + b + c;
    assert(t.subrange(a.len() as int, a.len() + b.len() as int) =~= b);
}

/// A text contains its suffix.
pub broadcast proof fn lemma_contains_suffix(a: Seq<char>, b: Seq<char>)
    ensures
        #[trigger] contains_text(a + b, b),
{
    assert((a + b).subrange(a.len() as int, a.len() + b.len() as int) =~= b);
}

/// A text contains its prefix.
pub broadcast proof fn lemma_contains_prefix(a: Seq<char>, b: Seq<char>)
    ensures
        #[trigger] contains_text(a + b, a),
{
    let i: int = 0;
    assert((a + b).subrange(i, i + a.len()) =~= a);
}

/// What a text contains, it still contains with more text before it.
pub broadcast proof fn lemma_contains_prepend(a: Seq<char>, t: Seq<char>, piece: Seq<char>)
    ensures
        contains_text(t, piece) ==> #[trigger] contains_text(a + t, piece),
{
    if contains_text(t, piece) {
        let i = choose|i: int| 0 <= i && i + piece.len() <= t.len() && #[trigger] t.subrange(i, i + piece.len()) == piece;
        let j = a.len() + i;
        assert((a + t).subrange(j, j + piece.len()) =~= t.subrange(i, i + piece.len()));
    }
}

/// A concatenation contains each of its texts.
pub proof fn lemma_flat_map_contains<A>(s: Seq<A>, f: spec_fn(A) -> Seq<char>, i: int)
    requires
        0 <= i < s.len(),
    ensures
        contains_text(flat_map(s, f), f(s[i])),
    decreases s.len(),
{
    broadcast use lemma_contains_suffix, lemma_contains_extend;
    if i < s.len() - 1 {
        assert(s.drop_last()[i] == s[i]);
        lemma_flat_map_contains(s.drop_last(), f, i);
    }
    assert(flat_map(s, f) == flat_map(s.drop_last(), f) + f(s.last()));
}

/// What a text contains, it still contains with more text after it.
pub broadcast proof fn lemma_contains_extend(t: Seq<char>, piece: Seq<char>, c: Seq<char>)
    ensures
        contains_text(t, piece) ==> #[trigger] contains_text(t + c, piece),
{
    if contains_text(t, piece) {
        let i = choose|i: int| 0 <= i && i + piece.len() <= t.len() && #[trigger] t.subrange(i, i + piece.len()) == piece;
        assert((t + c).subrange(i, i + piece.len()) =~= t.subrange(i, i + piece.len()));
    }
}

/// The `control` file names the package and its architecture, and holds
/// each relationship field with that field's own list: `Replaces`,
/// `Provides`, `Pre-Depends`, `Depends`, `Recommends`, `Suggests`,
/// `Conflicts` and `Breaks`, each written as `Key: a, b, ...` when its list
/// is not empty.
pub proof fn lemma_control_fields(p: Package, inst_size: u64)
    ensures
        contains_text(control_text(p, inst_size), "Package"@ + ": "@ + p.name@ + "\n"@),
        contains_text(control_text(p, inst_size), "Architecture"@ + ": "@ + deb_arch_name(p.arch) + "\n"@),
        p.replaces@.len() > 0 ==> contains_text(control_text(p, inst_size), "Replaces"@ + ": "@ + join(strs(p.replaces@), ", "@) + "\n"@),
        p.provides@.len() > 0 ==> contains_text(control_text(p, inst_size), "Provides"@ + ": "@ + join(strs(p.provides@), ", "@) + "\n"@),
        p.deb.predepends@.len() > 0 ==> contains_text(control_text(p, inst_size), "Pre-Depends"@ + ": "@ + join(strs(p.deb.predepends@), ", "@) + "\n"@),
        p.depends@.len() > 0 ==> contains_text(control_text(p, inst_size), "Depends"@ + ": "@ + join(strs(p.depends@), ", "@) + "\n"@),
        p.recommends@.len() > 0 ==> contains_text(control_text(p, inst_size), "Recommends"@ + ": "@ + join(strs(p.recommends@), ", "@) + "\n"@),
        p.suggests@.len() > 0 ==> contains_text(control_text(p, inst_size), "Suggests"@ + ": "@ + join(strs(p.suggests@), ", "@) + "\n"@),
        p.conflicts@.len() > 0 ==> contains_text(control_text(p, inst_size), "Conflicts"@ + ": "@ + join(strs(p.conflicts@), ", "@) + "\n"@),
        p.deb.breaks@.len() > 0 ==> contains_text(control_text(p, inst_size), "Breaks"@ + ": "@ + join(strs(p.deb.breaks@), ", "@) + "\n"@),
{
    broadcast use lemma_contains_prefix, lemma_contains_suffix, lemma_contains_extend;
    let t = control_text(p, inst_size);
    assert(contains_text(t, "Package"@ + ": "@ + p.name@ + "\n"@));
    assert(contains_text(t, "Architecture"@ + ": "@ + deb_arch_name(p.arch) + "\n"@));
    assert(p.replaces@.len() > 0 ==> contains_text(t, "Replaces"@ + ": "@ + join(strs(p.replaces@), ", "@) + "\n"@));
    assert(p.provides@.len() > 0 ==> contains_text(t, "Provides"@ + ": "@ + join(strs(p.provides@), ", "@) + "\n"@));
    assert(p.deb.predepends@.len() > 0 ==> contains_text(t, "Pre-Depends"@ + ": "@ + join(strs(p.deb.predepends@), ", "@) + "\n"@));
    assert(p.depends@.len() > 0 ==> contains_text(t, "Depends"@ + ": "@ + join(strs(p.depends@), ", "@) + "\n"@));
    assert(p.recommends@.len() > 0 ==> contains_text(t, "Recommends"@ + ": "@ + join(strs(p.recommends@), ", "@) + "\n"@));
    assert(p.suggests@.len() > 0 ==> contains_text(t, "Suggests"@ + ": "@ + join(strs(p.suggests@), ", "@) + "\n"@));
    assert(p.conflicts@.len() > 0 ==> contains_text(t, "Conflicts"@ + ": "@ + join(strs(p.conflicts@), ", "@) + "\n"@));
    assert(p.deb.breaks@.len() > 0 ==> contains_text(t, "Breaks"@ + ": "@ + join(strs(p.deb.breaks@), ", "@) + "\n"@));
}

} // verus!