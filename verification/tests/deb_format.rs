use std::io::{Cursor, Read};

use rfpm::distro::deb::{
    format_deb_description, normalize_deb_path, render_deb_triggers, write_deb_archive,
};
use rfpm::{Arch, DebCompression, FileOptions, Package};

/// The members of an ar archive, by name.
fn members(bytes: &[u8]) -> Vec<(String, Vec<u8>)> {
    let mut archive = ar::Archive::new(Cursor::new(bytes));
    let mut out = Vec::new();
    while let Some(entry) = archive.next_entry() {
        let mut entry = entry.unwrap();
        let name = String::from_utf8_lossy(entry.header().identifier()).to_string();
        let mut data = Vec::new();
        entry.read_to_end(&mut data).unwrap();
        out.push((name, data));
    }
    out
}

/// The files of a tar archive: path (as the `tar` crate stores it, without
/// a leading `./`), contents, mode, link target.
fn tar_files<R: Read>(r: R) -> Vec<(String, Vec<u8>, u32, Option<String>)> {
    let mut tar = tar::Archive::new(r);
    let mut out = Vec::new();
    for entry in tar.entries().unwrap() {
        let mut entry = entry.unwrap();
        let path = String::from_utf8_lossy(&entry.path_bytes()).to_string();
        let mode = entry.header().mode().unwrap();
        let link = entry
            .link_name()
            .unwrap()
            .map(|l| l.to_string_lossy().to_string());
        let mut data = Vec::new();
        entry.read_to_end(&mut data).unwrap();
        out.push((path, data, mode, link));
    }
    out
}

fn control_files(deb: &[u8]) -> Vec<(String, Vec<u8>, u32, Option<String>)> {
    let ms = members(deb);
    let ctl = &ms.iter().find(|m| m.0 == "control.tar.gz").unwrap().1;
    tar_files(flate2::read::GzDecoder::new(Cursor::new(ctl.clone())))
}

fn control_file(deb: &[u8], path: &str) -> Option<String> {
    control_files(deb)
        .into_iter()
        .find(|f| f.0 == path)
        .map(|f| String::from_utf8(f.1).unwrap())
}

fn simple_package() -> Package {
    let mut pkg = Package::new("hello", "1.0.0", Arch::Amd64, "says hello");
    pkg.add_file("/usr/bin/hello", b"hello".to_vec().into());
    pkg
}

#[test]
fn deb_members_in_order() {
    let mut buf = Vec::new();
    simple_package().write_deb(&mut buf).unwrap();
    let names: Vec<String> = members(&buf).into_iter().map(|m| m.0).collect();
    assert_eq!(names, vec!["debian-binary", "control.tar.gz", "data.tar.gz"]);
}

#[test]
fn deb_write_appends_to_buffer() {
    let mut buf = b"prefix".to_vec();
    simple_package().write_deb(&mut buf).unwrap();
    assert_eq!(&buf[..6], b"prefix");
    assert_eq!(&buf[6..14], b"!<arch>\n");
    let mut alone = Vec::new();
    simple_package().write_deb(&mut alone).unwrap();
    assert_eq!(&buf[6..], &alone[..]);
}

#[test]
fn deb_control_text_exact() {
    let mut pkg = Package::new("hello", "1.0.0", Arch::Arm64, "says hello\nsecond line");
    pkg.epoch = Some(2);
    pkg.release = "3".into();
    pkg.maintainer = Some("Me <me@example.com>".into());
    pkg.deb.section = Some("utils".into());
    pkg.depends.push("libc6".into());
    pkg.depends.push("curl (>= 7)".into());
    pkg.conflicts.push("hello-old".into());
    let text = pkg.render_deb_control(5000);
    assert_eq!(
        text,
        "Package: hello\n\
         Version: 2:1.0.0-3\n\
         Section: utils\n\
         Priority: optional\n\
         Architecture: arm64\n\
         Maintainer: Me <me@example.com>\n\
         Installed-Size: 4\n\
         Depends: libc6, curl (>= 7)\n\
         Conflicts: hello-old\n\
         Description: says hello\n second line\n"
    );
}

#[test]
fn deb_installed_size_is_total_file_bytes_in_kib() {
    let mut pkg = Package::new("big", "1.0", Arch::Amd64, "big");
    pkg.add_file("/a", vec![b'a'; 4096].into());
    pkg.add_file("/b", vec![b'b'; 100].into());
    pkg.add_dir("/c");
    let mut buf = Vec::new();
    pkg.write_deb(&mut buf).unwrap();
    let control = control_file(&buf, "control").unwrap();
    assert!(control.contains("Installed-Size: 4\n"), "{}", control);
}

#[test]
fn deb_conffiles_list_config_files_only() {
    let mut pkg = Package::new("cfg", "1.0", Arch::Amd64, "cfg");
    pkg.add_config("/etc/a.conf", b"a=1\n".to_vec().into());
    pkg.add_file("/usr/bin/cfg", b"bin".to_vec().into());
    pkg.add_config("etc/b.conf", b"b=2\n".to_vec().into());
    assert_eq!(pkg.render_deb_conffiles(), "/etc/a.conf\n/etc/b.conf\n");
    let mut buf = Vec::new();
    pkg.write_deb(&mut buf).unwrap();
    assert_eq!(
        control_file(&buf, "conffiles").unwrap(),
        "/etc/a.conf\n/etc/b.conf\n"
    );
}

#[test]
fn deb_no_conffiles_without_config_files() {
    let mut buf = Vec::new();
    simple_package().write_deb(&mut buf).unwrap();
    let paths: Vec<String> = control_files(&buf).into_iter().map(|f| f.0).collect();
    assert_eq!(paths, vec!["control", "md5sums"]);
}

#[test]
fn deb_md5sums_line() {
    let mut buf = Vec::new();
    simple_package().write_deb(&mut buf).unwrap();
    assert_eq!(
        control_file(&buf, "md5sums").unwrap(),
        "5d41402abc4b2a76b9719d911017c592  usr/bin/hello\n"
    );
}

#[test]
fn deb_scripts_and_triggers_in_control() {
    let mut pkg = simple_package();
    pkg.scripts.pre_install = Some("echo pre".to_string().into());
    pkg.scripts.post_remove = Some("echo postrm".to_string().into());
    pkg.deb.triggers.interest.push("/usr/share/icons".into());
    pkg.deb.triggers.activate_noawait.push("ldconfig".into());
    let mut buf = Vec::new();
    pkg.write_deb(&mut buf).unwrap();
    let files = control_files(&buf);
    let paths: Vec<&str> = files.iter().map(|f| f.0.as_str()).collect();
    assert_eq!(
        paths,
        vec!["control", "md5sums", "triggers", "preinst", "postrm"]
    );
    let preinst = files.iter().find(|f| f.0 == "preinst").unwrap();
    assert_eq!(preinst.1, b"echo pre");
    assert_eq!(preinst.2, 0o755);
    assert_eq!(
        String::from_utf8(files[2].1.clone()).unwrap(),
        "interest /usr/share/icons\nactivate-noawait ldconfig\n"
    );
}

#[test]
fn deb_triggers_text() {
    let mut pkg = simple_package();
    pkg.deb.triggers.interest_await.push("a".into());
    pkg.deb.triggers.interest_await.push("b".into());
    pkg.deb.triggers.activate.push("c".into());
    assert_eq!(
        render_deb_triggers(&pkg.deb.triggers),
        "interest-await a\ninterest-await b\nactivate c\n"
    );
}

#[test]
fn deb_custom_fields_keep_insertion_order_and_skip_empty() {
    let mut pkg = Package::new("f", "1", Arch::All, "d");
    assert_eq!(pkg.deb.fields.insert("X-B".into(), "2".into()), None);
    assert_eq!(pkg.deb.fields.insert("X-A".into(), "1".into()), None);
    assert_eq!(pkg.deb.fields.insert("X-Empty".into(), "".into()), None);
    assert_eq!(
        pkg.deb.fields.insert("X-B".into(), "3".into()),
        Some("2".to_string())
    );
    assert_eq!(pkg.deb.fields.len(), 3);
    assert_eq!(pkg.deb.fields.get("X-B").map(|s| s.as_str()), Some("3"));
    assert_eq!(pkg.deb.fields.get("X-C"), None);
    let text = pkg.render_deb_control(0);
    assert!(text.ends_with("Description: d\nX-B: 3\nX-A: 1\n"), "{}", text);
}

#[test]
fn deb_description_formatting() {
    assert_eq!(
        format_deb_description("  Short summary  \nMore details\n\n  indented  "),
        "Short summary\n More details\n .\n indented"
    );
    assert_eq!(format_deb_description(""), "");
    assert_eq!(format_deb_description("one"), "one");
}

#[test]
fn deb_paths_are_relative_to_dot() {
    assert_eq!(normalize_deb_path("/usr/bin/x"), "./usr/bin/x");
    assert_eq!(normalize_deb_path("usr/bin/x"), "./usr/bin/x");
}

#[test]
fn deb_data_gzip_holds_entries() {
    let mut pkg = Package::new("t", "1", Arch::Amd64, "d");
    pkg.add_file_with(
        "/usr/bin/t",
        b"#!/bin/sh\n".to_vec().into(),
        FileOptions {
            mode: 0o755,
            ..Default::default()
        },
    );
    pkg.add_dir_with_mode("/var/lib/t", 0o700);
    pkg.add_symlink("/usr/bin/t2", "/usr/bin/t");
    let mut buf = Vec::new();
    pkg.write_deb(&mut buf).unwrap();
    let ms = members(&buf);
    assert_eq!(ms[2].0, "data.tar.gz");
    let files = tar_files(flate2::read::GzDecoder::new(Cursor::new(ms[2].1.clone())));
    assert_eq!(files.len(), 3);
    assert_eq!(files[0].0, "usr/bin/t");
    assert_eq!(files[0].1, b"#!/bin/sh\n");
    assert_eq!(files[0].2, 0o755);
    assert_eq!(files[1].0, "var/lib/t");
    assert_eq!(files[1].2, 0o700);
    assert_eq!(files[2].0, "usr/bin/t2");
    assert_eq!(files[2].3.as_deref(), Some("/usr/bin/t"));
}

#[test]
fn deb_data_owner_names() {
    let mut pkg = Package::new("o", "1", Arch::Amd64, "d");
    pkg.add_file_with(
        "/srv/o",
        b"o".to_vec().into(),
        FileOptions {
            mode: 0o640,
            owner: "www".into(),
            group: "web".into(),
        },
    );
    let mut buf = Vec::new();
    pkg.write_deb(&mut buf).unwrap();
    let ms = members(&buf);
    let gz = flate2::read::GzDecoder::new(Cursor::new(ms[2].1.clone()));
    let mut tar = tar::Archive::new(gz);
    let entry = tar.entries().unwrap().next().unwrap().unwrap();
    let h = entry.header();
    assert_eq!(h.username().unwrap(), Some("www"));
    assert_eq!(h.groupname().unwrap(), Some("web"));
    assert_eq!(h.uid().unwrap(), 0);
    assert_eq!(h.gid().unwrap(), 0);
    assert_eq!(h.mode().unwrap(), 0o640);
    assert_eq!(h.size().unwrap(), 1);
}

#[test]
fn deb_data_xz_decodes() {
    let mut pkg = simple_package();
    pkg.deb.compression = DebCompression::Xz;
    let mut buf = Vec::new();
    pkg.write_deb(&mut buf).unwrap();
    let ms = members(&buf);
    assert_eq!(ms[2].0, "data.tar.xz");
    let files = tar_files(liblzma::read::XzDecoder::new(Cursor::new(ms[2].1.clone())));
    assert_eq!(files[0].0, "usr/bin/hello");
    assert_eq!(files[0].1, b"hello");
}

#[test]
fn deb_data_zstd_decodes() {
    let mut pkg = simple_package();
    pkg.deb.compression = DebCompression::Zstd;
    let mut buf = Vec::new();
    pkg.write_deb(&mut buf).unwrap();
    let ms = members(&buf);
    assert_eq!(ms[2].0, "data.tar.zst");
    assert_eq!(&ms[2].1[..4], &[0x28, 0xB5, 0x2F, 0xFD]);
    let files = tar_files(zstd::Decoder::new(Cursor::new(ms[2].1.clone())).unwrap());
    assert_eq!(files[0].1, b"hello");
}

#[test]
fn deb_data_uncompressed() {
    let mut pkg = simple_package();
    pkg.deb.compression = DebCompression::Uncompressed;
    let mut buf = Vec::new();
    pkg.write_deb(&mut buf).unwrap();
    let ms = members(&buf);
    assert_eq!(ms[2].0, "data.tar");
    let files = tar_files(Cursor::new(ms[2].1.clone()));
    assert_eq!(files[0].0, "usr/bin/hello");
    assert_eq!(files[0].1, b"hello");
}

#[test]
fn deb_version_string_forms() {
    let mut pkg = Package::new("v", "1.2", Arch::Amd64, "d");
    assert_eq!(pkg.deb_version_string(), "1.2-1");
    pkg.epoch = Some(7);
    pkg.release = "4ubuntu1".into();
    assert_eq!(pkg.deb_version_string(), "7:1.2-4ubuntu1");
    pkg.release = String::new();
    assert_eq!(pkg.deb_version_string(), "7:1.2");
    pkg.epoch = None;
    assert_eq!(pkg.deb_version_string(), "1.2");
}

#[test]
fn deb_archive_bytes_exact() {
    let mut w = b"x".to_vec();
    write_deb_archive(b"CTL", "data.tar", b"DATA", &mut w);
    let mut expected = b"x!<arch>\n".to_vec();
    expected.extend_from_slice(b"debian-binary   0           0     0     644     4         `\n2.0\n");
    expected.extend_from_slice(b"control.tar.gz  0           0     0     644     3         `\nCTL\n");
    expected.extend_from_slice(b"data.tar        0           0     0     644     4         `\nDATA");
    assert_eq!(String::from_utf8_lossy(&w), String::from_utf8_lossy(&expected));
}

#[test]
fn deb_archive_long_member_name() {
    let mut w = Vec::new();
    write_deb_archive(b"C", "data.tar.long-name-21", b"DA", &mut w);
    let tail = b"#1/24           0           0     0     644     26        `\ndata.tar.long-name-21\0\0\0DA";
    assert!(w.ends_with(tail), "{:?}", String::from_utf8_lossy(&w));
    let names: Vec<String> = members(&w).into_iter().map(|m| m.0).collect();
    assert_eq!(names[2], "data.tar.long-name-21");
}
