use std::io::{Cursor, Read};

use rfpm::distro::arch::{is_valid_arch_name, parse_release};
use rfpm::{Arch, Error, FileOptions, Package};

/// The files of the package: path and contents.
fn arch_files(pkg: &[u8]) -> Vec<(String, Vec<u8>)> {
    let zr = zstd::Decoder::new(Cursor::new(pkg)).unwrap();
    let mut tar = tar::Archive::new(zr);
    let mut out = Vec::new();
    for entry in tar.entries().unwrap() {
        let mut entry = entry.unwrap();
        let path = entry.path().unwrap().to_string_lossy().to_string();
        let mut data = Vec::new();
        entry.read_to_end(&mut data).unwrap();
        out.push((path, data));
    }
    out
}

fn mtree_text(pkg: &[u8]) -> String {
    let files = arch_files(pkg);
    let gz = &files.iter().find(|f| f.0 == ".MTREE").unwrap().1;
    let mut text = String::new();
    flate2::read::GzDecoder::new(Cursor::new(gz.clone()))
        .read_to_string(&mut text)
        .unwrap();
    text
}

#[test]
fn arch_pkginfo_text_exact() {
    let pkg = Package::new("foo", "1.0", Arch::Amd64, "d\ne");
    assert_eq!(
        pkg.render_pkginfo(11),
        "# Generated by rFPM\n\
         pkgname = foo\n\
         pkgbase = foo\n\
         pkgver = 1.0-1\n\
         pkgdesc = d e\n\
         builddate = 0\n\
         packager = Unknown Packager\n\
         size = 11\n\
         arch = x86_64\n"
    );
}

#[test]
fn arch_pkginfo_relations_and_backup() {
    let mut pkg = Package::new("foo", "1.0", Arch::I386, "d");
    pkg.epoch = Some(3);
    pkg.release = "abc".into();
    pkg.homepage = Some("https://foo.example".into());
    pkg.license = Some("MIT".into());
    pkg.arch_linux.pkgbase = Some("foo-base".into());
    pkg.arch_linux.packager = Some("Me".into());
    pkg.replaces.push("old".into());
    pkg.conflicts.push("other".into());
    pkg.provides.push("foo-bin".into());
    pkg.depends.push("glibc".into());
    pkg.add_config("/etc/foo.conf", b"x".to_vec().into());
    pkg.add_file("/usr/bin/foo", b"y".to_vec().into());
    assert_eq!(
        pkg.render_pkginfo(2),
        "# Generated by rFPM\n\
         pkgname = foo\n\
         pkgbase = foo-base\n\
         pkgver = 3:1.0-1\n\
         pkgdesc = d\n\
         url = https://foo.example\n\
         builddate = 0\n\
         packager = Me\n\
         size = 2\n\
         arch = i686\n\
         license = MIT\n\
         replaces = old\n\
         conflict = other\n\
         provides = foo-bin\n\
         depend = glibc\n\
         backup = etc/foo.conf\n"
    );
}

#[test]
fn arch_package_layout() {
    let mut pkg = Package::new("hello", "1.0", Arch::Amd64, "d");
    pkg.add_file("/usr/bin/hello", b"hello world".to_vec().into());
    let mut buf = Vec::new();
    pkg.write_arch(&mut buf).unwrap();
    assert_eq!(&buf[..4], &[0x28, 0xB5, 0x2F, 0xFD]);
    let files = arch_files(&buf);
    let paths: Vec<&str> = files.iter().map(|f| f.0.as_str()).collect();
    assert_eq!(paths, vec!["usr/bin/hello", ".PKGINFO", ".MTREE"]);
    assert_eq!(files[0].1, b"hello world");
    let info = String::from_utf8(files[1].1.clone()).unwrap();
    assert!(info.contains("size = 11\n"), "{}", info);
}

#[test]
fn arch_mtree_lines() {
    let mut pkg = Package::new("hello", "1.0", Arch::Amd64, "d");
    pkg.add_file("/usr/bin/hello", b"hello world".to_vec().into());
    pkg.add_dir("/var/lib/hello");
    pkg.add_symlink("/usr/bin/hi", "hello");
    let mut buf = Vec::new();
    pkg.write_arch(&mut buf).unwrap();
    let text = mtree_text(&buf);
    let lines: Vec<&str> = text.lines().collect();
    assert_eq!(lines[0], "#mtree");
    assert!(lines[1].starts_with("./.PKGINFO time=0.0 mode=644 size="), "{}", lines[1]);
    assert_eq!(
        lines[2],
        "./usr/bin/hello time=0.0 mode=644 size=11 type=file \
         md5digest=5eb63bbbe01eeed093cb22bb8f5acdc3 \
         sha256digest=b94d27b9934d3e08a52e52d7da7dabfac484efe37a5380ee9088f7ace2efcde9"
    );
    assert_eq!(lines[3], "./var/lib/hello time=0.0 mode=755 type=dir");
    assert_eq!(lines[4], "./usr/bin/hi time=0.0 mode=777 type=link link=hello");
    assert_eq!(lines.len(), 5);
}

#[test]
fn arch_install_script_functions() {
    let mut pkg = Package::new("s", "1.0", Arch::Amd64, "d");
    pkg.scripts.post_install = Some("echo hi".to_string().into());
    pkg.arch_linux.scripts.pre_upgrade = Some("echo up".to_string().into());
    let mut buf = Vec::new();
    pkg.write_arch(&mut buf).unwrap();
    let files = arch_files(&buf);
    let install = &files.iter().find(|f| f.0 == ".INSTALL").unwrap().1;
    assert_eq!(
        String::from_utf8(install.clone()).unwrap(),
        "function post_install() {\necho hi\n}\n\nfunction pre_upgrade() {\necho up\n}\n\n"
    );
}

#[test]
fn arch_no_install_without_scripts() {
    let mut buf = Vec::new();
    Package::new("s", "1.0", Arch::Amd64, "d")
        .write_arch(&mut buf)
        .unwrap();
    assert!(arch_files(&buf).iter().all(|f| f.0 != ".INSTALL"));
}

#[test]
fn arch_invalid_name_error_leaves_buffer() {
    let pkg = Package::new("-invalid", "1.0.0", Arch::Amd64, "desc");
    let mut buf = b"keep".to_vec();
    match pkg.write_arch(&mut buf) {
        Err(Error::InvalidName(n)) => assert_eq!(n, "-invalid"),
        other => panic!("unexpected result: {:?}", other),
    }
    assert_eq!(buf, b"keep");
}

#[test]
fn arch_non_utf8_script_is_io_error() {
    let mut pkg = Package::new("s", "1.0", Arch::Amd64, "d");
    pkg.scripts.pre_remove = Some(vec![0xFF].into());
    let mut buf = b"keep".to_vec();
    match pkg.write_arch(&mut buf) {
        Err(Error::Io(e)) => assert_eq!(e.kind(), std::io::ErrorKind::InvalidData),
        other => panic!("unexpected result: {:?}", other),
    }
    assert_eq!(buf, b"keep");
}

#[test]
fn arch_write_appends_to_buffer() {
    let mut pkg = Package::new("s", "1.0", Arch::Amd64, "d");
    pkg.add_file_with(
        "/usr/bin/s",
        b"s".to_vec().into(),
        FileOptions {
            mode: 0o700,
            owner: "me".into(),
            group: "us".into(),
        },
    );
    let mut buf = b"xy".to_vec();
    pkg.write_arch(&mut buf).unwrap();
    assert_eq!(&buf[..2], b"xy");
    assert_eq!(&buf[2..6], &[0x28, 0xB5, 0x2F, 0xFD]);
}

#[test]
fn arch_name_rules() {
    assert!(is_valid_arch_name("a.b_c+d-e9"));
    assert!(is_valid_arch_name("X"));
    assert!(!is_valid_arch_name(""));
    assert!(!is_valid_arch_name("-a"));
    assert!(!is_valid_arch_name(".a"));
    assert!(!is_valid_arch_name("a b"));
    assert!(!is_valid_arch_name("caf\u{e9}"));
}

#[test]
fn release_numbers() {
    assert_eq!(parse_release("3"), Some(3));
    assert_eq!(parse_release("+7"), Some(7));
    assert_eq!(parse_release("4294967295"), Some(4294967295));
    assert_eq!(parse_release("4294967296"), None);
    assert_eq!(parse_release("abc"), None);
    assert_eq!(parse_release(""), None);
    assert_eq!(parse_release("+"), None);
    assert_eq!(parse_release("-1"), None);
}
