use rfpm::distro::rpmpkg::{mode_u16, rpm_dest_has_file_name, RpmFileKind, RpmPayload, RpmScriptKind};
use rfpm::{Arch, Constraint, Error, FileOptions, Op, Package, Relation, RpmCompression, VirtualPackage};

const RPM_MAGIC: [u8; 4] = [0xED, 0xAB, 0xEE, 0xDB];

fn full_package() -> Package {
    let mut pkg = Package::new("full", "2.0", Arch::Arm64, "First line\nmore");
    pkg.epoch = Some(1);
    pkg.homepage = Some("https://full.example".into());
    pkg.vendor = Some("Vendor".into());
    pkg.maintainer = Some("Maint <m@example.com>".into());
    pkg.rpm.group = Some("Applications/System".into());
    pkg.rpm.build_host = Some("builder".into());
    pkg.depends.push("a>=1".into());
    pkg.depends.push("b<=2".into());
    pkg.depends.push("c>3".into());
    pkg.depends.push("d<4".into());
    pkg.depends.push("e=5".into());
    pkg.depends.push("f".into());
    pkg.provides.push("full-bin=2.0".into());
    pkg.provides.push("full-virtual".into());
    pkg.conflicts.push("old-full<2".into());
    pkg.replaces.push("older-full".into());
    pkg.add_file_with(
        "/usr/bin/full",
        b"#!/bin/sh\n".to_vec().into(),
        FileOptions {
            mode: 0o755,
            ..Default::default()
        },
    );
    pkg.add_config("/etc/full.conf", b"k=v\n".to_vec().into());
    pkg.add_dir("/var/lib/full");
    pkg.add_symlink("/usr/bin/full-link", "/usr/bin/full");
    pkg.rpm.ghost_files.push("/var/log/full.log".into());
    pkg.scripts.pre_install = Some("echo pre".to_string().into());
    pkg.scripts.post_remove = Some("echo postrm".to_string().into());
    pkg.rpm.scripts.pre_trans = Some("echo pretrans".to_string().into());
    pkg.rpm.scripts.verify = Some("echo verify".to_string().into());
    pkg
}

#[test]
fn rpm_spec_describes_package() {
    let pkg = full_package();
    let spec = pkg.rpm_spec().unwrap();
    assert_eq!(spec.name, "full");
    assert_eq!(spec.version, "2.0");
    assert_eq!(spec.license, "Unknown");
    assert_eq!(spec.arch, "aarch64");
    assert_eq!(spec.summary, "First line");
    assert_eq!(spec.description, "First line\nmore");
    assert_eq!(spec.release, "1");
    assert_eq!(spec.epoch, Some(1));
    assert_eq!(spec.url.as_deref(), Some("https://full.example"));
    assert_eq!(spec.vendor.as_deref(), Some("Vendor"));
    assert_eq!(spec.group.as_deref(), Some("Applications/System"));
    assert_eq!(spec.packager.as_deref(), Some("Maint <m@example.com>"));
    assert_eq!(spec.build_host.as_deref(), Some("builder"));
    assert!(spec.payload == RpmPayload::Gzip(9));
    let ops: Vec<Option<Op>> = spec
        .required
        .iter()
        .map(|r| r.constraint.as_ref().map(|c| c.op))
        .collect();
    assert_eq!(
        ops,
        vec![
            Some(Op::GreaterEqual),
            Some(Op::LessEqual),
            Some(Op::Greater),
            Some(Op::Less),
            Some(Op::Equal),
            None
        ]
    );
    assert_eq!(
        spec.required[0],
        Relation {
            name: "a".into(),
            constraint: Some(Constraint {
                op: Op::GreaterEqual,
                version: "1".into()
            })
        }
    );
    assert_eq!(
        spec.provides,
        vec![
            VirtualPackage {
                name: "full-bin".into(),
                version: Some("2.0".into())
            },
            VirtualPackage {
                name: "full-virtual".into(),
                version: None
            }
        ]
    );
    assert_eq!(spec.conflicts[0].name, "old-full");
    assert_eq!(spec.obsoletes[0].name, "older-full");
    assert_eq!(spec.files.len(), 4);
    assert_eq!(spec.files[0].dest, "/usr/bin/full");
    assert_eq!(spec.files[0].mode, 0o755);
    assert_eq!(spec.files[0].user, "root");
    match &spec.files[1].kind {
        RpmFileKind::File { data, config } => {
            assert_eq!(data, b"k=v\n");
            assert!(*config);
        }
        _ => panic!("config file expected"),
    }
    assert!(matches!(spec.files[2].kind, RpmFileKind::Dir));
    match &spec.files[3].kind {
        RpmFileKind::Symlink { target } => assert_eq!(target, "/usr/bin/full"),
        _ => panic!("symlink expected"),
    }
    assert_eq!(spec.files[3].mode, 0o777);
    assert_eq!(spec.ghosts, vec!["/var/log/full.log".to_string()]);
    let kinds: Vec<RpmScriptKind> = spec.scripts.iter().map(|s| s.0).collect();
    assert!(
        kinds
            == vec![
                RpmScriptKind::PreInstall,
                RpmScriptKind::PostUninstall,
                RpmScriptKind::PreTrans,
                RpmScriptKind::Verify
            ]
    );
    assert_eq!(spec.scripts[2].1, "echo pretrans");
}

#[test]
fn rpm_spec_defaults() {
    let mut pkg = Package::new("p", "1", Arch::All, "");
    pkg.license = Some("GPL-3.0".into());
    pkg.rpm.packager = Some("Packager".into());
    pkg.maintainer = Some("Maintainer".into());
    pkg.rpm.summary = Some("Given summary".into());
    let spec = pkg.rpm_spec().unwrap();
    assert_eq!(spec.license, "GPL-3.0");
    assert_eq!(spec.packager.as_deref(), Some("Packager"));
    assert_eq!(spec.summary, "Given summary");
    assert_eq!(spec.arch, "noarch");
    let bare = Package::new("p", "1", Arch::All, "").rpm_spec().unwrap();
    assert_eq!(bare.summary, "");
    assert_eq!(bare.packager, None);
}

#[test]
fn rpm_payload_per_compression() {
    let mut pkg = Package::new("p", "1", Arch::Amd64, "d");
    let cases = [
        (RpmCompression::Gzip, RpmPayload::Gzip(9)),
        (RpmCompression::Xz, RpmPayload::Xz(9)),
        (RpmCompression::Zstd, RpmPayload::Zstd(19)),
        (RpmCompression::Lzma, RpmPayload::Gzip(9)),
    ];
    for (c, p) in cases {
        pkg.rpm.compression = c;
        assert!(pkg.rpm_spec().unwrap().payload == p);
        let mut buf = Vec::new();
        pkg.write_rpm(&mut buf).unwrap();
        assert_eq!(&buf[..4], &RPM_MAGIC);
    }
}

#[test]
fn rpm_full_package_builds() {
    let pkg = full_package();
    let mut buf = b"head".to_vec();
    pkg.write_rpm(&mut buf).unwrap();
    assert_eq!(&buf[..4], b"head");
    assert_eq!(&buf[4..8], &RPM_MAGIC);
    assert!(buf.len() > 200);
}

#[test]
fn rpm_mode_limits() {
    assert_eq!(mode_u16(0o644).unwrap(), 0o644);
    assert_eq!(mode_u16(0xFFFF).unwrap(), 0xFFFF);
    let err = mode_u16(0x10000).unwrap_err();
    assert_eq!(err.to_string(), "RPM error: mode 0o200000 overflows u16");
}

#[test]
fn rpm_mode_overflow_leaves_buffer() {
    let mut pkg = Package::new("m", "1", Arch::Amd64, "d");
    pkg.add_dir_with_mode("/big", 0o1000000);
    let mut buf = b"keep".to_vec();
    match pkg.write_rpm(&mut buf) {
        Err(Error::Rpm(m)) => assert_eq!(m, "mode 0o1000000 overflows u16"),
        other => panic!("unexpected result: {:?}", other),
    }
    assert_eq!(buf, b"keep");
}

#[test]
fn rpm_rejects_unparsable_dependency() {
    let mut pkg = Package::new("m", "1", Arch::Amd64, "d");
    pkg.depends.push(">=1.0".into());
    let mut buf = Vec::new();
    match pkg.write_rpm(&mut buf) {
        Err(Error::Rpm(m)) => assert_eq!(m, "relationship has no package name"),
        other => panic!("unexpected result: {:?}", other),
    }
    assert!(buf.is_empty());

    let mut pkg = Package::new("m", "1", Arch::Amd64, "d");
    pkg.conflicts.push("foo>=".into());
    match pkg.write_rpm(&mut buf) {
        Err(Error::Rpm(m)) => assert_eq!(m, "relationship has no version after operator"),
        other => panic!("unexpected result: {:?}", other),
    }
}

#[test]
fn rpm_rejects_ranged_provides() {
    let mut pkg = Package::new("m", "1", Arch::Amd64, "d");
    pkg.provides.push("bun>=1.0".into());
    let mut buf = Vec::new();
    match pkg.write_rpm(&mut buf) {
        Err(Error::Rpm(m)) => assert_eq!(m, "provides may only use '=' (no '<' or '>')"),
        other => panic!("unexpected result: {:?}", other),
    }
}

#[test]
fn rpm_rejects_non_utf8_script() {
    let mut pkg = Package::new("m", "1", Arch::Amd64, "d");
    pkg.rpm.scripts.post_trans = Some(vec![0xC3, 0x28].into());
    let mut buf = Vec::new();
    match pkg.write_rpm(&mut buf) {
        Err(Error::Io(e)) => assert_eq!(e.kind(), std::io::ErrorKind::InvalidData),
        other => panic!("unexpected result: {:?}", other),
    }
    assert!(buf.is_empty());
}

#[test]
fn rpm_dependencies_carry_operator_flags() {
    let pkg = full_package();
    let mut buf = Vec::new();
    pkg.write_rpm(&mut buf).unwrap();
    let parsed = rpm::Package::parse(&mut std::io::Cursor::new(buf)).unwrap();
    let requires = parsed.metadata.get_requires().unwrap();
    let find = |name: &str| {
        requires
            .iter()
            .find(|d| d.name == name)
            .map(|d| (d.flags.bits() & 0xE, d.version.clone()))
    };
    assert_eq!(find("a"), Some((12, "1".to_string())));
    assert_eq!(find("b"), Some((10, "2".to_string())));
    assert_eq!(find("c"), Some((4, "3".to_string())));
    assert_eq!(find("d"), Some((2, "4".to_string())));
    assert_eq!(find("e"), Some((8, "5".to_string())));
    assert_eq!(find("f"), Some((0, "".to_string())));
    let provides = parsed.metadata.get_provides().unwrap();
    assert!(provides
        .iter()
        .any(|d| d.name == "full-bin" && d.flags.bits() & 0xE == 8 && d.version == "2.0"));
    assert!(provides
        .iter()
        .any(|d| d.name == "full-virtual" && d.flags.bits() & 0xE == 0 && d.version.is_empty()));
    let conflicts = parsed.metadata.get_conflicts().unwrap();
    assert!(conflicts
        .iter()
        .any(|d| d.name == "old-full" && d.flags.bits() & 0xE == 2 && d.version == "2"));
    let obsoletes = parsed.metadata.get_obsoletes().unwrap();
    assert!(obsoletes.iter().any(|d| d.name == "older-full" && d.version.is_empty()));
}

#[test]
fn rpm_header_carries_metadata_files_and_scripts() {
    let pkg = full_package();
    let mut buf = Vec::new();
    pkg.write_rpm(&mut buf).unwrap();
    let parsed = rpm::Package::parse(&mut std::io::Cursor::new(buf)).unwrap();
    let m = &parsed.metadata;
    assert_eq!(m.get_name().unwrap(), "full");
    assert_eq!(m.get_version().unwrap(), "2.0");
    assert_eq!(m.get_release().unwrap(), "1");
    assert_eq!(m.get_epoch().unwrap(), 1);
    assert_eq!(m.get_arch().unwrap(), "aarch64");
    assert_eq!(m.get_summary().unwrap(), "First line");
    assert_eq!(m.get_description().unwrap(), "First line\nmore");
    assert_eq!(m.get_license().unwrap(), "Unknown");
    assert_eq!(m.get_packager().unwrap(), "Maint <m@example.com>");
    assert_eq!(m.get_vendor().unwrap(), "Vendor");
    assert_eq!(m.get_url().unwrap(), "https://full.example");
    assert_eq!(m.get_group().unwrap(), "Applications/System");
    assert_eq!(m.get_build_host().unwrap(), "builder");
    assert_eq!(m.get_pre_install_script().unwrap().script, "echo pre");
    assert_eq!(m.get_post_uninstall_script().unwrap().script, "echo postrm");
    assert_eq!(m.get_pre_trans_script().unwrap().script, "echo pretrans");
    assert_eq!(m.get_verify_script().unwrap().script, "echo verify");
    let files = m.get_file_entries().unwrap();
    let conf = files
        .iter()
        .find(|f| f.path() == std::path::Path::new("/etc/full.conf"))
        .unwrap();
    assert!(conf.flags().contains(rpm::FileFlags::CONFIG));
    assert!(conf.flags().contains(rpm::FileFlags::NOREPLACE));
    let bin = files
        .iter()
        .find(|f| f.path() == std::path::Path::new("/usr/bin/full"))
        .unwrap();
    assert!(!bin.flags().contains(rpm::FileFlags::CONFIG));
    assert_eq!(bin.permissions(), 0o755);
    let ghost = files
        .iter()
        .find(|f| f.path() == std::path::Path::new("/var/log/full.log"))
        .unwrap();
    assert!(ghost.flags().contains(rpm::FileFlags::GHOST));
}

#[test]
fn rpm_rejects_destination_without_file_name() {
    let mut pkg = Package::new("m", "1", Arch::Amd64, "d");
    pkg.add_dir("/usr/..");
    let mut buf = b"keep".to_vec();
    match pkg.write_rpm(&mut buf) {
        Err(Error::Rpm(m)) => assert_eq!(m, "destination path has no file name: /usr/.."),
        other => panic!("unexpected result: {:?}", other),
    }
    assert_eq!(buf, b"keep");

    let mut pkg = Package::new("m", "1", Arch::Amd64, "d");
    pkg.rpm.ghost_files.push("./.".into());
    match pkg.write_rpm(&mut buf) {
        Err(Error::Rpm(m)) => assert_eq!(m, "destination path has no file name: ./."),
        other => panic!("unexpected result: {:?}", other),
    }
}

#[test]
fn rpm_crate_refuses_duplicate_and_relative_destinations() {
    let mut pkg = Package::new("m", "1", Arch::Amd64, "d");
    pkg.add_file("/usr/bin/a", b"1".to_vec().into());
    pkg.add_file("//usr//bin/a/", b"2".to_vec().into());
    let mut buf = b"keep".to_vec();
    assert!(matches!(pkg.write_rpm(&mut buf), Err(Error::Rpm(_))));
    assert_eq!(buf, b"keep");

    let mut pkg = Package::new("m", "1", Arch::Amd64, "d");
    pkg.add_file("usr/bin/a", b"1".to_vec().into());
    assert!(matches!(pkg.write_rpm(&mut buf), Err(Error::Rpm(_))));

    let mut pkg = Package::new("m", "1", Arch::Amd64, "d");
    pkg.add_symlink("/usr/bin/l", "");
    assert!(matches!(pkg.write_rpm(&mut buf), Err(Error::Rpm(_))));
    assert_eq!(buf, b"keep");
}

#[test]
fn rpm_accepts_dot_segment_destination() {
    let mut pkg = Package::new("m", "1", Arch::Amd64, "d");
    pkg.rpm.ghost_files.push("/var/log/m/.".into());
    let mut buf = Vec::new();
    pkg.write_rpm(&mut buf).unwrap();
    let parsed = rpm::Package::parse(&mut std::io::Cursor::new(buf)).unwrap();
    let files = parsed.metadata.get_file_entries().unwrap();
    assert!(files
        .iter()
        .any(|f| f.path() == std::path::Path::new("/var/log/m")));
}

#[test]
fn rpm_destination_rules() {
    assert!(rpm_dest_has_file_name("/usr/bin/x"));
    assert!(rpm_dest_has_file_name("/usr/bin/x/"));
    assert!(rpm_dest_has_file_name("/a/.hidden"));
    assert!(rpm_dest_has_file_name("/a/...x"));
    assert!(!rpm_dest_has_file_name("/usr/.."));
    assert!(!rpm_dest_has_file_name("/usr/../"));
    assert!(rpm_dest_has_file_name("/a/."));
    assert!(!rpm_dest_has_file_name("./."));
    assert!(!rpm_dest_has_file_name("././/."));
    assert!(rpm_dest_has_file_name("./a"));
    assert!(!rpm_dest_has_file_name(".."));
}
