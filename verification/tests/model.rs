use rfpm::content::ContentData;
use rfpm::fields::FieldMap;
use rfpm::relation::VirtualPackage as Virtual;
use rfpm::{
    Arch, Content, DebCompression, EntryKind, Error, FileOptions, Op, Package, Relation,
    RelationError, RpmCompression,
};

#[test]
fn new_package_defaults() {
    let pkg = Package::new("n", "0.1", Arch::Armhf, "desc");
    assert_eq!(pkg.name, "n");
    assert_eq!(pkg.version, "0.1");
    assert_eq!(pkg.release, "1");
    assert_eq!(pkg.epoch, None);
    assert_eq!(pkg.arch, Arch::Armhf);
    assert_eq!(pkg.description, "desc");
    assert!(pkg.homepage.is_none() && pkg.license.is_none());
    assert!(pkg.maintainer.is_none() && pkg.vendor.is_none());
    assert!(pkg.depends.is_empty() && pkg.provides.is_empty());
    assert!(pkg.entries.is_empty());
    assert!(pkg.scripts.pre_install.is_none());
    assert_eq!(pkg.deb.priority, "optional");
    assert!(pkg.deb.compression == DebCompression::Gzip);
    assert_eq!(pkg.deb.fields.len(), 0);
    assert!(pkg.rpm.compression == RpmCompression::Gzip);
    assert!(pkg.rpm.ghost_files.is_empty());
    assert!(pkg.arch_linux.pkgbase.is_none());
}

#[test]
fn add_entries_defaults() {
    let mut pkg = Package::new("n", "0.1", Arch::Amd64, "desc");
    pkg.add_file("/f", b"1".to_vec().into());
    pkg.add_config("/c", b"2".to_vec().into());
    pkg.add_dir("/d");
    pkg.add_dir_with_mode("/e", 0o700);
    pkg.add_symlink("/l", "/f");
    pkg.add_file_with(
        "/g",
        b"3".to_vec().into(),
        FileOptions {
            mode: 0o600,
            owner: "u".into(),
            group: "g".into(),
        },
    );
    let modes: Vec<u32> = pkg.entries.iter().map(|e| e.mode).collect();
    assert_eq!(modes, vec![0o644, 0o644, 0o755, 0o700, 0o777, 0o600]);
    let dests: Vec<&str> = pkg.entries.iter().map(|e| e.dest.as_str()).collect();
    assert_eq!(dests, vec!["/f", "/c", "/d", "/e", "/l", "/g"]);
    assert_eq!(pkg.entries[0].owner, "root");
    assert_eq!(pkg.entries[5].owner, "u");
    assert_eq!(pkg.entries[5].group, "g");
    match &pkg.entries[1].kind {
        EntryKind::File { source, is_config } => {
            assert!(*is_config);
            assert_eq!(source.read_all(), b"2");
        }
        _ => panic!("file expected"),
    }
    match &pkg.entries[0].kind {
        EntryKind::File { is_config, .. } => assert!(!*is_config),
        _ => panic!("file expected"),
    }
    assert!(matches!(pkg.entries[2].kind, EntryKind::Directory));
    match &pkg.entries[4].kind {
        EntryKind::Symlink { target } => assert_eq!(target, "/f"),
        _ => panic!("symlink expected"),
    }
}

#[test]
fn file_options_default() {
    let o = FileOptions::default();
    assert_eq!(o.mode, 0o644);
    assert_eq!(o.owner, "root");
    assert_eq!(o.group, "root");
}

#[test]
fn filenames_use_release_and_arch() {
    let mut pkg = Package::new("x", "9", Arch::Armel, "d");
    pkg.release = "2".into();
    assert_eq!(pkg.deb_filename(), "x_9-2_armel.deb");
    assert_eq!(pkg.rpm_filename(), "x-9-2.armv5tel.rpm");
    assert_eq!(pkg.arch_filename(), "x-9-2-arm.pkg.tar.zst");
    let pkg = Package::new("y", "1", Arch::I386, "d");
    assert_eq!(pkg.arch_filename(), "y-1-1-i686.pkg.tar.zst");
}

#[test]
fn error_messages() {
    assert_eq!(
        Error::InvalidName("x y".into()).to_string(),
        "invalid package name: x y"
    );
    assert_eq!(
        Error::MissingField("name").to_string(),
        "missing required field: name"
    );
    assert_eq!(Error::Rpm("boom".into()).to_string(), "RPM error: boom");
    let io = std::io::Error::new(std::io::ErrorKind::Other, "disk full");
    assert_eq!(Error::Io(io).to_string(), "I/O error: disk full");
    let from: Error = std::io::Error::new(std::io::ErrorKind::NotFound, "gone").into();
    assert!(matches!(from, Error::Io(_)));
}

#[test]
fn relation_operators_and_whitespace() {
    let r = Relation::parse("  foo  >=  1.0  ").unwrap();
    assert_eq!(r.name, "foo");
    let c = r.constraint.unwrap();
    assert_eq!(c.op, Op::GreaterEqual);
    assert_eq!(c.version, "1.0");
    let cases = [
        ("a<=1", Op::LessEqual, "a (<= 1)"),
        ("b>2", Op::Greater, "b (>> 2)"),
        ("c=3", Op::Equal, "c (= 3)"),
        ("d<4", Op::Less, "d (<< 4)"),
        ("e>=5", Op::GreaterEqual, "e (>= 5)"),
    ];
    for (text, op, deb) in cases {
        let r = Relation::parse(text).unwrap();
        assert_eq!(r.constraint.as_ref().unwrap().op, op);
        assert_eq!(r.to_deb(), deb);
        assert_eq!(r.to_pacman(), text);
    }
}

#[test]
fn relation_pacman_roundtrip() {
    for text in ["openssl>=3.0", "python<4", "a<=1", "b>2", "c=3", "curl"] {
        let r = Relation::parse(text).unwrap();
        assert_eq!(Relation::parse(&r.to_pacman()).unwrap(), r);
    }
    for text in ["bun=1.3.11", "bun"] {
        let v = Virtual::parse(text).unwrap();
        assert_eq!(Virtual::parse(&v.to_pacman()).unwrap(), v);
    }
}

#[test]
fn relation_error_cases() {
    assert_eq!(Relation::parse(""), Err(RelationError::EmptyName));
    assert_eq!(Relation::parse("   "), Err(RelationError::EmptyName));
    assert_eq!(Relation::parse("foo= "), Err(RelationError::EmptyVersion));
    assert_eq!(Virtual::parse("=1"), Err(RelationError::EmptyName));
    assert_eq!(Virtual::parse("bun="), Err(RelationError::EmptyVersion));
    assert_eq!(Virtual::parse(""), Err(RelationError::EmptyName));
    assert_eq!(Virtual::parse("bun>1"), Err(RelationError::NonEqualProvides));
    assert_eq!(
        RelationError::EmptyName.to_string(),
        "relationship has no package name"
    );
    assert_eq!(
        RelationError::EmptyVersion.to_string(),
        "relationship has no version after operator"
    );
    assert_eq!(
        RelationError::NonEqualProvides.to_string(),
        "provides may only use '=' (no '<' or '>')"
    );
}

#[test]
fn op_spellings() {
    assert_eq!(Op::Less.as_deb(), "<<");
    assert_eq!(Op::LessEqual.as_deb(), "<=");
    assert_eq!(Op::Equal.as_deb(), "=");
    assert_eq!(Op::GreaterEqual.as_deb(), ">=");
    assert_eq!(Op::Greater.as_deb(), ">>");
    assert_eq!(Op::Less.as_pacman(), "<");
    assert_eq!(Op::LessEqual.as_pacman(), "<=");
    assert_eq!(Op::Equal.as_pacman(), "=");
    assert_eq!(Op::GreaterEqual.as_pacman(), ">=");
    assert_eq!(Op::Greater.as_pacman(), ">");
}

#[test]
fn field_map_insert_and_get() {
    let mut m = FieldMap::new();
    assert_eq!(m.len(), 0);
    assert_eq!(m.insert("A".into(), "1".into()), None);
    assert_eq!(m.insert("B".into(), "2".into()), None);
    assert_eq!(m.insert("A".into(), "3".into()), Some("1".to_string()));
    assert_eq!(m.len(), 2);
    assert_eq!(m.get("A").map(|s| s.as_str()), Some("3"));
    assert_eq!(m.get("B").map(|s| s.as_str()), Some("2"));
    assert_eq!(m.get("C"), None);
    let (k, v) = m.get_index(0);
    assert_eq!((k.as_str(), v.as_str()), ("A", "3"));
}

#[test]
fn content_kinds() {
    let c = Content::new(vec![1, 2]);
    assert!(matches!(c.data, ContentData::Bytes(_)));
    let t: Content = "x".to_string().into();
    assert!(matches!(t.data, ContentData::Text(_)));
    assert_eq!(t.read_all(), b"x");
}

#[test]
fn provides_parse_as_equal_relations() {
    let v = Virtual::parse("bun=1.3.11").unwrap();
    let r = Relation::parse("bun=1.3.11").unwrap();
    assert_eq!(r.name, v.name);
    assert_eq!(r.constraint.as_ref().unwrap().op, Op::Equal);
    assert_eq!(Some(r.constraint.unwrap().version), v.version);
    assert!(Relation::parse("bun>=1").is_ok());
    assert_eq!(Virtual::parse("bun>=1"), Err(RelationError::NonEqualProvides));
}
