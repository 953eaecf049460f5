use rfpm::{Op, Relation, RelationError, VirtualPackage};

#[test]
fn parse_bare() {
    let r = Relation::parse("curl").unwrap();
    assert_eq!(r.name, "curl");
    assert!(r.constraint.is_none());
}

#[test]
fn parse_ge_not_gt() {
    let r = Relation::parse("openssl>=3.0").unwrap();
    assert_eq!(r.name, "openssl");
    let c = r.constraint.unwrap();
    assert_eq!(c.op, Op::GreaterEqual);
    assert_eq!(c.version, "3.0");
}

#[test]
fn parse_errors() {
    assert_eq!(Relation::parse(">=1.0"), Err(RelationError::EmptyName));
    assert_eq!(Relation::parse("foo>="), Err(RelationError::EmptyVersion));
}

#[test]
fn relation_render() {
    let r = Relation::parse("openssl>=3.0").unwrap();
    assert_eq!(r.to_deb(), "openssl (>= 3.0)");
    assert_eq!(r.to_pacman(), "openssl>=3.0");

    let lt = Relation::parse("python<4").unwrap();
    assert_eq!(lt.to_deb(), "python (<< 4)");
    assert_eq!(lt.to_pacman(), "python<4");

    let bare = Relation::parse("curl").unwrap();
    assert_eq!(bare.to_deb(), "curl");
    assert_eq!(bare.to_pacman(), "curl");
}

#[test]
fn provides_equal_only() {
    let v = VirtualPackage::parse("bun=1.3.11").unwrap();
    assert_eq!(v.name, "bun");
    assert_eq!(v.version.as_deref(), Some("1.3.11"));
    assert_eq!(v.to_deb(), "bun (= 1.3.11)");
    assert_eq!(v.to_pacman(), "bun=1.3.11");

    let bare = VirtualPackage::parse("bun").unwrap();
    assert_eq!(bare.to_deb(), "bun");
    assert_eq!(bare.to_pacman(), "bun");
}

#[test]
fn provides_rejects_range() {
    assert_eq!(
        VirtualPackage::parse("bun>=1.0"),
        Err(RelationError::NonEqualProvides)
    );
    assert_eq!(
        VirtualPackage::parse("bun<2"),
        Err(RelationError::NonEqualProvides)
    );
}
