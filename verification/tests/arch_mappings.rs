use rfpm::Arch;

#[test]
fn amd64_mappings() {
    assert_eq!(Arch::Amd64.to_deb(), "amd64");
    assert_eq!(Arch::Amd64.to_rpm(), "x86_64");
    assert_eq!(Arch::Amd64.to_arch_linux(), "x86_64");
}

#[test]
fn arm64_mappings() {
    assert_eq!(Arch::Arm64.to_deb(), "arm64");
    assert_eq!(Arch::Arm64.to_rpm(), "aarch64");
    assert_eq!(Arch::Arm64.to_arch_linux(), "aarch64");
}

#[test]
fn i386_mappings() {
    assert_eq!(Arch::I386.to_deb(), "i386");
    assert_eq!(Arch::I386.to_rpm(), "i386");
    assert_eq!(Arch::I386.to_arch_linux(), "i686");
}

#[test]
fn armhf_mappings() {
    assert_eq!(Arch::Armhf.to_deb(), "armhf");
    assert_eq!(Arch::Armhf.to_rpm(), "armv7hl");
    assert_eq!(Arch::Armhf.to_arch_linux(), "armv7h");
}

#[test]
fn armel_mappings() {
    assert_eq!(Arch::Armel.to_deb(), "armel");
    assert_eq!(Arch::Armel.to_rpm(), "armv5tel");
    assert_eq!(Arch::Armel.to_arch_linux(), "arm");
}

#[test]
fn all_mappings() {
    assert_eq!(Arch::All.to_deb(), "all");
    assert_eq!(Arch::All.to_rpm(), "noarch");
    assert_eq!(Arch::All.to_arch_linux(), "any");
}
