//! Target architecture enum with per-format name mapping.
use vstd::prelude::*;

verus! {

/// Target CPU architecture for the package.
///
/// Each variant maps to the architecture string that each package
/// format (deb, rpm, Arch Linux) uses for it.
#[derive(Debug, Clone, Copy, PartialEq, Eq, Hash, Structural)]
pub enum Arch {
    /// x86_64 / amd64
    Amd64,
    /// 64-bit ARM
    Arm64,
    /// 32-bit x86
    I386,
    /// 32-bit ARM hard-float (ARMv7)
    Armhf,
    /// 32-bit ARM soft-float (ARMv5)
    Armel,
    /// Architecture-independent
    All,
}

/// The Debian name of an architecture.
pub open spec fn deb_arch_name(a: Arch) -> Seq<char> {
    match a {
        Arch::Amd64 => "amd64"@,
        Arch::Arm64 => "arm64"@,
        Arch::I386 => "i386"@,
        Arch::Armhf => "armhf"@,
        Arch::Armel => "armel"@,
        Arch::All => "all"@,
    }
}

/// The RPM name of an architecture.
pub open spec fn rpm_arch_name(a: Arch) -> Seq<char> {
    match a {
        Arch::Amd64 => "x86_64"@,
        Arch::Arm64 => "aarch64"@,
        Arch::I386 => "i386"@,
        Arch::Armhf => "armv7hl"@,
        Arch::Armel => "armv5tel"@,
        Arch::All => "noarch"@,
    }
}

/// The Arch Linux name of an architecture.
pub open spec fn pacman_arch_name(a: Arch) -> Seq<char> {
    match a {
        Arch::Amd64 => "x86_64"@,
        Arch::Arm64 => "aarch64"@,
        Arch::I386 => "i686"@,
        Arch::Armhf => "armv7h"@,
        Arch::Armel => "arm"@,
        Arch::All => "any"@,
    }
}

impl Arch {
    /// Architecture string for Debian packages.
    pub fn to_deb(&self) -> (res: &'static str)
        ensures
            res@ == deb_arch_name(*self),
    {
        match self {
            Arch::Amd64 => "amd64",
            Arch::Arm64 => "arm64",
            Arch::I386 => "i386",
            Arch::Armhf => "armhf",
            Arch::Armel => "armel",
            Arch::All => "all",
        }
    }

    /// Architecture string for RPM packages.
    pub fn to_rpm(&self) -> (res: &'static str)
        ensures
            res@ == rpm_arch_name(*self),
    {
        match self {
            Arch::Amd64 => "x86_64",
            Arch::Arm64 => "aarch64",
            Arch::I386 => "i386",
            Arch::Armhf => "armv7hl",
            Arch::Armel => "armv5tel",
            Arch::All => "noarch",
        }
    }

    /// Architecture string for Arch Linux packages.
    pub fn to_arch_linux(&self) -> (res: &'static str)
        ensures
            res@ == pacman_arch_name(*self),
    {
        match self {
            Arch::Amd64 => "x86_64",
            Arch::Arm64 => "aarch64",
            Arch::I386 => "i686",
            Arch::Armhf => "armv7h",
            Arch::Armel => "arm",
            Arch::All => "any",
        }
    }
}

} // verus!
