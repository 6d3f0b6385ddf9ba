//! Target descriptors and the dispatch that picks a code generator and an
//! output container for one.

use vstd::prelude::*;
use crate::errors::BuildError;
use crate::objfile::ArchKind;

verus! {

/// Architecture field of a target descriptor. Only the architectures the
/// backend can serve are distinguished; everything else is `OtherArch`.
#[derive(Clone, Copy, PartialEq, Eq, Structural, Debug)]
pub enum ArchDesc {
    X86_64,
    Aarch64,
    OtherArch,
}

/// Operating-system field of a target descriptor. Only the systems a link
/// recipe exists for are distinguished.
#[derive(Clone, Copy, PartialEq, Eq, Structural, Debug)]
pub enum OsDesc {
    Linux,
    Darwin,
    OtherOs,
}

/// Binary-format field of a target descriptor.
#[derive(Clone, Copy, PartialEq, Eq, Structural, Debug)]
pub enum FormatDesc {
    Elf,
    Macho,
    Coff,
    OtherFormat,
}

/// A target descriptor: architecture, operating system and binary format.
/// Supplied once per compilation; every dispatch decision reads it and
/// nothing else.
#[derive(Clone, Copy, PartialEq, Eq, Structural, Debug)]
pub struct TargetTriple {
    pub arch: ArchDesc,
    pub os: OsDesc,
    pub format: FormatDesc,
}

/// Which code generator serves a target. The generators themselves are
/// external collaborators; the descriptor records which one is meant.
#[derive(Clone, Copy, PartialEq, Eq, Structural, Debug)]
pub enum BackendKind {
    X86_64SystemV,
    Aarch64Call,
}

/// Output container format chosen for a supported target.
#[derive(Clone, Copy, PartialEq, Eq, Structural, Debug)]
pub enum ObjFormat {
    Elf,
}

/// Byte order chosen for a supported target.
#[derive(Clone, Copy, PartialEq, Eq, Structural, Debug)]
pub enum Endian {
    Little,
}

/// What the dispatcher hands back for a supported target: the code
/// generator to run and the container format and endianness to emit.
#[derive(Clone, Copy, PartialEq, Eq, Structural, Debug)]
pub struct BackendSpec {
    pub backend: BackendKind,
    pub arch: ArchKind,
    pub format: ObjFormat,
    pub endian: Endian,
}

/// The closed matrix of targets objects can be built for:
/// {x86-64, aarch64} crossed with {ELF}.
pub open spec fn target_supported(t: TargetTriple) -> bool {
    (t.arch == ArchDesc::X86_64 || t.arch == ArchDesc::Aarch64) && t.format == FormatDesc::Elf
}

/// Maps a target descriptor to a backend and container choice, or reports
/// the descriptor as unsupported. There is no fallback: exactly the closed
/// supported matrix is accepted.
pub fn dispatch_target(t: &TargetTriple) -> (r: Result<BackendSpec, BuildError>)
    ensures
        r is Ok <==> target_supported(*t),
        target_supported(*t) ==> r == Ok::<BackendSpec, BuildError>(
            (BackendSpec {
                backend: if t.arch == ArchDesc::X86_64 {
                    BackendKind::X86_64SystemV
                } else {
                    BackendKind::Aarch64Call
                },
                arch: if t.arch == ArchDesc::X86_64 {
                    ArchKind::X86_64
                } else {
                    ArchKind::Aarch64
                },
                format: ObjFormat::Elf,
                endian: Endian::Little,
            }),
        ),
        !target_supported(*t) ==> r == Err::<BackendSpec, BuildError>(
            (BuildError::UnsupportedTarget { target: *t }),
        ),
{
    match (t.arch, t.format) {
        (ArchDesc::X86_64, FormatDesc::Elf) => Ok(BackendSpec {
            backend: BackendKind::X86_64SystemV,
            arch: ArchKind::X86_64,
            format: ObjFormat::Elf,
            endian: Endian::Little,
        }),
        (ArchDesc::Aarch64, FormatDesc::Elf) => Ok(BackendSpec {
            backend: BackendKind::Aarch64Call,
            arch: ArchKind::Aarch64,
            format: ObjFormat::Elf,
            endian: Endian::Little,
        }),
        _ => Err(BuildError::UnsupportedTarget { target: *t }),
    }
}

/// The hyphenated architecture name the Linux link recipe passes to the
/// linker's architecture flag.
pub open spec fn spec_arch_name(a: ArchDesc) -> Seq<char> {
    if a == ArchDesc::X86_64 {
        "x86-64"@
    } else if a == ArchDesc::Aarch64 {
        "aarch64"@
    } else {
        "unsupported-architecture"@
    }
}

/// The architecture's name as it stands in a target triple; the form the
/// macOS link recipe passes to the linker's architecture flag.
pub open spec fn spec_arch_triple_name(a: ArchDesc) -> Seq<char> {
    if a == ArchDesc::X86_64 {
        "x86_64"@
    } else if a == ArchDesc::Aarch64 {
        "aarch64"@
    } else {
        "unsupported-architecture"@
    }
}

impl ArchDesc {
    /// The hyphenated name the Linux link recipe uses.
    pub fn name(&self) -> (r: &'static str)
        ensures
            r@ == spec_arch_name(*self),
    {
        match self {
            ArchDesc::X86_64 => "x86-64",
            ArchDesc::Aarch64 => "aarch64",
            ArchDesc::OtherArch => "unsupported-architecture",
        }
    }

    /// The target-triple name the macOS link recipe uses.
    pub fn triple_name(&self) -> (r: &'static str)
        ensures
            r@ == spec_arch_triple_name(*self),
    {
        match self {
            ArchDesc::X86_64 => "x86_64",
            ArchDesc::Aarch64 => "aarch64",
            ArchDesc::OtherArch => "unsupported-architecture",
        }
    }
}

impl OsDesc {
    /// The name of the operating system, for reporting.
    pub fn name(&self) -> (r: &'static str)
        ensures
            *self == OsDesc::Linux ==> r@ == "linux"@,
            *self == OsDesc::Darwin ==> r@ == "darwin"@,
    {
        match self {
            OsDesc::Linux => "linux",
            OsDesc::Darwin => "darwin",
            OsDesc::OtherOs => "unsupported-os",
        }
    }
}

impl FormatDesc {
    /// The name of the binary format, for reporting.
    pub fn name(&self) -> (r: &'static str)
        ensures
            *self == FormatDesc::Elf ==> r@ == "elf"@,
    {
        match self {
            FormatDesc::Elf => "elf",
            FormatDesc::Macho => "macho",
            FormatDesc::Coff => "coff",
            FormatDesc::OtherFormat => "unsupported-format",
        }
    }
}

} // verus!
