use vstd::prelude::*;

verus! {

/// Operating systems that a host can report.
#[derive(Clone, Copy, Debug, PartialEq, Eq, Structural)]
pub enum HostOs {
    Android,
    Dragonfly,
    FreeBsd,
    Ios,
    Linux,
    MacOs,
    NetBsd,
    OpenBsd,
    Solaris,
    Windows,
}

/// CPU architectures that a host can report.
#[derive(Clone, Copy, Debug, PartialEq, Eq, Structural)]
pub enum HostArch {
    X86,
    X64,
    Arm,
    Arm64,
    LongArm64,
    M68k,
    Mips,
    Mips64,
    Powerpc,
    Powerpc64,
    Riscv64,
    S390x,
    Sparc64,
}

/// The operating systems for which some archive is published.
pub open spec fn os_supported(os: HostOs) -> bool {
    os == HostOs::Linux || os == HostOs::MacOs
}

/// The published combinations: Linux on x64, arm64 and arm; macOS on x64 and arm64.
pub open spec fn platform_supported(os: HostOs, arch: HostArch) -> bool {
    ||| os == HostOs::Linux && (arch == HostArch::X64 || arch == HostArch::Arm64 || arch
        == HostArch::Arm)
    ||| os == HostOs::MacOs && (arch == HostArch::X64 || arch == HostArch::Arm64)
}

/// The architecture's name in archive file names.
pub open spec fn arch_slug(arch: HostArch) -> Seq<char> {
    match arch {
        HostArch::X64 => "x86_64"@,
        HostArch::Arm64 => "aarch64"@,
        _ => "armv7l"@,
    }
}

/// The operating system's name in archive file names.
pub open spec fn os_slug(os: HostOs) -> Seq<char> {
    match os {
        HostOs::Linux => "linux"@,
        _ => "darwin"@,
    }
}

/// Why no archive exists for a host.
#[derive(Clone, Debug)]
pub enum PlatformError {
    /// No archive is published for this operating system at all.
    UnsupportedOs { tool: String, os: HostOs },
    /// The operating system is served, but not on this architecture.
    UnsupportedTarget { tool: String, os: HostOs, arch: HostArch },
}

/// The error that `platform_slugs` reports for an unsupported host.
pub open spec fn platform_error_for(
    tool: Seq<char>,
    os: HostOs,
    arch: HostArch,
    e: PlatformError,
) -> bool {
    if os_supported(os) {
        e matches PlatformError::UnsupportedTarget { tool: t, os: o, arch: a } && t@ == tool && o
            == os && a == arch
    } else {
        e matches PlatformError::UnsupportedOs { tool: t, os: o } && t@ == tool && o == os
    }
}

/// Checks that archives are published for the host and returns the
/// architecture and operating system names used in their file names.
pub fn platform_slugs(tool: &str, os: HostOs, arch: HostArch) -> (r: Result<
    (String, String),
    PlatformError,
>)
    ensures
        r is Ok <==> platform_supported(os, arch),
        r matches Ok(slugs) ==> slugs.0@ == arch_slug(arch) && slugs.1@ == os_slug(os),
        r matches Err(e) ==> platform_error_for(tool@, os, arch, e),
{
    let arch_ok = match os {
        HostOs::Linux => match arch {
            HostArch::X64 | HostArch::Arm64 | HostArch::Arm => true,
            _ => false,
        },
        HostOs::MacOs => match arch {
            HostArch::X64 | HostArch::Arm64 => true,
            _ => false,
        },
        _ => {
            return Err(PlatformError::UnsupportedOs { tool: tool.to_string(), os });
        },
    };
    if !arch_ok {
        return Err(PlatformError::UnsupportedTarget { tool: tool.to_string(), os, arch });
    }
    let arch_name = match arch {
        HostArch::X64 => "x86_64".to_string(),
        HostArch::Arm64 => "aarch64".to_string(),
        _ => "armv7l".to_string(),
    };
    let os_name = match os {
        HostOs::Linux => "linux".to_string(),
        _ => "darwin".to_string(),
    };
    Ok((arch_name, os_name))
}

} // verus!
