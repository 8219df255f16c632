use vstd::prelude::*;

use crate::download::TOOL_NAME;

verus! {

/// The identifier under which the tool's executable is registered.
pub const TOOL_ID: &'static str = "nix";

/// Where the executable lies inside the extracted archive.
pub const EXE_PATH: &'static str = "bin/nix";

/// A version of the host application.
#[derive(Clone, Copy, Debug, PartialEq, Eq, Structural)]
pub struct HostVersion {
    pub major: u32,
    pub minor: u32,
    pub patch: u32,
}

/// What kind of tool a plugin manages.
#[derive(Clone, Copy, Debug, PartialEq, Eq, Structural)]
pub enum PluginType {
    CommandLine,
    Language,
    DependencyManager,
    VersionManager,
}

/// How the host installs the tool unless told otherwise.
#[derive(Clone, Copy, Debug, PartialEq, Eq, Structural)]
pub enum InstallStrategy {
    BuildFromSource,
    DownloadPrebuilt,
}

/// What the plugin declares about the tool when it is registered.
#[derive(Clone, Debug)]
pub struct ToolMetadata {
    pub name: String,
    pub type_of: PluginType,
    pub default_install_strategy: InstallStrategy,
    /// The oldest host version that can load the plugin.
    pub minimum_host_version: HostVersion,
}

/// One executable of the tool, as the host registers it.
#[derive(Clone, Debug)]
pub struct ExecutableEntry {
    /// The key under which the host registers the executable.
    pub name: String,
    /// Its path, relative to the extracted archive.
    pub exe_path: String,
    /// Whether it is the tool's main executable.
    pub primary: bool,
}

/// The tool's metadata: a dependency manager named `Nix`, installed from
/// prebuilt archives, that needs a host of version 0.46.0 or later.
pub fn register_tool() -> (r: ToolMetadata)
    ensures
        r.name@ == TOOL_NAME@,
        r.type_of == PluginType::DependencyManager,
        r.default_install_strategy == InstallStrategy::DownloadPrebuilt,
        r.minimum_host_version == (HostVersion { major: 0, minor: 46, patch: 0 }),
{
    ToolMetadata {
        name: TOOL_NAME.to_string(),
        type_of: PluginType::DependencyManager,
        default_install_strategy: InstallStrategy::DownloadPrebuilt,
        minimum_host_version: HostVersion { major: 0, minor: 46, patch: 0 },
    }
}

/// The tool's executables: only `bin/nix`, primary, under the key `nix`.
pub fn locate_executables() -> (r: Vec<ExecutableEntry>)
    ensures
        r@.len() == 1,
        r@[0].name@ == TOOL_ID@,
        r@[0].exe_path@ == EXE_PATH@,
        r@[0].primary,
{
    let mut exes: Vec<ExecutableEntry> = Vec::new();
    exes.push(
        ExecutableEntry { name: TOOL_ID.to_string(), exe_path: EXE_PATH.to_string(), primary: true },
    );
    exes
}

} // verus!
