use vstd::prelude::*;

verus! {

/// The archive URL template used when none is configured.
pub const DEFAULT_DIST_URL: &'static str =
    "https://releases.nixos.org/nix/nix-{version}/nix-{version}-{arch}-{os}.tar.xz";

/// User configuration of the plugin.
#[derive(Clone, Debug)]
pub struct PluginConfig {
    /// Template of the archive URL, with the tokens `{version}`, `{arch}` and `{os}`.
    pub dist_url: String,
}

impl Default for PluginConfig {
    fn default() -> (r: PluginConfig)
        ensures
            r.dist_url@ == DEFAULT_DIST_URL@,
    {
        PluginConfig { dist_url: DEFAULT_DIST_URL.to_string() }
    }
}

} // verus!
