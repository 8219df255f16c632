use vstd::prelude::*;

use crate::config::PluginConfig;
use crate::platform::{
    arch_slug, os_slug, platform_error_for, platform_slugs, platform_supported, HostArch, HostOs,
    PlatformError,
};
use crate::template::{
    brace_free, contains, lemma_no_token_after_replace, occurs_at, replace, replace_all, token,
};

verus! {

/// The name under which the tool is known to the host.
pub const TOOL_NAME: &'static str = "Nix";

/// Where and under which names the archive of one release can be fetched.
#[derive(Clone, Debug)]
pub struct DownloadDescriptor {
    pub download_url: String,
    pub archive_prefix: String,
    pub download_name: String,
    pub checksum_url: String,
}

/// The template with `{version}`, then `{arch}`, then `{os}` replaced.
pub open spec fn render_url(
    template: Seq<char>,
    version: Seq<char>,
    arch: Seq<char>,
    os: Seq<char>,
) -> Seq<char> {
    replace_all(
        replace_all(replace_all(template, "{version}"@, version), "{arch}"@, arch),
        "{os}"@,
        os,
    )
}

/// `nix-<version>/nix-<version>-<arch>-<os>`: the top directory inside the archive.
pub open spec fn archive_prefix_of(version: Seq<char>, arch: Seq<char>, os: Seq<char>) -> Seq<
    char,
> {
    "nix-"@ + version + "/nix-"@ + version + "-"@ + arch + "-"@ + os
}

/// `nix-<version>-<arch>-<os>.tar.xz`: the archive's file name.
pub open spec fn archive_name_of(version: Seq<char>, arch: Seq<char>, os: Seq<char>) -> Seq<
    char,
> {
    "nix-"@ + version + "-"@ + arch + "-"@ + os + ".tar.xz"@
}

/// The descriptor of the archive for `version` on the host `(os, arch)`.
pub open spec fn descriptor_for(
    template: Seq<char>,
    version: Seq<char>,
    os: HostOs,
    arch: HostArch,
    d: DownloadDescriptor,
) -> bool {
    let url = render_url(template, version, arch_slug(arch), os_slug(os));
    &&& d.download_url@ == url
    &&& d.archive_prefix@ == archive_prefix_of(version, arch_slug(arch), os_slug(os))
    &&& d.download_name@ == archive_name_of(version, arch_slug(arch), os_slug(os))
    &&& d.checksum_url@ == url + ".sha256"@
}

/// `text` is not found in `s` when its first character is missing from `s`.
proof fn lemma_first_char_missing(s: Seq<char>, text: Seq<char>)
    requires
        text.len() > 0,
        forall|i: int| 0 <= i < s.len() ==> s[i] != text[0],
    ensures
        !contains(s, text),
{
    assert forall|i: int| !occurs_at(s, text, i) by {
        if occurs_at(s, text, i) {
            assert(s.subrange(i, i + text.len())[0] == text[0]);
        }
    }
}

/// `text` is not found in `s` when it is longer.
proof fn lemma_longer_missing(s: Seq<char>, text: Seq<char>)
    requires
        text.len() > s.len(),
    ensures
        !contains(s, text),
{
}

/// On a supported host, and for a version text that holds no brace and starts
/// with a digit (as every release does), the rendered archive URL holds none
/// of the placeholders `{version}`, `{arch}` and `{os}`, whatever the template.
pub proof fn lemma_rendered_url_has_no_placeholders(
    template: Seq<char>,
    version: Seq<char>,
    os: HostOs,
    arch: HostArch,
)
    requires
        platform_supported(os, arch),
        brace_free(version),
        version.len() > 0,
        '0' <= version[0] <= '9',
    ensures
        !contains(render_url(template, version, arch_slug(arch), os_slug(os)), "{version}"@),
        !contains(render_url(template, version, arch_slug(arch), os_slug(os)), "{arch}"@),
        !contains(render_url(template, version, arch_slug(arch), os_slug(os)), "{os}"@),
{
    reveal_strlit("{version}");
    reveal_strlit("{arch}");
    reveal_strlit("{os}");
    reveal_strlit("version");
    reveal_strlit("arch");
    reveal_strlit("os");
    reveal_strlit("x86_64");
    reveal_strlit("aarch64");
    reveal_strlit("armv7l");
    reveal_strlit("linux");
    reveal_strlit("darwin");
    let a = arch_slug(arch);
    let o = os_slug(os);
    assert(token("version"@) =~= "{version}"@);
    assert(token("arch"@) =~= "{arch}"@);
    assert(token("os"@) =~= "{os}"@);
    assert(brace_free(a));
    assert(brace_free(o));
    let step1 = replace_all(template, "{version}"@, version);
    let step2 = replace_all(step1, "{arch}"@, a);
    lemma_first_char_missing("version"@, version);
    lemma_no_token_after_replace(template, "{version}"@, version, "version"@);
    lemma_longer_missing("arch"@, a);
    lemma_first_char_missing("version"@, a);
    lemma_no_token_after_replace(step1, "{arch}"@, a, "arch"@);
    lemma_no_token_after_replace(step1, "{arch}"@, a, "version"@);
    lemma_longer_missing("os"@, o);
    lemma_longer_missing("arch"@, o);
    lemma_first_char_missing("version"@, o);
    lemma_no_token_after_replace(step2, "{os}"@, o, "os"@);
    lemma_no_token_after_replace(step2, "{os}"@, o, "arch"@);
    lemma_no_token_after_replace(step2, "{os}"@, o, "version"@);
}

/// Locates the archive of `version` (its canonical text) for the host `(os, arch)`.
pub fn download_prebuilt(config: &PluginConfig, version: &str, os: HostOs, arch: HostArch) -> (r:
    Result<DownloadDescriptor, PlatformError>)
    ensures
        r is Ok <==> platform_supported(os, arch),
        r matches Ok(d) ==> descriptor_for(config.dist_url@, version@, os, arch, d),
        r matches Err(e) ==> platform_error_for(TOOL_NAME@, os, arch, e),
{
    let (arch_name, os_name) = match platform_slugs(TOOL_NAME, os, arch) {
        Ok(slugs) => slugs,
        Err(e) => {
            return Err(e);
        },
    };
    proof {
        reveal_strlit("{version}");
        reveal_strlit("{arch}");
        reveal_strlit("{os}");
    }
    let step = replace(config.dist_url.as_str(), "{version}", version);
    let step = replace(step.as_str(), "{arch}", arch_name.as_str());
    let download_url = replace(step.as_str(), "{os}", os_name.as_str());

    let mut archive_prefix = "nix-".to_string();
    archive_prefix.append(version);
    archive_prefix.append("/nix-");
    archive_prefix.append(version);
    archive_prefix.append("-");
    archive_prefix.append(arch_name.as_str());
    archive_prefix.append("-");
    archive_prefix.append(os_name.as_str());

    let mut download_name = "nix-".to_string();
    download_name.append(version);
    download_name.append("-");
    download_name.append(arch_name.as_str());
    download_name.append("-");
    download_name.append(os_name.as_str());
    download_name.append(".tar.xz");

    let mut checksum_url = download_url.clone();
    checksum_url.append(".sha256");

    Ok(DownloadDescriptor { download_url, archive_prefix, download_name, checksum_url })
}

} // verus!
