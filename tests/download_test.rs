use std::path::Path;

use nix_plugin::config::{PluginConfig, DEFAULT_DIST_URL};
use nix_plugin::download::{download_prebuilt, TOOL_NAME};
use nix_plugin::platform::{platform_slugs, HostArch, HostOs, PlatformError};
use nix_plugin::template::replace;

#[test]
fn builds_expected_download_output() {
    let config = PluginConfig::default();
    let output = download_prebuilt(&config, "2.24.8", HostOs::MacOs, HostArch::X64).unwrap();

    assert_eq!(
        output.download_url,
        "https://releases.nixos.org/nix/nix-2.24.8/nix-2.24.8-x86_64-darwin.tar.xz"
    );
    assert_eq!(output.archive_prefix, "nix-2.24.8/nix-2.24.8-x86_64-darwin");
    assert_eq!(output.download_name, "nix-2.24.8-x86_64-darwin.tar.xz");
    assert_eq!(
        output.checksum_url,
        "https://releases.nixos.org/nix/nix-2.24.8/nix-2.24.8-x86_64-darwin.tar.xz.sha256"
    );
}

#[test]
fn creates_expected_archive_filename() {
    let config = PluginConfig::default();
    let output = download_prebuilt(&config, "2.24.8", HostOs::Linux, HostArch::Arm64).unwrap();

    assert_eq!(output.download_name, "nix-2.24.8-aarch64-linux.tar.xz");
    assert_eq!(
        Path::new(output.download_name.as_str())
            .extension()
            .and_then(|ext| ext.to_str()),
        Some("xz")
    );
}

#[test]
fn linux_arm_uses_armv7l() {
    let config = PluginConfig::default();
    let output = download_prebuilt(&config, "2.3.0", HostOs::Linux, HostArch::Arm).unwrap();
    assert_eq!(
        output.download_url,
        "https://releases.nixos.org/nix/nix-2.3.0/nix-2.3.0-armv7l-linux.tar.xz"
    );
    assert_eq!(output.archive_prefix, "nix-2.3.0/nix-2.3.0-armv7l-linux");
}

#[test]
fn every_supported_platform_renders_all_tokens() {
    let config = PluginConfig::default();
    let supported = [
        (HostOs::Linux, HostArch::X64),
        (HostOs::Linux, HostArch::Arm64),
        (HostOs::Linux, HostArch::Arm),
        (HostOs::MacOs, HostArch::X64),
        (HostOs::MacOs, HostArch::Arm64),
    ];
    for (os, arch) in supported {
        let output = download_prebuilt(&config, "2.24.8", os, arch).unwrap();
        assert!(!output.download_url.contains('{'));
        assert!(!output.download_url.contains('}'));
        assert_eq!(output.checksum_url, format!("{}.sha256", output.download_url));
    }
}

#[test]
fn windows_is_an_unsupported_os() {
    let config = PluginConfig::default();
    match download_prebuilt(&config, "2.24.8", HostOs::Windows, HostArch::X64) {
        Err(PlatformError::UnsupportedOs { tool, os }) => {
            assert_eq!(tool, TOOL_NAME);
            assert_eq!(os, HostOs::Windows);
        }
        other => panic!("unexpected result {:?}", other),
    }
}

#[test]
fn macos_on_arm_is_an_unsupported_target() {
    let config = PluginConfig::default();
    match download_prebuilt(&config, "2.24.8", HostOs::MacOs, HostArch::Arm) {
        Err(PlatformError::UnsupportedTarget { tool, os, arch }) => {
            assert_eq!(tool, "Nix");
            assert_eq!(os, HostOs::MacOs);
            assert_eq!(arch, HostArch::Arm);
        }
        other => panic!("unexpected result {:?}", other),
    }
}

#[test]
fn linux_on_x86_is_an_unsupported_target() {
    assert!(matches!(
        platform_slugs("Nix", HostOs::Linux, HostArch::X86),
        Err(PlatformError::UnsupportedTarget { .. })
    ));
    assert!(matches!(
        platform_slugs("Nix", HostOs::FreeBsd, HostArch::X64),
        Err(PlatformError::UnsupportedOs { .. })
    ));
}

#[test]
fn slugs_of_supported_platforms() {
    let (arch, os) = platform_slugs("Nix", HostOs::MacOs, HostArch::Arm64).unwrap();
    assert_eq!(arch, "aarch64");
    assert_eq!(os, "darwin");
    let (arch, os) = platform_slugs("Nix", HostOs::Linux, HostArch::X64).unwrap();
    assert_eq!(arch, "x86_64");
    assert_eq!(os, "linux");
}

#[test]
fn custom_template_is_rendered_textually() {
    let config = PluginConfig {
        dist_url: "https://mirror/{os}/{arch}/{version}/{version}/{unknown}/{os".to_string(),
    };
    let output = download_prebuilt(&config, "2.24.8", HostOs::Linux, HostArch::X64).unwrap();
    assert_eq!(
        output.download_url,
        "https://mirror/linux/x86_64/2.24.8/2.24.8/{unknown}/{os"
    );
    assert_eq!(output.download_name, "nix-2.24.8-x86_64-linux.tar.xz");
    assert_eq!(output.archive_prefix, "nix-2.24.8/nix-2.24.8-x86_64-linux");
}

#[test]
fn template_without_tokens_is_kept() {
    let config = PluginConfig {
        dist_url: "https://example.org/nix.tar.xz".to_string(),
    };
    let output = download_prebuilt(&config, "2.24.8", HostOs::MacOs, HostArch::X64).unwrap();
    assert_eq!(output.download_url, "https://example.org/nix.tar.xz");
    assert_eq!(output.checksum_url, "https://example.org/nix.tar.xz.sha256");
}

#[test]
fn default_config_holds_the_release_template() {
    let config = PluginConfig::default();
    assert_eq!(config.dist_url, DEFAULT_DIST_URL);
    assert_eq!(
        config.dist_url,
        "https://releases.nixos.org/nix/nix-{version}/nix-{version}-{arch}-{os}.tar.xz"
    );
}

#[test]
fn replace_scans_left_to_right() {
    assert_eq!(replace("aaaa", "aa", "b"), "bb");
    assert_eq!(replace("aaa", "aa", "b"), "ba");
    assert_eq!(replace("", "{os}", "linux"), "");
    assert_eq!(replace("{os}{os}", "{os}", "linux"), "linuxlinux");
    assert_eq!(replace("é{os}ü", "{os}", "darwin"), "édarwinü");
    assert_eq!(replace("{{os}}", "{os}", "x"), "{x}");
}
