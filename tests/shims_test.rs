use nix_plugin::tool::locate_executables;

#[test]
fn maps_executable_to_nix_binary() {
    let exes = locate_executables();

    let nix = exes.iter().find(|exe| exe.name == "nix").unwrap();

    assert_eq!(nix.exe_path, "bin/nix");
    assert!(nix.primary);
    assert!(!exes.iter().any(|exe| exe.name == "Nix"));
    assert_eq!(exes.len(), 1);
}
