use boa::install::{
    brew_aoe_path_from_listing, brew_formula_lag_message, brew_update_step, cargo_refusal_message,
    classify_path_prefix, classify_with_brew, default_release_base, extracted_binary_name,
    format_prompt_block, install_method_supports_target, nix_refusal_message,
    paths_canonicalize_equal, platform_string_for, release_tarball_url, unknown_refusal_message,
    update_plan, version_output_matches, BrewAction, BrewEvent, BrewStage, InstallMethod,
    PlatformError, UpdatePlan,
};

fn home() -> String {
    "/home/kevin".to_string()
}

#[test]
fn classifies_nix_store() {
    let p = "/nix/store/abc123-aoe-0.4.5/bin/aoe";
    assert_eq!(classify_path_prefix(p, &home()), InstallMethod::Nix);
}

#[test]
fn classifies_cargo_bin() {
    let p = format!("{}/.cargo/bin/aoe", home());
    assert_eq!(classify_path_prefix(&p, &home()), InstallMethod::Cargo);
}

#[test]
fn classifies_usr_local_bin_as_tarball() {
    let p = "/usr/local/bin/aoe".to_string();
    assert_eq!(
        classify_path_prefix(&p, &home()),
        InstallMethod::Tarball { binary_path: p }
    );
}

#[test]
fn classifies_local_bin_as_tarball() {
    let p = format!("{}/.local/bin/aoe", home());
    assert_eq!(
        classify_path_prefix(&p, &home()),
        InstallMethod::Tarball {
            binary_path: p.clone()
        }
    );
}

#[test]
fn classifies_home_bin_as_tarball() {
    let p = format!("{}/bin/aoe", home());
    assert_eq!(
        classify_path_prefix(&p, &home()),
        InstallMethod::Tarball {
            binary_path: p.clone()
        }
    );
}

#[test]
fn classifies_random_path_as_unknown() {
    let p = "/opt/aoe-custom/bin/aoe".to_string();
    assert_eq!(
        classify_path_prefix(&p, &home()),
        InstallMethod::Unknown { binary_path: p }
    );
}

#[test]
fn classifier_requires_consistent_canonicalization() {
    let raw_home = "/tmp/test-home";
    let canon_home = "/private/tmp/test-home";
    let canonicalized_exe = format!("{}/.local/bin/aoe", canon_home);
    assert!(matches!(
        classify_path_prefix(&canonicalized_exe, raw_home),
        InstallMethod::Unknown { .. }
    ));
    assert_eq!(
        classify_path_prefix(&canonicalized_exe, canon_home),
        InstallMethod::Tarball {
            binary_path: canonicalized_exe.clone()
        }
    );
}

#[test]
fn brew_takes_priority_when_paths_match() {
    let exe = "/opt/homebrew/Cellar/aoe/0.4.5/bin/aoe".to_string();
    let brew_path = Some(exe.clone());
    let prefix_class = InstallMethod::Unknown {
        binary_path: exe.clone(),
    };
    // Neither path exists here, so neither canonicalizes.
    let result = classify_with_brew(prefix_class, brew_path.as_deref(), &exe, None, None);
    assert_eq!(result, InstallMethod::Homebrew);
}

#[test]
fn brew_ignored_when_paths_differ() {
    let exe = "/usr/local/bin/aoe".to_string();
    let brew_path = Some("/opt/homebrew/Cellar/aoe/0.4.5/bin/aoe".to_string());
    let prefix_class = InstallMethod::Tarball {
        binary_path: exe.clone(),
    };
    let result = classify_with_brew(prefix_class.clone(), brew_path.as_deref(), &exe, None, None);
    assert_eq!(result, prefix_class);
}

#[test]
fn brew_ignored_when_probe_returned_none() {
    let exe = "/usr/local/bin/aoe".to_string();
    let prefix_class = InstallMethod::Tarball {
        binary_path: exe.clone(),
    };
    let result = classify_with_brew(prefix_class.clone(), None, &exe, None, None);
    assert_eq!(result, prefix_class);
}

#[test]
fn platform_string_linux_x86_64() {
    assert_eq!(platform_string_for("linux", "x86_64").unwrap(), "linux-amd64");
}

#[test]
fn platform_string_linux_aarch64() {
    assert_eq!(platform_string_for("linux", "aarch64").unwrap(), "linux-arm64");
}

#[test]
fn platform_string_macos_amd64() {
    assert_eq!(platform_string_for("macos", "x86_64").unwrap(), "darwin-amd64");
}

#[test]
fn platform_string_macos_arm64() {
    assert_eq!(platform_string_for("macos", "aarch64").unwrap(), "darwin-arm64");
}

#[test]
fn platform_string_unsupported_arch_errors() {
    let err = platform_string_for("linux", "riscv64").unwrap_err();
    assert!(err.message().contains("riscv64"));
}

#[test]
fn platform_string_unsupported_os_errors() {
    let err = platform_string_for("windows", "x86_64").unwrap_err();
    assert!(err.message().contains("windows"));
}

#[test]
fn release_tarball_url_format() {
    let url = release_tarball_url(default_release_base(), "0.5.0", "linux-amd64");
    assert_eq!(
        url,
        "https://github.com/agent-of-empires/agent-of-empires/releases/download/v0.5.0/aoe-linux-amd64.tar.gz"
    );
}

#[test]
fn release_tarball_url_respects_env_override() {
    // The override base is what `AOE_UPDATE_BASE_URL` holds.
    let url = release_tarball_url("http://127.0.0.1:9999/releases", "0.5.0", "linux-amd64");
    assert_eq!(url, "http://127.0.0.1:9999/releases/v0.5.0/aoe-linux-amd64.tar.gz");
}

#[test]
fn prompt_block_tarball_no_sudo() {
    let m = InstallMethod::Tarball {
        binary_path: "/home/u/.local/bin/aoe".to_string(),
    };
    let s = format_prompt_block("0.4.5", "0.5.0", &m, false);
    assert!(s.contains("Update v0.4.5 → v0.5.0"));
    assert!(s.contains("Method:    tarball install"));
    assert!(s.contains("Location:  /home/u/.local/bin/aoe"));
    assert!(!s.contains("Sudo:"));
}

#[test]
fn prompt_block_tarball_sudo_required() {
    let m = InstallMethod::Tarball {
        binary_path: "/usr/local/bin/aoe".to_string(),
    };
    let s = format_prompt_block("0.4.5", "0.5.0", &m, true);
    assert!(s.contains("Sudo:      required (write-protected directory)"));
}

#[test]
fn prompt_block_homebrew_omits_location_path() {
    let s = format_prompt_block("0.4.5", "0.5.0", &InstallMethod::Homebrew, false);
    assert!(s.contains("Method:    homebrew"));
    assert!(s.contains("Location:  managed by Homebrew"));
}

#[test]
fn prompt_block_nix() {
    let s = format_prompt_block("0.4.5", "0.5.0", &InstallMethod::Nix, false);
    assert!(s.contains("Method:    nix"));
}

#[test]
fn nix_refusal_message_contains_nix_run() {
    assert!(nix_refusal_message().contains("nix run github:agent-of-empires/agent-of-empires"));
}

#[test]
fn cargo_refusal_message_contains_cargo_install() {
    assert!(cargo_refusal_message().contains("cargo install"));
}

#[test]
fn unknown_refusal_message_contains_install_script_url() {
    let s = unknown_refusal_message("/opt/weird/aoe");
    assert!(s.contains("install.sh"));
    assert!(s.contains("/opt/weird/aoe"));
}

#[test]
fn brew_formula_lag_message_is_friendly() {
    let msg = brew_formula_lag_message("1.5.2");
    assert!(msg.contains("v1.5.2"));
    assert!(msg.to_lowercase().contains("homebrew"));
    assert!(msg.to_lowercase().contains("try again"));
}

// ---------------------------------------------------------------------------
// Further cases
// ---------------------------------------------------------------------------

#[test]
fn prompt_block_is_exact() {
    let s = format_prompt_block("0.4.5", "0.5.0", &InstallMethod::Cargo, true);
    assert_eq!(
        s,
        "Update v0.4.5 → v0.5.0\n  Method:    cargo\n  Location:  ~/.cargo/bin/aoe\n  Sudo:      required (write-protected directory)"
    );
}

#[test]
fn canonical_paths_decide_equality_when_both_known() {
    assert!(paths_canonicalize_equal("/a/b", "/c/d", Some("/x/y"), Some("/x/y")));
    assert!(!paths_canonicalize_equal("/a/b", "/a/b", Some("/x/y"), Some("/x/z")));
    assert!(paths_canonicalize_equal("/a//b/", "/a/b", None, Some("/q")));
    assert!(!paths_canonicalize_equal("/a/b", "/a/c", None, None));
}

#[test]
fn brew_listing_names_the_binary() {
    let out = "/opt/homebrew/Cellar/aoe/1.0/README.md\n  /opt/homebrew/Cellar/aoe/1.0/bin/aoe  \n";
    assert_eq!(
        brew_aoe_path_from_listing(out).as_deref(),
        Some("/opt/homebrew/Cellar/aoe/1.0/bin/aoe")
    );
    assert_eq!(brew_aoe_path_from_listing("nothing here\n"), None);
}

#[test]
fn unsupported_platform_errors_carry_the_name() {
    assert_eq!(
        platform_string_for("freebsd", "riscv64"),
        Err(PlatformError::UnsupportedOs("freebsd".to_string()))
    );
    assert_eq!(
        platform_string_for("macos", "riscv64"),
        Err(PlatformError::UnsupportedArch("riscv64".to_string()))
    );
    assert_eq!(platform_string_for("macos", "arm64").unwrap(), "darwin-arm64");
    assert_eq!(
        PlatformError::UnsupportedOs("windows".to_string()).message(),
        "unsupported OS: windows"
    );
}

#[test]
fn version_output_is_matched_by_token() {
    assert!(version_output_matches("aoe 1.2.3\n", "1.2.3"));
    assert!(version_output_matches("aoe v1.2.3", "1.2.3"));
    assert!(!version_output_matches("aoe 1.2.30", "1.2.3"));
    assert_eq!(extracted_binary_name("linux-amd64"), "aoe-linux-amd64");
}

#[test]
fn homebrew_lag_blocks_only_homebrew() {
    let brew = InstallMethod::Homebrew;
    assert!(!install_method_supports_target("1.5.2", Some(&brew), Some("1.5.1")));
    assert!(install_method_supports_target("1.5.2", Some(&brew), Some("1.5.2")));
    assert!(install_method_supports_target("1.5.2", Some(&brew), None));
    assert!(install_method_supports_target("1.5.2", Some(&InstallMethod::Nix), Some("1.0.0")));
    assert!(install_method_supports_target("1.5.2", None, Some("1.0.0")));
}

#[test]
fn update_plan_routes_by_method() {
    assert_eq!(update_plan(&InstallMethod::Homebrew), UpdatePlan::Brew);
    assert_eq!(
        update_plan(&InstallMethod::Tarball { binary_path: "/usr/local/bin/aoe".to_string() }),
        UpdatePlan::Tarball("/usr/local/bin/aoe".to_string())
    );
    assert_eq!(update_plan(&InstallMethod::Nix), UpdatePlan::Refuse(nix_refusal_message()));
    assert_eq!(update_plan(&InstallMethod::Cargo), UpdatePlan::Refuse(cargo_refusal_message()));
}

#[test]
fn brew_update_runs_update_info_then_upgrade() {
    let (s, a) = brew_update_step(BrewStage::Start, "1.5.2", BrewEvent::Begin);
    assert_eq!((s, a), (BrewStage::Updating, BrewAction::RunUpdate));
    let (s, a) = brew_update_step(
        s,
        "1.5.2",
        BrewEvent::Exited { success: true, status: "0".to_string() },
    );
    assert_eq!((s, a), (BrewStage::Probing, BrewAction::QueryInfo));
    let (s, a) = brew_update_step(s, "1.5.2", BrewEvent::Advertised(Some("1.5.2".to_string())));
    assert_eq!((s, a), (BrewStage::Upgrading, BrewAction::RunUpgrade));
    let (s, a) = brew_update_step(
        s,
        "1.5.2",
        BrewEvent::Exited { success: true, status: "0".to_string() },
    );
    assert_eq!((s, a), (BrewStage::Finished, BrewAction::Succeed));
}

#[test]
fn brew_update_failure_and_lag_abort() {
    let (s, a) = brew_update_step(
        BrewStage::Updating,
        "1.5.2",
        BrewEvent::Exited { success: false, status: "exit status: 1".to_string() },
    );
    assert_eq!(s, BrewStage::Finished);
    assert_eq!(a, BrewAction::Fail("`brew update` failed (exit exit status: 1)".to_string()));
    let (s, a) = brew_update_step(
        BrewStage::Probing,
        "1.5.2",
        BrewEvent::Advertised(Some("1.5.1".to_string())),
    );
    assert_eq!(s, BrewStage::Finished);
    assert_eq!(a, BrewAction::Fail(brew_formula_lag_message("1.5.2")));
    let (_, a) = brew_update_step(BrewStage::Probing, "1.5.2", BrewEvent::Advertised(None));
    assert_eq!(a, BrewAction::RunUpgrade);
    let (s, a) = brew_update_step(BrewStage::Upgrading, "1.5.2", BrewEvent::SpawnFailed);
    assert_eq!(s, BrewStage::Finished);
    assert_eq!(a, BrewAction::Fail("running `brew upgrade aoe`".to_string()));
}
