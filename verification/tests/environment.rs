use rix::config::{
    get_config_dir, home_dir, init_wants_system, scope_choice_is_system, scope_toml,
    toml_selects_system, user_config_dir,
};
use rix::context::{nix_path_update, needs_flake_check, IndexEntry, RixContext, index_rows};
use rix::errors::RixError;
use rix::hardware::{
    get_nixgl_wrapper, hardware_state_content, is_primary_card_exec, scan_gpu_cards,
    update_gitignore,
};
use rix::platform::{detect_nix_installation, detect_target_platform, NixInstallType, TargetPlatform};
use rix::vcs::{
    flake_failure_message, git_ssh_command, needs_safe_directory, rename_master_to_main,
    ssh_key_candidates, sync_failure_message, syntax_failure_message,
};
use rix::writer::{default_gitignore_content, get_bootstrap_flake_template};

fn s(x: &str) -> Option<String> {
    Some(x.to_string())
}

#[test]
fn wrapper_from_lock_file() {
    assert_eq!(get_nixgl_wrapper(&s("\"nixGLNvidia\"\n")), s("nixGLNvidia"));
    assert_eq!(get_nixgl_wrapper(&s("  nixGLIntel  ")), s("nixGLIntel"));
    assert_eq!(get_nixgl_wrapper(&s("\"\"\n")), None);
    assert_eq!(get_nixgl_wrapper(&None), None);
}

#[test]
fn lock_file_round_trip() {
    for w in ["nixGLIntel", "nixGLNvidia"] {
        let text = hardware_state_content(w);
        assert_eq!(text, format!("\"{}\"\n", w));
        assert_eq!(get_nixgl_wrapper(&Some(text)), s(w));
    }
}

#[test]
fn gpu_scan() {
    let cards = vec![
        ("card0-HDMI-A-1".to_string(), s("0x10de\n")),
        ("renderD128".to_string(), s("0x10de\n")),
        ("card0".to_string(), s("0x8086\n")),
        ("card1".to_string(), None),
    ];
    let scan = scan_gpu_cards(&cards);
    assert_eq!(scan.wrapper, "nixGLIntel");
    assert_eq!(scan.messages, vec!["Found Intel GPU (Vendor: 0x8086)".to_string()]);

    let hybrid = vec![
        ("card0".to_string(), s("0x1002")),
        ("card1".to_string(), s(" 0x10de ")),
        ("card2".to_string(), s("0x8086")),
    ];
    let scan = scan_gpu_cards(&hybrid);
    assert_eq!(scan.wrapper, "nixGLNvidia");
    assert_eq!(
        scan.messages,
        vec![
            "Found AMD GPU (Vendor: 0x1002)".to_string(),
            "Found Nvidia GPU (Vendor: 0x10de)".to_string(),
        ]
    );
    let empty = scan_gpu_cards(&vec![]);
    assert_eq!(empty.wrapper, "nixGLIntel");
    assert!(empty.messages.is_empty());
    assert!(is_primary_card_exec("card3"));
    assert!(!is_primary_card_exec("card3-DP-1"));
    assert!(!is_primary_card_exec("version"));
}

#[test]
fn gitignore_updates() {
    assert_eq!(update_gitignore(&None), s("hardware-state.nix\n"));
    assert_eq!(update_gitignore(&s("result\n")), s("result\nhardware-state.nix\n"));
    assert_eq!(update_gitignore(&s("result\nhardware-state.nix\n")), None);
    let once = update_gitignore(&s("result\n"));
    assert_eq!(update_gitignore(&once), None);
    assert_eq!(default_gitignore_content(), "hardware-state.nix\nresult\n");
}

#[test]
fn installation_and_platform() {
    assert_eq!(detect_nix_installation(true, None), NixInstallType::MultiUser);
    assert_eq!(detect_nix_installation(false, Some(0)), NixInstallType::MultiUser);
    assert_eq!(detect_nix_installation(false, Some(1000)), NixInstallType::SingleUser);
    assert_eq!(detect_nix_installation(false, None), NixInstallType::NotInstalled);
    assert_eq!(detect_target_platform(true, true, NixInstallType::MultiUser), TargetPlatform::MacOS);
    assert_eq!(detect_target_platform(false, true, NixInstallType::SingleUser), TargetPlatform::NixOS);
    assert_eq!(
        detect_target_platform(false, false, NixInstallType::MultiUser),
        TargetPlatform::MultiUserLinux
    );
    assert_eq!(
        detect_target_platform(false, false, NixInstallType::NotInstalled),
        TargetPlatform::SingleUserLinux
    );
}

#[test]
fn config_directory() {
    assert_eq!(get_config_dir(&s("/custom"), &None, &None, &None, &None), "/custom");
    assert_eq!(
        get_config_dir(&None, &None, &s("/home/bob"), &s("[core]\ndefault_scope = \"user\"\n"), &s("bob")),
        "/home/bob/.config/rix"
    );
    assert_eq!(
        get_config_dir(&None, &None, &s("/home/bob"), &s("[core]\n  default_scope = \"system\"\n"), &s("bob")),
        "/etc/rix"
    );
    assert_eq!(get_config_dir(&None, &None, &s("/root"), &None, &s("root")), "/etc/rix");
    assert_eq!(get_config_dir(&None, &s("carol"), &s("/root"), &None, &s("root")), "/etc/rix");
    assert_eq!(
        get_config_dir(&None, &s("carol"), &s("/root"), &s("default_scope = \"user\""), &s("root")),
        "/home/carol/.config/rix"
    );
    assert_eq!(get_config_dir(&None, &None, &None, &None, &None), "/root/.config/rix");
    assert_eq!(home_dir(&s("dave"), &s("/x")), "/home/dave");
    assert_eq!(user_config_dir("/home/eve/"), "/home/eve/.config/rix");
    assert!(toml_selects_system("default_scope=\"system\""));
    assert!(!toml_selects_system("# default_scope = \"system\""));
}

#[test]
fn init_scope() {
    assert!(scope_choice_is_system(" 2\n"));
    assert!(!scope_choice_is_system("1"));
    assert!(!scope_choice_is_system(""));
    assert_eq!(scope_toml(true), "[core]\ndefault_scope = \"system\"\n");
    assert_eq!(scope_toml(false), "[core]\ndefault_scope = \"user\"\n");
    assert!(init_wants_system(&scope_toml(true)));
    assert!(init_wants_system("scope = 'system'"));
    assert!(!init_wants_system(&scope_toml(false)));
    assert!(toml_selects_system(&scope_toml(true)));
    assert!(!toml_selects_system(&scope_toml(false)));
}

#[test]
fn context_scope_and_paths() {
    let sys = RixContext::new("/etc/rix".to_string(), s("alice"), false);
    assert!(sys.is_system);
    assert!(RixContext::new("/etc//rix/./groups".to_string(), None, false).is_system);
    assert!(!RixContext::new("/etc/rixx".to_string(), None, false).is_system);
    assert!(!RixContext::new("etc/rix".to_string(), None, false).is_system);
    assert!(RixContext::new("/home/a".to_string(), s("root"), false).is_system);
    assert!(RixContext::new("/home/a".to_string(), s("a"), true).is_system);
    let user = RixContext::new("/home/a/.config/rix".to_string(), s("a"), false);
    assert!(!user.is_system);
    assert_eq!(user.config_file("flake.nix"), "/home/a/.config/rix/flake.nix");
    assert_eq!(
        nix_path_update("/usr/bin"),
        s("/usr/bin:/nix/var/nix/profiles/default/bin")
    );
    assert_eq!(nix_path_update("/nix/var/nix/profiles/default/bin:/usr/bin"), None);
    assert!(needs_flake_check("github:owner/repo"));
    assert!(needs_flake_check("https://example.com/x"));
    assert!(!needs_flake_check("ripgrep"));
}

#[test]
fn system_checks_and_commands() {
    let ctx = RixContext::new("/etc/rix".to_string(), None, false);
    match ctx.verify_system(false) {
        Err(RixError::MissingSystemDependency(m)) => assert_eq!(
            m,
            "Critical dependency 'nix' not found on system PATH. Ensure modern Nix is installed."
        ),
        other => panic!("unexpected {:?}", other),
    }
    assert!(ctx.verify_system(true).is_ok());
    let upd = ctx.update_indexes(true).unwrap();
    assert_eq!(upd.program, "nix");
    assert_eq!(upd.args, vec!["flake", "update"]);
    assert_eq!(upd.env[0].0, "NIX_CONFIG");
    assert!(upd.env[0].1.starts_with("experimental-features = nix-command flakes\n"));
    assert!(ctx.update_indexes(false).is_err());

    let nixos = ctx.apply_upgrade(true, TargetPlatform::NixOS, false).unwrap();
    assert_eq!(nixos.program, "sudo");
    assert_eq!(nixos.args, vec!["nixos-rebuild", "switch", "--flake", "/etc/rix#system"]);
    let dry = ctx.apply_upgrade(true, TargetPlatform::NixOS, true).unwrap();
    assert_eq!(dry.args[1], "dry-build");
    let hm = ctx.apply_upgrade(true, TargetPlatform::MacOS, true).unwrap();
    assert_eq!(hm.program, "nix");
    assert_eq!(
        hm.args,
        vec!["run", "nixpkgs#home-manager", "--", "switch", "--flake", "/etc/rix", "-n"]
    );
    assert!(ctx.apply_upgrade(false, TargetPlatform::MacOS, true).is_err());

    let ok = ctx.upgrade_follow_up(false, true);
    assert!(ok.commit && ok.bridge_binaries && !ok.rollback);
    let failed = ctx.upgrade_follow_up(false, false);
    assert!(!failed.commit && !failed.bridge_binaries && failed.rollback);
    let dry = ctx.upgrade_follow_up(true, false);
    assert!(!dry.commit && !dry.bridge_binaries && !dry.rollback);
}

#[test]
fn index_rows_fill_defaults() {
    let entries = vec![
        IndexEntry {
            key: "hello".to_string(),
            pname: s("hello"),
            name: s("hello-2.12"),
            version: s("2.12"),
            description: s("Greets"),
        },
        IndexEntry { key: "k".to_string(), pname: None, name: s("n-1"), version: None, description: None },
        IndexEntry { key: "k2".to_string(), pname: None, name: None, version: None, description: None },
    ];
    assert_eq!(
        index_rows(&entries),
        vec![
            ("hello".to_string(), "2.12".to_string(), "Greets".to_string()),
            ("n-1".to_string(), String::new(), String::new()),
            ("k2".to_string(), String::new(), String::new()),
        ]
    );
}

#[test]
fn repository_decisions_and_messages() {
    let entries = vec!["/a".to_string(), "/etc/rix".to_string()];
    assert!(!needs_safe_directory(&entries, "/etc/rix"));
    assert!(needs_safe_directory(&entries, "/etc"));
    assert!(rename_master_to_main(true, false));
    assert!(!rename_master_to_main(true, true));
    assert!(!rename_master_to_main(false, false));
    let (ed, rsa) = ssh_key_candidates("bob");
    assert_eq!(ed, "/home/bob/.ssh/id_ed25519");
    assert_eq!(rsa, "/home/bob/.ssh/id_rsa");
    assert_eq!(
        git_ssh_command("/k"),
        "ssh -i /k -o IdentitiesOnly=yes -o StrictHostKeyChecking=accept-new"
    );
    assert_eq!(
        sync_failure_message("  denied\n"),
        "Failed to sync with the remote repository. Ensure you have permissions and the remote is reachable.\nGit output: denied"
    );
    assert_eq!(
        syntax_failure_message("error: x\n"),
        "Generated file failed syntax validation: error: x"
    );
    assert_eq!(
        flake_failure_message("github:a/b", "err"),
        "Flake validation failed. The target 'github:a/b' may not be a valid Nix flake.\nerr"
    );
}

#[test]
fn bootstrap_flake() {
    let f = get_bootstrap_flake_template(&s("alice"), &s("/home/alice"), "aarch64");
    assert!(f.starts_with("{\n  description = \"Rix automated system layout profile configuration\";\n"));
    assert!(f.contains("      system = \"aarch64-linux\";\n"));
    assert!(f.contains("homeConfigurations.\"alice\" = home-manager.lib.homeManagerConfiguration {"));
    assert!(f.contains("            home.username = \"alice\";\n            home.homeDirectory = \"/home/alice\";\n"));
    assert!(f.ends_with("          }\n        ];\n      };\n    };\n}"));
    let g = get_bootstrap_flake_template(&None, &None, "riscv64");
    assert!(g.contains("system = \"x86_64-linux\";"));
    assert!(g.contains("home.username = \"default\";"));
    assert!(g.contains("home.homeDirectory = \"/home/default\";"));
}

#[test]
fn error_descriptions() {
    assert_eq!(RixError::IOError("disk".to_string()).describe(), "I/O Error: disk");
    assert_eq!(RixError::ParseError("p".to_string()).describe(), "Parse Error: p");
    assert_eq!(
        RixError::MissingSystemDependency("nix".to_string()).describe(),
        "Missing System Dependency: nix"
    );
    assert_eq!(RixError::InvalidNixSyntax("s".to_string()).describe(), "Invalid Nix Syntax: s");
    assert_eq!(RixError::GitError("g".to_string()).describe(), "Git Repository Error: g");
}
