use rix::commands::{
    external_flake_package, format_package_name, gc_summary, handle_add, handle_remove,
    is_external_target_exec, packages_commit_message, parse_history, parse_selection,
    rollback_plan, search_display, HistoryEntry,
};

#[test]
fn format_plain_names() {
    assert_eq!(format_package_name("pkgs.ripgrep").unwrap(), "ripgrep");
    assert_eq!(format_package_name("(pkgs.fd)").unwrap(), "fd");
    assert_eq!(format_package_name("hello").unwrap(), "hello");
    assert_eq!(format_package_name("pkgs.pkgs.x").unwrap(), "pkgs.x");
}

#[test]
fn format_external_flake_names() {
    assert_eq!(
        format_package_name("__ext_flake or (zen.packages.${pkgs.system}.default)").unwrap(),
        "zen"
    );
}

#[test]
fn format_conditional_names() {
    assert_eq!(
        format_package_name("(if pkgs.stdenv.isLinux then pkgs.kitty else null)").unwrap(),
        "kitty (Linux only)"
    );
    assert_eq!(
        format_package_name("if pkgs.stdenv.isLinux then pkgs.kitty else pkgs.iterm2").unwrap(),
        "kitty (Linux) / iterm2 (macOS)"
    );
}

#[test]
fn format_truncates_long_expressions() {
    let long = "(callPackage ./very/long/path/to/a/derivation.nix { })";
    let out = format_package_name(long).unwrap();
    assert_eq!(out, "callPackage ./very/long/path/to/a/d...");
    assert_eq!(out.chars().count(), 38);
    let exact40 = "a".repeat(40);
    assert_eq!(format_package_name(&exact40).unwrap(), exact40);
}

#[test]
fn profile_add_parses_installables() {
    let p = handle_add("nixpkgs#eza@system", Some("ls".to_string()));
    assert_eq!(p.name, "eza");
    assert_eq!(p.group, "system");
    assert_eq!(p.description, Some("ls".to_string()));
    assert!(!p.is_local_recipe);
    let q = handle_add("ripgrep", None);
    assert_eq!(q.name, "ripgrep");
    assert_eq!(q.group, "default");
    assert!(!q.is_local_recipe);
    let r = handle_add("github:owner/repo#tool", None);
    assert_eq!(r.name, "tool");
    assert_eq!(r.group, "default");
    assert!(r.is_local_recipe);
}

#[test]
fn profile_remove_parses_installables() {
    assert_eq!(handle_remove("nixpkgs#eza@system"), "eza");
    assert_eq!(handle_remove("fd"), "fd");
    assert_eq!(handle_remove("a#b#c@g@h"), "b#c");
}

#[test]
fn external_targets() {
    assert!(is_external_target_exec("https://github.com/owner/repo"));
    assert!(is_external_target_exec("github:owner/repo"));
    assert!(!is_external_target_exec("ripgrep"));
    let p = external_flake_package("https://github.com/zen-browser/flake/", "web", &None);
    assert_eq!(p.name, "__ext_flake or (flake.packages.${pkgs.system}.default)");
    assert_eq!(p.group, "web");
    assert_eq!(p.description, Some("External flake: github:zen-browser/flake".to_string()));
    assert!(!p.is_local_recipe);
    let q = external_flake_package("github:a/b.git", "g", &Some("mine".to_string()));
    assert_eq!(q.name, "__ext_flake or (b.packages.${pkgs.system}.default)");
    assert_eq!(q.description, Some("mine".to_string()));
}

#[test]
fn commit_messages() {
    let names = vec!["eza".to_string(), "ripgrep".to_string()];
    assert_eq!(packages_commit_message(true, &names), "rix: installed eza, ripgrep");
    assert_eq!(packages_commit_message(false, &vec!["fd".to_string()]), "rix: removed fd");
    assert_eq!(packages_commit_message(false, &vec![]), "rix: removed ");
}

#[test]
fn selections() {
    assert_eq!(parse_selection("2\n", 3), Some(1));
    assert_eq!(parse_selection(" 1 ", 3), Some(0));
    assert_eq!(parse_selection("3", 3), Some(2));
    assert_eq!(parse_selection("4", 3), None);
    assert_eq!(parse_selection("0", 3), None);
    assert_eq!(parse_selection("x", 3), None);
    assert_eq!(parse_selection("+2", 3), Some(1));
    assert_eq!(parse_selection("-1", 3), None);
    assert_eq!(parse_selection("99999999999999999999999", 3), None);
}

#[test]
fn garbage_collection_summary() {
    assert_eq!(
        gc_summary("finding garbage collector roots...\n1234 store paths deleted, 56.78 MiB freed\n\n"),
        "1234 store paths deleted, 56.78 MiB freed"
    );
    assert_eq!(gc_summary(""), "Garbage collection complete.");
    assert_eq!(gc_summary("\n\n"), "Garbage collection complete.");
}

#[test]
fn rollback_plans() {
    let p = rollback_plan(&None);
    assert_eq!(p.target, "HEAD~1");
    assert_eq!(p.progress, "Rolling back environment state to previous generation...");
    assert_eq!(p.commit_message, "rix: rolled back declarative state to previous generation");
    let q = rollback_plan(&Some("abc123".to_string()));
    assert_eq!(q.target, "abc123");
    assert_eq!(q.progress, "Rolling back environment state to 'abc123'...");
    assert_eq!(q.commit_message, "rix: rolled back declarative state to abc123");
}

#[test]
fn search_table_rows() {
    let mut results = Vec::new();
    for i in 0..17 {
        results.push((format!("legacyPackages.x86_64-linux.pkg{}", i), "short".to_string()));
    }
    results[0].1 = "d".repeat(61);
    results[1].0 = "flat".to_string();
    let (rows, hidden) = search_display(&results);
    assert_eq!(rows.len(), 15);
    assert_eq!(hidden, 2);
    assert_eq!(rows[0].0, "pkg0");
    assert_eq!(rows[0].1, format!("{}...", "d".repeat(57)));
    assert_eq!(rows[1].0, "flat");
    assert_eq!(rows[2], ("pkg2".to_string(), "short".to_string()));
    let (few, none_hidden) = search_display(&vec![("a.b.c.d".to_string(), "x".to_string())]);
    assert_eq!(few, vec![("c.d".to_string(), "x".to_string())]);
    assert_eq!(none_hidden, 0);
}

#[test]
fn history_lines() {
    let out = "a1b2c3d|2024-05-01 10:00|rix: installed eza\nbroken line\ne4f5g6h|2024-04-30 09:00|msg | with | bars";
    let h = parse_history(out);
    assert_eq!(
        h,
        vec![
            HistoryEntry {
                state_num: 3,
                hash: "a1b2c3d".to_string(),
                date: "2024-05-01 10:00".to_string(),
                message: "rix: installed eza".to_string(),
                is_active: true,
            },
            HistoryEntry {
                state_num: 1,
                hash: "e4f5g6h".to_string(),
                date: "2024-04-30 09:00".to_string(),
                message: "msg | with | bars".to_string(),
                is_active: false,
            },
        ]
    );
    assert!(parse_history("").is_empty());
}
