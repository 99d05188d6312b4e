use rix::context::RixContext;
use rix::errors::RixError;
use rix::flake::{infer_flake_alias, normalize_flake_uri};
use rix::recipe::{compile_custom_flake, determine_recipe_source, RecipeSource};
use rix::search::{
    results_from_entries, search_results_from_json, sort_by_rank, verify_online_package_architecture,
};
use rix::tui::{Event, HistoryScreen, Key, MenuScreen, PackageMode, PackagesScreen, Screen, TuiApp};

const JSON: &str = r#"{
  "legacyPackages.x86_64-linux.ripgrep-all": {"description": "rga"},
  "legacyPackages.x86_64-linux.haskellPackages.ripgrep": {"description": 3},
  "legacyPackages.x86_64-linux.ripgrep": {"description": "Fast grep"}
}"#;

#[test]
fn search_ranks_exact_matches_first() {
    let r = search_results_from_json(JSON, "RipGrep").unwrap();
    assert_eq!(
        r,
        vec![
            ("legacyPackages.x86_64-linux.ripgrep".to_string(), "Fast grep".to_string()),
            (
                "legacyPackages.x86_64-linux.haskellPackages.ripgrep".to_string(),
                "No description available.".to_string()
            ),
            ("legacyPackages.x86_64-linux.ripgrep-all".to_string(), "rga".to_string()),
        ]
    );
    assert_eq!(search_results_from_json("[1, 2]", "x").unwrap(), vec![]);
    assert!(matches!(search_results_from_json("{ nope", "x"), Err(RixError::ParseError(_))));
}

#[test]
fn resolving_installable_names() {
    let r = search_results_from_json(JSON, "ripgrep").unwrap();
    assert_eq!(verify_online_package_architecture("ripgrep", &r).unwrap(), "ripgrep");
    let nested = vec![(
        "legacyPackages.x86_64-linux.haskellPackages.ripgrep".to_string(),
        "d".to_string(),
    )];
    assert_eq!(
        verify_online_package_architecture("ripgrep", &nested).unwrap(),
        "haskellPackages.ripgrep"
    );
    let other = vec![("legacyPackages.x86_64-linux.rg-tools".to_string(), "d".to_string())];
    assert_eq!(verify_online_package_architecture("rg", &other).unwrap(), "rg-tools");
    let flat = vec![("weird".to_string(), "d".to_string())];
    assert_eq!(verify_online_package_architecture("rg", &flat).unwrap(), "rg");
    match verify_online_package_architecture("nothing", &vec![]) {
        Err(RixError::ParseError(m)) => assert_eq!(
            m,
            "Package 'nothing' is not available in the nixpkgs flake for your architecture."
        ),
        other => panic!("unexpected {:?}", other),
    }
}

#[test]
fn local_database_ranking() {
    let rows = vec![
        ("python3-full".to_string(), ("3.12".to_string(), "a".to_string())),
        ("Python3".to_string(), ("3.12".to_string(), "b".to_string())),
        ("py".to_string(), ("1".to_string(), "c".to_string())),
    ];
    let sorted = sort_by_rank(rows, "python3", false);
    let names: Vec<&str> = sorted.iter().map(|r| r.0.as_str()).collect();
    assert_eq!(names, vec!["Python3", "py", "python3-full"]);
    let same = vec![
        ("jq".to_string(), ("1.7".to_string(), "first".to_string())),
        ("jq".to_string(), ("1.6".to_string(), "second".to_string())),
        ("j".to_string(), ("0".to_string(), "short".to_string())),
    ];
    let sorted = sort_by_rank(same, "x", false);
    let descs: Vec<&str> = sorted.iter().map(|r| (r.1).1.as_str()).collect();
    assert_eq!(descs, vec!["short", "first", "second"]);
}

#[test]
fn flake_uris_and_aliases() {
    assert_eq!(normalize_flake_uri(" https://github.com/owner/repo/tree/main "), "github:owner/repo");
    assert_eq!(normalize_flake_uri("https://gitlab.com/group/proj"), "gitlab:group/proj");
    assert_eq!(normalize_flake_uri("https://github.com/owner"), "https://github.com/owner");
    assert_eq!(normalize_flake_uri("github:owner/repo"), "github:owner/repo");
    assert_eq!(infer_flake_alias("github:owner/repo"), "repo");
    assert_eq!(infer_flake_alias("git+https://x.org/a/b.git"), "b");
    assert_eq!(infer_flake_alias("path:/x/"), "custom-flake");
}

#[test]
fn recipe_sources() {
    assert_eq!(determine_recipe_source("./apps/x"), RecipeSource::LocalDirectory("./apps/x".to_string()));
    assert_eq!(determine_recipe_source("/opt/x"), RecipeSource::LocalDirectory("/opt/x".to_string()));
    assert_eq!(determine_recipe_source("github:o/r"), RecipeSource::RemoteGit("github:o/r".to_string()));
    assert_eq!(determine_recipe_source("git@host:o/r"), RecipeSource::RemoteGit("git@host:o/r".to_string()));
    assert_eq!(determine_recipe_source("ripgrep"), RecipeSource::StandardChannel);
    assert_eq!(
        compile_custom_flake(RecipeSource::StandardChannel, "/cfg/groups/local").unwrap(),
        "placeholder_package_name"
    );
}

#[test]
fn menu_navigation() {
    let mut menu = MenuScreen::new();
    let mut screen = Screen::Menu;
    assert_eq!(menu.selected(), 0);
    assert_eq!(menu.items().len(), 5);
    menu.handle_input(Key::Up, &mut screen);
    assert_eq!(menu.selected(), 4);
    menu.handle_input(Key::Down, &mut screen);
    assert_eq!(menu.selected(), 0);
    menu.handle_input(Key::Down, &mut screen);
    assert_eq!(menu.selected(), 1);
    menu.handle_input(Key::Enter, &mut screen);
    assert_eq!(screen, Screen::History);
    menu.handle_input(Key::Up, &mut screen);
    menu.handle_input(Key::Enter, &mut screen);
    assert_eq!(screen, Screen::Packages);
}

#[test]
fn package_screen_modes() {
    let mut p = PackagesScreen::new();
    let mut screen = Screen::Packages;
    p.handle_input(Key::Char('r'), &mut screen);
    assert_eq!(p.mode(), PackageMode::View);
    p.handle_input(Key::Down, &mut screen);
    assert_eq!(p.selected(), 0);
    p.load_packages(vec![
        ("a".to_string(), "default".to_string(), "x".to_string()),
        ("b".to_string(), "dev".to_string(), "y".to_string()),
    ]);
    assert_eq!(p.packages().len(), 2);
    assert_eq!(p.packages()[1].group, "dev");
    p.handle_input(Key::Up, &mut screen);
    assert_eq!(p.selected(), 1);
    p.handle_input(Key::Char('r'), &mut screen);
    assert_eq!(p.mode(), PackageMode::Remove);
    p.handle_input(Key::Char('y'), &mut screen);
    assert_eq!(p.mode(), PackageMode::View);
    p.handle_input(Key::Char('i'), &mut screen);
    assert_eq!(p.mode(), PackageMode::Install);
    p.handle_input(Key::Enter, &mut screen);
    assert_eq!(p.mode(), PackageMode::Install);
    for c in "ezaa".chars() {
        p.handle_input(Key::Char(c), &mut screen);
    }
    p.handle_input(Key::Backspace, &mut screen);
    assert_eq!(p.search_input(), "eza");
    p.handle_input(Key::Enter, &mut screen);
    assert_eq!(p.mode(), PackageMode::View);
    assert_eq!(p.search_input(), "");
    p.handle_input(Key::Backspace, &mut screen);
    assert_eq!(screen, Screen::Menu);
}

#[test]
fn history_screen() {
    let mut h = HistoryScreen::new();
    let mut screen = Screen::History;
    h.load_history();
    assert_eq!(h.entries().len(), 3);
    assert!(h.entries()[0].is_active);
    assert_eq!(h.entries()[2].state_num, 3);
    h.handle_input(Key::Up, &mut screen);
    assert_eq!(h.selected(), 2);
    h.handle_input(Key::Down, &mut screen);
    assert_eq!(h.selected(), 0);
    h.handle_input(Key::Char('q'), &mut screen);
    assert_eq!(screen, Screen::Menu);
}

#[test]
fn application_events() {
    let ctx = RixContext::new("/home/a/.config/rix".to_string(), None, false);
    let mut app = TuiApp::new(ctx);
    app.handle_event(Event::Key(Key::Char('?')));
    assert!(app.show_help);
    app.handle_event(Event::Resize);
    assert!(app.show_help && !app.should_quit);
    app.handle_event(Event::Key(Key::Enter));
    assert_eq!(app.current_screen, Screen::Packages);
    app.handle_event(Event::Key(Key::Backspace));
    assert_eq!(app.current_screen, Screen::Menu);
    app.handle_event(Event::Key(Key::Esc));
    assert!(app.should_quit);
}

#[test]
fn normalizing_twice_changes_nothing() {
    for input in [
        "https://github.com/owner/repo/tree/main",
        "https://gitlab.com/group/proj",
        "https://github.com/owner",
        "github:owner/repo",
        "./my-flake",
    ] {
        let once = normalize_flake_uri(input);
        assert_eq!(normalize_flake_uri(&once), once);
    }
    assert_eq!(normalize_flake_uri("./my-flake"), "./my-flake");
}

#[test]
fn aliases_are_single_segments() {
    for uri in ["github:owner/repo", "https://github.com/owner/repo.git", "path:/x/", "", "a:b:c", ".git"] {
        let a = infer_flake_alias(uri);
        assert!(!a.is_empty());
        assert!(!a.contains('/') && !a.contains(':'));
    }
    assert_eq!(infer_flake_alias(&normalize_flake_uri("https://github.com/nix-community/home-manager")), "home-manager");
    assert_eq!(infer_flake_alias("https://github.com/nix-community/home-manager"), "home-manager");
    assert_eq!(infer_flake_alias(".git"), "custom-flake");
}

#[test]
fn results_of_parsed_entries() {
    let entries = vec![
        ("legacyPackages.x86_64-linux.fd-find".to_string(), None),
        ("legacyPackages.x86_64-linux.fd".to_string(), Some("Simple find".to_string())),
        ("legacyPackages.x86_64-linux.a.fd".to_string(), Some("nested".to_string())),
    ];
    assert_eq!(
        results_from_entries(&entries, "FD"),
        vec![
            ("legacyPackages.x86_64-linux.fd".to_string(), "Simple find".to_string()),
            ("legacyPackages.x86_64-linux.a.fd".to_string(), "nested".to_string()),
            ("legacyPackages.x86_64-linux.fd-find".to_string(), "No description available.".to_string()),
        ]
    );
    assert_eq!(results_from_entries(&vec![], "fd"), vec![]);
}
