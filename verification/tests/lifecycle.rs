use rix::context::{Package, RixContext};
use rix::flake::link_group_to_flake;
use rix::nix_list::{
    add_package, add_to_parsed, packages_in_file, remove_from_parsed, remove_package_from_file,
    validate_nix,
};
use rix::nix_syntax::parse_nix;
use rix::writer::{get_empty_group_template, render_nix_file, write_nix_file};

fn ctx(dir: &str) -> RixContext {
    RixContext::new(dir.to_string(), Some("alice".to_string()), false)
}

fn pkg(name: &str, description: Option<&str>, group: &str) -> Package {
    Package {
        name: name.to_string(),
        description: description.map(|d| d.to_string()),
        group: group.to_string(),
        is_local_recipe: false,
    }
}

const FLAKE: &str = "{\n  outputs = { self }: {\n    x = {\n        modules = [\n        ];\n    };\n  };\n}\n";

#[test]
fn test_end_to_end_package_lifecycle() {
    let ctx = ctx("/tmp/rix-test");
    assert_eq!(ctx.upstream_dir(), "/tmp/rix-test/groups/upstream");

    // A first package goes into the default group, with its comment.
    let pkg1 = pkg("bat", Some("Cat alternative with highlighting"), "default");
    let edit = ctx.add_package(&pkg1, &None, &None, &None).unwrap();
    let content = edit.group_file.unwrap();
    assert_eq!(ctx.group_file_path("default"), "/tmp/rix-test/groups/upstream/default.nix");
    assert!(content.contains("pkgs.bat"));
    assert!(content.contains("# Cat alternative with highlighting"));

    // Adding it again with another description updates its comment.
    let pkg1_updated = pkg("bat", Some("Overwritten description string"), "default");
    let edit = ctx.add_package(&pkg1_updated, &Some(content.clone()), &None, &None).unwrap();
    let content_updated = edit.group_file.unwrap();
    assert!(content_updated.contains("# Overwritten description string"));
    assert!(!content_updated.contains("# Cat alternative with highlighting"));

    // The listing holds the one package.
    let files = vec![("default.nix".to_string(), content_updated.clone())];
    let list = ctx.list_all_packages(&files);
    assert_eq!(list.len(), 1);
    assert_eq!(list[0].0, "bat");
    assert_eq!(list[0].1, "default");

    // Removal takes it out.
    let after = ctx.remove_package_from_file("bat", &content_updated).unwrap().unwrap();
    assert!(!after.contains("pkgs.bat"));
}

#[test]
fn add_to_template_gives_exact_text() {
    let out = add_package(get_empty_group_template(), &pkg("eza", None, "default"), &None)
        .unwrap()
        .unwrap();
    assert_eq!(
        out,
        "{ pkgs, ... }:\n[\n  # Packages managed by Rix\n  pkgs.eza # Installed via Rix\n]"
    );
}

#[test]
fn add_same_package_twice_without_description_changes_nothing() {
    let first = add_package(get_empty_group_template(), &pkg("eza", None, "default"), &None)
        .unwrap()
        .unwrap();
    let second = add_package(&first, &pkg("eza", None, "default"), &None).unwrap();
    assert_eq!(second, None);
}

#[test]
fn add_same_description_again_changes_nothing() {
    let first = add_package(get_empty_group_template(), &pkg("eza", Some("ls"), "default"), &None)
        .unwrap()
        .unwrap();
    let second = add_package(&first, &pkg("eza", Some("ls"), "default"), &None).unwrap();
    assert_eq!(second, None);
}

#[test]
fn add_comment_to_entry_without_one() {
    let content = "{ pkgs, ... }:\n[\n  pkgs.git\n]";
    let out = add_package(content, &pkg("git", Some("vcs"), "default"), &None).unwrap().unwrap();
    assert_eq!(out, "{ pkgs, ... }:\n[\n  pkgs.git # vcs\n]");
}

#[test]
fn add_with_wrapper_writes_symlink_join() {
    let out = add_package(
        get_empty_group_template(),
        &pkg("kitty", Some("terminal"), "default"),
        &Some("nixGLIntel".to_string()),
    )
    .unwrap()
    .unwrap();
    assert!(out.contains("(pkgs.symlinkJoin { name = \"kitty-rix-wrap\"; paths = [ pkgs.kitty ];"));
    assert!(out.contains("}) # terminal\n]"));
    assert!(validate_nix(&out).is_ok());
}

#[test]
fn add_external_flake_entry_is_armored() {
    let name = "__ext_flake or (zen.packages.${pkgs.system}.default)";
    let out = add_package(get_empty_group_template(), &pkg(name, Some("browser"), "default"), &None)
        .unwrap()
        .unwrap();
    assert!(out.contains(
        "pkgs.__ext_flake or (zen.packages.${pkgs.system}.default or zen.defaultPackage.${pkgs.system} or zen.packages.${pkgs.system}.zen) # browser"
    ));
    // The same alias is recognised as already listed.
    let again = add_package(&out, &pkg(name, None, "default"), &None).unwrap();
    assert_eq!(again, None);
}

#[test]
fn add_to_invalid_file_is_a_parse_error() {
    let r = add_package("{ pkgs, ... }: [", &pkg("eza", None, "default"), &None);
    assert!(matches!(r, Err(rix::errors::RixError::ParseError(_))));
}

#[test]
fn add_to_file_without_list_is_a_parse_error() {
    let r = add_package("{ pkgs, ... }: { }", &pkg("eza", None, "default"), &None);
    match r {
        Err(rix::errors::RixError::ParseError(m)) => {
            assert_eq!(m, "No list block [ ... ] found in target file")
        }
        other => panic!("unexpected {:?}", other),
    }
}

#[test]
fn packages_in_file_reads_names_and_comments() {
    let content = "{ pkgs, ... }:\n[\n  # header\n  pkgs.ripgrep # search\n  pkgs.fd\n  hello # greet\n]\n";
    let pk = packages_in_file(content).unwrap();
    assert_eq!(
        pk,
        vec![
            ("ripgrep".to_string(), "search".to_string()),
            ("fd".to_string(), "Managed via Rix".to_string()),
            ("hello".to_string(), "greet".to_string()),
        ]
    );
    assert_eq!(packages_in_file("{ x = 1; }"), None);
    assert_eq!(packages_in_file("[ (("), None);
}

#[test]
fn remove_missing_package_changes_nothing() {
    let content = "{ pkgs, ... }:\n[\n  pkgs.fd # find\n]\n";
    assert_eq!(remove_package_from_file(content, "ripgrep").unwrap(), None);
}

#[test]
fn remove_takes_the_whole_line() {
    let content = "{ pkgs, ... }:\n[\n  pkgs.fd # find\n  pkgs.bat # cat\n]\n";
    let out = remove_package_from_file(content, "fd").unwrap().unwrap();
    assert!(!out.contains("fd"));
    assert!(out.contains("pkgs.bat # cat"));
    assert_eq!(packages_in_file(&out).unwrap(), vec![("bat".to_string(), "cat".to_string())]);
}

#[test]
fn link_group_injects_module_once() {
    let linked = link_group_to_flake(FLAKE, "dev").unwrap().unwrap();
    assert!(linked.contains(
        "        modules = [\n         { home.packages = import ./groups/upstream/dev.nix { inherit pkgs; }; }\n"
    ));
    assert_eq!(link_group_to_flake(&linked, "dev").unwrap(), None);
}

#[test]
fn link_group_without_modules_is_an_error() {
    let r = link_group_to_flake("{ }\n", "dev");
    match r {
        Err(rix::errors::RixError::ParseError(m)) => assert_eq!(
            m,
            "Could not find 'modules = [' array in flake.nix to auto-link group"
        ),
        other => panic!("unexpected {:?}", other),
    }
}

#[test]
fn context_add_links_the_group() {
    let ctx = ctx("/home/alice/.config/rix");
    let edit = ctx
        .add_package(&pkg("fd", None, "dev"), &None, &Some(FLAKE.to_string()), &None)
        .unwrap();
    assert!(edit.group_file.unwrap().contains("pkgs.fd # Installed via Rix"));
    let flake = edit.flake.unwrap().unwrap();
    assert!(flake.contains("import ./groups/upstream/dev.nix"));
}

#[test]
fn lookup_matches_prefix_ignoring_case() {
    let ctx = ctx("/cfg/");
    let files = vec![
        ("default.nix".to_string(), "{ pkgs, ... }:\n[\n  pkgs.Ripgrep # a\n  pkgs.fd # b\n]\n".to_string()),
        ("notes.txt".to_string(), "{ pkgs, ... }:\n[\n  pkgs.ripgrep-all\n]\n".to_string()),
        ("dev.nix".to_string(), "{ pkgs, ... }:\n[\n  pkgs.ripgrep-all\n]\n".to_string()),
        (".nix".to_string(), "{ pkgs, ... }:\n[\n  pkgs.ripgrep\n]\n".to_string()),
    ];
    let found = ctx.lookup_packages(&files, "RIP");
    let got: Vec<(String, String)> =
        found.into_iter().map(|f| (f.name, f.file_path)).collect();
    assert_eq!(
        got,
        vec![
            ("Ripgrep".to_string(), "/cfg/groups/upstream/default.nix".to_string()),
            ("ripgrep-all".to_string(), "/cfg/groups/upstream/dev.nix".to_string()),
        ]
    );
}

#[test]
fn list_all_is_sorted_and_stable() {
    let ctx = ctx("/cfg");
    let files = vec![
        ("b.nix".to_string(), "{ pkgs, ... }:\n[\n  pkgs.zsh # z\n  pkgs.git # from b\n]\n".to_string()),
        ("a.nix".to_string(), "{ pkgs, ... }:\n[\n  pkgs.git # from a\n  pkgs.bat\n]\n".to_string()),
    ];
    let list = ctx.list_all_packages(&files);
    assert_eq!(
        list,
        vec![
            ("bat".to_string(), "a".to_string(), "Managed via Rix".to_string()),
            ("git".to_string(), "b".to_string(), "from b".to_string()),
            ("git".to_string(), "a".to_string(), "from a".to_string()),
            ("zsh".to_string(), "b".to_string(), "z".to_string()),
        ]
    );
}

#[test]
fn render_and_write_group_files() {
    let pk = vec![
        ("eza".to_string(), "ls".to_string()),
        ("(pkgs.callPackage ./x.nix {})".to_string(), "".to_string()),
    ];
    let text = render_nix_file(&pk, &None);
    assert_eq!(
        text,
        "{ pkgs, ... }:\n[\n  pkgs.eza # ls\n  (pkgs.callPackage ./x.nix {})\n]\n"
    );
    assert_eq!(write_nix_file(&pk, &None).unwrap(), text);
    let wrapped = render_nix_file(&vec![("kitty".to_string(), "t".to_string())], &Some("nixGLIntel".to_string()));
    assert_eq!(
        wrapped,
        "{ pkgs, ... }:\n[\n  (pkgs.writeShellScriptBin \"kitty\" ''exec ${pkgs.nixgl.nixGLIntel}/bin/nixGLIntel ${pkgs.kitty}/bin/kitty'') # t\n]\n"
    );
}

#[test]
fn write_rejects_invalid_nix() {
    let pk = vec![("(oops".to_string(), "x".to_string())];
    match write_nix_file(&pk, &None) {
        Err(rix::errors::RixError::InvalidNixSyntax(m)) => {
            assert!(m.starts_with("rnix AST validation failed before write: "))
        }
        other => panic!("unexpected {:?}", other),
    }
}

#[test]
fn wrapped_package_added_again_is_not_duplicated() {
    let wrapper = Some("nixGLIntel".to_string());
    let first = add_package(get_empty_group_template(), &pkg("kitty", Some("terminal"), "default"), &wrapper)
        .unwrap()
        .unwrap();
    // Same description: the file stays as it is.
    let again = add_package(&first, &pkg("kitty", Some("terminal"), "default"), &wrapper).unwrap();
    assert_eq!(again, None);
    // No description: nothing to change either.
    assert_eq!(add_package(&first, &pkg("kitty", None, "default"), &wrapper).unwrap(), None);
    // A new description replaces the comment of the wrapped entry.
    let updated = add_package(&first, &pkg("kitty", Some("GPU terminal"), "default"), &wrapper)
        .unwrap()
        .unwrap();
    assert!(updated.contains("}) # GPU terminal\n]"));
    assert!(!updated.contains("# terminal"));
    assert_eq!(updated.matches("pkgs.symlinkJoin").count(), 1);
    // Without a wrapper on this machine the wrapped entry is still found.
    assert_eq!(add_package(&first, &pkg("kitty", None, "default"), &None).unwrap(), None);
}

#[test]
fn removing_between_neighbours_on_one_line_keeps_them_apart() {
    let content = "{ pkgs, ... }: [ pkgs.a pkgs.b pkgs.c ]";
    let out = remove_package_from_file(content, "b").unwrap().unwrap();
    assert_eq!(out, "{ pkgs, ... }: [ pkgs.a pkgs.c ]");
    let names: Vec<String> = packages_in_file(&out).unwrap().into_iter().map(|(n, _)| n).collect();
    assert_eq!(names, vec!["a".to_string(), "c".to_string()]);
    // The first and the last element of such a list.
    assert_eq!(remove_package_from_file(content, "a").unwrap().unwrap(), "{ pkgs, ... }: [ pkgs.b pkgs.c ]");
    assert_eq!(remove_package_from_file(content, "c").unwrap().unwrap(), "{ pkgs, ... }: [ pkgs.a pkgs.b ]");
}

#[test]
fn removing_a_line_takes_its_comment_and_line_break() {
    let content = "{ pkgs, ... }:\n[\n  pkgs.a # first\n  pkgs.b # second\n]";
    let out = remove_package_from_file(content, "a").unwrap().unwrap();
    assert_eq!(out, "{ pkgs, ... }:\n[\npkgs.b # second\n]");
}

#[test]
fn removing_a_wrapped_entry() {
    let wrapper = Some("nixGLIntel".to_string());
    let added = add_package(get_empty_group_template(), &pkg("kitty", Some("terminal"), "default"), &wrapper)
        .unwrap()
        .unwrap();
    let out = remove_package_from_file(&added, "kitty").unwrap().unwrap();
    assert_eq!(out, get_empty_group_template());
}

#[test]
fn edits_on_a_parsed_file() {
    let content = get_empty_group_template();
    let evs = parse_nix(content).unwrap();
    let out = add_to_parsed(content, &evs, &pkg("eza", None, "default"), &None).unwrap().unwrap();
    assert_eq!(
        out,
        "{ pkgs, ... }:\n[\n  # Packages managed by Rix\n  pkgs.eza # Installed via Rix\n]"
    );
    let evs2 = parse_nix(&out).unwrap();
    assert_eq!(remove_from_parsed(&out, &evs2, "eza").unwrap().unwrap(), content);
    assert_eq!(remove_from_parsed(&out, &evs2, "bat").unwrap(), None);
    let no_list = "{ pkgs, ... }: { }";
    let evs3 = parse_nix(no_list).unwrap();
    assert!(matches!(
        add_to_parsed(no_list, &evs3, &pkg("eza", None, "default"), &None),
        Err(rix::errors::RixError::ParseError(m)) if m == "No list block [ ... ] found in target file"
    ));
    assert!(matches!(
        remove_from_parsed(no_list, &evs3, "eza"),
        Err(rix::errors::RixError::ParseError(m)) if m == "No list block [ ... ] found"
    ));
}

#[test]
fn removing_a_package_just_added_restores_the_file() {
    let content = "{ pkgs, ... }:\n[\n  pkgs.bat # cat\n]";
    for desc in [Some("find"), None] {
        let added = add_package(content, &pkg("fd", desc, "default"), &None).unwrap().unwrap();
        assert_ne!(added, content);
        assert_eq!(remove_package_from_file(&added, "fd").unwrap().unwrap(), content);
        // Adding it again, as it was added, changes nothing.
        assert_eq!(add_package(&added, &pkg("fd", desc, "default"), &None).unwrap(), None);
    }
}
