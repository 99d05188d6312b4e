use rix::quiet::{run_outcome, words_exec, store_name_exec, LineAction, QuietState};

fn chars(s: &str) -> Vec<char> {
    s.chars().collect()
}

fn text(v: Vec<char>) -> String {
    v.into_iter().collect()
}

#[test]
fn lock_file_update_becomes_a_status() {
    let mut st = QuietState::new();
    assert_eq!(
        st.process_line("warning: updating lock file '/etc/rix/flake.lock':"),
        LineAction::Status("Updating flake.lock inputs...".to_string())
    );
}

#[test]
fn noise_is_skipped() {
    let mut st = QuietState::new();
    for line in [
        "• Updated input 'nixpkgs':",
        "    'github:nixos/nixpkgs/abc' (2024-01-01)",
        "  follows 'nixpkgs'",
        "[ 45%] Building C object",
        "-- Install configuration: \"Release\"",
        "shrinking RPATHs of ELF executables and libraries in /nix/store/x",
        "warning: Git tree '/etc/rix' is dirty",
        "       at /nix/store/abc-source/lib.nix:10:5:",
        "           12|   foo = bar;",
        "             |   ^",
        "  /nix/store/abc-hello-2.12.drv",
        "",
        "   ",
    ] {
        assert_eq!(st.process_line(line), LineAction::Skip, "line {:?}", line);
    }
}

#[test]
fn fetch_announcement_starts_a_bar() {
    let mut st = QuietState::new();
    assert_eq!(
        st.process_line("these 42 paths will be fetched (10.5 MiB download, 50 MiB unpacked):"),
        LineAction::FetchBar(42)
    );
    assert_eq!(st.total_fetches(), 42);
    assert_eq!(st.current_fetches(), 0);
    assert_eq!(st.process_line("paths will be fetched soon"), LineAction::Skip);
    assert_eq!(st.total_fetches(), 42);
}

#[test]
fn copying_paths_advance_the_bar() {
    let mut st = QuietState::new();
    st.process_line("these 2 paths will be fetched (1 MiB download):");
    assert_eq!(
        st.process_line("copying path '/nix/store/0123456789abcdefghijklmnopqrstuv-ripgrep-14.1.0' from 'https://cache.nixos.org'..."),
        LineAction::Fetched { position: Some(1), message: Some("Downloading ripgrep-14.1.0...".to_string()) }
    );
    assert_eq!(
        st.process_line("  /nix/store/0123456789abcdefghijklmnopqrstuv-fd-9.0.0"),
        LineAction::Fetched { position: Some(2), message: Some("Fetching fd-9.0.0...".to_string()) }
    );
    assert_eq!(st.current_fetches(), 2);
}

#[test]
fn fetches_without_announcement_have_no_position() {
    let mut st = QuietState::new();
    assert_eq!(
        st.process_line("copying path '/nix/store/short-name"),
        LineAction::Fetched { position: None, message: None }
    );
    assert_eq!(st.current_fetches(), 1);
}

#[test]
fn build_announcement_and_builds() {
    let mut st = QuietState::new();
    assert_eq!(
        st.process_line("these 3 derivations will be built:"),
        LineAction::BuildBar(3)
    );
    assert_eq!(
        st.process_line("these many derivations will be built:"),
        LineAction::Skip
    );
    assert_eq!(
        st.process_line("building '/nix/store/0123456789abcdefghijklmnopqrstuv-hello-2.12.drv'..."),
        LineAction::Built(Some("Building hello...".to_string()))
    );
    assert_eq!(
        st.process_line("building '/nix/store/0123456789abcdefghijklmnopqrstuv-hello.drv'..."),
        LineAction::Built(Some("Building hello...".to_string()))
    );
}

#[test]
fn build_log_lines_become_phase_messages() {
    let mut st = QuietState::new();
    assert_eq!(
        st.process_line("hello> checking for gcc... yes"),
        LineAction::Status("hello: checking for gcc... yes".to_string())
    );
    assert_eq!(st.process_line("hello>   "), LineAction::Skip);
    assert_eq!(
        st.process_line("error: a > b is false"),
        LineAction::Print("error: a > b is false".to_string())
    );
}

#[test]
fn warnings_are_printed_once() {
    let mut st = QuietState::new();
    let w = "warning: ignoring untrusted substituter";
    assert_eq!(st.process_line(w), LineAction::Print(w.to_string()));
    assert_eq!(st.process_line(w), LineAction::Skip);
    assert_eq!(st.process_line(&format!("  {}  ", w)), LineAction::Skip);
    assert_eq!(st.process_line("error: boom"), LineAction::Print("error: boom".to_string()));
    assert_eq!(st.process_line("error: boom"), LineAction::Print("error: boom".to_string()));
}

#[test]
fn store_names_lose_their_hash() {
    assert_eq!(
        text(store_name_exec(&chars("0123456789abcdefghijklmnopqrstuv-hello-2.12"))),
        "hello-2.12"
    );
    assert_eq!(text(store_name_exec(&chars("0123456789abcdefghijklmnopqrstuv-"))), "0123456789abcdefghijklmnopqrstuv-");
    assert_eq!(text(store_name_exec(&chars("short-name"))), "short-name");
    assert_eq!(
        text(store_name_exec(&chars("é123456789abcdefghijklmnopqrstu-x-y"))),
        "x-y"
    );
}

#[test]
fn words_split_on_whitespace() {
    let ws: Vec<String> = words_exec(&chars("  these\t3  paths\n")).into_iter().map(text).collect();
    assert_eq!(ws, vec!["these", "3", "paths"]);
    assert!(words_exec(&chars("   ")).is_empty());
}

#[test]
fn warnings_are_printed_once_over_a_run() {
    let mut st = QuietState::new();
    let w = "warning: ignoring untrusted substituter";
    assert_eq!(st.process_line(w), LineAction::Print(w.to_string()));
    assert_eq!(st.process_line("some output"), LineAction::Print("some output".to_string()));
    assert_eq!(st.process_line("warning: another one"), LineAction::Print("warning: another one".to_string()));
    assert_eq!(st.process_line(&format!("\t{}", w)), LineAction::Skip);
    assert_eq!(st.process_line("warning: another one"), LineAction::Skip);
}

#[test]
fn run_outcomes() {
    assert_eq!(run_outcome(Some(true), "Build failed"), Ok(()));
    assert_eq!(
        run_outcome(Some(false), "Build failed"),
        Err(rix::errors::RixError::ParseError("Build failed".to_string()))
    );
    assert_eq!(
        run_outcome(None, "Update failed"),
        Err(rix::errors::RixError::ParseError("Update failed".to_string()))
    );
}
