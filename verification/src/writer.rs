//! Rendering of group files and the templates Rix writes.
use vstd::prelude::*;
use crate::errors::RixError;
use crate::nix_list::{pairs_view, validate_nix, validation_message};
use crate::nix_syntax::rnix_parse;
use crate::errors::ErrorView;
use crate::text::{
    chars_of, concat, extend, seq_eq, starts_with, starts_with_exec, string_of, trim_start,
    trim_start_exec,
};

verus! {

/// A package expression that is written as it is: parenthesised, an
/// attribute set, a list, a string, a `let` or a `with` expression.
pub open spec fn is_complex_expr(n: Seq<char>) -> bool {
    ||| starts_with(n, "("@)
    ||| starts_with(n, "{"@)
    ||| starts_with(n, "["@)
    ||| starts_with(n, "\""@)
    ||| starts_with(n, "let "@)
    ||| starts_with(n, "with "@)
}

/// How a package expression is written: as it is when complex, else as a
/// `pkgs.` attribute, run through the NixGL wrapper when there is one.
pub open spec fn formatted_entry(n: Seq<char>, w: Option<Seq<char>>) -> Seq<char> {
    if is_complex_expr(n) {
        n
    } else {
        match w {
            Some(w) => "  (pkgs.writeShellScriptBin \""@ + n + "\" ''exec ${pkgs.nixgl."@ + w
                + "}/bin/"@ + w + " ${pkgs."@ + n + "}/bin/"@ + n + "'')"@,
            None => "  pkgs."@ + n,
        }
    }
}

/// The line of one entry: the expression, then ` # ` and the comment unless
/// the comment is empty.
pub open spec fn entry_text(n: Seq<char>, d: Seq<char>, w: Option<Seq<char>>) -> Seq<char> {
    let f = trim_start(formatted_entry(n, w));
    if d.len() == 0 {
        "  "@ + f + "\n"@
    } else {
        "  "@ + f + " # "@ + d + "\n"@
    }
}

/// Lines of the first `k` entries.
pub open spec fn entries_text(pkgs: Seq<(Seq<char>, Seq<char>)>, w: Option<Seq<char>>, k: int) -> Seq<
    char,
>
    decreases k,
{
    if k <= 0 || k > pkgs.len() {
        Seq::empty()
    } else {
        entries_text(pkgs, w, k - 1) + entry_text(pkgs[k - 1].0, pkgs[k - 1].1, w)
    }
}

/// A group file listing the given entries.
pub open spec fn group_file_text(pkgs: Seq<(Seq<char>, Seq<char>)>, w: Option<Seq<char>>) -> Seq<char> {
    "{ pkgs, ... }:\n[\n"@ + entries_text(pkgs, w, pkgs.len() as int) + "]\n"@
}

/// View of an optional string.
pub open spec fn opt_view(o: Option<String>) -> Option<Seq<char>> {
    match o {
        Some(s) => Some(s@),
        None => None,
    }
}

fn is_complex_expr_exec(n: &[char]) -> (b: bool)
    ensures
        b == is_complex_expr(n@),
{
    starts_with_exec(n, &chars_of("(")) || starts_with_exec(n, &chars_of("{"))
        || starts_with_exec(n, &chars_of("[")) || starts_with_exec(n, &chars_of("\""))
        || starts_with_exec(n, &chars_of("let ")) || starts_with_exec(n, &chars_of("with "))
}

fn entry_text_exec(n: &[char], d: &[char], w: &Option<String>) -> (r: Vec<char>)
    ensures
        r@ == entry_text(n@, d@, opt_view(*w)),
{
    let f: Vec<char> = if is_complex_expr_exec(n) {
        crate::text::slice(n, 0, n.len())
    } else {
        match w {
            Some(w) => {
                let wc = chars_of(w.as_str());
                let mut f = chars_of("  (pkgs.writeShellScriptBin \"");
                extend(&mut f, n);
                extend(&mut f, &chars_of("\" ''exec ${pkgs.nixgl."));
                extend(&mut f, &wc);
                extend(&mut f, &chars_of("}/bin/"));
                extend(&mut f, &wc);
                extend(&mut f, &chars_of(" ${pkgs."));
                extend(&mut f, n);
                extend(&mut f, &chars_of("}/bin/"));
                extend(&mut f, n);
                extend(&mut f, &chars_of("'')"));
                f
            },
            None => {
                let mut f = chars_of("  pkgs.");
                extend(&mut f, n);
                f
            },
        }
    };
    assert(f@ =~= formatted_entry(n@, opt_view(*w)));
    let f = trim_start_exec(&f);
    let mut r = chars_of("  ");
    extend(&mut r, &f);
    if d.len() == 0 {
        extend(&mut r, &chars_of("\n"));
    } else {
        extend(&mut r, &chars_of(" # "));
        extend(&mut r, d);
        extend(&mut r, &chars_of("\n"));
    }
    r
}

/// Renders a group file listing the given entries (package, comment).
pub fn render_nix_file(packages: &Vec<(String, String)>, nixgl_wrapper: &Option<String>) -> (r:
    String)
    ensures
        r@ == group_file_text(pairs_view(packages@), opt_view(*nixgl_wrapper)),
{
    let ghost pv = pairs_view(packages@);
    let ghost w = opt_view(*nixgl_wrapper);
    let mut out = chars_of("{ pkgs, ... }:\n[\n");
    let mut i: usize = 0;
    while i < packages.len()
        invariant
            pv == pairs_view(packages@),
            w == opt_view(*nixgl_wrapper),
            i <= packages.len(),
            out@ == "{ pkgs, ... }:\n[\n"@ + entries_text(pv, w, i as int),
        decreases packages.len() - i,
    {
        let line = entry_text_exec(
            &chars_of(packages[i].0.as_str()),
            &chars_of(packages[i].1.as_str()),
            nixgl_wrapper,
        );
        extend(&mut out, &line);
        i = i + 1;
    }
    extend(&mut out, &chars_of("]\n"));
    string_of(&out)
}

/// Formats a collection of entries (package, comment) into a group file and
/// checks it before it is written; the written text is returned. The NixGL
/// wrapper, when one is given, is injected into every plain entry.
pub fn write_nix_file(packages: &Vec<(String, String)>, nixgl_wrapper: &Option<String>) -> (r: Result<
    String,
    RixError,
>)
    ensures
        match r {
            Ok(s) => s@ == group_file_text(pairs_view(packages@), opt_view(*nixgl_wrapper))
                && rnix_parse(s@) is Ok,
            Err(e) => rnix_parse(group_file_text(pairs_view(packages@), opt_view(*nixgl_wrapper)))
                matches Err((_, listed)) && e@ == ErrorView::InvalidNixSyntax(
                validation_message(listed),
            ),
        },
{
    let content = render_nix_file(packages, nixgl_wrapper);
    match validate_nix(content.as_str()) {
        Ok(()) => Ok(content),
        Err(e) => Err(e),
    }
}

/// The template of a new group file: an empty package list.
pub open spec fn empty_group_template() -> Seq<char> {
    "{ pkgs, ... }:\n[\n  # Packages managed by Rix\n]"@
}

/// Returns a clean group template file layout.
pub fn get_empty_group_template() -> (r: &'static str)
    ensures
        r@ == empty_group_template(),
{
    "{ pkgs, ... }:\n[\n  # Packages managed by Rix\n]"
}

/// The `.gitignore` written next to a new flake.
pub open spec fn default_gitignore() -> Seq<char> {
    "hardware-state.nix\nresult\n"@
}

/// Text of the `.gitignore` that keeps the hardware lock file and Nix build
/// `result` links out of the repository.
pub fn default_gitignore_content() -> (r: &'static str)
    ensures
        r@ == default_gitignore(),
{
    "hardware-state.nix\nresult\n"
}

/// The Nix system of a processor architecture (`std::env::consts::ARCH`):
/// Linux on that processor, `x86_64-linux` for any other.
pub open spec fn nix_system(arch: Seq<char>) -> Seq<char> {
    if arch == "aarch64"@ {
        "aarch64-linux"@
    } else {
        "x86_64-linux"@
    }
}

/// The master flake for a system, user and home directory.
pub open spec fn bootstrap_flake(system: Seq<char>, user: Seq<char>, home: Seq<char>) -> Seq<char> {
    "{\n  description = \"Rix automated system layout profile configuration\";\n\n  inputs = {\n    nixpkgs.url = \"github:nixos/nixpkgs/nixos-unstable\";\n    home-manager = {\n      url = \"github:nix-community/home-manager\";\n      inputs.nixpkgs.follows = \"nixpkgs\";\n    };\n    nixgl.url = \"github:nix-community/nixGL\";\n  };\n\n  outputs = { self, nixpkgs, home-manager, nixgl, ... }:\n    let\n      system = \""@ + system + "\";\n      pkgs = import nixpkgs {\n        inherit system;\n        overlays = [ nixgl.overlay ];\n      };\n    in {\n      homeConfigurations.\""@ + user + "\" = home-manager.lib.homeManagerConfiguration {\n        inherit pkgs;\n        modules = [\n          {\n            home.username = \""@ + user + "\";\n            home.homeDirectory = \""@ + home + "\";\n            home.stateVersion = \"24.05\";\n            \n            home.packages = import ./groups/upstream/default.nix { inherit pkgs; };\n          }\n        ];\n      };\n    };\n}"@
}

/// The master flake written at initialisation: a Home Manager
/// configuration for the user (`USER`, else `default`) and home directory
/// (`HOME`, else `/home/<user>`) that imports the default group.
pub fn get_bootstrap_flake_template(user: &Option<String>, home: &Option<String>, arch: &str) -> (r:
    String)
    ensures
        ({
            let u = match user {
                Some(u) => u@,
                None => "default"@,
            };
            let h = match home {
                Some(h) => h@,
                None => "/home/"@ + u,
            };
            r@ == bootstrap_flake(nix_system(arch@), u, h)
        }),
{
    let u = match user {
        Some(u) => chars_of(u.as_str()),
        None => chars_of("default"),
    };
    let h = match home {
        Some(h) => chars_of(h.as_str()),
        None => concat(&chars_of("/home/"), &u),
    };
    let system = if seq_eq(chars_of(arch).as_slice(), chars_of("aarch64").as_slice()) {
        chars_of("aarch64-linux")
    } else {
        chars_of("x86_64-linux")
    };
    let mut v = chars_of("{\n  description = \"Rix automated system layout profile configuration\";\n\n  inputs = {\n    nixpkgs.url = \"github:nixos/nixpkgs/nixos-unstable\";\n    home-manager = {\n      url = \"github:nix-community/home-manager\";\n      inputs.nixpkgs.follows = \"nixpkgs\";\n    };\n    nixgl.url = \"github:nix-community/nixGL\";\n  };\n\n  outputs = { self, nixpkgs, home-manager, nixgl, ... }:\n    let\n      system = \"");
    extend(&mut v, &system);
    extend(&mut v, &chars_of("\";\n      pkgs = import nixpkgs {\n        inherit system;\n        overlays = [ nixgl.overlay ];\n      };\n    in {\n      homeConfigurations.\""));
    extend(&mut v, &u);
    extend(&mut v, &chars_of("\" = home-manager.lib.homeManagerConfiguration {\n        inherit pkgs;\n        modules = [\n          {\n            home.username = \""));
    extend(&mut v, &u);
    extend(&mut v, &chars_of("\";\n            home.homeDirectory = \""));
    extend(&mut v, &h);
    extend(&mut v, &chars_of("\";\n            home.stateVersion = \"24.05\";\n            \n            home.packages = import ./groups/upstream/default.nix { inherit pkgs; };\n          }\n        ];\n      };\n    };\n}"));
    string_of(&v)
}

} // verus!
