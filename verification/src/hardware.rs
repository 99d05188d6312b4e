//! Graphics hardware detection and the NixGL wrapper lock file.
//!
//! `rix refresh` looks at the primary DRM cards of the machine, picks the
//! NixGL wrapper that suits their vendor, writes it as a Nix string into
//! `hardware-state.nix`, and keeps that file out of Git. Group files read
//! the wrapper back from the same file.
use vstd::prelude::*;
use crate::text::{
    chars_of, concat, contains, contains_exec, lead_from, lemma_contains_concat,
    lemma_match_found, match_at, starts_with, starts_with_exec, string_of, tail_from, trim,
    trim_end_matches, trim_exec, trim_matches_char, trim_matches_char_exec, trim_start_matches,
};

verus! {

/// File name of the hardware lock file, relative to the configuration
/// directory.
pub open spec fn state_file_name() -> Seq<char> {
    "hardware-state.nix"@
}

/// The wrapper named by the content of the lock file: the content without
/// surrounding whitespace and double quotes, when that is not empty.
pub open spec fn wrapper_of(content: Seq<char>) -> Option<Seq<char>> {
    let w = trim_matches_char(trim(content), '"');
    if w.len() > 0 {
        Some(w)
    } else {
        None
    }
}

/// Reads the NixGL wrapper from the content of the hardware lock file, or
/// `None` when there is no lock file (`state` is `None`) or it names none.
pub fn get_nixgl_wrapper(state: &Option<String>) -> (r: Option<String>)
    ensures
        match state {
            Some(c) => match r {
                Some(w) => wrapper_of(c@) == Some(w@),
                None => wrapper_of(c@) is None,
            },
            None => r is None,
        },
{
    match state {
        Some(c) => {
            let w = trim_matches_char_exec(&trim_exec(&chars_of(c.as_str())), '"');
            if w.len() > 0 {
                Some(string_of(&w))
            } else {
                None
            }
        },
        None => None,
    }
}

/// The content written to the lock file for a wrapper: a Nix string and a
/// newline.
pub open spec fn state_text(w: Seq<char>) -> Seq<char> {
    "\""@ + w + "\"\n"@
}

/// The content of the lock file for a wrapper.
pub fn hardware_state_content(wrapper: &str) -> (r: String)
    ensures
        r@ == state_text(wrapper@),
{
    let v = concat(&concat(&chars_of("\""), &chars_of(wrapper)), &chars_of("\"\n"));
    string_of(&v)
}

/// A DRM entry that is a primary card (`card0`, not a connector such as
/// `card0-HDMI-A-1`).
pub open spec fn is_primary_card(name: Seq<char>) -> bool {
    starts_with(name, "card"@) && !contains(name, "-"@)
}

/// Whether a DRM entry is a primary card.
pub fn is_primary_card_exec(name: &str) -> (b: bool)
    ensures
        b == is_primary_card(name@),
{
    let n = chars_of(name);
    starts_with_exec(&n, &chars_of("card")) && !contains_exec(&n, &chars_of("-"))
}

/// The wrapper for Nvidia hardware.
pub open spec fn nvidia_wrapper() -> Seq<char> {
    "nixGLNvidia"@
}

/// The Mesa wrapper, used for AMD and Intel hardware and when nothing is
/// recognised.
pub open spec fn mesa_wrapper() -> Seq<char> {
    "nixGLIntel"@
}

/// Outcome of a scan of DRM entries: the wrapper chosen and the messages
/// reported along the way.
pub struct ScanView {
    pub wrapper: Seq<char>,
    pub messages: Seq<Seq<char>>,
}

/// The scan of the entries from `i` on, with the wrapper and messages found
/// before `i`. An entry is a DRM name and the content of its vendor file,
/// when it could be read. An Nvidia card ends the scan.
pub open spec fn scan_from(
    cards: Seq<(Seq<char>, Option<Seq<char>>)>,
    i: int,
    wrapper: Seq<char>,
    messages: Seq<Seq<char>>,
) -> ScanView
    decreases cards.len() - i,
{
    if i < 0 || i >= cards.len() {
        ScanView { wrapper, messages }
    } else {
        let (name, vendor) = cards[i];
        if is_primary_card(name) && vendor is Some {
            let vid = trim(vendor->0);
            if vid == "0x10de"@ {
                ScanView {
                    wrapper: nvidia_wrapper(),
                    messages: messages.push("Found Nvidia GPU (Vendor: "@ + vid + ")"@),
                }
            } else if vid == "0x1002"@ {
                scan_from(
                    cards,
                    i + 1,
                    mesa_wrapper(),
                    messages.push("Found AMD GPU (Vendor: "@ + vid + ")"@),
                )
            } else if vid == "0x8086"@ {
                scan_from(
                    cards,
                    i + 1,
                    mesa_wrapper(),
                    messages.push("Found Intel GPU (Vendor: "@ + vid + ")"@),
                )
            } else {
                scan_from(cards, i + 1, wrapper, messages)
            }
        } else {
            scan_from(cards, i + 1, wrapper, messages)
        }
    }
}

/// The scan of all entries, starting from the Mesa wrapper.
pub open spec fn scan_spec(cards: Seq<(Seq<char>, Option<Seq<char>>)>) -> ScanView {
    scan_from(cards, 0, mesa_wrapper(), seq![])
}

/// Views of DRM entries.
pub open spec fn cards_view(cards: Seq<(String, Option<String>)>) -> Seq<
    (Seq<char>, Option<Seq<char>>),
> {
    cards.map_values(
        |c: (String, Option<String>)|
            (
                c.0@,
                match c.1 {
                    Some(v) => Some(v@),
                    None => None,
                },
            ),
    )
}

/// Result of a scan of the graphics cards.
pub struct GpuScan {
    pub wrapper: String,
    pub messages: Vec<String>,
}

fn is_literal(v: &Vec<char>, lit: &str) -> (b: bool)
    ensures
        b == (v@ == lit@),
{
    crate::text::seq_eq(v.as_slice(), chars_of(lit).as_slice())
}

fn found_message(kind: &str, vid: &Vec<char>) -> (r: String)
    ensures
        r@ == kind@ + vid@ + ")"@,
{
    let v = concat(&concat(&chars_of(kind), vid), &chars_of(")"));
    string_of(&v)
}

/// Chooses the NixGL wrapper from the DRM entries of the machine, in the
/// order in which the directory lists them: Nvidia wins at once, AMD and
/// Intel give the Mesa wrapper, and so does a machine where nothing is
/// recognised.
pub fn scan_gpu_cards(cards: &Vec<(String, Option<String>)>) -> (r: GpuScan)
    ensures
        r.wrapper@ == scan_spec(cards_view(cards@)).wrapper,
        r.messages@.map_values(|m: String| m@) == scan_spec(cards_view(cards@)).messages,
{
    let ghost cv = cards_view(cards@);
    let mut wrapper = String::from_str("nixGLIntel");
    let mut messages: Vec<String> = Vec::new();
    let mut i: usize = 0;
    assert(messages@.map_values(|m: String| m@) =~= Seq::<Seq<char>>::empty());
    while i < cards.len()
        invariant
            i <= cards@.len(),
            cv == cards_view(cards@),
            scan_from(cv, i as int, wrapper@, messages@.map_values(|m: String| m@)) == scan_spec(
                cv,
            ),
        decreases cards.len() - i,
    {
        let ghost msgs = messages@.map_values(|m: String| m@);
        let (name, vendor) = &cards[i];
        assert(cv[i as int].0 == name@);
        if is_primary_card_exec(name.as_str()) {
            match vendor {
                Some(v) => {
                    assert(cv[i as int].1 == Some(v@));
                    let vid = trim_exec(&chars_of(v.as_str()));
                    if is_literal(&vid, "0x10de") {
                        let m = found_message("Found Nvidia GPU (Vendor: ", &vid);
                        messages.push(m);
                        assert(messages@.map_values(|m: String| m@) =~= msgs.push(m@));
                        return GpuScan { wrapper: String::from_str("nixGLNvidia"), messages };
                    } else if is_literal(&vid, "0x1002") {
                        let m = found_message("Found AMD GPU (Vendor: ", &vid);
                        messages.push(m);
                        assert(messages@.map_values(|m: String| m@) =~= msgs.push(m@));
                        wrapper = String::from_str("nixGLIntel");
                    } else if is_literal(&vid, "0x8086") {
                        let m = found_message("Found Intel GPU (Vendor: ", &vid);
                        messages.push(m);
                        assert(messages@.map_values(|m: String| m@) =~= msgs.push(m@));
                        wrapper = String::from_str("nixGLIntel");
                    }
                },
                None => {
                    assert(cv[i as int].1 is None);
                },
            }
        }
        i = i + 1;
    }
    GpuScan { wrapper, messages }
}

/// Entry `i` is a primary card whose vendor file names Nvidia.
pub open spec fn nvidia_card(cards: Seq<(Seq<char>, Option<Seq<char>>)>, i: int) -> bool {
    &&& 0 <= i < cards.len()
    &&& is_primary_card(cards[i].0)
    &&& cards[i].1 is Some
    &&& trim(cards[i].1->0) == "0x10de"@
}

proof fn lemma_wrappers_differ()
    ensures
        mesa_wrapper() != nvidia_wrapper(),
{
    reveal_strlit("nixGLIntel");
    reveal_strlit("nixGLNvidia");
    assert(mesa_wrapper()[5] != nvidia_wrapper()[5]);
}

proof fn lemma_scan_from_nvidia(
    cards: Seq<(Seq<char>, Option<Seq<char>>)>,
    i: int,
    messages: Seq<Seq<char>>,
)
    requires
        0 <= i <= cards.len(),
        forall|k: int| 0 <= k < i ==> !nvidia_card(cards, k),
    ensures
        scan_from(cards, i, mesa_wrapper(), messages).wrapper == nvidia_wrapper() <==> exists|k: int|
            0 <= k < cards.len() && #[trigger] nvidia_card(cards, k),
        scan_from(cards, i, mesa_wrapper(), messages).wrapper == mesa_wrapper() || scan_from(
            cards,
            i,
            mesa_wrapper(),
            messages,
        ).wrapper == nvidia_wrapper(),
    decreases cards.len() - i,
{
    lemma_wrappers_differ();
    if i == cards.len() {
        assert(forall|k: int| 0 <= k < cards.len() ==> !#[trigger] nvidia_card(cards, k));
    } else {
        let (name, vendor) = cards[i];
        if nvidia_card(cards, i) {
            assert(scan_from(cards, i, mesa_wrapper(), messages).wrapper == nvidia_wrapper());
        } else {
            let r = scan_from(cards, i, mesa_wrapper(), messages);
            if is_primary_card(name) && vendor is Some {
                let vid = trim(vendor->0);
                let m2 = if vid == "0x1002"@ {
                    messages.push("Found AMD GPU (Vendor: "@ + vid + ")"@)
                } else if vid == "0x8086"@ {
                    messages.push("Found Intel GPU (Vendor: "@ + vid + ")"@)
                } else {
                    messages
                };
                assert(r == scan_from(cards, i + 1, mesa_wrapper(), m2));
                lemma_scan_from_nvidia(cards, i + 1, m2);
            } else {
                assert(r == scan_from(cards, i + 1, mesa_wrapper(), messages));
                lemma_scan_from_nvidia(cards, i + 1, messages);
            }
        }
    }
}

/// Nvidia takes priority: the scan picks the Nvidia wrapper exactly when
/// some primary card is an Nvidia card, and the Mesa wrapper otherwise,
/// whatever the order of the cards and whatever other vendors they have.
pub proof fn law_nvidia_priority(cards: Seq<(Seq<char>, Option<Seq<char>>)>)
    ensures
        scan_spec(cards).wrapper == nvidia_wrapper() <==> exists|k: int|
            0 <= k < cards.len() && #[trigger] nvidia_card(cards, k),
        scan_spec(cards).wrapper == mesa_wrapper() || scan_spec(cards).wrapper == nvidia_wrapper(),
{
    lemma_scan_from_nvidia(cards, 0, seq![]);
}

/// The line that keeps the lock file out of Git.
pub open spec fn ignore_entry() -> Seq<char> {
    "hardware-state.nix\n"@
}

/// New content of `.gitignore` after a refresh, or `None` when the file is
/// left as it is: a missing file gets the entry alone, a file that does not
/// mention the lock file gets the entry appended.
pub open spec fn gitignore_spec(existing: Option<Seq<char>>) -> Option<Seq<char>> {
    match existing {
        None => Some(ignore_entry()),
        Some(c) => if contains(c, state_file_name()) {
            None
        } else {
            Some(c + ignore_entry())
        },
    }
}

/// The `.gitignore` update of a refresh; `existing` is `None` when there
/// is no `.gitignore`.
pub fn update_gitignore(existing: &Option<String>) -> (r: Option<String>)
    ensures
        match existing {
            Some(c) => match r {
                Some(n) => gitignore_spec(Some(c@)) == Some(n@),
                None => gitignore_spec(Some(c@)) is None,
            },
            None => r matches Some(n) && n@ == ignore_entry(),
        },
{
    match existing {
        None => Some(String::from_str("hardware-state.nix\n")),
        Some(c) => {
            let cc = chars_of(c.as_str());
            if contains_exec(&cc, &chars_of("hardware-state.nix")) {
                None
            } else {
                let v = concat(&cc, &chars_of("hardware-state.nix\n"));
                Some(string_of(&v))
            }
        },
    }
}

proof fn lemma_contains_self(p: Seq<char>)
    ensures
        contains(p, p),
{
    assert(p.subrange(0, p.len() as int) =~= p);
    assert(match_at(p, p, 0));
    lemma_match_found(p, p, 0, 0);
}

/// A refresh leaves a `.gitignore` alone once it has been updated: the
/// update is idempotent.
pub proof fn law_gitignore_idempotent(existing: Option<Seq<char>>)
    ensures
        gitignore_spec(existing) matches Some(n) ==> gitignore_spec(Some(n)) is None,
{
    reveal_strlit("hardware-state.nix");
    reveal_strlit("hardware-state.nix\n");
    reveal_strlit("\n");
    let p = state_file_name();
    assert(ignore_entry() =~= p + "\n"@);
    lemma_contains_self(p);
    match existing {
        None => {
            lemma_contains_concat(Seq::empty(), p, "\n"@, p);
            assert(Seq::<char>::empty() + p + "\n"@ =~= ignore_entry());
        },
        Some(c) => {
            lemma_contains_concat(c, p, "\n"@, p);
            assert(c + p + "\n"@ =~= c + ignore_entry());
        },
    }
}

/// What a refresh writes into the lock file, `get_nixgl_wrapper` reads
/// back: the wrapper, for any non-empty wrapper name that neither starts
/// nor ends with a double quote.
pub proof fn law_wrapper_roundtrip(w: Seq<char>)
    requires
        w.len() > 0,
        w[0] != '"',
        w.last() != '"',
    ensures
        wrapper_of(state_text(w)) == Some(w),
{
    reveal_strlit("\"");
    reveal_strlit("\"\n");
    let s = state_text(w);
    let n = s.len() as int;
    assert(s[0] == '"');
    assert(s[n - 1] == '\n');
    assert(s[n - 2] == '"');
    assert(lead_from(s, 0) == 0);
    assert(tail_from(s, n - 1) == n - 1);
    assert(tail_from(s, n) == n - 1);
    let x = s.subrange(0, n - 1);
    assert(trim(s) == x);
    let q = seq!['"'];
    assert(x.take(1) =~= q);
    let y = x.skip(1);
    assert(y =~= w + q);
    assert(y[0] == w[0]);
    assert(!(y.take(1) =~= q)) by {
        assert(y.take(1)[0] == w[0]);
    }
    assert(trim_start_matches(y, q) == y);
    assert(trim_start_matches(x, q) == y);
    assert(y.skip(y.len() - 1) =~= q);
    assert(y.take(y.len() - 1) =~= w);
    assert(!(w.skip(w.len() - 1) =~= q)) by {
        assert(w.skip(w.len() - 1)[0] == w.last());
    }
    assert(trim_end_matches(w, q) == w);
    assert(trim_end_matches(y, q) == w);
}


/// The `.gitignore` written with a new flake already keeps the lock file
/// out of Git: a refresh leaves it as it is.
pub proof fn law_default_gitignore_ignores_lock_file()
    ensures
        contains(crate::writer::default_gitignore(), state_file_name()),
        gitignore_spec(Some(crate::writer::default_gitignore())) is None,
{
    reveal_strlit("hardware-state.nix");
    reveal_strlit("hardware-state.nix\nresult\n");
    let p = state_file_name();
    lemma_contains_self(p);
    lemma_contains_concat(Seq::empty(), p, "\nresult\n"@, p);
    reveal_strlit("\nresult\n");
    assert(Seq::<char>::empty() + p + "\nresult\n"@ =~= crate::writer::default_gitignore());
}

} // verus!
