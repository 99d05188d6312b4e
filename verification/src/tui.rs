//! State machines of the terminal interface: the menu, the package list
//! and the history list, and the application that routes key presses to
//! the screen on display. Drawing lives in the application.
use vstd::prelude::*;
use crate::commands::{HistoryEntry, entry_view};
use crate::context::{RixContext, rows_view};

verus! {

/// A key press, as the interface distinguishes them.
#[derive(Debug, Clone, Copy, PartialEq, Eq)]
pub enum Key {
    Up,
    Down,
    Enter,
    Esc,
    Backspace,
    Char(char),
    Other,
}

/// A terminal event.
#[derive(Debug, Clone, Copy, PartialEq, Eq)]
pub enum Event {
    Key(Key),
    Resize,
    Other,
}

/// The screen on display.
#[derive(Debug, Clone, Copy, PartialEq, Eq)]
pub enum Screen {
    Menu,
    Packages,
    History,
}

// ---------------------------------------------------------------------------
// Moving a selection
// ---------------------------------------------------------------------------

/// The selection after `Up` in a list of `n` entries: the previous entry,
/// wrapping from the first to the last (staying put in an empty list).
pub open spec fn up_spec(sel: int, n: int) -> int {
    if sel > 0 {
        sel - 1
    } else if n > 0 {
        n - 1
    } else {
        sel
    }
}

/// The selection after `Down` in a list of `n` entries: the next entry,
/// wrapping from the last to the first.
pub open spec fn down_spec(sel: int, n: int) -> int {
    (sel + 1) % (if n > 1 {
        n
    } else {
        1
    })
}

fn up_exec(sel: usize, n: usize) -> (r: usize)
    ensures
        r == up_spec(sel as int, n as int),
{
    if sel > 0 {
        sel - 1
    } else if n > 0 {
        n - 1
    } else {
        sel
    }
}

fn down_exec(sel: usize, n: usize) -> (r: usize)
    requires
        sel < usize::MAX,
    ensures
        r == down_spec(sel as int, n as int),
        r < (if n > 1 {
            n
        } else {
            1
        }),
{
    let m: usize = if n > 1 {
        n
    } else {
        1
    };
    (sel + 1) % m
}

/// Moving down then up, or up then down, in a non-empty list comes back to
/// the entry one started from.
pub proof fn law_up_down_inverse(sel: int, n: int)
    requires
        0 <= sel < n,
    ensures
        up_spec(down_spec(sel, n), n) == sel,
        down_spec(up_spec(sel, n), n) == sel,
{
    if n > 1 {
        if sel + 1 < n {
            assert((sel + 1) % n == sel + 1) by (nonlinear_arith)
                requires
                    0 <= sel + 1 < n,
            ;
        } else {
            assert((sel + 1) % n == 0) by (nonlinear_arith)
                requires
                    sel + 1 == n,
                    n > 1,
            ;
        }
        if sel > 0 {
            assert(sel % n == sel) by (nonlinear_arith)
                requires
                    0 <= sel < n,
            ;
        } else {
            assert(n % n == 0) by (nonlinear_arith)
                requires
                    n > 1,
            ;
        }
    } else {
        assert(sel == 0);
    }
}

/// A selection inside a non-empty list stays inside it whatever key moves
/// it.
pub proof fn law_selection_in_range(sel: int, n: int)
    requires
        0 <= sel < n,
    ensures
        0 <= up_spec(sel, n) < n,
        0 <= down_spec(sel, n) < n,
{
    let m = if n > 1 {
        n
    } else {
        1
    };
    assert(0 <= (sel + 1) % m < m) by (nonlinear_arith)
        requires
            m >= 1,
    ;
}

// ---------------------------------------------------------------------------
// The menu
// ---------------------------------------------------------------------------

/// An entry of the main menu.
#[derive(Debug, Clone)]
pub struct MenuItem {
    pub label: String,
    pub description: String,
    pub screen: Screen,
}

/// The main menu.
#[derive(Debug, Clone)]
pub struct MenuScreen {
    selected: usize,
    items: Vec<MenuItem>,
}

/// Mathematical view of the menu: the selected entry and the screen each
/// entry opens.
pub struct MenuView {
    pub selected: int,
    pub screens: Seq<Screen>,
    pub texts: Seq<(Seq<char>, Seq<char>)>,
}

impl View for MenuScreen {
    type V = MenuView;

    closed spec fn view(&self) -> MenuView {
        MenuView {
            selected: self.selected as int,
            screens: self.items@.map_values(|m: MenuItem| m.screen),
            texts: self.items@.map_values(|m: MenuItem| (m.label@, m.description@)),
        }
    }
}

/// The labels and descriptions of the menu entries.
pub open spec fn menu_texts() -> Seq<(Seq<char>, Seq<char>)> {
    seq![
        ("📦 Packages"@, "View and manage installed packages"@),
        ("📜 History"@, "View environment change history"@),
        ("🔄 Update Indexes"@, "Sync package indices from upstream"@),
        ("🛠️  Settings"@, "Configure Rix preferences"@),
        ("❓ Help"@, "Show keyboard shortcuts and help"@),
    ]
}

/// The screens that the menu entries open: packages, history, and three
/// entries that stay on the menu (index update, settings, help).
pub open spec fn menu_screens() -> Seq<Screen> {
    seq![Screen::Packages, Screen::History, Screen::Menu, Screen::Menu, Screen::Menu]
}

impl MenuScreen {
    /// The menu with its five entries, the first one selected.
    pub fn new() -> (r: Self)
        ensures
            r@.selected == 0,
            r@.screens == menu_screens(),
            r@.texts == menu_texts(),
            r.wf(),
    {
        let items = vec![
            MenuItem {
                label: String::from_str("📦 Packages"),
                description: String::from_str("View and manage installed packages"),
                screen: Screen::Packages,
            },
            MenuItem {
                label: String::from_str("📜 History"),
                description: String::from_str("View environment change history"),
                screen: Screen::History,
            },
            MenuItem {
                label: String::from_str("🔄 Update Indexes"),
                description: String::from_str("Sync package indices from upstream"),
                screen: Screen::Menu,
            },
            MenuItem {
                label: String::from_str("🛠️  Settings"),
                description: String::from_str("Configure Rix preferences"),
                screen: Screen::Menu,
            },
            MenuItem {
                label: String::from_str("❓ Help"),
                description: String::from_str("Show keyboard shortcuts and help"),
                screen: Screen::Menu,
            },
        ];
        let r = MenuScreen { selected: 0, items };
        assert(r@.screens =~= menu_screens());
        assert(r@.texts =~= menu_texts());
        r
    }

    /// The menu holds its five entries and the selection is one of them.
    pub open spec fn wf(&self) -> bool {
        self@.screens == menu_screens() && self@.texts == menu_texts() && 0 <= self@.selected < 5
    }

    /// Index of the selected entry.
    pub fn selected(&self) -> (r: usize)
        ensures
            r == self@.selected,
    {
        self.selected
    }

    /// The entries, for drawing.
    pub fn items(&self) -> (r: &Vec<MenuItem>)
        ensures
            r@.map_values(|m: MenuItem| m.screen) == self@.screens,
            r@.map_values(|m: MenuItem| (m.label@, m.description@)) == self@.texts,
    {
        &self.items
    }

    /// Moves the selection with the arrows; `Enter` opens the screen of
    /// the selected entry.
    pub fn handle_input(&mut self, key: Key, current_screen: &mut Screen)
        requires
            old(self).wf(),
        ensures
            final(self).wf(),
            final(self)@.selected == match key {
                Key::Up => up_spec(old(self)@.selected, 5),
                Key::Down => down_spec(old(self)@.selected, 5),
                _ => old(self)@.selected,
            },
            *final(current_screen) == match key {
                Key::Enter => menu_screens()[old(self)@.selected],
                _ => *old(current_screen),
            },
    {
        assert(self.items@.len() == 5) by {
            assert(self@.screens.len() == 5);
        }
        match key {
            Key::Up => {
                self.selected = up_exec(self.selected, self.items.len());
            },
            Key::Down => {
                self.selected = down_exec(self.selected, self.items.len());
            },
            Key::Enter => {
                if self.selected < self.items.len() {
                    assert(self@.screens[self.selected as int] == self.items@[self.selected as int].screen);
                    *current_screen = self.items[self.selected].screen;
                }
            },
            _ => {},
        }
    }
}

// ---------------------------------------------------------------------------
// The package list
// ---------------------------------------------------------------------------

/// What the package screen is doing.
#[derive(Debug, Clone, Copy, PartialEq, Eq)]
pub enum PackageMode {
    View,
    Search,
    Install,
    Remove,
}

/// A package as the list shows it.
#[derive(Debug, Clone)]
pub struct PackageItem {
    pub name: String,
    pub group: String,
    pub description: String,
}

/// The package list.
#[derive(Debug, Clone)]
pub struct PackagesScreen {
    selected: usize,
    packages: Vec<PackageItem>,
    mode: PackageMode,
    search_input: String,
}

/// Mathematical view of the package list.
pub struct PackagesView {
    pub selected: int,
    pub rows: Seq<(Seq<char>, Seq<char>, Seq<char>)>,
    pub mode: PackageMode,
    pub input: Seq<char>,
}

impl View for PackagesScreen {
    type V = PackagesView;

    closed spec fn view(&self) -> PackagesView {
        PackagesView {
            selected: self.selected as int,
            rows: self.packages@.map_values(
                |p: PackageItem| (p.name@, p.group@, p.description@),
            ),
            mode: self.mode,
            input: self.search_input@,
        }
    }
}

/// The package list after a key press, and the screen on display.
pub open spec fn packages_step(s: PackagesView, key: Key, screen: Screen) -> (PackagesView, Screen) {
    match s.mode {
        PackageMode::View => match key {
            Key::Up => (PackagesView { selected: up_spec(s.selected, s.rows.len() as int), ..s }, screen),
            Key::Down => (PackagesView { selected: down_spec(s.selected, s.rows.len() as int), ..s }, screen),
            Key::Char('i') => (PackagesView { mode: PackageMode::Install, ..s }, screen),
            Key::Char('r') => if s.selected < s.rows.len() {
                (PackagesView { mode: PackageMode::Remove, ..s }, screen)
            } else {
                (s, screen)
            },
            Key::Backspace | Key::Char('q') => (s, Screen::Menu),
            _ => (s, screen),
        },
        PackageMode::Install => match key {
            Key::Char(c) => (PackagesView { input: s.input.push(c), ..s }, screen),
            Key::Backspace => (PackagesView {
                input: if s.input.len() > 0 {
                    s.input.drop_last()
                } else {
                    s.input
                },
                ..s
            }, screen),
            Key::Enter => if s.input.len() > 0 {
                (PackagesView { input: seq![], mode: PackageMode::View, ..s }, screen)
            } else {
                (s, screen)
            },
            Key::Esc => (PackagesView { input: seq![], mode: PackageMode::View, ..s }, screen),
            _ => (s, screen),
        },
        PackageMode::Remove => match key {
            Key::Char('y') | Key::Char('n') | Key::Esc => (
                PackagesView { mode: PackageMode::View, ..s },
                screen,
            ),
            _ => (s, screen),
        },
        PackageMode::Search => (s, screen),
    }
}

/// Removes the last character of a string (`String::pop`).
///
/// Trusted: the string loses its last character, if it has one.
#[verifier::external_body]
fn pop_char(s: &mut String)
    ensures
        final(s)@ == if old(s)@.len() > 0 {
            old(s)@.drop_last()
        } else {
            old(s)@
        },
{
    s.pop();
}

impl PackagesScreen {
    /// An empty list in view mode.
    pub fn new() -> (r: Self)
        ensures
            r@.selected == 0,
            r@.rows == Seq::<(Seq<char>, Seq<char>, Seq<char>)>::empty(),
            r@.mode == PackageMode::View,
            r@.input == Seq::<char>::empty(),
            r.wf(),
    {
        let r = PackagesScreen {
            selected: 0,
            packages: Vec::new(),
            mode: PackageMode::View,
            search_input: String::new(),
        };
        assert(r@.rows =~= Seq::<(Seq<char>, Seq<char>, Seq<char>)>::empty());
        r
    }

    /// The selection can always move on.
    pub open spec fn wf(&self) -> bool {
        self@.selected < usize::MAX
    }

    /// Shows the packages that `RixContext::list_all_packages` lists (name,
    /// group, description); the selection stays where it was.
    pub fn load_packages(&mut self, rows: Vec<(String, String, String)>)
        requires
            old(self).wf(),
        ensures
            final(self).wf(),
            final(self)@ == (PackagesView { rows: rows_view(rows@), ..old(self)@ }),
    {
        let ghost rv = rows_view(rows@);
        let mut items: Vec<PackageItem> = Vec::new();
        let mut rows = rows;
        let n = rows.len();
        while rows.len() > 0
            invariant
                items@.len() + rows@.len() == n,
                rv.len() == n,
                items@.map_values(|p: PackageItem| (p.name@, p.group@, p.description@)) + rows_view(
                    rows@,
                ) == rv,
            decreases rows.len(),
        {
            let ghost before = items@.map_values(
                |p: PackageItem| (p.name@, p.group@, p.description@),
            );
            let ghost rest = rows_view(rows@);
            let (name, group, description) = rows.remove(0);
            let item = PackageItem { name, group, description };
            items.push(item);
            assert(items@.map_values(|p: PackageItem| (p.name@, p.group@, p.description@))
                =~= before.push(rest[0]));
            assert(rows_view(rows@) =~= rest.drop_first());
            assert(before.push(rest[0]) + rest.drop_first() =~= before + rest);
        }
        assert(rows_view(rows@) =~= Seq::<(Seq<char>, Seq<char>, Seq<char>)>::empty());
        assert(items@.map_values(|p: PackageItem| (p.name@, p.group@, p.description@)) =~= rv);
        self.packages = items;
    }

    /// The packages, for drawing.
    pub fn packages(&self) -> (r: &Vec<PackageItem>)
        ensures
            r@.map_values(|p: PackageItem| (p.name@, p.group@, p.description@)) == self@.rows,
    {
        &self.packages
    }

    /// Index of the selected package.
    pub fn selected(&self) -> (r: usize)
        ensures
            r == self@.selected,
    {
        self.selected
    }

    /// What the screen is doing.
    pub fn mode(&self) -> (r: PackageMode)
        ensures
            r == self@.mode,
    {
        self.mode
    }

    /// The name typed in install mode.
    pub fn search_input(&self) -> (r: &String)
        ensures
            r@ == self@.input,
    {
        &self.search_input
    }

    /// Handles a key press: moving the selection, entering install or
    /// remove mode, typing a name, confirming or cancelling, and going back
    /// to the menu.
    pub fn handle_input(&mut self, key: Key, current_screen: &mut Screen)
        requires
            old(self).wf(),
        ensures
            final(self).wf(),
            (final(self)@, *final(current_screen)) == packages_step(
                old(self)@,
                key,
                *old(current_screen),
            ),
    {
        let n = self.packages.len();
        match self.mode {
            PackageMode::View => match key {
                Key::Up => {
                    self.selected = up_exec(self.selected, n);
                },
                Key::Down => {
                    self.selected = down_exec(self.selected, n);
                },
                Key::Char('i') => {
                    self.mode = PackageMode::Install;
                },
                Key::Char('r') => {
                    if self.selected < n {
                        self.mode = PackageMode::Remove;
                    }
                },
                Key::Backspace | Key::Char('q') => {
                    *current_screen = Screen::Menu;
                },
                _ => {},
            },
            PackageMode::Install => match key {
                Key::Char(c) => {
                    let mut s = String::new();
                    std::mem::swap(&mut s, &mut self.search_input);
                    let v = crate::text::concat(
                        &crate::text::chars_of(s.as_str()),
                        &vec![c],
                    );
                    assert(v@ =~= s@.push(c));
                    self.search_input = crate::text::string_of(&v);
                },
                Key::Backspace => {
                    pop_char(&mut self.search_input);
                },
                Key::Enter => {
                    if self.search_input.as_str().unicode_len() > 0 {
                        self.search_input = String::new();
                        self.mode = PackageMode::View;
                    }
                },
                Key::Esc => {
                    self.search_input = String::new();
                    self.mode = PackageMode::View;
                },
                _ => {},
            },
            PackageMode::Remove => match key {
                Key::Char('y') => {
                    self.mode = PackageMode::View;
                },
                Key::Char('n') | Key::Esc => {
                    self.mode = PackageMode::View;
                },
                _ => {},
            },
            PackageMode::Search => {},
        }
    }
}

// ---------------------------------------------------------------------------
// The history list
// ---------------------------------------------------------------------------

/// The history list.
#[derive(Debug, Clone)]
pub struct HistoryScreen {
    selected: usize,
    entries: Vec<HistoryEntry>,
}

/// Mathematical view of the history list.
pub struct HistoryView {
    pub selected: int,
    pub entries: Seq<(int, Seq<char>, Seq<char>, Seq<char>, bool)>,
}

impl View for HistoryScreen {
    type V = HistoryView;

    closed spec fn view(&self) -> HistoryView {
        HistoryView {
            selected: self.selected as int,
            entries: self.entries@.map_values(|e: HistoryEntry| entry_view(e)),
        }
    }
}

/// The history list after a key press, and the screen on display.
pub open spec fn history_step(s: HistoryView, key: Key, screen: Screen) -> (HistoryView, Screen) {
    match key {
        Key::Up => (HistoryView { selected: up_spec(s.selected, s.entries.len() as int), ..s }, screen),
        Key::Down => (HistoryView { selected: down_spec(s.selected, s.entries.len() as int), ..s }, screen),
        Key::Backspace | Key::Char('q') => (s, Screen::Menu),
        _ => (s, screen),
    }
}

/// The sample states shown before the Git history is read.
pub open spec fn sample_history() -> Seq<(int, Seq<char>, Seq<char>, Seq<char>, bool)> {
    seq![
        (5, "a1b2c3d"@, "2026-07-29 15:30"@, "rix: installed ripgrep"@, true),
        (4, "e4f5g6h"@, "2026-07-29 14:15"@, "rix: installed eza"@, false),
        (3, "i7j8k9l"@, "2026-07-29 13:00"@, "rix: initialized environment"@, false),
    ]
}

fn sample_entry(state_num: usize, hash: &str, date: &str, message: &str, is_active: bool) -> (r:
    HistoryEntry)
    ensures
        entry_view(r) == (state_num as int, hash@, date@, message@, is_active),
{
    HistoryEntry {
        state_num,
        hash: String::from_str(hash),
        date: String::from_str(date),
        message: String::from_str(message),
        is_active,
    }
}

impl HistoryScreen {
    /// An empty list.
    pub fn new() -> (r: Self)
        ensures
            r@.selected == 0,
            r@.entries == Seq::<(int, Seq<char>, Seq<char>, Seq<char>, bool)>::empty(),
            r.wf(),
    {
        let r = HistoryScreen { selected: 0, entries: Vec::new() };
        assert(r@.entries =~= Seq::<(int, Seq<char>, Seq<char>, Seq<char>, bool)>::empty());
        r
    }

    /// The selection can always move on.
    pub open spec fn wf(&self) -> bool {
        self@.selected < usize::MAX
    }

    /// Fills the list with the sample states the screen shows until it reads
    /// the Git history.
    pub fn load_history(&mut self)
        requires
            old(self).wf(),
        ensures
            final(self).wf(),
            final(self)@ == (HistoryView { entries: sample_history(), ..old(self)@ }),
    {
        self.entries = vec![
            sample_entry(5, "a1b2c3d", "2026-07-29 15:30", "rix: installed ripgrep", true),
            sample_entry(4, "e4f5g6h", "2026-07-29 14:15", "rix: installed eza", false),
            sample_entry(3, "i7j8k9l", "2026-07-29 13:00", "rix: initialized environment", false),
        ];
        assert(self@.entries =~= sample_history());
    }

    /// The entries, for drawing.
    pub fn entries(&self) -> (r: &Vec<HistoryEntry>)
        ensures
            r@.map_values(|e: HistoryEntry| entry_view(e)) == self@.entries,
    {
        &self.entries
    }

    /// Index of the selected entry.
    pub fn selected(&self) -> (r: usize)
        ensures
            r == self@.selected,
    {
        self.selected
    }

    /// Handles a key press: moving the selection and going back to the
    /// menu.
    pub fn handle_input(&mut self, key: Key, current_screen: &mut Screen)
        requires
            old(self).wf(),
        ensures
            final(self).wf(),
            (final(self)@, *final(current_screen)) == history_step(
                old(self)@,
                key,
                *old(current_screen),
            ),
    {
        let n = self.entries.len();
        match key {
            Key::Up => {
                self.selected = up_exec(self.selected, n);
            },
            Key::Down => {
                self.selected = down_exec(self.selected, n);
            },
            Key::Backspace | Key::Char('q') => {
                *current_screen = Screen::Menu;
            },
            _ => {},
        }
    }
}

// ---------------------------------------------------------------------------
// The application
// ---------------------------------------------------------------------------

/// The terminal interface: the context it manages, the screens and which
/// one is on display, and whether it should stop or show its help.
#[derive(Debug, Clone)]
pub struct TuiApp {
    pub ctx: RixContext,
    pub current_screen: Screen,
    pub menu: MenuScreen,
    pub packages: PackagesScreen,
    pub history: HistoryScreen,
    pub should_quit: bool,
    pub show_help: bool,
}

impl TuiApp {
    /// The interface on the menu.
    pub fn new(ctx: RixContext) -> (r: Self)
        ensures
            r.ctx == ctx,
            r.current_screen == Screen::Menu,
            r.menu@.selected == 0,
            r.menu@.screens == menu_screens(),
            r.menu@.texts == menu_texts(),
            r.packages@ == (PackagesView {
                selected: 0,
                rows: Seq::empty(),
                mode: PackageMode::View,
                input: Seq::empty(),
            }),
            r.history@ == (HistoryView { selected: 0, entries: Seq::empty() }),
            !r.should_quit,
            !r.show_help,
            r.wf(),
    {
        TuiApp {
            ctx,
            current_screen: Screen::Menu,
            menu: MenuScreen::new(),
            packages: PackagesScreen::new(),
            history: HistoryScreen::new(),
            should_quit: false,
            show_help: false,
        }
    }

    /// The screens are in a usable state.
    pub open spec fn wf(&self) -> bool {
        self.menu.wf() && self.packages.wf() && self.history.wf()
    }

    /// Handles a terminal event: `q` and `Esc` stop the interface, `?`
    /// toggles the help, any other key goes to the screen on display.
    pub fn handle_event(&mut self, event: Event)
        requires
            old(self).wf(),
        ensures
            final(self).wf(),
            final(self).ctx == old(self).ctx,
            !(event matches Event::Key(k) && k != Key::Char('q') && k != Key::Esc && k != Key::Char(
                '?',
            )) ==> {
                &&& final(self).menu@ == old(self).menu@
                &&& final(self).packages@ == old(self).packages@
                &&& final(self).history@ == old(self).history@
            },
            event matches Event::Key(k) ==> {
                &&& old(self).current_screen != Screen::Menu ==> final(self).menu@ == old(self).menu@
                &&& old(self).current_screen != Screen::Packages ==> final(self).packages@ == old(
                    self,
                ).packages@
                &&& old(self).current_screen != Screen::History ==> final(self).history@ == old(
                    self,
                ).history@
            },
            match event {
                Event::Key(Key::Char('q')) | Event::Key(Key::Esc) => {
                    &&& final(self).should_quit
                    &&& final(self).current_screen == old(self).current_screen
                    &&& final(self).show_help == old(self).show_help
                },
                Event::Key(Key::Char('?')) => {
                    &&& final(self).show_help == !old(self).show_help
                    &&& final(self).should_quit == old(self).should_quit
                    &&& final(self).current_screen == old(self).current_screen
                },
                Event::Key(k) => {
                    &&& final(self).should_quit == old(self).should_quit
                    &&& final(self).show_help == old(self).show_help
                    &&& match old(self).current_screen {
                        Screen::Menu => {
                            &&& final(self).menu@.selected == match k {
                                Key::Up => up_spec(old(self).menu@.selected, 5),
                                Key::Down => down_spec(old(self).menu@.selected, 5),
                                _ => old(self).menu@.selected,
                            }
                            &&& final(self).current_screen == match k {
                                Key::Enter => menu_screens()[old(self).menu@.selected],
                                _ => Screen::Menu,
                            }
                        },
                        Screen::Packages => (final(self).packages@, final(self).current_screen)
                            == packages_step(old(self).packages@, k, Screen::Packages),
                        Screen::History => (final(self).history@, final(self).current_screen)
                            == history_step(old(self).history@, k, Screen::History),
                    }
                },
                _ => {
                    &&& final(self).should_quit == old(self).should_quit
                    &&& final(self).show_help == old(self).show_help
                    &&& final(self).current_screen == old(self).current_screen
                },
            },
    {
        match event {
            Event::Key(code) => match code {
                Key::Char('q') | Key::Esc => {
                    self.should_quit = true;
                },
                Key::Char('?') => {
                    self.show_help = !self.show_help;
                },
                _ => match self.current_screen {
                    Screen::Menu => self.menu.handle_input(code, &mut self.current_screen),
                    Screen::Packages => self.packages.handle_input(code, &mut self.current_screen),
                    Screen::History => self.history.handle_input(code, &mut self.current_screen),
                },
            },
            _ => {},
        }
    }
}

} // verus!
