//! The state of the interactive view and how it answers key presses.
use vstd::prelude::*;
use crate::telemetry::TelemetryData;

verus! {

/// A tab of the interactive view.
#[derive(Debug, Clone, Copy, PartialEq, Eq, Structural, Hash)]
pub enum Tab {
    DeviceInfo,
    Telemetry,
    Firmware,
}

/// A key press, as far as the view distinguishes keys.
#[derive(Debug, Clone, Copy, PartialEq, Eq, Structural)]
pub enum Key {
    Char(char),
    Up,
    Down,
    Other,
}

/// The state of the interactive view: the tab shown, the devices listed,
/// the selected device and the display toggles.
pub struct App {
    current_tab: Tab,
    telemetry_data: Vec<TelemetryData>,
    selected_device: usize,
    show_help: bool,
    show_sidebar: bool,
    dark_mode: bool,
}

/// The abstract state of the view.
pub struct AppView {
    pub tab: Tab,
    pub data: Seq<TelemetryData>,
    pub selected: nat,
    pub show_help: bool,
    pub show_sidebar: bool,
    pub dark_mode: bool,
}

impl View for App {
    type V = AppView;

    closed spec fn view(&self) -> AppView {
        AppView {
            tab: self.current_tab,
            data: self.telemetry_data@,
            selected: self.selected_device as nat,
            show_help: self.show_help,
            show_sidebar: self.show_sidebar,
            dark_mode: self.dark_mode,
        }
    }
}

/// The selection after moving down: the next device, wrapping to the first.
pub open spec fn next_selection(selected: nat, count: nat) -> nat {
    if count == 0 {
        selected
    } else {
        (selected + 1) % count
    }
}

/// The selection after moving up: the previous device, wrapping to the last.
pub open spec fn previous_selection(selected: nat, count: nat) -> nat {
    if count == 0 {
        selected
    } else if selected == 0 {
        (count - 1) as nat
    } else {
        (selected - 1) as nat
    }
}

/// How the view answers a key: the new state, and whether to quit.
/// While help is shown, any key only closes it.
pub open spec fn key_step(v: AppView, key: Key) -> (AppView, bool) {
    if v.show_help {
        (AppView { show_help: false, ..v }, false)
    } else {
        match key {
            Key::Char('q') => (v, true),
            Key::Char('h') => (AppView { show_help: true, ..v }, false),
            Key::Char('d') => (AppView { dark_mode: !v.dark_mode, ..v }, false),
            Key::Char('c') => (AppView { show_sidebar: !v.show_sidebar, ..v }, false),
            Key::Char('1') => (AppView { tab: Tab::DeviceInfo, ..v }, false),
            Key::Char('2') => (AppView { tab: Tab::Telemetry, ..v }, false),
            Key::Char('3') => (AppView { tab: Tab::Firmware, ..v }, false),
            Key::Up | Key::Char('k') => (
                AppView { selected: previous_selection(v.selected, v.data.len()), ..v },
                false,
            ),
            Key::Down | Key::Char('j') => (
                AppView { selected: next_selection(v.selected, v.data.len()), ..v },
                false,
            ),
            _ => (v, false),
        }
    }
}

impl App {
    /// A view of the given devices on the device tab, first device selected,
    /// dark mode on, the sidebar shown unless in compact mode.
    pub fn new(compact_mode: bool, telemetry_data: Vec<TelemetryData>) -> (r: App)
        ensures
            r@ == (AppView {
                tab: Tab::DeviceInfo,
                data: telemetry_data@,
                selected: 0,
                show_help: false,
                show_sidebar: !compact_mode,
                dark_mode: true,
            }),
    {
        App {
            current_tab: Tab::DeviceInfo,
            telemetry_data,
            selected_device: 0,
            show_help: false,
            show_sidebar: !compact_mode,
            dark_mode: true,
        }
    }

    /// Answers a key press; returns whether the view should quit.
    pub fn handle_key_event(&mut self, key: Key) -> (quit: bool)
        ensures
            (final(self)@, quit) == key_step(old(self)@, key),
    {
        if self.show_help {
            self.show_help = false;
            return false;
        }
        match key {
            Key::Char('q') => true,
            Key::Char('h') => {
                self.show_help = true;
                false
            },
            Key::Char('d') => {
                self.dark_mode = !self.dark_mode;
                false
            },
            Key::Char('c') => {
                self.show_sidebar = !self.show_sidebar;
                false
            },
            Key::Char('1') => {
                self.current_tab = Tab::DeviceInfo;
                false
            },
            Key::Char('2') => {
                self.current_tab = Tab::Telemetry;
                false
            },
            Key::Char('3') => {
                self.current_tab = Tab::Firmware;
                false
            },
            Key::Up | Key::Char('k') => {
                self.previous_device();
                false
            },
            Key::Down | Key::Char('j') => {
                self.next_device();
                false
            },
            _ => false,
        }
    }

    /// Replaces the devices listed; the selection stays as it is.
    pub fn update_telemetry(&mut self, telemetry_data: Vec<TelemetryData>)
        ensures
            final(self)@ == (AppView { data: telemetry_data@, ..old(self)@ }),
    {
        self.telemetry_data = telemetry_data;
    }

    fn next_device(&mut self)
        ensures
            final(self)@ == (AppView {
                selected: next_selection(old(self)@.selected, old(self)@.data.len()),
                ..old(self)@
            }),
    {
        if self.telemetry_data.len() > 0 {
            self.selected_device = ((self.selected_device as u128 + 1) % (self.telemetry_data.len() as u128)) as usize;
        }
    }

    fn previous_device(&mut self)
        ensures
            final(self)@ == (AppView {
                selected: previous_selection(old(self)@.selected, old(self)@.data.len()),
                ..old(self)@
            }),
    {
        if self.telemetry_data.len() > 0 {
            self.selected_device = if self.selected_device == 0 {
                self.telemetry_data.len() - 1
            } else {
                self.selected_device - 1
            };
        }
    }

    /// The tab shown.
    pub fn get_current_tab(&self) -> (r: Tab)
        ensures
            r == self@.tab,
    {
        self.current_tab
    }

    /// The devices listed.
    pub fn get_telemetry_data(&self) -> (r: &[TelemetryData])
        ensures
            r@ == self@.data,
    {
        self.telemetry_data.as_slice()
    }

    /// The position of the selected device.
    pub fn get_selected_device(&self) -> (r: usize)
        ensures
            r as nat == self@.selected,
    {
        self.selected_device
    }

    /// Whether dark mode is on.
    pub fn is_dark_mode(&self) -> (r: bool)
        ensures
            r == self@.dark_mode,
    {
        self.dark_mode
    }

    /// Whether the sidebar is shown.
    pub fn should_show_sidebar(&self) -> (r: bool)
        ensures
            r == self@.show_sidebar,
    {
        self.show_sidebar
    }

    /// Whether the help window is shown.
    pub fn should_show_help(&self) -> (r: bool)
        ensures
            r == self@.show_help,
    {
        self.show_help
    }
}

// ---------------------------------------------------------------------------
// Laws of the view.

/// While help is shown, any key closes it and changes nothing else, and never quits.
pub proof fn lemma_help_closes_on_any_key(v: AppView, key: Key)
    requires
        v.show_help,
    ensures
        key_step(v, key) == (AppView { show_help: false, ..v }, false),
{
}

/// The view quits exactly on `q` while help is not shown.
pub proof fn lemma_quits_only_on_q(v: AppView, key: Key)
    ensures
        key_step(v, key).1 <==> (!v.show_help && key == Key::Char('q')),
{
}

/// Moving up or down keeps a selection that is within the list within it.
pub proof fn lemma_navigation_stays_in_range(v: AppView, key: Key)
    requires
        v.selected < v.data.len(),
    ensures
        key_step(v, key).0.selected < v.data.len(),
{
}

/// Moving down and then up returns to the device selected before.
pub proof fn lemma_down_then_up_returns(v: AppView)
    requires
        !v.show_help,
        v.selected < v.data.len(),
    ensures
        key_step(key_step(v, Key::Down).0, Key::Up).0 == v,
{
    let count = v.data.len();
    let s1 = next_selection(v.selected, count);
    if v.selected + 1 == count {
        assert(s1 == 0) by (nonlinear_arith)
            requires
                s1 == (v.selected + 1) % count,
                v.selected + 1 == count,
        ;
    } else {
        assert(s1 == v.selected + 1) by (nonlinear_arith)
            requires
                s1 == (v.selected + 1) % count,
                v.selected + 1 < count,
        ;
    }
}

/// Moving up and then down returns to the device selected before.
pub proof fn lemma_up_then_down_returns(v: AppView)
    requires
        !v.show_help,
        v.selected < v.data.len(),
    ensures
        key_step(key_step(v, Key::Up).0, Key::Down).0 == v,
{
    let count = v.data.len();
    let s1 = previous_selection(v.selected, count);
    let s2 = next_selection(s1, count);
    assert(s2 == v.selected) by (nonlinear_arith)
        requires
            count > 0,
            v.selected < count,
            s1 == (if v.selected == 0 { count - 1 } else { v.selected - 1 }),
            s2 == (s1 + 1) % count,
    ;
}

/// Pressing a toggle key twice restores the state.
pub proof fn lemma_toggles_are_involutions(v: AppView, c: char)
    requires
        !v.show_help,
        c == 'd' || c == 'c',
    ensures
        key_step(key_step(v, Key::Char(c)).0, Key::Char(c)).0 == v,
{
}

/// Navigation over an empty list changes nothing.
pub proof fn lemma_empty_list_navigation(v: AppView, key: Key)
    requires
        !v.show_help,
        v.data.len() == 0,
        key == Key::Up || key == Key::Down,
    ensures
        key_step(v, key).0 == v,
{
}

} // verus!
