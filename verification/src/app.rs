//! The dashboard's state: which views it shows, when it stops, and how
//! each key press changes that.

use vstd::prelude::*;
use crate::disk::{disk, disks_summary, DiskSpace};
use crate::memory::{memory, memory_summary};
use crate::os::{os, os_summary};
use crate::platform::system_new_all;

verus! {

/// A key press, as far as the dashboard tells keys apart.
#[derive(Clone, Copy, Debug, PartialEq, Eq, Structural)]
pub enum KeyPress {
    Char(char),
    Esc,
    Other,
}

/// What the lower-left panel shows.
#[derive(Clone, Copy, Debug, PartialEq, Eq, Structural)]
pub enum InfoPanel {
    Memory,
    Disks,
    Os,
}

/// What the processor panel shows.
#[derive(Clone, Copy, Debug, PartialEq, Eq, Structural)]
pub enum CpuView {
    /// The processor's summary.
    Summary,
    /// The load of each logical core.
    Threads,
}

/// The dashboard's controls, as the keys set them.
#[derive(Clone, Copy, Debug, PartialEq, Eq, Structural)]
pub struct AppState {
    pub should_quit: bool,
    pub show_detailed_cpu: bool,
    /// The lower-left panel: 0 memory, 1 disks, 2 operating system.
    pub osrametc: u8,
}

/// The dashboard.
pub struct App {
    should_quit: bool,
    show_detailed_cpu: bool,
    /// 0: memory, 1: disk, 2: os
    osrametc: u8,
    /// The snapshot of the machine that the panels read.
    pub system: Box<sysinfo::System>,
}

impl View for App {
    type V = AppState;

    closed spec fn view(&self) -> AppState {
        AppState {
            should_quit: self.should_quit,
            show_detailed_cpu: self.show_detailed_cpu,
            osrametc: self.osrametc,
        }
    }
}

/// The controls when the dashboard starts.
pub open spec fn initial_state() -> AppState {
    AppState { should_quit: false, show_detailed_cpu: false, osrametc: 0 }
}

/// The controls after `key` (`None` for an event that is no key press):
/// `q` or Esc quits; `c` shows the cores, `C` the summary; `m`, `d` and `o`
/// choose the memory, disks and operating-system panel; anything else
/// changes nothing.
pub open spec fn after_key(s: AppState, key: Option<KeyPress>) -> AppState {
    match key {
        Some(KeyPress::Esc) => AppState { should_quit: true, ..s },
        Some(KeyPress::Char(c)) => if c == 'q' {
            AppState { should_quit: true, ..s }
        } else if c == 'c' {
            AppState { show_detailed_cpu: true, ..s }
        } else if c == 'C' {
            AppState { show_detailed_cpu: false, ..s }
        } else if c == 'm' {
            AppState { osrametc: 0, ..s }
        } else if c == 'd' {
            AppState { osrametc: 1, ..s }
        } else if c == 'o' {
            AppState { osrametc: 2, ..s }
        } else {
            s
        },
        _ => s,
    }
}

/// The panel that a panel number chooses; numbers beyond 2 show memory.
pub open spec fn panel_of(osrametc: u8) -> InfoPanel {
    if osrametc == 1 {
        InfoPanel::Disks
    } else if osrametc == 2 {
        InfoPanel::Os
    } else {
        InfoPanel::Memory
    }
}

/// The processor view that the controls choose.
pub open spec fn cpu_view_of(s: AppState) -> CpuView {
    if s.show_detailed_cpu {
        CpuView::Threads
    } else {
        CpuView::Summary
    }
}

impl Default for App {
    /// The dashboard at its start, with a full snapshot of the machine.
    fn default() -> (app: App)
        ensures
            app@ == initial_state(),
    {
        App {
            should_quit: false,
            show_detailed_cpu: false,
            osrametc: 0,
            system: Box::new(system_new_all()),
        }
    }
}

impl App {
    /// The snapshot of the machine that the dashboard keeps.
    pub closed spec fn snapshot(&self) -> sysinfo::System {
        *self.system
    }

    /// Applies a key press (`None` for any other event) to the controls;
    /// the machine's snapshot stays as it is.
    pub fn handle_event(&mut self, key: Option<KeyPress>)
        ensures
            final(self)@ == after_key(old(self)@, key),
            final(self).snapshot() == old(self).snapshot(),
    {
        match key {
            Some(KeyPress::Esc) => self.should_quit = true,
            Some(KeyPress::Char(c)) => {
                if c == 'q' {
                    self.should_quit = true;
                } else if c == 'c' {
                    self.show_detailed_cpu = true;
                } else if c == 'C' {
                    self.show_detailed_cpu = false;
                } else if c == 'm' {
                    self.osrametc = 0;
                } else if c == 'd' {
                    self.osrametc = 1;
                } else if c == 'o' {
                    self.osrametc = 2;
                }
            },
            _ => {},
        }
    }

    /// Whether the dashboard is to stop.
    pub fn should_quit(&self) -> (b: bool)
        ensures
            b == self@.should_quit,
    {
        self.should_quit
    }

    /// What the processor panel shows.
    pub fn cpu_view(&self) -> (v: CpuView)
        ensures
            v == cpu_view_of(self@),
    {
        if self.show_detailed_cpu {
            CpuView::Threads
        } else {
            CpuView::Summary
        }
    }

    /// What the lower-left panel shows.
    pub fn info_panel(&self) -> (p: InfoPanel)
        ensures
            p == panel_of(self@.osrametc),
    {
        if self.osrametc == 1 {
            InfoPanel::Disks
        } else if self.osrametc == 2 {
            InfoPanel::Os
        } else {
            InfoPanel::Memory
        }
    }

    /// The text of the lower-left panel, read from the machine now; `shell`
    /// gives the name of the shell that the operating-system panel shows,
    /// and is called only for that panel. Absent only for that panel, when
    /// the edition, the architecture or the host name is unknown.
    pub fn info_text<F: FnOnce() -> String>(&mut self, shell: F) -> (t: Option<String>)
        requires
            call_requires(shell, ()),
        ensures
            final(self)@ == old(self)@,
            match panel_of(old(self)@.osrametc) {
                InfoPanel::Memory => t matches Some(s) && exists|used: u64, total: u64|
                    s@ == memory_summary(used as nat, total as nat),
                InfoPanel::Disks => t matches Some(s) && exists|ds: Seq<DiskSpace>|
                    s@ == disks_summary(ds),
                InfoPanel::Os => t matches Some(s) ==> exists|
                    e: Seq<char>,
                    a: Seq<char>,
                    v: Seq<char>,
                    h: Seq<char>,
                    sh: String,
                | call_ensures(shell, (), sh) && s@ == os_summary(e, a, v, h, sh@),
            },
    {
        match self.info_panel() {
            InfoPanel::Memory => Some(memory(&mut self.system)),
            InfoPanel::Disks => Some(disk()),
            InfoPanel::Os => {
                let name = shell();
                let ghost named = name;
                let t = os(name.as_str());
                proof {
                    assert(call_ensures(shell, (), named));
                }
                t
            },
        }
    }
}

/// Once the dashboard is to stop, no key press takes that back.
pub proof fn law_quit_is_final(s: AppState, key: Option<KeyPress>)
    requires
        s.should_quit,
    ensures
        after_key(s, key).should_quit,
{
}

/// Pressing the same key twice does what pressing it once does.
pub proof fn law_key_idempotent(s: AppState, key: Option<KeyPress>)
    ensures
        after_key(after_key(s, key), key) == after_key(s, key),
{
}

/// `m`, `d` and `o` choose the memory, disks and operating-system panel,
/// whatever was shown before, and change nothing else.
pub proof fn law_panel_keys(s: AppState)
    ensures
        panel_of(after_key(s, Some(KeyPress::Char('m'))).osrametc) == InfoPanel::Memory,
        panel_of(after_key(s, Some(KeyPress::Char('d'))).osrametc) == InfoPanel::Disks,
        panel_of(after_key(s, Some(KeyPress::Char('o'))).osrametc) == InfoPanel::Os,
        after_key(s, Some(KeyPress::Char('m'))).should_quit == s.should_quit,
        after_key(s, Some(KeyPress::Char('m'))).show_detailed_cpu == s.show_detailed_cpu,
        after_key(s, Some(KeyPress::Char('d'))).should_quit == s.should_quit,
        after_key(s, Some(KeyPress::Char('d'))).show_detailed_cpu == s.show_detailed_cpu,
        after_key(s, Some(KeyPress::Char('o'))).should_quit == s.should_quit,
        after_key(s, Some(KeyPress::Char('o'))).show_detailed_cpu == s.show_detailed_cpu,
{
}

/// `c` shows the cores and `C` the summary, whatever was shown before; and
/// `C` after `c` shows the summary again.
pub proof fn law_cpu_view_keys(s: AppState)
    ensures
        cpu_view_of(after_key(s, Some(KeyPress::Char('c')))) == CpuView::Threads,
        cpu_view_of(after_key(s, Some(KeyPress::Char('C')))) == CpuView::Summary,
        cpu_view_of(
            after_key(after_key(s, Some(KeyPress::Char('c'))), Some(KeyPress::Char('C'))),
        ) == CpuView::Summary,
        after_key(s, Some(KeyPress::Char('c'))).osrametc == s.osrametc,
        after_key(s, Some(KeyPress::Char('C'))).osrametc == s.osrametc,
{
}

/// The panel number stays one of 0, 1 and 2 from the start on.
pub proof fn law_panel_number_in_range(s: AppState, key: Option<KeyPress>)
    requires
        s.osrametc <= 2,
    ensures
        initial_state().osrametc <= 2,
        after_key(s, key).osrametc <= 2,
{
}

/// Whether the dashboard acts on `key`.
pub open spec fn is_bound(key: Option<KeyPress>) -> bool {
    match key {
        Some(KeyPress::Esc) => true,
        Some(KeyPress::Char(c)) => c == 'q' || c == 'c' || c == 'C' || c == 'm' || c == 'd' || c
            == 'o',
        _ => false,
    }
}

/// Any other key, and any event that is no key press, changes nothing.
pub proof fn law_unbound_keys_change_nothing(s: AppState, key: Option<KeyPress>)
    requires
        !is_bound(key),
    ensures
        after_key(s, key) == s,
{
}

} // verus!
