//! The decisions of the desktop tray: what its menu and tooltip say, the
//! pixels of its icon, which menu entry was chosen, and the lifecycle rule
//! that asks the server to shut down at most once.
use vstd::prelude::*;
use crate::config::AgentConfig;

verus! {

/// What the tray says about the printer in use.
pub open spec fn printer_label(config: AgentConfig) -> Seq<char> {
    match config.system_printer_name {
        Some(name) => "Printer: "@ + name@,
        None => if config.prefer_system_backend {
            "Printer: system default"@
        } else {
            "Printer: auto (HID or system default)"@
        },
    }
}

/// The printer label for the tray.
pub fn configured_printer_label(config: &AgentConfig) -> (r: String)
    ensures
        r@ == printer_label(*config),
{
    match &config.system_printer_name {
        Some(name) => {
            let mut out = String::from_str("Printer: ");
            out.append(name.as_str());
            out
        },
        None => {
            if config.prefer_system_backend {
                String::from_str("Printer: system default")
            } else {
                String::from_str("Printer: auto (HID or system default)")
            }
        },
    }
}

/// The tray tooltip: the product name, then the printer label on a new line.
pub fn tray_tooltip(config: &AgentConfig) -> (r: String)
    ensures
        r@ == "eFact Printer Agent\n"@ + printer_label(*config),
{
    let mut out = String::from_str("eFact Printer Agent\n");
    let label = configured_printer_label(config);
    out.append(label.as_str());
    out
}

/// An entry of the tray menu.
pub enum TrayMenuEntry {
    /// A text entry, which may be greyed out.
    Item { text: String, enabled: bool },
    /// A separator line.
    Separator,
}

/// A menu entry is a text entry with this text and state.
pub open spec fn item_is(e: TrayMenuEntry, text: Seq<char>, enabled: bool) -> bool {
    e matches TrayMenuEntry::Item { text: t, enabled: en } && t@ == text && en == enabled
}

/// The tray menu: the printer label (greyed out), a separator, the two
/// folder entries, a separator, and Quit.
pub open spec fn tray_menu_is(config: AgentConfig, menu: Seq<TrayMenuEntry>) -> bool {
    &&& menu.len() == 6
    &&& item_is(menu[0], printer_label(config), false)
    &&& menu[1] is Separator
    &&& item_is(menu[2], "Open config folder"@, true)
    &&& item_is(menu[3], "Open logs folder"@, true)
    &&& menu[4] is Separator
    &&& item_is(menu[5], "Quit"@, true)
}

/// The entries of the tray menu, in order.
pub fn tray_menu(config: &AgentConfig) -> (r: Vec<TrayMenuEntry>)
    ensures
        tray_menu_is(*config, r@),
{
    let mut menu: Vec<TrayMenuEntry> = Vec::new();
    menu.push(TrayMenuEntry::Item { text: configured_printer_label(config), enabled: false });
    menu.push(TrayMenuEntry::Separator);
    menu.push(TrayMenuEntry::Item { text: String::from_str("Open config folder"), enabled: true });
    menu.push(TrayMenuEntry::Item { text: String::from_str("Open logs folder"), enabled: true });
    menu.push(TrayMenuEntry::Separator);
    menu.push(TrayMenuEntry::Item { text: String::from_str("Quit"), enabled: true });
    menu
}

/// The colour (red, green, blue, alpha) of the icon pixel in column `x` and
/// row `y` of the 16 by 16 icon: a dark border, a sheet of paper with a blue
/// header and three grey text lines, on a dark background.
pub open spec fn icon_pixel(x: int, y: int) -> (u8, u8, u8, u8) {
    let is_border = x == 0 || y == 0 || x == 15 || y == 15;
    let is_paper = 3 <= x <= 12 && 2 <= y <= 13;
    let is_header = is_paper && y <= 4;
    let is_line = is_paper && (y == 7 || y == 9 || y == 11) && 5 <= x <= 10;
    if is_border {
        (26, 43, 60, 255)
    } else if is_header {
        (37, 99, 235, 255)
    } else if is_line {
        (148, 163, 184, 255)
    } else if is_paper {
        (255, 255, 255, 255)
    } else {
        (15, 23, 42, 255)
    }
}

/// Channel `c` (0 red, 1 green, 2 blue, 3 alpha) of a pixel.
pub open spec fn channel(p: (u8, u8, u8, u8), c: int) -> u8 {
    if c == 0 {
        p.0
    } else if c == 1 {
        p.1
    } else if c == 2 {
        p.2
    } else {
        p.3
    }
}

/// Byte `i` of the icon's RGBA data, row by row, four bytes a pixel.
pub open spec fn icon_byte(i: int) -> u8 {
    channel(icon_pixel((i / 4) % 16, i / 64), i % 4)
}

/// The colour of one icon pixel.
fn icon_pixel_exec(x: usize, y: usize) -> (r: (u8, u8, u8, u8))
    requires
        x < 16,
        y < 16,
    ensures
        r == icon_pixel(x as int, y as int),
{
    let is_border = x == 0 || y == 0 || x == 15 || y == 15;
    let is_paper = 3 <= x && x <= 12 && 2 <= y && y <= 13;
    let is_header = is_paper && y <= 4;
    let is_line = is_paper && (y == 7 || y == 9 || y == 11) && 5 <= x && x <= 10;
    if is_border {
        (26, 43, 60, 255)
    } else if is_header {
        (37, 99, 235, 255)
    } else if is_line {
        (148, 163, 184, 255)
    } else if is_paper {
        (255, 255, 255, 255)
    } else {
        (15, 23, 42, 255)
    }
}

/// Where the bytes of pixel (`x`, `y`) stand.
proof fn lemma_icon_index(x: int, y: int, c: int)
    requires
        0 <= x < 16,
        0 <= y < 16,
        0 <= c < 4,
    ensures
        ((64 * y + 4 * x + c) / 4) % 16 == x,
        (64 * y + 4 * x + c) / 64 == y,
        (64 * y + 4 * x + c) % 4 == c,
{
    assert((64 * y + 4 * x + c) / 4 == 16 * y + x) by (nonlinear_arith)
        requires
            0 <= x < 16,
            0 <= c < 4,
    ;
    assert((16 * y + x) % 16 == x) by (nonlinear_arith)
        requires
            0 <= x < 16,
    ;
    assert((64 * y + 4 * x + c) / 64 == y) by (nonlinear_arith)
        requires
            0 <= x < 16,
            0 <= c < 4,
    ;
    assert((64 * y + 4 * x + c) % 4 == c) by (nonlinear_arith)
        requires
            0 <= c < 4,
    ;
}

/// The RGBA data of the 16 by 16 tray icon.
pub fn icon_rgba() -> (r: Vec<u8>)
    ensures
        r@.len() == 1024,
        forall|i: int| 0 <= i < 1024 ==> r@[i] == icon_byte(i),
{
    let mut out: Vec<u8> = Vec::new();
    let mut y: usize = 0;
    while y < 16
        invariant
            y <= 16,
            out@.len() == 64 * y,
            forall|i: int| 0 <= i < out@.len() ==> out@[i] == icon_byte(i),
        decreases 16 - y,
    {
        let mut x: usize = 0;
        while x < 16
            invariant
                y < 16,
                x <= 16,
                out@.len() == 64 * y + 4 * x,
                forall|i: int| 0 <= i < out@.len() ==> out@[i] == icon_byte(i),
            decreases 16 - x,
        {
            let p = icon_pixel_exec(x, y);
            let ghost base = out@.len() as int;
            proof {
                lemma_icon_index(x as int, y as int, 0);
                lemma_icon_index(x as int, y as int, 1);
                lemma_icon_index(x as int, y as int, 2);
                lemma_icon_index(x as int, y as int, 3);
            }
            out.push(p.0);
            out.push(p.1);
            out.push(p.2);
            out.push(p.3);
            assert(out@[base] == icon_byte(base));
            assert(out@[base + 1] == icon_byte(base + 1));
            assert(out@[base + 2] == icon_byte(base + 2));
            assert(out@[base + 3] == icon_byte(base + 3));
            x = x + 1;
        }
        y = y + 1;
    }
    out
}

/// What a tray menu click asks for.
#[derive(Debug, Clone, Copy, PartialEq, Eq, Structural)]
pub enum MenuAction {
    OpenConfigFolder,
    OpenLogsFolder,
    Quit,
    Ignore,
}

/// The entry `id` names, if the entry exists.
pub open spec fn names_entry(id: Option<String>, clicked: Seq<char>) -> bool {
    id matches Some(i) && i@ == clicked
}

/// The action for a click on the menu entry `clicked`, given the ids of the
/// entries: the config folder entry first, then the logs folder, then Quit.
pub open spec fn menu_action_for(
    clicked: Seq<char>,
    open_config: Option<String>,
    open_logs: Option<String>,
    quit: Option<String>,
) -> MenuAction {
    if names_entry(open_config, clicked) {
        MenuAction::OpenConfigFolder
    } else if names_entry(open_logs, clicked) {
        MenuAction::OpenLogsFolder
    } else if names_entry(quit, clicked) {
        MenuAction::Quit
    } else {
        MenuAction::Ignore
    }
}

/// Does the optional entry id equal `clicked`?
fn is_entry(id: &Option<String>, clicked: &String) -> (r: bool)
    ensures
        r == names_entry(*id, clicked@),
{
    match id {
        Some(i) => *i == *clicked,
        None => false,
    }
}

/// The action that a click on the menu entry with id `clicked` asks for.
pub fn menu_action(
    clicked: &String,
    open_config: &Option<String>,
    open_logs: &Option<String>,
    quit: &Option<String>,
) -> (r: MenuAction)
    ensures
        r == menu_action_for(clicked@, *open_config, *open_logs, *quit),
{
    if is_entry(open_config, clicked) {
        MenuAction::OpenConfigFolder
    } else if is_entry(open_logs, clicked) {
        MenuAction::OpenLogsFolder
    } else if is_entry(quit, clicked) {
        MenuAction::Quit
    } else {
        MenuAction::Ignore
    }
}

/// A folder that the tray can open.
#[derive(Debug, Clone, Copy, PartialEq, Eq, Structural)]
pub enum Folder {
    Config,
    Logs,
}

/// What happens to the tray application.
#[derive(Debug, Clone, Copy, PartialEq, Eq, Structural)]
pub enum TrayEvent {
    /// The event loop resumed.
    Resumed,
    /// Building the tray icon finished, or failed.
    TrayBuilt { ok: bool },
    /// A menu entry was clicked.
    Menu { action: MenuAction },
    /// The event loop is exiting.
    Exiting,
}

/// What the application is to do after an event.
#[derive(Debug, Clone, Copy, PartialEq, Eq, Structural)]
pub struct TrayStep {
    /// Build the tray icon and menu.
    pub build_tray: bool,
    /// Open a folder in the file manager.
    pub open_folder: Option<Folder>,
    /// Signal the server to shut down.
    pub send_shutdown: bool,
    /// Leave the event loop.
    pub exit_loop: bool,
}

/// The state of the tray application: whether the shutdown signal is still
/// to be sent, and whether the tray icon exists.
#[derive(Debug, Clone, Copy, PartialEq, Eq, Structural)]
pub struct TrayState {
    pub shutdown_pending: bool,
    pub tray_built: bool,
}

/// A step that does nothing.
pub open spec fn idle() -> TrayStep {
    TrayStep { build_tray: false, open_folder: None, send_shutdown: false, exit_loop: false }
}

/// The next state and the step for an event. Every path that ends the
/// application sends the shutdown signal if it is still pending.
pub open spec fn tray_next(s: TrayState, e: TrayEvent) -> (TrayState, TrayStep) {
    match e {
        TrayEvent::Resumed => (s, TrayStep { build_tray: !s.tray_built, ..idle() }),
        TrayEvent::TrayBuilt { ok } => if ok {
            (TrayState { tray_built: true, ..s }, idle())
        } else {
            (
                TrayState { shutdown_pending: false, ..s },
                TrayStep { send_shutdown: s.shutdown_pending, exit_loop: true, ..idle() },
            )
        },
        TrayEvent::Menu { action } => match action {
            MenuAction::OpenConfigFolder => (
                s,
                TrayStep { open_folder: Some(Folder::Config), ..idle() },
            ),
            MenuAction::OpenLogsFolder => (s, TrayStep { open_folder: Some(Folder::Logs), ..idle() }),
            MenuAction::Quit => (
                TrayState { shutdown_pending: false, ..s },
                TrayStep { send_shutdown: s.shutdown_pending, exit_loop: true, ..idle() },
            ),
            MenuAction::Ignore => (s, idle()),
        },
        TrayEvent::Exiting => (
            TrayState { shutdown_pending: false, ..s },
            TrayStep { send_shutdown: s.shutdown_pending, ..idle() },
        ),
    }
}

/// The number of shutdown signals that a run of events sends.
pub open spec fn shutdowns_sent(s: TrayState, events: Seq<TrayEvent>) -> nat
    decreases events.len(),
{
    if events.len() == 0 {
        0
    } else {
        let (next, step) = tray_next(s, events[0]);
        (if step.send_shutdown {
            1nat
        } else {
            0nat
        }) + shutdowns_sent(next, events.drop_first())
    }
}

impl TrayState {
    /// The state at start: the shutdown signal pending, no tray icon yet.
    pub fn new() -> (r: Self)
        ensures
            r.shutdown_pending,
            !r.tray_built,
    {
        TrayState { shutdown_pending: true, tray_built: false }
    }

    /// Takes an event and says what to do.
    pub fn step(&mut self, e: TrayEvent) -> (r: TrayStep)
        ensures
            (*final(self), r) == tray_next(*old(self), e),
    {
        let none = TrayStep {
            build_tray: false,
            open_folder: None,
            send_shutdown: false,
            exit_loop: false,
        };
        match e {
            TrayEvent::Resumed => TrayStep { build_tray: !self.tray_built, ..none },
            TrayEvent::TrayBuilt { ok } => {
                if ok {
                    self.tray_built = true;
                    none
                } else {
                    let send = self.shutdown_pending;
                    self.shutdown_pending = false;
                    TrayStep { send_shutdown: send, exit_loop: true, ..none }
                }
            },
            TrayEvent::Menu { action } => match action {
                MenuAction::OpenConfigFolder => TrayStep {
                    open_folder: Some(Folder::Config),
                    ..none
                },
                MenuAction::OpenLogsFolder => TrayStep { open_folder: Some(Folder::Logs), ..none },
                MenuAction::Quit => {
                    let send = self.shutdown_pending;
                    self.shutdown_pending = false;
                    TrayStep { send_shutdown: send, exit_loop: true, ..none }
                },
                MenuAction::Ignore => none,
            },
            TrayEvent::Exiting => {
                let send = self.shutdown_pending;
                self.shutdown_pending = false;
                TrayStep { send_shutdown: send, ..none }
            },
        }
    }
}

/// Whatever events come, the server is asked to shut down at most once, and
/// not at all once the signal has gone.
pub proof fn lemma_shutdown_at_most_once(s: TrayState, events: Seq<TrayEvent>)
    ensures
        shutdowns_sent(s, events) <= (if s.shutdown_pending {
            1nat
        } else {
            0nat
        }),
    decreases events.len(),
{
    if events.len() > 0 {
        let (next, step) = tray_next(s, events[0]);
        lemma_shutdown_at_most_once(next, events.drop_first());
    }
}

/// An event that ends the application: the event loop exiting, Quit from
/// the menu, or a failed tray build.
pub open spec fn ends_app(e: TrayEvent) -> bool {
    ||| e == TrayEvent::Exiting
    ||| e == TrayEvent::Menu { action: MenuAction::Quit }
    ||| e == TrayEvent::TrayBuilt { ok: false }
}

/// Every event that ends the application sends the shutdown signal while it
/// is pending, and leaves it sent; no other event sends it or changes
/// whether it is pending.
pub proof fn lemma_ending_sends_shutdown(s: TrayState, e: TrayEvent)
    ensures
        ends_app(e) && s.shutdown_pending ==> tray_next(s, e).1.send_shutdown,
        ends_app(e) ==> !tray_next(s, e).0.shutdown_pending,
        !ends_app(e) ==> !tray_next(s, e).1.send_shutdown && tray_next(s, e).0.shutdown_pending
            == s.shutdown_pending,
{
}

/// While the signal is pending, a run of events that ends the application
/// sends it exactly once.
pub proof fn lemma_shutdown_exactly_once(s: TrayState, events: Seq<TrayEvent>)
    requires
        s.shutdown_pending,
        exists|i: int| 0 <= i < events.len() && ends_app(#[trigger] events[i]),
    ensures
        shutdowns_sent(s, events) == 1,
    decreases events.len(),
{
    lemma_shutdown_at_most_once(s, events);
    let (next, step) = tray_next(s, events[0]);
    lemma_ending_sends_shutdown(s, events[0]);
    if !ends_app(events[0]) {
        let i = choose|i: int| 0 <= i < events.len() && ends_app(#[trigger] events[i]);
        assert(i > 0);
        assert(ends_app(events.drop_first()[i - 1]));
        lemma_shutdown_exactly_once(next, events.drop_first());
    }
}

/// Quitting from the menu, while the signal is pending, sends it and ends
/// the event loop.
pub proof fn lemma_quit_shuts_down(s: TrayState)
    requires
        s.shutdown_pending,
    ensures
        tray_next(s, TrayEvent::Menu { action: MenuAction::Quit }).1.send_shutdown,
        tray_next(s, TrayEvent::Menu { action: MenuAction::Quit }).1.exit_loop,
{
}

} // verus!
