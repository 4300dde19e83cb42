//! What the tray shows and what its menu asks for.
use vstd::prelude::*;
use vstd::string::*;

use crate::icon::render;
use crate::icon::render_disconnected;
use crate::icon::Image;
use crate::icon::Tone;
use crate::monitor::Command;
use crate::monitor::Update;
use crate::monitor::UpdateView;
use crate::text::parse_u16;
use crate::text::same_text;
use crate::text::strip_prefix;
use crate::text::to_decimal;

verus! {

use crate::icon::{bare_track, gauge};
use crate::text::{after_prefix, decimal, law_decimal_round_trip, parsed};

/// One row of the menu.
#[derive(Debug, PartialEq, Eq)]
pub enum MenuEntry {
    /// A row to click, or one that only shows its label.
    Item { id: String, label: String, enabled: bool },
    /// A row with a tick.
    Check { id: String, label: String, checked: bool },
    /// A rule between rows.
    Separator,
}

/// What a [`MenuEntry`] says.
pub enum MenuEntryView {
    Item { id: Seq<char>, label: Seq<char>, enabled: bool },
    Check { id: Seq<char>, label: Seq<char>, checked: bool },
    Separator,
}

impl View for MenuEntry {
    type V = MenuEntryView;

    open spec fn view(&self) -> MenuEntryView {
        match self {
            MenuEntry::Item { id, label, enabled } => MenuEntryView::Item {
                id: id@,
                label: label@,
                enabled: *enabled,
            },
            MenuEntry::Check { id, label, checked } => MenuEntryView::Check {
                id: id@,
                label: label@,
                checked: *checked,
            },
            MenuEntry::Separator => MenuEntryView::Separator,
        }
    }
}

/// What the rows of a menu say.
pub open spec fn entry_views(entries: Seq<MenuEntry>) -> Seq<MenuEntryView> {
    entries.map_values(|e: MenuEntry| e@)
}

/// The identifier of the preset for `percent`.
pub open spec fn preset_id(percent: u16) -> Seq<char> {
    "preset:"@ + decimal(percent as nat)
}

/// The row of the preset for `percent`.
pub open spec fn preset_entry(percent: u16) -> MenuEntryView {
    MenuEntryView::Item {
        id: preset_id(percent),
        label: decimal(percent as nat) + "%"@,
        enabled: true,
    }
}

/// The menu: the current reading, the presets, and the commands.
pub open spec fn menu(autostart: bool) -> Seq<MenuEntryView> {
    seq![
        MenuEntryView::Item { id: "status"@, label: "Connecting..."@, enabled: false },
        MenuEntryView::Separator,
        preset_entry(0),
        preset_entry(25),
        preset_entry(50),
        preset_entry(75),
        preset_entry(100),
        MenuEntryView::Separator,
        MenuEntryView::Check {
            id: "autostart"@,
            label: "Launch on startup"@,
            checked: autostart,
        },
        MenuEntryView::Item { id: "reconnect"@, label: "Reconnect"@, enabled: true },
        MenuEntryView::Item { id: "quit"@, label: "Quit"@, enabled: true },
    ]
}

fn item(id: &str, label: &str, enabled: bool) -> (r: MenuEntry)
    ensures
        r@ == (MenuEntryView::Item { id: id@, label: label@, enabled }),
{
    MenuEntry::Item { id: id.to_owned(), label: label.to_owned(), enabled }
}

fn preset(percent: u16) -> (r: MenuEntry)
    ensures
        r@ == preset_entry(percent),
{
    let number = to_decimal(percent);
    let id = "preset:".to_owned().concat(number.as_str());
    let label = number.concat("%");
    MenuEntry::Item { id, label, enabled: true }
}

/// Lays out the menu. `autostart` says whether the tick is set.
pub fn build_menu(autostart: bool) -> (r: Vec<MenuEntry>)
    ensures
        entry_views(r@) == menu(autostart),
{
    let mut entries: Vec<MenuEntry> = Vec::new();
    entries.push(item("status", "Connecting...", false));
    entries.push(MenuEntry::Separator);
    entries.push(preset(0));
    entries.push(preset(25));
    entries.push(preset(50));
    entries.push(preset(75));
    entries.push(preset(100));
    entries.push(MenuEntry::Separator);
    entries.push(
        MenuEntry::Check {
            id: "autostart".to_owned(),
            label: "Launch on startup".to_owned(),
            checked: autostart,
        },
    );
    entries.push(item("reconnect", "Reconnect", true));
    entries.push(item("quit", "Quit", true));
    assert(entry_views(entries@) =~= menu(autostart));
    entries
}

/// What a click in the menu asks for.
#[derive(Debug, Clone, Copy, PartialEq, Eq)]
pub enum MenuChoice {
    /// End the app.
    Quit,
    /// Turn "Launch on startup" on or off.
    ToggleAutostart,
    /// Send a command to the worker.
    Send(Command),
    /// Nothing.
    Ignore,
}

/// What a click on the row with this identifier asks for.
pub open spec fn choice(id: Seq<char>) -> MenuChoice {
    if id == "quit"@ {
        MenuChoice::Quit
    } else if id == "autostart"@ {
        MenuChoice::ToggleAutostart
    } else if id == "reconnect"@ {
        MenuChoice::Send(Command::Reconnect)
    } else {
        match after_prefix(id, "preset:"@) {
            Some(percent) => match parsed(percent) {
                Some(percent) => MenuChoice::Send(Command::SetPercent(percent)),
                None => MenuChoice::Ignore,
            },
            None => MenuChoice::Ignore,
        }
    }
}

/// Decides what a click on the row with this identifier asks for.
pub fn handle_menu_event(id: &str) -> (r: MenuChoice)
    ensures
        r == choice(id@),
{
    if same_text(id, "quit") {
        return MenuChoice::Quit;
    }
    if same_text(id, "autostart") {
        return MenuChoice::ToggleAutostart;
    }
    if same_text(id, "reconnect") {
        return MenuChoice::Send(Command::Reconnect);
    }
    match strip_prefix(id, "preset:") {
        Some(percent) => match parse_u16(percent) {
            Some(percent) => MenuChoice::Send(Command::SetPercent(percent)),
            None => MenuChoice::Ignore,
        },
        None => MenuChoice::Ignore,
    }
}

/// A click on the preset for a percentage asks for that percentage.
pub proof fn law_preset_sends_its_percentage(percent: u16)
    ensures
        choice(preset_id(percent)) == MenuChoice::Send(Command::SetPercent(percent)),
{
    let id = preset_id(percent);
    reveal_strlit("preset:");
    reveal_strlit("quit");
    reveal_strlit("autostart");
    reveal_strlit("reconnect");
    assert(id[0] == 'p');
    assert("preset:"@.is_prefix_of(id));
    assert(id.skip("preset:"@.len() as int) =~= decimal(percent as nat));
    law_decimal_round_trip(percent);
}

/// Every row that can be clicked asks for something, and no other row does.
pub proof fn law_menu_rows_are_wired(autostart: bool, row: int)
    requires
        0 <= row < menu(autostart).len(),
    ensures
        match menu(autostart)[row] {
            MenuEntryView::Item { id, enabled, .. } => enabled <==> choice(id)
                != MenuChoice::Ignore,
            MenuEntryView::Check { id, .. } => choice(id) == MenuChoice::ToggleAutostart,
            MenuEntryView::Separator => true,
        },
{
    law_preset_sends_its_percentage(0);
    law_preset_sends_its_percentage(25);
    law_preset_sends_its_percentage(50);
    law_preset_sends_its_percentage(75);
    law_preset_sends_its_percentage(100);
    reveal_strlit("preset:");
    reveal_strlit("quit");
    reveal_strlit("autostart");
    reveal_strlit("reconnect");
    reveal_strlit("status");
    assert("status"@[0] == 's' && "quit"@[0] == 'q' && "autostart"@[0] == 'a' && "reconnect"@[0]
        == 'r' && "preset:"@[0] == 'p');
    assert(!"preset:"@.is_prefix_of("status"@));
}

/// Everything the update handler needs to redraw the tray.
#[derive(Debug)]
pub struct Ui {
    /// Glyph colour chosen for the current taskbar theme.
    pub tone: Tone,
    /// Display name, kept so brightness updates can keep it in the tooltip.
    pub name: String,
}

/// The icon, the tooltip and the status row of the menu.
#[derive(Debug)]
pub struct TrayFace {
    pub image: Image,
    pub tooltip: String,
    pub status: String,
}

/// The status row at `percent`.
pub open spec fn reading_text(percent: u16) -> Seq<char> {
    "Brightness: "@ + decimal(percent as nat) + "%"@
}

/// The tooltip for a display of this name at `percent`.
pub open spec fn reading_tooltip(name: Seq<char>, percent: u16) -> Seq<char> {
    name + "\n"@ + reading_text(percent)
}

impl TrayFace {
    /// The tray shows a display of this name at `percent`.
    pub open spec fn shows(self, tone: Tone, name: Seq<char>, percent: u16) -> bool {
        &&& self.image.rgba@ == gauge(percent, tone)
        &&& self.tooltip@ == reading_tooltip(name, percent)
        &&& self.status@ == reading_text(percent)
    }

    /// The tray shows that there is no display and why.
    pub open spec fn shows_none(self, tone: Tone, reason: Seq<char>) -> bool {
        &&& self.image.rgba@ == bare_track(tone)
        &&& self.tooltip@ == "Monitor Tray Control\n"@ + reason
        &&& self.status@ == reason
    }
}

fn reading(percent: u16) -> (r: String)
    ensures
        r@ == reading_text(percent),
{
    "Brightness: ".to_owned().concat(to_decimal(percent).as_str()).concat("%")
}

impl Ui {
    /// The UI before the first update, and what the tray shows until then.
    pub fn new(tone: Tone) -> (r: (Ui, TrayFace))
        ensures
            r.0.tone == tone,
            r.0.name@ == Seq::<char>::empty(),
            r.1.image.rgba@ == bare_track(tone),
            r.1.image.width == 32,
            r.1.image.height == 32,
            r.1.tooltip@ == "Monitor Tray Control - connecting..."@,
            r.1.status@ == "Connecting..."@,
    {
        let face = TrayFace {
            image: render_disconnected(tone),
            tooltip: "Monitor Tray Control - connecting...".to_owned(),
            status: "Connecting...".to_owned(),
        };
        (Ui { tone, name: String::new() }, face)
    }

    fn face(&self, percent: u16) -> (r: TrayFace)
        ensures
            r.shows(self.tone, self.name@, percent),
            r.image.width == 32,
            r.image.height == 32,
    {
        let status = reading(percent);
        let tooltip = self.name.clone().concat("\n").concat(status.as_str());
        TrayFace { image: render(percent, self.tone), tooltip, status }
    }
}

/// The name that the tooltip shows from the update on.
pub open spec fn name_after(name: Seq<char>, update: UpdateView) -> Seq<char> {
    match update {
        UpdateView::Connected { name: new_name, .. } => new_name,
        _ => name,
    }
}

/// Applies a worker update: gives the tray icon, tooltip and status row.
pub fn apply_update(ui: &mut Ui, update: Update) -> (face: TrayFace)
    ensures
        final(ui).tone == old(ui).tone,
        final(ui).name@ == name_after(old(ui).name@, update@),
        face.image.width == 32,
        face.image.height == 32,
        match update {
            Update::Connected { name, percent } => face.shows(old(ui).tone, name@, percent),
            Update::Brightness { percent } => face.shows(old(ui).tone, old(ui).name@, percent),
            Update::Disconnected { reason } => face.shows_none(old(ui).tone, reason@),
        },
{
    match update {
        Update::Connected { name, percent } => {
            ui.name = name;
            ui.face(percent)
        },
        Update::Brightness { percent } => ui.face(percent),
        Update::Disconnected { reason } => {
            let tooltip = "Monitor Tray Control\n".to_owned().concat(reason.as_str());
            TrayFace { image: render_disconnected(ui.tone), tooltip, status: reason }
        },
    }
}

/// The name that the tooltip shows after all the updates.
pub open spec fn name_after_all(name: Seq<char>, updates: Seq<UpdateView>) -> Seq<char>
    decreases updates.len(),
{
    if updates.len() == 0 {
        name
    } else {
        name_after(name_after_all(name, updates.drop_last()), updates.last())
    }
}

/// The tooltip names the display that was connected last, however often its
/// brightness has changed since.
pub proof fn law_tooltip_names_the_last_display(
    name: Seq<char>,
    updates: Seq<UpdateView>,
    connected: int,
)
    requires
        0 <= connected < updates.len(),
        updates[connected] is Connected,
        forall|i: int| connected < i < updates.len() ==> !(updates[i] is Connected),
    ensures
        name_after_all(name, updates) == updates[connected]->name,
    decreases updates.len(),
{
    let before = updates.drop_last();
    if connected < before.len() {
        assert(before[connected] == updates[connected]);
        assert(forall|i: int| connected < i < before.len() ==> before[i] == updates[i]);
        law_tooltip_names_the_last_display(name, before, connected);
        assert(!(updates[updates.len() - 1] is Connected));
    }
}

/// Whether a request to exit is refused: with no window to close, only one that
/// names an exit code, as a click on Quit does, ends the app.
pub fn prevents_exit(code: Option<i32>) -> (r: bool)
    ensures
        r == (code is None),
{
    code.is_none()
}

} // verus!
