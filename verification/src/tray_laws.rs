//! What the menu offers and what the tray says.
use vstd::prelude::*;

use crate::icon::Tone;
use crate::monitor::Command;
use crate::monitor::UpdateView;
use crate::tray::MenuChoice;
use crate::tray::MenuEntry;
use crate::tray::MenuEntryView;
use crate::tray::TrayFace;

verus! {

use crate::icon::{bare_track, gauge};
use crate::text::{after_prefix, decimal, law_after_prefix, law_decimal_round_trip, parsed};
use crate::tray::{
    choice,
    entry_views,
    law_preset_sends_its_percentage,
    menu,
    name_after,
    preset_id,
    reading_text,
    reading_tooltip,
};

/// Whether some row can be clicked, has this label and asks for `wanted`.
pub open spec fn offers(
    entries: Seq<MenuEntryView>,
    label: Seq<char>,
    wanted: MenuChoice,
) -> bool {
    exists|row: int|
        0 <= row < entries.len() && (#[trigger] entries[row] matches MenuEntryView::Item {
            id,
            label: shown,
            enabled,
        } && enabled && shown == label && choice(id) == wanted)
}

/// Whatever the tick, the menu offers every choice of the app: a new search for
/// displays, the end of the app, and the five presets, each under its percentage.
/// One row has a tick, which is the one that was asked for, and turns the setting
/// on or off.
pub proof fn law_every_choice_has_a_row(autostart: bool, percent: u16)
    ensures
        offers(menu(autostart), "Quit"@, MenuChoice::Quit),
        offers(menu(autostart), "Reconnect"@, MenuChoice::Send(Command::Reconnect)),
        percent <= 100 && percent % 25 == 0 ==> offers(
            menu(autostart),
            decimal(percent as nat) + "%"@,
            MenuChoice::Send(Command::SetPercent(percent)),
        ),
        exists|row: int|
            0 <= row < menu(autostart).len() && (#[trigger] menu(autostart)[row]
                matches MenuEntryView::Check { id, label, checked } && checked == autostart && label
                == "Launch on startup"@ && choice(id) == MenuChoice::ToggleAutostart),
{
    let entries = menu(autostart);
    reveal_strlit("quit");
    reveal_strlit("autostart");
    reveal_strlit("reconnect");
    assert("quit"@[0] == 'q' && "autostart"@[0] == 'a' && "reconnect"@[0] == 'r');
    law_preset_sends_its_percentage(percent);
    assert(entries[10] is Item);
    assert(entries[9] is Item);
    assert(entries[8] is Check);
    if percent == 0 {
        assert(entries[2] is Item);
    } else if percent == 25 {
        assert(entries[3] is Item);
    } else if percent == 50 {
        assert(entries[4] is Item);
    } else if percent == 75 {
        assert(entries[5] is Item);
    } else if percent == 100 {
        assert(entries[6] is Item);
    }
}

/// The rows of the menu are the same whatever the tick: only the tick itself
/// differs.
pub proof fn law_tick_is_the_only_difference(row: int)
    ensures
        menu(true).len() == menu(false).len(),
        0 <= row < menu(true).len() ==> match menu(true)[row] {
            MenuEntryView::Check { id, label, checked } => checked && menu(false)[row] == (
            MenuEntryView::Check { id, label, checked: false }),
            _ => menu(false)[row] == menu(true)[row],
        },
{
}

/// The first row shows the status. It is the only one with a label that cannot be
/// clicked, and nothing comes of a click on it.
pub proof fn law_status_row_comes_first(autostart: bool, row: int)
    requires
        0 <= row < menu(autostart).len(),
    ensures
        menu(autostart)[row] matches MenuEntryView::Item { id, label, enabled } ==> {
            &&& enabled <==> row != 0
            &&& row == 0 ==> label == "Connecting..."@ && choice(id) == MenuChoice::Ignore
        },
        menu(autostart)[0] is Item,
{
    reveal_strlit("status");
    reveal_strlit("quit");
    reveal_strlit("autostart");
    reveal_strlit("reconnect");
    reveal_strlit("preset:");
    assert("status"@[0] == 's' && "quit"@[0] == 'q' && "autostart"@[0] == 'a' && "reconnect"@[0]
        == 'r' && "preset:"@[0] == 'p');
    assert(!"preset:"@.is_prefix_of("status"@));
}

/// A click asks for just what its identifier says: three words have a meaning of
/// their own, a number behind `preset:` asks for that percentage, and nothing else
/// asks for anything.
pub proof fn law_clicks(id: Seq<char>, rest: Seq<char>)
    ensures
        choice(id) == MenuChoice::Quit <==> id == "quit"@,
        choice(id) == MenuChoice::ToggleAutostart <==> id == "autostart"@,
        choice(id) == MenuChoice::Send(Command::Reconnect) <==> id == "reconnect"@,
        !(choice(id) matches MenuChoice::Send(Command::Adjust(_))),
        choice("preset:"@ + rest) == match parsed(rest) {
            Some(percent) => MenuChoice::Send(Command::SetPercent(percent)),
            None => MenuChoice::Ignore,
        },
        choice(id) matches MenuChoice::Send(Command::SetPercent(_)) ==> exists|number: Seq<char>|
            id == "preset:"@ + number && #[trigger] parsed(number) is Some,
{
    reveal_strlit("quit");
    reveal_strlit("autostart");
    reveal_strlit("reconnect");
    reveal_strlit("preset:");
    assert("quit"@[0] == 'q' && "autostart"@[0] == 'a' && "reconnect"@[0] == 'r'
        && "preset:"@[0] == 'p');
    law_after_prefix("preset:"@ + rest, "preset:"@, rest);
    assert(("preset:"@ + rest)[0] == 'p');
    if let Some(number) = after_prefix(id, "preset:"@) {
        law_after_prefix(id, "preset:"@, number);
        assert(parsed(number) is Some || parsed(number) is None);
    }
}

/// The number between the words of the status row reads back as the percentage
/// that is shown, so two percentages never look the same.
pub proof fn law_status_reads_back(percent: u16)
    ensures
        ({
            let text = reading_text(percent);
            &&& text.len() > 13
            &&& text.take(12) == "Brightness: "@
            &&& parsed(text.subrange(12, text.len() - 1)) == Some(percent)
            &&& text.subrange(12, text.len() - 1) == decimal(percent as nat)
            &&& text.last() == '%'
        }),
{
    reveal_strlit("Brightness: ");
    reveal_strlit("%");
    law_decimal_round_trip(percent);
    let text = reading_text(percent);
    assert(decimal(percent as nat).len() > 0);
    assert(text.take(12) =~= "Brightness: "@);
    assert(text.subrange(12, text.len() - 1) =~= decimal(percent as nat));
}

/// The tooltip has the name of the display in its first line and the text of the
/// status row in its second.
pub proof fn law_tooltip_has_two_lines(name: Seq<char>, percent: u16)
    ensures
        ({
            let tooltip = reading_tooltip(name, percent);
            &&& tooltip.take(name.len() as int) == name
            &&& tooltip[name.len() as int] == '\n'
            &&& tooltip.skip(name.len() as int + 1) == reading_text(percent)
        }),
{
    reveal_strlit("\n");
    let tooltip = reading_tooltip(name, percent);
    assert(tooltip.take(name.len() as int) =~= name);
    assert(tooltip.skip(name.len() as int + 1) =~= reading_text(percent));
}

/// A display is shown by the gauge at its percentage, its tooltip and its status;
/// where there is none, by the bare ring and the reason in both texts.
pub proof fn law_faces(face: TrayFace, tone: Tone, text: Seq<char>, percent: u16)
    ensures
        face.shows(tone, text, percent) <==> {
            &&& face.image.rgba@ == gauge(percent, tone)
            &&& face.tooltip@ == text + "\n"@ + ("Brightness: "@ + decimal(percent as nat) + "%"@)
            &&& face.status@ == "Brightness: "@ + decimal(percent as nat) + "%"@
        },
        face.shows_none(tone, text) <==> {
            &&& face.image.rgba@ == bare_track(tone)
            &&& face.tooltip@ == "Monitor Tray Control\n"@ + text
            &&& face.status@ == text
        },
{
}

/// Only a new display changes the name in the tooltip.
pub proof fn law_name_stays(name: Seq<char>, new_name: Seq<char>, reason: Seq<char>, percent: int)
    ensures
        name_after(name, UpdateView::Connected { name: new_name, percent }) == new_name,
        name_after(name, UpdateView::Brightness { percent }) == name,
        name_after(name, UpdateView::Disconnected { reason }) == name,
{
}

/// What is said of rows is said of the texts and marks in them, and a preset is
/// known by its decimal number.
pub proof fn law_rows_are_seen_as_they_are(
    id: String,
    label: String,
    mark: bool,
    entries: Seq<MenuEntry>,
    row: int,
    percent: u16,
)
    ensures
        (MenuEntry::Item { id, label, enabled: mark })@ == (MenuEntryView::Item {
            id: id@,
            label: label@,
            enabled: mark,
        }),
        (MenuEntry::Check { id, label, checked: mark })@ == (MenuEntryView::Check {
            id: id@,
            label: label@,
            checked: mark,
        }),
        MenuEntry::Separator@ == MenuEntryView::Separator,
        entry_views(entries).len() == entries.len(),
        0 <= row < entries.len() ==> entry_views(entries)[row] == entries[row]@,
        preset_id(percent) == "preset:"@ + decimal(percent as nat),
{
}

} // verus!
