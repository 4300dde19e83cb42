use monitor_tray_control::icon::{render, render_disconnected, Tone};
use monitor_tray_control::monitor::{Command, Update};
use monitor_tray_control::tray::{
    apply_update, build_menu, handle_menu_event, prevents_exit, MenuChoice, MenuEntry, Ui,
};

fn item(id: &str, label: &str, enabled: bool) -> MenuEntry {
    MenuEntry::Item { id: id.to_string(), label: label.to_string(), enabled }
}

#[test]
fn menu_rows_in_order() {
    let expected = vec![
        item("status", "Connecting...", false),
        MenuEntry::Separator,
        item("preset:0", "0%", true),
        item("preset:25", "25%", true),
        item("preset:50", "50%", true),
        item("preset:75", "75%", true),
        item("preset:100", "100%", true),
        MenuEntry::Separator,
        MenuEntry::Check {
            id: "autostart".to_string(),
            label: "Launch on startup".to_string(),
            checked: true,
        },
        item("reconnect", "Reconnect", true),
        item("quit", "Quit", true),
    ];
    assert_eq!(build_menu(true), expected);
    assert!(build_menu(false) != expected);
}

#[test]
fn menu_clicks_ask_for_what_the_row_says() {
    assert_eq!(handle_menu_event("quit"), MenuChoice::Quit);
    assert_eq!(handle_menu_event("autostart"), MenuChoice::ToggleAutostart);
    assert_eq!(handle_menu_event("reconnect"), MenuChoice::Send(Command::Reconnect));
    assert_eq!(handle_menu_event("preset:25"), MenuChoice::Send(Command::SetPercent(25)));
    assert_eq!(handle_menu_event("preset:+7"), MenuChoice::Send(Command::SetPercent(7)));
    assert_eq!(handle_menu_event("preset:65535"), MenuChoice::Send(Command::SetPercent(65535)));
}

#[test]
fn unknown_menu_rows_are_ignored() {
    for id in ["", "status", "Quit", "quit ", "preset", "preset:", "preset:65536", "preset:-1",
        "preset:+", "preset:1 ", "preset:1_0", "preset:x", "xpreset:1", "preset:\u{663}"]
    {
        assert_eq!(handle_menu_event(id), MenuChoice::Ignore, "{}", id);
    }
}

#[test]
fn every_preset_sends_its_percentage() {
    for percent in 0..=65535u16 {
        let id = format!("preset:{}", percent);
        assert_eq!(handle_menu_event(&id), MenuChoice::Send(Command::SetPercent(percent)));
    }
}

#[test]
fn ui_starts_disconnected() {
    let (ui, face) = Ui::new(Tone::Light);
    assert_eq!(ui.name, "");
    assert_eq!(ui.tone, Tone::Light);
    assert_eq!(face.tooltip, "Monitor Tray Control - connecting...");
    assert_eq!(face.status, "Connecting...");
    assert_eq!(face.image.rgba, render_disconnected(Tone::Light).rgba);
}

#[test]
fn connected_display_is_named_and_drawn() {
    let (mut ui, _) = Ui::new(Tone::Dark);
    let face = apply_update(&mut ui, Update::Connected { name: "Panel".to_string(), percent: 40 });
    assert_eq!(face.tooltip, "Panel\nBrightness: 40%");
    assert_eq!(face.status, "Brightness: 40%");
    assert_eq!(face.image.rgba, render(40, Tone::Dark).rgba);
    assert_eq!((face.image.width, face.image.height), (32, 32));
}

#[test]
fn brightness_keeps_the_name_in_the_tooltip() {
    let (mut ui, _) = Ui::new(Tone::Dark);
    apply_update(&mut ui, Update::Connected { name: "Panel".to_string(), percent: 40 });
    apply_update(&mut ui, Update::Brightness { percent: 41 });
    let face = apply_update(&mut ui, Update::Brightness { percent: 100 });
    assert_eq!(face.tooltip, "Panel\nBrightness: 100%");
    assert_eq!(face.status, "Brightness: 100%");
    assert_eq!(face.image.rgba, render(100, Tone::Dark).rgba);
}

#[test]
fn disconnected_tray_gives_the_reason() {
    let (mut ui, _) = Ui::new(Tone::Dark);
    apply_update(&mut ui, Update::Connected { name: "Panel".to_string(), percent: 40 });
    let reason = "No monitor found".to_string();
    let face = apply_update(&mut ui, Update::Disconnected { reason });
    assert_eq!(face.tooltip, "Monitor Tray Control\nNo monitor found");
    assert_eq!(face.status, "No monitor found");
    assert_eq!(face.image.rgba, render_disconnected(Tone::Dark).rgba);
    let face = apply_update(&mut ui, Update::Brightness { percent: 5 });
    assert_eq!(face.tooltip, "Panel\nBrightness: 5%");
}

#[test]
fn only_an_exit_code_ends_the_app() {
    assert!(prevents_exit(None));
    assert!(!prevents_exit(Some(0)));
}
