use monitor_tray_control::autostart;
use monitor_tray_control::autostart::{is_enabled, settled, toggle_autostart};
use monitor_tray_control::single_instance::{acquire, Creation, Guard, ERROR_ALREADY_EXISTS};

fn unreadable() -> Result<bool, String> {
    Err("denied".to_string())
}

#[test]
fn unreadable_setting_counts_as_off() {
    assert!(is_enabled(&Ok(true)));
    assert!(!is_enabled(&Ok(false)));
    assert!(!is_enabled(&unreadable()));
}

#[test]
fn write_that_goes_through_takes_effect() {
    assert_eq!(autostart::set(true, &Ok(())), Some(true));
    assert_eq!(autostart::set(false, &Ok(())), Some(false));
    assert_eq!(autostart::set(true, &Err("denied".to_string())), None);
    assert_eq!(autostart::set(false, &Err("denied".to_string())), None);
}

#[test]
fn toggle_turns_the_setting_round() {
    assert!(!toggle_autostart(&Ok(true)));
    assert!(toggle_autostart(&Ok(false)));
    assert!(toggle_autostart(&unreadable()));
}

#[test]
fn second_instance_gets_no_claim() {
    assert_eq!(ERROR_ALREADY_EXISTS, 183);
    assert_eq!(acquire(Creation::Handle { last_error: 183 }), None);
    assert_eq!(acquire(Creation::Handle { last_error: 0 }), Some(Guard { on_handle: true }));
    assert_eq!(acquire(Creation::Handle { last_error: 5 }), Some(Guard { on_handle: true }));
    assert_eq!(acquire(Creation::Failed), Some(Guard { on_handle: false }));
}

#[test]
fn refused_write_leaves_the_tick_at_what_is_read_back() {
    let refused: Result<(), String> = Err("denied".to_string());
    for (read_back, shown) in [(Ok(true), true), (Ok(false), false), (unreadable(), false)] {
        let wanted = toggle_autostart(&Ok(false));
        let tick = settled(wanted, &refused, &read_back);
        assert_eq!(tick, shown);
    }
}

#[test]
fn tick_is_the_state_that_took_effect() {
    for read_back in [Ok(true), Ok(false), unreadable()] {
        assert!(settled(toggle_autostart(&Ok(false)), &Ok(()), &read_back));
        assert!(!settled(toggle_autostart(&Ok(true)), &Ok(()), &read_back));
        assert!(settled(toggle_autostart(&unreadable()), &Ok(()), &read_back));
    }
}
