use monitor_tray_control::monitor::Command;
use monitor_tray_control::scroll::{
    over_tray_icon, track_tray_event, wheel_delta, wheel_hook, HookOutcome, Rect, Tracker,
    TrayEvent, HC_ACTION, WHEEL_DELTA, WM_MOUSEWHEEL,
};

fn data(delta: i16) -> u32 {
    (delta as u16 as u32) << 16 | 0x00AB
}

fn hovering() -> Tracker {
    let mut tracker = Tracker::new();
    track_tray_event(&mut tracker, TrayEvent::Hover { left: 100, top: 200, width: 24, height: 40 });
    tracker
}

fn wheel(tracker: &mut Tracker, delta: i16) -> HookOutcome {
    wheel_hook(tracker, HC_ACTION, WM_MOUSEWHEEL, 110, 210, data(delta))
}

#[test]
fn constants_of_windows() {
    assert_eq!(WHEEL_DELTA, 120);
    assert_eq!(HC_ACTION, 0);
    assert_eq!(WM_MOUSEWHEEL, 0x020A);
}

#[test]
fn delta_is_the_signed_high_word() {
    for delta in [0i16, 1, 120, -1, -120, i16::MAX, i16::MIN] {
        assert_eq!(wheel_delta(data(delta)), delta as i32);
    }
    assert_eq!(wheel_delta(u32::MAX), -1);
    assert_eq!(wheel_delta(0x7FFF_FFFF), 32767);
}

#[test]
fn icon_holds_its_left_and_top_edges_only() {
    let rect = Some(Rect { left: -5, top: 10, right: 5, bottom: 20 });
    assert!(over_tray_icon(true, rect, -5, 10));
    assert!(over_tray_icon(true, rect, 4, 19));
    assert!(!over_tray_icon(true, rect, 5, 19));
    assert!(!over_tray_icon(true, rect, 4, 20));
    assert!(!over_tray_icon(true, rect, -6, 15));
    assert!(!over_tray_icon(true, rect, 0, 9));
    assert!(!over_tray_icon(false, rect, 0, 15));
    assert!(!over_tray_icon(true, None, 0, 15));
}

#[test]
fn notch_over_the_icon_is_swallowed_and_sent() {
    let mut tracker = hovering();
    assert_eq!(wheel(&mut tracker, 120), HookOutcome::Swallow(Some(Command::Adjust(1))));
    assert_eq!(wheel(&mut tracker, -240), HookOutcome::Swallow(Some(Command::Adjust(-2))));
}

#[test]
fn fine_turns_make_up_whole_notches() {
    let mut tracker = hovering();
    for _ in 0..3 {
        assert_eq!(wheel(&mut tracker, 30), HookOutcome::Swallow(None));
    }
    assert_eq!(wheel(&mut tracker, 30), HookOutcome::Swallow(Some(Command::Adjust(1))));
    assert_eq!(wheel(&mut tracker, 100), HookOutcome::Swallow(None));
    assert_eq!(wheel(&mut tracker, 150), HookOutcome::Swallow(Some(Command::Adjust(2))));
    // Ten are left over; the turn back first takes them up.
    assert_eq!(wheel(&mut tracker, -129), HookOutcome::Swallow(None));
    assert_eq!(wheel(&mut tracker, -1), HookOutcome::Swallow(Some(Command::Adjust(-1))));
}

#[test]
fn notches_and_remainder_account_for_every_delta() {
    let mut tracker = hovering();
    let mut turned = 0i32;
    let mut notches = 0i32;
    for delta in [7i16, 119, -3, 500, -1000, 32767, -32768, 64, 64, 64] {
        turned += delta as i32;
        if let HookOutcome::Swallow(Some(Command::Adjust(n))) = wheel(&mut tracker, delta) {
            notches += n;
        }
    }
    assert!((turned - 120 * notches).abs() < 120);
}

#[test]
fn leaving_drops_the_partial_notch() {
    let mut tracker = hovering();
    assert_eq!(wheel(&mut tracker, 119), HookOutcome::Swallow(None));
    track_tray_event(&mut tracker, TrayEvent::Leave);
    assert_eq!(wheel(&mut tracker, 120), HookOutcome::Pass);
    track_tray_event(&mut tracker, TrayEvent::Hover { left: 100, top: 200, width: 24, height: 40 });
    assert_eq!(wheel(&mut tracker, 1), HookOutcome::Swallow(None));
}

#[test]
fn moving_keeps_the_partial_notch() {
    let mut tracker = hovering();
    assert_eq!(wheel(&mut tracker, 119), HookOutcome::Swallow(None));
    track_tray_event(&mut tracker, TrayEvent::Hover { left: 101, top: 200, width: 24, height: 40 });
    track_tray_event(&mut tracker, TrayEvent::Other);
    assert_eq!(wheel(&mut tracker, 1), HookOutcome::Swallow(Some(Command::Adjust(1))));
}

#[test]
fn everything_else_is_passed_on() {
    let mut tracker = hovering();
    let notch = data(120);
    assert_eq!(
        wheel_hook(&mut tracker, -1, WM_MOUSEWHEEL, 110, 210, notch),
        HookOutcome::Pass
    );
    assert_eq!(wheel_hook(&mut tracker, HC_ACTION, 0x0200, 110, 210, notch), HookOutcome::Pass);
    // The tray may miss that the cursor left: the rectangle decides as well.
    assert_eq!(
        wheel_hook(&mut tracker, HC_ACTION, WM_MOUSEWHEEL, 124, 210, notch),
        HookOutcome::Pass
    );
    let mut fresh = Tracker::new();
    assert_eq!(wheel(&mut fresh, 120), HookOutcome::Pass);
}

#[test]
fn edges_must_be_coordinates() {
    let far = TrayEvent::Hover { left: i32::MAX, top: 0, width: 1, height: 1 };
    assert!(!far.edges_fit());
    let low = TrayEvent::Hover { left: 0, top: i32::MIN, width: 1, height: -1 };
    assert!(!low.edges_fit());
    let near = TrayEvent::Hover { left: i32::MAX - 1, top: 0, width: 1, height: 1 };
    assert!(near.edges_fit());
    assert!(TrayEvent::Leave.edges_fit());
    assert!(TrayEvent::Other.edges_fit());
}
