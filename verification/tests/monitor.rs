use monitor_tray_control::monitor::{
    coalesce, run, Action, Burst, Command, Connection, Event, Phase, Update, Worker,
    STEP_PERCENT, VCP_BRIGHTNESS,
};

fn display(value: u16, max: u16) -> Connection {
    Connection { name: "Panel".to_string(), value, max }
}

fn step(worker: &mut Worker, event: Event) -> (Vec<Update>, Action) {
    assert!(worker.accepts(&event));
    let step = run(worker, event);
    (step.updates, step.action)
}

fn connected(value: u16, max: u16) -> Worker {
    let (mut worker, action) = Worker::start();
    assert_eq!(action, Action::Connect);
    let (_, action) = step(&mut worker, Event::Connect(Ok(display(value, max))));
    assert_eq!(action, Action::Receive);
    worker
}

fn commands(first: Command, queued: Vec<Command>) -> Event {
    Event::Commands { first, queued }
}

fn brightness(percent: u16) -> Update {
    Update::Brightness { percent }
}

#[test]
fn constants_of_the_display() {
    assert_eq!(STEP_PERCENT, 5);
    assert_eq!(VCP_BRIGHTNESS, 0x10);
}

#[test]
fn percent_rounds_to_the_nearest() {
    assert_eq!(display(0, 100).percent(), 0);
    assert_eq!(display(50, 100).percent(), 50);
    assert_eq!(display(1, 3).percent(), 33);
    assert_eq!(display(2, 3).percent(), 67);
    assert_eq!(display(1, 200).percent(), 1);
    assert_eq!(display(65535, 65535).percent(), 100);
    assert_eq!(display(300, 100).percent(), 100);
    assert_eq!(display(7, 0).percent(), 0);
}

#[test]
fn value_for_scales_to_the_maximum() {
    assert_eq!(display(0, 100).value_for(37), 37);
    assert_eq!(display(0, 255).value_for(50), 128);
    assert_eq!(display(0, 255).value_for(100), 255);
    assert_eq!(display(0, 255).value_for(9999), 255);
    assert_eq!(display(0, 65535).value_for(100), 65535);
    assert_eq!(display(0, 50).value_for(1), 1);
    assert_eq!(display(0, 0).value_for(50), 0);
}

#[test]
fn set_percentages_are_shown_from_a_hundred_levels_on() {
    for max in [100u16, 101, 120, 255, 1000, 65535] {
        for percent in 0..=100u16 {
            let value = display(0, max).value_for(percent);
            assert!(value <= max);
            assert_eq!(display(value, max).percent(), percent);
        }
    }
    // With fewer levels they need not be.
    assert_eq!(display(display(0, 50).value_for(1), 50).percent(), 2);
}

#[test]
fn commands_fold_into_one_change() {
    let folded = coalesce(
        Command::Adjust(2),
        &vec![Command::Adjust(-3), Command::Reconnect, Command::Adjust(4)],
    );
    assert_eq!(folded, Some(Burst { absolute: None, notches: 3, reconnect: true }));
    let preset = coalesce(
        Command::Adjust(2),
        &vec![Command::SetPercent(10), Command::SetPercent(20), Command::Adjust(1)],
    );
    assert_eq!(preset, Some(Burst { absolute: Some(20), notches: 1, reconnect: false }));
}

#[test]
fn scrolls_add_up_however_they_are_split() {
    let split = coalesce(Command::Adjust(1), &vec![Command::Adjust(1), Command::Adjust(1)]);
    assert_eq!(split, coalesce(Command::Adjust(3), &vec![]));
}

#[test]
fn overflowing_notches_are_not_folded() {
    assert_eq!(coalesce(Command::Adjust(i32::MAX), &vec![Command::Adjust(1)]), None);
    // A preset starts the count anew.
    let reset = coalesce(
        Command::Adjust(i32::MAX),
        &vec![Command::SetPercent(50), Command::Adjust(1)],
    );
    assert_eq!(reset, Some(Burst { absolute: Some(50), notches: 1, reconnect: false }));
    let worker = connected(50, 100);
    assert!(!worker.accepts(&commands(Command::Adjust(i32::MAX), vec![])));
    assert!(!worker.accepts(&commands(Command::Adjust(i32::MIN), vec![])));
    assert!(worker.accepts(&commands(Command::Adjust(429_496_719), vec![])));
    assert!(!worker.accepts(&commands(Command::Adjust(429_496_720), vec![])));
    let beyond = vec![Command::Adjust(i32::MAX)];
    assert!(!worker.accepts(&commands(Command::SetPercent(0), beyond)));
}

#[test]
fn startup_shows_the_display() {
    let (mut worker, action) = Worker::start();
    assert_eq!(action, Action::Connect);
    let (updates, action) = step(&mut worker, Event::Connect(Ok(display(128, 255))));
    assert_eq!(updates, vec![Update::Connected { name: "Panel".to_string(), percent: 50 }]);
    assert_eq!(action, Action::Receive);
    assert_eq!(worker.connection(), Some(&display(128, 255)));
}

#[test]
fn startup_without_a_display_waits_for_commands() {
    let (mut worker, _) = Worker::start();
    let (updates, action) = step(&mut worker, Event::Connect(Err("No monitor found".to_string())));
    assert_eq!(updates, vec![Update::Disconnected { reason: "No monitor found".to_string() }]);
    assert_eq!(action, Action::Receive);
    assert_eq!(worker.connection(), None);
    assert_eq!(worker.phase(), Phase::Idle);
}

#[test]
fn one_notch_is_five_percent() {
    let mut worker = connected(50, 100);
    let (updates, action) = step(&mut worker, commands(Command::Adjust(1), vec![]));
    assert_eq!((updates, action), (vec![brightness(55)], Action::Write(55)));
    let (updates, action) = step(&mut worker, Event::Write(Ok(())));
    assert_eq!((updates, action), (vec![], Action::Receive));
    let (updates, action) = step(&mut worker, commands(Command::Adjust(-2), vec![]));
    assert_eq!((updates, action), (vec![brightness(45)], Action::Write(45)));
}

#[test]
fn burst_is_one_write() {
    let mut worker = connected(100, 255);
    let queued = vec![Command::Adjust(1); 40];
    let (updates, action) = step(&mut worker, commands(Command::Adjust(-38), queued));
    // 39 percent and two notches.
    assert_eq!((updates, action), (vec![brightness(49)], Action::Write(125)));
    assert_eq!(worker.phase(), Phase::Writing);
    let (updates, action) = step(&mut worker, Event::Write(Ok(())));
    assert_eq!((updates, action), (vec![], Action::Receive));
}

#[test]
fn scroll_stops_at_the_ends() {
    let mut worker = connected(98, 100);
    let (updates, action) = step(&mut worker, commands(Command::Adjust(10), vec![]));
    assert_eq!((updates, action), (vec![brightness(100)], Action::Write(100)));
    step(&mut worker, Event::Write(Ok(())));
    let (updates, action) = step(&mut worker, commands(Command::Adjust(1), vec![]));
    assert_eq!((updates, action), (vec![], Action::Receive));
    let (updates, action) = step(&mut worker, commands(Command::Adjust(-400), vec![]));
    assert_eq!((updates, action), (vec![brightness(0)], Action::Write(0)));
}

#[test]
fn notches_that_cancel_out_write_nothing() {
    let mut worker = connected(50, 100);
    let (updates, action) =
        step(&mut worker, commands(Command::Adjust(3), vec![Command::Adjust(-3)]));
    assert_eq!((updates, action), (vec![], Action::Receive));
}

#[test]
fn preset_is_written_even_where_it_changes_nothing() {
    let mut worker = connected(50, 100);
    let (updates, action) = step(&mut worker, commands(Command::SetPercent(50), vec![]));
    assert_eq!((updates, action), (vec![brightness(50)], Action::Write(50)));
    step(&mut worker, Event::Write(Ok(())));
    let (updates, action) = step(&mut worker, commands(Command::SetPercent(500), vec![]));
    assert_eq!((updates, action), (vec![brightness(100)], Action::Write(100)));
}

#[test]
fn scrolls_after_a_preset_start_from_it() {
    let mut worker = connected(50, 100);
    let event = commands(Command::Adjust(4), vec![Command::SetPercent(25), Command::Adjust(1)]);
    let (updates, action) = step(&mut worker, event);
    assert_eq!((updates, action), (vec![brightness(30)], Action::Write(30)));
    step(&mut worker, Event::Write(Ok(())));
    // They stop at the ends as well, and a preset above 100 counts as 100.
    let event = commands(Command::SetPercent(95), vec![Command::Adjust(3)]);
    let (updates, action) = step(&mut worker, event);
    assert_eq!((updates, action), (vec![brightness(100)], Action::Write(100)));
    step(&mut worker, Event::Write(Ok(())));
    let event = commands(Command::SetPercent(500), vec![Command::Adjust(-1)]);
    let (updates, action) = step(&mut worker, event);
    assert_eq!((updates, action), (vec![brightness(95)], Action::Write(95)));
}

#[test]
fn preset_and_notch_are_one_write() {
    let mut worker = connected(20, 100);
    let event = commands(Command::SetPercent(50), vec![Command::Adjust(1)]);
    let (updates, action) = step(&mut worker, event);
    assert_eq!((updates, action), (vec![brightness(55)], Action::Write(55)));
    step(&mut worker, Event::Write(Ok(())));
    let (updates, action) = step(&mut worker, Event::Closed);
    assert_eq!((updates, action), (vec![], Action::Stop));
    // In two bursts the display ends where it does in one.
    let mut apart = connected(20, 100);
    step(&mut apart, commands(Command::SetPercent(50), vec![]));
    step(&mut apart, Event::Write(Ok(())));
    step(&mut apart, commands(Command::Adjust(1), vec![]));
    assert_eq!(apart.connection(), worker.connection());
}

#[test]
fn failed_write_drops_the_display() {
    let mut worker = connected(50, 100);
    step(&mut worker, commands(Command::Adjust(1), vec![]));
    let (updates, action) = step(&mut worker, Event::Write(Err("bus error".to_string())));
    let reason = "Lost contact with the display: bus error".to_string();
    assert_eq!((updates, action), (vec![Update::Disconnected { reason }], Action::Receive));
    assert_eq!(worker.connection(), None);
    let (updates, action) = step(&mut worker, commands(Command::Adjust(1), vec![]));
    assert_eq!((updates, action), (vec![], Action::Connect));
}

#[test]
fn burst_is_applied_to_the_display_that_is_found() {
    let mut worker = connected(50, 100);
    let event = commands(Command::Adjust(2), vec![Command::Reconnect]);
    let (updates, action) = step(&mut worker, event);
    assert_eq!((updates, action), (vec![], Action::Connect));
    assert_eq!(worker.connection(), None);
    let (updates, action) = step(&mut worker, Event::Connect(Ok(display(20, 200))));
    let shown = vec![
        Update::Connected { name: "Panel".to_string(), percent: 10 },
        brightness(20),
    ];
    assert_eq!((updates, action), (shown, Action::Write(40)));
}

#[test]
fn reconnect_alone_writes_nothing() {
    let mut worker = connected(50, 100);
    step(&mut worker, commands(Command::Reconnect, vec![]));
    let (updates, action) = step(&mut worker, Event::Connect(Ok(display(30, 100))));
    let shown = vec![Update::Connected { name: "Panel".to_string(), percent: 30 }];
    assert_eq!((updates, action), (shown, Action::Receive));
}

#[test]
fn closed_channel_ends_the_worker() {
    let mut worker = connected(50, 100);
    let (updates, action) = step(&mut worker, Event::Closed);
    assert_eq!((updates, action), (vec![], Action::Stop));
    assert_eq!(worker.phase(), Phase::Stopped);
    assert!(!worker.accepts(&Event::Closed));
}

#[test]
fn events_out_of_turn_are_not_accepted() {
    let (worker, _) = Worker::start();
    assert!(!worker.accepts(&Event::Closed));
    assert!(!worker.accepts(&Event::Write(Ok(()))));
    assert!(!worker.accepts(&commands(Command::Reconnect, vec![])));
    let idle = connected(1, 100);
    assert!(!idle.accepts(&Event::Connect(Err(String::new()))));
    assert!(!idle.accepts(&Event::Write(Ok(()))));
}

#[test]
fn brighter_is_never_a_lower_value() {
    for max in [1u16, 7, 100, 255, 65535] {
        let scale = display(0, max);
        assert_eq!(scale.value_for(0), 0);
        assert_eq!(scale.value_for(100), max);
        for percent in 1..=100u16 {
            assert!(scale.value_for(percent - 1) <= scale.value_for(percent));
        }
        assert_eq!(display(0, max).percent(), 0);
        assert_eq!(display(max, max).percent(), 100);
    }
}

#[test]
fn tray_and_worker_agree_after_every_step() {
    let (mut worker, mut action) = Worker::start();
    let mut shown: Option<u16> = None;
    let mut writes = 0;
    let mut bursts = 0;
    for round in 0..40i32 {
        let event = match action {
            Action::Connect if round % 7 == 0 => Event::Connect(Err("none".to_string())),
            Action::Connect => Event::Connect(Ok(display(round as u16, 120))),
            Action::Receive => {
                bursts += 1;
                let queued = if round % 9 == 0 { vec![Command::Reconnect] } else { vec![] };
                commands(Command::Adjust(round % 5 - 2), queued)
            }
            Action::Write(_) if round % 6 == 0 => Event::Write(Err("lost".to_string())),
            Action::Write(_) => Event::Write(Ok(())),
            Action::Stop => unreachable!(),
        };
        let (updates, next) = step(&mut worker, event);
        for update in updates {
            shown = match update {
                Update::Connected { percent, .. } => Some(percent),
                Update::Brightness { percent } => Some(percent),
                Update::Disconnected { .. } => None,
            };
            assert!(shown.unwrap_or(0) <= 100);
        }
        if let Action::Write(_) = next {
            writes += 1;
        }
        if !matches!(worker.phase(), Phase::Connecting(_)) {
            assert_eq!(shown, worker.connection().map(|c| c.percent()));
        }
        action = next;
    }
    assert!(writes > 0 && writes <= bursts);
}
