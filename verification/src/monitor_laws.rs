//! What the worker's steps add up to.
use vstd::prelude::*;

use crate::monitor::Action;
use crate::monitor::Burst;
use crate::monitor::Command;
use crate::monitor::ConnectionView;
use crate::monitor::EventView;
use crate::monitor::UpdateView;
use crate::monitor::WorkerView;
use crate::monitor::STEP_PERCENT;

verus! {

use crate::monitor::{
    applied,
    base_of,
    clamped,
    coalesced,
    last_preset,
    percent_of,
    stepped,
    target_fits,
    target_of,
    total_notches,
    totals_fit,
    value_of,
};

/// A percentage is never negative and never above 100.
pub proof fn law_percent_in_range(value: int, max: int)
    requires
        0 <= value,
        0 <= max,
    ensures
        0 <= percent_of(value, max) <= 100,
{
    if max > 0 {
        assert((value * 100 + max / 2) / max >= 0) by (nonlinear_arith)
            requires
                value >= 0,
                max > 0,
        ;
    }
}

/// A raw value that stands for a percentage lies on the monitor's scale.
pub proof fn law_value_in_range(percent: int, max: int)
    requires
        0 <= percent,
        0 <= max,
    ensures
        0 <= value_of(percent, max) <= max,
{
    let capped = if percent < 100 {
        percent
    } else {
        100
    };
    assert(0 <= capped * max <= 100 * max) by (nonlinear_arith)
        requires
            0 <= capped <= 100,
            0 <= max,
    ;
}

/// A monitor with at least a hundred levels shows every percentage that it is
/// set to.
pub proof fn law_set_percentage_is_shown(percent: int, max: int)
    requires
        0 <= percent <= 100,
        100 <= max,
    ensures
        percent_of(value_of(percent, max), max) == percent,
{
    let v = value_of(percent, max);
    let product = percent * max;
    assert(v == (product + 50) / 100);
    assert(product - 49 <= 100 * v <= product + 50);
    if max == 100 {
        assert(v == percent);
    }
    let n = v * 100 + max / 2;
    // The rounded value is within half a percent of what was asked for.
    assert(product <= n < product + max);
    assert(n / max == percent) by (nonlinear_arith)
        requires
            max > 0,
            percent * max <= n < percent * max + max,
    ;
}

/// A higher percentage never asks for a lower value, and the ends of the scale
/// are 0 and 100 percent.
pub proof fn law_values_follow_percentages(low: int, high: int, max: int)
    requires
        0 <= low <= high,
        0 <= max,
    ensures
        value_of(low, max) <= value_of(high, max),
        value_of(0, max) == 0,
        value_of(100, max) == max,
{
    let a = if low < 100 {
        low
    } else {
        100
    };
    let b = if high < 100 {
        high
    } else {
        100
    };
    assert(a * max <= b * max) by (nonlinear_arith)
        requires
            a <= b,
            0 <= max,
    ;
}

/// A higher value never shows as a lower percentage, and the ends of the scale
/// show as 0 and 100 percent.
pub proof fn law_percentages_follow_values(low: int, high: int, max: int)
    requires
        0 <= low <= high,
        0 < max,
    ensures
        percent_of(low, max) <= percent_of(high, max),
        percent_of(0, max) == 0,
        percent_of(max, max) == 100,
{
    let a = low * 100 + max / 2;
    let b = high * 100 + max / 2;
    assert(a / max <= b / max) by (nonlinear_arith)
        requires
            a <= b,
            0 < max,
    ;
    assert((max / 2) / max == 0) by (nonlinear_arith)
        requires
            0 < max,
            0 <= max / 2 < max,
    ;
    assert((max * 100 + max / 2) / max >= 100) by (nonlinear_arith)
        requires
            0 < max,
            0 <= max / 2,
    ;
}

/// Scrolling is worth the sum of its notches: two scrolls in a row count like
/// one that goes as far.
pub proof fn law_scrolls_add_up(before: Seq<Command>, a: i32, b: i32, after: Seq<Command>)
    requires
        i32::MIN <= a + b <= i32::MAX,
    ensures
        coalesced(before + seq![Command::Adjust(a), Command::Adjust(b)] + after) == coalesced(
            before + seq![Command::Adjust((a + b) as i32)] + after,
        ),
{
    let two = before + seq![Command::Adjust(a), Command::Adjust(b)] + after;
    let one = before + seq![Command::Adjust((a + b) as i32)] + after;
    lemma_scrolls_add_up(before, a, b, after);
    assert(two.contains(Command::Reconnect) == one.contains(Command::Reconnect)) by {
        if two.contains(Command::Reconnect) {
            let i = choose|i: int| 0 <= i < two.len() && two[i] == Command::Reconnect;
            if i < before.len() {
                assert(one[i] == Command::Reconnect);
            } else {
                assert(one[i - 1] == Command::Reconnect);
            }
        }
        if one.contains(Command::Reconnect) {
            let i = choose|i: int| 0 <= i < one.len() && one[i] == Command::Reconnect;
            if i < before.len() {
                assert(two[i] == Command::Reconnect);
            } else {
                assert(two[i + 1] == Command::Reconnect);
            }
        }
    }
}

proof fn lemma_scrolls_add_up(before: Seq<Command>, a: i32, b: i32, after: Seq<Command>)
    requires
        i32::MIN <= a + b <= i32::MAX,
    ensures
        ({
            let two = before + seq![Command::Adjust(a), Command::Adjust(b)] + after;
            let one = before + seq![Command::Adjust((a + b) as i32)] + after;
            &&& last_preset(two) == last_preset(one)
            &&& total_notches(two) == total_notches(one)
        }),
    decreases after.len(),
{
    let pair = seq![Command::Adjust(a), Command::Adjust(b)];
    let single = seq![Command::Adjust((a + b) as i32)];
    let two = before + pair + after;
    let one = before + single + after;
    if after.len() == 0 {
        let half = before + seq![Command::Adjust(a)];
        assert(two.drop_last() =~= half);
        assert(half.drop_last() =~= before);
        assert(one.drop_last() =~= before);
        assert(two.last() == Command::Adjust(b));
        assert(half.last() == Command::Adjust(a));
        assert(one.last() == Command::Adjust((a + b) as i32));
        assert(total_notches(half) == total_notches(before) + a);
        assert(last_preset(half) == last_preset(before));
    } else {
        lemma_scrolls_add_up(before, a, b, after.drop_last());
        assert(two.drop_last() =~= before + pair + after.drop_last());
        assert(one.drop_last() =~= before + single + after.drop_last());
        assert(two.last() == after.last());
        assert(one.last() == after.last());
    }
}

/// A preset overrides all that was asked for before it.
pub proof fn law_preset_overrides(before: Seq<Command>, percent: u16, after: Seq<Command>)
    ensures
        ({
            let all = coalesced(before + seq![Command::SetPercent(percent)] + after);
            let rest = coalesced(seq![Command::SetPercent(percent)] + after);
            &&& all.absolute == rest.absolute
            &&& all.notches == rest.notches
            &&& all.absolute is Some
        }),
{
    lemma_preset_overrides(before, percent, after);
}

proof fn lemma_preset_overrides(before: Seq<Command>, percent: u16, after: Seq<Command>)
    ensures
        ({
            let all = before + seq![Command::SetPercent(percent)] + after;
            let rest = seq![Command::SetPercent(percent)] + after;
            &&& last_preset(all) == last_preset(rest)
            &&& last_preset(all) is Some
            &&& total_notches(all) == total_notches(rest)
        }),
    decreases after.len(),
{
    let preset = seq![Command::SetPercent(percent)];
    let all = before + preset + after;
    let rest = preset + after;
    if after.len() == 0 {
        assert(all.last() == Command::SetPercent(percent));
        assert(rest.last() == Command::SetPercent(percent));
    } else {
        lemma_preset_overrides(before, percent, after.drop_last());
        assert(all.drop_last() =~= before + preset + after.drop_last());
        assert(rest.drop_last() =~= preset + after.drop_last());
        assert(all.last() == after.last());
        assert(rest.last() == after.last());
    }
}

/// Scrolling moves a monitor with at least a hundred levels by five percent per
/// notch, as far as 0 and 100 allow, and the tray shows it there.
pub proof fn law_scroll_moves_in_steps(connection: ConnectionView, burst: Burst)
    requires
        connection.wf(),
        100 <= connection.max,
        burst.absolute is None,
    ensures
        ({
            let wanted = clamped(connection.percent() + burst.notches * STEP_PERCENT);
            let step = applied(connection, burst);
            &&& step.worker.connection matches Some(moved) && moved.percent() == wanted
            &&& wanted != connection.percent() ==> step.updates =~= seq![
                UpdateView::Brightness { percent: wanted },
            ]
            &&& wanted == connection.percent() ==> step.updates.len() == 0 && step.action
                == Action::Receive
        }),
{
    law_percent_in_range(connection.value, connection.max);
    if let Some(target) = target_of(burst, connection.percent()) {
        law_set_percentage_is_shown(target, connection.max);
    }
}

/// A burst with a preset is always written, at the preset and the notches made
/// since, and on a monitor with at least a hundred levels the tray shows just
/// that percentage.
pub proof fn law_preset_is_written(connection: ConnectionView, burst: Burst, percent: u16)
    requires
        connection.wf(),
        burst.absolute == Some(percent),
    ensures
        ({
            let preset = if percent < 100 {
                percent as int
            } else {
                100
            };
            let wanted = clamped(preset + burst.notches * STEP_PERCENT);
            let step = applied(connection, burst);
            let raw = value_of(wanted, connection.max);
            &&& step.action == Action::Write(raw as u16)
            &&& step.action->Write_0 == raw
            &&& 100 <= connection.max ==> step.updates =~= seq![
                UpdateView::Brightness { percent: wanted },
            ]
        }),
{
    let wanted = clamped(base_of(burst, connection.percent()) + burst.notches * STEP_PERCENT);
    law_value_in_range(wanted, connection.max);
    if 100 <= connection.max {
        law_set_percentage_is_shown(wanted, connection.max);
    }
}

/// Folding costs nothing: a preset and the notches after it, in one burst, leave
/// a monitor with at least a hundred levels where the preset and then the notches
/// would, in two.
pub proof fn law_preset_then_scroll(connection: ConnectionView, percent: u16, notches: i32)
    requires
        connection.wf(),
        100 <= connection.max,
    ensures
        ({
            let together = applied(
                connection,
                Burst { absolute: Some(percent), notches, reconnect: false },
            );
            let first = applied(
                connection,
                Burst { absolute: Some(percent), notches: 0, reconnect: false },
            );
            &&& first.worker.connection matches Some(preset) && {
                let second = applied(
                    preset,
                    Burst { absolute: None, notches, reconnect: false },
                );
                together.worker.connection == second.worker.connection
            }
        }),
{
    let base = if percent < 100 {
        percent as int
    } else {
        100
    };
    law_set_percentage_is_shown(base, connection.max);
}

/// Scrolling past either end writes nothing.
pub proof fn law_no_write_past_the_ends(connection: ConnectionView, burst: Burst)
    requires
        burst.absolute is None,
        connection.percent() == 100 && burst.notches > 0 || connection.percent() == 0
            && burst.notches < 0,
    ensures
        applied(connection, burst).action == Action::Receive,
        applied(connection, burst).updates.len() == 0,
        applied(connection, burst).worker.connection == Some(connection),
{
}

/// Every step leaves the worker in good order.
pub proof fn law_worker_stays_well_formed(worker: WorkerView, event: EventView)
    requires
        worker.wf(),
        worker.accepts(event),
        event matches EventView::Connect(Ok(connection)) ==> connection.wf(),
    ensures
        stepped(worker, event).worker.wf(),
{
    match event {
        EventView::Connect(Ok(connection)) => lemma_applied_wf(
            connection,
            worker.phase->Connecting_0,
        ),
        EventView::Commands(commands) => {
            if let Some(connection) = worker.connection {
                lemma_applied_wf(connection, coalesced(commands));
            }
        },
        _ => {},
    }
}

proof fn lemma_applied_wf(connection: ConnectionView, burst: Burst)
    requires
        connection.wf(),
    ensures
        applied(connection, burst).worker.wf(),
{
    law_percent_in_range(connection.value, connection.max);
    if let Some(target) = target_of(burst, connection.percent()) {
        law_value_in_range(target, connection.max);
    }
}

/// The tray moves before the monitor does: a step that ends in a write shows,
/// as its last update, the percentage of the very value that is written.
pub proof fn law_shown_before_written(worker: WorkerView, event: EventView)
    requires
        worker.wf(),
        worker.accepts(event),
        event matches EventView::Connect(Ok(connection)) ==> connection.wf(),
    ensures
        stepped(worker, event).action matches Action::Write(raw) ==> {
            let step = stepped(worker, event);
            &&& step.updates.len() > 0
            &&& step.worker.connection matches Some(connection) && {
                &&& connection.value == raw
                &&& step.updates.last() == (UpdateView::Brightness {
                    percent: percent_of(raw as int, connection.max),
                })
            }
        },
{
    law_worker_stays_well_formed(worker, event);
}

/// Every percentage that the tray is told lies between 0 and 100.
pub proof fn law_shown_percentages_in_range(worker: WorkerView, event: EventView, i: int)
    requires
        worker.wf(),
        worker.accepts(event),
        event matches EventView::Connect(Ok(connection)) ==> connection.wf(),
        0 <= i < stepped(worker, event).updates.len(),
    ensures
        match stepped(worker, event).updates[i] {
            UpdateView::Connected { percent, .. } => 0 <= percent <= 100,
            UpdateView::Brightness { percent } => 0 <= percent <= 100,
            UpdateView::Disconnected { .. } => true,
        },
{
    law_worker_stays_well_formed(worker, event);
    if let EventView::Connect(Ok(connection)) = event {
        law_percent_in_range(connection.value, connection.max);
    }
    if let Some(connection) = stepped(worker, event).worker.connection {
        law_percent_in_range(connection.value, connection.max);
    }
}

/// After a write that fails the worker has no display, says so, and any command
/// makes it look for one again.
pub proof fn law_lost_display_is_sought_again(
    worker: WorkerView,
    error: Seq<char>,
    commands: Seq<Command>,
)
    requires
        worker.wf(),
        worker.accepts(EventView::Write(Err(error))),
        totals_fit(commands),
    ensures
        ({
            let lost = stepped(worker, EventView::Write(Err(error)));
            &&& lost.updates =~= seq![
                UpdateView::Disconnected { reason: "Lost contact with the display: "@ + error },
            ]
            &&& lost.action == Action::Receive
            &&& lost.worker.accepts(EventView::Commands(commands))
            &&& stepped(lost.worker, EventView::Commands(commands)).action == Action::Connect
        }),
{
}

/// A burst that asks for a new connection gets one, and the rest of the burst is
/// applied to the display that is found.
pub proof fn law_reconnect(worker: WorkerView, commands: Seq<Command>, found: ConnectionView)
    requires
        worker.wf(),
        worker.accepts(EventView::Commands(commands)),
        commands.contains(Command::Reconnect),
        target_fits(coalesced(commands), found.percent()),
    ensures
        ({
            let asked = stepped(worker, EventView::Commands(commands));
            let connected = stepped(asked.worker, EventView::Connect(Ok(found)));
            &&& asked.action == Action::Connect
            &&& asked.updates.len() == 0
            &&& asked.worker.connection is None
            &&& asked.worker.accepts(EventView::Connect(Ok(found)))
            &&& connected.updates =~= seq![
                UpdateView::Connected { name: found.name, percent: found.percent() },
            ] + applied(found, coalesced(commands)).updates
            &&& connected.action == applied(found, coalesced(commands)).action
        }),
{
}

/// A reconnect on its own shows the display that is found and writes nothing.
pub proof fn law_reconnect_alone_writes_nothing(worker: WorkerView, found: ConnectionView)
    requires
        worker.wf(),
        worker.phase is Idle,
        found.wf(),
    ensures
        ({
            let asked = stepped(worker, EventView::Commands(seq![Command::Reconnect]));
            let connected = stepped(asked.worker, EventView::Connect(Ok(found)));
            &&& asked.action == Action::Connect
            &&& connected.updates =~= seq![
                UpdateView::Connected { name: found.name, percent: found.percent() },
            ]
            &&& connected.action == Action::Receive
            &&& connected.worker.connection == Some(found)
        }),
{
    let commands = seq![Command::Reconnect];
    assert(commands.drop_last() =~= Seq::<Command>::empty());
    assert(commands[0] == Command::Reconnect);
    assert(last_preset(Seq::<Command>::empty()) is None);
    assert(total_notches(Seq::<Command>::empty()) == 0);
    law_percent_in_range(found.value, found.max);
}

/// What the tray shows: a percentage, or that there is no display.
pub open spec fn showing(before: Option<int>, updates: Seq<UpdateView>) -> Option<int>
    decreases updates.len(),
{
    if updates.len() == 0 {
        before
    } else {
        match updates.last() {
            UpdateView::Connected { percent, .. } => Some(percent),
            UpdateView::Brightness { percent } => Some(percent),
            UpdateView::Disconnected { .. } => None,
        }
    }
}

/// Whether the tray shows what the worker knows: the percentage of its display,
/// or that there is none. While the worker looks for a display it may lag.
pub open spec fn in_sync(worker: WorkerView, shown: Option<int>) -> bool {
    worker.phase is Connecting || shown == (match worker.connection {
        Some(connection) => Some(connection.percent()),
        None => None::<int>,
    })
}

/// The tray follows the worker through every step.
pub proof fn law_tray_stays_in_sync(worker: WorkerView, event: EventView, shown: Option<int>)
    requires
        worker.wf(),
        worker.accepts(event),
        in_sync(worker, shown),
    ensures
        in_sync(
            stepped(worker, event).worker,
            showing(shown, stepped(worker, event).updates),
        ),
{
}

/// The steps of the worker over a whole run: the actions that it asks for.
pub open spec fn actions(worker: WorkerView, events: Seq<EventView>) -> Seq<Action>
    decreases events.len(),
{
    if events.len() == 0 {
        Seq::empty()
    } else {
        let step = stepped(worker, events[0]);
        seq![step.action] + actions(step.worker, events.skip(1))
    }
}

/// Whether every event of a run is one that the worker takes.
pub open spec fn accepted(worker: WorkerView, events: Seq<EventView>) -> bool
    decreases events.len(),
{
    events.len() == 0 || {
        &&& worker.accepts(events[0])
        &&& accepted(stepped(worker, events[0]).worker, events.skip(1))
    }
}

/// How many writes are among the actions.
pub open spec fn writes(actions: Seq<Action>) -> int
    decreases actions.len(),
{
    if actions.len() == 0 {
        0
    } else {
        (if actions[0] is Write {
            1int
        } else {
            0int
        }) + writes(actions.skip(1))
    }
}

/// How many bursts of commands are among the events.
pub open spec fn bursts(events: Seq<EventView>) -> int
    decreases events.len(),
{
    if events.len() == 0 {
        0
    } else {
        (if events[0] is Commands {
            1int
        } else {
            0int
        }) + bursts(events.skip(1))
    }
}

/// Whether the worker still owes the display a burst.
spec fn owed(worker: WorkerView) -> int {
    if worker.phase is Connecting {
        1
    } else {
        0
    }
}

/// From any state on there is at most one write more than there are bursts, and
/// only for the burst that is owed.
proof fn lemma_writes_bounded(worker: WorkerView, events: Seq<EventView>)
    requires
        accepted(worker, events),
    ensures
        writes(actions(worker, events)) <= bursts(events) + owed(worker),
    decreases events.len(),
{
    if events.len() > 0 {
        let step = stepped(worker, events[0]);
        lemma_writes_bounded(step.worker, events.skip(1));
        let all = actions(worker, events);
        assert(all.skip(1) =~= actions(step.worker, events.skip(1)));
        assert(all[0] == step.action);
    }
}

/// However many commands a burst holds, it costs at most one write: over a whole
/// run there are no more writes than bursts.
pub proof fn law_one_write_per_burst(events: Seq<EventView>)
    requires
        accepted(WorkerView::start(), events),
    ensures
        writes(actions(WorkerView::start(), events)) <= bursts(events),
{
    if events.len() > 0 {
        let start = WorkerView::start();
        let step = stepped(start, events[0]);
        assert(!(step.action is Write)) by {
            if let EventView::Connect(Ok(connection)) = events[0] {
                assert(target_of(start.phase->Connecting_0, connection.percent()) is None);
            }
        }
        lemma_writes_bounded(step.worker, events.skip(1));
        let all = actions(start, events);
        assert(all.skip(1) =~= actions(step.worker, events.skip(1)));
        assert(all[0] == step.action);
    }
}

} // verus!
