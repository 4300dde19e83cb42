//! What the worker does with commands and replies, in plain numbers.
use vstd::prelude::*;

use crate::monitor::Action;
use crate::monitor::Burst;
use crate::monitor::Command;
use crate::monitor::Connection;
use crate::monitor::ConnectionView;
use crate::monitor::Event;
use crate::monitor::EventView;
use crate::monitor::Phase;
use crate::monitor::Update;
use crate::monitor::UpdateView;
use crate::monitor::WorkerView;

verus! {

use crate::monitor::{
    coalesced,
    percent_of,
    stepped,
    target_of,
    totals_fit,
    update_views,
    value_of,
};
use crate::monitor_laws::{law_percent_in_range, law_set_percentage_is_shown, law_value_in_range};

/// The percentage shown for a value is the nearest one, up from the middle; a
/// value beyond the maximum shows as 100, and without a scale it is 0.
pub proof fn law_percent_is_nearest(value: int, max: int)
    requires
        0 <= value,
        0 <= max,
    ensures
        max == 0 ==> percent_of(value, max) == 0,
        value <= max && 0 < max ==> (2 * percent_of(value, max) - 1) * max <= 200 * value < (2
            * percent_of(value, max) + 1) * max,
        0 < max < value ==> percent_of(value, max) == 100,
{
    if 0 < max {
        let half = max / 2;
        let n = value * 100 + half;
        let q = n / max;
        assert(q * max <= n < q * max + max) by (nonlinear_arith)
            requires
                max > 0,
                q == n / max,
        ;
        if value <= max {
            if q > 100 {
                assert(q * max >= 101 * max) by (nonlinear_arith)
                    requires
                        q >= 101,
                        max > 0,
                ;
            }
            assert((2 * q - 1) * max == 2 * (q * max) - max) by (nonlinear_arith);
            assert((2 * q + 1) * max == 2 * (q * max) + max) by (nonlinear_arith);
        } else if q < 100 {
            assert(q * max + max <= 100 * max) by (nonlinear_arith)
                requires
                    q <= 99,
                    max > 0,
            ;
        }
    }
}

/// The value written for a percentage is the nearest one, up from the middle;
/// from 100 on it is the maximum.
pub proof fn law_value_is_nearest(percent: int, max: int)
    requires
        0 <= percent,
        0 <= max,
    ensures
        percent <= 100 ==> percent * max - 50 < 100 * value_of(percent, max) <= percent * max + 50,
        percent >= 100 ==> value_of(percent, max) == max,
{
}

/// Before any command a burst asks for nothing.
pub proof fn law_empty_burst()
    ensures
        totals_fit(Seq::<Command>::empty()),
        coalesced(Seq::<Command>::empty()) == (Burst {
            absolute: None,
            notches: 0,
            reconnect: false,
        }),
{
}

/// What one more command adds to a burst: notches add up, a preset starts the
/// count anew, and a reconnect changes neither. A burst is too long only where
/// the notches do not add up within 32 bits.
pub proof fn law_burst_grows(commands: Seq<Command>, command: Command)
    ensures
        totals_fit(commands.push(command)) ==> totals_fit(commands),
        totals_fit(commands) ==> {
            let before = coalesced(commands);
            let after = coalesced(commands.push(command));
            match command {
                Command::Adjust(n) => {
                    &&& totals_fit(commands.push(command)) <==> -0x8000_0000 <= before.notches + n
                        <= 0x7FFF_FFFF
                    &&& totals_fit(commands.push(command)) ==> after.notches == before.notches + n
                    &&& after.absolute == before.absolute
                    &&& after.reconnect == before.reconnect
                },
                Command::SetPercent(p) => {
                    &&& totals_fit(commands.push(command))
                    &&& after.notches == 0
                    &&& after.absolute == Some(p)
                    &&& after.reconnect == before.reconnect
                },
                Command::Reconnect => {
                    &&& totals_fit(commands.push(command))
                    &&& after.notches == before.notches
                    &&& after.absolute == before.absolute
                    &&& after.reconnect
                },
            }
        },
{
    let all = commands.push(command);
    assert(all.drop_last() =~= commands);
    assert(all.last() == command);
    assert(all[commands.len() as int] == command);
    if commands.contains(Command::Reconnect) {
        let i = choose|i: int| 0 <= i < commands.len() && commands[i] == Command::Reconnect;
        assert(all[i] == Command::Reconnect);
    }
    if all.contains(Command::Reconnect) && command != Command::Reconnect {
        let i = choose|i: int| 0 <= i < all.len() && all[i] == Command::Reconnect;
        assert(commands[i] == Command::Reconnect);
    }
}

/// The last preset of a burst is the one that counts, exactly as it was given.
pub proof fn law_last_preset_counts(commands: Seq<Command>, i: int, percent: u16)
    requires
        0 <= i < commands.len(),
        commands[i] == Command::SetPercent(percent),
        forall|j: int| i < j < commands.len() ==> !(#[trigger] commands[j] is SetPercent),
    ensures
        coalesced(commands).absolute == Some(percent),
    decreases commands.len(),
{
    let before = commands.drop_last();
    if i < before.len() {
        assert(before[i] == commands[i]);
        assert(forall|j: int| i < j < before.len() ==> before[j] == commands[j]);
        assert(!(commands[commands.len() - 1] is SetPercent));
        law_last_preset_counts(before, i, percent);
    }
}

/// Without a preset a burst has none.
pub proof fn law_no_preset_no_jump(commands: Seq<Command>)
    requires
        forall|j: int| 0 <= j < commands.len() ==> !(#[trigger] commands[j] is SetPercent),
    ensures
        coalesced(commands).absolute is None,
    decreases commands.len(),
{
    if commands.len() > 0 {
        let before = commands.drop_last();
        assert(forall|j: int| 0 <= j < before.len() ==> before[j] == commands[j]);
        assert(!(commands[commands.len() - 1] is SetPercent));
        law_no_preset_no_jump(before);
    }
}

/// A reconnect is noticed wherever it stands, and none is made up.
pub proof fn law_reconnect_is_noticed(commands: Seq<Command>)
    ensures
        coalesced(commands).reconnect <==> exists|i: int|
            0 <= i < commands.len() && #[trigger] commands[i] == Command::Reconnect,
{
}

/// A burst on a connected display, from the display's percentage or the last
/// preset and with five percent per notch since, ends within 0 and 100: the
/// nearest value is written after its percentage was shown. A scroll that
/// changes nothing shows and writes nothing.
pub proof fn law_burst_moves_the_display(
    worker: WorkerView,
    connection: ConnectionView,
    commands: Seq<Command>,
)
    requires
        worker.wf(),
        worker.connection == Some(connection),
        worker.accepts(EventView::Commands(commands)),
        forall|i: int| 0 <= i < commands.len() ==> #[trigger] commands[i] != Command::Reconnect,
    ensures
        ({
            let burst = coalesced(commands);
            let base = match burst.absolute {
                Some(p) => if p < 100 {
                    p as int
                } else {
                    100
                },
                None => percent_of(connection.value, connection.max),
            };
            let moved = base + 5 * burst.notches;
            let wanted = if moved < 0 {
                0
            } else if moved > 100 {
                100
            } else {
                moved
            };
            let step = stepped(worker, EventView::Commands(commands));
            if burst.absolute is None && wanted == base {
                &&& step.updates.len() == 0
                &&& step.action == Action::Receive
                &&& step.worker.connection == Some(connection)
                &&& step.worker.phase == Phase::Idle
            } else {
                &&& step.action matches Action::Write(raw) && {
                    &&& wanted * connection.max - 50 < 100 * raw <= wanted * connection.max + 50
                    &&& step.updates.len() == 1
                    &&& step.updates[0] == (UpdateView::Brightness {
                        percent: percent_of(raw as int, connection.max),
                    })
                    &&& step.worker.connection == Some(
                        (ConnectionView {
                            name: connection.name,
                            value: raw as int,
                            max: connection.max,
                        }),
                    )
                }
                &&& 100 <= connection.max ==> step.updates[0] == (UpdateView::Brightness {
                    percent: wanted,
                })
                &&& step.worker.phase == Phase::Writing
            }
        }),
{
    let burst = coalesced(commands);
    law_percent_in_range(connection.value, connection.max);
    if let Some(target) = target_of(burst, connection.percent()) {
        law_value_is_nearest(target, connection.max);
        law_value_in_range(target, connection.max);
        if 100 <= connection.max {
            law_set_percentage_is_shown(target, connection.max);
        }
    }
}

/// A click on a preset takes a display with at least a hundred levels to just
/// that percentage.
pub proof fn law_preset_click(worker: WorkerView, connection: ConnectionView, percent: u16)
    requires
        worker.wf(),
        worker.phase is Idle,
        worker.connection == Some(connection),
        100 <= connection.max,
        percent <= 100,
    ensures
        ({
            let event = EventView::Commands(seq![Command::SetPercent(percent)]);
            let step = stepped(worker, event);
            &&& worker.accepts(event)
            &&& step.updates =~= seq![UpdateView::Brightness { percent: percent as int }]
            &&& step.action matches Action::Write(raw) && percent * connection.max - 50 < 100 * raw
                <= percent * connection.max + 50
        }),
{
    let commands = seq![Command::SetPercent(percent)];
    assert(commands =~= Seq::<Command>::empty().push(Command::SetPercent(percent)));
    law_empty_burst();
    law_burst_grows(Seq::empty(), Command::SetPercent(percent));
    law_burst_moves_the_display(worker, connection, commands);
}

/// A turn of the wheel moves a display with at least a hundred levels by five
/// percent per notch, to 0 or 100 at most.
pub proof fn law_scroll_turn(worker: WorkerView, connection: ConnectionView, notches: i32)
    requires
        worker.wf(),
        worker.phase is Idle,
        worker.connection == Some(connection),
        100 <= connection.max,
        -0x8000_0000 <= 5 * notches <= 0x7FFF_FFFF - 100,
    ensures
        ({
            let event = EventView::Commands(seq![Command::Adjust(notches)]);
            let step = stepped(worker, event);
            let before = percent_of(connection.value, connection.max);
            let moved = before + 5 * notches;
            let wanted = if moved < 0 {
                0
            } else if moved > 100 {
                100
            } else {
                moved
            };
            &&& worker.accepts(event)
            &&& wanted == before ==> step.updates.len() == 0 && step.action == Action::Receive
            &&& wanted != before ==> {
                &&& step.updates =~= seq![UpdateView::Brightness { percent: wanted }]
                &&& step.action matches Action::Write(raw) && wanted * connection.max - 50 < 100
                    * raw <= wanted * connection.max + 50
            }
        }),
{
    let commands = seq![Command::Adjust(notches)];
    assert(commands =~= Seq::<Command>::empty().push(Command::Adjust(notches)));
    law_empty_burst();
    law_burst_grows(Seq::empty(), Command::Adjust(notches));
    law_percent_in_range(connection.value, connection.max);
    law_burst_moves_the_display(worker, connection, commands);
}

/// Commands that find no display, or ask for a new one, first look for it, and
/// keep all that they come to for the display that is found.
pub proof fn law_display_is_sought_first(worker: WorkerView, commands: Seq<Command>)
    requires
        worker.connection is None || exists|i: int|
            0 <= i < commands.len() && #[trigger] commands[i] == Command::Reconnect,
    ensures
        ({
            let step = stepped(worker, EventView::Commands(commands));
            &&& step.updates.len() == 0
            &&& step.action == Action::Connect
            &&& step.worker.connection is None
            &&& step.worker.phase == Phase::Connecting(coalesced(commands))
        }),
{
}

/// A display that is found is shown by its name and percentage before anything
/// else, and then takes the burst that waited for it as a connected display
/// would. Without a burst nothing more is shown and nothing is written.
pub proof fn law_found_display_takes_the_burst(
    worker: WorkerView,
    burst: Burst,
    found: ConnectionView,
)
    requires
        found.wf(),
        worker.phase == Phase::Connecting(burst),
    ensures
        ({
            let step = stepped(worker, EventView::Connect(Ok(found)));
            let base = match burst.absolute {
                Some(p) => if p < 100 {
                    p as int
                } else {
                    100
                },
                None => percent_of(found.value, found.max),
            };
            let moved = base + 5 * burst.notches;
            let wanted = if moved < 0 {
                0
            } else if moved > 100 {
                100
            } else {
                moved
            };
            &&& step.updates.len() > 0
            &&& step.updates[0] == (UpdateView::Connected {
                name: found.name,
                percent: percent_of(found.value, found.max),
            })
            &&& if burst.absolute is None && wanted == base {
                &&& step.updates.len() == 1
                &&& step.action == Action::Receive
                &&& step.worker.connection == Some(found)
                &&& step.worker.phase == Phase::Idle
            } else {
                &&& step.updates.len() == 2
                &&& step.action matches Action::Write(raw) && {
                    &&& wanted * found.max - 50 < 100 * raw <= wanted * found.max + 50
                    &&& step.updates[1] == (UpdateView::Brightness {
                        percent: percent_of(raw as int, found.max),
                    })
                    &&& step.worker.connection == Some(
                        (ConnectionView { name: found.name, value: raw as int, max: found.max }),
                    )
                }
                &&& step.worker.phase == Phase::Writing
            }
        }),
{
    law_percent_in_range(found.value, found.max);
    if let Some(target) = target_of(burst, found.percent()) {
        law_value_is_nearest(target, found.max);
        law_value_in_range(target, found.max);
    }
}

/// Where no display is found the reason is shown as it is, and the worker waits
/// for commands.
pub proof fn law_no_display_gives_the_reason(worker: WorkerView, reason: Seq<char>)
    ensures
        ({
            let step = stepped(worker, EventView::Connect(Err(reason)));
            &&& step.updates =~= seq![UpdateView::Disconnected { reason }]
            &&& step.action == Action::Receive
            &&& step.worker.connection is None
            &&& step.worker.phase == Phase::Idle
        }),
{
}

/// A write that fails drops the display, and what is shown ends in its error.
pub proof fn law_failed_write_gives_the_error(worker: WorkerView, error: Seq<char>)
    ensures
        ({
            let step = stepped(worker, EventView::Write(Err(error)));
            &&& step.updates =~= seq![
                UpdateView::Disconnected { reason: "Lost contact with the display: "@ + error },
            ]
            &&& step.action == Action::Receive
            &&& step.worker.connection is None
            &&& step.worker.phase == Phase::Idle
        }),
{
}

/// A write that goes through shows nothing more and leaves the display as it is.
pub proof fn law_write_goes_through(worker: WorkerView)
    ensures
        ({
            let step = stepped(worker, EventView::Write(Ok(())));
            &&& step.updates.len() == 0
            &&& step.action == Action::Receive
            &&& step.worker.connection == worker.connection
            &&& step.worker.phase == Phase::Idle
        }),
{
}

/// The worker stops when no more commands come, and at no other event. It shows
/// nothing then and keeps the display as it is.
pub proof fn law_stops_when_closed(worker: WorkerView, event: EventView)
    ensures
        stepped(worker, event).action == Action::Stop <==> event is Closed,
        stepped(worker, event).worker.phase == Phase::Stopped <==> event is Closed,
        event is Closed ==> stepped(worker, event).updates.len() == 0,
        event is Closed ==> stepped(worker, event).worker.connection == worker.connection,
{
}

/// The worker starts by looking for a display, with nothing to apply to it.
pub proof fn law_start()
    ensures
        WorkerView::start().connection is None,
        WorkerView::start().phase == Phase::Connecting(
            (Burst { absolute: None, notches: 0, reconnect: false }),
        ),
{
}

/// Whether five percent for each notch of a burst, added to its preset or else to
/// the present percentage, stay within 32 bits.
pub open spec fn within_32_bits(burst: Burst, percent: int) -> bool {
    let base = match burst.absolute {
        Some(p) => if p < 100 {
            p as int
        } else {
            100
        },
        None => percent,
    };
    &&& -0x8000_0000 <= 5 * burst.notches <= 0x7FFF_FFFF
    &&& -0x8000_0000 <= base + 5 * burst.notches <= 0x7FFF_FFFF
}

/// The worker takes every event that its phase waits for, and refuses commands
/// only where their numbers leave 32 bits.
pub proof fn law_what_is_accepted(worker: WorkerView, event: EventView)
    ensures
        worker.accepts(event) <==> match event {
            EventView::Connect(Ok(found)) => worker.phase matches Phase::Connecting(burst)
                && within_32_bits(burst, percent_of(found.value, found.max)),
            EventView::Connect(Err(_)) => worker.phase is Connecting,
            EventView::Commands(commands) => {
                &&& worker.phase == Phase::Idle
                &&& totals_fit(commands)
                &&& match worker.connection {
                    Some(connection) => coalesced(commands).reconnect || within_32_bits(
                        coalesced(commands),
                        percent_of(connection.value, connection.max),
                    ),
                    None => true,
                }
            },
            EventView::Closed => worker.phase == Phase::Idle,
            EventView::Write(_) => worker.phase == Phase::Writing,
        },
{
}

/// The worker is in good order exactly if it holds no display while it connects,
/// holds one while it writes, and the display's numbers have 16 bits.
pub proof fn law_what_is_well_formed(worker: WorkerView)
    ensures
        worker.wf() <==> {
            &&& worker.phase is Connecting ==> worker.connection is None
            &&& worker.phase is Writing ==> worker.connection is Some
            &&& worker.connection matches Some(c) ==> 0 <= c.value <= 65535 && 0 <= c.max <= 65535
        },
{
}

/// What is said of updates is said of the names, percentages and reasons in them.
pub proof fn law_updates_are_seen_as_they_are(
    text: String,
    percent: u16,
    updates: Seq<Update>,
    i: int,
)
    ensures
        (Update::Connected { name: text, percent })@ == (UpdateView::Connected {
            name: text@,
            percent: percent as int,
        }),
        (Update::Brightness { percent })@ == (UpdateView::Brightness { percent: percent as int }),
        (Update::Disconnected { reason: text })@ == (UpdateView::Disconnected { reason: text@ }),
        update_views(updates).len() == updates.len(),
        0 <= i < updates.len() ==> update_views(updates)[i] == updates[i]@,
{
}

/// What is said of events and displays is said of the values in them.
pub proof fn law_events_are_seen_as_they_are(
    connection: Connection,
    text: String,
    first: Command,
    queued: Vec<Command>,
)
    ensures
        connection@ == (ConnectionView {
            name: connection.name@,
            value: connection.value as int,
            max: connection.max as int,
        }),
        Event::Connect(Ok(connection))@ == EventView::Connect(Ok(connection@)),
        Event::Connect(Err(text))@ == EventView::Connect(Err(text@)),
        (Event::Commands { first, queued })@ == EventView::Commands(seq![first] + queued@),
        Event::Closed@ == EventView::Closed,
        Event::Write(Ok(()))@ == EventView::Write(Ok(())),
        Event::Write(Err(text))@ == EventView::Write(Err(text@)),
{
}

} // verus!
