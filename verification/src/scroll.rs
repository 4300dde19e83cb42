//! Wheel-over-tray-icon input.
//!
//! The wheel is read by a hook that sees every mouse event of the system; it
//! keeps the wheel events whose cursor position falls inside the tray icon. The
//! icon's screen rectangle comes from the tray's own hover events, so it stays
//! correct across DPI changes and taskbar moves.
use vstd::prelude::*;

use crate::monitor::Command;

verus! {

/// One wheel notch, as reported by Windows.
pub const WHEEL_DELTA: i32 = 120;

/// The hook code of Windows for an event to process.
pub const HC_ACTION: i32 = 0;

/// The message of Windows for a turn of the wheel.
pub const WM_MOUSEWHEEL: u32 = 0x020A;

/// The icon rect in physical screen pixels.
#[derive(Debug, Clone, Copy, PartialEq, Eq)]
pub struct Rect {
    pub left: i32,
    pub top: i32,
    pub right: i32,
    pub bottom: i32,
}

impl Rect {
    /// Whether the pixel lies inside; the right and bottom edges do not.
    pub open spec fn holds(self, x: int, y: int) -> bool {
        self.left <= x < self.right && self.top <= y < self.bottom
    }
}

/// An event of the tray icon.
#[derive(Debug, Clone, Copy, PartialEq, Eq)]
pub enum TrayEvent {
    /// The cursor came in or moved; the icon has this position and size.
    Hover { left: i32, top: i32, width: i32, height: i32 },
    /// The cursor left.
    Leave,
    /// Anything else.
    Other,
}

impl TrayEvent {
    /// The edges of the icon are 32-bit coordinates.
    pub open spec fn fits(self) -> bool {
        self matches TrayEvent::Hover { left, top, width, height } ==> {
            &&& i32::MIN <= left + width <= i32::MAX
            &&& i32::MIN <= top + height <= i32::MAX
        }
    }

    /// Decides whether the edges of the icon are 32-bit coordinates.
    pub fn edges_fit(&self) -> (r: bool)
        ensures
            r == self.fits(),
    {
        match self {
            TrayEvent::Hover { left, top, width, height } => left.checked_add(*width).is_some()
                && top.checked_add(*height).is_some(),
            _ => true,
        }
    }
}

/// What is known of the icon and the wheel.
pub struct TrackerView {
    /// Whether the cursor is inside the icon, per the tray's own events.
    pub hovering: bool,
    /// Where the icon was last seen.
    pub rect: Option<Rect>,
    /// Wheel delta that has not made up a notch yet.
    pub remainder: int,
}

impl TrackerView {
    /// Nothing is known yet.
    pub open spec fn start() -> TrackerView {
        TrackerView { hovering: false, rect: None, remainder: 0 }
    }

    /// The remainder is less than one notch, either way.
    pub open spec fn wf(self) -> bool {
        -WHEEL_DELTA < self.remainder < WHEEL_DELTA
    }
}

/// What a tray event changes. A partial notch belongs to the hover it was made
/// in, not to the next one.
pub open spec fn followed(tracker: TrackerView, event: TrayEvent) -> TrackerView {
    match event {
        TrayEvent::Hover { left, top, width, height } => TrackerView {
            hovering: true,
            rect: Some(
                Rect {
                    left,
                    top,
                    right: (left + width) as i32,
                    bottom: (top + height) as i32,
                },
            ),
            ..tracker
        },
        TrayEvent::Leave => TrackerView { hovering: false, remainder: 0, ..tracker },
        TrayEvent::Other => tracker,
    }
}

/// Whether the cursor is over the icon: the tray says so, and the cursor is
/// where the icon was last seen.
pub open spec fn over_icon(hovering: bool, rect: Option<Rect>, x: int, y: int) -> bool {
    hovering && (rect matches Some(r) && r.holds(x, y))
}

/// The wheel delta of a mouse event: the signed high word of its data.
pub open spec fn delta_of(mouse_data: u32) -> int {
    let high = mouse_data as int / 0x1_0000;
    if high < 0x8000 {
        high
    } else {
        high - 0x1_0000
    }
}

/// The whole notches in a delta, rounded towards zero.
pub open spec fn notches_in(delta: int) -> int {
    if delta >= 0 {
        delta / (WHEEL_DELTA as int)
    } else {
        -((-delta) / (WHEEL_DELTA as int))
    }
}

/// The remainder and the notches after the wheel has turned by `delta`.
pub open spec fn turned(remainder: int, delta: int) -> (int, int) {
    let total = remainder + delta;
    let notches = notches_in(total);
    (total - notches * WHEEL_DELTA, notches)
}

/// What becomes of a mouse event.
#[derive(Debug, Clone, Copy, PartialEq, Eq)]
pub enum HookOutcome {
    /// It is passed on.
    Pass,
    /// It is consumed, so that the taskbar does not also act on it, and may ask
    /// for a change.
    Swallow(Option<Command>),
}

/// What the hook does with a mouse event: a turn of the wheel over the icon is
/// consumed and asks for the whole notches that it completes; anything else is
/// passed on and changes nothing.
pub open spec fn hooked(
    tracker: TrackerView,
    code: i32,
    message: u32,
    x: i32,
    y: i32,
    mouse_data: u32,
) -> (TrackerView, HookOutcome) {
    if code == HC_ACTION && message == WM_MOUSEWHEEL && over_icon(
        tracker.hovering,
        tracker.rect,
        x as int,
        y as int,
    ) {
        let (remainder, notches) = turned(tracker.remainder, delta_of(mouse_data));
        let command = if notches != 0 {
            Some(Command::Adjust(notches as i32))
        } else {
            None
        };
        (TrackerView { remainder, ..tracker }, HookOutcome::Swallow(command))
    } else {
        (tracker, HookOutcome::Pass)
    }
}

/// What is known of the icon and the wheel.
#[derive(Debug)]
pub struct Tracker {
    hovering: bool,
    rect: Option<Rect>,
    remainder: i32,
}

impl View for Tracker {
    type V = TrackerView;

    closed spec fn view(&self) -> TrackerView {
        TrackerView {
            hovering: self.hovering,
            rect: self.rect,
            remainder: self.remainder as int,
        }
    }
}

impl Tracker {
    /// A tracker that has seen nothing yet.
    pub fn new() -> (r: Tracker)
        ensures
            r@ == TrackerView::start(),
            r@.wf(),
    {
        Tracker { hovering: false, rect: None, remainder: 0 }
    }
}

/// Feeds tray hover events in so the hook knows where the icon is.
pub fn track_tray_event(tracker: &mut Tracker, event: TrayEvent)
    requires
        old(tracker)@.wf(),
        event.fits(),
    ensures
        final(tracker)@ == followed(old(tracker)@, event),
        final(tracker)@.wf(),
{
    match event {
        TrayEvent::Hover { left, top, width, height } => {
            tracker.rect = Some(Rect { left, top, right: left + width, bottom: top + height });
            tracker.hovering = true;
        },
        TrayEvent::Leave => {
            tracker.hovering = false;
            tracker.remainder = 0;
        },
        TrayEvent::Other => {},
    }
}

/// True when the cursor is over the icon.
///
/// The hover flag alone would be enough in the common case, but a missed
/// `Leave` would leave the hook eating wheel events everywhere, so the rect is
/// checked as well.
pub fn over_tray_icon(hovering: bool, rect: Option<Rect>, x: i32, y: i32) -> (r: bool)
    ensures
        r == over_icon(hovering, rect, x as int, y as int),
{
    if !hovering {
        return false;
    }
    match rect {
        Some(Rect { left, top, right, bottom }) => x >= left && x < right && y >= top && y
            < bottom,
        None => false,
    }
}

/// The wheel delta of a mouse event.
pub fn wheel_delta(mouse_data: u32) -> (r: i32)
    ensures
        r == delta_of(mouse_data),
        -0x8000 <= r < 0x8000,
{
    let high: i32 = (mouse_data / 0x1_0000) as i32;
    if high < 0x8000 {
        high
    } else {
        high - 0x1_0000
    }
}

/// Decides what becomes of a mouse event.
pub fn wheel_hook(
    tracker: &mut Tracker,
    code: i32,
    message: u32,
    x: i32,
    y: i32,
    mouse_data: u32,
) -> (outcome: HookOutcome)
    requires
        old(tracker)@.wf(),
    ensures
        (final(tracker)@, outcome) == hooked(old(tracker)@, code, message, x, y, mouse_data),
        final(tracker)@.wf(),
{
    if code == HC_ACTION && message == WM_MOUSEWHEEL && over_tray_icon(
        tracker.hovering,
        tracker.rect,
        x,
        y,
    ) {
        let total: i32 = tracker.remainder + wheel_delta(mouse_data);
        let notches: i32 = if total >= 0 {
            total / WHEEL_DELTA
        } else {
            -((-total) / WHEEL_DELTA)
        };
        tracker.remainder = total - notches * WHEEL_DELTA;
        if notches != 0 {
            HookOutcome::Swallow(Some(Command::Adjust(notches)))
        } else {
            HookOutcome::Swallow(None)
        }
    } else {
        HookOutcome::Pass
    }
}

/// No part of a turn is lost or counted twice: what was left over and the new
/// delta are the notches and what is left over now, which is less than a notch
/// and on the side that the wheel has turned to.
pub proof fn law_no_delta_is_lost(remainder: int, delta: int)
    ensures
        ({
            let (left, notches) = turned(remainder, delta);
            &&& remainder + delta == notches * WHEEL_DELTA + left
            &&& -WHEEL_DELTA < left < WHEEL_DELTA
            &&& remainder + delta >= 0 ==> left >= 0 && notches >= 0
            &&& remainder + delta <= 0 ==> left <= 0 && notches <= 0
        }),
{
}

/// The sum of some numbers.
pub open spec fn sum(numbers: Seq<int>) -> int
    decreases numbers.len(),
{
    if numbers.len() == 0 {
        0
    } else {
        sum(numbers.drop_last()) + numbers.last()
    }
}

/// The remainder and the notches in all after the wheel has turned by each of
/// the deltas, from a remainder of zero.
pub open spec fn turned_by_all(deltas: Seq<int>) -> (int, int)
    decreases deltas.len(),
{
    if deltas.len() == 0 {
        (0, 0)
    } else {
        let (remainder, notches) = turned_by_all(deltas.drop_last());
        let (left, more) = turned(remainder, deltas.last());
        (left, notches + more)
    }
}

/// However finely the wheel reports its turn, over a hover it comes to whole
/// notches: all that was reported is the notches and less than one more.
pub proof fn law_deltas_accumulate(deltas: Seq<int>)
    ensures
        ({
            let (left, notches) = turned_by_all(deltas);
            &&& sum(deltas) == notches * WHEEL_DELTA + left
            &&& -WHEEL_DELTA < left < WHEEL_DELTA
        }),
    decreases deltas.len(),
{
    if deltas.len() > 0 {
        law_deltas_accumulate(deltas.drop_last());
        law_no_delta_is_lost(turned_by_all(deltas.drop_last()).0, deltas.last());
    }
}

/// A turn in one direction comes to the same notches in however many parts it is
/// reported.
pub proof fn law_resolution_does_not_matter(deltas: Seq<int>)
    requires
        (forall|i: int| 0 <= i < deltas.len() ==> deltas[i] >= 0) || (forall|i: int|
            0 <= i < deltas.len() ==> deltas[i] <= 0),
    ensures
        turned_by_all(deltas).1 == notches_in(sum(deltas)),
{
    law_deltas_accumulate(deltas);
    lemma_one_direction(deltas);
}

proof fn lemma_one_direction(deltas: Seq<int>)
    ensures
        (forall|i: int| 0 <= i < deltas.len() ==> deltas[i] >= 0) ==> sum(deltas) >= 0
            && turned_by_all(deltas).0 >= 0,
        (forall|i: int| 0 <= i < deltas.len() ==> deltas[i] <= 0) ==> sum(deltas) <= 0
            && turned_by_all(deltas).0 <= 0,
    decreases deltas.len(),
{
    if deltas.len() > 0 {
        let before = deltas.drop_last();
        lemma_one_direction(before);
        law_no_delta_is_lost(turned_by_all(before).0, deltas.last());
        assert(forall|i: int| 0 <= i < before.len() ==> before[i] == deltas[i]);
        assert(deltas.last() == deltas[deltas.len() - 1]);
    }
}

/// After the cursor has left, the hook passes everything on until the icon is
/// entered again, and the next hover starts without a partial notch.
pub proof fn law_leave_ends_the_hover(
    tracker: TrackerView,
    code: i32,
    message: u32,
    x: i32,
    y: i32,
    mouse_data: u32,
)
    ensures
        hooked(followed(tracker, TrayEvent::Leave), code, message, x, y, mouse_data) == (
            followed(tracker, TrayEvent::Leave),
            HookOutcome::Pass,
        ),
        followed(tracker, TrayEvent::Leave).remainder == 0,
{
}

/// Outside the rectangle the hook consumes nothing, even where the tray has
/// missed that the cursor left.
pub proof fn law_outside_is_passed_on(
    tracker: TrackerView,
    rect: Rect,
    code: i32,
    message: u32,
    x: i32,
    y: i32,
    mouse_data: u32,
)
    requires
        tracker.rect == Some(rect),
        !rect.holds(x as int, y as int),
    ensures
        hooked(tracker, code, message, x, y, mouse_data) == (tracker, HookOutcome::Pass),
{
}

} // verus!
