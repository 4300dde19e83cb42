//! What the hook does with the wheel, in screen pixels and wheel deltas.
use vstd::prelude::*;

use crate::monitor::Command;
use crate::scroll::HookOutcome;
use crate::scroll::Rect;
use crate::scroll::TrackerView;
use crate::scroll::TrayEvent;

verus! {

use crate::scroll::{delta_of, followed, hooked, over_icon};

/// After a hover the wheel belongs to the icon exactly within the position and
/// size of that hover, the far edges left out. It then asks for the whole
/// notches, of 120 each, that this turn completes, and keeps what is left over.
pub proof fn law_wheel_over_the_hovered_icon(
    tracker: TrackerView,
    left: i32,
    top: i32,
    width: i32,
    height: i32,
    x: i32,
    y: i32,
    mouse_data: u32,
)
    requires
        tracker.wf(),
        -0x8000_0000 <= left + width <= 0x7FFF_FFFF,
        -0x8000_0000 <= top + height <= 0x7FFF_FFFF,
    ensures
        ({
            let hovered = followed(tracker, TrayEvent::Hover { left, top, width, height });
            let (after, outcome) = hooked(hovered, 0, 0x020A, x, y, mouse_data);
            let high = mouse_data as int / 65536;
            let delta = if high < 32768 {
                high
            } else {
                high - 65536
            };
            let total = tracker.remainder + delta;
            &&& outcome is Swallow <==> left <= x < left + width && top <= y < top + height
            &&& outcome is Pass ==> after == hovered
            &&& outcome matches HookOutcome::Swallow(command) ==> {
                &&& match command {
                    Some(Command::Adjust(n)) => n != 0 && total == 120 * n + after.remainder,
                    Some(_) => false,
                    None => total == after.remainder,
                }
                &&& -120 < after.remainder < 120
                &&& total >= 0 ==> after.remainder >= 0
                &&& total <= 0 ==> after.remainder <= 0
                &&& after.hovering
                &&& after.rect == hovered.rect
            }
        }),
{
}

/// The tray's events change what is known just so: a hover gives the edges and
/// keeps a partial notch, a leave ends the hover and drops the partial notch but
/// not the edges, and anything else changes nothing.
pub proof fn law_tray_events(tracker: TrackerView, left: i32, top: i32, width: i32, height: i32)
    requires
        -0x8000_0000 <= left + width <= 0x7FFF_FFFF,
        -0x8000_0000 <= top + height <= 0x7FFF_FFFF,
    ensures
        ({
            let hovered = followed(tracker, TrayEvent::Hover { left, top, width, height });
            let away = followed(tracker, TrayEvent::Leave);
            &&& hovered.hovering
            &&& hovered.remainder == tracker.remainder
            &&& hovered.rect matches Some(rect) && rect.left == left && rect.top == top
                && rect.right == left + width && rect.bottom == top + height
            &&& !away.hovering
            &&& away.remainder == 0
            &&& away.rect == tracker.rect
            &&& followed(tracker, TrayEvent::Other) == tracker
        }),
{
}

/// What is no turn of the wheel, or comes while the cursor is not over the icon,
/// is passed on and changes nothing.
pub proof fn law_all_else_is_passed_on(
    tracker: TrackerView,
    code: i32,
    message: u32,
    x: i32,
    y: i32,
    mouse_data: u32,
)
    requires
        code != 0 || message != 0x020A || !tracker.hovering || tracker.rect is None,
    ensures
        hooked(tracker, code, message, x, y, mouse_data) == (tracker, HookOutcome::Pass),
{
}

/// The cursor is over the icon exactly if the tray says so and it lies between the
/// edges, the far ones left out.
pub proof fn law_over_icon(hovering: bool, rect: Rect, x: int, y: int)
    ensures
        over_icon(hovering, Some(rect), x, y) <==> hovering && rect.left <= x < rect.right
            && rect.top <= y < rect.bottom,
        !over_icon(hovering, None, x, y),
{
}

/// The delta is the signed 16-bit number in the upper half of the data, whatever
/// the lower half holds.
pub proof fn law_delta_is_the_high_word(delta: int, low: int, mouse_data: u32)
    requires
        -32768 <= delta < 32768,
        0 <= low < 65536,
        mouse_data == 65536 * (if delta >= 0 {
            delta
        } else {
            delta + 65536
        }) + low,
    ensures
        delta_of(mouse_data) == delta,
{
}

/// A new tracker knows of no icon and no partial notch. It is in good order
/// exactly while the partial notch is less than a notch, and takes every hover
/// whose edges have 32 bits.
pub proof fn law_tracker_states(
    tracker: TrackerView,
    left: i32,
    top: i32,
    width: i32,
    height: i32,
)
    ensures
        !TrackerView::start().hovering,
        TrackerView::start().rect is None,
        TrackerView::start().remainder == 0,
        tracker.wf() <==> -120 < tracker.remainder < 120,
        TrayEvent::Leave.fits(),
        TrayEvent::Other.fits(),
        (TrayEvent::Hover { left, top, width, height }).fits() <==> -0x8000_0000 <= left + width
            <= 0x7FFF_FFFF && -0x8000_0000 <= top + height <= 0x7FFF_FFFF,
{
}

} // verus!
