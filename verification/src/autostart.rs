//! The "Launch on startup" setting: what to believe of it and what to show.
use vstd::prelude::*;

verus! {

/// Whether Windows will start the app at logon, from what a read of the setting
/// gave.
///
/// An unreadable setting counts as "off", so the menu only ever claims what it
/// could confirm.
pub fn is_enabled(reading: &Result<bool, String>) -> (r: bool)
    ensures
        r == enabled(*reading),
{
    match reading {
        Ok(enabled) => *enabled,
        Err(_) => false,
    }
}

/// Whether a read of the setting confirmed that it is on.
pub open spec fn enabled(reading: Result<bool, String>) -> bool {
    reading matches Ok(on) && on
}

/// The state that took effect after the setting was to be turned on or off, if
/// the outcome tells; where the write failed the setting has to be read again.
pub open spec fn took_effect(enable: bool, outcome: Result<(), String>) -> Option<bool> {
    match outcome {
        Ok(_) => Some(enable),
        Err(_) => None,
    }
}

/// The state that took effect after the setting was to be turned on or off, or
/// nothing where it has to be read again.
pub fn set(enable: bool, outcome: &Result<(), String>) -> (r: Option<bool>)
    ensures
        r == took_effect(enable, *outcome),
{
    match outcome {
        Ok(_) => Some(enable),
        Err(_) => None,
    }
}

/// The state to turn the setting to, from what a read of it gave: the other one.
pub fn toggle_autostart(reading: &Result<bool, String>) -> (r: bool)
    ensures
        r == !enabled(*reading),
{
    !is_enabled(reading)
}

/// The state to show after the setting was to be turned on or off: the one that
/// took effect, or what the setting reads as where the write failed.
pub open spec fn settled_state(
    enable: bool,
    outcome: Result<(), String>,
    read_back: Result<bool, String>,
) -> bool {
    if outcome is Ok {
        enable
    } else {
        enabled(read_back)
    }
}

/// The state to show after the setting was to be turned on or off. `read_back`
/// is what the setting reads as afterwards, and counts only where the write
/// failed.
pub fn settled(enable: bool, outcome: &Result<(), String>, read_back: &Result<bool, String>) -> (r:
    bool)
    ensures
        r == settled_state(enable, *outcome, *read_back),
{
    match set(enable, outcome) {
        Some(state) => state,
        None => is_enabled(read_back),
    }
}

/// The tick to show after a toggle.
pub open spec fn tick(
    reading: Result<bool, String>,
    outcome: Result<(), String>,
    read_back: Result<bool, String>,
) -> bool {
    settled_state(!enabled(reading), outcome, read_back)
}

/// The menu claims no more than was confirmed: a tick means that the setting was
/// turned on, or that it was read as on after the write failed.
pub proof fn law_tick_is_confirmed(
    reading: Result<bool, String>,
    outcome: Result<(), String>,
    read_back: Result<bool, String>,
)
    ensures
        tick(reading, outcome, read_back) ==> (outcome is Ok && !enabled(reading)) || (outcome is Err
            && read_back == Ok::<bool, String>(true)),
{
}

/// The tick shows the truth: where a write that goes through has set the
/// setting, and a read that goes through gives the setting, the tick agrees with
/// the setting, unless neither went through.
pub proof fn law_tick_shows_the_setting(
    reading: Result<bool, String>,
    outcome: Result<(), String>,
    read_back: Result<bool, String>,
    setting: bool,
)
    requires
        outcome is Ok ==> setting == !enabled(reading),
        read_back matches Ok(on) ==> on == setting,
    ensures
        outcome is Ok || read_back is Ok ==> tick(reading, outcome, read_back) == setting,
        outcome is Err && read_back is Err ==> !tick(reading, outcome, read_back),
{
}

/// A read counts for what it says, and an error for "off". A write that went
/// through has the effect it was made for, whatever is read back; after one that
/// failed the state is what is read back.
pub proof fn law_what_counts(
    enable: bool,
    on: bool,
    error: String,
    read_back: Result<bool, String>,
)
    ensures
        enabled(Ok(on)) == on,
        !enabled(Err(error)),
        took_effect(enable, Ok(())) == Some(enable),
        took_effect(enable, Err(error)) is None,
        settled_state(enable, Ok(()), read_back) == enable,
        settled_state(enable, Err(error), Ok(on)) == on,
        !settled_state(enable, Err(error), Err(error)),
{
}

/// A toggle that goes through turns the setting over, and a second one turns it
/// back.
pub proof fn law_two_toggles_cancel(
    on: bool,
    first: Result<bool, String>,
    second: Result<bool, String>,
)
    ensures
        tick(Ok(on), Ok(()), first) == !on,
        tick(Ok(tick(Ok(on), Ok(()), first)), Ok(()), second) == on,
{
}

} // verus!
