//! A per-packet observation hook for the receive datapath.
//!
//! A tap sits ahead of everything that could discard a packet: it is handed every packet the
//! processing datapath receives, before the software flow table and before the packet filter. It
//! cannot see packets that are steered to a sink queue, nor packets that a hardware rule dropped.
//!
//! The tap is read once per RX core at loop entry, so a tap that is installed later is not picked
//! up by that core.

use vstd::prelude::*;

verus! {

/// The place for the process-wide tap, which can be filled once.
#[derive(Debug)]
pub struct TapSlot<T> {
    tap: Option<T>,
}

impl<T> View for TapSlot<T> {
    type V = Option<T>;

    closed spec fn view(&self) -> Option<T> {
        self.tap
    }
}

impl<T> TapSlot<T> {
    /// A slot without a tap.
    pub fn new() -> (r: Self)
        ensures
            r@ is None,
    {
        TapSlot { tap: None }
    }
}

/// What a slot holds after a tap was offered to it: the first tap stays.
pub open spec fn offered<T>(slot: Option<T>, tap: T) -> Option<T> {
    match slot {
        None => Some(tap),
        Some(_) => slot,
    }
}

/// Installs the tap, and hands it back if one is already installed.
pub fn install<T>(slot: &mut TapSlot<T>, tap: T) -> (r: Result<(), T>)
    ensures
        final(slot)@ == offered(old(slot)@, tap),
        r == match old(slot)@ {
            None => Ok::<(), T>(()),
            Some(_) => Err(tap),
        },
{
    match &slot.tap {
        None => {
            slot.tap = Some(tap);
            Ok(())
        },
        Some(_) => Err(tap),
    }
}

/// The installed tap, if any.
pub fn installed<T: Copy>(slot: &TapSlot<T>) -> (r: Option<T>)
    ensures
        r == slot@,
{
    match &slot.tap {
        None => None,
        Some(t) => Some(*t),
    }
}

/// Once a tap is installed, no later one replaces it.
pub proof fn law_first_tap_stays<T>(slot: Option<T>, first: T, second: T)
    ensures
        offered(offered(slot, first), second) == offered(slot, first),
{
}

/// An empty slot takes the tap that is offered to it; a slot with a tap keeps the tap it has.
pub proof fn law_empty_slot_takes_the_tap<T>(first: T, second: T)
    ensures
        offered(None, first) == Some(first),
        offered(Some(first), second) == Some(first),
{
}

} // verus!
