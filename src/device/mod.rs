pub mod xkeys;

use vstd::prelude::*;

use crate::device::xkeys::xk68js::{initial_state, XK68JS};

verus! {

/// The edge detected on one control between two buffer reads.
#[derive(Debug, Clone, Copy, PartialEq, Eq)]
pub enum Action {
    Press,
    Release,
}

/// One press or release of the control named by `key`.
#[derive(Debug, Clone, Copy, PartialEq, Eq)]
pub struct Event {
    pub key: u32,
    pub action: Action,
}

} // verus!

verus! {

/// The device kind that a mapping file selects.
#[derive(Debug, Clone, Copy, PartialEq, Eq, Structural)]
pub enum Devices {
    XK68JS,
    Dummy,
}

} // verus!

verus! {

/// A synthetic device that reports a press of control 0 every
/// `interval_secs` seconds.
#[derive(Debug, Clone, Copy, PartialEq, Eq)]
pub struct Dummy {
    pub interval_secs: u64,
}

impl Dummy {
    /// The event reported at each tick.
    pub fn tick(&self) -> (e: Event)
        ensures
            e == (Event { key: 0, action: Action::Press }),
    {
        Event { key: 0, action: Action::Press }
    }
}

/// The backend that reads and translates a selected device.
pub enum DeviceBackend {
    XK68JS(XK68JS),
    Dummy(Dummy),
}

/// The backend for the device selection `device`: a fresh X-keys decoder with
/// every button up, or a dummy that ticks every ten seconds.
pub fn derive_device(device: &Devices) -> (r: DeviceBackend)
    ensures
        match *device {
            Devices::XK68JS => r matches DeviceBackend::XK68JS(d) && d.state@ == initial_state(),
            Devices::Dummy => r matches DeviceBackend::Dummy(d) && d.interval_secs == 10,
        },
{
    match device {
        Devices::XK68JS => DeviceBackend::XK68JS(XK68JS::default()),
        Devices::Dummy => DeviceBackend::Dummy(Dummy { interval_secs: 10 }),
    }
}

} // verus!
