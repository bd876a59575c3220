//! Bus-event bookkeeping of the USB device handler.
//!
//! The USB stack reports bus events through a handler; the only state the
//! handler keeps is whether the device is currently configured. Every event
//! but a successful configuration drops that state.

use vstd::prelude::*;

verus! {

/// Tracks whether the device has reached the configured state.
#[derive(Debug, Clone, Copy, PartialEq, Eq, Structural)]
pub struct USBDeviceHandler {
    configured: bool,
}

impl USBDeviceHandler {
    /// Whether the device is currently configured.
    pub closed spec fn is_configured(self) -> bool {
        self.configured
    }

    /// A fresh handler: not configured.
    pub fn new() -> (h: Self)
        ensures
            !h.is_configured(),
    {
        USBDeviceHandler { configured: false }
    }

    /// Whether the device is currently configured, as read by observers.
    pub fn get_configured(&self) -> (c: bool)
        ensures
            c == self.is_configured(),
    {
        self.configured
    }

    /// The bus was enabled or disabled; either way the device is no longer
    /// configured.
    pub fn enabled(&mut self, _enabled: bool)
        ensures
            !final(self).is_configured(),
    {
        self.configured = false;
    }

    /// The bus was reset; the device is no longer configured.
    pub fn reset(&mut self)
        ensures
            !final(self).is_configured(),
    {
        self.configured = false;
    }

    /// The host assigned an address; configuration comes later.
    pub fn addressed(&mut self, _addr: u8)
        ensures
            !final(self).is_configured(),
    {
        self.configured = false;
    }

    /// The host configured or deconfigured the device.
    pub fn configured(&mut self, configured: bool)
        ensures
            final(self).is_configured() == configured,
    {
        self.configured = configured;
    }
}

} // verus!
