//! GPIO lines as the library sees them: a level, a port to set it on, and
//! a write-deduplicating wrapper.

use crate::GenericError;
use vstd::prelude::*;

verus! {

/// Value written to a GPIO port.
#[derive(Copy, Clone, Debug, PartialEq, Eq, Structural)]
pub enum GpioValue {
    Low,
    High,
}

impl From<bool> for GpioValue {
    fn from(val: bool) -> (r: GpioValue) {
        if val {
            GpioValue::High
        } else {
            GpioValue::Low
        }
    }
}

impl vstd::std_specs::convert::FromSpecImpl<bool> for GpioValue {
    open spec fn obeys_from_spec() -> bool {
        true
    }

    open spec fn from_spec(val: bool) -> GpioValue {
        if val {
            GpioValue::High
        } else {
            GpioValue::Low
        }
    }
}

impl From<u8> for GpioValue {
    fn from(val: u8) -> (r: GpioValue) {
        if val != 0 {
            GpioValue::High
        } else {
            GpioValue::Low
        }
    }
}

impl vstd::std_specs::convert::FromSpecImpl<u8> for GpioValue {
    open spec fn obeys_from_spec() -> bool {
        true
    }

    open spec fn from_spec(val: u8) -> GpioValue {
        if val != 0 {
            GpioValue::High
        } else {
            GpioValue::Low
        }
    }
}

/// A port that levels can be written to. The host implements this over
/// whatever mechanism reaches the pins.
pub trait GpioOut {
    /// Drive the port low.
    fn set_low(&mut self) -> Result<(), GenericError>;

    /// Drive the port high.
    fn set_high(&mut self) -> Result<(), GenericError>;

    /// Drive the port to a level.
    fn set_value(&mut self, value: GpioValue) -> Result<(), GenericError> {
        match value {
            GpioValue::High => self.set_high(),
            GpioValue::Low => self.set_low(),
        }
    }
}

/// A port wrapper that remembers the last level written and skips writes
/// that would not change it; redundant writes cost real time at high
/// refresh rates.
pub struct GpioOutBuffer<T: GpioOut> {
    gpio: T,
    state: GpioValue,
}

impl<T: GpioOut> GpioOutBuffer<T> {
    /// The level last written, which the wrapper assumes the port holds.
    pub closed spec fn spec_state(&self) -> GpioValue {
        self.state
    }

    /// Wrap a port, taking its current level to be low.
    pub fn new(gpio: T) -> (r: GpioOutBuffer<T>)
        ensures
            r.spec_state() == GpioValue::Low,
    {
        GpioOutBuffer { gpio, state: GpioValue::Low }
    }
}

impl<T: GpioOut> GpioOut for GpioOutBuffer<T> {
    fn set_low(&mut self) -> (r: Result<(), GenericError>)
        ensures
            r is Ok ==> final(self).spec_state() == GpioValue::Low,
            r is Err ==> final(self).spec_state() == old(self).spec_state(),
            old(self).spec_state() == GpioValue::Low ==> r is Ok && *final(self) == *old(self),
    {
        if self.state != GpioValue::Low {
            let rs = self.gpio.set_low();
            match rs {
                Ok(_) => {
                    self.state = GpioValue::Low;
                    Ok(())
                }
                Err(e) => Err(e),
            }
        } else {
            Ok(())
        }
    }

    fn set_high(&mut self) -> (r: Result<(), GenericError>)
        ensures
            r is Ok ==> final(self).spec_state() == GpioValue::High,
            r is Err ==> final(self).spec_state() == old(self).spec_state(),
            old(self).spec_state() == GpioValue::High ==> r is Ok && *final(self) == *old(self),
    {
        if self.state != GpioValue::High {
            let rs = self.gpio.set_high();
            match rs {
                Ok(_) => {
                    self.state = GpioValue::High;
                    Ok(())
                }
                Err(e) => Err(e),
            }
        } else {
            Ok(())
        }
    }
}

} // verus!
