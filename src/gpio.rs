//! GPIO pins: which register and bits drive a pin.
use vstd::prelude::*;

verus! {

/// The number of GPIO pins.
pub const PIN_COUNT: usize = 54;

/// A GPIO pin, 0 to 53.
#[derive(Clone, Copy, Debug, PartialEq, Eq, Structural)]
pub struct Gpio {
    pin: usize,
}

/// The function of a pin.
#[derive(Clone, Copy, Debug, PartialEq, Eq, Structural)]
pub enum GpioMode {
    Input,
    Output,
}

impl Gpio {
    pub closed spec fn number(&self) -> nat {
        self.pin as nat
    }

    /// Pin `pin`.
    pub fn pin(pin: usize) -> (r: Gpio)
        requires
            pin < PIN_COUNT,
        ensures
            r.number() == pin,
    {
        Gpio { pin }
    }

    /// Where the function of this pin is selected: the index of its
    /// function-select register (ten pins each), the bit shift of its three
    /// bits, and their value for `mode` (0 input, 1 output).
    pub fn fsel_bits(&self, mode: GpioMode) -> (r: (usize, u32, u32))
        requires
            self.number() < PIN_COUNT,
        ensures
            r.0 == self.number() / 10,
            r.1 == (self.number() % 10) * 3,
            r.2 == (match mode {
                GpioMode::Input => 0u32,
                GpioMode::Output => 1u32,
            }),
    {
        let flags: u32 = match mode {
            GpioMode::Input => 0,
            GpioMode::Output => 1,
        };
        (self.pin / 10, ((self.pin % 10) * 3) as u32, flags)
    }

    /// Where this pin is set or cleared: the index of its set or clear
    /// register (32 pins each) and its bit there.
    pub fn level_bits(&self) -> (r: (usize, u32))
        requires
            self.number() < PIN_COUNT,
        ensures
            r.0 == self.number() / 32,
            r.1 == self.number() % 32,
    {
        (self.pin / 32, (self.pin % 32) as u32)
    }
}

} // verus!
