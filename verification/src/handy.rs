//! Talking to a Handy device: its modes, the payloads sent to it, and the
//! decisions of the loop that drives it.

use vstd::prelude::*;
use vstd::std_specs::convert::TryFromSpecImpl;

verus! {

/// The operating modes of the device.
#[derive(Clone, Copy, Debug, PartialEq, Eq, Structural)]
pub enum Mode {
    HAMP,
    HSSP,
    HDSP,
    MAINTENANCE,
    HBSP,
}

/// The code by which the device's API names each mode.
pub open spec fn mode_code(mode: Mode) -> u8 {
    match mode {
        Mode::HAMP => 0,
        Mode::HSSP => 1,
        Mode::HDSP => 2,
        Mode::MAINTENANCE => 3,
        Mode::HBSP => 4,
    }
}

/// The mode with a given code, if the code names one.
pub open spec fn mode_of_code(value: u8) -> Result<Mode, InvalidMode> {
    if value == 0 {
        Ok(Mode::HAMP)
    } else if value == 1 {
        Ok(Mode::HSSP)
    } else if value == 2 {
        Ok(Mode::HDSP)
    } else if value == 3 {
        Ok(Mode::MAINTENANCE)
    } else if value == 4 {
        Ok(Mode::HBSP)
    } else {
        Err(InvalidMode { value })
    }
}

/// A number that names no mode.
#[derive(Clone, Copy, Debug, PartialEq, Eq, Structural)]
pub struct InvalidMode {
    pub value: u8,
}

impl Mode {
    /// The code by which the device's API names the mode.
    pub fn code(self) -> (r: u8)
        ensures
            r == mode_code(self),
    {
        match self {
            Mode::HAMP => 0,
            Mode::HSSP => 1,
            Mode::HDSP => 2,
            Mode::MAINTENANCE => 3,
            Mode::HBSP => 4,
        }
    }
}

impl TryFrom<u8> for Mode {
    type Error = InvalidMode;

    fn try_from(value: u8) -> (r: Result<Mode, InvalidMode>) {
        match value {
            0 => Ok(Mode::HAMP),
            1 => Ok(Mode::HSSP),
            2 => Ok(Mode::HDSP),
            3 => Ok(Mode::MAINTENANCE),
            4 => Ok(Mode::HBSP),
            _ => Err(InvalidMode { value }),
        }
    }
}

impl TryFromSpecImpl<u8> for Mode {
    open spec fn obeys_try_from_spec() -> bool {
        true
    }

    open spec fn try_from_spec(v: u8) -> Result<Mode, InvalidMode> {
        mode_of_code(v)
    }
}

/// A mode read back from its code is the mode itself, and the codes are
/// exactly the numbers 0 to 4.
pub proof fn lemma_mode_code_round_trip(mode: Mode, value: u8)
    ensures
        mode_of_code(mode_code(mode)) == Ok::<Mode, InvalidMode>(mode),
        mode_of_code(value) is Ok <==> value <= 4,
        mode_of_code(value) matches Ok(m) ==> mode_code(m) == value,
{
}

/// The mode codes are the Handy API's: HAMP is 0, HSSP 1, HDSP 2, MAINTENANCE
/// 3 and HBSP 4; each code below 5 reads back as its mode, and every other
/// code is refused.
pub proof fn lemma_mode_codes_are_the_handy_api(value: u8)
    ensures
        mode_code(Mode::HAMP) == 0,
        mode_code(Mode::HSSP) == 1,
        mode_code(Mode::HDSP) == 2,
        mode_code(Mode::MAINTENANCE) == 3,
        mode_code(Mode::HBSP) == 4,
        value < 5 <==> mode_of_code(value) is Ok,
        mode_of_code(value) matches Ok(m) ==> mode_code(m) == value,
        mode_of_code(value) matches Err(e) ==> e.value == value,
{
}

/// The device reports whether it is connected.
#[derive(Debug)]
pub struct ConnectedResponse {
    /// Machine connected status
    pub connected: bool,
}

/// Mode update payload.
#[derive(Debug)]
pub struct ModeUpdate {
    pub mode: u8,
}

/// The slide range to set on the device.
#[derive(Debug)]
pub struct SlideSettings {
    pub min: u32,
    pub max: u32,
    /// Flag to indicate if the slide operation is fixed. A fixed operation
    /// moves the active slider area (min-max) offset to the new min or max value.
    pub fixed: Option<bool>,
}

impl ModeUpdate {
    /// The payload that switches the device to `mode`.
    pub fn for_mode(mode: Mode) -> (r: ModeUpdate)
        ensures
            r.mode == mode_code(mode),
    {
        ModeUpdate { mode: mode.code() }
    }
}

impl SlideSettings {
    /// The payload that sets a fixed slide range.
    pub fn fixed_range(min: u32, max: u32) -> (r: SlideSettings)
        ensures
            r.min == min,
            r.max == max,
            r.fixed == Some(true),
    {
        SlideSettings { min, max, fixed: Some(true) }
    }
}

/// A message sent to a running controller.
#[derive(Debug, Clone, Copy, PartialEq, Eq, Structural)]
pub enum Message {
    TogglePause,
    Stop,
}

/// What the controller reports about itself while it runs.
#[derive(Debug, Clone, Copy)]
pub struct ControllerStatus {
    pub elapsed: std::time::Duration,
    pub current_velocity: u32,
    pub paused: bool,
}

/// What the driving loop must tell the device after a message.
#[derive(Debug, Clone, Copy, PartialEq, Eq, Structural)]
pub enum Command {
    /// Stop the motion; the loop goes on, paused.
    Halt,
    /// Start the motion again at the current velocity.
    Resume,
    /// Stop the motion, forget the controller and leave the loop.
    Shutdown,
}

/// What the driving loop does on one tick.
#[derive(Debug, Clone, Copy, PartialEq, Eq, Structural)]
pub enum Tick {
    /// Paused: nothing is sent.
    Skip,
    /// The session is over: leave the loop.
    Finish,
    /// Send the new velocity.
    SetVelocity,
    /// The velocity did not change: nothing is sent.
    Keep,
}

/// The state of the loop that drives the device.
#[derive(Debug, Clone, Copy, PartialEq, Eq, Structural)]
pub struct LoopState {
    pub paused: bool,
}

impl LoopState {
    /// The loop starts running, not paused.
    pub fn new() -> (r: LoopState)
        ensures
            !r.paused,
    {
        LoopState { paused: false }
    }

    /// Handles a message: a pause toggles between halting and resuming the
    /// motion; a stop shuts the loop down.
    pub fn handle_message(&mut self, message: Message) -> (c: Command)
        ensures
            message == Message::TogglePause ==> final(self).paused == !old(self).paused && c == (if final(self).paused {
                Command::Halt
            } else {
                Command::Resume
            }),
            message == Message::Stop ==> *final(self) == *old(self) && c == Command::Shutdown,
    {
        match message {
            Message::TogglePause => {
                self.paused = !self.paused;
                if self.paused {
                    Command::Halt
                } else {
                    Command::Resume
                }
            },
            Message::Stop => Command::Shutdown,
        }
    }

    /// Decides a tick: nothing while paused; leave when the controller says the
    /// session is over; else send the next velocity when it differs from the
    /// current one. Velocities are compared as whole numbers.
    pub fn tick(&self, should_continue: bool, next_velocity: u32, current_velocity: u32) -> (t: Tick)
        ensures
            t == (if self.paused {
                Tick::Skip
            } else if !should_continue {
                Tick::Finish
            } else if next_velocity != current_velocity {
                Tick::SetVelocity
            } else {
                Tick::Keep
            }),
    {
        if self.paused {
            Tick::Skip
        } else if !should_continue {
            Tick::Finish
        } else if next_velocity != current_velocity {
            Tick::SetVelocity
        } else {
            Tick::Keep
        }
    }

    /// The status reported after a tick.
    pub fn status(&self, elapsed: std::time::Duration, current_velocity: u32) -> (r: ControllerStatus)
        ensures
            r.elapsed == elapsed,
            r.current_velocity == current_velocity,
            r.paused == self.paused,
    {
        ControllerStatus { elapsed, current_velocity, paused: self.paused }
    }
}

/// Two pause messages in a row leave the loop as it was, and the second one
/// undoes what the first one told the device.
pub proof fn lemma_pause_twice(s0: LoopState, s1: LoopState, s2: LoopState, c1: Command, c2: Command)
    requires
        s1.paused == !s0.paused && c1 == (if s1.paused { Command::Halt } else { Command::Resume }),
        s2.paused == !s1.paused && c2 == (if s2.paused { Command::Halt } else { Command::Resume }),
    ensures
        s2 == s0,
        c1 != c2,
{
}

} // verus!
