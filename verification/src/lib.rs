//! Lighting output for MIDI visualizers.
//!
//! The crate root holds the driver-agnostic interface ([`Driver`]) and the
//! cached device lookup that a process performs once at start-up. Concrete
//! drivers live under [`drivers`]; the Native Instruments Komplete Kontrol
//! S-series MK2 protocol is in [`drivers::kk_mk2`].
//!
//! Everything in this crate is plain computation over plain values: frames of
//! key colours, HID reports, device lists, hot-plug transitions, and the
//! decisions of the player's menu and output backend. Opening devices, writing
//! reports, sleeping and reading the environment are left to the caller, who
//! hands the library what was read and performs what the library decides.

use vstd::prelude::*;

use crate::drivers::kk_mk2::{find_kk_mk2_path, first_kk_mk2_path, DeviceEntry};


pub mod cli;
pub mod drivers;
pub mod hotplug;
pub mod lightguide_backend;
pub mod menu_state;
pub mod output_manager;
pub mod song;
pub mod text;


verus! {

/// Why a driver command could not be carried out, as text for logs and users.
#[derive(Debug, PartialEq, Eq)]
pub struct DriverError {
    pub message: String,
}

/// One command given to a driver.
#[derive(Debug, Clone, Copy, PartialEq, Eq, Structural)]
pub enum DriverCommand {
    /// Send the init handshake.
    Init,
    /// Set one key to a palette index, leaving the other keys as they are.
    SetOne { key: u8, color: u8 },
    /// Light every key with a palette index.
    SetAll { color: u8 },
    /// Turn every key off.
    SetOff,
}

/// The command count after one more command: the count runs modulo 2^64.
pub open spec fn next_count(count: u64) -> u64 {
    if count == u64::MAX {
        0
    } else {
        (count + 1) as u64
    }
}

/// The command count after `n` more commands, starting from `start`.
pub open spec fn count_after(start: u64, n: nat) -> u64
    decreases n,
{
    if n == 0 {
        start
    } else {
        next_count(count_after(start, (n - 1) as nat))
    }
}

/// What one command does to a driver's record: one more command counted,
/// this command as the last one, and whether it was carried out.
pub open spec fn took_command<D: Driver + ?Sized>(before: &D, after: &D, command: DriverCommand, carried_out: bool) -> bool {
    &&& after.command_count() == next_count(before.command_count())
    &&& after.last_command() == Some(command)
    &&& after.last_succeeded() == carried_out
}

/// A lightguide driver: a sink for "color this key" / "all keys this color" /
/// "all off" commands. Implementations wrap a hardware connection.
///
/// Every method is a single wire write to the hardware; per-key and full-bus
/// updates have identical wire cost, so neither is built on the other.
/// A driver keeps a record of what it was given: how many commands, the last
/// one, and whether the last one was carried out. Each method counts its own
/// command once, whether or not the hardware carried it out, and its result
/// is `Ok` exactly when it did.
pub trait Driver {
    /// How many commands this driver has been given, counting modulo 2^64.
    spec fn command_count(&self) -> u64;

    /// The last command this driver was given, if any.
    spec fn last_command(&self) -> Option<DriverCommand>;

    /// Whether the last command was carried out.
    spec fn last_succeeded(&self) -> bool;

    /// Initialize the device (send the init handshake). Called once after
    /// construction and before any `set_*` call.
    fn init(&mut self) -> (result: Result<(), DriverError>)
        ensures
            final(self).command_count() == next_count(old(self).command_count()),
            final(self).last_command() == Some(DriverCommand::Init),
            final(self).last_succeeded() == (result is Ok),
    ;

    /// Set a single key to the given palette index without disturbing the
    /// other keys' current state. Out-of-range key indices are silently
    /// ignored. The palette is driver-specific.
    fn set_one(&mut self, key: u8, color: u8) -> (result: Result<(), DriverError>)
        ensures
            final(self).command_count() == next_count(old(self).command_count()),
            final(self).last_command() == Some(DriverCommand::SetOne { key, color }),
            final(self).last_succeeded() == (result is Ok),
    ;

    /// Light every key with the given palette index.
    fn set_all(&mut self, color: u8) -> (result: Result<(), DriverError>)
        ensures
            final(self).command_count() == next_count(old(self).command_count()),
            final(self).last_command() == Some(DriverCommand::SetAll { color }),
            final(self).last_succeeded() == (result is Ok),
    ;

    /// Turn off every key.
    fn set_off(&mut self) -> (result: Result<(), DriverError>)
        ensures
            final(self).command_count() == next_count(old(self).command_count()),
            final(self).last_command() == Some(DriverCommand::SetOff),
            final(self).last_succeeded() == (result is Ok),
    ;
}

/// A driver together with the history of the commands given to it through
/// this log: each entry is a command and whether the driver carried it out,
/// oldest first. The driver is reached only through [`CommandLog::send`],
/// so the history holds every command the driver got from its holder; a new
/// log is in step with the driver's own record, and each command keeps it so.
pub struct CommandLog<D: Driver> {
    driver: D,
    start: Ghost<u64>,
    sent: Ghost<Seq<(DriverCommand, bool)>>,
}

impl<D: Driver> CommandLog<D> {
    /// The commands given through this log and their outcomes, oldest first.
    pub closed spec fn history(&self) -> Seq<(DriverCommand, bool)> {
        self.sent@
    }

    /// The driver.
    pub closed spec fn driver_state(&self) -> D {
        self.driver
    }

    /// The driver's command count when the log was made.
    pub closed spec fn start_count(&self) -> u64 {
        self.start@
    }

    /// The driver's record agrees with the history: it counted one command
    /// for each entry since the log was made, and its last command and
    /// outcome are the history's last entry.
    pub open spec fn in_step(&self) -> bool {
        &&& self.driver_state().command_count() == count_after(self.start_count(), self.history().len())
        &&& self.history().len() > 0 ==> {
            &&& self.driver_state().last_command() == Some(self.history().last().0)
            &&& self.driver_state().last_succeeded() == self.history().last().1
        }
    }

    /// A log over a driver, with no command given yet.
    pub fn new(driver: D) -> (log: CommandLog<D>)
        ensures
            log.history() == Seq::<(DriverCommand, bool)>::empty(),
            log.driver_state() == driver,
            log.start_count() == driver.command_count(),
            log.in_step(),
    {
        CommandLog { start: Ghost(driver.command_count()), driver, sent: Ghost(Seq::empty()) }
    }

    /// The driver.
    pub fn driver(&self) -> (driver: &D)
        ensures
            *driver == self.driver_state(),
    {
        &self.driver
    }

    /// Give the driver one command, and record it with its outcome.
    pub fn send(&mut self, command: DriverCommand) -> (result: Result<(), DriverError>)
        ensures
            final(self).history() == old(self).history().push((command, result is Ok)),
            took_command(&old(self).driver_state(), &final(self).driver_state(), command, result is Ok),
            final(self).start_count() == old(self).start_count(),
            old(self).in_step() ==> final(self).in_step(),
    {
        let result = match command {
            DriverCommand::Init => self.driver.init(),
            DriverCommand::SetOne { key, color } => self.driver.set_one(key, color),
            DriverCommand::SetAll { color } => self.driver.set_all(color),
            DriverCommand::SetOff => self.driver.set_off(),
        };
        self.sent = Ghost(self.sent@.push((command, result.is_ok())));
        result
    }
}

/// Errors of the process-wide device cache.
#[derive(Debug, Clone, Copy, PartialEq, Eq, Structural)]
pub enum LightguideError {
    /// No Komplete Kontrol MK2 was present when the devices were enumerated.
    NoKkMk2Cached,
}

impl LightguideError {
    /// The text shown to users for this error.
    pub fn message(&self) -> (text: String)
        ensures
            text@ == "no Komplete Kontrol MK2 device cached \u{2014} was the keyboard plugged in at app startup?"@,
    {
        match self {
            LightguideError::NoKkMk2Cached => String::from_str(
                "no Komplete Kontrol MK2 device cached \u{2014} was the keyboard plugged in at app startup?",
            ),
        }
    }
}

/// What the process learns from its one device enumeration at start-up:
/// the path of the first Komplete Kontrol MK2, if one was plugged in.
/// Later opens use the cached path, so that no further enumeration happens
/// inside an event loop.
pub struct LightguideRuntime {
    kk_mk2_path: Option<Vec<u8>>,
}

impl LightguideRuntime {
    /// The cached device path.
    pub closed spec fn cached_kk_mk2_path(&self) -> Option<Seq<u8>> {
        match self.kk_mk2_path {
            Some(p) => Some(p@),
            None => None,
        }
    }

    /// Cache the first Komplete Kontrol MK2 of a device enumeration. The
    /// absence of a device is not an error here.
    pub fn from_devices(devices: &Vec<DeviceEntry>) -> (runtime: LightguideRuntime)
        ensures
            runtime.cached_kk_mk2_path() == first_kk_mk2_path(devices@),
    {
        LightguideRuntime { kk_mk2_path: find_kk_mk2_path(devices) }
    }

    /// The cached device path, or an error when no device was found.
    pub fn kk_mk2_path(&self) -> (path: Result<&Vec<u8>, LightguideError>)
        ensures
            match path {
                Ok(p) => self.cached_kk_mk2_path() == Some(p@),
                Err(e) => self.cached_kk_mk2_path() is None && e == LightguideError::NoKkMk2Cached,
            },
    {
        match &self.kk_mk2_path {
            Some(p) => Ok(p),
            None => Err(LightguideError::NoKkMk2Cached),
        }
    }
}

} // verus!
