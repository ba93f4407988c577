//! Lightguide output backend: turns the player's per-event MIDI stream into
//! per-key lighting commands on a [`Driver`].
//!
//! The backend tracks every (channel, note) pair it has lit. `stop_all`
//! clears all keys in a single wire write, which also clears lights whose
//! note-off never arrived.
//!
//! Hand colours reuse the player's track colour id, which arrives as the
//! event's channel.

use vstd::prelude::*;
use std::collections::HashSet;

use crate::drivers::kk_mk2::palette;
use crate::output_manager::OutputDescriptor;
use crate::{count_after, took_command, CommandLog, Driver, DriverCommand, DriverError};

verus! {

broadcast use vstd::std_specs::hash::group_hash_axioms;

/// Track-colour id to KK MK2 palette index, cycling through these six.
pub const COLORS: [u8; 6] = [
    0x19,  // track 0: light green
    0x2d,  // track 1: blue
    0x1d,  // track 2: green saturated
    0x09,  // track 3: orange
    0x11,  // track 4: yellow
    0x32,  // track 5: purple
];

/// The palette index of a track colour id.
pub open spec fn track_palette(track_color_id: u8) -> u8 {
    COLORS@[(track_color_id as int) % 6]
}

/// The palette index of a track colour id: the ids cycle through [`COLORS`].
pub fn palette_for_track(track_color_id: u8) -> (color: u8)
    ensures
        color == track_palette(track_color_id),
{
    COLORS[(track_color_id as usize) % 6]
}

/// MIDI note number of the lowest key on an S61 MK2 (C2 = 36).
pub const S61_MK2_MIDI_OFFSET: u8 = 36;

/// Number of keys, and so of lights, on an S61 MK2.
pub const S61_MK2_LED_COUNT: u8 = 61;

/// The key position of a MIDI note on the S61 MK2, if the note is on the
/// keyboard.
pub open spec fn key_of_note(note: u8) -> Option<u8> {
    if S61_MK2_MIDI_OFFSET <= note && note - S61_MK2_MIDI_OFFSET < S61_MK2_LED_COUNT {
        Some((note - S61_MK2_MIDI_OFFSET) as u8)
    } else {
        None
    }
}

/// Translate a MIDI note number to a key position; `None` when the note
/// falls outside the physical keyboard.
pub fn midi_note_to_key(note: u8) -> (key: Option<u8>)
    ensures
        key == key_of_note(note),
{
    if note < S61_MK2_MIDI_OFFSET {
        return None;
    }
    let key = note - S61_MK2_MIDI_OFFSET;
    if key >= S61_MK2_LED_COUNT {
        None
    } else {
        Some(key)
    }
}

/// A MIDI channel message.
#[derive(Debug, Clone, Copy, PartialEq, Eq, Structural)]
pub enum MidiMessage {
    NoteOff { key: u8, vel: u8 },
    NoteOn { key: u8, vel: u8 },
    Aftertouch { key: u8, vel: u8 },
    Controller { controller: u8, value: u8 },
    ProgramChange { program: u8 },
    ChannelAftertouch { vel: u8 },
    PitchBend { bend: u16 },
}

/// A lighting command for one note: light it (`lit`) in `color`, or turn
/// it off.
#[derive(Debug, Clone, Copy, PartialEq, Eq, Structural)]
pub struct NoteCommand {
    pub channel: u8,
    pub note: u8,
    pub key: u8,
    pub color: u8,
    pub lit: bool,
}

/// The lighting command that a message calls for: a note-on with non-zero
/// velocity lights its key in the channel's colour, a note-off or a
/// zero-velocity note-on turns it off, notes off the keyboard and all other
/// messages call for nothing.
pub open spec fn note_command_of(channel: u8, message: MidiMessage) -> Option<NoteCommand> {
    match message {
        MidiMessage::NoteOn { key, vel } => match key_of_note(key) {
            Some(k) => if vel > 0 {
                Some(NoteCommand { channel, note: key, key: k, color: track_palette(channel), lit: true })
            } else {
                Some(NoteCommand { channel, note: key, key: k, color: palette::OFF, lit: false })
            },
            None => None,
        },
        MidiMessage::NoteOff { key, vel } => match key_of_note(key) {
            Some(k) => Some(NoteCommand { channel, note: key, key: k, color: palette::OFF, lit: false }),
            None => None,
        },
        _ => None,
    }
}

/// The set of lit notes after a command was sent: it changes only when the
/// driver carried the command out.
pub open spec fn notes_after(active: Set<(u8, u8)>, command: NoteCommand, succeeded: bool) -> Set<(u8, u8)> {
    if !succeeded {
        active
    } else if command.lit {
        active.insert((command.channel, command.note))
    } else {
        active.remove((command.channel, command.note))
    }
}

/// The slot of a (channel, note) pair in the set of lit notes.
pub open spec fn note_slot(channel: u8, note: u8) -> u16 {
    (channel as int * 256 + note as int) as u16
}

proof fn lemma_note_slot_injective(a: (u8, u8), b: (u8, u8))
    ensures
        note_slot(a.0, a.1) == note_slot(b.0, b.1) <==> a == b,
{
}

fn slot_of(channel: u8, note: u8) -> (slot: u16)
    ensures
        slot == note_slot(channel, note),
{
    (channel as u16) * 256 + (note as u16)
}

/// An output connection that lights the keyboard along with the music.
pub struct LightguideOutputConnection<D: Driver> {
    log: CommandLog<D>,
    active_notes: HashSet<u16>,
}

impl<D: Driver> LightguideOutputConnection<D> {
    /// The (channel, note) pairs currently lit.
    pub closed spec fn active_notes(&self) -> Set<(u8, u8)> {
        Set::new(|p: (u8, u8)| self.active_notes@.contains(note_slot(p.0, p.1)))
    }

    /// The driver that carries out the lighting commands.
    pub closed spec fn driver_state(&self) -> D {
        self.log.driver_state()
    }

    /// The commands this connection gave its driver, with their outcomes,
    /// oldest first.
    pub closed spec fn history(&self) -> Seq<(DriverCommand, bool)> {
        self.log.history()
    }

    /// The driver's command count when this connection's log was made.
    pub closed spec fn start_count(&self) -> u64 {
        self.log.start_count()
    }

    /// The driver's record agrees with the history: one command counted for
    /// each entry, and the last command and outcome are the last entry.
    pub open spec fn in_step(&self) -> bool {
        &&& self.driver_state().command_count() == count_after(self.start_count(), self.history().len())
        &&& self.history().len() > 0 ==> {
            &&& self.driver_state().last_command() == Some(self.history().last().0)
            &&& self.driver_state().last_succeeded() == self.history().last().1
        }
    }

    /// A connection over a driver, with nothing lit and no command given.
    pub fn new(driver: D) -> (connection: Self)
        ensures
            connection.active_notes() == Set::<(u8, u8)>::empty(),
            connection.driver_state() == driver,
            connection.history() == Seq::<(DriverCommand, bool)>::empty(),
            connection.start_count() == driver.command_count(),
            connection.in_step(),
    {
        let connection = LightguideOutputConnection { log: CommandLog::new(driver), active_notes: HashSet::new() };
        assert(connection.active_notes() =~= Set::<(u8, u8)>::empty());
        connection
    }

    /// The driver that carries out the lighting commands.
    pub fn driver(&self) -> (driver: &D)
        ensures
            *driver == self.driver_state(),
    {
        self.log.driver()
    }

    /// Whether a (channel, note) pair is currently lit.
    pub fn is_note_active(&self, channel: u8, note: u8) -> (active: bool)
        ensures
            active == self.active_notes().contains((channel, note)),
    {
        self.active_notes.contains(&slot_of(channel, note))
    }

    /// The lighting command that a message calls for.
    pub fn note_command(channel: u8, message: &MidiMessage) -> (command: Option<NoteCommand>)
        ensures
            command == note_command_of(channel, *message),
    {
        match *message {
            MidiMessage::NoteOn { key, vel } => match midi_note_to_key(key) {
                Some(k) => if vel > 0 {
                    Some(NoteCommand { channel, note: key, key: k, color: palette_for_track(channel), lit: true })
                } else {
                    Some(NoteCommand { channel, note: key, key: k, color: palette::OFF, lit: false })
                },
                None => None,
            },
            MidiMessage::NoteOff { key, vel: _ } => match midi_note_to_key(key) {
                Some(k) => Some(NoteCommand { channel, note: key, key: k, color: palette::OFF, lit: false }),
                None => None,
            },
            _ => None,
        }
    }

    /// Record what the driver answered to a command: a carried-out command
    /// lights or clears its note, a failed one changes nothing.
    pub fn record_command_result(&mut self, command: &NoteCommand, result: &Result<(), DriverError>)
        ensures
            final(self).active_notes() == notes_after(old(self).active_notes(), *command, result is Ok),
            final(self).driver_state() == old(self).driver_state(),
            final(self).history() == old(self).history(),
            final(self).start_count() == old(self).start_count(),
    {
        let ghost before = self.active_notes();
        if result.is_ok() {
            let slot = slot_of(command.channel, command.note);
            if command.lit {
                self.active_notes.insert(slot);
                proof {
                    assert forall|p: (u8, u8)| #[trigger] self.active_notes().contains(p)
                        == before.insert((command.channel, command.note)).contains(p) by {
                        lemma_note_slot_injective(p, (command.channel, command.note));
                    }
                }
                assert(self.active_notes() =~= before.insert((command.channel, command.note)));
            } else {
                self.active_notes.remove(&slot);
                proof {
                    assert forall|p: (u8, u8)| #[trigger] self.active_notes().contains(p)
                        == before.remove((command.channel, command.note)).contains(p) by {
                        lemma_note_slot_injective(p, (command.channel, command.note));
                    }
                }
                assert(self.active_notes() =~= before.remove((command.channel, command.note)));
            }
        }
    }

    /// Light or clear the key of a note event. Messages that are not notes,
    /// and notes off the keyboard, are ignored and give `None`, with nothing
    /// sent to the driver. Otherwise the driver gets exactly one command, the
    /// note's `set_one`, and its answer is returned for the caller to report a
    /// failure; the set of lit notes changes exactly when the driver carried
    /// the command out.
    pub fn midi_event(&mut self, channel: u8, message: MidiMessage) -> (outcome: Option<Result<(), DriverError>>)
        ensures
            outcome is None <==> note_command_of(channel, message) is None,
            match note_command_of(channel, message) {
                None => {
                    &&& final(self).active_notes() == old(self).active_notes()
                    &&& final(self).driver_state() == old(self).driver_state()
                    &&& final(self).history() == old(self).history()
                },
                Some(command) => {
                    let sent = DriverCommand::SetOne { key: command.key, color: command.color };
                    let carried_out = outcome->0 is Ok;
                    &&& final(self).history() == old(self).history().push((sent, carried_out))
                    &&& took_command(&old(self).driver_state(), &final(self).driver_state(), sent, carried_out)
                    &&& final(self).active_notes() == notes_after(old(self).active_notes(), command, carried_out)
                },
            },
            final(self).start_count() == old(self).start_count(),
            old(self).in_step() ==> final(self).in_step(),
    {
        match Self::note_command(channel, &message) {
            Some(command) => {
                let result = self.log.send(DriverCommand::SetOne { key: command.key, color: command.color });
                self.record_command_result(&command, &result);
                Some(result)
            },
            None => None,
        }
    }

    /// Turn every key off in a single write (one `set_off`, nothing else) and
    /// forget all lit notes, whether or not the driver managed to write. The
    /// driver's answer is returned, for the caller to report a failure.
    pub fn stop_all(&mut self) -> (result: Result<(), DriverError>)
        ensures
            final(self).active_notes() == Set::<(u8, u8)>::empty(),
            final(self).history() == old(self).history().push((DriverCommand::SetOff, result is Ok)),
            took_command(&old(self).driver_state(), &final(self).driver_state(), DriverCommand::SetOff, result is Ok),
            final(self).start_count() == old(self).start_count(),
            old(self).in_step() ==> final(self).in_step(),
    {
        let result = self.log.send(DriverCommand::SetOff);
        self.active_notes.clear();
        assert(self.active_notes() =~= Set::<(u8, u8)>::empty());
        result
    }
}

/// The lightguide output backend. It lists no outputs of its own: the
/// lightguide runs in parallel to whatever output the user picked.
pub struct LightguideBackend {
    _private: (),
}

impl LightguideBackend {
    /// The backend value; the type carries no state.
    pub closed spec fn initial() -> LightguideBackend {
        LightguideBackend { _private: () }
    }

    pub fn new() -> (backend: LightguideBackend)
        ensures
            backend == LightguideBackend::initial(),
    {
        LightguideBackend { _private: () }
    }

    /// The outputs this backend offers to the output picker: none.
    pub fn get_outputs(&self) -> (outputs: Vec<OutputDescriptor>)
        ensures
            outputs@.len() == 0,
    {
        Vec::new()
    }

    /// Wrap an opened driver, with the commands it was given so far, in a
    /// connection once its init handshake went through; a failed init gives
    /// its error, for the caller to report.
    pub fn connection_after_init<D: Driver>(log: CommandLog<D>, init: Result<(), DriverError>) -> (connection: Result<LightguideOutputConnection<D>, DriverError>)
        ensures
            connection is Ok <==> init is Ok,
            connection matches Ok(c) ==> {
                &&& c.active_notes() == Set::<(u8, u8)>::empty()
                &&& c.driver_state() == log.driver_state()
                &&& c.history() == log.history()
                &&& c.start_count() == log.start_count()
            },
            connection matches Err(e) ==> init == Err::<(), DriverError>(e),
    {
        match init {
            Ok(()) => {
                let connection = LightguideOutputConnection { log, active_notes: HashSet::new() };
                assert(connection.active_notes() =~= Set::<(u8, u8)>::empty());
                Ok(connection)
            },
            Err(e) => Err(e),
        }
    }

    /// Send the init handshake to an opened driver and wrap it in a
    /// connection; a failed init gives the driver's error. On success the
    /// driver has been given exactly one command, the handshake.
    pub fn new_output_connection<D: Driver>(driver: D) -> (connection: Result<LightguideOutputConnection<D>, DriverError>)
        ensures
            connection matches Ok(c) ==> {
                &&& c.active_notes() == Set::<(u8, u8)>::empty()
                &&& c.history() == seq![(DriverCommand::Init, true)]
                &&& took_command(&driver, &c.driver_state(), DriverCommand::Init, true)
                &&& c.start_count() == driver.command_count()
                &&& c.in_step()
            },
    {
        let mut log = CommandLog::new(driver);
        let init = log.send(DriverCommand::Init);
        Self::connection_after_init(log, init)
    }
}

impl Default for LightguideBackend {
    fn default() -> (backend: Self)
        ensures
            backend == LightguideBackend::initial(),
    {
        Self::new()
    }
}

/// A note lit by a note-on and then released by a note-off (or a
/// zero-velocity note-on) is no longer lit, when the driver carries out both
/// commands; the other lit notes are untouched.
pub proof fn lemma_note_on_then_off_clears(
    active: Set<(u8, u8)>,
    channel: u8,
    note: u8,
    velocity: u8,
    release: MidiMessage,
)
    requires
        velocity > 0,
        key_of_note(note) is Some,
        release == (MidiMessage::NoteOff { key: note, vel: 0 }) || release == (MidiMessage::NoteOn { key: note, vel: 0 }),
    ensures
        ({
            let on = note_command_of(channel, MidiMessage::NoteOn { key: note, vel: velocity })->0;
            let off = note_command_of(channel, release)->0;
            &&& on.lit && on.key == off.key
            &&& notes_after(notes_after(active, on, true), off, true) == active.remove((channel, note))
        }),
{
    let on = note_command_of(channel, MidiMessage::NoteOn { key: note, vel: velocity })->0;
    let off = note_command_of(channel, release)->0;
    assert(notes_after(notes_after(active, on, true), off, true) =~= active.remove((channel, note)));
}

/// Track colour ids cycle through the palette with period six.
pub proof fn lemma_track_palette_cycles(track_color_id: u8)
    requires
        track_color_id < 250,
    ensures
        track_palette((track_color_id + 6) as u8) == track_palette(track_color_id),
{
}

/// Every note on the keyboard has exactly one key, below the light count,
/// and the key maps back to the note.
pub proof fn lemma_note_key_round_trip(note: u8)
    ensures
        key_of_note(note) matches Some(k) ==> k < S61_MK2_LED_COUNT && k + S61_MK2_MIDI_OFFSET == note,
        (36 <= note && note < 97) <==> key_of_note(note) is Some,
{
}

/// Only note-on and note-off messages for a note on the keyboard (MIDI 36 to
/// 96) call for a lighting command; every other message, polyphonic
/// aftertouch included, calls for none. The command addresses the note's key
/// (the note minus 36) on the message's channel, and lights it in the
/// channel's palette colour (0x19, 0x2d, 0x1d, 0x09, 0x11, 0x32, cycling
/// with the channel) exactly for a note-on with non-zero velocity;
/// every other note command turns the key off.
pub proof fn lemma_only_notes_light_keys(channel: u8, message: MidiMessage)
    ensures
        note_command_of(channel, message) is Some <==> (
            (message matches MidiMessage::NoteOn { key, .. } && 36 <= key <= 96)
            || (message matches MidiMessage::NoteOff { key, .. } && 36 <= key <= 96)
        ),
        note_command_of(channel, message) matches Some(c) ==> {
            &&& message is NoteOn || message is NoteOff
            &&& c.channel == channel
            &&& (message matches MidiMessage::NoteOn { key, .. } ==> c.note == key)
            &&& (message matches MidiMessage::NoteOff { key, .. } ==> c.note == key)
            &&& c.key + 36 == c.note
            &&& c.lit <==> (message matches MidiMessage::NoteOn { vel, .. } && vel > 0)
            &&& c.lit ==> c.color == seq![0x19u8, 0x2du8, 0x1du8, 0x09u8, 0x11u8, 0x32u8][(channel as int) % 6]
            &&& !c.lit ==> c.color == 0
        },
{
}

} // verus!
