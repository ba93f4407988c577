use lightguide::drivers::kk_mk2::palette;
use lightguide::lightguide_backend::{
    midi_note_to_key, palette_for_track, LightguideBackend, LightguideOutputConnection, MidiMessage,
    NoteCommand, COLORS,
};
use lightguide::{CommandLog, Driver, DriverCommand, DriverError};

#[derive(Default)]
struct Recorder {
    calls: Vec<String>,
    fail: bool,
    count: u64,
    last: Option<DriverCommand>,
    last_ok: bool,
}

impl Recorder {
    fn failing() -> Recorder {
        Recorder { fail: true, ..Recorder::default() }
    }

    fn take(&mut self, command: DriverCommand, text: String) -> Result<(), DriverError> {
        self.count = self.count.wrapping_add(1);
        self.last = Some(command);
        self.last_ok = !self.fail;
        self.calls.push(text);
        if self.fail {
            Err(DriverError { message: "unplugged".to_string() })
        } else {
            Ok(())
        }
    }
}

impl Driver for Recorder {
    fn command_count(&self) -> u64 {
        self.count
    }
    fn last_command(&self) -> Option<DriverCommand> {
        self.last
    }
    fn last_succeeded(&self) -> bool {
        self.last_ok
    }
    fn init(&mut self) -> Result<(), DriverError> {
        self.take(DriverCommand::Init, "init".to_string())
    }
    fn set_one(&mut self, key: u8, color: u8) -> Result<(), DriverError> {
        self.take(DriverCommand::SetOne { key, color }, format!("one {key} {color:#04x}"))
    }
    fn set_all(&mut self, color: u8) -> Result<(), DriverError> {
        self.take(DriverCommand::SetAll { color }, format!("all {color:#04x}"))
    }
    fn set_off(&mut self) -> Result<(), DriverError> {
        self.take(DriverCommand::SetOff, "off".to_string())
    }
}

#[test]
fn track_palette_cycles() {
    assert_eq!(palette_for_track(0), 0x19);
    assert_eq!(palette_for_track(1), 0x2d);
    assert_eq!(palette_for_track(5), 0x32);
    assert_eq!(palette_for_track(6), 0x19);
    assert_eq!(palette_for_track(255), COLORS[255 % 6]);
}

#[test]
fn notes_map_onto_the_s61_keys() {
    assert_eq!(midi_note_to_key(35), None);
    assert_eq!(midi_note_to_key(36), Some(0));
    assert_eq!(midi_note_to_key(60), Some(24));
    assert_eq!(midi_note_to_key(96), Some(60));
    assert_eq!(midi_note_to_key(97), None);
    assert_eq!(midi_note_to_key(0), None);
}

#[test]
fn note_on_lights_and_note_off_clears() {
    let mut conn = LightguideOutputConnection::new(Recorder::default());
    conn.midi_event(1, MidiMessage::NoteOn { key: 60, vel: 100 });
    assert!(conn.is_note_active(1, 60));
    conn.midi_event(1, MidiMessage::NoteOff { key: 60, vel: 64 });
    assert!(!conn.is_note_active(1, 60));
    assert_eq!(conn.driver().calls, vec!["one 24 0x2d".to_string(), "one 24 0x00".to_string()]);
    assert_eq!(conn.driver().last_command(), Some(DriverCommand::SetOne { key: 24, color: 0 }));
}

#[test]
fn zero_velocity_note_on_is_a_note_off() {
    let mut conn = LightguideOutputConnection::new(Recorder::default());
    conn.midi_event(0, MidiMessage::NoteOn { key: 40, vel: 90 });
    conn.midi_event(2, MidiMessage::NoteOn { key: 40, vel: 90 });
    conn.midi_event(0, MidiMessage::NoteOn { key: 40, vel: 0 });
    assert!(!conn.is_note_active(0, 40));
    assert!(conn.is_note_active(2, 40));
    assert_eq!(conn.driver().calls[2], "one 4 0x00");
}

#[test]
fn other_messages_and_off_keyboard_notes_do_nothing() {
    let mut conn = LightguideOutputConnection::new(Recorder::default());
    conn.midi_event(0, MidiMessage::NoteOn { key: 20, vel: 90 });
    conn.midi_event(0, MidiMessage::NoteOff { key: 100, vel: 0 });
    conn.midi_event(0, MidiMessage::Controller { controller: 64, value: 127 });
    conn.midi_event(0, MidiMessage::PitchBend { bend: 8192 });
    assert!(conn.driver().calls.is_empty());
    assert!(!conn.is_note_active(0, 20));
}

#[test]
fn failed_driver_leaves_notes_unchanged() {
    let mut conn = LightguideOutputConnection::new(Recorder::failing());
    let outcome = conn.midi_event(3, MidiMessage::NoteOn { key: 60, vel: 10 });
    assert_eq!(outcome.unwrap().unwrap_err().message, "unplugged");
    assert!(!conn.is_note_active(3, 60));
}

#[test]
fn midi_event_reports_the_driver_outcome() {
    let mut conn = LightguideOutputConnection::new(Recorder::default());
    assert!(matches!(conn.midi_event(0, MidiMessage::NoteOn { key: 60, vel: 10 }), Some(Ok(()))));
    assert!(matches!(conn.midi_event(0, MidiMessage::NoteOff { key: 60, vel: 0 }), Some(Ok(()))));
    assert!(conn.midi_event(0, MidiMessage::NoteOn { key: 20, vel: 10 }).is_none());
    assert!(conn.midi_event(0, MidiMessage::ChannelAftertouch { vel: 3 }).is_none());
}

#[test]
fn stop_all_clears_everything_in_one_write() {
    let mut conn = LightguideOutputConnection::new(Recorder::default());
    conn.midi_event(0, MidiMessage::NoteOn { key: 60, vel: 10 });
    conn.midi_event(1, MidiMessage::NoteOn { key: 62, vel: 10 });
    assert!(conn.stop_all().is_ok());
    assert!(!conn.is_note_active(0, 60));
    assert!(!conn.is_note_active(1, 62));
    assert_eq!(conn.driver().calls.last().unwrap(), "off");

    let mut unplugged = LightguideOutputConnection::new(Recorder::default());
    unplugged.midi_event(0, MidiMessage::NoteOn { key: 60, vel: 10 });
    unplugged.record_command_result(
        &NoteCommand { channel: 0, note: 61, key: 25, color: 0x19, lit: true },
        &Ok(()),
    );
    assert!(unplugged.stop_all().is_ok());
    assert!(!unplugged.is_note_active(0, 60));
    assert!(!unplugged.is_note_active(0, 61));

    let mut failing = LightguideOutputConnection::new(Recorder::failing());
    failing.record_command_result(
        &NoteCommand { channel: 2, note: 70, key: 34, color: 0x19, lit: true },
        &Ok(()),
    );
    assert_eq!(failing.stop_all().unwrap_err().message, "unplugged");
    assert!(!failing.is_note_active(2, 70));
    assert_eq!(failing.driver().calls, vec!["off".to_string()]);
}

#[test]
fn note_commands() {
    assert_eq!(
        LightguideOutputConnection::<Recorder>::note_command(4, &MidiMessage::NoteOn { key: 37, vel: 1 }),
        Some(NoteCommand { channel: 4, note: 37, key: 1, color: 0x11, lit: true })
    );
    assert_eq!(
        LightguideOutputConnection::<Recorder>::note_command(4, &MidiMessage::NoteOff { key: 37, vel: 1 }),
        Some(NoteCommand { channel: 4, note: 37, key: 1, color: palette::OFF, lit: false })
    );
    assert_eq!(
        LightguideOutputConnection::<Recorder>::note_command(4, &MidiMessage::ProgramChange { program: 1 }),
        None
    );
}

#[test]
fn record_command_result_follows_the_driver() {
    let mut conn = LightguideOutputConnection::new(Recorder::default());
    let on = NoteCommand { channel: 0, note: 50, key: 14, color: 0x19, lit: true };
    conn.record_command_result(&on, &Err(DriverError { message: "x".to_string() }));
    assert!(!conn.is_note_active(0, 50));
    conn.record_command_result(&on, &Ok(()));
    assert!(conn.is_note_active(0, 50));
    let off = NoteCommand { lit: false, color: 0, ..on };
    conn.record_command_result(&off, &Ok(()));
    assert!(!conn.is_note_active(0, 50));
}

#[test]
fn backend_lists_no_outputs() {
    assert!(LightguideBackend::new().get_outputs().is_empty());
    assert!(LightguideBackend::default().get_outputs().is_empty());
}

#[test]
fn connection_needs_a_successful_init() {
    let conn = LightguideBackend::new_output_connection(Recorder::default()).unwrap();
    assert_eq!(conn.driver().calls, vec!["init".to_string()]);
    let failed = LightguideBackend::new_output_connection(Recorder::failing());
    assert_eq!(failed.err().unwrap().message, "unplugged");
    assert!(LightguideBackend::connection_after_init(CommandLog::new(Recorder::default()), Ok(())).is_ok());
    let refused = LightguideBackend::connection_after_init(
        CommandLog::new(Recorder::default()),
        Err(DriverError { message: "no".to_string() }),
    );
    assert_eq!(refused.err().unwrap().message, "no");
}

#[test]
fn each_note_event_is_one_driver_command() {
    let mut conn = LightguideOutputConnection::new(Recorder::default());
    conn.midi_event(0, MidiMessage::NoteOn { key: 60, vel: 0 });
    assert_eq!(conn.driver().calls, vec!["one 24 0x00".to_string()]);
    assert!(!conn.is_note_active(0, 60));

    let mut top = LightguideOutputConnection::new(Recorder::default());
    assert!(matches!(top.midi_event(7, MidiMessage::NoteOn { key: 96, vel: 1 }), Some(Ok(()))));
    assert_eq!(top.driver().calls, vec!["one 60 0x2d".to_string()]);
    assert_eq!(top.driver().command_count(), 1);
    assert_eq!(top.driver().last_command(), Some(DriverCommand::SetOne { key: 60, color: 0x2d }));
    assert!(top.driver().last_succeeded());
    assert!(top.is_note_active(7, 96));
}

#[test]
fn stop_all_is_a_single_full_clear() {
    let mut conn = LightguideOutputConnection::new(Recorder::default());
    conn.midi_event(0, MidiMessage::NoteOn { key: 60, vel: 10 });
    conn.midi_event(3, MidiMessage::NoteOn { key: 70, vel: 10 });
    let before = conn.driver().calls.len();
    assert!(conn.stop_all().is_ok());
    assert_eq!(conn.driver().calls[before..].to_vec(), vec!["off".to_string()]);
    assert_eq!(conn.driver().command_count(), 3);
}

#[test]
fn a_new_connection_has_sent_only_the_handshake() {
    let conn = LightguideBackend::new_output_connection(Recorder::default()).unwrap();
    assert_eq!(conn.driver().command_count(), 1);
    assert_eq!(conn.driver().last_command(), Some(DriverCommand::Init));
    assert!(conn.driver().last_succeeded());
    assert!(!conn.is_note_active(0, 60));
}
