use lightguide::menu_state::{
    connect_io_plan, env_output_requests_dummy, freeplay, play, Page, UiState,
};
use lightguide::output_manager::{MidiPortInfo, OutputDescriptor};
use lightguide::song::{MidiFileInfo, MidiTrackInfo, Song};

fn midi_out(name: &str) -> OutputDescriptor {
    OutputDescriptor::MidiOut(MidiPortInfo { name: name.to_string() })
}

fn port(name: &str) -> MidiPortInfo {
    MidiPortInfo { name: name.to_string() }
}

#[test]
fn neothesia_output_dummy_aliases_request_silent_primary_output() {
    for value in ["dummy", "none", "off", "no output", "no-output", "silent"] {
        assert!(env_output_requests_dummy(value), "{value}");
        assert!(env_output_requests_dummy(&value.to_ascii_uppercase()), "{value}");
    }
    assert!(!env_output_requests_dummy("NeothesiaOut"));
}

#[test]
fn dummy_request_ignores_surrounding_whitespace() {
    assert!(env_output_requests_dummy("  Off\t"));
    assert!(env_output_requests_dummy("\u{3000}silent\n"));
    assert!(env_output_requests_dummy(" No Output "));
    assert!(!env_output_requests_dummy("no  output"));
    assert!(!env_output_requests_dummy("of f"));
    assert!(!env_output_requests_dummy(""));
    assert!(!env_output_requests_dummy("   "));
    assert!(!env_output_requests_dummy("dummyx"));
}

#[test]
fn page_history_starts_on_main() {
    let state = UiState::new(None);
    assert_eq!(state.current(), Page::Main);
    assert!(!state.is_loading());
    assert!(state.song().is_none());
}

#[test]
fn go_to_then_go_back_returns() {
    let mut state = UiState::new(None);
    state.go_to(Page::Settings);
    assert_eq!(state.current(), Page::Settings);
    state.go_to(Page::TrackSelection);
    assert_eq!(state.current(), Page::TrackSelection);
    state.go_back();
    assert_eq!(state.current(), Page::Settings);
    state.go_back();
    assert_eq!(state.current(), Page::Main);
}

#[test]
fn go_back_from_last_page_exits() {
    let mut state = UiState::new(None);
    state.go_back();
    assert_eq!(state.current(), Page::Exit);
    assert_eq!(state.page_stack.len(), 2);
    state.go_back();
    assert_eq!(state.current(), Page::Main);
}

#[test]
fn tick_dummy_override_selects_silent_output() {
    let mut state = UiState::new(None);
    state.tick(
        vec![midi_out("IAC Driver NeothesiaOut")],
        vec![],
        Some("OFF".to_string()),
        Some("IAC Driver NeothesiaOut".to_string()),
        None,
    );
    assert_eq!(state.selected_output, Some(OutputDescriptor::DummyOutput));
}

#[test]
fn tick_override_substring_selects_midi_output() {
    let mut state = UiState::new(None);
    state.tick(
        vec![
            OutputDescriptor::Synth(None),
            midi_out("Bus 1"),
            midi_out("IAC Driver NeothesiaOut"),
            midi_out("NeothesiaOut 2"),
        ],
        vec![],
        Some("NeothesiaOut".to_string()),
        Some("Buildin Synth".to_string()),
        None,
    );
    assert_eq!(state.selected_output, Some(midi_out("IAC Driver NeothesiaOut")));
}

#[test]
fn tick_unmatched_override_falls_back_to_config() {
    let mut state = UiState::new(None);
    state.tick(
        vec![midi_out("Bus 1"), OutputDescriptor::Synth(None)],
        vec![],
        Some("Nowhere".to_string()),
        Some("Buildin Synth".to_string()),
        None,
    );
    assert_eq!(state.selected_output, Some(OutputDescriptor::Synth(None)));
}

#[test]
fn tick_unknown_configured_name_takes_first_output() {
    let mut state = UiState::new(None);
    state.tick(vec![midi_out("Bus 1"), midi_out("Bus 2")], vec![], None, Some("Gone".to_string()), None);
    assert_eq!(state.selected_output, Some(midi_out("Bus 1")));

    let mut empty = UiState::new(None);
    empty.tick(vec![], vec![], None, Some("Gone".to_string()), None);
    assert_eq!(empty.selected_output, None);
}

#[test]
fn tick_without_configuration_is_silent() {
    let mut state = UiState::new(None);
    state.tick(vec![midi_out("Bus 1")], vec![], None, None, None);
    assert_eq!(state.selected_output, Some(OutputDescriptor::DummyOutput));
}

#[test]
fn tick_keeps_an_existing_selection() {
    let mut state = UiState::new(None);
    state.tick(vec![midi_out("Bus 1")], vec![port("Keys")], None, Some("Bus 1".to_string()), None);
    assert_eq!(state.selected_output, Some(midi_out("Bus 1")));
    assert_eq!(state.selected_input, Some(port("Keys")));
    state.tick(
        vec![midi_out("Bus 2")],
        vec![port("Other")],
        Some("dummy".to_string()),
        Some("Bus 2".to_string()),
        Some("Other".to_string()),
    );
    assert_eq!(state.selected_output, Some(midi_out("Bus 1")));
    assert_eq!(state.selected_input, Some(port("Keys")));
    assert_eq!(state.outputs, vec![midi_out("Bus 2")]);
    assert_eq!(state.inputs, vec![port("Other")]);
}

#[test]
fn tick_selects_configured_input() {
    let mut state = UiState::new(None);
    state.tick(vec![], vec![port("A"), port("B")], None, None, Some("B".to_string()));
    assert_eq!(state.selected_input, Some(port("B")));

    let mut fallback = UiState::new(None);
    fallback.tick(vec![], vec![port("A"), port("B")], None, None, Some("C".to_string()));
    assert_eq!(fallback.selected_input, Some(port("A")));

    let mut none = UiState::new(None);
    none.tick(vec![], vec![], None, None, Some("C".to_string()));
    assert_eq!(none.selected_input, None);
}

fn song() -> Song {
    Song::new(
        MidiFileInfo {
            tracks: vec![MidiTrackInfo { track_id: 0, has_drums: false, has_other_than_drums: true }],
        },
        false,
    )
}

#[test]
fn play_needs_a_song() {
    let mut state = UiState::new(None);
    state.tick(vec![], vec![], None, None, None);
    assert!(play(&state, None).is_none());

    let mut with_song = UiState::new(Some(song()));
    with_song.tick(vec![OutputDescriptor::Synth(None)], vec![port("Keys")], None, Some("Buildin Synth".to_string()), None);
    let request = play(&with_song, Some("font.sf2".to_string())).unwrap();
    assert_eq!(request.song, song());
    assert_eq!(request.io.output, Some(OutputDescriptor::Synth(Some("font.sf2".to_string()))));
    assert_eq!(request.io.input, Some(port("Keys")));
}

#[test]
fn freeplay_passes_the_optional_song() {
    let state = UiState::new(None);
    let request = freeplay(&state, None);
    assert_eq!(request.song, None);
    assert_eq!(request.io.output, None);

    let mut with_song = UiState::new(Some(song()));
    with_song.tick(vec![midi_out("Bus 1")], vec![], None, Some("Bus 1".to_string()), None);
    let request = freeplay(&with_song, Some("font.sf2".to_string()));
    assert_eq!(request.song, Some(song()));
    assert_eq!(request.io.output, Some(midi_out("Bus 1")));
}

#[test]
fn io_plan_keeps_non_synth_outputs() {
    let mut state = UiState::new(None);
    state.tick(vec![], vec![], None, None, None);
    let plan = connect_io_plan(&state, Some("font.sf2".to_string()));
    assert_eq!(plan.output, Some(OutputDescriptor::DummyOutput));
    assert_eq!(plan.input, None);
}
