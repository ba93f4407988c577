use lightguide::song::{MidiFileInfo, MidiTrackInfo, PlayerConfig, Song, SongConfig, TrackConfig};

fn track(track_id: usize, has_drums: bool, has_other_than_drums: bool) -> MidiTrackInfo {
    MidiTrackInfo { track_id, has_drums, has_other_than_drums }
}

#[test]
fn drum_tracks_are_hidden_and_automatic() {
    let tracks = vec![track(0, false, true), track(1, true, false), track(2, true, true)];
    let config = SongConfig::new(&tracks, false);
    assert_eq!(
        config.tracks,
        vec![
            TrackConfig { track_id: 0, player: PlayerConfig::Auto, visible: true },
            TrackConfig { track_id: 1, player: PlayerConfig::Auto, visible: false },
            TrackConfig { track_id: 2, player: PlayerConfig::Auto, visible: true },
        ]
    );
}

#[test]
fn practice_mode_hands_non_drum_tracks_to_the_user() {
    let tracks = vec![track(0, false, true), track(1, true, false), track(5, false, false)];
    let config = SongConfig::new(&tracks, true);
    assert_eq!(config.tracks[0].player, PlayerConfig::Human);
    assert_eq!(config.tracks[1].player, PlayerConfig::Auto);
    assert_eq!(config.tracks[2].player, PlayerConfig::Human);
    assert_eq!(config.tracks[2].track_id, 5);
}

#[test]
fn song_configures_its_tracks() {
    let song = Song::new(MidiFileInfo { tracks: vec![track(3, true, false)] }, true);
    assert_eq!(song.config.tracks, vec![TrackConfig { track_id: 3, player: PlayerConfig::Auto, visible: false }]);
    assert_eq!(song.clone(), song);
    assert!(SongConfig::default().tracks.is_empty());
}

#[test]
fn song_source_prefers_the_command_line() {
    let args = vec!["neothesia".to_string(), "a.mid".to_string()];
    assert_eq!(Song::source_path(&args, Some("b.mid".to_string())), Some("a.mid".to_string()));
    let only_program = vec!["neothesia".to_string()];
    assert_eq!(Song::source_path(&only_program, Some("b.mid".to_string())), Some("b.mid".to_string()));
    assert_eq!(Song::source_path(&only_program, None), None);
}
