//! A loaded song and the per-track playback configuration chosen for it.

use vstd::prelude::*;

verus! {

/// Who plays a track.
#[derive(Debug, Clone, Copy, PartialEq, Eq, Structural)]
pub enum PlayerConfig {
    Mute,
    Auto,
    Human,
}

/// The playback configuration of one track.
#[derive(Debug, Clone, Copy, PartialEq, Eq, Structural)]
pub struct TrackConfig {
    pub track_id: usize,
    pub player: PlayerConfig,
    pub visible: bool,
}

/// What the configuration needs to know of a MIDI track.
#[derive(Debug, Clone, Copy, PartialEq, Eq, Structural)]
pub struct MidiTrackInfo {
    pub track_id: usize,
    pub has_drums: bool,
    pub has_other_than_drums: bool,
}

/// What the configuration needs to know of a MIDI file: its tracks.
#[derive(Debug, PartialEq, Eq)]
pub struct MidiFileInfo {
    pub tracks: Vec<MidiTrackInfo>,
}

impl View for MidiFileInfo {
    type V = Seq<MidiTrackInfo>;

    open spec fn view(&self) -> Seq<MidiTrackInfo> {
        self.tracks@
    }
}

impl Clone for MidiFileInfo {
    fn clone(&self) -> (copy: Self)
        ensures
            copy@ == self@,
    {
        let tracks = self.tracks.clone();
        assert(tracks@ =~= self.tracks@);
        MidiFileInfo { tracks }
    }
}

/// A track is a drum track when it holds drums and nothing else.
pub open spec fn is_drum_track(track: MidiTrackInfo) -> bool {
    track.has_drums && !track.has_other_than_drums
}

/// The default configuration of a track: drum tracks are hidden and played
/// automatically; other tracks are shown, and played by the user in practice
/// mode (`force_human`), automatically otherwise.
pub open spec fn default_track_config(track: MidiTrackInfo, force_human: bool) -> TrackConfig {
    TrackConfig {
        track_id: track.track_id,
        player: if force_human && !is_drum_track(track) {
            PlayerConfig::Human
        } else {
            PlayerConfig::Auto
        },
        visible: !is_drum_track(track),
    }
}

/// The playback configuration of a song, one entry per track.
#[derive(Debug, PartialEq, Eq)]
pub struct SongConfig {
    pub tracks: Vec<TrackConfig>,
}

impl View for SongConfig {
    type V = Seq<TrackConfig>;

    open spec fn view(&self) -> Seq<TrackConfig> {
        self.tracks@
    }
}

impl Clone for SongConfig {
    fn clone(&self) -> (copy: Self)
        ensures
            copy@ == self@,
    {
        let tracks = self.tracks.clone();
        assert(tracks@ =~= self.tracks@);
        SongConfig { tracks }
    }
}

impl Default for SongConfig {
    fn default() -> (config: Self)
        ensures
            config.tracks@ == Seq::<TrackConfig>::empty(),
    {
        SongConfig { tracks: Vec::new() }
    }
}

impl SongConfig {
    /// The default configuration of every track, in track order.
    pub fn new(tracks: &Vec<MidiTrackInfo>, force_human: bool) -> (config: SongConfig)
        ensures
            config.tracks@.len() == tracks@.len(),
            forall|i: int| 0 <= i < tracks@.len() ==>
                #[trigger] config.tracks@[i] == default_track_config(tracks@[i], force_human),
    {
        let mut configs: Vec<TrackConfig> = Vec::new();
        let mut i: usize = 0;
        while i < tracks.len()
            invariant
                i <= tracks@.len(),
                configs@.len() == i,
                forall|j: int| 0 <= j < i ==>
                    #[trigger] configs@[j] == default_track_config(tracks@[j], force_human),
            decreases tracks@.len() - i,
        {
            let t = tracks[i];
            let is_drums = t.has_drums && !t.has_other_than_drums;
            let player = if force_human && !is_drums {
                PlayerConfig::Human
            } else {
                PlayerConfig::Auto
            };
            configs.push(TrackConfig { track_id: t.track_id, player, visible: !is_drums });
            i = i + 1;
        }
        SongConfig { tracks: configs }
    }
}

/// A loaded song with its playback configuration.
#[derive(Debug, PartialEq, Eq)]
pub struct Song {
    pub file: MidiFileInfo,
    pub config: SongConfig,
}

impl View for Song {
    type V = (Seq<MidiTrackInfo>, Seq<TrackConfig>);

    open spec fn view(&self) -> (Seq<MidiTrackInfo>, Seq<TrackConfig>) {
        (self.file@, self.config@)
    }
}

impl Clone for Song {
    fn clone(&self) -> (copy: Self)
        ensures
            copy@ == self@,
    {
        Song { file: self.file.clone(), config: self.config.clone() }
    }
}

impl Song {
    /// A song with the default configuration of its tracks.
    pub fn new(file: MidiFileInfo, force_human: bool) -> (song: Song)
        ensures
            song.file@ == file@,
            song.config.tracks@.len() == file.tracks@.len(),
            forall|i: int| 0 <= i < file.tracks@.len() ==>
                #[trigger] song.config.tracks@[i] == default_track_config(file.tracks@[i], force_human),
    {
        let config = SongConfig::new(&file.tracks, force_human);
        Song { file, config }
    }

    /// Which file to load at start-up: the first command-line argument after
    /// the program name, or else the song opened last.
    pub fn source_path(args: &Vec<String>, last_opened: Option<String>) -> (path: Option<String>)
        ensures
            args@.len() > 1 ==> path == Some(args@[1]),
            args@.len() <= 1 ==> path == last_opened,
    {
        if args.len() > 1 {
            Some(args[1].clone())
        } else {
            last_opened
        }
    }
}

/// A track keeps its id; it is shown exactly when it holds no drums or
/// holds something besides drums; in practice mode it is played by the user
/// exactly when it is shown, and every other track, and every track outside
/// practice mode, is played automatically.
pub proof fn lemma_track_config_roles(track: MidiTrackInfo, force_human: bool)
    ensures
        ({
            let config = default_track_config(track, force_human);
            &&& config.track_id == track.track_id
            &&& config.visible <==> (!track.has_drums || track.has_other_than_drums)
            &&& config.player == PlayerConfig::Human <==> (force_human && config.visible)
            &&& config.player != PlayerConfig::Human ==> config.player == PlayerConfig::Auto
        }),
{
}

} // verus!
