//! The values that cross the library's boundary: the installation layout, plugin and
//! bundle records, and the settings of each plugin with their defaults.

use vstd::prelude::*;

verus! {

/// The paths of one installation, all derived from its root directory.
#[derive(Debug, Clone, PartialEq, Eq)]
pub struct Fm26Installation {
    pub root_path: String,
    pub bep_in_ex_path: String,
    pub plugins_path: String,
    pub custom_stadium_path: String,
    pub audio_inject_path: String,
    pub config_path: String,
    pub log_path: String,
}

/// `Fm26Installation` with its paths as sequences of characters.
pub struct InstallationView {
    pub root_path: Seq<char>,
    pub bep_in_ex_path: Seq<char>,
    pub plugins_path: Seq<char>,
    pub custom_stadium_path: Seq<char>,
    pub audio_inject_path: Seq<char>,
    pub config_path: Seq<char>,
    pub log_path: Seq<char>,
}

impl View for Fm26Installation {
    type V = InstallationView;

    open spec fn view(&self) -> InstallationView {
        InstallationView {
            root_path: self.root_path@,
            bep_in_ex_path: self.bep_in_ex_path@,
            plugins_path: self.plugins_path@,
            custom_stadium_path: self.custom_stadium_path@,
            audio_inject_path: self.audio_inject_path@,
            config_path: self.config_path@,
            log_path: self.log_path@,
        }
    }
}

/// Whether one plugin is present, and where it is expected.
#[derive(Debug, Clone, PartialEq, Eq)]
pub struct PluginStatus {
    pub name: String,
    pub path: String,
    pub installed: bool,
}

/// `PluginStatus` with its texts as sequences of characters.
pub struct PluginStatusView {
    pub name: Seq<char>,
    pub path: Seq<char>,
    pub installed: bool,
}

impl View for PluginStatus {
    type V = PluginStatusView;

    open spec fn view(&self) -> PluginStatusView {
        PluginStatusView { name: self.name@, path: self.path@, installed: self.installed }
    }
}

/// Whether the runtime is present, and how many of the known plugins are.
#[derive(Debug, Clone, PartialEq, Eq)]
pub struct BepInExStatus {
    pub installed: bool,
    pub path: String,
    pub has_plugins: bool,
    pub plugin_count: u32,
}

/// A stadium bundle file; `modified` is an ISO 8601 time.
#[derive(Debug, Clone, PartialEq, Eq)]
pub struct BundleInfo {
    pub file_name: String,
    pub full_path: String,
    pub exists: bool,
    pub modified: Option<String>,
}

/// The bundle a team plays in.
#[derive(Debug, Clone, PartialEq, Eq)]
pub struct TeamMapping {
    pub team_id: i32,
    pub bundle_file: String,
}

/// The audio folder of a team; the key is a team id, or `*` for every other team.
#[derive(Debug, Clone, PartialEq, Eq)]
pub struct AudioMapping {
    pub team_key: String,
    pub folder_name: String,
}

/// Which of the expected files an audio folder holds.
#[derive(Debug, Clone, PartialEq, Eq)]
pub struct AudioFolderStatus {
    pub folder_name: String,
    pub path: String,
    pub anthem_exists: bool,
    pub goal_home_exists: bool,
    pub goal_away_exists: bool,
    pub other_files: Vec<String>,
}

/// Settings of the stadium injection plugin.
#[derive(Debug, Clone, PartialEq, Eq)]
pub struct StadiumInjectionConfig {
    pub enable_custom_stadiums: bool,
    pub replace_all_stadiums: bool,
    pub default_bundle: String,
    pub use_custom_pitch_dimensions: bool,
    pub pitch_length: i32,
    pub pitch_width: i32,
}

/// `StadiumInjectionConfig` with its text as a sequence of characters.
pub struct StadiumInjectionView {
    pub enable_custom_stadiums: bool,
    pub replace_all_stadiums: bool,
    pub default_bundle: Seq<char>,
    pub use_custom_pitch_dimensions: bool,
    pub pitch_length: int,
    pub pitch_width: int,
}

impl View for StadiumInjectionConfig {
    type V = StadiumInjectionView;

    open spec fn view(&self) -> StadiumInjectionView {
        StadiumInjectionView {
            enable_custom_stadiums: self.enable_custom_stadiums,
            replace_all_stadiums: self.replace_all_stadiums,
            default_bundle: self.default_bundle@,
            use_custom_pitch_dimensions: self.use_custom_pitch_dimensions,
            pitch_length: self.pitch_length as int,
            pitch_width: self.pitch_width as int,
        }
    }
}

impl StadiumInjectionConfig {
    /// The settings of a plugin that has no file yet.
    pub open spec fn defaults() -> StadiumInjectionView {
        StadiumInjectionView {
            enable_custom_stadiums: true,
            replace_all_stadiums: false,
            default_bundle: Seq::empty(),
            use_custom_pitch_dimensions: false,
            pitch_length: 105,
            pitch_width: 68,
        }
    }
}

impl Default for StadiumInjectionConfig {
    fn default() -> (r: Self)
        ensures
            r@ == Self::defaults(),
    {
        StadiumInjectionConfig {
            enable_custom_stadiums: true,
            replace_all_stadiums: false,
            default_bundle: String::new(),
            use_custom_pitch_dimensions: false,
            pitch_length: 105,
            pitch_width: 68,
        }
    }
}

/// Settings of the audio injection plugin. A volume is a decimal fraction between 0 and
/// 1, held as the text that stands for it in the file.
#[derive(Debug, Clone, PartialEq, Eq)]
pub struct AudioInjectConfig {
    pub enable_audio_injection: bool,
    pub master_volume: String,
    pub debug_mode: bool,
    pub music_volume: String,
    pub event_volume: String,
    pub loop_music: bool,
}

/// `AudioInjectConfig` with its texts as sequences of characters.
pub struct AudioInjectView {
    pub enable_audio_injection: bool,
    pub master_volume: Seq<char>,
    pub debug_mode: bool,
    pub music_volume: Seq<char>,
    pub event_volume: Seq<char>,
    pub loop_music: bool,
}

impl View for AudioInjectConfig {
    type V = AudioInjectView;

    open spec fn view(&self) -> AudioInjectView {
        AudioInjectView {
            enable_audio_injection: self.enable_audio_injection,
            master_volume: self.master_volume@,
            debug_mode: self.debug_mode,
            music_volume: self.music_volume@,
            event_volume: self.event_volume@,
            loop_music: self.loop_music,
        }
    }
}

impl AudioInjectConfig {
    /// The settings of a plugin that has no file yet.
    pub open spec fn defaults() -> AudioInjectView {
        AudioInjectView {
            enable_audio_injection: true,
            master_volume: "0.7"@,
            debug_mode: false,
            music_volume: "1"@,
            event_volume: "1"@,
            loop_music: true,
        }
    }
}

impl Default for AudioInjectConfig {
    fn default() -> (r: Self)
        ensures
            r@ == Self::defaults(),
    {
        AudioInjectConfig {
            enable_audio_injection: true,
            master_volume: String::from_str("0.7"),
            debug_mode: false,
            music_volume: String::from_str("1"),
            event_volume: String::from_str("1"),
            loop_music: true,
        }
    }
}

/// Settings of the crowd injection plugin.
#[derive(Debug, Clone, Copy, PartialEq, Eq, Structural)]
pub struct CrowdInjectConfig {
    pub enable_crowd_injection: bool,
    pub crowd_density: i32,
    pub always_full_capacity: bool,
    pub debug_mode: bool,
    pub crowd_skip_rate: i32,
    pub use_billboards: bool,
    pub use_fm_crowd_render: bool,
    pub use_gpu_instancing: bool,
    pub use_team_colors: bool,
}

impl CrowdInjectConfig {
    /// The settings of a plugin that has no file yet.
    pub open spec fn defaults() -> CrowdInjectConfig {
        CrowdInjectConfig {
            enable_crowd_injection: true,
            crowd_density: 100,
            always_full_capacity: false,
            debug_mode: false,
            crowd_skip_rate: 4,
            use_billboards: false,
            use_fm_crowd_render: false,
            use_gpu_instancing: false,
            use_team_colors: true,
        }
    }
}

impl Default for CrowdInjectConfig {
    fn default() -> (r: Self)
        ensures
            r == Self::defaults(),
    {
        CrowdInjectConfig {
            enable_crowd_injection: true,
            crowd_density: 100,
            always_full_capacity: false,
            debug_mode: false,
            crowd_skip_rate: 4,
            use_billboards: false,
            use_fm_crowd_render: false,
            use_gpu_instancing: false,
            use_team_colors: true,
        }
    }
}

/// The advertising boards setting, kept in the stadium injection file.
#[derive(Debug, Clone, Copy, PartialEq, Eq, Structural)]
pub struct AdboardsConfig {
    pub disable_adboards: bool,
}

impl AdboardsConfig {
    /// The setting where the file says nothing.
    pub open spec fn defaults() -> AdboardsConfig {
        AdboardsConfig { disable_adboards: false }
    }
}

impl Default for AdboardsConfig {
    fn default() -> (r: Self)
        ensures
            r == Self::defaults(),
    {
        AdboardsConfig { disable_adboards: false }
    }
}

/// A file that is there and could not be read as text.
#[derive(Debug, Clone, Copy, PartialEq, Eq, Structural)]
pub struct ReadFailed;

/// What an entry of a directory is.
#[derive(Debug, Clone, Copy, PartialEq, Eq, Structural)]
pub enum EntryKind {
    File,
    Directory,
    Other,
}

/// One entry of a directory listing.
#[derive(Debug, Clone, PartialEq, Eq)]
pub struct DirectoryEntry {
    pub name: String,
    pub kind: EntryKind,
}

/// `DirectoryEntry` with its name as a sequence of characters.
pub struct EntryView {
    pub name: Seq<char>,
    pub kind: EntryKind,
}

impl View for DirectoryEntry {
    type V = EntryView;

    open spec fn view(&self) -> EntryView {
        EntryView { name: self.name@, kind: self.kind }
    }
}

/// The views of a listing.
pub open spec fn listing_view(entries: Seq<DirectoryEntry>) -> Seq<EntryView> {
    entries.map_values(|e: DirectoryEntry| e@)
}

} // verus!
