//! The plugins' configuration files: reading a file into settings, writing settings as a
//! fresh file, and changing one setting in a file without touching the rest of it.

use vstd::prelude::*;
use crate::codec::{
    bool_text, document_of, document_view, format_bool, is_true_token, last_value, lookup,
    parse_bool, read_document, setting, ConfigLine, LineView,
};
use crate::decimal::{i32_string, int_text, parse_i32, read_i32_or};
use crate::models::{
    listing_view, AudioInjectConfig, AudioInjectView, CrowdInjectConfig, DirectoryEntry, EntryKind,
    EntryView, ReadFailed, StadiumInjectionConfig, StadiumInjectionView,
};
use crate::text::{
    chars_of, ends_with, is_sorted, lines_view, sort_texts, string_of, terminated, texts,
    write_lines,
};

verus! {

/// The file of the stadium injection plugin, in the configuration directory.
pub const STADIUM_INJECTION_CONFIG: &'static str = "com.bassy.fm26.stadiuminjection.cfg";

/// The file of the audio injection plugin.
pub const AUDIO_INJECT_CONFIG: &'static str = "com.bassy.fm26.audioinject.cfg";

/// The file of the crowd injection plugin.
pub const CROWD_INJECT_CONFIG: &'static str = "com.bassy.fm26.crowdinject.cfg";

/// A truth value in a document: what the last assignment to `key` reads as, or
/// `default` where the key is not assigned.
pub open spec fn flag(doc: Seq<LineView>, key: Seq<char>, default: bool) -> bool {
    match last_value(doc, key) {
        Some(v) => is_true_token(v),
        None => default,
    }
}

/// A whole number in a document: what the last assignment to `key` reads as,
/// `fallback` where its value is no number, `default` where the key is not assigned.
pub open spec fn number(doc: Seq<LineView>, key: Seq<char>, default: int, fallback: int) -> int {
    match last_value(doc, key) {
        Some(v) => match parse_i32(v) {
            Some(n) => n,
            None => fallback,
        },
        None => default,
    }
}

/// A text in a document: the value of the last assignment to `key`, or `default`.
pub open spec fn text_value(doc: Seq<LineView>, key: Seq<char>, default: Seq<char>) -> Seq<
    char,
> {
    match last_value(doc, key) {
        Some(v) => v,
        None => default,
    }
}

/// A number that the caller's reader takes from a document: `result` is what `read`
/// gave for the value of the last assignment to `key`, or `default` where the key is
/// not assigned.
pub open spec fn reading<F: Fn(&str) -> i32>(
    doc: Seq<LineView>,
    key: Seq<char>,
    default: int,
    read: F,
    result: i32,
) -> bool {
    match last_value(doc, key) {
        Some(v) => exists|t: &str| t@ == v && #[trigger] read.ensures((t,), result),
        None => result == default,
    }
}

pub(crate) fn flag_of(doc: &Vec<ConfigLine>, key: &str, default: bool) -> (r: bool)
    ensures
        r == flag(document_view(doc@), key@, default),
{
    match lookup(doc, key) {
        Some(v) => parse_bool(v.as_str()),
        None => default,
    }
}

fn number_of(doc: &Vec<ConfigLine>, key: &str, default: i32, fallback: i32) -> (r: i32)
    ensures
        r == number(document_view(doc@), key@, default as int, fallback as int),
{
    match lookup(doc, key) {
        Some(v) => {
            let chars = chars_of(v.as_str());
            read_i32_or(&chars, fallback)
        },
        None => default,
    }
}

fn text_of(doc: &Vec<ConfigLine>, key: &str, default: &str) -> (r: String)
    ensures
        r@ == text_value(document_view(doc@), key@, default@),
{
    match lookup(doc, key) {
        Some(v) => v.clone(),
        None => String::from_str(default),
    }
}

fn reading_of<F: Fn(&str) -> i32>(doc: &Vec<ConfigLine>, key: &str, default: i32, read: &F) -> (r:
    i32)
    requires
        forall|t: &str| #[trigger] read.requires((t,)),
    ensures
        reading(document_view(doc@), key@, default as int, *read, r),
{
    match lookup(doc, key) {
        Some(v) => read(v.as_str()),
        None => default,
    }
}

/// The settings that a stadium injection file holds, but for the two pitch dimensions.
pub open spec fn stadium_injection_of(
    doc: Seq<LineView>,
    pitch_length: int,
    pitch_width: int,
) -> StadiumInjectionView {
    StadiumInjectionView {
        enable_custom_stadiums: flag(doc, "EnableCustomStadiums"@, true),
        replace_all_stadiums: flag(doc, "ReplaceAllStadiums"@, false),
        default_bundle: text_value(doc, "DefaultBundle"@, Seq::empty()),
        use_custom_pitch_dimensions: flag(doc, "UseCustomPitchDimensions"@, false),
        pitch_length,
        pitch_width,
    }
}

/// What reading a stadium injection file with the reader `read_number` may give.
pub open spec fn reads_stadium_injection<F: Fn(&str) -> i32>(
    doc: Seq<LineView>,
    read_number: F,
    r: StadiumInjectionConfig,
) -> bool {
    &&& r@ == stadium_injection_of(doc, r.pitch_length as int, r.pitch_width as int)
    &&& reading(doc, "PitchLength"@, 105, read_number, r.pitch_length)
    &&& reading(doc, "PitchWidth"@, 68, read_number, r.pitch_width)
}

/// Reads the settings of the stadium injection plugin. Unknown keys, comments and
/// section headers are passed over; where a key is assigned twice the last one counts.
/// The pitch dimensions are measures in metres that may be written with a fraction:
/// `read_number` turns such a value into whole metres.
pub fn parse_stadium_injection_config<F: Fn(&str) -> i32>(content: &str, read_number: F) -> (r:
    StadiumInjectionConfig)
    requires
        forall|t: &str| #[trigger] read_number.requires((t,)),
    ensures
        reads_stadium_injection(document_of(content@), read_number, r),
{
    let doc = read_document(content);
    proof {
        reveal_strlit("");
        assert(""@ == Seq::<char>::empty());
    }
    StadiumInjectionConfig {
        enable_custom_stadiums: flag_of(&doc, "EnableCustomStadiums", true),
        replace_all_stadiums: flag_of(&doc, "ReplaceAllStadiums", false),
        default_bundle: text_of(&doc, "DefaultBundle", ""),
        use_custom_pitch_dimensions: flag_of(&doc, "UseCustomPitchDimensions", false),
        pitch_length: reading_of(&doc, "PitchLength", 105, &read_number),
        pitch_width: reading_of(&doc, "PitchWidth", 68, &read_number),
    }
}

/// Gives the settings of the stadium injection plugin from the text of its file, or
/// the defaults where there is no file. A file that could not be read gives no settings.
pub fn read_stadium_injection_config<F: Fn(&str) -> i32>(
    content: Result<Option<&str>, ReadFailed>,
    read_number: F,
) -> (r: Result<StadiumInjectionConfig, ReadFailed>)
    requires
        forall|t: &str| #[trigger] read_number.requires((t,)),
    ensures
        content is Err ==> r is Err,
        content is Ok ==> r is Ok,
        content is Ok && content->Ok_0 is None ==> r->Ok_0@ == StadiumInjectionConfig::defaults(),
        content is Ok && content->Ok_0 is Some ==> reads_stadium_injection(
            document_of(content->Ok_0->Some_0@),
            read_number,
            r->Ok_0,
        ),
{
    match content {
        Err(failed) => Err(failed),
        Ok(Some(text)) => Ok(parse_stadium_injection_config(text, read_number)),
        Ok(None) => Ok(StadiumInjectionConfig::default()),
    }
}

fn setting_string(key: &str, value: &str) -> (r: String)
    ensures
        r@ == setting(key@, value@),
{
    let mut r = String::from_str(key);
    r.append(" = ");
    r.append(value);
    r
}

/// The lines of a fresh stadium injection file: a banner, then the sections `General`
/// and `PitchDimensions`, each setting under a line that explains it.
pub open spec fn stadium_injection_lines(c: StadiumInjectionView) -> Seq<Seq<char>> {
    seq![
        "## Settings file was created by plugin Stadium Injection"@,
        "## Plugin GUID: com.bassy.fm26.stadiuminjection"@,
        ""@,
        "[General]"@,
        ""@,
        "## Enable or disable custom stadium injection entirely"@,
        setting("EnableCustomStadiums"@, bool_text(c.enable_custom_stadiums)),
        ""@,
        "## If true, replace ALL stadiums. If false, only replace stadiums listed in StadiumMappings"@,
        setting("ReplaceAllStadiums"@, bool_text(c.replace_all_stadiums)),
        ""@,
        "## Default stadium bundle to use when ReplaceAllStadiums is true"@,
        setting("DefaultBundle"@, c.default_bundle),
        ""@,
        "[PitchDimensions]"@,
        ""@,
        "## If true, use the custom pitch dimensions below for goal/corner flag placement"@,
        setting("UseCustomPitchDimensions"@, bool_text(c.use_custom_pitch_dimensions)),
        ""@,
        "## Pitch length in meters (goal-to-goal distance). Standard FIFA: 105m"@,
        setting("PitchLength"@, int_text(c.pitch_length)),
        ""@,
        "## Pitch width in meters (sideline-to-sideline distance). Standard FIFA: 68m"@,
        setting("PitchWidth"@, int_text(c.pitch_width)),
    ]
}

/// Writes the settings of the stadium injection plugin as a fresh file.
pub fn format_stadium_injection_config(config: &StadiumInjectionConfig) -> (r: String)
    ensures
        r@ == terminated(stadium_injection_lines(config@)),
{
    let mut lines: Vec<String> = Vec::new();
    lines.push(String::from_str("## Settings file was created by plugin Stadium Injection"));
    lines.push(String::from_str("## Plugin GUID: com.bassy.fm26.stadiuminjection"));
    lines.push(String::from_str(""));
    lines.push(String::from_str("[General]"));
    lines.push(String::from_str(""));
    lines.push(String::from_str("## Enable or disable custom stadium injection entirely"));
    lines.push(setting_string("EnableCustomStadiums", format_bool(config.enable_custom_stadiums)));
    lines.push(String::from_str(""));
    lines.push(
        String::from_str(
            "## If true, replace ALL stadiums. If false, only replace stadiums listed in StadiumMappings",
        ),
    );
    lines.push(setting_string("ReplaceAllStadiums", format_bool(config.replace_all_stadiums)));
    lines.push(String::from_str(""));
    lines.push(
        String::from_str("## Default stadium bundle to use when ReplaceAllStadiums is true"),
    );
    lines.push(setting_string("DefaultBundle", config.default_bundle.as_str()));
    lines.push(String::from_str(""));
    lines.push(String::from_str("[PitchDimensions]"));
    lines.push(String::from_str(""));
    lines.push(
        String::from_str(
            "## If true, use the custom pitch dimensions below for goal/corner flag placement",
        ),
    );
    lines.push(
        setting_string(
            "UseCustomPitchDimensions",
            format_bool(config.use_custom_pitch_dimensions),
        ),
    );
    lines.push(String::from_str(""));
    lines.push(
        String::from_str("## Pitch length in meters (goal-to-goal distance). Standard FIFA: 105m"),
    );
    lines.push(setting_string("PitchLength", i32_string(config.pitch_length).as_str()));
    lines.push(String::from_str(""));
    lines.push(
        String::from_str(
            "## Pitch width in meters (sideline-to-sideline distance). Standard FIFA: 68m",
        ),
    );
    lines.push(setting_string("PitchWidth", i32_string(config.pitch_width).as_str()));
    assert(texts(lines@) =~= stadium_injection_lines(config@));
    write_lines(&lines)
}

/// The settings that an audio injection file holds.
pub open spec fn audio_inject_of(doc: Seq<LineView>) -> AudioInjectView {
    AudioInjectView {
        enable_audio_injection: flag(doc, "EnableAudioInjection"@, true),
        master_volume: text_value(doc, "MasterVolume"@, "0.7"@),
        debug_mode: flag(doc, "DebugMode"@, false),
        music_volume: text_value(doc, "MusicVolume"@, "1"@),
        event_volume: text_value(doc, "EventVolume"@, "1"@),
        loop_music: flag(doc, "LoopMusic"@, true),
    }
}

/// Reads the settings of the audio injection plugin. Unknown keys, comments and section
/// headers are passed over; where a key is assigned twice the last one counts. A volume
/// is taken as the text of its value.
pub fn parse_audio_inject_config(content: &str) -> (r: AudioInjectConfig)
    ensures
        r@ == audio_inject_of(document_of(content@)),
{
    let doc = read_document(content);
    AudioInjectConfig {
        enable_audio_injection: flag_of(&doc, "EnableAudioInjection", true),
        master_volume: text_of(&doc, "MasterVolume", "0.7"),
        debug_mode: flag_of(&doc, "DebugMode", false),
        music_volume: text_of(&doc, "MusicVolume", "1"),
        event_volume: text_of(&doc, "EventVolume", "1"),
        loop_music: flag_of(&doc, "LoopMusic", true),
    }
}

/// Gives the settings of the audio injection plugin from the text of its file, or the
/// defaults where there is no file. A file that could not be read gives no settings.
pub fn read_audio_inject_config(content: Result<Option<&str>, ReadFailed>) -> (r: Result<
    AudioInjectConfig,
    ReadFailed,
>)
    ensures
        content is Err ==> r is Err,
        content is Ok ==> r is Ok && r->Ok_0@ == match content->Ok_0 {
            Some(text) => audio_inject_of(document_of(text@)),
            None => AudioInjectConfig::defaults(),
        },
{
    match content {
        Err(failed) => Err(failed),
        Ok(Some(text)) => Ok(parse_audio_inject_config(text)),
        Ok(None) => Ok(AudioInjectConfig::default()),
    }
}

/// The lines of a fresh audio injection file: a banner, then the sections `General`
/// and `Audio`, each setting under a line that explains it.
pub open spec fn audio_inject_lines(c: AudioInjectView) -> Seq<Seq<char>> {
    seq![
        "## Settings file was created by plugin Audio Injection"@,
        "## Plugin GUID: com.bassy.fm26.audioinject"@,
        ""@,
        "[General]"@,
        ""@,
        "## Master toggle for audio injection"@,
        setting("EnableAudioInjection"@, bool_text(c.enable_audio_injection)),
        ""@,
        "## Master volume (0.0 to 1.0)"@,
        setting("MasterVolume"@, c.master_volume),
        ""@,
        "## Enable verbose logging"@,
        setting("DebugMode"@, bool_text(c.debug_mode)),
        ""@,
        "[Audio]"@,
        ""@,
        "## Music channel volume (anthems, halftime)"@,
        setting("MusicVolume"@, c.music_volume),
        ""@,
        "## Event channel volume (goals, reactions)"@,
        setting("EventVolume"@, c.event_volume),
        ""@,
        "## Loop music tracks"@,
        setting("LoopMusic"@, bool_text(c.loop_music)),
    ]
}

/// Writes the settings of the audio injection plugin as a fresh file.
pub fn format_audio_inject_config(config: &AudioInjectConfig) -> (r: String)
    ensures
        r@ == terminated(audio_inject_lines(config@)),
{
    let mut lines: Vec<String> = Vec::new();
    lines.push(String::from_str("## Settings file was created by plugin Audio Injection"));
    lines.push(String::from_str("## Plugin GUID: com.bassy.fm26.audioinject"));
    lines.push(String::from_str(""));
    lines.push(String::from_str("[General]"));
    lines.push(String::from_str(""));
    lines.push(String::from_str("## Master toggle for audio injection"));
    lines.push(setting_string("EnableAudioInjection", format_bool(config.enable_audio_injection)));
    lines.push(String::from_str(""));
    lines.push(String::from_str("## Master volume (0.0 to 1.0)"));
    lines.push(setting_string("MasterVolume", config.master_volume.as_str()));
    lines.push(String::from_str(""));
    lines.push(String::from_str("## Enable verbose logging"));
    lines.push(setting_string("DebugMode", format_bool(config.debug_mode)));
    lines.push(String::from_str(""));
    lines.push(String::from_str("[Audio]"));
    lines.push(String::from_str(""));
    lines.push(String::from_str("## Music channel volume (anthems, halftime)"));
    lines.push(setting_string("MusicVolume", config.music_volume.as_str()));
    lines.push(String::from_str(""));
    lines.push(String::from_str("## Event channel volume (goals, reactions)"));
    lines.push(setting_string("EventVolume", config.event_volume.as_str()));
    lines.push(String::from_str(""));
    lines.push(String::from_str("## Loop music tracks"));
    lines.push(setting_string("LoopMusic", format_bool(config.loop_music)));
    assert(texts(lines@) =~= audio_inject_lines(config@));
    write_lines(&lines)
}

/// The settings that a crowd injection file holds.
pub open spec fn crowd_inject_of(doc: Seq<LineView>) -> CrowdInjectConfig {
    CrowdInjectConfig {
        enable_crowd_injection: flag(doc, "EnableCrowdInjection"@, true),
        crowd_density: number(doc, "CrowdDensity"@, 100, 100) as i32,
        always_full_capacity: flag(doc, "AlwaysFullCapacity"@, false),
        debug_mode: flag(doc, "DebugMode"@, false),
        crowd_skip_rate: number(doc, "CrowdSkipRate"@, 4, 4) as i32,
        use_billboards: flag(doc, "UseBillboards"@, false),
        use_fm_crowd_render: flag(doc, "UseFMCrowdRender"@, false),
        use_gpu_instancing: flag(doc, "UseGPUInstancing"@, false),
        use_team_colors: flag(doc, "UseTeamColors"@, true),
    }
}

/// Reads the settings of the crowd injection plugin. Unknown keys, comments and section
/// headers are passed over; where a key is assigned twice the last one counts. A density
/// that is no number reads as 100, a skip rate that is none as 4.
pub fn parse_crowd_inject_config(content: &str) -> (r: CrowdInjectConfig)
    ensures
        r == crowd_inject_of(document_of(content@)),
{
    let doc = read_document(content);
    CrowdInjectConfig {
        enable_crowd_injection: flag_of(&doc, "EnableCrowdInjection", true),
        crowd_density: number_of(&doc, "CrowdDensity", 100, 100),
        always_full_capacity: flag_of(&doc, "AlwaysFullCapacity", false),
        debug_mode: flag_of(&doc, "DebugMode", false),
        crowd_skip_rate: number_of(&doc, "CrowdSkipRate", 4, 4),
        use_billboards: flag_of(&doc, "UseBillboards", false),
        use_fm_crowd_render: flag_of(&doc, "UseFMCrowdRender", false),
        use_gpu_instancing: flag_of(&doc, "UseGPUInstancing", false),
        use_team_colors: flag_of(&doc, "UseTeamColors", true),
    }
}

/// Gives the settings of the crowd injection plugin from the text of its file, or the
/// defaults where there is no file. A file that could not be read gives no settings.
pub fn read_crowd_inject_config(content: Result<Option<&str>, ReadFailed>) -> (r: Result<
    CrowdInjectConfig,
    ReadFailed,
>)
    ensures
        content is Err ==> r is Err,
        content is Ok ==> r is Ok && r->Ok_0 == match content->Ok_0 {
            Some(text) => crowd_inject_of(document_of(text@)),
            None => CrowdInjectConfig::defaults(),
        },
{
    match content {
        Err(failed) => Err(failed),
        Ok(Some(text)) => Ok(parse_crowd_inject_config(text)),
        Ok(None) => Ok(CrowdInjectConfig::default()),
    }
}

/// The lines of a fresh crowd injection file: a banner, then the sections `General`,
/// `Performance` and `Rendering`, each setting under a line that explains it.
pub open spec fn crowd_inject_lines(c: CrowdInjectConfig) -> Seq<Seq<char>> {
    seq![
        "## Settings file was created by plugin Dynamic Crowd Injection"@,
        "## Plugin GUID: com.bassy.fm26.crowdinject"@,
        ""@,
        "[General]"@,
        ""@,
        "## Enable or disable crowd injection for custom stadiums"@,
        setting("EnableCrowdInjection"@, bool_text(c.enable_crowd_injection)),
        ""@,
        "## Crowd density percentage (10-100). Lower values = fewer people in stands."@,
        setting("CrowdDensity"@, int_text(c.crowd_density as int)),
        ""@,
        "## When true, always fill stadium to 100% capacity regardless of real match attendance."@,
        setting("AlwaysFullCapacity"@, bool_text(c.always_full_capacity)),
        ""@,
        "## Enable verbose logging for debugging crowd placement"@,
        setting("DebugMode"@, bool_text(c.debug_mode)),
        ""@,
        "[Performance]"@,
        ""@,
        "## Only render every Nth seat (1=all, 2=50%, 4=25%, 8=12.5%). Higher = better performance."@,
        setting("CrowdSkipRate"@, int_text(c.crowd_skip_rate as int)),
        ""@,
        "[Rendering]"@,
        ""@,
        "## Use 2D billboard sprites instead of 3D crowd models. Better performance but lower quality."@,
        setting("UseBillboards"@, bool_text(c.use_billboards)),
        ""@,
        "## EXPERIMENTAL: Use FM26's native CrowdRender system (GPU instanced, high performance)."@,
        setting("UseFMCrowdRender"@, bool_text(c.use_fm_crowd_render)),
        ""@,
        "## EXPERIMENTAL: Skip AUDIAREA crowd creation for GPU instancing tests."@,
        setting("UseGPUInstancing"@, bool_text(c.use_gpu_instancing)),
        ""@,
        "## Apply team colors from FM26 match data to crowd clothing."@,
        setting("UseTeamColors"@, bool_text(c.use_team_colors)),
    ]
}

/// Writes the settings of the crowd injection plugin as a fresh file.
pub fn format_crowd_inject_config(config: &CrowdInjectConfig) -> (r: String)
    ensures
        r@ == terminated(crowd_inject_lines(*config)),
{
    let mut lines: Vec<String> = Vec::new();
    lines.push(String::from_str("## Settings file was created by plugin Dynamic Crowd Injection"));
    lines.push(String::from_str("## Plugin GUID: com.bassy.fm26.crowdinject"));
    lines.push(String::from_str(""));
    lines.push(String::from_str("[General]"));
    lines.push(String::from_str(""));
    lines.push(String::from_str("## Enable or disable crowd injection for custom stadiums"));
    lines.push(setting_string("EnableCrowdInjection", format_bool(config.enable_crowd_injection)));
    lines.push(String::from_str(""));
    lines.push(
        String::from_str(
            "## Crowd density percentage (10-100). Lower values = fewer people in stands.",
        ),
    );
    lines.push(setting_string("CrowdDensity", i32_string(config.crowd_density).as_str()));
    lines.push(String::from_str(""));
    lines.push(
        String::from_str(
            "## When true, always fill stadium to 100% capacity regardless of real match attendance.",
        ),
    );
    lines.push(setting_string("AlwaysFullCapacity", format_bool(config.always_full_capacity)));
    lines.push(String::from_str(""));
    lines.push(String::from_str("## Enable verbose logging for debugging crowd placement"));
    lines.push(setting_string("DebugMode", format_bool(config.debug_mode)));
    lines.push(String::from_str(""));
    lines.push(String::from_str("[Performance]"));
    lines.push(String::from_str(""));
    lines.push(
        String::from_str(
            "## Only render every Nth seat (1=all, 2=50%, 4=25%, 8=12.5%). Higher = better performance.",
        ),
    );
    lines.push(setting_string("CrowdSkipRate", i32_string(config.crowd_skip_rate).as_str()));
    lines.push(String::from_str(""));
    lines.push(String::from_str("[Rendering]"));
    lines.push(String::from_str(""));
    lines.push(
        String::from_str(
            "## Use 2D billboard sprites instead of 3D crowd models. Better performance but lower quality.",
        ),
    );
    lines.push(setting_string("UseBillboards", format_bool(config.use_billboards)));
    lines.push(String::from_str(""));
    lines.push(
        String::from_str(
            "## EXPERIMENTAL: Use FM26's native CrowdRender system (GPU instanced, high performance).",
        ),
    );
    lines.push(setting_string("UseFMCrowdRender", format_bool(config.use_fm_crowd_render)));
    lines.push(String::from_str(""));
    lines.push(String::from_str("## EXPERIMENTAL: Skip AUDIAREA crowd creation for GPU instancing tests."));
    lines.push(setting_string("UseGPUInstancing", format_bool(config.use_gpu_instancing)));
    lines.push(String::from_str(""));
    lines.push(String::from_str("## Apply team colors from FM26 match data to crowd clothing."));
    lines.push(setting_string("UseTeamColors", format_bool(config.use_team_colors)));
    assert(texts(lines@) =~= crowd_inject_lines(*config));
    write_lines(&lines)
}

/// The name of a configuration file: it ends with `.cfg`, in small letters, and has
/// something before that.
pub open spec fn is_config_file_name(name: Seq<char>) -> bool {
    name.len() > 4 && ends_with(name, ".cfg"@)
}

/// The names of the configuration files in a listing, in its order.
pub open spec fn config_file_names(listing: Seq<EntryView>) -> Seq<Seq<char>>
    decreases listing.len(),
{
    if listing.len() == 0 {
        Seq::empty()
    } else if listing.last().kind is File && is_config_file_name(listing.last().name) {
        config_file_names(listing.drop_last()).push(listing.last().name)
    } else {
        config_file_names(listing.drop_last())
    }
}

fn has_config_name(name: &Vec<char>) -> (r: bool)
    ensures
        r == is_config_file_name(name@),
{
    let n: usize = name.len();
    proof {
        reveal_strlit(".cfg");
    }
    if n > 4 && name[n - 4] == '.' && name[n - 3] == 'c' && name[n - 2] == 'f' && name[n - 1]
        == 'g' {
        assert(name@.skip(n - 4) =~= ".cfg"@);
        true
    } else {
        assert(!is_config_file_name(name@)) by {
            if is_config_file_name(name@) {
                let tail = name@.skip(n - 4);
                assert(tail[0] == '.' && tail[1] == 'c' && tail[2] == 'f' && tail[3] == 'g');
            }
        }
        false
    }
}

/// Lists the configuration files of a directory: the files whose names end with `.cfg`,
/// in ascending order. `listing` holds the entries of the directory, or nothing where
/// the directory does not exist; then there are no files.
pub fn list_config_files(listing: Option<&Vec<DirectoryEntry>>) -> (r: Vec<String>)
    ensures
        listing is None ==> r@.len() == 0,
        listing is Some ==> is_sorted(texts(r@)) && texts(r@).to_multiset() == config_file_names(
            listing_view(listing->Some_0@),
        ).to_multiset(),
{
    let entries = match listing {
        Some(entries) => entries,
        None => {
            return Vec::new();
        },
    };
    let mut names: Vec<Vec<char>> = Vec::new();
    let mut i: usize = 0;
    assert(listing_view(entries@).take(0) == Seq::<EntryView>::empty());
    assert(lines_view(names@) == Seq::<Seq<char>>::empty());
    while i < entries.len()
        invariant
            i <= entries.len(),
            lines_view(names@) == config_file_names(listing_view(entries@).take(i as int)),
        decreases entries.len() - i,
    {
        let entry = &entries[i];
        let ghost upto = listing_view(entries@).take(i + 1);
        assert(upto.drop_last() == listing_view(entries@).take(i as int));
        assert(upto.last() == entry@);
        let name = chars_of(entry.name.as_str());
        if entry.kind == EntryKind::File && has_config_name(&name) {
            let ghost before = lines_view(names@);
            names.push(name);
            assert(lines_view(names@) == before.push(entry.name@));
        }
        i = i + 1;
    }
    assert(listing_view(entries@).take(i as int) == listing_view(entries@));
    let sorted = sort_texts(&names);
    let mut r: Vec<String> = Vec::new();
    let mut k: usize = 0;
    assert(texts(r@) == lines_view(sorted@).take(0));
    while k < sorted.len()
        invariant
            k <= sorted.len(),
            texts(r@) == lines_view(sorted@).take(k as int),
        decreases sorted.len() - k,
    {
        let name = string_of(&sorted[k], 0, sorted[k].len());
        assert(sorted@[k as int]@.subrange(0, sorted@[k as int]@.len() as int)
            == sorted@[k as int]@);
        let ghost before = texts(r@);
        r.push(name);
        assert(texts(r@) == before.push(name@));
        assert(lines_view(sorted@).take(k + 1) == lines_view(sorted@).take(k as int).push(
            sorted@[k as int]@,
        ));
        k = k + 1;
    }
    assert(lines_view(sorted@).take(k as int) == lines_view(sorted@));
    r
}

} // verus!
