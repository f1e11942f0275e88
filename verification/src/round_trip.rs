//! Settings survive being written and read: a fresh file, read again, gives the
//! settings it was written from.

use vstd::prelude::*;
use crate::codec::{
    bool_text, classify, document_of, is_key, is_plain_value, lemma_bool_text, lemma_classify_blank,
    lemma_classify_comment, lemma_classify_section, lemma_classify_setting, lemma_last_value_is,
    lemma_setting_plain, setting, LineView,
};
use crate::configs::{
    audio_inject_lines, audio_inject_of, crowd_inject_lines, crowd_inject_of,
    reads_stadium_injection, stadium_injection_lines,
};
use crate::decimal::{int_text, lemma_int_text};
use crate::models::{
    AudioInjectConfig, AudioInjectView, CrowdInjectConfig, StadiumInjectionConfig,
    StadiumInjectionView,
};
use crate::text::{is_plain_line, lemma_split_terminated, lemma_trim_is, terminated};

verus! {

/// A line of a fresh file that says nothing to a reader: an empty line, a line of
/// explanation or a section header.
pub open spec fn is_silent_line(line: Seq<char>) -> bool {
    &&& is_plain_line(line)
    &&& line.len() > 0 ==> line[0] == '#' || (line[0] == '[' && line.last() == ']')
}

proof fn lemma_silent_line(line: Seq<char>)
    requires
        is_silent_line(line),
    ensures
        !(classify(line) is KeyValue),
{
    if line.len() == 0 {
        assert(line == Seq::<char>::empty());
        lemma_classify_blank();
    } else if line[0] == '#' {
        lemma_classify_comment(line);
    } else {
        lemma_classify_section(line);
    }
}

/// The lines of a fresh crowd injection file but for the nine that assign a setting.
proof fn lemma_crowd_silent_lines(c: CrowdInjectConfig, i: int)
    requires
        0 <= i < 35,
        i != 6 && i != 9 && i != 12 && i != 15 && i != 20 && i != 25 && i != 28 && i != 31
            && i != 34,
    ensures
        is_silent_line(crowd_inject_lines(c)[i]),
{
    reveal_strlit("");
    reveal_strlit("## Settings file was created by plugin Dynamic Crowd Injection");
    reveal_strlit("## Plugin GUID: com.bassy.fm26.crowdinject");
    reveal_strlit("[General]");
    reveal_strlit("## Enable or disable crowd injection for custom stadiums");
    reveal_strlit("## Crowd density percentage (10-100). Lower values = fewer people in stands.");
    reveal_strlit(
        "## When true, always fill stadium to 100% capacity regardless of real match attendance.",
    );
    reveal_strlit("## Enable verbose logging for debugging crowd placement");
    reveal_strlit("[Performance]");
    reveal_strlit(
        "## Only render every Nth seat (1=all, 2=50%, 4=25%, 8=12.5%). Higher = better performance.",
    );
    reveal_strlit("[Rendering]");
    reveal_strlit(
        "## Use 2D billboard sprites instead of 3D crowd models. Better performance but lower quality.",
    );
    reveal_strlit(
        "## EXPERIMENTAL: Use FM26's native CrowdRender system (GPU instanced, high performance).",
    );
    reveal_strlit("## EXPERIMENTAL: Skip AUDIAREA crowd creation for GPU instancing tests.");
    reveal_strlit("## Apply team colors from FM26 match data to crowd clothing.");
}

/// The nine keys of a crowd injection file.
proof fn lemma_crowd_keys()
    ensures
        is_key("EnableCrowdInjection"@),
        is_key("CrowdDensity"@),
        is_key("AlwaysFullCapacity"@),
        is_key("DebugMode"@),
        is_key("CrowdSkipRate"@),
        is_key("UseBillboards"@),
        is_key("UseFMCrowdRender"@),
        is_key("UseGPUInstancing"@),
        is_key("UseTeamColors"@),
{
    reveal_strlit("EnableCrowdInjection");
    reveal_strlit("CrowdDensity");
    reveal_strlit("AlwaysFullCapacity");
    reveal_strlit("DebugMode");
    reveal_strlit("CrowdSkipRate");
    reveal_strlit("UseBillboards");
    reveal_strlit("UseFMCrowdRender");
    reveal_strlit("UseGPUInstancing");
    reveal_strlit("UseTeamColors");
}

/// Whether line `i` of a fresh crowd injection file assigns a setting.
spec fn crowd_assigns(i: int) -> bool {
    i == 6 || i == 9 || i == 12 || i == 15 || i == 20 || i == 25 || i == 28 || i == 31 || i == 34
}

/// What a fresh crowd injection file says, line by line: nine lines assign a setting,
/// the others say nothing.
proof fn lemma_crowd_document(c: CrowdInjectConfig)
    ensures
        ({
            let doc = document_of(terminated(crowd_inject_lines(c)));
            &&& doc.len() == 35
            &&& forall|i: int| 0 <= i < 35 && !crowd_assigns(i) ==> !(#[trigger] doc[i] is KeyValue)
            &&& doc[6] == (LineView::KeyValue {
                key: "EnableCrowdInjection"@,
                value: bool_text(c.enable_crowd_injection),
            })
            &&& doc[9] == (LineView::KeyValue {
                key: "CrowdDensity"@,
                value: int_text(c.crowd_density as int),
            })
            &&& doc[12] == (LineView::KeyValue {
                key: "AlwaysFullCapacity"@,
                value: bool_text(c.always_full_capacity),
            })
            &&& doc[15] == (LineView::KeyValue { key: "DebugMode"@, value: bool_text(c.debug_mode) })
            &&& doc[20] == (LineView::KeyValue {
                key: "CrowdSkipRate"@,
                value: int_text(c.crowd_skip_rate as int),
            })
            &&& doc[25] == (LineView::KeyValue {
                key: "UseBillboards"@,
                value: bool_text(c.use_billboards),
            })
            &&& doc[28] == (LineView::KeyValue {
                key: "UseFMCrowdRender"@,
                value: bool_text(c.use_fm_crowd_render),
            })
            &&& doc[31] == (LineView::KeyValue {
                key: "UseGPUInstancing"@,
                value: bool_text(c.use_gpu_instancing),
            })
            &&& doc[34] == (LineView::KeyValue {
                key: "UseTeamColors"@,
                value: bool_text(c.use_team_colors),
            })
        }),
{
    let lines = crowd_inject_lines(c);
    lemma_crowd_keys();
    lemma_bool_text(c.enable_crowd_injection);
    lemma_bool_text(c.always_full_capacity);
    lemma_bool_text(c.debug_mode);
    lemma_bool_text(c.use_billboards);
    lemma_bool_text(c.use_fm_crowd_render);
    lemma_bool_text(c.use_gpu_instancing);
    lemma_bool_text(c.use_team_colors);
    lemma_int_text(c.crowd_density as int);
    lemma_int_text(c.crowd_skip_rate as int);
    lemma_setting("EnableCrowdInjection"@, bool_text(c.enable_crowd_injection));
    lemma_setting("CrowdDensity"@, int_text(c.crowd_density as int));
    lemma_setting("AlwaysFullCapacity"@, bool_text(c.always_full_capacity));
    lemma_setting("DebugMode"@, bool_text(c.debug_mode));
    lemma_setting("CrowdSkipRate"@, int_text(c.crowd_skip_rate as int));
    lemma_setting("UseBillboards"@, bool_text(c.use_billboards));
    lemma_setting("UseFMCrowdRender"@, bool_text(c.use_fm_crowd_render));
    lemma_setting("UseGPUInstancing"@, bool_text(c.use_gpu_instancing));
    lemma_setting("UseTeamColors"@, bool_text(c.use_team_colors));
    assert forall|i: int| 0 <= i < lines.len() implies is_plain_line(#[trigger] lines[i]) by {
        if !crowd_assigns(i) {
            lemma_crowd_silent_lines(c, i);
        }
    }
    lemma_split_terminated(lines);
    let doc = document_of(terminated(lines));
    assert forall|i: int| 0 <= i < 35 && !crowd_assigns(i) implies !(#[trigger] doc[i]
        is KeyValue) by {
        lemma_crowd_silent_lines(c, i);
        lemma_silent_line(lines[i]);
    }
}

/// A line that assigns a plain value to a key is plain, and says what it assigns.
proof fn lemma_setting(key: Seq<char>, value: Seq<char>)
    requires
        is_key(key),
        is_plain_value(value),
    ensures
        is_plain_line(setting(key, value)),
        classify(setting(key, value)) == (LineView::KeyValue { key, value }),
{
    lemma_setting_plain(key, value);
    lemma_classify_setting(key, value);
}

/// The settings of the crowd injection plugin survive being written and read: reading
/// the fresh file of any settings gives those settings.
pub proof fn lemma_crowd_inject_round_trip(c: CrowdInjectConfig)
    ensures
        crowd_inject_of(document_of(terminated(crowd_inject_lines(c)))) == c,
{
    let doc = document_of(terminated(crowd_inject_lines(c)));
    lemma_crowd_document(c);
    reveal_strlit("EnableCrowdInjection");
    reveal_strlit("CrowdDensity");
    reveal_strlit("AlwaysFullCapacity");
    reveal_strlit("DebugMode");
    reveal_strlit("CrowdSkipRate");
    reveal_strlit("UseBillboards");
    reveal_strlit("UseFMCrowdRender");
    reveal_strlit("UseGPUInstancing");
    reveal_strlit("UseTeamColors");
    assert("CrowdSkipRate"@[0] == 'C');
    assert("UseBillboards"@[0] == 'U' && "UseBillboards"@[3] == 'B');
    assert("UseTeamColors"@[0] == 'U' && "UseTeamColors"@[3] == 'T');
    assert("UseFMCrowdRender"@[3] == 'F');
    assert("UseGPUInstancing"@[3] == 'G');
    lemma_last_value_is(doc, "EnableCrowdInjection"@, 6);
    lemma_last_value_is(doc, "CrowdDensity"@, 9);
    lemma_last_value_is(doc, "AlwaysFullCapacity"@, 12);
    lemma_last_value_is(doc, "DebugMode"@, 15);
    lemma_last_value_is(doc, "CrowdSkipRate"@, 20);
    lemma_last_value_is(doc, "UseBillboards"@, 25);
    lemma_last_value_is(doc, "UseFMCrowdRender"@, 28);
    lemma_last_value_is(doc, "UseGPUInstancing"@, 31);
    lemma_last_value_is(doc, "UseTeamColors"@, 34);
    lemma_bool_text(c.enable_crowd_injection);
    lemma_bool_text(c.always_full_capacity);
    lemma_bool_text(c.debug_mode);
    lemma_bool_text(c.use_billboards);
    lemma_bool_text(c.use_fm_crowd_render);
    lemma_bool_text(c.use_gpu_instancing);
    lemma_bool_text(c.use_team_colors);
    lemma_int_text(c.crowd_density as int);
    lemma_int_text(c.crowd_skip_rate as int);
}

/// Whether line `i` of a fresh audio or stadium injection file assigns a setting.
spec fn assigns(i: int) -> bool {
    i == 6 || i == 9 || i == 12 || i == 17 || i == 20 || i == 23
}

/// The lines of a fresh audio injection file but for the six that assign a setting.
proof fn lemma_audio_silent_lines(c: AudioInjectView, i: int)
    requires
        0 <= i < 24,
        !assigns(i),
    ensures
        is_silent_line(audio_inject_lines(c)[i]),
{
    reveal_strlit("");
    reveal_strlit("## Settings file was created by plugin Audio Injection");
    reveal_strlit("## Plugin GUID: com.bassy.fm26.audioinject");
    reveal_strlit("[General]");
    reveal_strlit("## Master toggle for audio injection");
    reveal_strlit("## Master volume (0.0 to 1.0)");
    reveal_strlit("## Enable verbose logging");
    reveal_strlit("[Audio]");
    reveal_strlit("## Music channel volume (anthems, halftime)");
    reveal_strlit("## Event channel volume (goals, reactions)");
    reveal_strlit("## Loop music tracks");
}

/// The six keys of an audio injection file.
proof fn lemma_audio_keys()
    ensures
        is_key("EnableAudioInjection"@),
        is_key("MasterVolume"@),
        is_key("DebugMode"@),
        is_key("MusicVolume"@),
        is_key("EventVolume"@),
        is_key("LoopMusic"@),
{
    reveal_strlit("EnableAudioInjection");
    reveal_strlit("MasterVolume");
    reveal_strlit("DebugMode");
    reveal_strlit("MusicVolume");
    reveal_strlit("EventVolume");
    reveal_strlit("LoopMusic");
}

/// What a fresh audio injection file says, line by line.
proof fn lemma_audio_document(c: AudioInjectView)
    requires
        is_plain_value(c.master_volume),
        is_plain_value(c.music_volume),
        is_plain_value(c.event_volume),
    ensures
        ({
            let doc = document_of(terminated(audio_inject_lines(c)));
            &&& doc.len() == 24
            &&& forall|i: int| 0 <= i < 24 && !assigns(i) ==> !(#[trigger] doc[i] is KeyValue)
            &&& doc[6] == (LineView::KeyValue {
                key: "EnableAudioInjection"@,
                value: bool_text(c.enable_audio_injection),
            })
            &&& doc[9] == (LineView::KeyValue { key: "MasterVolume"@, value: c.master_volume })
            &&& doc[12] == (LineView::KeyValue { key: "DebugMode"@, value: bool_text(c.debug_mode) })
            &&& doc[17] == (LineView::KeyValue { key: "MusicVolume"@, value: c.music_volume })
            &&& doc[20] == (LineView::KeyValue { key: "EventVolume"@, value: c.event_volume })
            &&& doc[23] == (LineView::KeyValue { key: "LoopMusic"@, value: bool_text(c.loop_music) })
        }),
{
    let lines = audio_inject_lines(c);
    lemma_audio_keys();
    lemma_bool_text(c.enable_audio_injection);
    lemma_bool_text(c.debug_mode);
    lemma_bool_text(c.loop_music);
    lemma_setting("EnableAudioInjection"@, bool_text(c.enable_audio_injection));
    lemma_setting("MasterVolume"@, c.master_volume);
    lemma_setting("DebugMode"@, bool_text(c.debug_mode));
    lemma_setting("MusicVolume"@, c.music_volume);
    lemma_setting("EventVolume"@, c.event_volume);
    lemma_setting("LoopMusic"@, bool_text(c.loop_music));
    assert forall|i: int| 0 <= i < lines.len() implies is_plain_line(#[trigger] lines[i]) by {
        if !assigns(i) {
            lemma_audio_silent_lines(c, i);
        }
    }
    lemma_split_terminated(lines);
    let doc = document_of(terminated(lines));
    assert forall|i: int| 0 <= i < 24 && !assigns(i) implies !(#[trigger] doc[i] is KeyValue) by {
        lemma_audio_silent_lines(c, i);
        lemma_silent_line(lines[i]);
    }
}

/// The settings of the audio injection plugin survive being written and read, where
/// the volumes are plain values: reading the fresh file of such settings gives them.
pub proof fn lemma_audio_inject_round_trip(c: AudioInjectView)
    requires
        is_plain_value(c.master_volume),
        is_plain_value(c.music_volume),
        is_plain_value(c.event_volume),
    ensures
        audio_inject_of(document_of(terminated(audio_inject_lines(c)))) == c,
{
    let doc = document_of(terminated(audio_inject_lines(c)));
    lemma_audio_document(c);
    reveal_strlit("EnableAudioInjection");
    reveal_strlit("MasterVolume");
    reveal_strlit("DebugMode");
    reveal_strlit("MusicVolume");
    reveal_strlit("EventVolume");
    reveal_strlit("LoopMusic");
    assert("MasterVolume"@[1] == 'a');
    assert("MusicVolume"@[1] == 'u');
    assert("EventVolume"@[0] == 'E');
    assert("DebugMode"@[0] == 'D');
    assert("LoopMusic"@[0] == 'L');
    lemma_last_value_is(doc, "EnableAudioInjection"@, 6);
    lemma_last_value_is(doc, "MasterVolume"@, 9);
    lemma_last_value_is(doc, "DebugMode"@, 12);
    lemma_last_value_is(doc, "MusicVolume"@, 17);
    lemma_last_value_is(doc, "EventVolume"@, 20);
    lemma_last_value_is(doc, "LoopMusic"@, 23);
    lemma_bool_text(c.enable_audio_injection);
    lemma_bool_text(c.debug_mode);
    lemma_bool_text(c.loop_music);
}

/// The default settings of the audio injection plugin survive being written and read.
pub proof fn lemma_audio_inject_defaults_round_trip()
    ensures
        audio_inject_of(document_of(terminated(audio_inject_lines(AudioInjectConfig::defaults()))))
            == AudioInjectConfig::defaults(),
{
    reveal_strlit("0.7");
    reveal_strlit("1");
    lemma_trim_is("0.7"@, 0, 3);
    assert("0.7"@.subrange(0, 3) == "0.7"@);
    lemma_trim_is("1"@, 0, 1);
    assert("1"@.subrange(0, 1) == "1"@);
    lemma_audio_inject_round_trip(AudioInjectConfig::defaults());
}

/// The lines of a fresh stadium injection file but for the six that assign a setting.
proof fn lemma_stadium_silent_lines(c: StadiumInjectionView, i: int)
    requires
        0 <= i < 24,
        !assigns(i),
    ensures
        is_silent_line(stadium_injection_lines(c)[i]),
{
    reveal_strlit("");
    reveal_strlit("## Settings file was created by plugin Stadium Injection");
    reveal_strlit("## Plugin GUID: com.bassy.fm26.stadiuminjection");
    reveal_strlit("[General]");
    reveal_strlit("## Enable or disable custom stadium injection entirely");
    reveal_strlit(
        "## If true, replace ALL stadiums. If false, only replace stadiums listed in StadiumMappings",
    );
    reveal_strlit("## Default stadium bundle to use when ReplaceAllStadiums is true");
    reveal_strlit("[PitchDimensions]");
    reveal_strlit(
        "## If true, use the custom pitch dimensions below for goal/corner flag placement",
    );
    reveal_strlit("## Pitch length in meters (goal-to-goal distance). Standard FIFA: 105m");
    reveal_strlit("## Pitch width in meters (sideline-to-sideline distance). Standard FIFA: 68m");
}

/// The six keys of a stadium injection file.
proof fn lemma_stadium_keys()
    ensures
        is_key("EnableCustomStadiums"@),
        is_key("ReplaceAllStadiums"@),
        is_key("DefaultBundle"@),
        is_key("UseCustomPitchDimensions"@),
        is_key("PitchLength"@),
        is_key("PitchWidth"@),
{
    reveal_strlit("EnableCustomStadiums");
    reveal_strlit("ReplaceAllStadiums");
    reveal_strlit("DefaultBundle");
    reveal_strlit("UseCustomPitchDimensions");
    reveal_strlit("PitchLength");
    reveal_strlit("PitchWidth");
}

/// What a fresh stadium injection file says, line by line.
proof fn lemma_stadium_document(c: StadiumInjectionView)
    requires
        is_plain_value(c.default_bundle),
        i32::MIN <= c.pitch_length <= i32::MAX,
        i32::MIN <= c.pitch_width <= i32::MAX,
    ensures
        ({
            let doc = document_of(terminated(stadium_injection_lines(c)));
            &&& doc.len() == 24
            &&& forall|i: int| 0 <= i < 24 && !assigns(i) ==> !(#[trigger] doc[i] is KeyValue)
            &&& doc[6] == (LineView::KeyValue {
                key: "EnableCustomStadiums"@,
                value: bool_text(c.enable_custom_stadiums),
            })
            &&& doc[9] == (LineView::KeyValue {
                key: "ReplaceAllStadiums"@,
                value: bool_text(c.replace_all_stadiums),
            })
            &&& doc[12] == (LineView::KeyValue { key: "DefaultBundle"@, value: c.default_bundle })
            &&& doc[17] == (LineView::KeyValue {
                key: "UseCustomPitchDimensions"@,
                value: bool_text(c.use_custom_pitch_dimensions),
            })
            &&& doc[20] == (LineView::KeyValue {
                key: "PitchLength"@,
                value: int_text(c.pitch_length),
            })
            &&& doc[23] == (LineView::KeyValue { key: "PitchWidth"@, value: int_text(c.pitch_width) })
        }),
{
    let lines = stadium_injection_lines(c);
    lemma_stadium_keys();
    lemma_bool_text(c.enable_custom_stadiums);
    lemma_bool_text(c.replace_all_stadiums);
    lemma_bool_text(c.use_custom_pitch_dimensions);
    lemma_int_text(c.pitch_length);
    lemma_int_text(c.pitch_width);
    lemma_setting("EnableCustomStadiums"@, bool_text(c.enable_custom_stadiums));
    lemma_setting("ReplaceAllStadiums"@, bool_text(c.replace_all_stadiums));
    lemma_setting("DefaultBundle"@, c.default_bundle);
    lemma_setting("UseCustomPitchDimensions"@, bool_text(c.use_custom_pitch_dimensions));
    lemma_setting("PitchLength"@, int_text(c.pitch_length));
    lemma_setting("PitchWidth"@, int_text(c.pitch_width));
    assert forall|i: int| 0 <= i < lines.len() implies is_plain_line(#[trigger] lines[i]) by {
        if !assigns(i) {
            lemma_stadium_silent_lines(c, i);
        }
    }
    lemma_split_terminated(lines);
    let doc = document_of(terminated(lines));
    assert forall|i: int| 0 <= i < 24 && !assigns(i) implies !(#[trigger] doc[i] is KeyValue) by {
        lemma_stadium_silent_lines(c, i);
        lemma_silent_line(lines[i]);
    }
}

/// A reader that reads the whole number `n`, written in decimal, as `n`.
pub open spec fn reads_back<F: Fn(&str) -> i32>(read: F, n: int) -> bool {
    forall|t: &str, r: i32| t@ == int_text(n) && #[trigger] read.ensures((t,), r) ==> r == n
}

/// The settings of the stadium injection plugin survive being written and read, where
/// the default bundle is a plain value and the reader reads the two pitch dimensions
/// back: whatever reading the fresh file of such settings gives, it is those settings.
pub proof fn lemma_stadium_injection_round_trip<F: Fn(&str) -> i32>(
    c: StadiumInjectionView,
    read_number: F,
    r: StadiumInjectionConfig,
)
    requires
        is_plain_value(c.default_bundle),
        i32::MIN <= c.pitch_length <= i32::MAX,
        i32::MIN <= c.pitch_width <= i32::MAX,
        reads_back(read_number, c.pitch_length),
        reads_back(read_number, c.pitch_width),
        reads_stadium_injection(
            document_of(terminated(stadium_injection_lines(c))),
            read_number,
            r,
        ),
    ensures
        r@ == c,
{
    let doc = document_of(terminated(stadium_injection_lines(c)));
    lemma_stadium_document(c);
    reveal_strlit("EnableCustomStadiums");
    reveal_strlit("ReplaceAllStadiums");
    reveal_strlit("DefaultBundle");
    reveal_strlit("UseCustomPitchDimensions");
    reveal_strlit("PitchLength");
    reveal_strlit("PitchWidth");
    assert("PitchLength"@[5] == 'L');
    assert("PitchWidth"@[5] == 'W');
    lemma_last_value_is(doc, "EnableCustomStadiums"@, 6);
    lemma_last_value_is(doc, "ReplaceAllStadiums"@, 9);
    lemma_last_value_is(doc, "DefaultBundle"@, 12);
    lemma_last_value_is(doc, "UseCustomPitchDimensions"@, 17);
    lemma_last_value_is(doc, "PitchLength"@, 20);
    lemma_last_value_is(doc, "PitchWidth"@, 23);
    lemma_bool_text(c.enable_custom_stadiums);
    lemma_bool_text(c.replace_all_stadiums);
    lemma_bool_text(c.use_custom_pitch_dimensions);
}

/// The default settings of the stadium injection plugin survive being written and
/// read by a reader that reads 105 and 68 back.
pub proof fn lemma_stadium_injection_defaults_round_trip<F: Fn(&str) -> i32>(
    read_number: F,
    r: StadiumInjectionConfig,
)
    requires
        reads_back(read_number, 105),
        reads_back(read_number, 68),
        reads_stadium_injection(
            document_of(terminated(stadium_injection_lines(StadiumInjectionConfig::defaults()))),
            read_number,
            r,
        ),
    ensures
        r@ == StadiumInjectionConfig::defaults(),
{
    lemma_trim_is(Seq::<char>::empty(), 0, 0);
    lemma_stadium_injection_round_trip(StadiumInjectionConfig::defaults(), read_number, r);
}

} // verus!
