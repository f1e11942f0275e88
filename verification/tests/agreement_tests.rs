use fm26_mod_manager::adboards::{parse_adboards_config, update_adboards_in_config};
use fm26_mod_manager::archive::{resolve_entry, EntryAction};
use fm26_mod_manager::configs::{
    parse_audio_inject_config, parse_crowd_inject_config, parse_stadium_injection_config,
};
use fm26_mod_manager::models::AdboardsConfig;

/// A small generator of numbers, the same on every run.
struct Numbers(u64);

impl Numbers {
    fn next(&mut self, below: usize) -> usize {
        self.0 = self.0.wrapping_mul(6364136223846793005).wrapping_add(1442695040888963407);
        ((self.0 >> 33) as usize) % below
    }
}

const LINES: [&str; 40] = [
    "",
    " ",
    "# note",
    "; note",
    "## If true, hide all adboards in the stadium.",
    "[General]",
    "[Adboards]",
    "  [Adboards]  ",
    "[ Adboards ]",
    "[adboards]",
    "[Adboards",
    "[]",
    "DisableAdboards = true",
    "DisableAdboards=false",
    "  DisableAdboards = On ",
    "DisableAdboards",
    "DisableAdboardsLater = 1",
    "disableadboards = true",
    "x DisableAdboards = true",
    "EnableCustomStadiums = false",
    "ReplaceAllStadiums = YES",
    "DefaultBundle =  my stadium.bundle ",
    "DefaultBundle =",
    "UseCustomPitchDimensions = 1",
    "PitchLength = 110",
    "PitchLength = 98.6",
    "PitchWidth = wide",
    "PitchWidth = -7e1",
    "EnableAudioInjection = off",
    "MasterVolume = 0.35",
    "MusicVolume = loud",
    "EventVolume = 1e-1",
    "LoopMusic = no",
    "CrowdDensity = 55",
    "CrowdDensity = 5 5",
    "CrowdDensity = +2147483648",
    "CrowdSkipRate = -0",
    "DebugMode = tRuE",
    "UseTeamColors = = true",
    "loose text\ttail\r",
];

fn text(numbers: &mut Numbers) -> String {
    let count = numbers.next(12);
    let mut out = String::new();
    for i in 0..count {
        out.push_str(LINES[numbers.next(LINES.len())]);
        let last = i + 1 == count;
        match numbers.next(if last { 4 } else { 3 }) {
            0 | 1 => out.push('\n'),
            2 => out.push_str("\r\n"),
            _ => {}
        }
    }
    out
}

fn truth(value: &str) -> bool {
    matches!(value.to_lowercase().as_str(), "true" | "1" | "yes" | "on")
}

fn fraction(value: &str) -> f32 {
    value.parse().unwrap_or(0.0)
}

fn metres(value: &str) -> i32 {
    fraction(value) as i32
}

/// The assignments of a text, as the plugins read them.
fn assignments(content: &str) -> Vec<(String, String)> {
    let mut found = Vec::new();
    for line in content.lines() {
        let line = line.trim();
        if line.is_empty() || line.starts_with('#') || line.starts_with(';') {
            continue;
        }
        if line.starts_with('[') && line.ends_with(']') {
            continue;
        }
        if let Some((key, value)) = line.split_once('=') {
            found.push((key.trim().to_string(), value.trim().to_string()));
        }
    }
    found
}

/// Whether a trimmed line assigns the setting: its key is the key of the setting.
fn assigns_setting(trimmed: &str) -> bool {
    if trimmed.is_empty() || trimmed.starts_with('#') || trimmed.starts_with(';') {
        return false;
    }
    if trimmed.starts_with('[') && trimmed.ends_with(']') {
        return false;
    }
    match trimmed.split_once('=') {
        Some((key, _)) => key.trim() == "DisableAdboards",
        None => false,
    }
}

/// The merge told with three flags in place of one state.
fn merge_by_flags(existing: &str, value: bool) -> String {
    let setting = format!("DisableAdboards = {}", if value { "true" } else { "false" });
    let mut lines: Vec<String> = Vec::new();
    let mut found_section = false;
    let mut found_setting = false;
    let mut in_section = false;
    for line in existing.lines() {
        let trimmed = line.trim();
        if trimmed.starts_with('[') && trimmed.ends_with(']') {
            if in_section && !found_setting {
                lines.push(setting.clone());
                lines.push(String::new());
                found_setting = true;
            }
            in_section = trimmed == "[Adboards]";
            if in_section {
                found_section = true;
            }
        }
        if in_section && assigns_setting(trimmed) {
            lines.push(setting.clone());
            found_setting = true;
            continue;
        }
        lines.push(line.to_string());
    }
    if in_section && !found_setting {
        lines.push(setting.clone());
    }
    if !found_section {
        lines.push(String::new());
        lines.push("[Adboards]".to_string());
        lines.push(String::new());
        lines.push("## If true, hide all adboards in the stadium.".to_string());
        lines.push(setting);
    }
    lines.join("\n")
}

#[test]
fn merging_agrees_with_the_telling_by_flags() {
    let mut numbers = Numbers(7);
    for _ in 0..4000 {
        let existing = text(&mut numbers);
        for value in [true, false] {
            let config = AdboardsConfig { disable_adboards: value };
            assert_eq!(
                update_adboards_in_config(&existing, &config),
                merge_by_flags(&existing, value),
                "{:?}",
                existing
            );
        }
    }
}

#[test]
fn merging_is_idempotent_on_texts_that_keep_their_lines() {
    let mut numbers = Numbers(11);
    let mut held = 0;
    for _ in 0..4000 {
        let existing = text(&mut numbers);
        let config = AdboardsConfig { disable_adboards: true };
        let once = update_adboards_in_config(&existing, &config);
        let merged_lines: Vec<&str> = once.split('\n').collect();
        let keeps_its_lines = once.lines().collect::<Vec<&str>>() == merged_lines;
        let twice = update_adboards_in_config(&once, &config);
        if keeps_its_lines {
            assert_eq!(twice, once, "{:?}", existing);
            held += 1;
        } else {
            assert_ne!(twice, once, "{:?}", existing);
        }
    }
    assert!(held > 1000);
}

#[test]
fn reading_agrees_with_reading_by_the_standard_library() {
    let mut numbers = Numbers(3);
    for _ in 0..4000 {
        let content = text(&mut numbers);
        let found = assignments(&content);
        let last = |key: &str| -> Option<String> {
            found.iter().rev().find(|(k, _)| k == key).map(|(_, v)| v.clone())
        };

        let stadium = parse_stadium_injection_config(&content, metres);
        assert_eq!(
            stadium.enable_custom_stadiums,
            last("EnableCustomStadiums").map_or(true, |v| truth(&v))
        );
        assert_eq!(
            stadium.replace_all_stadiums,
            last("ReplaceAllStadiums").map_or(false, |v| truth(&v))
        );
        assert_eq!(stadium.default_bundle, last("DefaultBundle").unwrap_or_default());
        assert_eq!(
            stadium.use_custom_pitch_dimensions,
            last("UseCustomPitchDimensions").map_or(false, |v| truth(&v))
        );
        assert_eq!(stadium.pitch_length, last("PitchLength").map_or(105, |v| metres(&v)));
        assert_eq!(stadium.pitch_width, last("PitchWidth").map_or(68, |v| metres(&v)));

        let audio = parse_audio_inject_config(&content);
        assert_eq!(
            audio.enable_audio_injection,
            last("EnableAudioInjection").map_or(true, |v| truth(&v))
        );
        assert_eq!(
            fraction(&audio.master_volume),
            last("MasterVolume").map_or(0.7, |v| fraction(&v))
        );
        assert_eq!(audio.debug_mode, last("DebugMode").map_or(false, |v| truth(&v)));
        assert_eq!(
            fraction(&audio.music_volume),
            last("MusicVolume").map_or(1.0, |v| fraction(&v))
        );
        assert_eq!(
            fraction(&audio.event_volume),
            last("EventVolume").map_or(1.0, |v| fraction(&v))
        );
        assert_eq!(audio.loop_music, last("LoopMusic").map_or(true, |v| truth(&v)));

        let crowd = parse_crowd_inject_config(&content);
        assert_eq!(
            crowd.crowd_density,
            last("CrowdDensity").map_or(100, |v| v.parse().unwrap_or(100))
        );
        assert_eq!(
            crowd.crowd_skip_rate,
            last("CrowdSkipRate").map_or(4, |v| v.parse().unwrap_or(4))
        );
        assert_eq!(crowd.debug_mode, last("DebugMode").map_or(false, |v| truth(&v)));
        assert_eq!(crowd.use_team_colors, last("UseTeamColors").map_or(true, |v| truth(&v)));

        let adboards = parse_adboards_config(&content);
        assert_eq!(
            adboards.disable_adboards,
            last("DisableAdboards").map_or(false, |v| truth(&v))
        );
    }
}

#[test]
fn paths_of_entries_never_lead_outside() {
    let pieces = ["a", "b.txt", "..", ".", "", "RuntimePack", "c:", "x y", "...", "\\", "/"];
    let mut numbers = Numbers(5);
    for _ in 0..4000 {
        let mut name = String::new();
        for _ in 0..numbers.next(6) {
            name.push_str(pieces[numbers.next(pieces.len())]);
            match numbers.next(4) {
                0 | 1 => name.push('/'),
                2 => name.push('\\'),
                _ => {}
            }
        }
        let has_parent = name.split(['/', '\\']).any(|segment| segment == "..");
        let rooted = name.starts_with('/') || name.starts_with('\\');
        match resolve_entry(&name, "RuntimePack/") {
            Err(_) => assert!(has_parent || rooted || name.starts_with("c:"), "{:?}", name),
            Ok(EntryAction::Skip) => assert!(!has_parent && !rooted, "{:?}", name),
            Ok(EntryAction::CreateDir { path }) | Ok(EntryAction::WriteFile { path }) => {
                assert!(!has_parent && !rooted, "{:?}", name);
                assert!(!path.is_empty());
                for segment in path.split('/') {
                    assert!(!segment.is_empty() && segment != "." && segment != "..");
                    assert!(!segment.contains('\\'));
                }
                let segments: Vec<&str> = name
                    .split(['/', '\\'])
                    .filter(|segment| !segment.is_empty() && *segment != ".")
                    .collect();
                let mut plain = segments.join("/");
                if name.ends_with('/') || name.ends_with('\\') {
                    plain.push('/');
                }
                let rest = plain.strip_prefix("RuntimePack/").unwrap_or(&plain);
                assert_eq!(path, rest.trim_end_matches('/'), "{:?}", name);
            }
        }
    }
}
