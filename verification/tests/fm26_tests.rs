use fm26_mod_manager::fm26::{
    candidate_paths, check_bepinex_installed, detect_fm26_paths, find_steam_library_folders,
    get_plugin_status, inspect_fm26_install, is_valid_fm26_dir, join_path, plugin_paths,
    InspectError, Platform, Probe, GAME_DIR,
};
use fm26_mod_manager::logs::{get_log_info, FileMetadata, LogInfo};
use fm26_mod_manager::models::{BepInExStatus, Fm26Installation, PluginStatus};

fn layout(root: &str) -> Fm26Installation {
    inspect_fm26_install(root.to_string(), true, true, '/').unwrap()
}

#[test]
fn joining_agrees_with_the_standard_library_here() {
    let separator = std::path::MAIN_SEPARATOR;
    for base in ["", "/", "/games/fm", "/games/fm/", "relative", "a b/c", "/games//"] {
        for child in ["BepInEx", "plugins", "StadiumInjection/StadiumInjection.dll", "LogOutput.log"] {
            let expected = std::path::Path::new(base).join(child).to_string_lossy().to_string();
            assert_eq!(join_path(base, child, separator), expected, "{:?} {:?}", base, child);
        }
    }
}

#[test]
fn joining_with_a_backslash() {
    assert_eq!(join_path("C:\\Games\\FM", "BepInEx", '\\'), "C:\\Games\\FM\\BepInEx");
    assert_eq!(join_path("C:\\Games\\FM\\", "BepInEx", '\\'), "C:\\Games\\FM\\BepInEx");
    assert_eq!(join_path("C:/Games/FM/", "BepInEx", '\\'), "C:/Games/FM/BepInEx");
    assert_eq!(join_path("C:/Games/FM", "BepInEx", '\\'), "C:/Games/FM\\BepInEx");
    assert_eq!(join_path("", "BepInEx", '\\'), "BepInEx");
}

#[test]
fn a_root_that_is_missing_or_no_directory_is_refused() {
    assert_eq!(
        inspect_fm26_install("/nowhere".to_string(), false, false, '/'),
        Err(InspectError::DoesNotExist)
    );
    assert_eq!(
        inspect_fm26_install("/nowhere".to_string(), false, true, '/'),
        Err(InspectError::DoesNotExist)
    );
    assert_eq!(
        inspect_fm26_install("/a/file".to_string(), true, false, '/'),
        Err(InspectError::NotADirectory)
    );
}

#[test]
fn every_path_of_a_layout_lies_under_its_root() {
    let install = layout("/games/fm26");
    assert_eq!(
        install,
        Fm26Installation {
            root_path: "/games/fm26".to_string(),
            bep_in_ex_path: "/games/fm26/BepInEx".to_string(),
            plugins_path: "/games/fm26/BepInEx/plugins".to_string(),
            custom_stadium_path: "/games/fm26/BepInEx/plugins/CustomStadium".to_string(),
            audio_inject_path: "/games/fm26/BepInEx/plugins/AudioInject".to_string(),
            config_path: "/games/fm26/BepInEx/config".to_string(),
            log_path: "/games/fm26/BepInEx/LogOutput.log".to_string(),
        }
    );
    for root in ["/games/fm26/", "", "C:\\FM"] {
        let install = inspect_fm26_install(root.to_string(), true, true, '\\').unwrap();
        for path in [
            &install.bep_in_ex_path,
            &install.plugins_path,
            &install.custom_stadium_path,
            &install.audio_inject_path,
            &install.config_path,
            &install.log_path,
        ] {
            assert!(path.starts_with(root) && path.len() > root.len());
        }
    }
}

#[test]
fn the_three_known_plugins() {
    let install = layout("/fm");
    assert_eq!(
        plugin_paths(&install, '/'),
        vec![
            "/fm/BepInEx/plugins/StadiumInjection/StadiumInjection.dll",
            "/fm/BepInEx/plugins/AudioInject/AudioInject.dll",
            "/fm/BepInEx/plugins/CrowdInject/CrowdInject.dll",
        ]
    );
    assert_eq!(
        get_plugin_status(&install, '/', [true, false, true]),
        vec![
            PluginStatus {
                name: "StadiumInjection".to_string(),
                path: "/fm/BepInEx/plugins/StadiumInjection/StadiumInjection.dll".to_string(),
                installed: true,
            },
            PluginStatus {
                name: "AudioInject".to_string(),
                path: "/fm/BepInEx/plugins/AudioInject/AudioInject.dll".to_string(),
                installed: false,
            },
            PluginStatus {
                name: "CrowdInject".to_string(),
                path: "/fm/BepInEx/plugins/CrowdInject/CrowdInject.dll".to_string(),
                installed: true,
            },
        ]
    );
}

#[test]
fn plugins_count_only_where_the_runtime_is() {
    let install = layout("/fm");
    assert_eq!(
        check_bepinex_installed(install.clone(), true, true, [true, false, true]),
        BepInExStatus {
            installed: true,
            path: "/fm/BepInEx".to_string(),
            has_plugins: true,
            plugin_count: 2,
        }
    );
    assert_eq!(check_bepinex_installed(install.clone(), true, true, [true, true, true]).plugin_count, 3);
    let none = check_bepinex_installed(install.clone(), true, true, [false, false, false]);
    assert!(none.installed && !none.has_plugins && none.plugin_count == 0);
    let no_dir = check_bepinex_installed(install.clone(), true, false, [true, true, true]);
    assert!(no_dir.installed && !no_dir.has_plugins && no_dir.plugin_count == 0);
    let absent = check_bepinex_installed(install, false, true, [true, true, true]);
    assert!(!absent.installed && !absent.has_plugins && absent.plugin_count == 0);
}

#[test]
fn a_game_directory_holds_an_executable_or_data() {
    assert!(!is_valid_fm26_dir(false, false, false));
    assert!(is_valid_fm26_dir(true, false, false));
    assert!(is_valid_fm26_dir(false, true, false));
    assert!(is_valid_fm26_dir(false, false, true));
    assert!(is_valid_fm26_dir(true, true, true));
}

#[test]
fn library_folders_are_read_from_a_library_file() {
    let content = "\"libraryfolders\"\n{\n\t\"0\"\n\t{\n\t\t\"path\"\t\t\"C:\\\\Program Files (x86)\\\\Steam\"\n\t\t\"label\"\t\t\"\"\n\t}\n\t\"1\"\n\t{\n\t\t\"path\"\t\t\"D:\\\\SteamLibrary\"\n\t}\n}\n";
    assert_eq!(
        find_steam_library_folders(content),
        Some(vec!["C:\\Program Files (x86)\\Steam".to_string(), "D:\\SteamLibrary".to_string()])
    );
}

#[test]
fn lines_that_name_no_folder_are_passed_over() {
    assert_eq!(find_steam_library_folders(""), None);
    assert_eq!(find_steam_library_folders("\"label\" \"x\"\n\"path\"\n\"path\" \"unclosed\n"), None);
    assert_eq!(
        find_steam_library_folders("  \"path\"\"a\\\\\\b\\\\\\\\c\" trailing \"more\"\n\"Path\" \"no\"\nx \"path\" \"no\"\n\"path\"x\"\"\n"),
        Some(vec!["a\\\\b\\\\c".to_string(), "".to_string()])
    );
}

#[test]
fn unescaping_agrees_with_replacing_pairs() {
    for raw in ["", "\\", "\\\\", "\\\\\\", "\\\\\\\\", "a\\\\b\\c\\\\\\d", "C:\\\\x\\\\y"] {
        let line = format!("\"path\" \"{}\"", raw);
        assert_eq!(
            find_steam_library_folders(&line),
            Some(vec![raw.replace("\\\\", "\\")]),
            "{:?}",
            raw
        );
    }
}

#[test]
fn a_missing_log_file() {
    assert_eq!(
        get_log_info("/fm/BepInEx/LogOutput.log".to_string(), None),
        LogInfo {
            exists: false,
            size_bytes: 0,
            modified: None,
            path: "/fm/BepInEx/LogOutput.log".to_string(),
        }
    );
}

#[test]
fn a_log_file_with_the_time_of_its_last_change() {
    let metadata = FileMetadata { size_bytes: 2048, modified: Some(1431648000) };
    assert_eq!(
        get_log_info("log".to_string(), Some(metadata)),
        LogInfo {
            exists: true,
            size_bytes: 2048,
            modified: Some("2015-05-15 00:00:00".to_string()),
            path: "log".to_string(),
        }
    );
    let metadata = FileMetadata { size_bytes: 0, modified: Some(-1) };
    assert_eq!(
        get_log_info("log".to_string(), Some(metadata)).modified,
        Some("1969-12-31 23:59:59".to_string())
    );
    let metadata = FileMetadata { size_bytes: 7, modified: None };
    assert_eq!(get_log_info("log".to_string(), Some(metadata)).modified, None);
    let metadata = FileMetadata { size_bytes: 7, modified: Some(i64::MAX) };
    assert_eq!(get_log_info("log".to_string(), Some(metadata)).modified, None);
}

#[test]
fn places_at_which_the_game_is_looked_for() {
    let none: Vec<String> = Vec::new();
    assert_eq!(
        candidate_paths(Platform::Linux, Some("/home/me"), &none),
        vec![
            "/home/me/.steam/steam/steamapps/common/Football Manager 2026",
            "/home/me/.local/share/Steam/steamapps/common/Football Manager 2026",
        ]
    );
    assert_eq!(
        candidate_paths(Platform::MacOs, Some("/Users/me/"), &none),
        vec!["/Users/me/Library/Application Support/Steam/steamapps/common/Football Manager 2026"]
    );
    assert_eq!(candidate_paths(Platform::Linux, None, &none), none);
    assert_eq!(candidate_paths(Platform::MacOs, None, &vec!["x".to_string()]), none);
    let libraries = vec!["G:\\Games".to_string(), "H:\\Lib\\".to_string()];
    let windows = candidate_paths(Platform::Windows, Some("ignored"), &libraries);
    assert_eq!(windows.len(), 14);
    assert_eq!(
        windows[0],
        "C:\\Program Files (x86)\\Steam\\steamapps\\common\\Football Manager 2026"
    );
    assert_eq!(windows[7], "F:\\SteamLibrary\\steamapps\\common\\Football Manager 2026");
    assert_eq!(windows[8], "C:\\Program Files\\Epic Games\\FootballManager2026");
    assert_eq!(windows[11], "E:\\Epic Games\\FootballManager2026");
    assert_eq!(windows[12], "G:\\Games\\steamapps\\common\\Football Manager 2026");
    assert_eq!(windows[13], "H:\\Lib\\steamapps\\common\\Football Manager 2026");
    assert_eq!(GAME_DIR, "Football Manager 2026");
}

#[test]
fn the_game_is_found_where_it_exists_and_looks_like_itself() {
    let probe = |path: &str, exists: bool, exe: bool, named: bool, data: bool| Probe {
        path: path.to_string(),
        exists,
        has_fm_exe: exe,
        has_named_exe: named,
        has_data_dir: data,
    };
    let probes = vec![
        probe("a", true, true, false, false),
        probe("b", false, true, true, true),
        probe("c", true, false, false, false),
        probe("d", true, false, true, false),
        probe("a", true, false, false, true),
        probe("e", true, false, false, true),
        probe("d", true, true, true, true),
        probe("c", true, true, false, false),
    ];
    assert_eq!(detect_fm26_paths(&probes), vec!["a", "d", "e", "c"]);
    assert_eq!(detect_fm26_paths(&Vec::new()), Vec::<String>::new());
}
