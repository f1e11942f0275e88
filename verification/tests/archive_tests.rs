use fm26_mod_manager::archive::{
    after_step, check_archive, choose_archive, count_files, plan_extraction, plan_rotation,
    resolve_entry, EntryAction, InstallError, InstallStep, RotationPlan, BACKUP_PREFIX,
    CONTENT_PACK_PREFIX, RUNTIME_DIR, RUNTIME_PACK_PREFIX,
};
use fm26_mod_manager::clock::{backup_stamp, WallTime};
use fm26_mod_manager::models::{DirectoryEntry, EntryKind};

fn write(path: &str) -> Result<EntryAction, InstallError> {
    Ok(EntryAction::WriteFile { path: path.to_string() })
}

fn dir(path: &str) -> Result<EntryAction, InstallError> {
    Ok(EntryAction::CreateDir { path: path.to_string() })
}

fn unsafe_path() -> Result<EntryAction, InstallError> {
    Err(InstallError::UnsafePath)
}

fn entry(name: &str, kind: EntryKind) -> DirectoryEntry {
    DirectoryEntry { name: name.to_string(), kind }
}

#[test]
fn the_packs_folder_is_taken_off() {
    assert_eq!(RUNTIME_PACK_PREFIX, "RuntimePack/");
    assert_eq!(CONTENT_PACK_PREFIX, "CustomStadium/");
    assert_eq!(resolve_entry("RuntimePack/BepInEx/core/a.dll", RUNTIME_PACK_PREFIX), write("BepInEx/core/a.dll"));
    assert_eq!(resolve_entry("RuntimePack/BepInEx/", RUNTIME_PACK_PREFIX), dir("BepInEx"));
    assert_eq!(resolve_entry("CustomStadium/x.bundle", CONTENT_PACK_PREFIX), write("x.bundle"));
    assert_eq!(resolve_entry("other/x.bundle", CONTENT_PACK_PREFIX), write("other/x.bundle"));
    assert_eq!(resolve_entry("RuntimePack", RUNTIME_PACK_PREFIX), write("RuntimePack"));
    assert_eq!(resolve_entry("winhttp.dll", RUNTIME_PACK_PREFIX), write("winhttp.dll"));
    assert_eq!(
        resolve_entry("RuntimePack/RuntimePack/a", RUNTIME_PACK_PREFIX),
        write("RuntimePack/a")
    );
}

#[test]
fn the_packs_folder_is_taken_off_the_plain_name() {
    assert_eq!(resolve_entry("./RuntimePack/a", RUNTIME_PACK_PREFIX), write("a"));
    assert_eq!(resolve_entry("RuntimePack\\a", RUNTIME_PACK_PREFIX), write("a"));
    assert_eq!(resolve_entry("RuntimePack\\sub\\", RUNTIME_PACK_PREFIX), dir("sub"));
    assert_eq!(resolve_entry(".//RuntimePack/./b/c.txt", RUNTIME_PACK_PREFIX), write("b/c.txt"));
    assert_eq!(resolve_entry("x/RuntimePack/a", RUNTIME_PACK_PREFIX), write("x/RuntimePack/a"));
    assert_eq!(resolve_entry("RuntimePackage/a", RUNTIME_PACK_PREFIX), write("RuntimePackage/a"));
    assert_eq!(resolve_entry("RuntimePack\\", RUNTIME_PACK_PREFIX), Ok(EntryAction::Skip));
}

#[test]
fn the_packs_folder_itself_is_skipped() {
    assert_eq!(resolve_entry("RuntimePack/", RUNTIME_PACK_PREFIX), Ok(EntryAction::Skip));
    assert_eq!(resolve_entry("CustomStadium/", CONTENT_PACK_PREFIX), Ok(EntryAction::Skip));
    assert_eq!(resolve_entry("", RUNTIME_PACK_PREFIX), Ok(EntryAction::Skip));
    assert_eq!(resolve_entry("./", RUNTIME_PACK_PREFIX), Ok(EntryAction::Skip));
    assert_eq!(resolve_entry("RuntimePack/./", RUNTIME_PACK_PREFIX), Ok(EntryAction::Skip));
}

#[test]
fn empty_segments_and_dots_are_left_out() {
    assert_eq!(resolve_entry("a//b/./c.txt", ""), write("a/b/c.txt"));
    assert_eq!(resolve_entry("RuntimePack//x", RUNTIME_PACK_PREFIX), write("x"));
    assert_eq!(resolve_entry("a\\b\\c.txt", ""), write("a/b/c.txt"));
    assert_eq!(resolve_entry("a\\b\\", ""), dir("a/b"));
    assert_eq!(resolve_entry("a/...", ""), write("a/..."));
    assert_eq!(resolve_entry("a..b/c", ""), write("a..b/c"));
}

#[test]
fn entries_that_point_outside_are_refused() {
    let names = [
        "../evil",
        "a/../b",
        "a/..",
        "..",
        "RuntimePack/../x",
        "a\\..\\b",
        "/etc/passwd",
        "\\windows\\system32",
        "C:\\windows",
        "c:relative",
        "z:/x",
        "nul\0byte",
        "RuntimePack/a\0",
    ];
    for name in names {
        assert_eq!(resolve_entry(name, RUNTIME_PACK_PREFIX), unsafe_path(), "{:?}", name);
        assert_eq!(resolve_entry(name, ""), unsafe_path(), "{:?}", name);
    }
    assert_eq!(resolve_entry("a./../x", "a."), unsafe_path());
    assert_eq!(resolve_entry("a.../x", "a."), unsafe_path());
    assert_eq!(resolve_entry("a.../x", ""), write("a.../x"));
}

#[test]
fn one_unsafe_entry_refuses_the_whole_archive() {
    let names: Vec<String> = ["RuntimePack/", "RuntimePack/a.txt", "RuntimePack/../b", "RuntimePack/c/"]
        .iter()
        .map(|s| s.to_string())
        .collect();
    assert_eq!(plan_extraction(&names, RUNTIME_PACK_PREFIX), Err(InstallError::UnsafePath));
    let names: Vec<String> = ["/abs", "fine.txt"].iter().map(|s| s.to_string()).collect();
    assert_eq!(plan_extraction(&names, RUNTIME_PACK_PREFIX), Err(InstallError::UnsafePath));
    let names: Vec<String> = ["fine.txt", "also/fine", "C:evil"].iter().map(|s| s.to_string()).collect();
    assert_eq!(plan_extraction(&names, ""), Err(InstallError::UnsafePath));
}

#[test]
fn a_safe_archive_is_planned_entry_by_entry() {
    let names: Vec<String> = [
        "CustomStadium/",
        "CustomStadium/stadiums/",
        "CustomStadium/stadiums/a.bundle",
        "CustomStadium/readme.txt",
        "loose.bundle",
    ]
    .iter()
    .map(|s| s.to_string())
    .collect();
    let plan = plan_extraction(&names, CONTENT_PACK_PREFIX).unwrap();
    assert_eq!(
        plan,
        vec![
            EntryAction::Skip,
            EntryAction::CreateDir { path: "stadiums".to_string() },
            EntryAction::WriteFile { path: "stadiums/a.bundle".to_string() },
            EntryAction::WriteFile { path: "readme.txt".to_string() },
            EntryAction::WriteFile { path: "loose.bundle".to_string() },
        ]
    );
    assert_eq!(count_files(&plan), 3);
    assert_eq!(plan_extraction(&Vec::new(), CONTENT_PACK_PREFIX), Ok(Vec::new()));
    assert_eq!(count_files(&Vec::new()), 0);
}

#[test]
fn an_archive_has_to_open_and_hold_an_entry() {
    assert_eq!(check_archive(None), Err(InstallError::InvalidArchive));
    assert_eq!(check_archive(Some(0)), Err(InstallError::InvalidArchive));
    assert_eq!(check_archive(Some(1)), Ok(1));
    assert_eq!(check_archive(Some(250)), Ok(250));
}

#[test]
fn the_archive_that_was_given_is_taken_before_the_bundled_one() {
    let given = Some("given.zip".to_string());
    let bundled = Some("bundled.zip".to_string());
    assert_eq!(choose_archive(given.clone(), true, bundled.clone(), true), Ok("given.zip".to_string()));
    assert_eq!(choose_archive(given.clone(), false, bundled.clone(), true), Err(InstallError::NotFound));
    assert_eq!(choose_archive(None, false, bundled.clone(), true), Ok("bundled.zip".to_string()));
    assert_eq!(choose_archive(None, true, bundled, false), Err(InstallError::NotFound));
    assert_eq!(choose_archive(None, true, None, true), Err(InstallError::NotFound));
    assert_eq!(choose_archive(given, true, None, false), Ok("given.zip".to_string()));
}

#[test]
fn nothing_is_rotated_where_there_is_no_runtime() {
    let listing = vec![entry("BepInEx_backup_20200101_000000", EntryKind::Directory)];
    assert_eq!(plan_rotation(false, &listing, "20260101_120000"), None);
}

#[test]
fn earlier_backups_are_deleted_and_the_runtime_is_renamed() {
    assert_eq!(RUNTIME_DIR, "BepInEx");
    assert_eq!(BACKUP_PREFIX, "BepInEx_backup_");
    let listing = vec![
        entry("BepInEx", EntryKind::Directory),
        entry("BepInEx_backup_20250101_000000", EntryKind::Directory),
        entry("BepInEx_backup_notes.txt", EntryKind::File),
        entry("data", EntryKind::Directory),
        entry("BepInEx_backup_", EntryKind::Directory),
        entry("bepinex_backup_lowercase", EntryKind::Directory),
        entry("BepInEx_backup_20260101_120000", EntryKind::Directory),
        entry("BepInEx_backup_odd", EntryKind::Other),
        entry("xBepInEx_backup_1", EntryKind::Directory),
    ];
    assert_eq!(
        plan_rotation(true, &listing, "20260101_120000"),
        Some(RotationPlan {
            delete: vec!["BepInEx_backup_20250101_000000".to_string(), "BepInEx_backup_".to_string()],
            backup_name: "BepInEx_backup_20260101_120000".to_string(),
        })
    );
}

#[test]
fn after_two_installations_one_backup_is_left() {
    let mut directories: Vec<String> = vec!["BepInEx".to_string(), "data".to_string()];
    for stamp in ["20260101_120000", "20260102_083000"] {
        let listing: Vec<DirectoryEntry> =
            directories.iter().map(|d| entry(d, EntryKind::Directory)).collect();
        let plan = plan_rotation(true, &listing, stamp).unwrap();
        directories.retain(|d| !plan.delete.contains(d) && d != RUNTIME_DIR);
        directories.push(plan.backup_name.clone());
        directories.push(RUNTIME_DIR.to_string());
        let backups: Vec<&String> =
            directories.iter().filter(|d| d.starts_with(BACKUP_PREFIX)).collect();
        assert_eq!(backups, vec![&format!("BepInEx_backup_{}", stamp)]);
    }
}

#[test]
fn the_stamp_of_a_backup() {
    let time = WallTime { year: 2026, month: 3, day: 7, hour: 9, minute: 5, second: 0 };
    assert_eq!(backup_stamp(&time), Some("20260307_090500".to_string()));
    let time = WallTime { year: 987, month: 12, day: 31, hour: 23, minute: 59, second: 59 };
    assert_eq!(backup_stamp(&time), Some("09871231_235959".to_string()));
    let time = WallTime { year: 0, month: 1, day: 1, hour: 0, minute: 0, second: 0 };
    assert_eq!(backup_stamp(&time), Some("00000101_000000".to_string()));
    let time = WallTime { year: 9999, month: 2, day: 28, hour: 10, minute: 10, second: 10 };
    assert_eq!(backup_stamp(&time), Some("99990228_101010".to_string()));
}

#[test]
fn times_that_the_calendar_does_not_have_get_no_stamp() {
    let good = WallTime { year: 2024, month: 2, day: 29, hour: 0, minute: 0, second: 0 };
    assert!(backup_stamp(&good).is_some());
    assert!(backup_stamp(&WallTime { year: 2000, ..good }).is_some());
    assert!(backup_stamp(&WallTime { year: 2023, ..good }).is_none());
    assert!(backup_stamp(&WallTime { year: 1900, ..good }).is_none());
    assert!(backup_stamp(&WallTime { year: 2100, ..good }).is_none());
    assert!(backup_stamp(&WallTime { month: 0, ..good }).is_none());
    assert!(backup_stamp(&WallTime { month: 13, ..good }).is_none());
    assert!(backup_stamp(&WallTime { day: 0, ..good }).is_none());
    assert!(backup_stamp(&WallTime { day: 30, ..good }).is_none());
    assert!(backup_stamp(&WallTime { month: 4, day: 31, ..good }).is_none());
    assert!(backup_stamp(&WallTime { month: 4, day: 30, ..good }).is_some());
    assert!(backup_stamp(&WallTime { month: 12, day: 31, ..good }).is_some());
    assert!(backup_stamp(&WallTime { month: 12, day: 32, ..good }).is_none());
    assert!(backup_stamp(&WallTime { hour: 24, ..good }).is_none());
    assert!(backup_stamp(&WallTime { minute: 60, ..good }).is_none());
    assert!(backup_stamp(&WallTime { second: 60, ..good }).is_none());
    assert!(backup_stamp(&WallTime { hour: 23, minute: 59, second: 59, ..good }).is_some());
    assert!(backup_stamp(&WallTime { year: -1, ..good }).is_none());
    assert!(backup_stamp(&WallTime { year: 10000, ..good }).is_none());
}

#[test]
fn the_stamp_is_what_chrono_writes_for_every_day_of_some_years() {
    for year in [0, 1, 4, 100, 400, 1900, 2000, 2023, 2024, 9999] {
        for month in 1..=12u32 {
            for day in 1..=31u32 {
                let time = WallTime { year, month, day, hour: 7, minute: 8, second: 9 };
                let expected = chrono::NaiveDate::from_ymd_opt(year, month, day)
                    .map(|_| format!("{:04}{:02}{:02}_070809", year, month, day));
                assert_eq!(backup_stamp(&time), expected);
            }
        }
    }
}

#[test]
fn a_failed_step_ends_the_installation() {
    assert_eq!(after_step(InstallStep::Backup, true), Ok(()));
    assert_eq!(after_step(InstallStep::Write, true), Ok(()));
    assert_eq!(after_step(InstallStep::Backup, false), Err(InstallError::BackupFailed));
    assert_eq!(after_step(InstallStep::Write, false), Err(InstallError::Io));
}
