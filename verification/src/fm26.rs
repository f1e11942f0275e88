//! The layout of an installation: the paths that follow from its root directory, and
//! what the presence of files under them says about the runtime and its plugins.
//!
//! Whether a path exists is for the caller to find out; the library is told.

use vstd::prelude::*;
use crate::models::{
    BepInExStatus, Fm26Installation, InstallationView, PluginStatus, PluginStatusView,
};
use crate::text::{
    chars_of, find, find_char, lines_of, lines_view, slice_of, split_lines, starts_with,
    starts_with_str, texts, trim, trim_chars,
};

verus! {

/// Why a directory cannot be taken as the root of an installation.
#[derive(Debug, Clone, Copy, PartialEq, Eq, Structural)]
pub enum InspectError {
    /// Nothing is there.
    DoesNotExist,
    /// What is there is no directory.
    NotADirectory,
}

/// Whether a separator has to be put after `base` before a name is added to it: not
/// after an empty path, and not after one that ends with a separator already.
pub open spec fn needs_separator(base: Seq<char>, separator: char) -> bool {
    base.len() > 0 && base.last() != separator && base.last() != '/'
}

/// The path of `child` under `base`.
pub open spec fn joined(base: Seq<char>, child: Seq<char>, separator: char) -> Seq<char> {
    if needs_separator(base, separator) {
        base.push(separator) + child
    } else {
        base + child
    }
}

/// Adds the relative path `child` to `base`, with `separator` between the two where
/// `base` does not end with one.
pub fn join_path(base: &str, child: &str, separator: char) -> (r: String)
    ensures
        r@ == joined(base@, child@, separator),
{
    let chars = chars_of(base);
    let n: usize = chars.len();
    let mut r = String::from_str(base);
    if n > 0 && chars[n - 1] != separator && chars[n - 1] != '/' {
        r.push(separator);
    }
    r.append(child);
    r
}

/// The layout that follows from a root directory.
pub open spec fn layout_of(root: Seq<char>, separator: char) -> InstallationView {
    let runtime = joined(root, "BepInEx"@, separator);
    let plugins = joined(runtime, "plugins"@, separator);
    InstallationView {
        root_path: root,
        bep_in_ex_path: runtime,
        plugins_path: plugins,
        custom_stadium_path: joined(plugins, "CustomStadium"@, separator),
        audio_inject_path: joined(plugins, "AudioInject"@, separator),
        config_path: joined(runtime, "config"@, separator),
        log_path: joined(runtime, "LogOutput.log"@, separator),
    }
}

/// Derives the layout of an installation from its root directory. `exists` and `is_dir`
/// say what the caller found at the root; `separator` is the one of the platform.
/// Nothing is said of whether the derived paths exist.
pub fn inspect_fm26_install(root_path: String, exists: bool, is_dir: bool, separator: char) -> (r:
    Result<Fm26Installation, InspectError>)
    ensures
        !exists ==> r == Err::<Fm26Installation, InspectError>(InspectError::DoesNotExist),
        exists && !is_dir ==> r == Err::<Fm26Installation, InspectError>(
            InspectError::NotADirectory,
        ),
        exists && is_dir ==> r is Ok && r->Ok_0@ == layout_of(root_path@, separator),
{
    if !exists {
        return Err(InspectError::DoesNotExist);
    }
    if !is_dir {
        return Err(InspectError::NotADirectory);
    }
    let bep_in_ex_path = join_path(root_path.as_str(), "BepInEx", separator);
    let plugins_path = join_path(bep_in_ex_path.as_str(), "plugins", separator);
    let custom_stadium_path = join_path(plugins_path.as_str(), "CustomStadium", separator);
    let audio_inject_path = join_path(plugins_path.as_str(), "AudioInject", separator);
    let config_path = join_path(bep_in_ex_path.as_str(), "config", separator);
    let log_path = join_path(bep_in_ex_path.as_str(), "LogOutput.log", separator);
    Ok(
        Fm26Installation {
            root_path,
            bep_in_ex_path,
            plugins_path,
            custom_stadium_path,
            audio_inject_path,
            config_path,
            log_path,
        },
    )
}

/// A path lies under another where it begins with it and goes on.
pub open spec fn lies_under(path: Seq<char>, root: Seq<char>) -> bool {
    starts_with(path, root) && path.len() > root.len()
}

proof fn lemma_joined_lies_under(base: Seq<char>, child: Seq<char>, separator: char)
    requires
        child.len() > 0,
    ensures
        lies_under(joined(base, child, separator), base),
{
    assert(joined(base, child, separator).take(base.len() as int) == base);
}

proof fn lemma_lies_under_chain(a: Seq<char>, b: Seq<char>, c: Seq<char>)
    requires
        lies_under(a, b),
        lies_under(b, c),
    ensures
        lies_under(a, c),
{
    assert(a.take(c.len() as int) == a.take(b.len() as int).take(c.len() as int));
}

/// Every path of a layout lies under its root.
pub proof fn lemma_layout_lies_under_root(root: Seq<char>, separator: char)
    ensures
        ({
            let layout = layout_of(root, separator);
            &&& lies_under(layout.bep_in_ex_path, root)
            &&& lies_under(layout.plugins_path, root)
            &&& lies_under(layout.custom_stadium_path, root)
            &&& lies_under(layout.audio_inject_path, root)
            &&& lies_under(layout.config_path, root)
            &&& lies_under(layout.log_path, root)
        }),
{
    reveal_strlit("BepInEx");
    reveal_strlit("plugins");
    reveal_strlit("CustomStadium");
    reveal_strlit("AudioInject");
    reveal_strlit("config");
    reveal_strlit("LogOutput.log");
    let layout = layout_of(root, separator);
    lemma_joined_lies_under(root, "BepInEx"@, separator);
    lemma_joined_lies_under(layout.bep_in_ex_path, "plugins"@, separator);
    lemma_joined_lies_under(layout.plugins_path, "CustomStadium"@, separator);
    lemma_joined_lies_under(layout.plugins_path, "AudioInject"@, separator);
    lemma_joined_lies_under(layout.bep_in_ex_path, "config"@, separator);
    lemma_joined_lies_under(layout.bep_in_ex_path, "LogOutput.log"@, separator);
    lemma_lies_under_chain(layout.plugins_path, layout.bep_in_ex_path, root);
    lemma_lies_under_chain(layout.custom_stadium_path, layout.plugins_path, root);
    lemma_lies_under_chain(layout.audio_inject_path, layout.plugins_path, root);
    lemma_lies_under_chain(layout.config_path, layout.bep_in_ex_path, root);
    lemma_lies_under_chain(layout.log_path, layout.bep_in_ex_path, root);
}

/// The name of a known plugin, by its number.
pub open spec fn plugin_name(i: int) -> Seq<char> {
    if i == 0 {
        "StadiumInjection"@
    } else if i == 1 {
        "AudioInject"@
    } else {
        "CrowdInject"@
    }
}

/// Where a known plugin lies under the plugins directory, by its number.
pub open spec fn plugin_file(i: int) -> Seq<char> {
    if i == 0 {
        "StadiumInjection/StadiumInjection.dll"@
    } else if i == 1 {
        "AudioInject/AudioInject.dll"@
    } else {
        "CrowdInject/CrowdInject.dll"@
    }
}

/// The paths at which the three known plugins are expected, in their order.
pub fn plugin_paths(install: &Fm26Installation, separator: char) -> (r: Vec<String>)
    ensures
        r.len() == 3,
        forall|i: int|
            0 <= i < 3 ==> (#[trigger] r@[i])@ == joined(
                install.plugins_path@,
                plugin_file(i),
                separator,
            ),
{
    let base = install.plugins_path.as_str();
    let mut r: Vec<String> = Vec::new();
    r.push(join_path(base, "StadiumInjection/StadiumInjection.dll", separator));
    r.push(join_path(base, "AudioInject/AudioInject.dll", separator));
    r.push(join_path(base, "CrowdInject/CrowdInject.dll", separator));
    r
}

/// Says for each of the three known plugins where it is expected and whether it is
/// there; `present` holds what the caller found at the paths of `plugin_paths`.
pub fn get_plugin_status(install: &Fm26Installation, separator: char, present: [bool; 3]) -> (r:
    Vec<PluginStatus>)
    ensures
        r.len() == 3,
        forall|i: int|
            0 <= i < 3 ==> (#[trigger] r@[i])@ == (PluginStatusView {
                name: plugin_name(i),
                path: joined(install.plugins_path@, plugin_file(i), separator),
                installed: present@[i],
            }),
{
    let base = install.plugins_path.as_str();
    let mut r: Vec<PluginStatus> = Vec::new();
    r.push(
        PluginStatus {
            name: String::from_str("StadiumInjection"),
            path: join_path(base, "StadiumInjection/StadiumInjection.dll", separator),
            installed: present[0],
        },
    );
    r.push(
        PluginStatus {
            name: String::from_str("AudioInject"),
            path: join_path(base, "AudioInject/AudioInject.dll", separator),
            installed: present[1],
        },
    );
    r.push(
        PluginStatus {
            name: String::from_str("CrowdInject"),
            path: join_path(base, "CrowdInject/CrowdInject.dll", separator),
            installed: present[2],
        },
    );
    r
}

/// How many of the three flags are set.
pub open spec fn count_present(present: Seq<bool>) -> int {
    (if present[0] {
        1int
    } else {
        0int
    }) + (if present[1] {
        1int
    } else {
        0int
    }) + (if present[2] {
        1int
    } else {
        0int
    })
}

/// Says whether the runtime is installed and how many of the known plugins are, so
/// that a caller can warn before writing over them. Plugins count only where the
/// runtime and its plugins directory exist.
pub fn check_bepinex_installed(
    install: Fm26Installation,
    runtime_exists: bool,
    plugins_dir_exists: bool,
    present: [bool; 3],
) -> (r: BepInExStatus)
    ensures
        r.installed == runtime_exists,
        r.path == install.bep_in_ex_path,
        r.plugin_count == (if runtime_exists && plugins_dir_exists {
            count_present(present@)
        } else {
            0
        }),
        r.has_plugins == (r.plugin_count > 0),
{
    let mut plugin_count: u32 = 0;
    if runtime_exists && plugins_dir_exists {
        if present[0] {
            plugin_count = plugin_count + 1;
        }
        if present[1] {
            plugin_count = plugin_count + 1;
        }
        if present[2] {
            plugin_count = plugin_count + 1;
        }
    }
    BepInExStatus {
        installed: runtime_exists,
        path: install.bep_in_ex_path,
        has_plugins: plugin_count > 0,
        plugin_count,
    }
}

/// Whether a directory looks like the game's: it holds one of the two executables or
/// the data directory.
pub fn is_valid_fm26_dir(has_fm_exe: bool, has_named_exe: bool, has_data_dir: bool) -> (r: bool)
    ensures
        r == (has_fm_exe || has_named_exe || has_data_dir),
{
    has_fm_exe || has_named_exe || has_data_dir
}

/// The platforms on which the game is looked for.
#[derive(Debug, Clone, Copy, PartialEq, Eq, Structural)]
pub enum Platform {
    Windows,
    MacOs,
    Linux,
}

/// The name of the game's directory in a launcher's library.
pub const GAME_DIR: &'static str = "Football Manager 2026";

/// Where the game lies in a launcher's library on Windows.
pub open spec fn library_game_path(library: Seq<char>) -> Seq<char> {
    joined(joined(joined(library, "steamapps"@, '\\'), "common"@, '\\'), GAME_DIR@, '\\')
}

/// The places at which the game is looked for on Windows before any library is asked.
pub open spec fn windows_places() -> Seq<Seq<char>> {
    seq![
        "C:\\Program Files (x86)\\Steam\\steamapps\\common\\Football Manager 2026"@,
        "C:\\Program Files\\Steam\\steamapps\\common\\Football Manager 2026"@,
        "D:\\Steam\\steamapps\\common\\Football Manager 2026"@,
        "D:\\SteamLibrary\\steamapps\\common\\Football Manager 2026"@,
        "E:\\Steam\\steamapps\\common\\Football Manager 2026"@,
        "E:\\SteamLibrary\\steamapps\\common\\Football Manager 2026"@,
        "F:\\Steam\\steamapps\\common\\Football Manager 2026"@,
        "F:\\SteamLibrary\\steamapps\\common\\Football Manager 2026"@,
        "C:\\Program Files\\Epic Games\\FootballManager2026"@,
        "C:\\Program Files (x86)\\Epic Games\\FootballManager2026"@,
        "D:\\Epic Games\\FootballManager2026"@,
        "E:\\Epic Games\\FootballManager2026"@,
    ]
}

/// The places at which the game is looked for: on Windows the usual places of two
/// launchers and then the libraries given, elsewhere the places of one launcher under
/// the home directory, where there is one.
pub open spec fn candidate_places(
    platform: Platform,
    home: Option<Seq<char>>,
    libraries: Seq<Seq<char>>,
) -> Seq<Seq<char>> {
    match platform {
        Platform::Windows => windows_places() + libraries.map_values(
            |library: Seq<char>| library_game_path(library),
        ),
        Platform::MacOs => match home {
            Some(h) => seq![
                joined(
                    h,
                    "Library/Application Support/Steam/steamapps/common/Football Manager 2026"@,
                    '/',
                ),
            ],
            None => Seq::empty(),
        },
        Platform::Linux => match home {
            Some(h) => seq![
                joined(h, ".steam/steam/steamapps/common/Football Manager 2026"@, '/'),
                joined(h, ".local/share/Steam/steamapps/common/Football Manager 2026"@, '/'),
            ],
            None => Seq::empty(),
        },
    }
}

/// Lists the places at which the game is looked for. `home` is the home directory,
/// `libraries` are the library folders of the launcher; they count on Windows only.
pub fn candidate_paths(platform: Platform, home: Option<&str>, libraries: &Vec<String>) -> (r: Vec<
    String,
>)
    ensures
        texts(r@) == candidate_places(
            platform,
            match home {
                Some(h) => Some(h@),
                None => None,
            },
            texts(libraries@),
        ),
{
    let mut r: Vec<String> = Vec::new();
    match platform {
        Platform::Windows => {
            r.push(
                String::from_str(
                    "C:\\Program Files (x86)\\Steam\\steamapps\\common\\Football Manager 2026",
                ),
            );
            r.push(
                String::from_str(
                    "C:\\Program Files\\Steam\\steamapps\\common\\Football Manager 2026",
                ),
            );
            r.push(String::from_str("D:\\Steam\\steamapps\\common\\Football Manager 2026"));
            r.push(String::from_str("D:\\SteamLibrary\\steamapps\\common\\Football Manager 2026"));
            r.push(String::from_str("E:\\Steam\\steamapps\\common\\Football Manager 2026"));
            r.push(String::from_str("E:\\SteamLibrary\\steamapps\\common\\Football Manager 2026"));
            r.push(String::from_str("F:\\Steam\\steamapps\\common\\Football Manager 2026"));
            r.push(String::from_str("F:\\SteamLibrary\\steamapps\\common\\Football Manager 2026"));
            r.push(String::from_str("C:\\Program Files\\Epic Games\\FootballManager2026"));
            r.push(String::from_str("C:\\Program Files (x86)\\Epic Games\\FootballManager2026"));
            r.push(String::from_str("D:\\Epic Games\\FootballManager2026"));
            r.push(String::from_str("E:\\Epic Games\\FootballManager2026"));
            assert(texts(r@) =~= windows_places());
            let ghost from_libraries = texts(libraries@).map_values(
                |library: Seq<char>| library_game_path(library),
            );
            let mut i: usize = 0;
            assert(texts(r@) == windows_places() + from_libraries.take(0));
            while i < libraries.len()
                invariant
                    i <= libraries.len(),
                    from_libraries == texts(libraries@).map_values(
                        |library: Seq<char>| library_game_path(library),
                    ),
                    texts(r@) == windows_places() + from_libraries.take(i as int),
                decreases libraries.len() - i,
            {
                let steamapps = join_path(libraries[i].as_str(), "steamapps", '\\');
                let common = join_path(steamapps.as_str(), "common", '\\');
                let game = join_path(common.as_str(), GAME_DIR, '\\');
                assert(game@ == from_libraries[i as int]);
                let ghost before = texts(r@);
                r.push(game);
                assert(texts(r@) == before.push(game@));
                assert(from_libraries.take(i + 1) == from_libraries.take(i as int).push(
                    from_libraries[i as int],
                ));
                assert(texts(r@) == windows_places() + from_libraries.take(i + 1));
                i = i + 1;
            }
            assert(from_libraries.take(i as int) == from_libraries);
        },
        Platform::MacOs => {
            match home {
                Some(h) => {
                    r.push(
                        join_path(
                            h,
                            "Library/Application Support/Steam/steamapps/common/Football Manager 2026",
                            '/',
                        ),
                    );
                    assert(texts(r@) =~= candidate_places(platform, Some(h@), texts(libraries@)));
                },
                None => {
                    assert(texts(r@) =~= Seq::<Seq<char>>::empty());
                },
            }
        },
        Platform::Linux => {
            match home {
                Some(h) => {
                    r.push(
                        join_path(h, ".steam/steam/steamapps/common/Football Manager 2026", '/'),
                    );
                    r.push(
                        join_path(
                            h,
                            ".local/share/Steam/steamapps/common/Football Manager 2026",
                            '/',
                        ),
                    );
                    assert(texts(r@) =~= candidate_places(platform, Some(h@), texts(libraries@)));
                },
                None => {
                    assert(texts(r@) =~= Seq::<Seq<char>>::empty());
                },
            }
        },
    }
    r
}

/// What the caller found at a place at which the game is looked for.
#[derive(Debug, Clone, PartialEq, Eq)]
pub struct Probe {
    pub path: String,
    pub exists: bool,
    pub has_fm_exe: bool,
    pub has_named_exe: bool,
    pub has_data_dir: bool,
}

/// `Probe` with its path as a sequence of characters.
pub struct ProbeView {
    pub path: Seq<char>,
    pub exists: bool,
    pub has_fm_exe: bool,
    pub has_named_exe: bool,
    pub has_data_dir: bool,
}

impl View for Probe {
    type V = ProbeView;

    open spec fn view(&self) -> ProbeView {
        ProbeView {
            path: self.path@,
            exists: self.exists,
            has_fm_exe: self.has_fm_exe,
            has_named_exe: self.has_named_exe,
            has_data_dir: self.has_data_dir,
        }
    }
}

/// The views of a vector of probes.
pub open spec fn probes_view(probes: Seq<Probe>) -> Seq<ProbeView> {
    probes.map_values(|p: Probe| p@)
}

/// A place that holds the game: it exists and looks like the game's directory.
pub open spec fn holds_game(probe: ProbeView) -> bool {
    probe.exists && (probe.has_fm_exe || probe.has_named_exe || probe.has_data_dir)
}

/// The places that hold the game, in the order of the probes, each place once.
pub open spec fn detected(probes: Seq<ProbeView>) -> Seq<Seq<char>>
    decreases probes.len(),
{
    if probes.len() == 0 {
        Seq::empty()
    } else {
        let before = detected(probes.drop_last());
        if holds_game(probes.last()) && !before.contains(probes.last().path) {
            before.push(probes.last().path)
        } else {
            before
        }
    }
}

fn holds_text(items: &Vec<String>, wanted: &String) -> (r: bool)
    ensures
        r == texts(items@).contains(wanted@),
{
    let mut i: usize = 0;
    while i < items.len()
        invariant
            i <= items.len(),
            forall|j: int| 0 <= j < i ==> texts(items@)[j] != wanted@,
        decreases items.len() - i,
    {
        assert(texts(items@)[i as int] == items@[i as int]@);
        if items[i] == *wanted {
            return true;
        }
        i = i + 1;
    }
    false
}

/// Says at which of the places that were looked at the game is installed: at those
/// that exist and look like the game's directory. No place is given twice.
pub fn detect_fm26_paths(probes: &Vec<Probe>) -> (r: Vec<String>)
    ensures
        texts(r@) == detected(probes_view(probes@)),
{
    let mut r: Vec<String> = Vec::new();
    let mut i: usize = 0;
    assert(probes_view(probes@).take(0) == Seq::<ProbeView>::empty());
    assert(texts(r@) == Seq::<Seq<char>>::empty());
    while i < probes.len()
        invariant
            i <= probes.len(),
            texts(r@) == detected(probes_view(probes@).take(i as int)),
        decreases probes.len() - i,
    {
        let probe = &probes[i];
        let ghost upto = probes_view(probes@).take(i + 1);
        assert(upto.drop_last() == probes_view(probes@).take(i as int));
        assert(upto.last() == probe@);
        if probe.exists && is_valid_fm26_dir(
            probe.has_fm_exe,
            probe.has_named_exe,
            probe.has_data_dir,
        ) && !holds_text(&r, &probe.path) {
            let ghost before = texts(r@);
            r.push(probe.path.clone());
            assert(texts(r@) == before.push(probe.path@));
        }
        i = i + 1;
    }
    assert(probes_view(probes@).take(i as int) == probes_view(probes@));
    r
}

/// A path as it is meant, from a path as a library file writes it: each pair of
/// backslashes stands for one.
pub open spec fn unescaped(s: Seq<char>) -> Seq<char>
    decreases s.len(),
{
    if s.len() == 0 {
        Seq::empty()
    } else if s.len() >= 2 && s[0] == '\\' && s[1] == '\\' {
        seq!['\\'] + unescaped(s.skip(2))
    } else {
        seq![s[0]] + unescaped(s.skip(1))
    }
}

/// The library folder that a line of a library file names: the line begins with
/// `"path"`, and the folder stands between the next two quotation marks.
pub open spec fn library_folder(line: Seq<char>) -> Option<Seq<char>> {
    let t = trim(line);
    let rest = t.skip(6);
    let open = find(rest, '"');
    let inner = rest.skip(open + 1);
    let close = find(inner, '"');
    if starts_with(t, "\"path\""@) && open < rest.len() && close < inner.len() {
        Some(unescaped(inner.take(close)))
    } else {
        None
    }
}

/// The library folders that the lines name, in their order.
pub open spec fn library_folders(lines: Seq<Seq<char>>) -> Seq<Seq<char>>
    decreases lines.len(),
{
    if lines.len() == 0 {
        Seq::empty()
    } else {
        match library_folder(lines.last()) {
            Some(folder) => library_folders(lines.drop_last()).push(folder),
            None => library_folders(lines.drop_last()),
        }
    }
}

fn unescape(s: &Vec<char>) -> (r: String)
    ensures
        r@ == unescaped(s@),
{
    let mut r = String::new();
    let mut i: usize = 0;
    assert(s@.skip(0) == s@);
    assert(r@ + unescaped(s@) == unescaped(s@));
    while i < s.len()
        invariant
            i <= s.len(),
            r@ + unescaped(s@.skip(i as int)) == unescaped(s@),
        decreases s.len() - i,
    {
        let ghost rest = s@.skip(i as int);
        let ghost before = r@;
        if s[i] == '\\' && i + 1 < s.len() && s[i + 1] == '\\' {
            r.push('\\');
            assert(rest.skip(2) == s@.skip(i + 2));
            assert(before.push('\\') + unescaped(rest.skip(2)) == before + (seq!['\\']
                + unescaped(rest.skip(2))));
            i = i + 2;
        } else {
            r.push(s[i]);
            assert(rest.skip(1) == s@.skip(i + 1));
            assert(before.push(rest[0]) + unescaped(rest.skip(1)) == before + (seq![rest[0]]
                + unescaped(rest.skip(1))));
            i = i + 1;
        }
    }
    assert(r@ + Seq::<char>::empty() == r@);
    r
}

fn folder_of(line: &Vec<char>) -> (r: Option<String>)
    ensures
        r is Some <==> library_folder(line@) is Some,
        r is Some ==> r->Some_0@ == library_folder(line@)->Some_0,
{
    let t = trim_chars(line);
    proof {
        reveal_strlit("\"path\"");
    }
    if !starts_with_str(&t, "\"path\"") {
        return None;
    }
    let rest = slice_of(&t, 6, t.len());
    assert(rest@ == t@.skip(6));
    let open: usize = find_char(&rest, '"');
    if open >= rest.len() {
        return None;
    }
    let inner = slice_of(&rest, open + 1, rest.len());
    assert(inner@ == rest@.skip(open + 1));
    let close: usize = find_char(&inner, '"');
    if close >= inner.len() {
        return None;
    }
    let raw = slice_of(&inner, 0, close);
    assert(raw@ == inner@.take(close as int));
    Some(unescape(&raw))
}

/// Reads the library folders out of the text of a launcher's library file. A file that
/// names none gives `None`.
pub fn find_steam_library_folders(content: &str) -> (r: Option<Vec<String>>)
    ensures
        r is Some <==> library_folders(lines_of(content@)).len() > 0,
        r is Some ==> texts(r->Some_0@) == library_folders(lines_of(content@)),
{
    let chars = chars_of(content);
    let lines = split_lines(&chars);
    let mut folders: Vec<String> = Vec::new();
    let mut i: usize = 0;
    let ghost all = lines_view(lines@);
    assert(all.take(0) == Seq::<Seq<char>>::empty());
    assert(texts(folders@) == Seq::<Seq<char>>::empty());
    while i < lines.len()
        invariant
            i <= lines.len(),
            all == lines_view(lines@),
            texts(folders@) == library_folders(all.take(i as int)),
        decreases lines.len() - i,
    {
        let ghost upto = all.take(i + 1);
        assert(upto.drop_last() == all.take(i as int));
        assert(upto.last() == lines@[i as int]@);
        match folder_of(&lines[i]) {
            Some(folder) => {
                let ghost before = texts(folders@);
                folders.push(folder);
                assert(texts(folders@) == before.push(folder@));
            },
            None => {},
        }
        i = i + 1;
    }
    assert(all.take(i as int) == all);
    if folders.len() > 0 {
        Some(folders)
    } else {
        None
    }
}

} // verus!
