//! The operating system the agent runs on, which decides the print commands
//! and the folders it uses.
use vstd::prelude::*;
use crate::text::string_views;

verus! {

/// The operating system.
#[derive(Debug, Clone, Copy, PartialEq, Eq, Structural)]
pub enum Os {
    /// Linux: CUPS for printing.
    Linux,
    /// macOS: CUPS for printing.
    MacOs,
    /// Windows: PowerShell for printing.
    Windows,
    /// Any other system: no system print backend.
    Other,
}

/// A place in the file system: the environment variable that gives its base
/// folder, whether the system's temporary folder stands in for that base
/// when the variable is unset, then the path components below the base.
pub struct Location {
    pub base_var: String,
    pub temp_fallback: bool,
    pub parts: Vec<String>,
}

/// A location has this base variable, fallback and these components.
pub open spec fn location_is(
    loc: Location,
    base_var: Seq<char>,
    temp_fallback: bool,
    parts: Seq<Seq<char>>,
) -> bool {
    loc.base_var@ == base_var && loc.temp_fallback == temp_fallback && string_views(loc.parts@)
        == parts
}

/// A location from literal pieces.
fn location(base_var: &str, temp_fallback: bool, parts: &[&str]) -> (r: Location)
    ensures
        location_is(r, base_var@, temp_fallback, parts@.map_values(|p: &str| p@)),
{
    let mut v: Vec<String> = Vec::new();
    let mut i: usize = 0;
    while i < parts.len()
        invariant
            i <= parts@.len(),
            string_views(v@) == parts@.take(i as int).map_values(|p: &str| p@),
        decreases parts@.len() - i,
    {
        let ghost before = v@;
        v.push(String::from_str(parts[i]));
        assert(string_views(v@) =~= string_views(before).push(parts@[i as int]@));
        assert(parts@.take(i + 1).map_values(|p: &str| p@) =~= parts@.take(i as int).map_values(
            |p: &str| p@,
        ).push(parts@[i as int]@));
        i = i + 1;
    }
    assert(parts@.take(parts@.len() as int) =~= parts@);
    Location { base_var: String::from_str(base_var), temp_fallback, parts: v }
}

/// Where the per-user configuration file stands: below `APPDATA` on
/// Windows, below `HOME` elsewhere; nowhere when that variable is unset.
pub open spec fn user_config_file(os: Os, loc: Location) -> bool {
    if os == Os::Windows {
        location_is(loc, "APPDATA"@, false, seq!["efact-printer-agent"@, "config.toml"@])
    } else {
        location_is(loc, "HOME"@, false, seq![".config"@, "efact-printer-agent"@, "config.toml"@])
    }
}

/// The per-user configuration file.
pub fn user_config_location(os: Os) -> (r: Location)
    ensures
        user_config_file(os, r),
{
    if os == Os::Windows {
        let parts: [&str; 2] = ["efact-printer-agent", "config.toml"];
        assert(parts@.map_values(|p: &str| p@) =~= seq!["efact-printer-agent"@, "config.toml"@]);
        location("APPDATA", false, &parts)
    } else {
        let parts: [&str; 3] = [".config", "efact-printer-agent", "config.toml"];
        assert(parts@.map_values(|p: &str| p@) =~= seq![
            ".config"@,
            "efact-printer-agent"@,
            "config.toml"@,
        ]);
        location("HOME", false, &parts)
    }
}

/// The folder that holds the configuration: below `APPDATA` on Windows,
/// below `HOME` elsewhere, and below the temporary folder when that variable
/// is unset.
pub open spec fn config_folder(os: Os, loc: Location) -> bool {
    if os == Os::Windows {
        location_is(loc, "APPDATA"@, true, seq!["efact-printer-agent"@])
    } else {
        location_is(loc, "HOME"@, true, seq![".config"@, "efact-printer-agent"@])
    }
}

/// The configuration folder.
pub fn config_dir_location(os: Os) -> (r: Location)
    ensures
        config_folder(os, r),
{
    if os == Os::Windows {
        let parts: [&str; 1] = ["efact-printer-agent"];
        assert(parts@.map_values(|p: &str| p@) =~= seq!["efact-printer-agent"@]);
        location("APPDATA", true, &parts)
    } else {
        let parts: [&str; 2] = [".config", "efact-printer-agent"];
        assert(parts@.map_values(|p: &str| p@) =~= seq![".config"@, "efact-printer-agent"@]);
        location("HOME", true, &parts)
    }
}

/// On every system the configuration folder is the folder of the per-user
/// configuration file: the same base variable, and its path without the
/// final `config.toml`.
pub proof fn lemma_config_folder_holds_config_file(os: Os, folder: Location, file: Location)
    requires
        config_folder(os, folder),
        user_config_file(os, file),
    ensures
        folder.base_var@ == file.base_var@,
        string_views(file.parts@) == string_views(folder.parts@).push("config.toml"@),
{
    if os == Os::Windows {
        assert(seq!["efact-printer-agent"@].push("config.toml"@) =~= seq![
            "efact-printer-agent"@,
            "config.toml"@,
        ]);
    } else {
        assert(seq![".config"@, "efact-printer-agent"@].push("config.toml"@) =~= seq![
            ".config"@,
            "efact-printer-agent"@,
            "config.toml"@,
        ]);
    }
}

/// The per-user configuration file is `efact-printer-agent/config.toml`
/// below `APPDATA` on Windows, and `.config/efact-printer-agent/config.toml`
/// below `HOME` on every other system.
pub proof fn lemma_user_config_file_place(os: Os, file: Location)
    requires
        user_config_file(os, file),
    ensures
        os == Os::Windows ==> file.base_var@ == "APPDATA"@ && string_views(file.parts@) == seq![
            "efact-printer-agent"@,
            "config.toml"@,
        ],
        os != Os::Windows ==> file.base_var@ == "HOME"@ && string_views(file.parts@) == seq![
            ".config"@,
            "efact-printer-agent"@,
            "config.toml"@,
        ],
{
}

/// The log folder is never the configuration folder: on Windows it lies
/// below `LOCALAPPDATA`, not `APPDATA`, and elsewhere in `.local/share` or
/// `Library/Logs`, not `.config`.
pub proof fn lemma_log_folder_apart(os: Os, logs: Location, folder: Location)
    requires
        log_folder(os, logs),
        config_folder(os, folder),
    ensures
        logs.base_var@ != folder.base_var@ || string_views(logs.parts@) != string_views(
            folder.parts@,
        ),
        os == Os::Windows ==> logs.base_var@ == "LOCALAPPDATA"@,
        os != Os::Windows ==> logs.base_var@ == "HOME"@ && string_views(logs.parts@).len() == 3,
{
    reveal_strlit("LOCALAPPDATA");
    reveal_strlit("APPDATA");
    if os != Os::Windows {
        assert(string_views(logs.parts@).len() == 3);
        assert(string_views(folder.parts@).len() == 2);
    } else {
        assert("LOCALAPPDATA"@.len() != "APPDATA"@.len());
    }
}

/// The folder for logs: below `LOCALAPPDATA` on Windows, in
/// `Library/Logs` on macOS, in `.local/share` elsewhere; below the temporary
/// folder when the base variable is unset.
pub open spec fn log_folder(os: Os, loc: Location) -> bool {
    match os {
        Os::Windows => location_is(loc, "LOCALAPPDATA"@, true, seq!["efact-printer-agent"@]),
        Os::MacOs => location_is(
            loc,
            "HOME"@,
            true,
            seq!["Library"@, "Logs"@, "efact-printer-agent"@],
        ),
        _ => location_is(loc, "HOME"@, true, seq![".local"@, "share"@, "efact-printer-agent"@]),
    }
}

/// The log folder.
pub fn log_dir_location(os: Os) -> (r: Location)
    ensures
        log_folder(os, r),
{
    match os {
        Os::Windows => {
            let parts: [&str; 1] = ["efact-printer-agent"];
            assert(parts@.map_values(|p: &str| p@) =~= seq!["efact-printer-agent"@]);
            location("LOCALAPPDATA", true, &parts)
        },
        Os::MacOs => {
            let parts: [&str; 3] = ["Library", "Logs", "efact-printer-agent"];
            assert(parts@.map_values(|p: &str| p@) =~= seq![
                "Library"@,
                "Logs"@,
                "efact-printer-agent"@,
            ]);
            location("HOME", true, &parts)
        },
        _ => {
            let parts: [&str; 3] = [".local", "share", "efact-printer-agent"];
            assert(parts@.map_values(|p: &str| p@) =~= seq![
                ".local"@,
                "share"@,
                "efact-printer-agent"@,
            ]);
            location("HOME", true, &parts)
        },
    }
}

/// The program that opens a folder in the desktop's file manager.
pub open spec fn folder_opener(os: Os) -> Seq<char> {
    match os {
        Os::Windows => "explorer"@,
        Os::MacOs => "open"@,
        _ => "xdg-open"@,
    }
}

/// The file-manager program for the system.
pub fn folder_opener_program(os: Os) -> (r: String)
    ensures
        r@ == folder_opener(os),
{
    match os {
        Os::Windows => String::from_str("explorer"),
        Os::MacOs => String::from_str("open"),
        _ => String::from_str("xdg-open"),
    }
}

} // verus!
