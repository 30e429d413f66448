//! The program's names and the launcher's settings.

use vstd::prelude::*;

use crate::paths::join_all;
use crate::paths::joined_path;
use crate::paths::path_exists;
use crate::paths::relative_parts;
use crate::text::opt_text;

verus! {

/// The program's name, shown as the window title.
pub const APP_NAME: &'static str = "AFSim 链接器";

/// The URL scheme that the program answers.
pub const SCHEME_NAME: &'static str = "afsim";

/// The name of the settings file.
pub const CONFIG_FILE_NAME: &'static str = "config.json";

/// The characters of [`SCHEME_NAME`].
pub open spec fn scheme_name() -> Seq<char> {
    seq!['a', 'f', 's', 'i', 'm']
}

/// The characters of [`APP_NAME`].
pub open spec fn app_name() -> Seq<char> {
    seq!['A', 'F', 'S', 'i', 'm', ' ', '链', '接', '器']
}

/// The characters of [`CONFIG_FILE_NAME`].
pub open spec fn config_file_name() -> Seq<char> {
    seq!['c', 'o', 'n', 'f', 'i', 'g', '.', 'j', 's', 'o', 'n']
}

/// `afsim://`: what every link of the scheme starts with.
pub open spec fn scheme_prefix() -> Seq<char> {
    scheme_name() + seq![':', '/', '/']
}

/// The scheme's name as text.
pub fn scheme_name_text() -> (r: &'static str)
    ensures
        r@ == scheme_name(),
{
    proof {
        reveal_strlit("afsim");
    }
    assert(SCHEME_NAME@ =~= scheme_name());
    SCHEME_NAME
}

/// The program's name as text.
pub fn app_name_text() -> (r: &'static str)
    ensures
        r@ == app_name(),
{
    proof {
        reveal_strlit("AFSim 链接器");
    }
    assert(APP_NAME@ =~= app_name());
    APP_NAME
}

/// `afsim://` as text.
pub fn scheme_prefix_text() -> (r: String)
    ensures
        r@ == scheme_prefix(),
{
    proof {
        reveal_strlit("://");
    }
    let r = crate::text::concat(scheme_name_text(), "://");
    assert(r@ =~= scheme_prefix());
    r
}

/// The window's settings.
#[derive(Debug)]
pub struct AppConfig {
    pub window_title: String,
}

impl Default for AppConfig {
    fn default() -> (r: Self)
        ensures
            r.window_title@ == app_name(),
    {
        AppConfig { window_title: app_name_text().to_owned() }
    }
}

impl Clone for AppConfig {
    fn clone(&self) -> (r: Self)
        ensures
            r.window_title@ == self.window_title@,
    {
        AppConfig { window_title: self.window_title.clone() }
    }
}

impl AppConfig {
    /// The settings of the window: its title is the program's name.
    pub fn new() -> (r: Self)
        ensures
            r.window_title@ == app_name(),
    {
        Self::default()
    }
}

/// Where the launcher finds the simulator and the scenarios.
#[derive(Debug)]
pub struct ExecutorConfig {
    /// The simulator's executable.
    pub executable_path: String,
    /// The folder that holds one folder per scenario.
    pub script_base_path: String,
}

impl Default for ExecutorConfig {
    fn default() -> (r: Self)
        ensures
            r.executable_path@.len() == 0,
            r.script_base_path@.len() == 0,
    {
        ExecutorConfig { executable_path: String::new(), script_base_path: String::new() }
    }
}

/// The operating system the program runs on, where it decides something.
#[derive(PartialEq, Eq, Structural, Clone, Copy, Debug)]
pub enum Platform {
    Windows,
    Linux,
    Other,
}

/// `.`: the current folder.
pub open spec fn current_dir() -> Seq<char> {
    seq!['.']
}

/// `afsim-linker`: the program's folder under the user's settings.
pub open spec fn settings_dir_name() -> Seq<char> {
    seq!['a', 'f', 's', 'i', 'm', '-', 'l', 'i', 'n', 'k', 'e', 'r']
}

/// `.config`: the user's settings folder on Linux.
pub open spec fn dot_config() -> Seq<char> {
    seq!['.', 'c', 'o', 'n', 'f', 'i', 'g']
}

/// The components of the settings file's path: on Windows under `%APPDATA%`,
/// elsewhere under `$HOME/.config`; the current folder where the variable is
/// not set.
pub open spec fn config_path_parts(
    platform: Platform,
    appdata: Option<Seq<char>>,
    home: Option<Seq<char>>,
) -> Seq<Seq<char>> {
    if platform == Platform::Windows {
        let dir = match appdata {
            Some(d) => d,
            None => current_dir(),
        };
        seq![dir, settings_dir_name(), config_file_name()]
    } else {
        let dir = match home {
            Some(d) => d,
            None => current_dir(),
        };
        seq![dir, dot_config(), settings_dir_name(), config_file_name()]
    }
}

impl ExecutorConfig {
    /// Whether both paths are set and are on disk. A `true` says that both
    /// are set.
    pub fn is_valid(&self) -> (r: bool)
        ensures
            r ==> self.executable_path@.len() > 0 && self.script_base_path@.len() > 0,
    {
        self.executable_path.as_str().unicode_len() > 0 && self.script_base_path.as_str().unicode_len()
            > 0 && path_exists(self.executable_path.as_str()) && path_exists(
            self.script_base_path.as_str(),
        )
    }

    /// The path of a scenario's script: the base folder, the scenario's
    /// folder, the script.
    pub fn build_script_path(&self, scene_name: &str, script_entry: &str) -> (r: String)
        ensures
            relative_parts(seq![self.script_base_path@, scene_name@, script_entry@]) ==> joined_path(
                r@,
                seq![self.script_base_path@, scene_name@, script_entry@],
            ),
    {
        let parts = vec![scene_name, script_entry];
        let r = join_all(self.script_base_path.as_str(), &parts);
        assert(seq![self.script_base_path@] + parts@.map_values(|p: &str| p@) =~= seq![
            self.script_base_path@,
            scene_name@,
            script_entry@,
        ]);
        r
    }

    /// The path of the settings file, from the platform and the values of
    /// `APPDATA` and `HOME`.
    pub fn get_config_path(platform: Platform, appdata: Option<String>, home: Option<String>) -> (r:
        String)
        ensures
            ({
                let parts = config_path_parts(platform, opt_text(appdata), opt_text(home));
                relative_parts(parts) ==> joined_path(r@, parts)
            }),
    {
        proof {
            reveal_strlit(".");
            reveal_strlit("afsim-linker");
            reveal_strlit(".config");
            reveal_strlit("config.json");
        }
        assert("."@ =~= current_dir());
        assert("afsim-linker"@ =~= settings_dir_name());
        assert(".config"@ =~= dot_config());
        assert(CONFIG_FILE_NAME@ =~= config_file_name());
        if platform == Platform::Windows {
            let dir = match appdata {
                Some(d) => d,
                None => ".".to_owned(),
            };
            let parts = vec!["afsim-linker", CONFIG_FILE_NAME];
            let r = join_all(dir.as_str(), &parts);
            assert(seq![dir@] + parts@.map_values(|p: &str| p@) =~= config_path_parts(
                platform,
                opt_text(appdata),
                opt_text(home),
            ));
            r
        } else {
            let dir = match home {
                Some(d) => d,
                None => ".".to_owned(),
            };
            let parts = vec![".config", "afsim-linker", CONFIG_FILE_NAME];
            let r = join_all(dir.as_str(), &parts);
            assert(seq![dir@] + parts@.map_values(|p: &str| p@) =~= config_path_parts(
                platform,
                opt_text(appdata),
                opt_text(home),
            ));
            r
        }
    }
}

impl Clone for ExecutorConfig {
    fn clone(&self) -> (r: Self)
        ensures
            r.executable_path@ == self.executable_path@,
            r.script_base_path@ == self.script_base_path@,
    {
        ExecutorConfig {
            executable_path: self.executable_path.clone(),
            script_base_path: self.script_base_path.clone(),
        }
    }
}

} // verus!
