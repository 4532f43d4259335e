//! Application settings and their defaults.

use vstd::prelude::*;

use crate::history::{path_from_home, spec_path_from_home};
use crate::outside::home_dir_string;

verus! {

/// General application settings.
#[derive(Debug, Clone)]
pub struct GeneralConfig {
    pub ssh_config_path: String,
    pub socket_dir: String,
    pub auto_restore: bool,
    pub max_recent_hosts: usize,
}

/// Settings of the terminal interface.
#[derive(Debug, Clone)]
pub struct UiConfig {
    pub show_all_hosts: bool,
}

/// All persisted settings.
#[derive(Debug, Clone)]
pub struct AppConfig {
    pub general: GeneralConfig,
    pub ui: UiConfig,
}

/// Mathematical image of the settings.
#[verifier::ext_equal]
pub struct ConfigV {
    pub ssh_config_path: Seq<char>,
    pub socket_dir: Seq<char>,
    pub auto_restore: bool,
    pub max_recent_hosts: usize,
    pub show_all_hosts: bool,
}

impl View for AppConfig {
    type V = ConfigV;

    open spec fn view(&self) -> ConfigV {
        ConfigV {
            ssh_config_path: self.general.ssh_config_path@,
            socket_dir: self.general.socket_dir@,
            auto_restore: self.general.auto_restore,
            max_recent_hosts: self.general.max_recent_hosts,
            show_all_hosts: self.ui.show_all_hosts,
        }
    }
}

/// How many recent hosts are kept by default.
pub fn default_max_recent() -> (r: usize)
    ensures
        r == 10,
{
    10
}

/// Serde-style default for flags that start switched on.
pub fn default_true() -> (r: bool)
    ensures
        r == true,
{
    true
}

/// The default SSH config location under a given home directory.
pub fn default_ssh_config_path_with(home: Option<&str>) -> (r: String)
    ensures
        r@ == spec_path_from_home(
            (match home {
                Some(h) => Some(h@),
                None => None,
            }),
            ".ssh/config"@,
        ),
{
    path_from_home(home, ".ssh/config")
}

/// The default control-socket directory under a given home directory.
pub fn default_socket_dir_with(home: Option<&str>) -> (r: String)
    ensures
        r@ == spec_path_from_home(
            (match home {
                Some(h) => Some(h@),
                None => None,
            }),
            ".config/stm/sockets"@,
        ),
{
    path_from_home(home, ".config/stm/sockets")
}

impl GeneralConfig {
    /// The defaults, with paths laid out under the given home directory.
    pub fn default_with(home: Option<&str>) -> (r: GeneralConfig)
        ensures
            r.ssh_config_path@ == spec_path_from_home(
                (match home {
                    Some(h) => Some(h@),
                    None => None,
                }),
                ".ssh/config"@,
            ),
            r.socket_dir@ == spec_path_from_home(
                (match home {
                    Some(h) => Some(h@),
                    None => None,
                }),
                ".config/stm/sockets"@,
            ),
            r.auto_restore == false,
            r.max_recent_hosts == 10,
    {
        GeneralConfig {
            ssh_config_path: default_ssh_config_path_with(home),
            socket_dir: default_socket_dir_with(home),
            auto_restore: false,
            max_recent_hosts: default_max_recent(),
        }
    }
}

impl Default for GeneralConfig {
    /// The defaults, with paths laid out under the current home directory.
    fn default() -> (r: GeneralConfig)
        ensures
            r.auto_restore == false,
            r.max_recent_hosts == 10,
            exists|home: Option<Seq<char>>|
                {
                    &&& r.ssh_config_path@ == spec_path_from_home(home, ".ssh/config"@)
                    &&& r.socket_dir@ == spec_path_from_home(home, ".config/stm/sockets"@)
                },
    {
        let home = home_dir_string();
        match home {
            Some(h) => {
                let r = GeneralConfig::default_with(Some(h.as_str()));
                proof {
                    assert(r.ssh_config_path@ == spec_path_from_home(Some(h@), ".ssh/config"@));
                }
                r
            },
            None => {
                let r = GeneralConfig::default_with(None);
                proof {
                    assert(r.ssh_config_path@ == spec_path_from_home(None, ".ssh/config"@));
                }
                r
            },
        }
    }
}

impl Default for UiConfig {
    /// All hosts shown by default.
    fn default() -> (r: UiConfig)
        ensures
            r.show_all_hosts == true,
    {
        UiConfig { show_all_hosts: true }
    }
}

impl Default for AppConfig {
    /// The default settings.
    fn default() -> (r: AppConfig)
        ensures
            r.general.auto_restore == false,
            r.general.max_recent_hosts == 10,
            r.ui.show_all_hosts == true,
    {
        AppConfig { general: GeneralConfig::default(), ui: UiConfig::default() }
    }
}

impl AppConfig {
    /// Where the settings file lives: `.config/stm/config.toml` under the
    /// home directory, or relative to the working directory without one.
    pub fn config_path() -> (r: String)
        ensures
            exists|home: Option<Seq<char>>| r@ == spec_path_from_home(
                home,
                ".config/stm/config.toml"@,
            ),
    {
        let home = home_dir_string();
        match home {
            Some(h) => {
                let r = path_from_home(Some(h.as_str()), ".config/stm/config.toml");
                proof {
                    assert(r@ == spec_path_from_home(Some(h@), ".config/stm/config.toml"@));
                }
                r
            },
            None => {
                let r = path_from_home(None, ".config/stm/config.toml");
                proof {
                    assert(r@ == spec_path_from_home(None, ".config/stm/config.toml"@));
                }
                r
            },
        }
    }
}

} // verus!
