//! Settings taken from the environment (`HELIX_*` variables) on top of a base
//! configuration.

use vstd::prelude::*;

use super::{is_default_config, Config};
use crate::utils::text::{equals_str, strings_view};
use crate::utils::number::{parse_i32, parse_u32, parsed_i32, parsed_u32};

verus! {

/// The values of the `HELIX_*` environment variables that are set.
pub struct EnvOverrides {
    /// `HELIX_BLOCK_SIZE`
    pub block_size: Option<String>,
    /// `HELIX_COMPRESSION_LEVEL`
    pub compression_level: Option<String>,
    /// `HELIX_REPOSITORY_PATH`
    pub repository_path: Option<String>,
    /// `HELIX_ENCRYPTION_KEY`
    pub encryption_key: Option<String>,
    /// `HELIX_LOG_LEVEL`
    pub log_level: Option<String>,
}

/// Whether every numeric override reads as a number of its type.
pub open spec fn overrides_parse(vars: EnvOverrides) -> bool {
    &&& (vars.block_size matches Some(v) ==> parsed_u32(v@) is Some)
    &&& (vars.compression_level matches Some(v) ==> parsed_i32(v@) is Some)
}

/// `c` is `base` with each set variable of `vars` applied.
pub open spec fn overridden_by_env(c: Config, base: Config, vars: EnvOverrides) -> bool {
    &&& c.block_size == (match vars.block_size {
        Some(v) => parsed_u32(v@).unwrap(),
        None => base.block_size,
    })
    &&& c.compression_level == (match vars.compression_level {
        Some(v) => parsed_i32(v@).unwrap(),
        None => base.compression_level,
    })
    &&& c.storage.repository_path@ == (match vars.repository_path {
        Some(v) => v@,
        None => base.storage.repository_path@,
    })
    &&& c.encryption.enabled == (vars.encryption_key is Some || base.encryption.enabled)
    &&& (match vars.encryption_key {
        Some(v) => c.encryption.key_path matches Some(p) && p@ == v@,
        None => c.encryption.key_path == base.encryption.key_path,
    })
    &&& c.logging.level@ == (match vars.log_level {
        Some(v) => v@,
        None => base.logging.level@,
    })
    &&& c.encryption.cipher == base.encryption.cipher
    &&& c.encryption.kms_provider == base.encryption.kms_provider
    &&& c.storage.temp_path == base.storage.temp_path
    &&& c.storage.max_parallel_io == base.storage.max_parallel_io
    &&& c.storage.compression == base.storage.compression
    &&& c.backup == base.backup
    &&& c.logging.file == base.logging.file
    &&& c.logging.format == base.logging.format
    &&& c.performance == base.performance
    &&& c.tracking == base.tracking
    &&& c.restore == base.restore
}

/// `base` with each set variable applied: the block size and compression level
/// parsed, the repository path and log level taken as given, and an encryption
/// key path that also turns encryption on. `None` when a number does not parse.
pub fn apply_env_overrides(base: Config, vars: &EnvOverrides) -> (r: Option<Config>)
    ensures
        r is Some <==> overrides_parse(*vars),
        r matches Some(c) ==> overridden_by_env(c, base, *vars),
{
    let mut config = base;
    match &vars.block_size {
        Some(v) => match parse_u32(v.as_str()) {
            Some(n) => config.block_size = n,
            None => return None,
        },
        None => {},
    }
    match &vars.compression_level {
        Some(v) => match parse_i32(v.as_str()) {
            Some(n) => config.compression_level = n,
            None => return None,
        },
        None => {},
    }
    match &vars.repository_path {
        Some(v) => config.storage.repository_path = v.clone(),
        None => {},
    }
    match &vars.encryption_key {
        Some(v) => {
            config.encryption.enabled = true;
            config.encryption.key_path = Some(v.clone());
        },
        None => {},
    }
    match &vars.log_level {
        Some(v) => config.logging.level = v.clone(),
        None => {},
    }
    Some(config)
}

/// `name` appended to the directory `base`, with a `/` between them unless
/// `base` is empty or ends with one (as `Path::join` does for a relative name).
pub open spec fn join_path(base: Seq<char>, name: Seq<char>) -> Seq<char> {
    if base.len() == 0 || base.last() == '/' {
        base + name
    } else {
        base + "/"@ + name
    }
}

/// `name` appended to the directory `base`.
pub fn join_path_str(base: &str, name: &str) -> (r: String)
    ensures
        r@ == join_path(base@, name@),
{
    let n = base.unicode_len();
    let mut r = String::from_str(base);
    if n > 0 && base.get_char(n - 1) != '/' {
        r.append("/");
    }
    r.append(name);
    r
}

/// The directory that holds per-user configuration: on Linux
/// `$XDG_CONFIG_HOME`, else `$HOME/.config`; on macOS
/// `$HOME/Library/Application Support`; elsewhere `$HOME`.
pub open spec fn config_home_for(target_os: Seq<char>, xdg_config_home: Option<Seq<char>>, home: Option<Seq<char>>) -> Option<
    Seq<char>,
> {
    if target_os == "linux"@ {
        match xdg_config_home {
            Some(x) => Some(x),
            None => match home {
                Some(h) => Some(join_path(h, ".config"@)),
                None => None,
            },
        }
    } else if target_os == "macos"@ {
        match home {
            Some(h) => Some(join_path(join_path(h, "Library"@), "Application Support"@)),
            None => None,
        }
    } else {
        home
    }
}

/// An optional string by its contents.
pub open spec fn opt_str_view(o: Option<&str>) -> Option<Seq<char>> {
    match o {
        Some(s) => Some(s@),
        None => None,
    }
}

/// The directory that holds per-user configuration on `target_os`, from the
/// values of `XDG_CONFIG_HOME` and `HOME`.
pub fn config_home_dir(target_os: &str, xdg_config_home: Option<&str>, home: Option<&str>) -> (r: Option<String>)
    ensures
        match config_home_for(target_os@, opt_str_view(xdg_config_home), opt_str_view(home)) {
            Some(d) => r matches Some(s) && s@ == d,
            None => r is None,
        },
{
    let os = String::from_str(target_os);
    if equals_str(&os, "linux") {
        match xdg_config_home {
            Some(x) => Some(String::from_str(x)),
            None => match home {
                Some(h) => Some(join_path_str(h, ".config")),
                None => None,
            },
        }
    } else if equals_str(&os, "macos") {
        match home {
            Some(h) => {
                let lib = join_path_str(h, "Library");
                Some(join_path_str(lib.as_str(), "Application Support"))
            },
            None => None,
        }
    } else {
        match home {
            Some(h) => Some(String::from_str(h)),
            None => None,
        }
    }
}

/// The configuration files looked for, in order: four names in the working
/// directory, `helix/config.yaml` in the per-user configuration directory,
/// then `/etc/helix/config.yaml`.
pub open spec fn candidate_config_files(cwd: Option<Seq<char>>, config_home: Option<Seq<char>>) -> Seq<Seq<char>> {
    (match cwd {
        Some(d) => seq![
            join_path(d, "helix.yaml"@),
            join_path(d, "helix.yml"@),
            join_path(d, "config.yaml"@),
            join_path(d, "helix.config.yaml"@),
        ],
        None => Seq::empty(),
    }) + (match config_home {
        Some(h) => seq![join_path(join_path(h, "helix"@), "config.yaml"@)],
        None => Seq::empty(),
    }) + seq!["/etc/helix/config.yaml"@]
}

/// The configuration files looked for, in order, given the working directory
/// and the per-user configuration directory when they are known.
pub fn config_file_paths(cwd: Option<&str>, config_home: Option<&str>) -> (r: Vec<String>)
    ensures
        strings_view(r@) == candidate_config_files(opt_str_view(cwd), opt_str_view(config_home)),
{
    let mut paths: Vec<String> = Vec::new();
    match cwd {
        Some(d) => {
            paths.push(join_path_str(d, "helix.yaml"));
            paths.push(join_path_str(d, "helix.yml"));
            paths.push(join_path_str(d, "config.yaml"));
            paths.push(join_path_str(d, "helix.config.yaml"));
        },
        None => {},
    }
    let ghost first = strings_view(paths@);
    match config_home {
        Some(h) => {
            let dir = join_path_str(h, "helix");
            paths.push(join_path_str(dir.as_str(), "config.yaml"));
        },
        None => {},
    }
    let ghost second = strings_view(paths@);
    paths.push(String::from_str("/etc/helix/config.yaml"));
    assert(strings_view(paths@) =~= candidate_config_files(opt_str_view(cwd), opt_str_view(config_home)));
    paths
}

/// Where the settings come from.
pub enum ConfigSource {
    /// Read and parse this file.
    File(String),
    /// These settings.
    Settings(Config),
}

/// The settings to use: the file named, else the first configuration file
/// found (`first_existing`), else the environment's overrides over the
/// defaults for `target_os`, else (when an override does not parse) the
/// defaults.
pub fn load_config(path: Option<&str>, first_existing: Option<&str>, env: &EnvOverrides, target_os: &str) -> (r:
    ConfigSource)
    ensures
        path matches Some(p) ==> (r matches ConfigSource::File(f) && f@ == p@),
        path is None && first_existing is Some ==> (r matches ConfigSource::File(f) && f@ == first_existing->0@),
        path is None && first_existing is None ==> (r matches ConfigSource::Settings(c) && if overrides_parse(
            *env,
        ) {
            exists|base: Config| is_default_config(base, target_os@) && #[trigger] overridden_by_env(c, base, *env)
        } else {
            is_default_config(c, target_os@)
        }),
{
    match path {
        Some(p) => ConfigSource::File(String::from_str(p)),
        None => match first_existing {
            Some(p) => ConfigSource::File(String::from_str(p)),
            None => {
                let base = Config::default_for(target_os);
                let ghost b = base;
                match apply_env_overrides(base, env) {
                    Some(c) => {
                        assert(is_default_config(b, target_os@) && overridden_by_env(c, b, *env));
                        ConfigSource::Settings(c)
                    },
                    None => ConfigSource::Settings(Config::default_for(target_os)),
                }
            },
        },
    }
}

} // verus!
