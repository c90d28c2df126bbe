//! Configuration precedence: CLI flag (or `WEAVER_SOCKET`), then the
//! config file, then the built-in default; `RUST_LOG`, then the file,
//! then `info` for the log level.

use vstd::prelude::*;

verus! {

/// Effective configuration.
#[derive(Debug, PartialEq, Eq)]
pub struct Config {
    pub socket_path: String,
    pub log_level: String,
}

/// `Path::join` of a relative path onto `base`: no separator after an
/// empty base or one ending in `/`.
pub open spec fn join_path(base: Seq<char>, rel: Seq<char>) -> Seq<char> {
    if base.len() == 0 || base.last() == '/' {
        base + rel
    } else {
        base + "/"@ + rel
    }
}

/// `base` joined with the relative path `rel`.
pub fn join(base: &str, rel: &str) -> (r: String)
    ensures
        r@ == join_path(base@, rel@),
{
    let cs = crate::text::chars_of(base);
    let mut s = base.to_owned();
    if cs.len() > 0 && cs[cs.len() - 1] != '/' {
        s.append("/");
    }
    s.append(rel);
    s
}

/// The default socket: `weaver.sock` under `$XDG_RUNTIME_DIR` when it
/// is set, else `/tmp/weaver.sock`.
pub open spec fn spec_default_socket_path(xdg_runtime_dir: Option<Seq<char>>) -> Seq<char> {
    match xdg_runtime_dir {
        Some(x) => join_path(x, "weaver.sock"@),
        None => "/tmp/weaver.sock"@,
    }
}

/// The config file: `weaver/config.toml` under a non-empty
/// `$XDG_CONFIG_HOME`, else `.config/weaver/config.toml` under `$HOME`.
pub open spec fn spec_config_file_path(xdg_config_home: Option<Seq<char>>, home: Option<Seq<char>>) -> Option<Seq<char>> {
    match xdg_config_home {
        Some(x) if x.len() > 0 => Some(join_path(x, "weaver/config.toml"@)),
        _ => match home {
            Some(h) => Some(join_path(h, ".config/weaver/config.toml"@)),
            None => None,
        },
    }
}

/// Where the config file is looked for: under a non-empty
/// `$XDG_CONFIG_HOME` at `weaver/config.toml`; otherwise, whenever `$HOME`
/// is set, at `.config/weaver/config.toml` under it. There is no config
/// file only when neither gives a place.
pub proof fn lemma_config_file_location(xdg_config_home: Option<Seq<char>>, home: Option<Seq<char>>)
    ensures
        xdg_config_home is Some && xdg_config_home.unwrap().len() > 0 ==> spec_config_file_path(xdg_config_home, home)
            == Some(join_path(xdg_config_home.unwrap(), "weaver/config.toml"@)),
        (xdg_config_home is None || xdg_config_home.unwrap().len() == 0) && home is Some ==> spec_config_file_path(
            xdg_config_home,
            home,
        ) == Some(join_path(home.unwrap(), ".config/weaver/config.toml"@)),
        spec_config_file_path(xdg_config_home, home) is None <==> ((xdg_config_home is None
            || xdg_config_home.unwrap().len() == 0) && home is None),
{
}

impl Config {
    /// Default socket path given `$XDG_RUNTIME_DIR`.
    pub fn default_socket_path(xdg_runtime_dir: Option<&str>) -> (r: String)
        ensures
            r@ == spec_default_socket_path(match xdg_runtime_dir {
                Some(x) => Some(x@),
                None => None,
            }),
    {
        match xdg_runtime_dir {
            Some(x) => join(x, "weaver.sock"),
            None => String::from_str("/tmp/weaver.sock"),
        }
    }

    /// Config-file path given `$XDG_CONFIG_HOME` and `$HOME`.
    pub fn config_file_path(xdg_config_home: Option<&str>, home: Option<&str>) -> (r: Option<String>)
        ensures
            match spec_config_file_path(
                match xdg_config_home {
                    Some(x) => Some(x@),
                    None => None,
                },
                match home {
                    Some(h) => Some(h@),
                    None => None,
                },
            ) {
                Some(p) => r matches Some(s) && s@ == p,
                None => r is None,
            },
    {
        match xdg_config_home {
            Some(x) => {
                if !x.is_empty() {
                    return Some(join(x, "weaver/config.toml"));
                }
            },
            None => {},
        }
        match home {
            Some(h) => Some(join(h, ".config/weaver/config.toml")),
            None => None,
        }
    }

    /// Resolve the configuration: the override wins over the file,
    /// which wins over the default socket; `RUST_LOG` wins over the
    /// file's level, which wins over `info`.
    pub fn from_parts(
        socket_override: Option<String>,
        file_socket: Option<String>,
        default_socket: String,
        env_log: Option<String>,
        file_log: Option<String>,
    ) -> (c: Self)
        ensures
            c.socket_path == match socket_override {
                Some(s) => s,
                None => match file_socket {
                    Some(f) => f,
                    None => default_socket,
                },
            },
            match env_log {
                Some(l) => c.log_level == l,
                None => match file_log {
                    Some(l) => c.log_level == l,
                    None => c.log_level@ == "info"@,
                },
            },
    {
        let socket_path = match socket_override {
            Some(s) => s,
            None => match file_socket {
                Some(f) => f,
                None => default_socket,
            },
        };
        let log_level = match env_log {
            Some(l) => l,
            None => match file_log {
                Some(l) => l,
                None => String::from_str("info"),
            },
        };
        Config { socket_path, log_level }
    }
}

} // verus!
