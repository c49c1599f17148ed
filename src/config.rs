//! Where the sound library lives: an environment override, a config file, or a
//! default under the home directory.
use vstd::prelude::*;
use crate::text::{join_path, path_joined};

verus! {

/// Errors of reading the config file.
#[derive(Debug, Clone)]
pub enum ConfigError {
    ReadError(String),
    ParseError(String),
}

/// The settings of the player.
#[derive(Debug, Clone)]
pub struct Config {
    pub sounds_path: String,
}

/// A path with a leading `~` resolved against the home directory `home`:
/// `~/rest` is `rest` joined to `home`, `~` alone is `home`, anything else is
/// kept as it is.
pub open spec fn expand_tilde_spec(path: Seq<char>, home: Seq<char>) -> Seq<char> {
    if path.len() >= 2 && path[0] == '~' && path[1] == '/' {
        path_joined(home, path.subrange(2, path.len() as int))
    } else if path == "~"@ {
        home
    } else {
        path
    }
}

/// Resolve a leading `~` of a path against the home directory `home`.
pub fn expand_tilde(path: &str, home: &str) -> (r: String)
    ensures
        r@ == expand_tilde_spec(path@, home@),
{
    let n = path.unicode_len();
    if n >= 2 && path.get_char(0) == '~' && path.get_char(1) == '/' {
        join_path(home, path.substring_char(2, n))
    } else if n == 1 && path.get_char(0) == '~' {
        proof {
            reveal_strlit("~");
            assert(path@ =~= "~"@);
        }
        String::from_str(home)
    } else {
        proof {
            reveal_strlit("~");
            if path@ == "~"@ {
                assert(path@.len() == 1);
            }
        }
        String::from_str(path)
    }
}

/// The default library path: `.cue/sounds` under the home directory.
pub open spec fn default_sounds_path(home: Seq<char>) -> Seq<char> {
    path_joined(path_joined(home, ".cue"@), "sounds"@)
}

/// The library path chosen from the sources in order of precedence: a non-empty
/// environment value, then the path of a config file, then the default; the
/// first two with `~` resolved.
pub open spec fn sounds_path_spec(env: Option<Seq<char>>, file: Option<Seq<char>>, home: Seq<char>) -> Seq<char> {
    match env {
        Some(e) if e.len() > 0 => expand_tilde_spec(e, home),
        _ => match file {
            Some(f) => expand_tilde_spec(f, home),
            None => default_sounds_path(home),
        },
    }
}

impl Config {
    /// The configuration for an environment value (if set), the `sounds_path`
    /// of a config file (if one exists) and the home directory.
    pub fn resolve(env_value: Option<&str>, file_value: Option<&str>, home: &str) -> (r: Config)
        ensures
            r.sounds_path@ == sounds_path_spec(
                match env_value {
                    Some(e) => Some(e@),
                    None => None,
                },
                match file_value {
                    Some(f) => Some(f@),
                    None => None,
                },
                home@,
            ),
    {
        if let Some(e) = env_value {
            if e.unicode_len() > 0 {
                return Config { sounds_path: expand_tilde(e, home) };
            }
        }
        match file_value {
            Some(f) => Config { sounds_path: expand_tilde(f, home) },
            None => Config::default_for(home),
        }
    }

    /// The default configuration for a home directory.
    pub fn default_for(home: &str) -> (r: Config)
        ensures
            r.sounds_path@ == default_sounds_path(home@),
    {
        let base = join_path(home, ".cue");
        Config { sounds_path: join_path(base.as_str(), "sounds") }
    }
}

} // verus!
