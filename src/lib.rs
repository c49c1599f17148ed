//! Audio cue player library: the sound library and its lookups, settings, and
//! the self-upgrade core (versions, release assessment, archive extraction and
//! installation by renames).
pub mod archive;
pub mod cli;
pub mod config;
pub mod extract;
pub mod install;
pub mod ordering;
pub mod playback;
pub mod suppression;
pub mod text;
pub mod upgrade;
pub mod version;
