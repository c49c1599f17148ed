//! The commands of the player.
use vstd::prelude::*;

verus! {

/// What the user asked for.
#[derive(Debug, Clone)]
pub enum Command {
    /// Play a random sound of a category, at a volume in percent; `force`
    /// plays even while a blocking application runs.
    Play { category: String, volume: u32, force: bool },
    /// List the categories, or the sounds of one.
    List { category: Option<String> },
    /// Play one named sound of a category.
    Preview { category: String, sound: String, volume: u32 },
    /// Check for a newer release, and install it unless `check` is set.
    Upgrade { check: bool },
}

/// A parsed command line.
#[derive(Debug, Clone)]
pub struct Cli {
    pub command: Command,
}

} // verus!
