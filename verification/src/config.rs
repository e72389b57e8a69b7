//! Transform configuration.

use vstd::prelude::*;

verus! {

/// The one recognized option: the directory against which namespace
/// resource files are located.
pub struct Config {
    pub base_dir: String,
}

} // verus!
