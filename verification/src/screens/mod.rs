//! Screen definitions of the palette plugin.

pub mod command_palette;
pub mod ranking;
pub mod render;

use vstd::prelude::*;



verus! {

/// Which screen the plugin shows.
#[derive(Clone, Copy, Debug, PartialEq, Eq, Structural)]
pub enum ActiveScreen {
    Hidden,
    Palette,
}

} // verus!

