//! Slot-based window jumping for X11 desktops: the rules that find a window
//! again, the store of slots, and the editor state of the configuration GUI.
use vstd::prelude::*;

pub mod cli;
pub mod editor;
pub mod fonts;
pub mod matching;
pub mod model;
pub mod numfmt;
pub mod order;
pub mod presentation;
pub mod shell;
pub mod split;
pub mod store;
pub mod suggest;
pub mod text;
pub mod view;
pub mod wmctrl;

verus! {

/// The version number written into fresh configuration and state files.
pub fn version_one() -> (v: u32)
    ensures
        v == 1,
{
    1
}

} // verus!
