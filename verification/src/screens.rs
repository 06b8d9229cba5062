//! The screens the manager shows.
use vstd::prelude::*;

verus! {

/// The screen the manager shows: the loading screen while the vanilla game
/// is copied, then the home screen.
#[derive(Debug, Clone, Copy, PartialEq, Eq, Structural)]
pub enum Screen {
    Loading,
    Home,
}

impl Default for Screen {
    fn default() -> (s: Screen)
        ensures
            s == Screen::Loading,
    {
        Screen::Loading
    }
}

} // verus!
