//! The window layout and unit choice that the viewer remembers between runs.
use vstd::prelude::*;

verus! {

/// Window size, pane split positions and the selected unit system's index.
#[derive(Clone, Copy, Debug, PartialEq, Eq, Structural)]
pub struct WindowConfig {
    pub width: i32,
    pub height: i32,
    pub main_split: i32,
    pub left_frame_split: i32,
    pub right_frame_split: i32,
    pub units_index: u32,
}

impl Default for WindowConfig {
    /// An 800 by 600 window, every split at 200, the first unit system.
    fn default() -> (r: Self)
        ensures
            r == (WindowConfig {
                width: 800,
                height: 600,
                main_split: 200,
                left_frame_split: 200,
                right_frame_split: 200,
                units_index: 0,
            }),
    {
        WindowConfig {
            width: 800,
            height: 600,
            main_split: 200,
            left_frame_split: 200,
            right_frame_split: 200,
            units_index: 0,
        }
    }
}

} // verus!
