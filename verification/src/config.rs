//! Window and application sizing.
use vstd::prelude::*;

verus! {

/// Size of the drawable surface, in physical pixels.
#[derive(Clone, Copy, Debug, PartialEq, Eq, Structural)]
pub struct WindowSize {
    pub width: u32,
    pub height: u32,
}

impl WindowSize {
    pub fn new(width: u32, height: u32) -> (size: Self)
        ensures
            size.width == width,
            size.height == height,
    {
        Self { width, height }
    }
}

} // verus!

verus! {

/// Side of the square window opened when no size is configured.
pub const DEFAULT_SIDE: u32 = 500;

/// Startup configuration of the demo application.
#[derive(Clone, Copy, Debug, PartialEq, Eq, Structural)]
pub struct AppConfig {
    pub size: WindowSize,
}

impl AppConfig {
    /// A configuration with `size`, or a zero size when none is given.
    pub fn new(size: Option<WindowSize>) -> (config: Self)
        ensures
            size is Some ==> config.size == size->0,
            size is None ==> config.size == (WindowSize { width: 0, height: 0 }),
    {
        match size {
            Some(s) => AppConfig { size: s },
            None => AppConfig { size: WindowSize { width: 0, height: 0 } },
        }
    }
}

impl Default for AppConfig {
    /// A 500 x 500 window.
    fn default() -> (config: Self)
        ensures
            config.size == (WindowSize { width: DEFAULT_SIDE, height: DEFAULT_SIDE }),
    {
        AppConfig { size: WindowSize::new(DEFAULT_SIDE, DEFAULT_SIDE) }
    }
}

} // verus!
