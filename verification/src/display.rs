use vstd::prelude::*;

verus! {

/// Represents the display's width in pixels.
pub const DISPLAY_WIDTH: usize = 64;

/// Represents the display's height in pixels.
pub const DISPLAY_HEIGHT: usize = 32;

/// The port to a rendering backend: the host implements it with whatever
/// technology turns the boolean framebuffer into pixels.
pub trait Display {
    /// Erases the visible output.
    fn clear(&mut self);

    /// Renders the display data on screen: 64x32 pixels, row-major.
    fn render(&mut self, display_data: &Vec<bool>);
}

} // verus!
