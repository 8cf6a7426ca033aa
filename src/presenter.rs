use vstd::prelude::*;

verus! {

/// Host-side input delivered to the core once per frame.
pub enum PresentEvent {
    Inputs { keymap: u32, touch: Option<(u8, u8)> },
    Quit,
}

/// A rectangle of the host window that shows one guest screen.
pub struct PresenterScreen {
    pub x: u32,
    pub y: u32,
    pub width: u32,
    pub height: u32,
}

impl PresenterScreen {
    pub fn new(x: u32, y: u32, width: u32, height: u32) -> (r: Self)
        ensures
            r.x == x,
            r.y == y,
            r.width == width,
            r.height == height,
    {
        PresenterScreen { x, y, width, height }
    }

    pub open spec fn contains(&self, x: int, y: int) -> bool {
        self.x <= x < self.x + self.width && self.y <= y < self.y + self.height
    }

    /// Whether the host point `(x, y)` lies inside this screen.
    pub fn is_within(&self, x: u32, y: u32) -> (r: bool)
        ensures
            r == self.contains(x as int, y as int),
    {
        x >= self.x && (x - self.x) < self.width && y >= self.y && (y - self.y) < self.height
    }

    /// The host point `(x, y)` relative to the screen's top-left corner.
    pub fn normalize(&self, x: u32, y: u32) -> (r: (u32, u32))
        requires
            x >= self.x,
            y >= self.y,
        ensures
            r.0 == x - self.x,
            r.1 == y - self.y,
    {
        (x - self.x, y - self.y)
    }
}

} // verus!
