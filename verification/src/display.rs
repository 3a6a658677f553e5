use vstd::prelude::*;

verus! {

/// List of available fonts, to be used by the display user.
#[derive(Clone, Copy, Debug, PartialEq, Eq, Structural)]
pub enum Font {
    Normal,
    Mono,
}

/// A colour with its opacity.
#[derive(Clone, Copy, Debug, PartialEq, Eq, Structural)]
pub struct Color {
    pub r: u8,
    pub g: u8,
    pub b: u8,
    pub a: u8,
}

/// A colour channel made brighter or darker by `offset`, and no further
/// than it goes.
pub open spec fn shifted(channel: u8, offset: int) -> u8 {
    if channel + offset > 255 {
        255
    } else if channel + offset < 0 {
        0
    } else {
        (channel + offset) as u8
    }
}

impl Color {
    /// The colour made brighter, or darker, by `offset` steps of 256 on
    /// each channel; its opacity stays.
    pub open spec fn brightened(self, offset: i32) -> Color {
        Color {
            r: shifted(self.r, offset as int),
            g: shifted(self.g, offset as int),
            b: shifted(self.b, offset as int),
            a: self.a,
        }
    }

    /// Change color brightness.
    pub fn brightness_rel(self, offset: i32) -> (r: Color)
        ensures
            r == self.brightened(offset),
    {
        if offset > 0 {
            let up: u8 = if offset > 255 {
                255
            } else {
                offset as u8
            };
            Color {
                r: self.r.saturating_add(up),
                g: self.g.saturating_add(up),
                b: self.b.saturating_add(up),
                a: self.a,
            }
        } else {
            let down: u8 = if offset < -255 {
                255
            } else {
                (-offset) as u8
            };
            Color {
                r: self.r.saturating_sub(down),
                g: self.g.saturating_sub(down),
                b: self.b.saturating_sub(down),
                a: self.a,
            }
        }
    }
}

/// Image to be displayed: what the view needs to know of a decoded file.
#[derive(Clone, Copy, Debug, PartialEq, Eq, Structural)]
pub struct Image {
    pub width: u32,
    pub height: u32,
}

impl Image {
    /// A decoded image has at least one pixel.
    pub open spec fn wf(self) -> bool {
        self.width > 0 && self.height > 0
    }

    /// The image of the given size, or `None` when it has no pixel.
    pub fn new(width: u32, height: u32) -> (r: Option<Image>)
        ensures
            r == if width > 0 && height > 0 {
                Some(Image { width, height })
            } else {
                None
            },
    {
        if width > 0 && height > 0 {
            Some(Image { width, height })
        } else {
            None
        }
    }

    /// Width and height in pixels.
    pub fn size(&self) -> (r: (u32, u32))
        ensures
            r == (self.width, self.height),
    {
        (self.width, self.height)
    }
}

} // verus!
