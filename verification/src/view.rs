use vstd::prelude::*;
use crate::display::{Color, Image};
use crate::fixed::UNIT;
use crate::geometry::{
    clamp_axis, clamp_coord, coord_at, image_coord, in_view, lemma_clamp_in_view,
    length_on_screen, near_i32, near_u32, origin_on_screen, rescale, rescale_coord, scaled,
    scaled_size, screen_length, screen_offset, screen_origin,
};
use crate::zoom::Zoom;

verus! {

/// Image currently displayed, and how it is looked at.
#[derive(Clone, Copy, Debug)]
pub struct CurrentImage {
    /// Current image
    pub image: Image,
    /// Point of the image displayed at the center of the screen, in units
    pub pos: (i64, i64),
    /// Rotation angle, in degrees
    pub angle: i32,
    /// Last drag position, None if drag is not active
    pub drag: Option<(i32, i32)>,
    /// Displayed pixel information
    pub pixel_info: Option<((i32, i32), Color)>,
}

/// An angle in degrees brought into the range from 0 to 359.
pub open spec fn turned(angle: int) -> int {
    angle % 360
}

impl CurrentImage {
    /// The centre lies in the image and the angle is a whole turn's part.
    pub open spec fn wf(self) -> bool {
        &&& self.image.wf()
        &&& 0 <= self.pos.0 <= self.image.width * UNIT
        &&& 0 <= self.pos.1 <= self.image.height * UNIT
        &&& 0 <= self.angle < 360
    }

    /// The view shows nothing outside the image.
    pub open spec fn at_rest(self, out: (u32, u32), zoom: Zoom) -> bool {
        &&& in_view(self.pos.0 as int, self.image.width as int, out.0 as int, zoom)
        &&& in_view(self.pos.1 as int, self.image.height as int, out.1 as int, zoom)
    }

    /// The middle of the image.
    pub open spec fn middle(image: Image) -> (i64, i64) {
        ((image.width * (UNIT / 2)) as i64, (image.height * (UNIT / 2)) as i64)
    }

    /// An image as it is first shown: centred, upright, nothing dragged or
    /// inspected.
    pub open spec fn fresh(image: Image) -> CurrentImage {
        CurrentImage { image, pos: Self::middle(image), angle: 0, drag: None, pixel_info: None }
    }

    /// Where the centre `pos` comes to rest.
    pub open spec fn rest(self, pos: (int, int), out: (u32, u32), zoom: Zoom) -> (i64, i64) {
        (
            clamp_axis(pos.0, self.image.width as int, out.0 as int, zoom) as i64,
            clamp_axis(pos.1, self.image.height as int, out.1 as int, zoom) as i64,
        )
    }

    /// The view moved to the centre `pos`, as far as the image allows.
    pub open spec fn moved_to(self, pos: (int, int), out: (u32, u32), zoom: Zoom) -> CurrentImage {
        CurrentImage { pos: self.rest(pos, out, zoom), ..self }
    }

    /// The view with its centre brought to rest.
    pub open spec fn clamped(self, out: (u32, u32), zoom: Zoom) -> CurrentImage {
        self.moved_to((self.pos.0 as int, self.pos.1 as int), out, zoom)
    }

    /// The view moved by an offset.
    pub open spec fn moved_by(self, offset: (int, int), out: (u32, u32), zoom: Zoom)
        -> CurrentImage {
        self.moved_to((self.pos.0 + offset.0, self.pos.1 + offset.1), out, zoom)
    }

    /// The view after the zoom changed from `from` to `to`: with a centre of
    /// zoom, that point of the image stays where it is on screen.
    pub open spec fn zoomed(
        self,
        center: Option<(i64, i64)>,
        from: Zoom,
        to: Zoom,
        out: (u32, u32),
    ) -> CurrentImage {
        match center {
            Some(c) => self.moved_to(
                (
                    rescale(self.pos.0 as int, c.0 as int, from, to),
                    rescale(self.pos.1 as int, c.1 as int, from, to),
                ),
                out,
                to,
            ),
            None => self.clamped(out, to),
        }
    }

    /// The view turned to an angle.
    pub open spec fn rotated_to(self, angle: int) -> CurrentImage {
        CurrentImage { angle: turned(angle) as i32, ..self }
    }

    /// The view turned by an angle.
    pub open spec fn rotated_by(self, angle: int) -> CurrentImage {
        self.rotated_to(self.angle + angle)
    }

    /// The coordinates that are shown at a screen position, in the image or
    /// beside it.
    pub open spec fn under(self, pos: (i32, i32), out: (u32, u32), zoom: Zoom) -> (int, int) {
        (
            self.pos.0 + screen_offset(pos.0 as int, out.0 as int, zoom),
            self.pos.1 + screen_offset(pos.1 as int, out.1 as int, zoom),
        )
    }

    /// The point of the image shown at a screen position, if there is one.
    pub open spec fn point_at(self, pos: (i32, i32), out: (u32, u32), zoom: Zoom) -> Option<
        (i64, i64),
    > {
        let x = image_coord(
            pos.0 as int,
            self.pos.0 as int,
            self.image.width as int,
            out.0 as int,
            zoom,
        );
        let y = image_coord(
            pos.1 as int,
            self.pos.1 as int,
            self.image.height as int,
            out.1 as int,
            zoom,
        );
        if x.is_some() && y.is_some() {
            Some((x.unwrap() as i64, y.unwrap() as i64))
        } else {
            None
        }
    }

    /// The whole image is on screen.
    pub open spec fn fully_visible(self, out: (u32, u32), zoom: Zoom) -> bool {
        out.0 >= scaled(self.image.width as int, zoom) && out.1 >= scaled(
            self.image.height as int,
            zoom,
        )
    }

    /// The rectangle of the screen that the image takes: its left and top
    /// edge, its width and height, in whole pixels.
    pub open spec fn framed(self, out: (u32, u32), zoom: Zoom) -> (i32, i32, u32, u32) {
        (
            near_i32(screen_origin(self.pos.0 as int, out.0 as int, zoom)),
            near_i32(screen_origin(self.pos.1 as int, out.1 as int, zoom)),
            near_u32(screen_length(self.image.width as int, zoom)),
            near_u32(screen_length(self.image.height as int, zoom)),
        )
    }

    /// The rectangle of the screen on which the image is to be drawn.
    pub fn frame(&self, out: (u32, u32), zoom: Zoom) -> (r: (i32, i32, u32, u32))
        requires
            self.wf(),
            zoom.wf(),
        ensures
            r == self.framed(out, zoom),
    {
        assert(UNIT == 65536);
        (
            origin_on_screen(self.pos.0, out.0, zoom),
            origin_on_screen(self.pos.1, out.1, zoom),
            length_on_screen(self.image.width, zoom),
            length_on_screen(self.image.height, zoom),
        )
    }

    /// A decoded image as it is first shown.
    pub fn new(image: Image) -> (r: CurrentImage)
        requires
            image.wf(),
        ensures
            r == Self::fresh(image),
            r.wf(),
    {
        assert(UNIT == 65536);
        CurrentImage {
            image,
            pos: ((image.width as i64) * 32768, (image.height as i64) * 32768),
            angle: 0,
            drag: None,
            pixel_info: None,
        }
    }

    /// Move image to absolute position.
    pub fn move_to(&mut self, pos: (i64, i64), out: (u32, u32), zoom: Zoom)
        requires
            old(self).wf(),
            zoom.wf(),
        ensures
            *final(self) == old(self).moved_to((pos.0 as int, pos.1 as int), out, zoom),
            final(self).wf(),
            final(self).at_rest(out, zoom),
    {
        proof {
            lemma_clamp_in_view(pos.0 as int, self.image.width as int, out.0 as int, zoom);
            lemma_clamp_in_view(pos.1 as int, self.image.height as int, out.1 as int, zoom);
        }
        self.pos = (
            clamp_coord(pos.0 as i128, self.image.width, out.0, zoom),
            clamp_coord(pos.1 as i128, self.image.height, out.1, zoom),
        );
    }

    /// Move image, relatively to current position.
    pub fn move_rel(&mut self, offset: (i64, i64), out: (u32, u32), zoom: Zoom)
        requires
            old(self).wf(),
            zoom.wf(),
        ensures
            *final(self) == old(self).moved_by((offset.0 as int, offset.1 as int), out, zoom),
            final(self).wf(),
            final(self).at_rest(out, zoom),
    {
        proof {
            lemma_clamp_in_view(
                self.pos.0 + offset.0,
                self.image.width as int,
                out.0 as int,
                zoom,
            );
            lemma_clamp_in_view(
                self.pos.1 + offset.1,
                self.image.height as int,
                out.1 as int,
                zoom,
            );
        }
        self.pos = (
            clamp_coord(
                (self.pos.0 as i128) + (offset.0 as i128),
                self.image.width,
                out.0,
                zoom,
            ),
            clamp_coord(
                (self.pos.1 as i128) + (offset.1 as i128),
                self.image.height,
                out.1,
                zoom,
            ),
        );
    }

    /// Clamp image position if needed.
    pub fn clamp_pos(&mut self, out: (u32, u32), zoom: Zoom)
        requires
            old(self).wf(),
            zoom.wf(),
        ensures
            *final(self) == old(self).clamped(out, zoom),
            final(self).wf(),
            final(self).at_rest(out, zoom),
    {
        let pos = self.pos;
        self.move_to(pos, out, zoom);
    }

    /// Follow a change of zoom, around the given point or the current
    /// position.
    pub fn rezoom(&mut self, center: Option<(i64, i64)>, from: Zoom, to: Zoom, out: (u32, u32))
        requires
            old(self).wf(),
            from.wf(),
            to.wf(),
        ensures
            *final(self) == old(self).zoomed(center, from, to, out),
            final(self).wf(),
            final(self).at_rest(out, to),
    {
        match center {
            Some(c) => {
                assert(UNIT == 65536);
                proof {
                    lemma_clamp_in_view(
                        rescale(self.pos.0 as int, c.0 as int, from, to),
                        self.image.width as int,
                        out.0 as int,
                        to,
                    );
                    lemma_clamp_in_view(
                        rescale(self.pos.1 as int, c.1 as int, from, to),
                        self.image.height as int,
                        out.1 as int,
                        to,
                    );
                }
                self.pos = (
                    rescale_coord(self.pos.0, c.0, self.image.width, out.0, from, to),
                    rescale_coord(self.pos.1, c.1, self.image.height, out.1, from, to),
                );
            },
            None => {
                self.clamp_pos(out, to);
            },
        }
    }

    /// Rotate image to given angle, in degrees.
    pub fn rotate_to(&mut self, angle: i32)
        requires
            old(self).wf(),
        ensures
            *final(self) == old(self).rotated_to(angle as int),
            final(self).wf(),
    {
        self.angle = Self::turn(angle as i64);
    }

    /// Rotate image by given angle, in degrees.
    pub fn rotate_rel(&mut self, angle: i32)
        requires
            old(self).wf(),
        ensures
            *final(self) == old(self).rotated_by(angle as int),
            final(self).wf(),
    {
        self.angle = Self::turn((self.angle as i64) + (angle as i64));
    }

    /// Brings an angle into the range from 0 to 359 degrees.
    fn turn(angle: i64) -> (r: i32)
        ensures
            r == turned(angle as int),
            0 <= r < 360,
    {
        let r: i64 = angle % 360;
        if r < 0 {
            (r + 360) as i32
        } else {
            r as i32
        }
    }

    /// Convert screen position to image position.
    pub fn screen_to_image_pos(&self, pos: (i32, i32), out: (u32, u32), zoom: Zoom) -> (r: Option<
        (i64, i64),
    >)
        requires
            self.wf(),
            zoom.wf(),
        ensures
            r == self.point_at(pos, out, zoom),
    {
        let x = coord_at(pos.0, self.pos.0, self.image.width, out.0, zoom);
        let y = coord_at(pos.1, self.pos.1, self.image.height, out.1, zoom);
        match (x, y) {
            (Some(cx), Some(cy)) => Some((cx, cy)),
            _ => None,
        }
    }

    /// Return true if the whole image fits in the display.
    pub fn is_adjusted(&self, out: (u32, u32), zoom: Zoom) -> (r: bool)
        requires
            zoom.wf(),
        ensures
            r == self.fully_visible(out, zoom),
    {
        (out.0 as u128) >= scaled_size(self.image.width, zoom) && (out.1 as u128) >= scaled_size(
            self.image.height,
            zoom,
        )
    }
}

} // verus!
