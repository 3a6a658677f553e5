use vstd::prelude::*;
use crate::display::{Color, Image};
use crate::filelist::{ascending, lists, names, position, stepped, wrapped, FileList};
use crate::fixed::UNIT;
use crate::geometry::{page, page_length};
use crate::paths::image_path;
use crate::view::CurrentImage;
use crate::zoom::{lemma_clamped_in_range, Zoom};

verus! {

/// Margin, in units, by which a page may run over the end of the image
/// before the next file is shown: one pixel and a half.
pub const MARGIN: i64 = 98304;

/// How a file is shown once it is decoded.
#[derive(Clone, Copy, Debug, PartialEq, Eq, Structural)]
pub enum Placement {
    /// Centred, at the current zoom.
    Centered,
    /// Centred, at the zoom at which it is shown whole.
    Fitted,
    /// At its top left corner, at the current zoom.
    Top,
    /// At its bottom left corner, at the current zoom.
    Bottom,
}

/// What the browser is doing.
#[derive(Clone, Copy, Debug, PartialEq, Eq, Structural)]
pub enum Mode {
    /// The list is empty and no file is selected.
    Empty,
    /// A file is selected and no image of it is shown.
    Invalid,
    /// The selected file is shown.
    Active,
}

/// The browser as contracts speak of it.
pub struct State {
    /// The file list.
    pub files: Seq<Seq<u8>>,
    /// Index of the current file in the list.
    pub index: Option<usize>,
    /// The current image, where the current file is decoded.
    pub image: Option<CurrentImage>,
    /// The current zoom.
    pub zoom: Zoom,
    /// A redraw is required.
    pub dirty: bool,
    /// The current file is to be decoded and then shown like this.
    pub awaiting: Option<Placement>,
}

/// A position of the file list as a machine integer.
pub open spec fn slot(index: Option<int>) -> Option<usize> {
    match index {
        Some(i) => Some(i as usize),
        None => None,
    }
}

/// The centre from which an image sets out to its placement.
pub open spec fn start(placement: Placement, image: Image) -> (int, int) {
    match placement {
        Placement::Centered | Placement::Fitted => (
            image.width * (UNIT / 2),
            image.height * (UNIT / 2),
        ),
        Placement::Top => (0, 0),
        Placement::Bottom => (0, image.height * UNIT),
    }
}

/// The pixel in which a coordinate of the image lies, as far as its number
/// can be told.
pub open spec fn pixel(c: i64) -> i32 {
    if c / UNIT > i32::MAX {
        i32::MAX
    } else {
        (c / UNIT) as i32
    }
}

impl State {
    /// A file is selected unless the list is empty, an image is shown only
    /// of the selected file, and a decode is awaited only while none is
    /// shown.
    pub open spec fn wf(self) -> bool {
        &&& ascending(self.files)
        &&& forall|i: int| 0 <= i < self.files.len() ==> image_path(#[trigger] self.files[i])
        &&& self.files.len() <= usize::MAX
        &&& match self.index {
            Some(i) => i < self.files.len(),
            None => self.files.len() == 0,
        }
        &&& match self.image {
            Some(v) => v.wf() && self.index.is_some() && self.awaiting.is_none(),
            None => true,
        }
        &&& self.awaiting.is_some() ==> self.index.is_some()
        &&& self.zoom.wf()
    }

    /// The browser before it is given files.
    pub open spec fn initial() -> State {
        State {
            files: Seq::empty(),
            index: None,
            image: None,
            zoom: Zoom { num: 1, den: 1 },
            dirty: true,
            awaiting: None,
        }
    }

    /// What the browser is doing.
    pub open spec fn mode(self) -> Mode {
        if self.index.is_none() {
            Mode::Empty
        } else if self.image.is_none() {
            Mode::Invalid
        } else {
            Mode::Active
        }
    }

    /// The position that a raw index selects; without an index it is the
    /// position that is selected already.
    pub open spec fn target(self, index: Option<i64>) -> Option<usize> {
        match index {
            Some(i) => slot(wrapped(self.files.len() as int, Some(i as int))),
            None => self.index,
        }
    }

    /// The position that lies `offset` files after the current one.
    pub open spec fn neighbour(self, offset: int) -> Option<usize> {
        slot(stepped(self.files.len() as int, position(self.index), offset))
    }

    /// The file that is to be decoded when `target` gets selected: none
    /// when it is selected already.
    pub open spec fn request(self, target: Option<usize>) -> Option<usize> {
        if target == self.index {
            None
        } else {
            target
        }
    }

    /// The browser after `target` got selected: unchanged when it was
    /// selected already, and otherwise without image until the file is
    /// decoded.
    pub open spec fn selected(self, target: Option<usize>, placement: Placement) -> State {
        if target == self.index {
            self
        } else {
            State {
                index: target,
                image: None,
                dirty: true,
                awaiting: match target {
                    Some(_) => Some(placement),
                    None => None,
                },
                ..self
            }
        }
    }

    /// The browser after the decode of file `index` was reported: an
    /// awaited image is shown as its placement says, a failure leaves the
    /// file selected without image, and a report that is not awaited
    /// changes nothing.
    pub open spec fn loaded(self, index: usize, image: Option<Image>, out: (u32, u32)) -> State {
        if self.awaiting.is_some() && self.index == Some(index) {
            match image {
                Some(img) => {
                    let placement = self.awaiting.unwrap();
                    let zoom = if placement == Placement::Fitted {
                        Zoom::fitting(out, (img.width, img.height))
                    } else {
                        self.zoom
                    };
                    State {
                        image: Some(
                            CurrentImage::fresh(img).moved_to(start(placement, img), out, zoom),
                        ),
                        zoom,
                        dirty: true,
                        awaiting: None,
                        ..self
                    }
                },
                None => State { dirty: true, awaiting: None, ..self },
            }
        } else {
            self
        }
    }

    /// The view, if there is one, shows nothing outside the image.
    pub open spec fn rests(self, out: (u32, u32)) -> bool {
        match self.image {
            Some(v) => v.at_rest(out, self.zoom),
            None => true,
        }
    }

    /// The browser with its image, if it shows one, replaced.
    pub open spec fn showing(self, image: CurrentImage) -> State {
        State { image: Some(image), dirty: true, ..self }
    }

    /// The browser after a move to a position.
    pub open spec fn moved_to(self, pos: (int, int), out: (u32, u32)) -> State {
        match self.image {
            Some(v) => self.showing(v.moved_to(pos, out, self.zoom)),
            None => self,
        }
    }

    /// The browser after a move by an offset.
    pub open spec fn moved_by(self, offset: (int, int), out: (u32, u32)) -> State {
        match self.image {
            Some(v) => self.showing(v.moved_by(offset, out, self.zoom)),
            None => self,
        }
    }

    /// The browser after its position was brought to rest.
    pub open spec fn clamped(self, out: (u32, u32)) -> State {
        match self.image {
            Some(v) => self.showing(v.clamped(out, self.zoom)),
            None => self,
        }
    }

    /// The browser after the zoom was set: the zoom is brought into the
    /// range that can be set, and the view follows it.
    pub open spec fn zoomed(self, zoom: Zoom, center: Option<(i64, i64)>, out: (u32, u32))
        -> State {
        match self.image {
            Some(v) => State {
                zoom: zoom.clamped(),
                ..self.showing(v.zoomed(center, self.zoom, zoom.clamped(), out))
            },
            None => self,
        }
    }

    /// The browser after one step in.
    pub open spec fn zoomed_in(self, center: Option<(i64, i64)>, out: (u32, u32)) -> State {
        match self.zoom.step_above() {
            Some(zoom) => self.zoomed(zoom, center, out),
            None => self,
        }
    }

    /// The browser after one step out.
    pub open spec fn zoomed_out(self, center: Option<(i64, i64)>, out: (u32, u32)) -> State {
        match self.zoom.step_below() {
            Some(zoom) => self.zoomed(zoom, center, out),
            None => self,
        }
    }

    /// The browser after the zoom was set to show the whole image.
    pub open spec fn adjusted(self, out: (u32, u32)) -> State {
        match self.image {
            Some(v) => {
                let zoom = Zoom::fitting(out, (v.image.width, v.image.height));
                State { zoom, ..self.showing(v.clamped(out, zoom)) }
            },
            None => self,
        }
    }

    /// The browser after a turn to an angle.
    pub open spec fn rotated_to(self, angle: int) -> State {
        match self.image {
            Some(v) => self.showing(v.rotated_to(angle)),
            None => self,
        }
    }

    /// The browser after a turn by an angle.
    pub open spec fn rotated_by(self, angle: int) -> State {
        match self.image {
            Some(v) => self.showing(v.rotated_by(angle)),
            None => self,
        }
    }

    /// The browser after it went over the edge of the image to the file
    /// `offset` places on: where that is the current file, its view moves
    /// to where the placement starts.
    pub open spec fn paged(self, offset: int, placement: Placement, out: (u32, u32)) -> State {
        let target = self.neighbour(offset);
        if target == self.index {
            match self.image {
                Some(v) => self.moved_to(start(placement, v.image), out),
                None => self,
            }
        } else {
            self.selected(target, placement)
        }
    }

    /// The browser after a drag of the pointer to a screen position: the
    /// view moves by as many pixels as the pointer went since the drag was
    /// last seen, the other way, and the drag is seen at the position.
    pub open spec fn dragged(self, pos: (i32, i32), out: (u32, u32)) -> State {
        match self.image {
            Some(v) => {
                let moved = match v.drag {
                    Some(last) => self.moved_by(
                        ((last.0 - pos.0) * UNIT, (last.1 - pos.1) * UNIT),
                        out,
                    ),
                    None => self,
                };
                State {
                    image: Some(CurrentImage { drag: Some(pos), ..moved.image.unwrap() }),
                    ..moved
                }
            },
            None => self,
        }
    }

    /// The browser after the drag ended.
    pub open spec fn released(self) -> State {
        match self.image {
            Some(v) => State { image: Some(CurrentImage { drag: None, ..v }), ..self },
            None => self,
        }
    }

    /// The pixel of the image shown at a screen position, if there is one.
    pub open spec fn pixel_at(self, pos: (i32, i32), out: (u32, u32)) -> Option<(i32, i32)> {
        match self.image {
            Some(v) => match v.point_at(pos, out, self.zoom) {
                Some(c) => Some((pixel(c.0), pixel(c.1))),
                None => None,
            },
            None => None,
        }
    }

    /// A drag is going on.
    pub open spec fn dragging(self) -> bool {
        match self.image {
            Some(v) => v.drag.is_some(),
            None => false,
        }
    }

    /// The browser after a pixel was inspected.
    pub open spec fn inspected(self, at: (i32, i32), color: Color) -> State {
        match self.image {
            Some(v) => self.showing(CurrentImage { pixel_info: Some((at, color)), ..v }),
            None => self,
        }
    }

    /// The browser after it went `offset` files on to show a file whole:
    /// the file is shown whole once it is decoded, and where it is the
    /// current one, the zoom is set to show that whole.
    pub open spec fn browsed(self, offset: int, out: (u32, u32)) -> State {
        let target = self.neighbour(offset);
        if target == self.index {
            self.adjusted(out)
        } else {
            self.selected(target, Placement::Fitted)
        }
    }

    /// The file that a scroll asks to be decoded.
    pub open spec fn scroll_request(self, step: i64, out: (u32, u32)) -> Option<usize> {
        let dy = page(step as int, out.1 as int, self.zoom);
        if self.past_bottom(dy) {
            self.request(self.neighbour(1))
        } else if self.past_top(dy) {
            self.request(self.neighbour(-1))
        } else {
            None
        }
    }

    /// The whole image is on screen, or there is none.
    pub open spec fn fully_visible(self, out: (u32, u32)) -> bool {
        match self.image {
            Some(v) => v.fully_visible(out, self.zoom),
            None => true,
        }
    }

    /// The point of the image shown at a screen position, if there is one.
    pub open spec fn point_at(self, pos: (i32, i32), out: (u32, u32)) -> Option<(i64, i64)> {
        match self.image {
            Some(v) => v.point_at(pos, out, self.zoom),
            None => None,
        }
    }

    /// The page down runs past the bottom of the image.
    pub open spec fn past_bottom(self, dy: int) -> bool {
        match self.image {
            Some(v) => dy >= 0 && 2 * v.pos.1 + dy + 2 * MARGIN > 2 * (v.image.height * UNIT),
            None => false,
        }
    }

    /// The page up runs past the top of the image.
    pub open spec fn past_top(self, dy: int) -> bool {
        match self.image {
            Some(v) => dy < 0 && 2 * v.pos.1 + dy - 2 * MARGIN < 0,
            None => false,
        }
    }

    /// The browser after a scroll by `step / UNIT` screens.
    pub open spec fn scrolled(self, step: i64, out: (u32, u32)) -> State {
        let dy = page(step as int, out.1 as int, self.zoom);
        if self.past_bottom(dy) {
            self.paged(1, Placement::Top, out)
        } else if self.past_top(dy) {
            self.paged(-1, Placement::Bottom, out)
        } else {
            self.moved_by((0, dy), out)
        }
    }
}

/// The image browser: a file list, the current file and the view of it.
pub struct App {
    files: FileList,
    /// Index of current file in `files`
    file_index: Option<usize>,
    /// Current image (None if `file_index` is None)
    image: Option<CurrentImage>,
    /// Current zoom level
    zoom: Zoom,
    /// True if a redraw is required
    dirty: bool,
    /// How the file that is being decoded will be shown
    awaiting: Option<Placement>,
}

impl View for App {
    type V = State;

    closed spec fn view(&self) -> State {
        State {
            files: self.files@,
            index: self.file_index,
            image: self.image,
            zoom: self.zoom,
            dirty: self.dirty,
            awaiting: self.awaiting,
        }
    }
}

impl App {
    /// The browser is in a state that its operations keep.
    pub open spec fn wf(&self) -> bool {
        self@.wf()
    }

    /// Create the application, without files.
    pub fn new() -> (r: App)
        ensures
            r.wf(),
            r@ == State::initial(),
    {
        let r = App {
            files: FileList::new(),
            file_index: None,
            image: None,
            zoom: Zoom::one(),
            dirty: true,
            awaiting: None,
        };
        assert(r@.files =~= Seq::empty());
        r
    }

    /// Selects a position and says which file is to be decoded for it.
    fn select(&mut self, target: Option<usize>, placement: Placement) -> (r: Option<usize>)
        requires
            old(self).wf(),
            match target {
                Some(i) => i < old(self)@.files.len(),
                None => old(self)@.files.len() == 0,
            },
        ensures
            final(self).wf(),
            final(self)@ == old(self)@.selected(target, placement),
            r == old(self)@.request(target),
    {
        if target == self.file_index {
            return None;
        }
        self.file_index = target;
        self.image = None;
        self.dirty = true;
        self.awaiting = match target {
            Some(_) => Some(placement),
            None => None,
        };
        target
    }

    /// Update the list of files: the image paths among `paths` are browsed
    /// from the first on, which is to be decoded and shown whole.
    pub fn set_filelist(&mut self, paths: Vec<Vec<u8>>) -> (r: Option<usize>)
        requires
            old(self).wf(),
        ensures
            final(self).wf(),
            lists(final(self)@.files, names(paths@)),
            final(self)@ == (State {
                files: final(self)@.files,
                index: r,
                image: None,
                dirty: true,
                awaiting: if r.is_some() {
                    Some(Placement::Fitted)
                } else {
                    None
                },
                ..old(self)@
            }),
            r == if final(self)@.files.len() > 0 {
                Some(0usize)
            } else {
                None
            },
    {
        self.files = FileList::build(paths);
        let target = self.files.select(Some(0));
        proof {
            if self.files@.len() > 0 {
                vstd::arithmetic::div_mod::lemma_small_mod(0, self.files@.len());
            }
        }
        self.file_index = target;
        self.image = None;
        self.awaiting = match target {
            Some(_) => Some(Placement::Fitted),
            None => None,
        };
        self.dirty = true;
        target
    }

    /// Change current file; without an index the current file stays. A file
    /// that the result names is to be decoded and reported to `loaded`.
    pub fn change_file(&mut self, index: Option<i64>) -> (r: Option<usize>)
        requires
            old(self).wf(),
        ensures
            final(self).wf(),
            final(self)@ == old(self)@.selected(old(self)@.target(index), Placement::Centered),
            r == old(self)@.request(old(self)@.target(index)),
    {
        match index {
            Some(_) => {
                let target = self.files.select(index);
                self.select(target, Placement::Centered)
            },
            None => None,
        }
    }

    /// Change current file, relative. A file that the result names is to be
    /// decoded and reported to `loaded`.
    pub fn change_file_rel(&mut self, offset: i64) -> (r: Option<usize>)
        requires
            old(self).wf(),
        ensures
            final(self).wf(),
            final(self)@ == old(self)@.selected(
                old(self)@.neighbour(offset as int),
                Placement::Centered,
            ),
            r == old(self)@.request(old(self)@.neighbour(offset as int)),
    {
        let target = self.files.select_relative(self.file_index, offset);
        self.select(target, Placement::Centered)
    }

    /// Takes the outcome of decoding file `index`: the image, or `None`
    /// where the file could not be decoded.
    pub fn loaded(&mut self, index: usize, image: Option<Image>, out: (u32, u32))
        requires
            old(self).wf(),
            out.0 > 0 && out.1 > 0,
            match image {
                Some(img) => img.wf(),
                None => true,
            },
        ensures
            final(self).wf(),
            final(self)@ == old(self)@.loaded(index, image, out),
            final(self)@.image != old(self)@.image ==> final(self)@.rests(out),
    {
        let placement = match self.awaiting {
            Some(p) => p,
            None => {
                return ;
            },
        };
        if self.file_index != Some(index) {
            return ;
        }
        self.awaiting = None;
        self.dirty = true;
        if let Some(img) = image {
            let mut view = CurrentImage::new(img);
            if placement == Placement::Fitted {
                self.zoom = Zoom::fit(out, img.size());
            }
            assert(UNIT == 65536);
            let from: (i64, i64) = match placement {
                Placement::Centered | Placement::Fitted => view.pos,
                Placement::Top => (0, 0),
                Placement::Bottom => (0, (img.height as i64) * 65536),
            };
            assert(start(placement, img) == (from.0 as int, from.1 as int));
            view.move_to(from, out, self.zoom);
            self.image = Some(view);
        }
    }

    /// Move image to absolute position.
    pub fn move_to(&mut self, pos: (i64, i64), out: (u32, u32))
        requires
            old(self).wf(),
        ensures
            final(self).wf(),
            final(self)@ == old(self)@.moved_to((pos.0 as int, pos.1 as int), out),
            final(self)@.rests(out),
    {
        if let Some(mut view) = self.image {
            view.move_to(pos, out, self.zoom);
            self.image = Some(view);
            self.dirty = true;
        }
    }

    /// Move image, relatively to current position.
    pub fn move_rel(&mut self, offset: (i64, i64), out: (u32, u32))
        requires
            old(self).wf(),
        ensures
            final(self).wf(),
            final(self)@ == old(self)@.moved_by((offset.0 as int, offset.1 as int), out),
            final(self)@.rests(out),
    {
        if let Some(mut view) = self.image {
            view.move_rel(offset, out, self.zoom);
            self.image = Some(view);
            self.dirty = true;
        }
    }

    /// Goes over the edge of the image to a neighbouring file.
    fn page_to(&mut self, offset: i64, placement: Placement, out: (u32, u32)) -> (r: Option<
        usize,
    >)
        requires
            old(self).wf(),
            old(self)@.image.is_some(),
            placement == Placement::Top || placement == Placement::Bottom,
        ensures
            final(self).wf(),
            final(self)@ == old(self)@.paged(offset as int, placement, out),
            r == old(self)@.request(old(self)@.neighbour(offset as int)),
    {
        let target = self.files.select_relative(self.file_index, offset);
        if target == self.file_index {
            if let Some(view) = self.image {
                assert(UNIT == 65536);
                let from: (i64, i64) = match placement {
                    Placement::Bottom => (0, (view.image.height as i64) * 65536),
                    _ => (0, 0),
                };
                self.move_to(from, out);
            }
            None
        } else {
            self.select(target, placement)
        }
    }

    /// Goes `offset` files on and shows the file whole. A file that the
    /// result names is to be decoded and reported to `loaded`.
    pub fn browse(&mut self, offset: i64, out: (u32, u32)) -> (r: Option<usize>)
        requires
            old(self).wf(),
            out.0 > 0 && out.1 > 0,
        ensures
            final(self).wf(),
            final(self)@ == old(self)@.browsed(offset as int, out),
            r == old(self)@.request(old(self)@.neighbour(offset as int)),
    {
        let target = self.files.select_relative(self.file_index, offset);
        if target == self.file_index {
            self.zoom_adjust(out);
            None
        } else {
            self.select(target, Placement::Fitted)
        }
    }

    /// Whether a drag is going on.
    pub fn is_dragging(&self) -> (r: bool)
        ensures
            r == self@.dragging(),
    {
        match self.image {
            Some(view) => view.drag.is_some(),
            None => false,
        }
    }

    /// Scroll pages, preserve zoom (step is `UNIT` for one screen height).
    /// Past the end of the image the next or the previous file is
    /// selected; a file that the result names is to be decoded and
    /// reported to `loaded`.
    pub fn scroll(&mut self, step: i64, out: (u32, u32)) -> (r: Option<usize>)
        requires
            old(self).wf(),
        ensures
            final(self).wf(),
            final(self)@ == old(self)@.scrolled(step, out),
            r == old(self)@.scroll_request(step, out),
    {
        let view = match self.image {
            Some(v) => v,
            None => {
                return None;
            },
        };
        assert(UNIT == 65536);
        let dy: i128 = page_length(step, out.1, self.zoom);
        let y: i128 = view.pos.1 as i128;
        let bottom: i128 = (view.image.height as i128) * 65536;
        if dy >= 0 && dy > 2 * bottom - 2 * y - 2 * (MARGIN as i128) {
            self.page_to(1, Placement::Top, out)
        } else if dy < 0 && dy < 2 * (MARGIN as i128) - 2 * y {
            self.page_to(-1, Placement::Bottom, out)
        } else {
            self.move_rel((0, dy as i64), out);
            None
        }
    }

    /// Clamp image position if needed.
    pub fn clamp_pos(&mut self, out: (u32, u32))
        requires
            old(self).wf(),
        ensures
            final(self).wf(),
            final(self)@ == old(self)@.clamped(out),
            final(self)@.rests(out),
    {
        if let Some(mut view) = self.image {
            view.clamp_pos(out, self.zoom);
            self.image = Some(view);
            self.dirty = true;
        }
    }

    /// Adjust zoom level to display the whole image.
    pub fn zoom_adjust(&mut self, out: (u32, u32))
        requires
            old(self).wf(),
            out.0 > 0 && out.1 > 0,
        ensures
            final(self).wf(),
            final(self)@ == old(self)@.adjusted(out),
            final(self)@.rests(out),
    {
        if let Some(mut view) = self.image {
            self.zoom = Zoom::fit(out, view.image.size());
            view.clamp_pos(out, self.zoom);
            self.image = Some(view);
            self.dirty = true;
        }
    }

    /// Zoom in, by one step.
    pub fn zoom_in(&mut self, center: Option<(i64, i64)>, out: (u32, u32))
        requires
            old(self).wf(),
        ensures
            final(self).wf(),
            final(self)@ == old(self)@.zoomed_in(center, out),
    {
        if let Some(zoom) = self.zoom.step_up() {
            self.set_zoom(zoom, center, out);
        }
    }

    /// Zoom out, by one step.
    pub fn zoom_out(&mut self, center: Option<(i64, i64)>, out: (u32, u32))
        requires
            old(self).wf(),
        ensures
            final(self).wf(),
            final(self)@ == old(self)@.zoomed_out(center, out),
    {
        if let Some(zoom) = self.zoom.step_down() {
            self.set_zoom(zoom, center, out);
        }
    }

    /// Set zoom level, zoom on given point or current position.
    pub fn set_zoom(&mut self, zoom: Zoom, center: Option<(i64, i64)>, out: (u32, u32))
        requires
            old(self).wf(),
            zoom.den > 0,
        ensures
            final(self).wf(),
            final(self)@ == old(self)@.zoomed(zoom, center, out),
            final(self)@.rests(out),
    {
        if let Some(mut view) = self.image {
            proof {
                lemma_clamped_in_range(zoom);
            }
            let zoom = zoom.clamp();
            view.rezoom(center, self.zoom, zoom, out);
            self.image = Some(view);
            self.zoom = zoom;
            self.dirty = true;
        }
    }

    /// Return true if the whole image fits in the display.
    pub fn is_adjusted(&self, out: (u32, u32)) -> (r: bool)
        requires
            self.wf(),
        ensures
            r == self@.fully_visible(out),
    {
        match self.image {
            Some(view) => view.is_adjusted(out, self.zoom),
            None => true,
        }
    }

    /// Rotate image to given angle, in degrees.
    pub fn rotate_to(&mut self, angle: i32)
        requires
            old(self).wf(),
        ensures
            final(self).wf(),
            final(self)@ == old(self)@.rotated_to(angle as int),
    {
        if let Some(mut view) = self.image {
            view.rotate_to(angle);
            self.image = Some(view);
            self.dirty = true;
        }
    }

    /// Rotate image by given angle, in degrees.
    pub fn rotate_rel(&mut self, angle: i32)
        requires
            old(self).wf(),
        ensures
            final(self).wf(),
            final(self)@ == old(self)@.rotated_by(angle as int),
    {
        if let Some(mut view) = self.image {
            view.rotate_rel(angle);
            self.image = Some(view);
            self.dirty = true;
        }
    }

    /// Follows a drag of the pointer to a screen position.
    pub fn drag_to(&mut self, pos: (i32, i32), out: (u32, u32))
        requires
            old(self).wf(),
        ensures
            final(self).wf(),
            final(self)@ == old(self)@.dragged(pos, out),
    {
        if let Some(view) = self.image {
            if let Some(last) = view.drag {
                let dx: i64 = ((last.0 as i64) - (pos.0 as i64)) * 65536;
                let dy: i64 = ((last.1 as i64) - (pos.1 as i64)) * 65536;
                assert(UNIT == 65536);
                self.move_rel((dx, dy), out);
            }
        }
        if let Some(mut view) = self.image {
            view.drag = Some(pos);
            self.image = Some(view);
        }
    }

    /// Ends the drag.
    pub fn end_drag(&mut self)
        requires
            old(self).wf(),
        ensures
            final(self).wf(),
            final(self)@ == old(self)@.released(),
    {
        if let Some(mut view) = self.image {
            view.drag = None;
            self.image = Some(view);
        }
    }

    /// The pixel of the image under a screen position, whose colour is to
    /// be sampled and reported to `set_pixel_info`.
    pub fn pixel_under(&self, pos: (i32, i32), out: (u32, u32)) -> (r: Option<(i32, i32)>)
        requires
            self.wf(),
        ensures
            r == self@.pixel_at(pos, out),
    {
        match self.screen_to_image_pos(pos, out) {
            Some(c) => Some((Self::pixel_of(c.0), Self::pixel_of(c.1))),
            None => None,
        }
    }

    /// The pixel in which a coordinate lies.
    fn pixel_of(c: i64) -> (r: i32)
        requires
            c >= 0,
        ensures
            r == pixel(c),
    {
        assert(UNIT == 65536);
        if c / 65536 > 0x7fff_ffff {
            0x7fff_ffff
        } else {
            (c / 65536) as i32
        }
    }

    /// Takes the colour sampled at a pixel of the image.
    pub fn set_pixel_info(&mut self, at: (i32, i32), color: Color)
        requires
            old(self).wf(),
        ensures
            final(self).wf(),
            final(self)@ == old(self)@.inspected(at, color),
    {
        if let Some(mut view) = self.image {
            view.pixel_info = Some((at, color));
            self.image = Some(view);
            self.dirty = true;
        }
    }

    /// Notes that the screen no longer shows the state.
    pub fn invalidate(&mut self)
        ensures
            final(self)@ == (State { dirty: true, ..old(self)@ }),
    {
        self.dirty = true;
    }

    /// Notes that the screen was redrawn.
    pub fn redraw(&mut self)
        ensures
            final(self)@ == (State { dirty: false, ..old(self)@ }),
    {
        self.dirty = false;
    }

    /// Says whether the screen is to be redrawn, and notes that it is.
    pub fn refresh(&mut self) -> (r: bool)
        ensures
            r == old(self)@.dirty,
            final(self)@ == (State { dirty: false, ..old(self)@ }),
    {
        let dirty = self.dirty;
        self.dirty = false;
        dirty
    }

    /// The rectangle of the screen on which the current image is to be
    /// drawn, if there is one.
    pub fn frame(&self, out: (u32, u32)) -> (r: Option<(i32, i32, u32, u32)>)
        requires
            self.wf(),
        ensures
            r == match self@.image {
                Some(v) => Some(v.framed(out, self@.zoom)),
                None => None,
            },
    {
        match self.image {
            Some(view) => Some(view.frame(out, self.zoom)),
            None => None,
        }
    }

    /// The file list.
    pub fn files(&self) -> (r: &FileList)
        ensures
            r@ == self@.files,
    {
        &self.files
    }

    /// Index of the current file in the file list.
    pub fn file_index(&self) -> (r: Option<usize>)
        ensures
            r == self@.index,
    {
        self.file_index
    }

    /// The current image and the view of it.
    pub fn image(&self) -> (r: Option<CurrentImage>)
        ensures
            r == self@.image,
    {
        self.image
    }

    /// The current zoom.
    pub fn zoom(&self) -> (r: Zoom)
        ensures
            r == self@.zoom,
    {
        self.zoom
    }

    /// Whether a redraw is required.
    pub fn is_dirty(&self) -> (r: bool)
        ensures
            r == self@.dirty,
    {
        self.dirty
    }

    /// How the file that is being decoded will be shown.
    pub fn awaiting(&self) -> (r: Option<Placement>)
        ensures
            r == self@.awaiting,
    {
        self.awaiting
    }

    /// What the browser is doing.
    pub fn mode(&self) -> (r: Mode)
        ensures
            r == self@.mode(),
    {
        if self.file_index.is_none() {
            Mode::Empty
        } else if self.image.is_none() {
            Mode::Invalid
        } else {
            Mode::Active
        }
    }

    /// Convert screen position to image position.
    pub fn screen_to_image_pos(&self, pos: (i32, i32), out: (u32, u32)) -> (r: Option<(i64, i64)>)
        requires
            self.wf(),
        ensures
            r == self@.point_at(pos, out),
    {
        match self.image {
            Some(view) => view.screen_to_image_pos(pos, out, self.zoom),
            None => None,
        }
    }
}

} // verus!
