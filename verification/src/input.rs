use vstd::prelude::*;
use crate::app::{App, State};
use crate::fixed::UNIT;
use crate::zoom::Zoom;

verus! {

/// The keys that the browser answers.
#[derive(Clone, Copy, Debug, PartialEq, Eq, Structural)]
pub enum Key {
    Escape,
    Space,
    Backspace,
    PageUp,
    PageDown,
    Up,
    Down,
    Left,
    Right,
    Other,
}

/// The modifier keys held down with a key, the locks left aside.
#[derive(Clone, Copy, Debug, PartialEq, Eq, Structural)]
pub enum Modifiers {
    /// No modifier.
    Plain,
    /// One shift key and nothing else.
    Shift,
    /// One alt key and nothing else.
    Alt,
    /// Anything else.
    Other,
}

/// The buttons of the mouse.
#[derive(Clone, Copy, Debug, PartialEq, Eq, Structural)]
pub enum Button {
    Left,
    Right,
    Other,
}

/// What an input leaves to do outside the browser.
#[derive(Clone, Copy, Debug, PartialEq, Eq, Structural)]
pub enum Action {
    /// Nothing.
    Nothing,
    /// Decode the file at this index and report it to `loaded`.
    Load(usize),
    /// Leave the program.
    Quit,
    /// Switch between window and full screen.
    ToggleFullscreen,
    /// Make the background brighter by this much.
    Brightness(i32),
    /// Sample the colour of this pixel and report it to `set_pixel_info`.
    Sample(i32, i32),
}

/// Change of brightness for one notch of the wheel towards the user.
pub const BRIGHTER: i32 = 25;

/// Change of brightness for one notch of the wheel away from the user.
pub const DARKER: i32 = -25;

/// The action that asks for a file, if one is asked for.
pub open spec fn load(request: Option<usize>) -> Action {
    match request {
        Some(i) => Action::Load(i),
        None => Action::Nothing,
    }
}

/// The text is this one ASCII character.
pub open spec fn types(text: Seq<u8>, c: char) -> bool {
    text.len() == 1 && text[0] == c as u8
}

/// Number of files that a key goes on: five with shift, else one.
pub open spec fn file_step(modifiers: Modifiers) -> int {
    if modifiers == Modifiers::Shift {
        5
    } else {
        1
    }
}

/// Distance that an arrow key moves, in units: ten pixels with alt, five
/// hundred with shift, else fifty.
pub open spec fn move_step(modifiers: Modifiers) -> int {
    match modifiers {
        Modifiers::Alt => 10 * UNIT,
        Modifiers::Shift => 500 * UNIT,
        _ => 50 * UNIT,
    }
}

impl State {
    /// The browser after text was typed.
    pub open spec fn typed(self, text: Seq<u8>, out: (u32, u32)) -> State {
        if types(text, 'a') {
            self.adjusted(out)
        } else if types(text, 'z') {
            self.zoomed(Zoom { num: 1, den: 1 }, None, out)
        } else if types(text, '-') {
            self.zoomed_out(None, out)
        } else if types(text, '+') {
            self.zoomed_in(None, out)
        } else if types(text, 'r') {
            self.rotated_by(90)
        } else if types(text, 'R') {
            self.rotated_by(-90)
        } else {
            self
        }
    }

    /// What typed text leaves to do.
    pub open spec fn typed_action(text: Seq<u8>) -> Action {
        if types(text, 'q') {
            Action::Quit
        } else if types(text, 'f') {
            Action::ToggleFullscreen
        } else {
            Action::Nothing
        }
    }

    /// The browser after a key was pressed.
    pub open spec fn keyed(self, key: Key, modifiers: Modifiers, out: (u32, u32)) -> State {
        match key {
            Key::Space => if modifiers == Modifiers::Plain {
                self.scrolled(UNIT, out)
            } else {
                self
            },
            Key::Backspace => if modifiers == Modifiers::Plain {
                self.scrolled((-UNIT) as i64, out)
            } else {
                self
            },
            Key::PageUp => self.browsed(file_step(modifiers), out),
            Key::PageDown => self.browsed(-file_step(modifiers), out),
            Key::Up => self.moved_by((0, -move_step(modifiers)), out),
            Key::Down => self.moved_by((0, move_step(modifiers)), out),
            Key::Right => if self.fully_visible(out) {
                self.browsed(file_step(modifiers), out)
            } else {
                self.moved_by((move_step(modifiers), 0), out)
            },
            Key::Left => if self.fully_visible(out) {
                self.browsed(-file_step(modifiers), out)
            } else {
                self.moved_by((-move_step(modifiers), 0), out)
            },
            Key::Escape | Key::Other => self,
        }
    }

    /// What a pressed key leaves to do.
    pub open spec fn keyed_action(self, key: Key, modifiers: Modifiers, out: (u32, u32))
        -> Action {
        match key {
            Key::Escape => if modifiers == Modifiers::Plain {
                Action::Quit
            } else {
                Action::Nothing
            },
            Key::Space => if modifiers == Modifiers::Plain {
                load(self.scroll_request(UNIT, out))
            } else {
                Action::Nothing
            },
            Key::Backspace => if modifiers == Modifiers::Plain {
                load(self.scroll_request((-UNIT) as i64, out))
            } else {
                Action::Nothing
            },
            Key::PageUp => load(self.request(self.neighbour(file_step(modifiers)))),
            Key::PageDown => load(self.request(self.neighbour(-file_step(modifiers)))),
            Key::Right => if self.fully_visible(out) {
                load(self.request(self.neighbour(file_step(modifiers))))
            } else {
                Action::Nothing
            },
            Key::Left => if self.fully_visible(out) {
                load(self.request(self.neighbour(-file_step(modifiers))))
            } else {
                Action::Nothing
            },
            Key::Up | Key::Down | Key::Other => Action::Nothing,
        }
    }

    /// The browser after the wheel was turned with the pointer at a screen
    /// position: with alt held the screen is to be redrawn, and else the
    /// zoom goes one step in or out around the point under the pointer.
    pub open spec fn wheeled(self, step: (i32, i32), alt: bool, pointer: (i32, i32), out: (
        u32,
        u32,
    )) -> State {
        if alt {
            State { dirty: true, ..self }
        } else if step.1 > 0 {
            self.zoomed_in(self.point_at(pointer, out), out)
        } else if step.1 < 0 {
            self.zoomed_out(self.point_at(pointer, out), out)
        } else {
            self
        }
    }

    /// What a turn of the wheel leaves to do.
    pub open spec fn wheeled_action(step: (i32, i32), alt: bool) -> Action {
        if alt {
            if step.1 > 0 {
                Action::Brightness(DARKER)
            } else {
                Action::Brightness(BRIGHTER)
            }
        } else {
            Action::Nothing
        }
    }

    /// The browser after a mouse button was released: the left button ends
    /// a drag or else goes one file back, the right button goes one file on
    /// unless a drag is going on.
    pub open spec fn clicked(self, button: Button, out: (u32, u32)) -> State {
        match button {
            Button::Left => if self.dragging() {
                self.released()
            } else {
                self.browsed(-1, out)
            },
            Button::Right => if self.dragging() {
                self
            } else {
                self.browsed(1, out)
            },
            Button::Other => self,
        }
    }

    /// What a released mouse button leaves to do.
    pub open spec fn clicked_action(self, button: Button) -> Action {
        match button {
            Button::Left => if self.dragging() {
                Action::Nothing
            } else {
                load(self.request(self.neighbour(-1)))
            },
            Button::Right => if self.dragging() {
                Action::Nothing
            } else {
                load(self.request(self.neighbour(1)))
            },
            Button::Other => Action::Nothing,
        }
    }

    /// The browser after the pointer moved to a screen position.
    pub open spec fn pointed(self, left: bool, pos: (i32, i32), out: (u32, u32)) -> State {
        if left {
            self.dragged(pos, out)
        } else {
            self
        }
    }

    /// What a move of the pointer leaves to do.
    pub open spec fn pointed_action(self, left: bool, ctrl: bool, pos: (i32, i32), out: (
        u32,
        u32,
    )) -> Action {
        if !left && ctrl {
            match self.pixel_at(pos, out) {
                Some(p) => Action::Sample(p.0, p.1),
                None => Action::Nothing,
            }
        } else {
            Action::Nothing
        }
    }
}

/// Whether the text is the one ASCII character.
fn is_char(text: &[u8], c: char) -> (r: bool)
    requires
        (c as u32) < 128,
    ensures
        r == types(text@, c),
{
    text.len() == 1 && text[0] == c as u8
}

/// The action that asks for a file, if one is asked for.
fn load_action(request: Option<usize>) -> (r: Action)
    ensures
        r == load(request),
{
    match request {
        Some(i) => Action::Load(i),
        None => Action::Nothing,
    }
}

impl App {
    /// Get filelist step from a keyboard modifier.
    pub fn filelist_step_from_mod(modifiers: Modifiers) -> (r: i64)
        ensures
            r == file_step(modifiers),
    {
        match modifiers {
            Modifiers::Shift => 5,
            _ => 1,
        }
    }

    /// Get move step from a keyboard modifier.
    pub fn move_step_from_mod(modifiers: Modifiers) -> (r: i64)
        ensures
            r == move_step(modifiers),
    {
        assert(UNIT == 65536);
        match modifiers {
            Modifiers::Alt => 10 * 65536,
            Modifiers::Shift => 500 * 65536,
            _ => 50 * 65536,
        }
    }

    /// Handle text input events.
    pub fn handle_textinput(&mut self, text: &[u8], out: (u32, u32)) -> (r: Action)
        requires
            old(self).wf(),
            out.0 > 0 && out.1 > 0,
        ensures
            final(self).wf(),
            final(self)@ == old(self)@.typed(text@, out),
            r == State::typed_action(text@),
    {
        if is_char(text, 'a') {
            self.zoom_adjust(out);
        } else if is_char(text, 'z') {
            self.set_zoom(Zoom::one(), None, out);
        } else if is_char(text, '-') {
            self.zoom_out(None, out);
        } else if is_char(text, '+') {
            self.zoom_in(None, out);
        } else if is_char(text, 'r') {
            self.rotate_rel(90);
        } else if is_char(text, 'R') {
            self.rotate_rel(-90);
        } else if is_char(text, 'q') {
            return Action::Quit;
        } else if is_char(text, 'f') {
            return Action::ToggleFullscreen;
        }
        Action::Nothing
    }

    /// Handle keyboard events.
    pub fn handle_keypress(&mut self, key: Key, modifiers: Modifiers, out: (u32, u32)) -> (r:
        Action)
        requires
            old(self).wf(),
            out.0 > 0 && out.1 > 0,
        ensures
            final(self).wf(),
            final(self)@ == old(self)@.keyed(key, modifiers, out),
            r == old(self)@.keyed_action(key, modifiers, out),
    {
        let nomod = modifiers == Modifiers::Plain;
        let files = Self::filelist_step_from_mod(modifiers);
        let distance = Self::move_step_from_mod(modifiers);
        assert(UNIT == 65536);
        match key {
            Key::Escape => if nomod {
                Action::Quit
            } else {
                Action::Nothing
            },
            Key::Space => if nomod {
                load_action(self.scroll(65536, out))
            } else {
                Action::Nothing
            },
            Key::Backspace => if nomod {
                load_action(self.scroll(-65536, out))
            } else {
                Action::Nothing
            },
            Key::PageUp => load_action(self.browse(files, out)),
            Key::PageDown => load_action(self.browse(-files, out)),
            Key::Up => {
                self.move_rel((0, -distance), out);
                Action::Nothing
            },
            Key::Down => {
                self.move_rel((0, distance), out);
                Action::Nothing
            },
            Key::Right => if self.is_adjusted(out) {
                load_action(self.browse(files, out))
            } else {
                self.move_rel((distance, 0), out);
                Action::Nothing
            },
            Key::Left => if self.is_adjusted(out) {
                load_action(self.browse(-files, out))
            } else {
                self.move_rel((-distance, 0), out);
                Action::Nothing
            },
            Key::Other => Action::Nothing,
        }
    }

    /// Handle mouse wheel events.
    pub fn handle_mousewheel(
        &mut self,
        step: (i32, i32),
        alt: bool,
        pointer: (i32, i32),
        out: (u32, u32),
    ) -> (r: Action)
        requires
            old(self).wf(),
        ensures
            final(self).wf(),
            final(self)@ == old(self)@.wheeled(step, alt, pointer, out),
            r == State::wheeled_action(step, alt),
    {
        if alt {
            self.invalidate();
            if step.1 > 0 {
                Action::Brightness(DARKER)
            } else {
                Action::Brightness(BRIGHTER)
            }
        } else {
            let center = self.screen_to_image_pos(pointer, out);
            if step.1 > 0 {
                self.zoom_in(center, out);
            } else if step.1 < 0 {
                self.zoom_out(center, out);
            }
            Action::Nothing
        }
    }

    /// Handle mouse click release.
    pub fn handle_mouse_release(&mut self, button: Button, out: (u32, u32)) -> (r: Action)
        requires
            old(self).wf(),
            out.0 > 0 && out.1 > 0,
        ensures
            final(self).wf(),
            final(self)@ == old(self)@.clicked(button, out),
            r == old(self)@.clicked_action(button),
    {
        let dragging = self.is_dragging();
        match button {
            Button::Left => if dragging {
                self.end_drag();
                Action::Nothing
            } else {
                load_action(self.browse(-1, out))
            },
            Button::Right => if dragging {
                Action::Nothing
            } else {
                load_action(self.browse(1, out))
            },
            Button::Other => Action::Nothing,
        }
    }

    /// Handle mouse moves.
    pub fn handle_mouse_move(&mut self, left: bool, ctrl: bool, pos: (i32, i32), out: (u32, u32))
        -> (r: Action)
        requires
            old(self).wf(),
        ensures
            final(self).wf(),
            final(self)@ == old(self)@.pointed(left, pos, out),
            r == old(self)@.pointed_action(left, ctrl, pos, out),
    {
        if left {
            self.drag_to(pos, out);
            Action::Nothing
        } else if ctrl {
            match self.pixel_under(pos, out) {
                Some(p) => Action::Sample(p.0, p.1),
                None => Action::Nothing,
            }
        } else {
            Action::Nothing
        }
    }
}

} // verus!
