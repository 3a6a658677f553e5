use riew::app::{App, Mode, Placement};
use riew::display::Image;
use riew::fixed::UNIT;
use riew::input::{Action, Button, Key, Modifiers, BRIGHTER, DARKER};
use riew::zoom::Zoom;

const OUT: (u32, u32) = (100, 100);

fn px(pixels: i64) -> i64 {
    pixels * UNIT
}

fn zoom_of(app: &App) -> (u32, u32) {
    (app.zoom().num, app.zoom().den)
}

fn pos_of(app: &App) -> (i64, i64) {
    app.image().unwrap().pos
}

fn browsing(count: u8, width: u32, height: u32) -> App {
    let mut app = App::new();
    let names: Vec<Vec<u8>> =
        (0..count).map(|i| vec![b'a' + i, b'.', b'p', b'n', b'g']).collect();
    assert_eq!(app.set_filelist(names), Some(0));
    app.loaded(0, Image::new(width, height), OUT);
    app.set_zoom(Zoom::one(), None, OUT);
    app
}

#[test]
fn steps_depend_on_the_modifier() {
    assert_eq!(App::filelist_step_from_mod(Modifiers::Plain), 1);
    assert_eq!(App::filelist_step_from_mod(Modifiers::Shift), 5);
    assert_eq!(App::filelist_step_from_mod(Modifiers::Alt), 1);
    assert_eq!(App::filelist_step_from_mod(Modifiers::Other), 1);
    assert_eq!(App::move_step_from_mod(Modifiers::Plain), 3276800);
    assert_eq!(App::move_step_from_mod(Modifiers::Shift), 32768000);
    assert_eq!(App::move_step_from_mod(Modifiers::Alt), 655360);
    assert_eq!(App::move_step_from_mod(Modifiers::Other), 3276800);
}

#[test]
fn text_sets_the_zoom() {
    let mut app = browsing(1, 1000, 500);
    assert_eq!(app.handle_textinput(b"+", OUT), Action::Nothing);
    assert_eq!(zoom_of(&app), (125, 100));
    assert_eq!(app.handle_textinput(b"-", OUT), Action::Nothing);
    assert_eq!(app.handle_textinput(b"-", OUT), Action::Nothing);
    assert_eq!(zoom_of(&app), (90, 100));
    assert_eq!(app.handle_textinput(b"a", OUT), Action::Nothing);
    assert_eq!(zoom_of(&app), (100, 1000));
    assert_eq!(app.handle_textinput(b"z", OUT), Action::Nothing);
    assert_eq!(zoom_of(&app), (1, 1));
}

#[test]
fn text_turns_the_image() {
    let mut app = browsing(1, 10, 10);
    assert_eq!(app.handle_textinput(b"R", OUT), Action::Nothing);
    assert_eq!(app.image().unwrap().angle, 270);
    assert_eq!(app.handle_textinput(b"r", OUT), Action::Nothing);
    assert_eq!(app.handle_textinput(b"r", OUT), Action::Nothing);
    assert_eq!(app.image().unwrap().angle, 90);
}

#[test]
fn text_asks_for_what_is_done_outside() {
    let mut app = browsing(1, 10, 10);
    app.redraw();
    assert_eq!(app.handle_textinput(b"q", OUT), Action::Quit);
    assert_eq!(app.handle_textinput(b"f", OUT), Action::ToggleFullscreen);
    assert_eq!(app.handle_textinput(b"x", OUT), Action::Nothing);
    assert_eq!(app.handle_textinput(b"", OUT), Action::Nothing);
    assert_eq!(app.handle_textinput(b"qq", OUT), Action::Nothing);
    assert_eq!(app.handle_textinput(b"aa", OUT), Action::Nothing);
    assert!(!app.is_dirty());
    assert_eq!(zoom_of(&app), (1, 1));
}

#[test]
fn escape_quits_without_modifier() {
    let mut app = browsing(1, 10, 10);
    assert_eq!(app.handle_keypress(Key::Escape, Modifiers::Plain, OUT), Action::Quit);
    assert_eq!(app.handle_keypress(Key::Escape, Modifiers::Shift, OUT), Action::Nothing);
    assert_eq!(app.handle_keypress(Key::Other, Modifiers::Plain, OUT), Action::Nothing);
}

#[test]
fn space_and_backspace_scroll() {
    let mut app = browsing(2, 100, 1000);
    assert_eq!(app.handle_keypress(Key::Space, Modifiers::Plain, OUT), Action::Nothing);
    assert_eq!(pos_of(&app), (px(50), px(600)));
    assert_eq!(app.handle_keypress(Key::Backspace, Modifiers::Plain, OUT), Action::Nothing);
    assert_eq!(pos_of(&app), (px(50), px(500)));
    assert_eq!(app.handle_keypress(Key::Space, Modifiers::Shift, OUT), Action::Nothing);
    assert_eq!(pos_of(&app), (px(50), px(500)));
    app.move_to((px(50), px(950)), OUT);
    assert_eq!(app.handle_keypress(Key::Space, Modifiers::Plain, OUT), Action::Load(1));
    assert_eq!(app.awaiting(), Some(Placement::Top));
}

#[test]
fn page_keys_change_file() {
    let mut app = browsing(7, 10, 10);
    assert_eq!(app.handle_keypress(Key::PageUp, Modifiers::Plain, OUT), Action::Load(1));
    assert_eq!(app.awaiting(), Some(Placement::Fitted));
    assert_eq!(app.handle_keypress(Key::PageUp, Modifiers::Shift, OUT), Action::Load(6));
    assert_eq!(app.handle_keypress(Key::PageDown, Modifiers::Plain, OUT), Action::Load(5));
    assert_eq!(app.handle_keypress(Key::PageDown, Modifiers::Shift, OUT), Action::Load(0));
    assert_eq!(app.handle_keypress(Key::PageDown, Modifiers::Alt, OUT), Action::Load(6));
}

#[test]
fn arrows_move_a_large_image() {
    let mut app = browsing(2, 1000, 1000);
    assert_eq!(app.handle_keypress(Key::Right, Modifiers::Plain, OUT), Action::Nothing);
    assert_eq!(pos_of(&app), (px(550), px(500)));
    assert_eq!(app.handle_keypress(Key::Left, Modifiers::Alt, OUT), Action::Nothing);
    assert_eq!(pos_of(&app), (px(540), px(500)));
    assert_eq!(app.handle_keypress(Key::Down, Modifiers::Shift, OUT), Action::Nothing);
    assert_eq!(pos_of(&app), (px(540), px(950)));
    assert_eq!(app.handle_keypress(Key::Up, Modifiers::Plain, OUT), Action::Nothing);
    assert_eq!(pos_of(&app), (px(540), px(900)));
    assert_eq!(app.file_index(), Some(0));
}

#[test]
fn arrows_change_file_when_the_image_is_shown_whole() {
    let mut app = browsing(3, 50, 50);
    assert_eq!(app.handle_keypress(Key::Right, Modifiers::Plain, OUT), Action::Load(1));
    app.loaded(1, Image::new(50, 50), OUT);
    assert_eq!(app.handle_keypress(Key::Left, Modifiers::Plain, OUT), Action::Load(0));
    assert_eq!(app.handle_keypress(Key::Left, Modifiers::Plain, OUT), Action::Load(2));
    assert_eq!(app.mode(), Mode::Invalid);
    assert_eq!(app.handle_keypress(Key::Up, Modifiers::Plain, OUT), Action::Nothing);
    assert_eq!(app.file_index(), Some(2));
}

#[test]
fn wheel_zooms_around_the_pointer() {
    let mut app = browsing(1, 1000, 1000);
    assert_eq!(app.handle_mousewheel((0, 1), false, (75, 50), OUT), Action::Nothing);
    assert_eq!(zoom_of(&app), (125, 100));
    assert_eq!(pos_of(&app), (px(505), px(500)));
    assert_eq!(app.handle_mousewheel((0, -1), false, (75, 50), OUT), Action::Nothing);
    assert_eq!(zoom_of(&app), (100, 100));
    assert_eq!(pos_of(&app), (px(500), px(500)));
    app.redraw();
    assert_eq!(app.handle_mousewheel((3, 0), false, (75, 50), OUT), Action::Nothing);
    assert!(!app.is_dirty());
}

#[test]
fn wheel_beside_the_image_zooms_around_the_centre() {
    let mut app = browsing(1, 10, 10);
    assert_eq!(app.handle_mousewheel((0, 1), false, (0, 0), OUT), Action::Nothing);
    assert_eq!(zoom_of(&app), (125, 100));
    assert_eq!(pos_of(&app), (px(5), px(5)));
}

#[test]
fn wheel_with_alt_changes_brightness() {
    let mut app = browsing(1, 10, 10);
    app.redraw();
    assert_eq!(
        app.handle_mousewheel((0, 1), true, (0, 0), OUT),
        Action::Brightness(DARKER)
    );
    assert!(app.is_dirty());
    assert_eq!(
        app.handle_mousewheel((0, -1), true, (0, 0), OUT),
        Action::Brightness(BRIGHTER)
    );
    assert_eq!(app.handle_mousewheel((0, 0), true, (0, 0), OUT), Action::Brightness(25));
    assert_eq!(DARKER, -25);
    assert_eq!(zoom_of(&app), (1, 1));
}

#[test]
fn clicks_change_file_unless_dragging() {
    let mut app = browsing(3, 1000, 1000);
    assert_eq!(app.handle_mouse_release(Button::Left, OUT), Action::Load(2));
    assert_eq!(app.awaiting(), Some(Placement::Fitted));
    assert_eq!(app.handle_mouse_release(Button::Right, OUT), Action::Load(0));
    assert_eq!(app.handle_mouse_release(Button::Other, OUT), Action::Nothing);
    app.loaded(0, Image::new(1000, 1000), OUT);
    assert_eq!(app.handle_mouse_move(true, false, (10, 10), OUT), Action::Nothing);
    assert!(app.is_dragging());
    assert_eq!(app.handle_mouse_release(Button::Right, OUT), Action::Nothing);
    assert!(app.is_dragging());
    assert_eq!(app.handle_mouse_release(Button::Left, OUT), Action::Nothing);
    assert!(!app.is_dragging());
    assert_eq!(app.file_index(), Some(0));
}

#[test]
fn pointer_drags_or_inspects() {
    let mut app = browsing(1, 1000, 1000);
    assert_eq!(app.handle_mouse_move(false, false, (10, 10), OUT), Action::Nothing);
    assert!(!app.is_dragging());
    assert_eq!(app.handle_mouse_move(false, true, (0, 99), OUT), Action::Sample(450, 549));
    assert_eq!(app.handle_mouse_move(true, true, (10, 10), OUT), Action::Nothing);
    assert_eq!(app.handle_mouse_move(true, false, (0, 30), OUT), Action::Nothing);
    assert_eq!(pos_of(&app), (px(510), px(480)));
    let mut small = browsing(1, 10, 10);
    assert_eq!(small.handle_mouse_move(false, true, (0, 0), OUT), Action::Nothing);
}
