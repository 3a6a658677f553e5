use riew::display::{Color, Font, Image};
use riew::fixed::{ceil_div, floor_div, mul32, mul64, mul_signed, UNIT};
use riew::geometry::{
    clamp_coord, coord_at, length_on_screen, offset_of, origin_on_screen, page_length,
    rescale_coord, scaled_size,
};
use riew::view::CurrentImage;
use riew::zoom::Zoom;

fn zoom(num: u32, den: u32) -> Zoom {
    Zoom::new(num, den).unwrap()
}

fn px(pixels: i64) -> i64 {
    pixels * UNIT
}

fn view(width: u32, height: u32) -> CurrentImage {
    CurrentImage::new(Image::new(width, height).unwrap())
}

#[test]
fn unit_is_a_sixteen_bit_fraction() {
    assert_eq!(UNIT, 65536);
}

#[test]
fn products_are_exact() {
    assert_eq!(mul32(u32::MAX, u32::MAX), 18446744065119617025);
    assert_eq!(mul64(u64::MAX, 2), 36893488147419103230);
    assert_eq!(mul_signed(-3, 7), -21);
}

#[test]
fn floor_div_rounds_down() {
    assert_eq!(floor_div(7, 2), 3);
    assert_eq!(floor_div(-7, 2), -4);
    assert_eq!(floor_div(-8, 2), -4);
    assert_eq!(floor_div(-1, 3), -1);
    assert_eq!(floor_div(0, 3), 0);
    assert_eq!(floor_div(i128::MIN, 1), i128::MIN);
    assert_eq!(floor_div(i128::MIN, u64::MAX), -9223372036854775809);
}

#[test]
fn ceil_div_rounds_up() {
    assert_eq!(ceil_div(7, 2), 4);
    assert_eq!(ceil_div(8, 2), 4);
    assert_eq!(ceil_div(0, 5), 0);
    assert_eq!(ceil_div(1, 5), 1);
}

#[test]
fn image_needs_a_pixel() {
    assert!(Image::new(0, 10).is_none());
    assert!(Image::new(10, 0).is_none());
    let image = Image::new(640, 480).unwrap();
    assert_eq!(image.size(), (640, 480));
    assert_eq!((image.width, image.height), (640, 480));
}

#[test]
fn fonts_are_told_apart() {
    assert_ne!(Font::Normal, Font::Mono);
}

#[test]
fn brightness_saturates() {
    let color = Color { r: 250, g: 10, b: 0, a: 255 };
    assert_eq!(color.brightness_rel(25), Color { r: 255, g: 35, b: 25, a: 255 });
    assert_eq!(color.brightness_rel(-25), Color { r: 225, g: 0, b: 0, a: 255 });
    assert_eq!(color.brightness_rel(0), color);
    assert_eq!(color.brightness_rel(1000), Color { r: 255, g: 255, b: 255, a: 255 });
    assert_eq!(color.brightness_rel(i32::MIN), Color { r: 0, g: 0, b: 0, a: 255 });
}

#[test]
fn clamp_centres_an_axis_that_fits() {
    assert_eq!(clamp_coord(0, 100, 200, zoom(1, 1)), 3276800);
    assert_eq!(clamp_coord(i128::MAX, 100, 100, zoom(1, 1)), 3276800);
    assert_eq!(clamp_coord(12345, 101, 50, zoom(1, 4)), 101 * 32768);
}

#[test]
fn clamp_keeps_the_view_inside() {
    let z = zoom(1, 1);
    assert_eq!(clamp_coord(0, 100, 50, z), 1638400);
    assert_eq!(clamp_coord(px(100) as i128, 100, 50, z), 4915200);
    assert_eq!(clamp_coord(px(50) as i128, 100, 50, z), 3276800);
    assert_eq!(clamp_coord(i128::MIN, 100, 50, z), 1638400);
    assert_eq!(clamp_coord(i128::MAX, 100, 50, z), 4915200);
}

#[test]
fn clamp_rounds_the_margin_up() {
    let z = zoom(3, 1);
    assert_eq!(clamp_coord(0, 100, 50, z), 546134);
    assert_eq!(clamp_coord(px(100) as i128, 100, 50, z), 6007466);
    assert_eq!(clamp_coord(0, 100, 50, zoom(2, 1)), 819200);
}

#[test]
fn offset_rounds_down() {
    assert_eq!(offset_of(25, 50, zoom(1, 1)), 0);
    assert_eq!(offset_of(0, 50, zoom(1, 1)), -1638400);
    assert_eq!(offset_of(0, 51, zoom(1, 1)), -1671168);
    assert_eq!(offset_of(0, 50, zoom(3, 1)), -546134);
    assert_eq!(offset_of(50, 50, zoom(3, 1)), 546133);
    assert_eq!(offset_of(50, 50, zoom(1, 2)), 3276800);
}

#[test]
fn coord_at_maps_screen_to_image() {
    let z = zoom(1, 1);
    assert_eq!(coord_at(25, px(50), 100, 50, z), Some(3276800));
    assert_eq!(coord_at(0, px(50), 100, 50, z), Some(1638400));
    assert_eq!(coord_at(0, px(50), 100, 50, zoom(2, 1)), Some(2457600));
    assert_eq!(coord_at(0, px(50), 100, 50, zoom(3, 1)), Some(2730666));
}

#[test]
fn coord_at_is_none_outside_the_image() {
    let z = zoom(1, 1);
    assert_eq!(coord_at(0, px(5), 10, 100, z), None);
    assert_eq!(coord_at(44, px(5), 10, 100, z), None);
    assert_eq!(coord_at(45, px(5), 10, 100, z), Some(0));
    assert_eq!(coord_at(50, px(5), 10, 100, z), Some(327680));
    assert_eq!(coord_at(55, px(5), 10, 100, z), Some(655360));
    assert_eq!(coord_at(56, px(5), 10, 100, z), None);
    assert_eq!(coord_at(i32::MIN, px(5), 10, 100, z), None);
    assert_eq!(coord_at(i32::MAX, px(5), 10, 100, z), None);
}

#[test]
fn scaled_size_rounds_to_nearest() {
    assert_eq!(scaled_size(100, zoom(1, 2)), 50);
    assert_eq!(scaled_size(3, zoom(1, 2)), 2);
    assert_eq!(scaled_size(5, zoom(1, 3)), 2);
    assert_eq!(scaled_size(4, zoom(1, 3)), 1);
    assert_eq!(scaled_size(3000, zoom(500, 3000)), 500);
    assert_eq!(scaled_size(u32::MAX, zoom(u32::MAX, 1)), 18446744065119617025);
}

#[test]
fn page_length_is_a_screen_in_image_units() {
    assert_eq!(page_length(UNIT, 100, zoom(1, 1)), 6553600);
    assert_eq!(page_length(-UNIT, 100, zoom(1, 1)), -6553600);
    assert_eq!(page_length(UNIT, 100, zoom(2, 1)), 3276800);
    assert_eq!(page_length(UNIT / 2, 100, zoom(1, 2)), 6553600);
    assert_eq!(page_length(-1, 1, zoom(3, 1)), -1);
    assert_eq!(page_length(0, 100, zoom(1, 1)), 0);
}

#[test]
fn rescale_keeps_the_centre_of_zoom() {
    let from = zoom(1, 1);
    let to = zoom(2, 1);
    assert_eq!(rescale_coord(px(50), px(25), 100, 50, from, to), 2457600);
    assert_eq!(rescale_coord(px(50), px(50), 100, 50, from, to), 3276800);
    assert_eq!(rescale_coord(px(500), px(525), 1000, 100, from, zoom(125, 100)), 33095680);
}

#[test]
fn rescale_far_away_comes_to_rest_at_the_edge() {
    let from = zoom(1000, 1);
    let to = zoom(1, 1);
    assert_eq!(rescale_coord(px(500), i64::MIN, 1000, 100, from, to), px(950));
    assert_eq!(rescale_coord(px(500), i64::MAX, 1000, 100, from, to), px(50));
    assert_eq!(rescale_coord(px(500), i64::MIN, 1000, 100, to, from), 3277);
    assert_eq!(rescale_coord(px(500), i64::MAX, 1000, 100, to, from), px(1000) - 3277);
    assert_eq!(rescale_coord(px(500), i64::MIN, 1000, 100000, from, zoom(1, 1000)), px(500));
    let widest = zoom(u32::MAX, 1);
    let narrowest = zoom(1, u32::MAX);
    assert_eq!(rescale_coord(0, i64::MIN, 1000, 1, narrowest, widest), 1);
    assert_eq!(rescale_coord(px(1000), i64::MIN, 1000, 1, widest, narrowest), px(500));
    let steep = zoom(50000, u32::MAX);
    assert_eq!(rescale_coord(px(70000), i64::MIN, 100000, 1, widest, steep), 3738850233);
    assert_eq!(rescale_coord(px(70000), i64::MAX, 100000, 1, widest, steep), 2814749767);
}

#[test]
fn rescale_at_the_same_zoom_stays() {
    let z = zoom(u32::MAX, u32::MAX);
    assert_eq!(rescale_coord(px(500), i64::MAX, 1000, 100, z, z), px(500));
    assert_eq!(rescale_coord(px(500), i64::MIN, 1000, 100, z, z), px(500));
    assert_eq!(rescale_coord(px(123), -7, 1000, 100, zoom(3, 7), zoom(6, 14)), px(123));
}

#[test]
fn fresh_view_is_centred_and_upright() {
    let v = view(101, 50);
    assert_eq!(v.pos, (101 * 32768, 50 * 32768));
    assert_eq!(v.angle, 0);
    assert_eq!(v.drag, None);
    assert_eq!(v.pixel_info, None);
}

#[test]
fn view_moves_and_clamps() {
    let mut v = view(1000, 1000);
    let z = zoom(1, 1);
    v.move_to((px(300), px(400)), (100, 100), z);
    assert_eq!(v.pos, (px(300), px(400)));
    v.move_rel((px(-1000), px(1000)), (100, 100), z);
    assert_eq!(v.pos, (px(50), px(950)));
    v.move_rel((i64::MAX, i64::MIN), (100, 100), z);
    assert_eq!(v.pos, (px(950), px(50)));
    v.move_to((i64::MIN, i64::MAX), (100, 2000), z);
    assert_eq!(v.pos, (px(50), px(500)));
    v.pos = (px(10), px(990));
    v.clamp_pos((100, 100), z);
    assert_eq!(v.pos, (px(50), px(950)));
}

#[test]
fn view_turns_modulo_full_turn() {
    let mut v = view(10, 10);
    v.rotate_rel(-90);
    assert_eq!(v.angle, 270);
    v.rotate_to(450);
    assert_eq!(v.angle, 90);
    v.rotate_to(-1);
    assert_eq!(v.angle, 359);
    v.rotate_to(360);
    assert_eq!(v.angle, 0);
    v.rotate_to(i32::MIN);
    assert_eq!(v.angle, 232);
    v.rotate_rel(i32::MAX);
    assert_eq!(v.angle, (232 + 127) % 360);
}

#[test]
fn four_quarter_turns_come_back() {
    let mut v = view(10, 10);
    v.rotate_to(45);
    for _ in 0..4 {
        v.rotate_rel(90);
    }
    assert_eq!(v.angle, 45);
}

#[test]
fn view_is_adjusted_when_the_scaled_image_fits() {
    let v = view(100, 60);
    assert!(v.is_adjusted((50, 30), zoom(1, 2)));
    assert!(!v.is_adjusted((49, 30), zoom(1, 2)));
    assert!(!v.is_adjusted((50, 29), zoom(1, 2)));
    assert!(v.is_adjusted((100, 60), zoom(1, 1)));
}

#[test]
fn view_maps_screen_points() {
    let v = view(100, 100);
    let z = zoom(2, 1);
    assert_eq!(v.screen_to_image_pos((25, 25), (50, 50), z), Some((px(50), px(50))));
    assert_eq!(v.screen_to_image_pos((0, 50), (50, 50), z), Some((2457600, 4096000)));
    let small = view(10, 10);
    assert_eq!(small.screen_to_image_pos((0, 50), (100, 100), zoom(1, 1)), None);
    assert_eq!(small.screen_to_image_pos((50, 0), (100, 100), zoom(1, 1)), None);
    assert_eq!(small.screen_to_image_pos((50, 50), (100, 100), zoom(1, 1)), Some((px(5), px(5))));
}

#[test]
fn rezoom_without_centre_only_clamps() {
    let mut v = view(1000, 1000);
    v.pos = (px(60), px(60));
    v.rezoom(None, zoom(1, 1), zoom(1, 2), (100, 100));
    assert_eq!(v.pos, (px(100), px(100)));
}

#[test]
fn rezoom_keeps_the_point_under_the_cursor() {
    let out = (100, 100);
    let mut v = view(1000, 1000);
    let from = zoom(1, 1);
    let to = zoom(125, 100);
    let cursor = (75, 50);
    let point = v.screen_to_image_pos(cursor, out, from).unwrap();
    assert_eq!(point, (px(525), px(500)));
    v.rezoom(Some(point), from, to, out);
    assert_eq!(v.pos, (px(505), px(500)));
    assert_eq!(v.screen_to_image_pos(cursor, out, to), Some(point));
}

#[test]
fn origin_on_screen_rounds_down() {
    assert_eq!(origin_on_screen(px(50), 50, zoom(1, 1)), -25);
    assert_eq!(origin_on_screen(0, 51, zoom(1, 1)), 25);
    assert_eq!(origin_on_screen(1, 51, zoom(1, 1)), 25);
    assert_eq!(origin_on_screen(px(50), 51, zoom(1, 1)), -25);
    assert_eq!(origin_on_screen(px(50), 50, zoom(2, 1)), -75);
    assert_eq!(origin_on_screen(px(5), 100, zoom(1, 2)), 47);
    assert_eq!(origin_on_screen(px(5), 100, zoom(1, 3)), 48);
}

#[test]
fn origin_on_screen_stops_at_the_ends_of_i32() {
    assert_eq!(origin_on_screen(0xffff_ffff_0000, 0, zoom(1000, 1)), i32::MIN);
    assert_eq!(origin_on_screen(0, u32::MAX, zoom(1, 1)), i32::MAX);
    assert_eq!(origin_on_screen(0, u32::MAX - 1, zoom(1, 1)), i32::MAX);
    assert_eq!(origin_on_screen(0, u32::MAX - 2, zoom(1, 1)), i32::MAX - 1);
}

#[test]
fn length_on_screen_rounds_down() {
    assert_eq!(length_on_screen(100, zoom(2, 1)), 200);
    assert_eq!(length_on_screen(100, zoom(1, 3)), 33);
    assert_eq!(length_on_screen(1, zoom(1, 2)), 0);
    assert_eq!(length_on_screen(u32::MAX, zoom(1000, 1)), u32::MAX);
}

#[test]
fn frame_is_where_the_image_is_drawn() {
    let mut v = view(1000, 500);
    assert_eq!(v.frame((100, 100), zoom(1, 1)), (-450, -200, 1000, 500));
    assert_eq!(v.frame((100, 100), zoom(1, 10)), (0, 25, 100, 50));
    v.move_to((0, 0), (100, 100), zoom(2, 1));
    assert_eq!(v.frame((100, 100), zoom(2, 1)), (0, 0, 2000, 1000));
    v.move_to((i64::MAX, i64::MAX), (100, 100), zoom(2, 1));
    assert_eq!(v.frame((100, 100), zoom(2, 1)), (-1900, -900, 2000, 1000));
}
