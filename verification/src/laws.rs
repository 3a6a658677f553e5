use vstd::prelude::*;
use vstd::arithmetic::div_mod::{
    lemma_add_mod_noop_right, lemma_mod_bound, lemma_mod_multiples_vanish, lemma_small_mod,
};
use crate::app::{start, Placement, State};
use crate::display::Image;
use crate::fixed::UNIT;
use crate::filelist::{lemma_stepped_in_range, lemma_wrapped_in_range, position};
use crate::geometry::{
    image_coord, in_view, lemma_clamp_in_view, lemma_in_view_is_rest, lemma_zoom_keeps_cursor,
    page, rescale, fits,
};
use crate::view::{turned, CurrentImage};
use crate::zoom::{lemma_clamped_in_range, lemma_fitting, zoom_max, zoom_min, Zoom};

verus! {

/// Wherever a view is moved, it comes to rest inside the image.
pub proof fn lemma_move_rests(v: CurrentImage, pos: (int, int), out: (u32, u32), zoom: Zoom)
    requires
        v.wf(),
        zoom.wf(),
    ensures
        v.moved_to(pos, out, zoom).wf(),
        v.moved_to(pos, out, zoom).at_rest(out, zoom),
{
    lemma_clamp_in_view(pos.0, v.image.width as int, out.0 as int, zoom);
    lemma_clamp_in_view(pos.1, v.image.height as int, out.1 as int, zoom);
    assert(UNIT == 65536);
}

/// After the zoom is set, whatever the zoom and around whatever point, the
/// view is at rest: centred on each axis that is shown whole, and on any
/// other at least half the visible length away from either end of the
/// image. A zoom between the smallest and the largest that can be set is
/// taken as it is.
pub proof fn lemma_zoom_rests(s: State, zoom: Zoom, center: Option<(i64, i64)>, out: (u32, u32))
    requires
        s.wf(),
        zoom.den > 0,
        s.image.is_some(),
    ensures
        ({
            let t = s.zoomed(zoom, center, out);
            &&& t.wf()
            &&& t.zoom == zoom.clamped()
            &&& zoom_min().le(zoom) && zoom.le(zoom_max()) ==> t.zoom == zoom
            &&& t.image.unwrap().at_rest(out, t.zoom)
        }),
{
    let v = s.image.unwrap();
    let to = zoom.clamped();
    lemma_clamped_in_range(zoom);
    match center {
        Some(c) => {
            lemma_move_rests(
                v,
                (
                    rescale(v.pos.0 as int, c.0 as int, s.zoom, to),
                    rescale(v.pos.1 as int, c.1 as int, s.zoom, to),
                ),
                out,
                to,
            );
        },
        None => {
            lemma_move_rests(v, (v.pos.0 as int, v.pos.1 as int), out, to);
        },
    }
}

/// Zoom to the cursor: when the zoom is set around the point of the image
/// under the cursor, and the view that keeps the point in place shows
/// nothing outside the image, then the cursor still points at that point,
/// up to rounding. On each axis what is under the cursor afterwards lies
/// less than two units before the point and less than `old zoom / new
/// zoom` units after it.
pub proof fn lemma_zoom_to_cursor(s: State, cursor: (i32, i32), zoom: Zoom, out: (u32, u32))
    requires
        s.wf(),
        zoom.den > 0,
        s.image.is_some(),
        s.image.unwrap().point_at(cursor, out, s.zoom).is_some(),
        ({
            let v = s.image.unwrap();
            let c = v.point_at(cursor, out, s.zoom).unwrap();
            let to = zoom.clamped();
            &&& in_view(
                rescale(v.pos.0 as int, c.0 as int, s.zoom, to),
                v.image.width as int,
                out.0 as int,
                to,
            )
            &&& in_view(
                rescale(v.pos.1 as int, c.1 as int, s.zoom, to),
                v.image.height as int,
                out.1 as int,
                to,
            )
        }),
    ensures
        ({
            let c = s.image.unwrap().point_at(cursor, out, s.zoom).unwrap();
            let t = s.zoomed(zoom, Some(c), out);
            let after = t.image.unwrap().under(cursor, out, t.zoom);
            &&& -2 < after.0 - c.0
            &&& (after.0 - c.0) * (s.zoom.den * t.zoom.num) < s.zoom.num * t.zoom.den
            &&& -2 < after.1 - c.1
            &&& (after.1 - c.1) * (s.zoom.den * t.zoom.num) < s.zoom.num * t.zoom.den
        }),
{
    let v = s.image.unwrap();
    let c = v.point_at(cursor, out, s.zoom).unwrap();
    let to = zoom.clamped();
    lemma_clamped_in_range(zoom);
    assert(UNIT == 65536);
    let x = image_coord(
        cursor.0 as int,
        v.pos.0 as int,
        v.image.width as int,
        out.0 as int,
        s.zoom,
    );
    let y = image_coord(
        cursor.1 as int,
        v.pos.1 as int,
        v.image.height as int,
        out.1 as int,
        s.zoom,
    );
    assert(x.is_some() && y.is_some());
    assert(c.0 == x.unwrap() && c.1 == y.unwrap());
    lemma_in_view_is_rest(
        rescale(v.pos.0 as int, c.0 as int, s.zoom, to),
        v.image.width as int,
        out.0 as int,
        to,
    );
    lemma_in_view_is_rest(
        rescale(v.pos.1 as int, c.1 as int, s.zoom, to),
        v.image.height as int,
        out.1 as int,
        to,
    );
    lemma_zoom_keeps_cursor(cursor.0 as int, v.pos.0 as int, out.0 as int, s.zoom, to);
    lemma_zoom_keeps_cursor(cursor.1 as int, v.pos.1 as int, out.1 as int, s.zoom, to);
}

/// Whatever index is asked for, a file stays selected exactly when the
/// list holds one: a number selects the position it stands for, wrapped
/// round the list, and no index leaves the selection as it is.
pub proof fn lemma_change_file_selects(s: State, index: Option<i64>)
    requires
        s.wf(),
    ensures
        ({
            let t = s.selected(s.target(index), Placement::Centered);
            &&& t.wf()
            &&& t.files == s.files
            &&& t.index.is_none() <==> t.files.len() == 0
            &&& match t.index {
                Some(k) => k < t.files.len(),
                None => true,
            }
            &&& match index {
                Some(i) => s.files.len() > 0 ==> t.index == Some(
                    ((i as int) % (s.files.len() as int)) as usize,
                ),
                None => t == s,
            }
        }),
{
    match index {
        Some(i) => {
            lemma_wrapped_in_range(s.files.len() as int, i as int);
        },
        None => {},
    }
}

/// A step to a neighbouring file keeps a file selected exactly when the
/// list holds one.
pub proof fn lemma_change_file_rel_selects(s: State, offset: int)
    requires
        s.wf(),
    ensures
        ({
            let t = s.selected(s.neighbour(offset), Placement::Centered);
            &&& t.wf()
            &&& t.index.is_none() <==> t.files.len() == 0
            &&& match t.index {
                Some(k) => k < t.files.len(),
                None => true,
            }
        }),
{
    lemma_stepped_in_range(s.files.len() as int, position(s.index), offset);
}

/// Two turns in a row are one turn by the sum of their angles.
pub proof fn lemma_turns_compose(v: CurrentImage, first: int, second: int)
    ensures
        v.rotated_by(first).rotated_by(second) == v.rotated_by(first + second),
{
    let a = v.angle + first;
    lemma_mod_bound(a, 360);
    lemma_add_mod_noop_right(second, a, 360);
    assert(turned(turned(a) + second) == turned(a + second));
    assert(v.rotated_by(first).angle == turned(a));
}

/// Four quarter turns bring the image back to the angle it had.
pub proof fn lemma_four_quarter_turns(v: CurrentImage)
    ensures
        v.rotated_by(90).rotated_by(90).rotated_by(90).rotated_by(90) == v.rotated_to(
            v.angle as int,
        ),
        0 <= v.angle < 360 ==> v.rotated_by(90).rotated_by(90).rotated_by(90).rotated_by(90)
            == v,
{
    lemma_turns_compose(v, 90, 90);
    lemma_turns_compose(v, 180, 90);
    lemma_turns_compose(v, 270, 90);
    lemma_mod_multiples_vanish(1, v.angle as int, 360);
    assert(turned(v.angle + 360) == turned(v.angle as int));
    if 0 <= v.angle < 360 {
        lemma_small_mod(v.angle as nat, 360);
    }
}

/// Any turn leaves an angle from 0 to 359 degrees, and a quarter turn back
/// from upright leads to 270 degrees.
pub proof fn lemma_turns_wrap(v: CurrentImage, angle: int)
    ensures
        0 <= v.rotated_by(angle).angle < 360,
        0 <= v.rotated_to(angle).angle < 360,
        v.angle == 0 ==> v.rotated_by(-90).angle == 270,
{
    lemma_mod_bound(v.angle + angle, 360);
    lemma_mod_bound(angle, 360);
}

/// A page down at the bottom of the image selects the next file, which is
/// then shown from its top left corner; where the list holds no other
/// file, the view moves to the top left corner of the image.
pub proof fn lemma_scroll_down_turns_page(s: State, step: i64, out: (u32, u32), next: Image)
    requires
        s.wf(),
        s.image.is_some(),
        next.wf(),
        s.past_bottom(page(step as int, out.1 as int, s.zoom)),
    ensures
        ({
            let t = s.scrolled(step, out);
            let target = s.neighbour(1);
            &&& t.wf()
            &&& target.is_some()
            &&& target.unwrap() == (s.index.unwrap() + 1) % (s.files.len() as int)
            &&& t.index == target
            &&& target != s.index ==> {
                &&& t.image.is_none()
                &&& t.loaded(target.unwrap(), Some(next), out).image == Some(
                    CurrentImage::fresh(next).moved_to((0, 0), out, s.zoom),
                )
            }
            &&& target == s.index ==> t.image == Some(
                s.image.unwrap().moved_to((0, 0), out, s.zoom),
            )
        }),
{
    lemma_stepped_in_range(s.files.len() as int, Some(s.index.unwrap() as int), 1);
    lemma_move_rests(s.image.unwrap(), (0, 0), out, s.zoom);
}

/// A page up at the top of the image selects the previous file, which is
/// then shown from its bottom left corner; where the list holds no other
/// file, the view moves to the bottom left corner of the image.
pub proof fn lemma_scroll_up_turns_page(s: State, step: i64, out: (u32, u32), previous: Image)
    requires
        s.wf(),
        s.image.is_some(),
        previous.wf(),
        s.past_top(page(step as int, out.1 as int, s.zoom)),
    ensures
        ({
            let t = s.scrolled(step, out);
            let target = s.neighbour(-1);
            &&& t.wf()
            &&& target.is_some()
            &&& target.unwrap() == (s.index.unwrap() - 1) % (s.files.len() as int)
            &&& t.index == target
            &&& target != s.index ==> {
                &&& t.image.is_none()
                &&& t.loaded(target.unwrap(), Some(previous), out).image == Some(
                    CurrentImage::fresh(previous).moved_to(
                        (0, previous.height * UNIT),
                        out,
                        s.zoom,
                    ),
                )
            }
            &&& target == s.index ==> t.image == Some(
                s.image.unwrap().moved_to((0, s.image.unwrap().image.height * UNIT), out, s.zoom),
            )
        }),
{
    lemma_stepped_in_range(s.files.len() as int, Some(s.index.unwrap() as int), -1);
    let v = s.image.unwrap();
    lemma_move_rests(v, (0, v.image.height * UNIT), out, s.zoom);
}

/// Fit to window: an image larger than the output is shown at a zoom
/// below 1, a smaller one at exactly 1, and either way whole and centred.
pub proof fn lemma_adjust(s: State, out: (u32, u32))
    requires
        s.wf(),
        s.image.is_some(),
        out.0 > 0,
        out.1 > 0,
    ensures
        ({
            let v = s.image.unwrap();
            let t = s.adjusted(out);
            let one = Zoom { num: 1, den: 1 };
            &&& t.wf()
            &&& v.image.width <= out.0 && v.image.height <= out.1 ==> t.zoom == one
            &&& v.image.width > out.0 || v.image.height > out.1 ==> t.zoom.lt(one)
            &&& fits(v.image.width as int, out.0 as int, t.zoom)
            &&& fits(v.image.height as int, out.1 as int, t.zoom)
            &&& t.image.unwrap().pos == CurrentImage::middle(v.image)
        }),
{
    let v = s.image.unwrap();
    lemma_fitting(out, (v.image.width, v.image.height));
    let zoom = Zoom::fitting(out, (v.image.width, v.image.height));
    lemma_move_rests(v, (v.pos.0 as int, v.pos.1 as int), out, zoom);
    assert(UNIT == 65536);
}

/// A screen position shows a point of the image exactly when the
/// coordinates under it lie in the image, and then it shows those.
pub proof fn lemma_point_in_image(v: CurrentImage, pos: (i32, i32), out: (u32, u32), zoom: Zoom)
    requires
        v.wf(),
    ensures
        ({
            let c = v.under(pos, out, zoom);
            let inside = 0 <= c.0 <= v.image.width * UNIT && 0 <= c.1 <= v.image.height * UNIT;
            &&& v.point_at(pos, out, zoom).is_some() == inside
            &&& inside ==> v.point_at(pos, out, zoom) == Some((c.0 as i64, c.1 as i64))
        }),
{
}

} // verus!
