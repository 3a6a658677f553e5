use riew::zoom::{Zoom, ZOOM_STEPS};

fn zoom(num: u32, den: u32) -> Zoom {
    Zoom::new(num, den).unwrap()
}

fn parts(z: Zoom) -> (u32, u32) {
    (z.num, z.den)
}

#[test]
fn zoom_needs_positive_parts() {
    assert!(Zoom::new(0, 1).is_none());
    assert!(Zoom::new(1, 0).is_none());
    assert_eq!(parts(Zoom::new(3, 2).unwrap()), (3, 2));
    assert_eq!(parts(Zoom::one()), (1, 1));
}

#[test]
fn zoom_compares_as_ratio() {
    assert!(zoom(1, 2).less_than(&zoom(2, 3)));
    assert!(!zoom(2, 3).less_than(&zoom(1, 2)));
    assert!(!zoom(1, 2).less_than(&zoom(2, 4)));
    assert!(zoom(u32::MAX - 1, u32::MAX).less_than(&zoom(1, 1)));
}

#[test]
fn zoom_clamps_into_range() {
    assert_eq!(parts(zoom(1, 2000).clamp()), (1, 1000));
    assert_eq!(parts(zoom(2000, 1).clamp()), (1000, 1));
    assert_eq!(parts(zoom(1, 1000).clamp()), (1, 1000));
    assert_eq!(parts(zoom(1000, 1).clamp()), (1000, 1));
    assert_eq!(parts(zoom(3, 2).clamp()), (3, 2));
    assert_eq!(parts(zoom(1, u32::MAX).clamp()), (1, 1000));
    assert_eq!(parts(zoom(u32::MAX, 1).clamp()), (1000, 1));
    assert_eq!(parts(Zoom { num: 0, den: 1 }.clamp()), (1, 1000));
    assert_eq!(parts(Zoom { num: 0, den: 7 }.clamp()), (1, 1000));
}

#[test]
fn fit_takes_the_tighter_axis() {
    assert_eq!(parts(Zoom::fit((800, 500), (4000, 3000))), (500, 3000));
    assert_eq!(parts(Zoom::fit((800, 500), (4000, 1000))), (800, 4000));
    assert_eq!(parts(Zoom::fit((800, 500), (1600, 500))), (800, 1600));
}

#[test]
fn fit_never_enlarges() {
    assert_eq!(parts(Zoom::fit((800, 500), (400, 300))), (1, 1));
    assert_eq!(parts(Zoom::fit((800, 500), (800, 500))), (1, 1));
    assert_eq!(parts(Zoom::fit((800, 500), (1, 1))), (1, 1));
}

#[test]
fn steps_are_the_table() {
    assert_eq!(
        ZOOM_STEPS,
        [
            15, 22, 29, 36, 43, 50, 60, 70, 80, 90, 100, 125, 150, 175, 200, 300, 400, 500, 700,
            800, 900, 1000, 1500, 2000, 2500, 3000, 3500, 4000
        ]
    );
    for pair in ZOOM_STEPS.windows(2) {
        assert!(pair[0] < pair[1]);
    }
}

#[test]
fn step_up_finds_next_level() {
    assert_eq!(parts(zoom(1, 1).step_up().unwrap()), (125, 100));
    assert_eq!(parts(zoom(5, 1).step_up().unwrap()), (700, 100));
    assert_eq!(parts(zoom(1, 1000).step_up().unwrap()), (15, 100));
    assert_eq!(parts(zoom(149, 100).step_up().unwrap()), (150, 100));
    assert_eq!(parts(zoom(3, 2).step_up().unwrap()), (175, 100));
    assert!(zoom(40, 1).step_up().is_none());
    assert!(zoom(1000, 1).step_up().is_none());
}

#[test]
fn step_down_finds_previous_level() {
    assert_eq!(parts(zoom(1, 1).step_down().unwrap()), (90, 100));
    assert_eq!(parts(zoom(7, 1).step_down().unwrap()), (500, 100));
    assert_eq!(parts(zoom(1000, 1).step_down().unwrap()), (4000, 100));
    assert_eq!(parts(zoom(151, 100).step_down().unwrap()), (150, 100));
    assert!(zoom(15, 100).step_down().is_none());
    assert!(zoom(1, 1000).step_down().is_none());
}

#[test]
fn percent_rounds_down() {
    assert_eq!(zoom(1, 1).percent(), 100);
    assert_eq!(zoom(1, 3).percent(), 33);
    assert_eq!(zoom(500, 3000).percent(), 16);
    assert_eq!(zoom(1000, 1).percent(), 100000);
}
