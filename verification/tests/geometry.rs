use scratchpad::{Anchor, AnchorPosition, Binary32, Error, Region, Scratchpad};

fn share(value: f32) -> Binary32 {
    Binary32::from_bits(value.to_bits())
}

fn overlay(w: f32, h: f32, anchor: Anchor) -> Scratchpad {
    Scratchpad::new("alacritty", share(w), share(h), anchor).unwrap()
}

#[test]
fn centered_overlay_takes_four_fifths_of_the_screen() {
    let anchor = Anchor::new(AnchorPosition::Center, AnchorPosition::Center, (0, 0)).unwrap();
    let sp = overlay(0.8, 0.8, anchor);
    let screen = Region::new(0, 0, 1000, 800);
    assert!(sp.can_place(screen));
    assert_eq!(sp.get_position(screen), Region::new(100, 80, 800, 640));
}

#[test]
fn top_left_overlay_is_moved_by_its_offset() {
    let anchor = Anchor::new(AnchorPosition::Left, AnchorPosition::Top, (10, 5)).unwrap();
    let sp = overlay(0.5, 0.5, anchor);
    let screen = Region::new(0, 0, 1000, 800);
    assert!(sp.can_place(screen));
    assert_eq!(sp.get_position(screen), Region::new(10, 5, 500, 400));
}

#[test]
fn bottom_right_overlay_ends_at_the_far_edges() {
    let anchor = Anchor::new(AnchorPosition::Right, AnchorPosition::Bottom, (0, 0)).unwrap();
    let sp = overlay(0.25, 0.5, anchor);
    let screen = Region::new(1920, 30, 1920, 1050);
    assert_eq!(sp.get_position(screen), Region::new(1920 + 1920 - 480, 30 + 1050 - 525, 480, 525));
}

#[test]
fn centered_overlay_leaves_the_odd_pixel_on_the_far_side() {
    let sp = overlay(0.5, 0.5, Anchor::default());
    // 0.5 of 1001 is 500.5, cut off to 500; 501 pixels are left over, 250 of them before.
    let screen = Region::new(7, 3, 1001, 801);
    assert_eq!(sp.get_position(screen), Region::new(7 + 250, 3 + 200, 500, 400));
}

#[test]
fn full_size_overlay_covers_the_screen() {
    for horizontal in [AnchorPosition::Left, AnchorPosition::Center, AnchorPosition::Right] {
        for vertical in [AnchorPosition::Top, AnchorPosition::Center, AnchorPosition::Bottom] {
            let sp = overlay(1.0, 1.0, Anchor::new(horizontal, vertical, (0, 0)).unwrap());
            let screen = Region::new(5, 6, 1366, 768);
            assert_eq!(sp.get_position(screen), screen);
        }
    }
}

#[test]
fn empty_size_overlay_sits_on_the_anchor_point() {
    let screen = Region::new(10, 20, 1000, 800);
    let corner = Anchor::new(AnchorPosition::Right, AnchorPosition::Bottom, (0, 0)).unwrap();
    assert_eq!(overlay(0.0, 0.0, corner).get_position(screen), Region::new(1010, 820, 0, 0));
    assert_eq!(
        overlay(0.0, 0.0, Anchor::default()).get_position(screen),
        Region::new(510, 420, 0, 0)
    );
}

#[test]
fn offset_may_push_the_overlay_off_the_screen() {
    let anchor = Anchor::new(AnchorPosition::Right, AnchorPosition::Bottom, (300, 200)).unwrap();
    let sp = overlay(0.5, 0.5, anchor);
    let screen = Region::new(0, 0, 1000, 800);
    assert!(sp.can_place(screen));
    assert_eq!(sp.get_position(screen), Region::new(800, 600, 500, 400));
}

#[test]
fn overlay_that_leaves_the_coordinates_cannot_be_placed() {
    let anchor = Anchor::new(AnchorPosition::Left, AnchorPosition::Top, (10, 0)).unwrap();
    let sp = overlay(0.5, 0.5, anchor);
    assert!(!sp.can_place(Region::new(u32::MAX - 5, 0, 100, 100)));
    assert!(sp.can_place(Region::new(u32::MAX - 10, 0, 100, 100)));
    assert_eq!(
        sp.get_position(Region::new(u32::MAX - 10, 0, 100, 100)),
        Region::new(u32::MAX, 0, 50, 50)
    );
}

#[test]
fn region_before_offset_lies_within_the_screen() {
    let shares = [0.0f32, 0.001, 0.1, 0.25, 1.0 / 3.0, 0.5, 0.7, 0.8, 0.999, 1.0];
    let screens = [
        Region::new(0, 0, 1000, 800),
        Region::new(1920, 0, 1280, 1024),
        Region::new(3, 7, 1, 1),
        Region::new(0, 0, 0, 0),
        Region::new(100, 100, 16_777_216, 16_777_215),
        Region::new(0, 0, 3841, 2161),
    ];
    for horizontal in [AnchorPosition::Left, AnchorPosition::Center, AnchorPosition::Right] {
        for vertical in [AnchorPosition::Top, AnchorPosition::Center, AnchorPosition::Bottom] {
            let anchor = Anchor::new(horizontal, vertical, (0, 0)).unwrap();
            for w in shares {
                for h in shares {
                    let sp = overlay(w, h, anchor);
                    for screen in screens {
                        assert!(sp.can_place(screen));
                        let region = sp.get_position(screen);
                        assert!(region.x >= screen.x);
                        assert!(region.y >= screen.y);
                        assert!(
                            region.x as u64 + region.w as u64 <= screen.x as u64 + screen.w as u64
                        );
                        assert!(
                            region.y as u64 + region.h as u64 <= screen.y as u64 + screen.h as u64
                        );
                    }
                }
            }
        }
    }
}

#[test]
fn anchor_on_the_wrong_axis_is_refused() {
    assert_eq!(
        Anchor::new(AnchorPosition::Top, AnchorPosition::Center, (0, 0)).err(),
        Some(Error::InvalidAnchor)
    );
    assert_eq!(
        Anchor::new(AnchorPosition::Bottom, AnchorPosition::Top, (1, 2)).err(),
        Some(Error::InvalidAnchor)
    );
    assert_eq!(
        Anchor::new(AnchorPosition::Center, AnchorPosition::Left, (0, 0)).err(),
        Some(Error::InvalidAnchor)
    );
    assert_eq!(
        Anchor::new(AnchorPosition::Left, AnchorPosition::Right, (0, 0)).err(),
        Some(Error::InvalidAnchor)
    );
    assert_eq!(
        Anchor::new(AnchorPosition::Top, AnchorPosition::Left, (0, 0)).err(),
        Some(Error::InvalidAnchor)
    );
}

#[test]
fn anchor_on_its_own_axes_is_accepted() {
    for horizontal in [AnchorPosition::Left, AnchorPosition::Center, AnchorPosition::Right] {
        for vertical in [AnchorPosition::Top, AnchorPosition::Center, AnchorPosition::Bottom] {
            let anchor = Anchor::new(horizontal, vertical, (3, 4)).unwrap();
            assert_eq!(anchor.horizontal(), horizontal);
            assert_eq!(anchor.vertical(), vertical);
            assert_eq!(anchor.offset(), (3, 4));
        }
    }
}

#[test]
fn default_anchor_is_the_center_without_offset() {
    let anchor = Anchor::default();
    assert_eq!(anchor.horizontal(), AnchorPosition::Center);
    assert_eq!(anchor.vertical(), AnchorPosition::Center);
    assert_eq!(anchor.offset(), (0, 0));
}

#[test]
fn anchor_places_a_rectangle_of_given_size() {
    let screen = Region::new(100, 50, 640, 480);
    let anchor = Anchor::new(AnchorPosition::Right, AnchorPosition::Center, (2, 3)).unwrap();
    assert!(anchor.can_place(screen, 200, 100));
    assert_eq!(anchor.place(screen, 200, 100), Region::new(100 + 440 + 2, 50 + 190 + 3, 200, 100));
    // a centred rectangle must not be larger than the screen
    assert!(!anchor.can_place(screen, 200, 481));
    // at the far edge a wider rectangle starts before the screen, as long as that is not below zero
    assert!(anchor.can_place(screen, 740, 100));
    assert_eq!(anchor.place(screen, 740, 100).x, 2);
    assert!(!anchor.can_place(screen, 741, 100));
}

#[test]
fn region_gives_back_its_values() {
    let region = Region::new(1, 2, 3, 4);
    assert_eq!((region.x, region.y, region.w, region.h), (1, 2, 3, 4));
    assert_eq!(region.values(), (1, 2, 3, 4));
}

#[test]
fn positions_are_exported_by_name() {
    let anchor = Anchor::new(scratchpad::Left, scratchpad::Bottom, (0, 0)).unwrap();
    assert_eq!(anchor.horizontal(), AnchorPosition::Left);
    assert_eq!(anchor.vertical(), AnchorPosition::Bottom);
    assert_eq!(scratchpad::Top, AnchorPosition::Top);
    assert_eq!(scratchpad::Center, AnchorPosition::Center);
    assert_eq!(scratchpad::Right, AnchorPosition::Right);
}

#[test]
fn overlay_on_a_screen_too_wide_for_single_precision_may_be_wider_than_the_screen() {
    // 2^24 + 3 pixels are held as 2^24 + 4
    let screen = Region::new(0, 0, 16_777_219, 1000);
    let left = Anchor::new(AnchorPosition::Left, AnchorPosition::Top, (0, 0)).unwrap();
    let left = overlay(1.0, 1.0, left);
    assert!(left.can_place(screen));
    assert_eq!(left.get_position(screen), Region::new(0, 0, 16_777_220, 1000));
    assert!(!overlay(1.0, 1.0, Anchor::default()).can_place(screen));
    let right = Anchor::new(AnchorPosition::Right, AnchorPosition::Top, (0, 0)).unwrap();
    assert!(!overlay(1.0, 1.0, right).can_place(screen));
    let moved = Region::new(1, 0, 16_777_219, 1000);
    assert!(overlay(1.0, 1.0, right).can_place(moved));
    assert_eq!(overlay(1.0, 1.0, right).get_position(moved), Region::new(0, 0, 16_777_220, 1000));
}
