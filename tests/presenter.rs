use dsvita::presenter::{PresentEvent, PresenterScreen};

#[test]
fn screen_contains_its_corners() {
    let s = PresenterScreen::new(480, 16, 480, 360);
    assert!(s.is_within(480, 16));
    assert!(s.is_within(959, 375));
    assert!(!s.is_within(960, 16));
    assert!(!s.is_within(479, 100));
    assert!(!s.is_within(500, 376));
    assert_eq!(s.normalize(500, 20), (20, 4));
    let e = PresentEvent::Inputs { keymap: 3, touch: Some((1, 2)) };
    assert!(matches!(e, PresentEvent::Inputs { keymap: 3, .. }));
}

#[test]
fn screen_near_the_top_of_the_range() {
    let s = PresenterScreen::new(u32::MAX - 10, 0, 20, 5);
    assert!(s.is_within(u32::MAX, 4));
    assert!(!s.is_within(u32::MAX - 11, 4));
}
