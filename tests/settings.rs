use ascii_graphics::animation;
use ascii_graphics::border;

#[test]
fn full_settings_keeps_each_edge() {
    let b = border::full_settings('+', 't', 'b', 'l', 'r');
    assert_eq!(b.corners, '+');
    assert_eq!(b.top, 't');
    assert_eq!(b.bottom, 'b');
    assert_eq!(b.left, 'l');
    assert_eq!(b.right, 'r');
}

#[test]
fn settings_mirrors_edges() {
    let b = border::settings('+', '-', '|');
    assert_eq!(b, border::full_settings('+', '-', '-', '|', '|'));
}

#[test]
fn frame_delay_divides_a_second() {
    assert_eq!(animation::frame_delay_ms(30), 33);
    assert_eq!(animation::frame_delay_ms(1), 1000);
    assert_eq!(animation::frame_delay_ms(2000), 0);
}

#[test]
fn next_frame_counts_or_stops() {
    assert_eq!(animation::next_frame(0, true), Some(1));
    assert_eq!(animation::next_frame(41, true), Some(42));
    assert_eq!(animation::next_frame(41, false), None);
    assert_eq!(animation::next_frame(u64::MAX, true), None);
}
