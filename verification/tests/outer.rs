use cloo_client::outer::{current_size_from, fallback_size, size_from_winsize};
use cloo_client::proto::Size;

#[test]
fn a_reported_size_is_used_as_is() {
    assert_eq!(size_from_winsize(120, 40), Size::new(120, 40));
}

#[test]
fn a_degenerate_size_falls_back_rather_than_rendering_nothing() {
    assert_eq!(size_from_winsize(0, 40), fallback_size());
    assert_eq!(size_from_winsize(120, 0), fallback_size());
    assert_eq!(size_from_winsize(0, 0), fallback_size());
}

#[test]
fn standard_output_is_asked_before_standard_input() {
    let wide = Size::new(132, 50);
    let narrow = Size::new(40, 10);
    assert_eq!(current_size_from(Some(wide), Some(narrow)), wide);
    assert_eq!(current_size_from(None, Some(narrow)), narrow);
    assert_eq!(current_size_from(None, None), Size::new(80, 24));
}
