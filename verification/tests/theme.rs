use pi_sidebar::shared::theme::{field_title, usage_bar};

#[test]
fn focus_marker_tracks_focus() {
    assert!(field_title("Název", true).starts_with(" ▶ "));
    assert!(field_title("Název", false).starts_with("   "));
}

#[test]
fn bars_are_exact_width_and_clamped() {
    assert_eq!(usage_bar(0, 10, 4), "░░░░");
    assert_eq!(usage_bar(10, 10, 4), "████");
    assert_eq!(usage_bar(5, 10, 4), "██░░");
    assert_eq!(usage_bar(99, 10, 4), "████", "over-max is clamped");
    assert_eq!(usage_bar(1, 0, 4), "░░░░", "no division by zero");
    assert_eq!(usage_bar(1, 1, 0), "");
}

#[test]
fn field_title_wraps_the_label() {
    assert_eq!(field_title("Body", true), " ▶ Body ");
    assert_eq!(field_title("Body", false), "   Body ");
}

#[test]
fn bar_rounds_halves_up() {
    // 1 of 8 over 4 cells is half a cell.
    assert_eq!(usage_bar(1, 8, 4), "█░░░");
    assert_eq!(usage_bar(1, 3, 3), "█░░");
    assert_eq!(usage_bar(2, 3, 10).chars().count(), 10);
    assert_eq!(usage_bar(2, 3, 10), "███████░░░");
}
