use mew_desktop::composer::{plan_preview, question_option_answers};
use mew_desktop::cursor::normalized_browser_url_range;

#[test]
fn stale_browser_url_ranges_are_clamped_to_valid_boundaries() {
    assert_eq!(normalized_browser_url_range("https://é", &(2..999)), 2..10);
    assert_eq!(
        normalized_browser_url_range("short", &std::ops::Range { start: 99, end: 3 },),
        3..5
    );
}

#[test]
fn plan_preview_shows_the_first_eight_lines() {
    let plan = "# Plan\n1\n2\n3\n4\n5\n6\n7\n8\n9";
    let preview = plan_preview(plan);
    assert_eq!(preview.len(), 8);
    assert_eq!(preview[0], "# Plan");
    assert_eq!(preview[7], "7");
    assert_eq!(plan_preview("short\r\nplan\n"), vec!["short".to_string(), "plan".to_string()]);
    assert!(plan_preview("").is_empty());
}

#[test]
fn only_a_single_question_offers_option_buttons() {
    let one = vec![vec!["yes".to_string(), "no".to_string()]];
    assert_eq!(question_option_answers(&one), Some(vec!["yes".to_string(), "no".to_string()]));
    let two = vec![vec!["a".to_string()], vec!["b".to_string()]];
    assert_eq!(question_option_answers(&two), None);
    assert_eq!(question_option_answers(&Vec::new()), None);
}
