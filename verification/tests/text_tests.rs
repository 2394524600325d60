use paints::text::score_digits;
use paints::text::score_line;

fn digits(n: u64) -> String {
    String::from_utf8(score_digits(n)).unwrap()
}

#[test]
fn scores_are_zero_padded_to_three_digits() {
    assert_eq!(digits(0), "000");
    assert_eq!(digits(9), "009");
    assert_eq!(digits(10), "010");
    assert_eq!(digits(42), "042");
    assert_eq!(digits(100), "100");
    assert_eq!(digits(191), "191");
    assert_eq!(digits(999), "999");
}

#[test]
fn large_scores_keep_all_their_digits() {
    assert_eq!(digits(1000), "1000");
    assert_eq!(digits(5000), "5000");
    assert_eq!(digits(123_456), "123456");
}

#[test]
fn the_score_line_reads_as_displayed() {
    assert_eq!(score_line(0), "Score: 000\n[Return] to go to main menu");
    assert_eq!(score_line(42), "Score: 042\n[Return] to go to main menu");
    assert_eq!(score_line(191), "Score: 191\n[Return] to go to main menu");
    assert_eq!(score_line(5000), "Score: 5000\n[Return] to go to main menu");
}
