use ts_erase::text::{blank, newlines};

#[test]
fn blank_replaces_visible_characters() {
    let mut buf = String::from("x");
    blank(&mut buf, ": number");
    assert_eq!(buf, "x        ");
}

#[test]
fn newlines_counts_line_feeds() {
    assert_eq!(newlines("a\nb\r\nc"), 2);
}
