use image_sieve::status::{item_label, status_line, write_decimal};

#[test]
fn decimal_digits() {
    let mut s = String::from("n=");
    write_decimal(0, &mut s);
    assert_eq!(s, "n=0");
    let mut s = String::new();
    write_decimal(1234567890, &mut s);
    assert_eq!(s, "1234567890");
    let mut s = String::new();
    write_decimal(u64::MAX, &mut s);
    assert_eq!(s, u64::MAX.to_string());
}

#[test]
fn status_line_shows_size_in_kilobytes_and_event() {
    assert_eq!(
        status_line("IMG_1.jpg", "2021-05-01 10:00:00", 2048 * 1024 + 100, "Trip"),
        "IMG_1.jpg - 2021-05-01 10:00:00, 2048 KB Trip"
    );
    assert_eq!(status_line("a.png", "d", 1023, ""), "a.png - d, 0 KB ");
}

#[test]
fn event_items_are_marked_in_the_list() {
    assert_eq!(item_label("a.jpg", true), "\u{1F4C5}a.jpg");
    assert_eq!(item_label("a.jpg", false), "a.jpg");
}
