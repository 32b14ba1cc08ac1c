use bytes::Bytes;
use ffscreencast::annexb::{nals_to_sample_data, split_annex_b};
use ffscreencast::order::{stable_order, Place, Title};
use ffscreencast::pixels::{copy_rows, dib_pixel, dib_pixels, scale_rgba, swap_red_blue, write_rows};
use ffscreencast::text::{chars_of, joined, parse_number, push_decimal, strip_prefix, truncate};
use ffscreencast::wide::{chars_from_wide, text_from_wide, to_wide};

#[test]
fn annex_b_with_both_start_codes_is_split() {
    let stream = [0, 0, 0, 1, 0x67, 0x42, 0, 0, 1, 0x68, 0xCE, 0, 0, 0, 1, 0x65, 0x88];
    let nals = split_annex_b(&stream);
    assert_eq!(nals, vec![vec![0x67, 0x42], vec![0x68, 0xCE], vec![0x65, 0x88]]);
}

#[test]
fn annex_b_without_start_code_is_one_unit() {
    assert!(split_annex_b(&[]).is_empty());
    assert_eq!(split_annex_b(&[1, 2, 3, 4, 5]), vec![vec![1, 2, 3, 4, 5]]);
}

#[test]
fn annex_b_units_of_one_byte_are_dropped() {
    assert!(split_annex_b(&[9]).is_empty());
    assert_eq!(split_annex_b(&[0, 0, 1, 9, 0, 0, 1, 7, 8]), vec![vec![7, 8]]);
}

#[test]
fn sample_data_puts_a_start_code_before_each_unit() {
    let nals = [Bytes::from(vec![0x67, 1]), Bytes::from(vec![0x65, 2, 3])];
    let data = nals_to_sample_data(&nals);
    assert_eq!(&data[..], &[0, 0, 0, 1, 0x67, 1, 0, 0, 0, 1, 0x65, 2, 3]);
}

#[test]
fn joined_units_split_again() {
    let nals = [Bytes::from(vec![0x67, 1]), Bytes::from(vec![0x65, 2, 3])];
    let data = nals_to_sample_data(&nals);
    assert_eq!(split_annex_b(&data), vec![vec![0x67, 1], vec![0x65, 2, 3]]);
}

#[test]
fn red_and_blue_change_places() {
    let mut data = vec![1, 2, 3, 4, 5, 6, 7, 8];
    swap_red_blue(&mut data);
    assert_eq!(data, vec![3, 2, 1, 4, 7, 6, 5, 8]);
    swap_red_blue(&mut data);
    assert_eq!(data, vec![1, 2, 3, 4, 5, 6, 7, 8]);
}

#[test]
fn rows_are_copied_without_the_padding() {
    let src = [1, 2, 3, 9, 9, 4, 5, 6, 9, 9];
    assert_eq!(copy_rows(&src, 0, 5, 3, 2), vec![1, 2, 3, 4, 5, 6]);
    assert_eq!(copy_rows(&src, 1, 5, 2, 2), vec![2, 3, 5, 6]);
}

#[test]
fn written_rows_leave_the_padding_alone() {
    let mut dst = [9u8; 10];
    write_rows(&mut dst, 5, &[1, 2, 3, 4, 5, 6], 3, 2);
    assert_eq!(dst, [1, 2, 3, 9, 9, 4, 5, 6, 9, 9]);
    assert_eq!(copy_rows(&dst, 0, 5, 3, 2), vec![1, 2, 3, 4, 5, 6]);
}

#[test]
fn pictures_are_scaled_by_the_nearest_pixel() {
    let src = [1, 1, 1, 1, 2, 2, 2, 2, 3, 3, 3, 3, 4, 4, 4, 4];
    assert_eq!(scale_rgba(&src, 2, 2, 1, 1), vec![1, 1, 1, 1]);
    assert_eq!(scale_rgba(&src, 2, 2, 2, 2), src.to_vec());
    assert_eq!(
        scale_rgba(&src, 2, 2, 4, 1),
        vec![1, 1, 1, 1, 1, 1, 1, 1, 2, 2, 2, 2, 2, 2, 2, 2]
    );
    assert!(scale_rgba(&src, 2, 2, 0, 5).is_empty());
}

#[test]
fn pixels_for_bitmaps_have_blue_first() {
    assert_eq!(dib_pixel(0x44332211), 0x44112233);
    assert_eq!(dib_pixels(&[0x000000FF, 0x00FF0000]), vec![0x00FF0000, 0x000000FF]);
}

#[test]
fn stable_order_keeps_equal_places() {
    let keys = vec![
        Place { x: 1920, y: 0 },
        Place { x: -100, y: 5 },
        Place { x: 1920, y: 0 },
        Place { x: -100, y: -5 },
    ];
    assert_eq!(stable_order(&keys), vec![3, 1, 0, 2]);
    let titles = vec![
        Title { chars: chars_of("b") },
        Title { chars: chars_of("") },
        Title { chars: chars_of("a b") },
        Title { chars: chars_of("B") },
    ];
    assert_eq!(stable_order(&titles), vec![1, 3, 2, 0]);
}

#[test]
fn numbers_are_written_and_read() {
    let mut s = String::from("n=");
    push_decimal(&mut s, 0);
    push_decimal(&mut s, u64::MAX);
    assert_eq!(s, "n=018446744073709551615");
    assert_eq!(parse_number("0060", 60), Some(60));
    assert_eq!(parse_number("+7", 60), Some(7));
    assert_eq!(parse_number("61", 60), None);
    assert_eq!(parse_number("", 60), None);
    assert_eq!(parse_number("+", 60), None);
    assert_eq!(parse_number("-1", 60), None);
    assert_eq!(parse_number("99999999999999999999999", u64::MAX), None);
}

#[test]
fn prefixes_are_stripped() {
    assert_eq!(strip_prefix("Bearer abc", "Bearer "), Some("abc".to_string()));
    assert_eq!(strip_prefix("bearer abc", "Bearer "), None);
    assert_eq!(strip_prefix("Bear", "Bearer "), None);
    assert_eq!(joined("a", "b"), "ab");
}

#[test]
fn long_texts_are_cut_between_characters() {
    assert_eq!(truncate("short", 48), "short");
    assert_eq!(truncate("abcdefgh", 6), "abc...");
    assert_eq!(truncate("a\u{e9}\u{e9}\u{e9}\u{e9}", 7), "a\u{e9}...");
    assert!(truncate("\u{1F600}\u{1F600}\u{1F600}", 8).len() <= 8);
}

#[test]
fn wide_text_reads_back() {
    let s = "Fenster \u{2013} \u{1F600}";
    let wide = to_wide(s);
    assert_eq!(wide.len(), 8 + 3 + 2);
    assert_eq!(*wide.last().unwrap(), 0);
    assert_eq!(text_from_wide(&wide), s);
}

#[test]
fn broken_pairs_are_replaced() {
    assert_eq!(text_from_wide(&[0x41, 0xD800, 0x42, 0, 0x43]), "A\u{FFFD}B");
    assert_eq!(chars_from_wide(&[0x36, 0xD800, 0x30, 0], '0'), "600");
    assert_eq!(chars_from_wide(&[], '0'), "");
}
