use regexrs::offsets::{get_byte_to_code_point, get_byte_to_code_point_and_reverse};
use regexrs::strfmt::usize_to_string;

const NA: usize = usize::MAX;

#[test]
fn offset_maps_for_ascii_text() {
    let (b2c, c2b) = get_byte_to_code_point_and_reverse("abc");
    assert_eq!(b2c, vec![0, 1, 2, 3]);
    assert_eq!(c2b, vec![0, 1, 2, 3]);
}

#[test]
fn offset_maps_for_multibyte_text() {
    // h(1 byte) é(2 bytes) l l o -> 6 bytes, 5 codepoints.
    let (b2c, c2b) = get_byte_to_code_point_and_reverse("héllo");
    assert_eq!(b2c, vec![0, 1, NA, 2, 3, 4, 5]);
    assert_eq!(c2b, vec![0, 1, 3, 4, 5, 6, NA]);
}

#[test]
fn offset_maps_for_empty_text() {
    let (b2c, c2b) = get_byte_to_code_point_and_reverse("");
    assert_eq!(b2c, vec![0]);
    assert_eq!(c2b, vec![0]);
}

#[test]
fn codepoint_roundtrip_through_both_maps() {
    for text in ["", "abc", "héllo", "åéîøü", "日本語x", "a🙂b"] {
        let (b2c, c2b) = get_byte_to_code_point_and_reverse(text);
        let n = text.chars().count();
        for c in 0..=n {
            assert_eq!(b2c[c2b[c]], c);
        }
    }
}

#[test]
fn forward_map_alone_agrees_with_the_pair() {
    for text in ["", "abc", "héllo", "a🙂b"] {
        let (b2c, _) = get_byte_to_code_point_and_reverse(text);
        assert_eq!(get_byte_to_code_point(text), b2c);
    }
}

#[test]
fn four_byte_codepoint_offsets() {
    // a(1) 🙂(4) b(1) -> 6 bytes, 3 codepoints.
    let (b2c, c2b) = get_byte_to_code_point_and_reverse("a🙂b");
    assert_eq!(b2c, vec![0, 1, NA, NA, NA, 2, 3]);
    assert_eq!(c2b, vec![0, 1, 5, 6, NA, NA, NA]);
}

#[test]
fn decimal_rendering_of_offsets() {
    assert_eq!(usize_to_string(0), "0");
    assert_eq!(usize_to_string(7), "7");
    assert_eq!(usize_to_string(10), "10");
    assert_eq!(usize_to_string(12345), "12345");
    assert_eq!(usize_to_string(1000), "1000");
}
