use swiftfetch::kitty::{
    transmit_png, cell_count, adjust_with_offset, compute_vertical_offset_rows,
    render_image, CellMetrics,
};
use base64::Engine;

#[test]
fn small_payload_is_one_final_chunk() {
    let out = transmit_png(&vec![1u8, 2, 3], 2, 2, 0, 0);
    assert_eq!(out, "\x1b_Ga=T,f=100,s=2,v=2,x=0,y=0,m=0;AQID\x1b\\");
}

#[test]
fn empty_payload_transmits_nothing() {
    let out = transmit_png(&Vec::new(), 4, 4, 1, 1);
    assert_eq!(out, "");
}

#[test]
fn long_payload_is_chunked_at_4096_characters() {
    let bytes: Vec<u8> = (0..4000u32).map(|i| (i % 251) as u8).collect();
    let encoded = base64::engine::general_purpose::STANDARD.encode(&bytes);
    assert!(encoded.len() > 4096);
    let out = transmit_png(&bytes, 100, 40, -2, 3);
    let expected = format!(
        "\x1b_Ga=T,f=100,s=100,v=40,x=-2,y=3,m=1;{}\x1b\\\x1b_Ga=T,f=100,s=100,v=40,x=-2,y=3,m=0;{}\x1b\\",
        &encoded[..4096],
        &encoded[4096..]
    );
    assert_eq!(out, expected);
}

#[test]
fn cell_footprint_is_a_ceiling_with_floor_one() {
    // 100 px over 11.5 px cells: ceil(8.69) = 9
    assert_eq!(cell_count(100, 115), 9);
    assert_eq!(cell_count(115, 115), 10);
    assert_eq!(cell_count(0, 115), 1);
    assert_eq!(cell_count(1, 180), 1);
}

#[test]
fn offsets_are_clamped_at_their_floor() {
    assert_eq!(adjust_with_offset(5, -10, 0), 0);
    assert_eq!(adjust_with_offset(5, 3, 1), 8);
    assert_eq!(adjust_with_offset(0, -5, 1), 1);
    assert_eq!(adjust_with_offset(7, 0, 0), 7);
}

#[test]
fn vertical_nudge_is_eight_percent_with_floor_one() {
    assert_eq!(compute_vertical_offset_rows(0), 0);
    assert_eq!(compute_vertical_offset_rows(10), 1);
    assert_eq!(compute_vertical_offset_rows(13), 1);
    assert_eq!(compute_vertical_offset_rows(19), 2);
    assert_eq!(compute_vertical_offset_rows(100), 8);
}

#[test]
fn unreadable_image_reports_a_descriptive_error() {
    let err = render_image(
        "/nonexistent/image.png",
        None,
        None,
        None,
        None,
        0,
        0,
        Some(CellMetrics { width_tenths: 115, height_tenths: 180 }),
    )
    .unwrap_err();
    assert!(err.starts_with("Failed to open image '/nonexistent/image.png'"));
}
