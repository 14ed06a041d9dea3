use rampeditor::address::Group;
use rampeditor::zpl::ZplPalette;

#[test]
fn zpl_new_sets_geometry_and_metadata() {
    let pal = ZplPalette::new(String::from("sample"));
    assert_eq!(pal.store.page_count, 255);
    assert_eq!(pal.store.default_line_count, 16);
    assert_eq!(pal.store.default_column_count, 16);
    assert_eq!(pal.store.len(), 0);
    assert_eq!(pal.store.get_label(Group::All), Some("ZplPalette 1.0.0"));
    assert_eq!(pal.store.get_name(Group::All), Some("sample"));
}

#[test]
fn zpl_stream_layout() {
    let pal = ZplPalette::new(String::from("sample"));
    let bytes = pal.serialized_bytes();
    // header (12) + footer blocks: 4 + 109 * 4 + 20 + 79 * 4 + 36
    assert_eq!(bytes.len(), 12 + 4 + 436 + 20 + 316 + 36);
    assert_eq!(&bytes[0..12], &[0x43, 0x53, 0x45, 0x54, 0x04, 0x00, 0x01, 0x00, 0x9c, 0x0d, 0x05, 0x00]);
    assert_eq!(&bytes[12..16], &[0x5a, 0x00, 0x00, 0x00]);
    assert!(bytes[16..452].iter().all(|b| *b == 0x00));
    assert_eq!(&bytes[452..472], &[
        0x00, 0x00, 0x00, 0x36, 0x00, 0x00, 0x4e, 0x00, 0x00, 0x14,
        0x00, 0x00, 0x36, 0x00, 0x00, 0x4e, 0x00, 0x00, 0x14, 0x00,
    ]);
    assert!(bytes[472..788].iter().all(|b| *b == 0x00));
    assert_eq!(&bytes[788..824], &[
        0x22, 0x00, 0x00, 0x66, 0x00, 0x00, 0x5a, 0x00, 0x00, 0x22,
        0x00, 0x00, 0x86, 0x00, 0x00, 0x3c, 0x00, 0x00, 0x22, 0x00,
        0x00, 0x86, 0x00, 0x00, 0x3c, 0x00, 0x00, 0x20, 0x30, 0x40,
        0x3f, 0x3f, 0x3f, 0x07, 0x07, 0x07,
    ]);
}

#[test]
fn zpl_stream_is_deterministic() {
    let first = ZplPalette::new(String::from("one")).serialized_bytes();
    let second = ZplPalette::new(String::from("two")).serialized_bytes();
    assert_eq!(first, second);
}
