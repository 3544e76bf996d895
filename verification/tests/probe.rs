use abolishpdfs::pdfium::probe::{bitmap_checksum, TextObjectRenderingCapability, FNV_OFFSET_BASIS};

#[test]
fn empty_bitmap_hashes_to_the_offset_basis() {
    assert_eq!(bitmap_checksum(&[]), FNV_OFFSET_BASIS);
    assert_eq!(bitmap_checksum(&[]), 0xcbf2_9ce4_8422_2325);
}

#[test]
fn checksum_is_fnv1a() {
    assert_eq!(bitmap_checksum(b"a"), 0xaf63_dc4c_8601_ec8c);
    assert_eq!(bitmap_checksum(b"foobar"), 0x8594_4171_f739_67e8);
}

#[test]
fn changed_pixels_change_the_checksum() {
    let before = [255u8, 255, 255, 255, 0, 0, 0, 255];
    let mut after = before;
    after[4] = 1;
    assert_ne!(bitmap_checksum(&before), bitmap_checksum(&after));
}

#[test]
fn rendering_probe_compares_each_render_with_the_first() {
    let mut probe = TextObjectRenderingCapability::empty();
    assert!(probe.record_baseline(Ok(10)));
    probe.text_object_count = 2;
    assert!(probe.record_activity(Ok(true)));
    assert!(!probe.record_activity(Ok(false)));
    assert!(!probe.record_activity(Err("object state unknown".to_owned())));
    probe.record_suppressed(Ok(11));
    probe.record_restored(Ok(10));
    assert_eq!(probe.baseline_checksum, Some(10));
    assert_eq!(probe.suppressed_checksum, Some(11));
    assert_eq!(probe.restored_checksum, Some(10));
    assert_eq!(probe.suppression_changed_bitmap, Some(true));
    assert_eq!(probe.restoration_matches_baseline, Some(true));
    assert_eq!(probe.deactivation_error.as_deref(), Some("object state unknown"));
    assert_eq!(probe.render_error, None);
}

#[test]
fn rendering_probe_stops_without_a_first_render() {
    let mut probe = TextObjectRenderingCapability::empty();
    assert!(!probe.record_baseline(Err("out of memory".to_owned())));
    assert_eq!(probe.render_error.as_deref(), Some("baseline render: out of memory"));
    assert_eq!(probe.baseline_checksum, None);
}

#[test]
fn rendering_probe_keeps_later_render_errors() {
    let mut probe = TextObjectRenderingCapability::empty();
    probe.record_baseline(Ok(1));
    probe.record_suppressed(Ok(1));
    assert_eq!(probe.suppression_changed_bitmap, Some(false));
    probe.record_restored(Err("busy".to_owned()));
    assert_eq!(probe.render_error.as_deref(), Some("restored render: busy"));
    assert_eq!(probe.restoration_matches_baseline, None);
    let mut other = TextObjectRenderingCapability::empty();
    other.record_baseline(Ok(1));
    other.record_suppressed(Err("busy".to_owned()));
    assert_eq!(other.render_error.as_deref(), Some("suppressed render: busy"));
}
