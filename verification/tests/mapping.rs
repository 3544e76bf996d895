use abolishpdfs::fonts::mapping_is_proven;

fn sfnt_with_cmap(cmap: &[u8]) -> Vec<u8> {
    let table_offset = 28usize;
    let mut font = vec![0; table_offset + cmap.len()];
    font[..4].copy_from_slice(&0x0001_0000u32.to_be_bytes());
    font[4..6].copy_from_slice(&1u16.to_be_bytes());
    font[12..16].copy_from_slice(b"cmap");
    font[20..24].copy_from_slice(&u32::try_from(table_offset).unwrap_or_default().to_be_bytes());
    font[24..28].copy_from_slice(&u32::try_from(cmap.len()).unwrap_or_default().to_be_bytes());
    font[table_offset..].copy_from_slice(&cmap);
    font
}

fn format_six_cmap() -> Vec<u8> {
    let mut cmap = vec![0, 0, 0, 1, 0, 3, 0, 1, 0, 0, 0, 12, 0, 6, 0, 14, 0, 0, 0, 65, 0, 2];
    cmap.extend_from_slice(&[0, 1, 0, 2]);
    cmap
}

/// A cmap with one Windows Unicode BMP record pointing at a format 4
/// subtable with a single segment 'a'..='c' mapped by delta, plus the
/// terminating 0xFFFF segment.
fn format_four_cmap(delta: i16) -> Vec<u8> {
    let mut cmap = vec![0, 0, 0, 1, 0, 3, 0, 1, 0, 0, 0, 12];
    let segments: u16 = 2;
    let mut subtable = Vec::new();
    subtable.extend_from_slice(&4u16.to_be_bytes());
    subtable.extend_from_slice(&0u16.to_be_bytes());
    subtable.extend_from_slice(&0u16.to_be_bytes());
    subtable.extend_from_slice(&(segments * 2).to_be_bytes());
    subtable.extend_from_slice(&[0, 0, 0, 0, 0, 0]);
    subtable.extend_from_slice(&0x63u16.to_be_bytes());
    subtable.extend_from_slice(&0xFFFFu16.to_be_bytes());
    subtable.extend_from_slice(&0u16.to_be_bytes());
    subtable.extend_from_slice(&0x61u16.to_be_bytes());
    subtable.extend_from_slice(&0xFFFFu16.to_be_bytes());
    subtable.extend_from_slice(&delta.to_be_bytes());
    subtable.extend_from_slice(&1i16.to_be_bytes());
    subtable.extend_from_slice(&0u16.to_be_bytes());
    subtable.extend_from_slice(&0u16.to_be_bytes());
    cmap.extend_from_slice(&subtable);
    cmap
}

/// A cmap with one Unicode full-repertoire record pointing at a format 12
/// subtable with one group 0x1F600..=0x1F602 starting at glyph 7.
fn format_twelve_cmap() -> Vec<u8> {
    let mut cmap = vec![0, 0, 0, 1, 0, 0, 0, 4, 0, 0, 0, 12];
    cmap.extend_from_slice(&12u16.to_be_bytes());
    cmap.extend_from_slice(&0u16.to_be_bytes());
    cmap.extend_from_slice(&28u32.to_be_bytes());
    cmap.extend_from_slice(&0u32.to_be_bytes());
    cmap.extend_from_slice(&1u32.to_be_bytes());
    cmap.extend_from_slice(&0x1F600u32.to_be_bytes());
    cmap.extend_from_slice(&0x1F602u32.to_be_bytes());
    cmap.extend_from_slice(&7u32.to_be_bytes());
    cmap
}

#[test]
fn format_six_cmap_proves_used_characters() {
    let cmap = format_six_cmap();
    let data = sfnt_with_cmap(&cmap);
    assert!(mapping_is_proven(&data, &['A', 'B']));
    assert!(!mapping_is_proven(&data, &['C']));
}

#[test]
fn invalid_font_does_not_prove_mapping() {
    assert!(!mapping_is_proven(&[0, 1, 2], &['A']));
}

#[test]
fn empty_used_set_is_trivially_proven_for_valid_font() {
    let cmap = format_six_cmap();
    assert!(mapping_is_proven(&sfnt_with_cmap(&cmap), &[]));
}

#[test]
fn empty_used_set_is_not_proven_without_a_cmap() {
    assert!(!mapping_is_proven(&[0, 1, 0, 0, 0, 0], &[]));
    let mut data = sfnt_with_cmap(&format_six_cmap());
    data[12..16].copy_from_slice(b"glyf");
    assert!(!mapping_is_proven(&data, &[]));
}

#[test]
fn opentype_cff_version_is_accepted() {
    let mut data = sfnt_with_cmap(&format_six_cmap());
    data[..4].copy_from_slice(b"OTTO");
    assert!(mapping_is_proven(&data, &['A']));
    data[..4].copy_from_slice(b"true");
    assert!(!mapping_is_proven(&data, &['A']));
}

#[test]
fn cmap_table_past_the_end_of_the_font_is_rejected() {
    let mut data = sfnt_with_cmap(&format_six_cmap());
    let length = u32::try_from(data.len()).unwrap();
    data[24..28].copy_from_slice(&length.to_be_bytes());
    assert!(!mapping_is_proven(&data, &[]));
}

#[test]
fn format_four_segments_map_by_delta() {
    let data = sfnt_with_cmap(&format_four_cmap(5));
    assert!(mapping_is_proven(&data, &['a', 'b', 'c']));
    assert!(!mapping_is_proven(&data, &['d']));
    assert!(!mapping_is_proven(&data, &['a', 'z']));
}

#[test]
fn format_four_delta_wrapping_to_notdef_is_not_proven() {
    let data = sfnt_with_cmap(&format_four_cmap(-0x61));
    assert!(!mapping_is_proven(&data, &['a']));
    assert!(mapping_is_proven(&data, &['b']));
}

#[test]
fn format_twelve_groups_cover_supplementary_characters() {
    let data = sfnt_with_cmap(&format_twelve_cmap());
    assert!(mapping_is_proven(&data, &['\u{1F600}', '\u{1F602}']));
    assert!(!mapping_is_proven(&data, &['\u{1F603}']));
}

#[test]
fn bmp_subtable_cannot_prove_supplementary_characters() {
    let data = sfnt_with_cmap(&format_four_cmap(5));
    assert!(!mapping_is_proven(&data, &['\u{1F600}']));
}

#[test]
fn proof_of_a_list_is_the_proof_of_each_part() {
    let data = sfnt_with_cmap(&format_six_cmap());
    for (first, second) in [(&['A'][..], &['B'][..]), (&['A'][..], &['C'][..]), (&[][..], &['B', 'A'][..])] {
        let both: Vec<char> = first.iter().chain(second.iter()).copied().collect();
        assert_eq!(
            mapping_is_proven(&data, &both),
            mapping_is_proven(&data, first) && mapping_is_proven(&data, second)
        );
    }
}

/// A format 4 cmap whose segment 0x41..=0x42 reads its glyphs from the
/// glyph array `glyphs`.
fn format_four_glyph_array_cmap(glyphs: [u16; 2]) -> Vec<u8> {
    let mut cmap = vec![0, 0, 0, 1, 0, 3, 0, 1, 0, 0, 0, 12];
    let mut subtable = Vec::new();
    for value in [4u16, 36, 0, 4, 0, 0, 0] {
        subtable.extend_from_slice(&value.to_be_bytes());
    }
    for value in [0x42u16, 0xFFFF, 0, 0x41, 0xFFFF, 0, 1, 4, 0, glyphs[0], glyphs[1]] {
        subtable.extend_from_slice(&value.to_be_bytes());
    }
    cmap.extend_from_slice(&subtable);
    cmap
}

#[test]
fn format_four_glyph_arrays_are_indexed_by_code() {
    let data = sfnt_with_cmap(&format_four_glyph_array_cmap([5, 0]));
    assert!(mapping_is_proven(&data, &['A']));
    assert!(!mapping_is_proven(&data, &['B']));
    let data = sfnt_with_cmap(&format_four_glyph_array_cmap([0, 7]));
    assert!(!mapping_is_proven(&data, &['A']));
    assert!(mapping_is_proven(&data, &['B']));
}
