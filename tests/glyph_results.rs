use scene_window::glyphs::{glyph_indices, glyphs_with_advances};

#[test]
fn empty_text_gives_two_empty_arrays() {
    let indices = glyph_indices(&vec![]);
    assert!(indices.is_empty());
    let (glyphs, advances) = glyphs_with_advances::<f32>(indices, vec![]);
    assert!(glyphs.is_empty());
    assert!(advances.is_empty());
}

#[test]
fn unmapped_characters_are_dropped() {
    assert_eq!(glyph_indices(&vec![Some(36), None, Some(72), None]), vec![36, 72]);
    assert_eq!(glyph_indices(&vec![None, None]), Vec::<u32>::new());
}

#[test]
fn missing_dimensions_drop_the_glyph() {
    let (glyphs, advances) =
        glyphs_with_advances(vec![10, 20, 30], vec![Some(7.5f32), None, Some(9.0f32)]);
    assert_eq!(glyphs, vec![10, 30]);
    assert_eq!(advances, vec![7.5, 9.0]);
}

#[test]
fn shaped_arrays_have_equal_length() {
    let lookups = vec![Some(1), Some(2), None, Some(3)];
    let indices = glyph_indices(&lookups);
    assert_eq!(indices, vec![1, 2, 3]);
    let (glyphs, advances) = glyphs_with_advances(indices, vec![Some(4.0f32), Some(5.0f32)]);
    assert_eq!(glyphs.len(), advances.len());
    assert!(glyphs.len() <= lookups.len());
    assert_eq!(glyphs, vec![1, 2]);
    assert_eq!(advances, vec![4.0, 5.0]);
}
