use koharu::accelerated::{AcceleratedFrameError, FrameMapping};

#[test]
fn content_mapping_rejects_regions_outside_the_shared_texture() {
    assert!(matches!(
        FrameMapping::new((800, 600), (10, 10, 800, 600), None),
        Err(AcceleratedFrameError::InvalidMapping)
    ));
}

#[test]
fn content_mapping_crops_padding_and_restores_source_size() {
    let mapping = FrameMapping::new((1024, 1024), (4, 8, 1000, 700), Some((800, 560))).unwrap();
    assert_eq!((mapping.output_width, mapping.output_height), (800, 560));
    assert_eq!((mapping.content_x, mapping.content_y), (4, 8));
    assert_eq!((mapping.content_width, mapping.content_height), (1000, 700));
}

#[test]
fn content_size_is_used_without_a_source_size() {
    let mapping = FrameMapping::new((1024, 1024), (0, 0, 1000, 700), None).unwrap();
    assert_eq!((mapping.output_width, mapping.output_height), (1000, 700));
    let mapping = FrameMapping::new((1024, 1024), (0, 0, 1000, 700), Some((0, 5))).unwrap();
    assert_eq!((mapping.output_width, mapping.output_height), (1000, 700));
}

#[test]
fn empty_or_negative_regions_are_refused() {
    assert!(matches!(
        FrameMapping::new((0, 600), (0, 0, 1, 1), None),
        Err(AcceleratedFrameError::InvalidMapping)
    ));
    assert!(matches!(
        FrameMapping::new((800, 600), (-1, 0, 10, 10), None),
        Err(AcceleratedFrameError::InvalidMapping)
    ));
    assert!(matches!(
        FrameMapping::new((800, 600), (0, 0, 0, 10), None),
        Err(AcceleratedFrameError::InvalidMapping)
    ));
}

#[test]
fn imported_textures_must_have_the_coded_size() {
    let mapping = FrameMapping::new((1024, 768), (0, 0, 1000, 700), None).unwrap();
    assert_eq!(mapping.check_texture(1024, 768), Ok(()));
    assert_eq!(
        mapping.check_texture(1000, 700),
        Err(AcceleratedFrameError::UnexpectedTextureSize {
            expected: (1024, 768),
            actual: (1000, 700)
        })
    );
}
