use koharu::geometry::{Layout, LayoutError, PhysicalRect, PhysicalSize};

#[test]
fn stale_viewport_cannot_overwrite_resized_layout() {
    let mut layout = Layout::new(800, 600);
    assert!(layout.resize(900, 700, true));
    assert_eq!(
        layout.apply_viewport_edges(1, 15, 31, 466, 332),
        Err(LayoutError::StaleViewport {
            reported: 1,
            current: 2,
        })
    );
}

#[test]
fn browser_bounds_bind_to_runtime_owned_generation() {
    let mut layout = Layout::new(800, 600);
    assert!(layout.resize(900, 700, true));
    let current = layout.generation();
    assert!(layout.apply_viewport_edges(current, 15, 31, 466, 332).is_ok());
    assert_eq!(layout.generation(), 2);
}

#[test]
fn viewport_is_clipped_to_surface() {
    let mut layout = Layout::new(100, 80);
    let viewport = layout.apply_viewport_edges(1, 90, 70, 140, 120).unwrap();
    assert_eq!(
        viewport,
        PhysicalRect {
            x: 90,
            y: 70,
            width: 10,
            height: 10,
        }
    );
    assert_eq!(layout.viewport(), viewport);
}

#[test]
fn resizing_to_the_same_size_and_scale_changes_nothing() {
    let mut layout = Layout::new(800, 600);
    assert!(!layout.resize(800, 600, true));
    assert_eq!(layout.generation(), 1);
    assert!(layout.resize(800, 600, false));
    assert_eq!(layout.generation(), 2);
    assert_eq!(layout.size(), PhysicalSize { width: 800, height: 600 });
}

#[test]
fn a_resize_clips_the_viewport_to_the_new_size() {
    let mut layout = Layout::new(800, 600);
    layout.apply_viewport_edges(1, 100, 100, 700, 500).unwrap();
    layout.resize(400, 300, true);
    assert_eq!(
        layout.viewport(),
        PhysicalRect {
            x: 100,
            y: 100,
            width: 300,
            height: 200,
        }
    );
}

#[test]
fn clipping_moves_far_rectangles_onto_the_surface() {
    let rect = PhysicalRect {
        x: 500,
        y: 10,
        width: 20,
        height: 20,
    };
    assert_eq!(
        rect.clipped_to(PhysicalSize { width: 100, height: 100 }),
        PhysicalRect {
            x: 100,
            y: 10,
            width: 0,
            height: 20,
        }
    );
    assert!(PhysicalRect::zero().is_empty());
    assert_eq!(PhysicalRect::default(), PhysicalRect::zero());
}

#[test]
fn reversed_edges_give_an_empty_viewport() {
    let mut layout = Layout::new(100, 100);
    let viewport = layout.apply_viewport_edges(1, 50, 50, 40, 40).unwrap();
    assert!(viewport.is_empty());
}
