use koharu::frame::{BrowserFrame, DirtyRect, FrameError, FrameSlot, SoftwareFrame};

fn frame(sequence: u64, dirty: DirtyRect) -> SoftwareFrame {
    SoftwareFrame::new(sequence, 2, 2, 8, vec![dirty], vec![0_u8; 16]).unwrap()
}

#[test]
fn invalid_dirty_rect_never_reaches_wgpu() {
    assert_eq!(
        SoftwareFrame::new(
            1,
            2,
            2,
            8,
            vec![DirtyRect {
                x: 1,
                y: 1,
                width: 2,
                height: 1,
            }],
            vec![0_u8; 16],
        )
        .unwrap_err(),
        FrameError::DirtyRectOutOfBounds
    );
}

#[test]
fn rect_slice_preserves_source_stride() {
    let frame = SoftwareFrame::new(
        1,
        3,
        2,
        16,
        vec![DirtyRect {
            x: 1,
            y: 0,
            width: 1,
            height: 2,
        }],
        (0_u8..32).collect::<Vec<_>>(),
    )
    .unwrap();
    assert_eq!(frame.rect_bytes(frame.dirty[0]), &frame.pixels[4..24]);
}

#[test]
fn mailbox_coalesces_frames_into_one_wake_and_full_damage() {
    let mut wakes = 0;
    let mut mailbox: FrameSlot<()> = FrameSlot::new();
    let partial = DirtyRect {
        x: 1,
        y: 1,
        width: 1,
        height: 1,
    };

    if mailbox.submit(BrowserFrame::Software(frame(1, partial))) {
        wakes += 1;
    }
    if mailbox.submit(BrowserFrame::Software(frame(2, partial))) {
        wakes += 1;
    }

    assert_eq!(wakes, 1);
    let delivered = mailbox.take().unwrap();
    let BrowserFrame::Software(delivered) = delivered else {
        panic!("expected a software frame");
    };
    assert_eq!(delivered.sequence, 2);
    assert_eq!(delivered.dirty, [DirtyRect::full(2, 2)]);
}

#[test]
fn mailbox_rearms_after_the_consumer_drains_it() {
    let mut wakes = 0;
    let mut mailbox: FrameSlot<()> = FrameSlot::new();
    let full = DirtyRect::full(2, 2);

    if mailbox.submit(BrowserFrame::Software(frame(1, full))) {
        wakes += 1;
    }
    let BrowserFrame::Software(first) = mailbox.take().unwrap() else {
        panic!("expected a software frame");
    };
    assert_eq!(first.sequence, 1);
    if mailbox.submit(BrowserFrame::Software(frame(2, full))) {
        wakes += 1;
    }

    assert_eq!(wakes, 2);
    let BrowserFrame::Software(second) = mailbox.take().unwrap() else {
        panic!("expected a software frame");
    };
    assert_eq!(second.sequence, 2);
}

#[test]
fn frames_are_checked_before_use() {
    let full = DirtyRect::full(2, 2);
    assert_eq!(
        SoftwareFrame::new(0, 2, 2, 8, vec![full], vec![0_u8; 16]).unwrap_err(),
        FrameError::ZeroSequence
    );
    assert_eq!(
        SoftwareFrame::new(1, 0, 2, 8, vec![full], vec![0_u8; 16]).unwrap_err(),
        FrameError::InvalidSize
    );
    assert_eq!(
        SoftwareFrame::new(1, 2, 2, 4, vec![full], vec![0_u8; 16]).unwrap_err(),
        FrameError::InvalidStride
    );
    assert_eq!(
        SoftwareFrame::new(1, 2, 2, 8, vec![full], vec![0_u8; 15]).unwrap_err(),
        FrameError::PixelLength {
            expected: 16,
            actual: 15
        }
    );
    assert_eq!(
        SoftwareFrame::new(
            1,
            2,
            2,
            8,
            vec![DirtyRect {
                x: u32::MAX,
                y: 0,
                width: 2,
                height: 1
            }],
            vec![0_u8; 16]
        )
        .unwrap_err(),
        FrameError::DirtyRectOverflow
    );
}

#[test]
fn an_empty_slot_has_nothing_to_take() {
    let mut mailbox: FrameSlot<()> = FrameSlot::new();
    assert!(mailbox.take().is_none());
    assert!(mailbox.submit(BrowserFrame::Software(frame(1, DirtyRect::full(2, 2)))));
}

#[test]
fn frames_larger_than_the_byte_limit_are_refused() {
    assert_eq!(
        SoftwareFrame::new(1, 32768, 32768, 262144, Vec::new(), Vec::new()).unwrap_err(),
        FrameError::SizeOverflow
    );
}

#[test]
fn frames_without_dirty_rects_are_fully_dirty() {
    let frame = SoftwareFrame::new(3, 2, 2, 8, Vec::new(), vec![0_u8; 16]).unwrap();
    assert_eq!(frame.dirty, [DirtyRect::full(2, 2)]);
}
