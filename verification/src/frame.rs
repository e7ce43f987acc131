//! Software paint buffers handed over by the windowless browser, their dirty
//! rectangles, and the single-slot mailbox that carries frames to the presenter.
use vstd::prelude::*;

verus! {

/// Bytes per BGRA pixel.
pub const BYTES_PER_PIXEL: u32 = 4;

/// Largest accepted frame width or height.
pub const MAX_FRAME_DIMENSION: u32 = 32768;

/// Largest accepted pixel buffer, in bytes.
pub const MAX_FRAME_BYTES: u64 = 4294967296;

/// A rectangle of a frame that changed since the previous paint.
#[derive(Clone, Copy, Debug, PartialEq, Eq, Structural)]
pub struct DirtyRect {
    pub x: u32,
    pub y: u32,
    pub width: u32,
    pub height: u32,
}

/// Why a software frame was refused.
#[derive(Clone, Debug, PartialEq, Eq, Structural)]
pub enum FrameError {
    ZeroSequence,
    InvalidSize,
    SizeOverflow,
    InvalidStride,
    PixelLength { expected: u64, actual: u64 },
    DirtyRectOverflow,
    DirtyRectOutOfBounds,
}

impl DirtyRect {
    pub open spec fn spec_full(width: u32, height: u32) -> DirtyRect {
        DirtyRect { x: 0, y: 0, width, height }
    }

    pub open spec fn spec_is_empty(self) -> bool {
        self.width == 0 || self.height == 0
    }

    /// The outcome of checking this rectangle against a `width` by `height` frame.
    pub open spec fn check(self, width: u32, height: u32) -> Result<(), FrameError> {
        if self.x + self.width > u32::MAX || self.y + self.height > u32::MAX {
            Err(FrameError::DirtyRectOverflow)
        } else if self.spec_is_empty() || self.x + self.width > width || self.y + self.height
            > height {
            Err(FrameError::DirtyRectOutOfBounds)
        } else {
            Ok(())
        }
    }

    /// The rectangle covering a whole `width` by `height` frame.
    pub fn full(width: u32, height: u32) -> (r: Self)
        ensures
            r == Self::spec_full(width, height),
    {
        DirtyRect { x: 0, y: 0, width, height }
    }

    /// Whether the rectangle covers no pixel.
    pub fn is_empty(self) -> (b: bool)
        ensures
            b == self.spec_is_empty(),
    {
        self.width == 0 || self.height == 0
    }

    /// Checks the rectangle against a `width` by `height` frame.
    pub fn validate(self, width: u32, height: u32) -> (r: Result<(), FrameError>)
        ensures
            r == self.check(width, height),
    {
        let right = match self.x.checked_add(self.width) {
            Some(v) => v,
            None => return Err(FrameError::DirtyRectOverflow),
        };
        let bottom = match self.y.checked_add(self.height) {
            Some(v) => v,
            None => return Err(FrameError::DirtyRectOverflow),
        };
        if self.is_empty() || right > width || bottom > height {
            return Err(FrameError::DirtyRectOutOfBounds);
        }
        Ok(())
    }
}

/// The first refusal among `rects`, checked in order, or `Ok` when every one fits.
pub open spec fn check_rects(rects: Seq<DirtyRect>, width: u32, height: u32) -> Result<
    (),
    FrameError,
>
    decreases rects.len(),
{
    if rects.len() == 0 {
        Ok(())
    } else {
        match rects[0].check(width, height) {
            Err(e) => Err(e),
            Ok(()) => check_rects(rects.drop_first(), width, height),
        }
    }
}

/// The dirty list a frame keeps: the given one, or the whole frame when none is given.
pub open spec fn effective_dirty(dirty: Seq<DirtyRect>, width: u32, height: u32) -> Seq<
    DirtyRect,
> {
    if dirty.len() == 0 {
        seq![DirtyRect::spec_full(width, height)]
    } else {
        dirty
    }
}

/// The outcome of building a software frame from the given parts: the first
/// refused condition, in the order the constructor checks them.
pub open spec fn frame_check(
    sequence: u64,
    width: u32,
    height: u32,
    stride: u32,
    dirty: Seq<DirtyRect>,
    pixel_len: nat,
) -> Result<(), FrameError> {
    if sequence == 0 {
        Err(FrameError::ZeroSequence)
    } else if width == 0 || height == 0 || width > MAX_FRAME_DIMENSION || height
        > MAX_FRAME_DIMENSION {
        Err(FrameError::InvalidSize)
    } else if stride < width * BYTES_PER_PIXEL || stride % BYTES_PER_PIXEL != 0 {
        Err(FrameError::InvalidStride)
    } else if stride * height > MAX_FRAME_BYTES {
        Err(FrameError::SizeOverflow)
    } else if pixel_len != stride * height {
        Err(
            FrameError::PixelLength {
                expected: (stride * height) as u64,
                actual: pixel_len as u64,
            },
        )
    } else {
        check_rects(effective_dirty(dirty, width, height), width, height)
    }
}

/// Every rectangle of a list that passes the checks covers at least one pixel
/// and lies inside the frame.
proof fn lemma_checked_rects_fit(rects: Seq<DirtyRect>, width: u32, height: u32)
    requires
        check_rects(rects, width, height) is Ok,
    ensures
        forall|i: int| 0 <= i < rects.len() ==> {
            let r = #[trigger] rects[i];
            &&& r.width > 0 && r.height > 0
            &&& r.x + r.width <= width && r.y + r.height <= height
        },
    decreases rects.len(),
{
    if rects.len() > 0 {
        lemma_checked_rects_fit(rects.drop_first(), width, height);
        assert forall|i: int| 0 < i < rects.len() implies #[trigger] rects[i] == rects.drop_first()[i - 1] by {}
    }
}

/// A frame that is accepted is one the presenter can copy from safely: its
/// sequence is not zero, its sides are positive and at most 32768 pixels, each row
/// holds at least four bytes (one BGRA pixel) per column and a whole number of
/// pixels, the buffer holds exactly `stride * height` bytes, at most 4 GiB, and every dirty
/// rectangle it keeps covers pixels inside the frame.
pub proof fn lemma_accepted_frames_fit(
    sequence: u64,
    width: u32,
    height: u32,
    stride: u32,
    dirty: Seq<DirtyRect>,
    pixel_len: nat,
)
    requires
        frame_check(sequence, width, height, stride, dirty, pixel_len) is Ok,
    ensures
        sequence > 0,
        0 < width <= 32768 && 0 < height <= 32768,
        stride >= 4 * width && stride % 4 == 0,
        pixel_len == stride * height && stride * height <= 0x1_0000_0000,
        forall|i: int| 0 <= i < effective_dirty(dirty, width, height).len() ==> {
            let r = #[trigger] effective_dirty(dirty, width, height)[i];
            &&& r.width > 0 && r.height > 0
            &&& r.x + r.width <= width && r.y + r.height <= height
        },
{
    lemma_checked_rects_fit(effective_dirty(dirty, width, height), width, height);
}

/// A complete software paint buffer in premultiplied BGRA byte order.
#[derive(Clone, Debug)]
pub struct SoftwareFrame {
    pub sequence: u64,
    pub width: u32,
    pub height: u32,
    pub stride: u32,
    pub dirty: Vec<DirtyRect>,
    pub pixels: Vec<u8>,
}

impl SoftwareFrame {
    /// The frame is one that `new` accepts.
    pub open spec fn wf(&self) -> bool {
        &&& self.dirty@.len() > 0
        &&& frame_check(
            self.sequence,
            self.width,
            self.height,
            self.stride,
            self.dirty@,
            self.pixels@.len(),
        ) == Ok::<(), FrameError>(())
    }

    /// Byte offset of a rectangle's first pixel.
    pub open spec fn rect_start(&self, rect: DirtyRect) -> int {
        rect.y * self.stride + rect.x * BYTES_PER_PIXEL
    }

    /// Bytes spanned by a rectangle, from its first pixel to its last.
    pub open spec fn rect_len(&self, rect: DirtyRect) -> int {
        if rect.height == 1 {
            rect.width * BYTES_PER_PIXEL
        } else {
            (rect.height - 1) * self.stride + rect.width * BYTES_PER_PIXEL
        }
    }

    /// Builds a frame, checking its size, stride, pixel buffer and dirty rectangles.
    pub fn new(
        sequence: u64,
        width: u32,
        height: u32,
        stride: u32,
        dirty: Vec<DirtyRect>,
        pixels: Vec<u8>,
    ) -> (r: Result<Self, FrameError>)
        ensures
            frame_check(sequence, width, height, stride, dirty@, pixels@.len()) matches Err(e)
                ==> r == Err::<Self, FrameError>(e),
            frame_check(sequence, width, height, stride, dirty@, pixels@.len()) is Ok ==> (
            r matches Ok(f) && f.sequence == sequence && f.width == width && f.height == height
                && f.stride == stride && f.dirty@ == effective_dirty(dirty@, width, height)
                && f.pixels@ == pixels@),
            r matches Ok(f) ==> f.wf(),
    {
        if sequence == 0 {
            return Err(FrameError::ZeroSequence);
        }
        if width == 0 || height == 0 || width > MAX_FRAME_DIMENSION || height
            > MAX_FRAME_DIMENSION {
            return Err(FrameError::InvalidSize);
        }
        let minimum_stride = match width.checked_mul(BYTES_PER_PIXEL) {
            Some(v) => v,
            None => return Err(FrameError::SizeOverflow),
        };
        if stride < minimum_stride || stride % BYTES_PER_PIXEL != 0 {
            return Err(FrameError::InvalidStride);
        }
        let byte_len = match (stride as u64).checked_mul(height as u64) {
            Some(v) => v,
            None => return Err(FrameError::SizeOverflow),
        };
        if byte_len > MAX_FRAME_BYTES {
            return Err(FrameError::SizeOverflow);
        }
        if pixels.len() as u64 != byte_len {
            return Err(FrameError::PixelLength { expected: byte_len, actual: pixels.len() as u64 });
        }
        assert(byte_len == stride * height);
        let ghost given = dirty@;
        let rects = if dirty.len() == 0 {
            let mut full: Vec<DirtyRect> = Vec::new();
            full.push(DirtyRect::full(width, height));
            full
        } else {
            dirty
        };
        assert(rects@ == effective_dirty(given, width, height));
        assert(rects@.subrange(0, rects@.len() as int) == rects@);
        assert(frame_check(sequence, width, height, stride, given, pixels@.len()) == check_rects(
            rects@, width, height));
        let mut i: usize = 0;
        while i < rects.len()
            invariant
                i <= rects.len(),
                frame_check(sequence, width, height, stride, given, pixels@.len()) == check_rects(
                    rects@,
                    width,
                    height,
                ),
                rects@ == effective_dirty(given, width, height),
                given == dirty@,
                check_rects(rects@, width, height) == check_rects(
                    rects@.subrange(i as int, rects@.len() as int),
                    width,
                    height,
                ),
            decreases rects.len() - i,
        {
            let ghost rest = rects@.subrange(i as int, rects@.len() as int);
            assert(rest[0] == rects@[i as int]);
            assert(rest.drop_first() == rects@.subrange(i + 1, rects@.len() as int));
            match rects[i].validate(width, height) {
                Err(e) => {
                    assert(check_rects(rest, width, height) == Err::<(), FrameError>(e));
                    return Err(e);
                },
                Ok(()) => {},
            }
            i = i + 1;
        }
        assert(rects@.subrange(rects@.len() as int, rects@.len() as int).len() == 0);
        Ok(SoftwareFrame { sequence, width, height, stride, dirty: rects, pixels })
    }

    /// The bytes from a rectangle's first pixel through its last, keeping the source stride.
    pub fn rect_bytes(&self, rect: DirtyRect) -> (out: &[u8])
        requires
            self.wf(),
            rect.check(self.width, self.height) == Ok::<(), FrameError>(()),
        ensures
            0 <= self.rect_start(rect),
            self.rect_start(rect) + self.rect_len(rect) <= self.pixels@.len(),
            out@ == self.pixels@.subrange(
                self.rect_start(rect),
                self.rect_start(rect) + self.rect_len(rect),
            ),
    {
        proof {
            lemma_rect_fits(
                rect.x as int,
                rect.y as int,
                rect.width as int,
                rect.height as int,
                self.width as int,
                self.height as int,
                self.stride as int,
            );
        }
        assert(self.stride >= self.width * 4);
        assert(self.pixels@.len() == self.stride * self.height);
        let start64 = (rect.y as u64) * (self.stride as u64) + (rect.x as u64) * 4;
        let len64 = if rect.height == 1 {
            (rect.width as u64) * 4
        } else {
            ((rect.height - 1) as u64) * (self.stride as u64) + (rect.width as u64) * 4
        };
        assert(start64 == self.rect_start(rect));
        assert(len64 == self.rect_len(rect));
        let n = self.pixels.len();
        assert(start64 + len64 <= n);
        let start = start64 as usize;
        let end = (start64 + len64) as usize;
        let all = self.pixels.as_slice();
        assert(all@ == self.pixels@);
        assert(start <= end && end <= all@.len());
        &all[start..end]
    }

    /// Marks the whole frame as changed.
    pub fn force_full_damage(&mut self)
        ensures
            final(self).dirty@ == seq![DirtyRect::spec_full(old(self).width, old(self).height)],
            final(self).sequence == old(self).sequence,
            final(self).width == old(self).width,
            final(self).height == old(self).height,
            final(self).stride == old(self).stride,
            final(self).pixels@ == old(self).pixels@,
    {
        self.dirty.clear();
        let full = DirtyRect::full(self.width, self.height);
        self.dirty.push(full);
    }
}


/// A frame copied from the browser's accelerated paint; `T` is the GPU texture
/// that holds its pixels.
#[derive(Debug)]
pub struct AcceleratedFrame<T> {
    pub sequence: u64,
    pub width: u32,
    pub height: u32,
    pub texture: T,
}

/// A frame from either paint path of the browser.
#[derive(Debug)]
pub enum BrowserFrame<T> {
    Software(SoftwareFrame),
    Accelerated(AcceleratedFrame<T>),
}

impl<T> BrowserFrame<T> {
    pub open spec fn spec_width(&self) -> u32 {
        match self {
            BrowserFrame::Software(f) => f.width,
            BrowserFrame::Accelerated(a) => a.width,
        }
    }

    pub open spec fn spec_height(&self) -> u32 {
        match self {
            BrowserFrame::Software(f) => f.height,
            BrowserFrame::Accelerated(a) => a.height,
        }
    }

    pub open spec fn spec_sequence(&self) -> u64 {
        match self {
            BrowserFrame::Software(f) => f.sequence,
            BrowserFrame::Accelerated(a) => a.sequence,
        }
    }

    pub fn width(&self) -> (w: u32)
        ensures
            w == self.spec_width(),
    {
        match self {
            BrowserFrame::Software(f) => f.width,
            BrowserFrame::Accelerated(a) => a.width,
        }
    }

    pub fn height(&self) -> (h: u32)
        ensures
            h == self.spec_height(),
    {
        match self {
            BrowserFrame::Software(f) => f.height,
            BrowserFrame::Accelerated(a) => a.height,
        }
    }

    /// Marks every pixel of a software frame as changed.
    pub fn force_full_damage(&mut self)
        ensures
            final(self).spec_width() == old(self).spec_width(),
            final(self).spec_height() == old(self).spec_height(),
            final(self).spec_sequence() == old(self).spec_sequence(),
            match (*old(self), *final(self)) {
                (BrowserFrame::Software(a), BrowserFrame::Software(b)) => b.dirty@ == seq![
                    DirtyRect::spec_full(a.width, a.height),
                ] && b.sequence == a.sequence && b.stride == a.stride && b.pixels@ == a.pixels@,
                (BrowserFrame::Accelerated(a), BrowserFrame::Accelerated(b)) => a == b,
                _ => false,
            },
    {
        match self {
            BrowserFrame::Software(frame) => frame.force_full_damage(),
            BrowserFrame::Accelerated(_) => {},
        }
    }
}

/// The single slot between the browser's paint callbacks and the presenter.
///
/// A frame that replaces one nobody took yet is marked fully dirty, and the
/// presenter is woken once per drained slot.
pub struct FrameSlot<T> {
    frame: Option<BrowserFrame<T>>,
    wake_pending: bool,
}

/// What the wake protocol of a frame slot depends on: whether a frame waits in
/// it, and whether the presenter was already asked to wake.
#[derive(Clone, Copy, PartialEq, Eq, Structural)]
pub struct SlotState {
    pub holds_frame: bool,
    pub wake_requested: bool,
}

/// The slot state after a submission, and whether that submission wakes the presenter.
pub open spec fn slot_after_submit(s: SlotState) -> (SlotState, bool) {
    (SlotState { holds_frame: true, wake_requested: true }, !s.wake_requested)
}

/// The slot state after the presenter takes the frame.
pub open spec fn slot_after_take(s: SlotState) -> SlotState {
    SlotState { holds_frame: false, wake_requested: false }
}

/// Submissions that follow each other without a take wake the presenter at
/// most once; the second one never does.
pub proof fn lemma_submissions_coalesce(s: SlotState)
    ensures
        !slot_after_submit(slot_after_submit(s).0).1,
        slot_after_submit(slot_after_submit(s).0).0 == slot_after_submit(s).0,
{
}

/// Once the presenter takes the frame, the next submission wakes it again.
pub proof fn lemma_take_rearms_wake(s: SlotState)
    ensures
        slot_after_submit(slot_after_take(s)).1,
        !slot_after_take(s).holds_frame,
{
}

impl<T> View for FrameSlot<T> {
    type V = SlotState;

    closed spec fn view(&self) -> SlotState {
        SlotState { holds_frame: self.frame is Some, wake_requested: self.wake_pending }
    }
}

impl<T> FrameSlot<T> {
    pub closed spec fn pending(&self) -> Option<BrowserFrame<T>> {
        self.frame
    }

    pub closed spec fn wake_requested(&self) -> bool {
        self.wake_pending
    }

    /// An empty slot that has not asked for a wake.
    pub fn new() -> (s: Self)
        ensures
            s.pending() is None,
            !s.wake_requested(),
            s@ == (SlotState { holds_frame: false, wake_requested: false }),
    {
        FrameSlot { frame: None, wake_pending: false }
    }

    /// Stores `frame`, replacing a frame not yet taken. Returns whether the
    /// presenter must be woken: only the first submission since the last take wakes it.
    pub fn submit(&mut self, frame: BrowserFrame<T>) -> (wake: bool)
        ensures
            (final(self)@, wake) == slot_after_submit(old(self)@),
            wake == !old(self).wake_requested(),
            final(self).wake_requested(),
            final(self).pending() matches Some(stored) && (if old(self).pending() is Some {
                same_frame_fully_damaged(frame, stored)
            } else {
                stored == frame
            }),
    {
        let mut frame = frame;
        let replacing = self.frame.is_some();
        if replacing {
            frame.force_full_damage();
        }
        self.frame = Some(frame);
        if self.wake_pending {
            false
        } else {
            self.wake_pending = true;
            true
        }
    }

    /// Takes the stored frame and re-arms the wake.
    pub fn take(&mut self) -> (frame: Option<BrowserFrame<T>>)
        ensures
            frame == old(self).pending(),
            final(self)@ == slot_after_take(old(self)@),
            final(self).pending() is None,
            !final(self).wake_requested(),
    {
        let frame = self.frame.take();
        self.wake_pending = false;
        frame
    }
}

/// `after` is `before` with every pixel marked as changed.
pub open spec fn same_frame_fully_damaged<T>(before: BrowserFrame<T>, after: BrowserFrame<T>) -> bool {
    match (before, after) {
        (BrowserFrame::Software(a), BrowserFrame::Software(b)) => b.dirty@ == seq![
            DirtyRect::spec_full(a.width, a.height),
        ] && b.sequence == a.sequence && b.width == a.width && b.height == a.height && b.stride
            == a.stride && b.pixels@ == a.pixels@,
        (BrowserFrame::Accelerated(a), BrowserFrame::Accelerated(b)) => a == b,
        _ => false,
    }
}

/// A rectangle inside a frame spans bytes inside the frame's buffer.
proof fn lemma_rect_fits(x: int, y: int, w: int, h: int, width: int, height: int, stride: int)
    requires
        0 <= x,
        0 <= y,
        1 <= w,
        1 <= h,
        x + w <= width,
        y + h <= height,
        width * 4 <= stride,
    ensures
        0 <= y * stride + x * 4,
        h == 1 ==> y * stride + x * 4 + w * 4 <= stride * height,
        h != 1 ==> y * stride + x * 4 + (h - 1) * stride + w * 4 <= stride * height,
{
    assert(0 <= y * stride) by (nonlinear_arith)
        requires
            0 <= y,
            0 <= stride,
    ;
    assert((y + h - 1) * stride <= (height - 1) * stride) by (nonlinear_arith)
        requires
            y + h - 1 <= height - 1,
            0 <= stride,
    ;
    assert((height - 1) * stride + stride == stride * height) by (nonlinear_arith);
    assert(h == 1 ==> y * stride == (y + h - 1) * stride);
    assert(y * stride + (h - 1) * stride == (y + h - 1) * stride) by (nonlinear_arith);
}

} // verus!
