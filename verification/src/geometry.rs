//! Integer window geometry: physical rectangles, the window generation that
//! browser viewport reports are bound to, and the clipped viewport.
use vstd::prelude::*;

verus! {

/// A size in physical pixels.
#[derive(Clone, Copy, Debug, PartialEq, Eq, Structural)]
pub struct PhysicalSize {
    pub width: u32,
    pub height: u32,
}

/// A rectangle in physical pixels.
#[derive(Clone, Copy, Debug, PartialEq, Eq, Structural)]
pub struct PhysicalRect {
    pub x: u32,
    pub y: u32,
    pub width: u32,
    pub height: u32,
}

/// Why a window or viewport update was refused.
#[derive(Clone, Debug, PartialEq, Eq)]
pub enum LayoutError {
    Runtime(String),
    InvalidWindowScale,
    InvalidViewport,
    StaleViewport { reported: u64, current: u64 },
    ScaleMismatch,
    CoordinateOverflow,
}

pub open spec fn min_u32(a: u32, b: u32) -> u32 {
    if a <= b {
        a
    } else {
        b
    }
}

/// `a - b`, or zero when `b` is larger.
pub open spec fn saturating_sub(a: u32, b: u32) -> u32 {
    if b <= a {
        (a - b) as u32
    } else {
        0
    }
}

/// `r` lies inside a `size` surface.
pub open spec fn rect_within(r: PhysicalRect, size: PhysicalSize) -> bool {
    r.x + r.width <= size.width && r.y + r.height <= size.height
}

impl PhysicalRect {
    /// The part of the rectangle inside a `size` surface, with its origin moved
    /// onto the surface when it lies beyond it.
    pub open spec fn spec_clipped_to(self, size: PhysicalSize) -> PhysicalRect {
        let x = min_u32(self.x, size.width);
        let y = min_u32(self.y, size.height);
        PhysicalRect {
            x,
            y,
            width: min_u32(self.width, saturating_sub(size.width, x)),
            height: min_u32(self.height, saturating_sub(size.height, y)),
        }
    }

    /// The empty rectangle at the origin.
    pub fn zero() -> (r: Self)
        ensures
            r == (PhysicalRect { x: 0, y: 0, width: 0, height: 0 }),
    {
        PhysicalRect { x: 0, y: 0, width: 0, height: 0 }
    }

    /// The rectangle's size.
    pub fn size(self) -> (s: PhysicalSize)
        ensures
            s == (PhysicalSize { width: self.width, height: self.height }),
    {
        PhysicalSize { width: self.width, height: self.height }
    }

    /// Whether the rectangle covers no pixel.
    pub fn is_empty(self) -> (b: bool)
        ensures
            b == (self.width == 0 || self.height == 0),
    {
        self.width == 0 || self.height == 0
    }

    /// The part of the rectangle inside a `size` surface.
    pub fn clipped_to(self, size: PhysicalSize) -> (r: Self)
        ensures
            r == self.spec_clipped_to(size),
            rect_within(r, size),
    {
        let x = if self.x <= size.width {
            self.x
        } else {
            size.width
        };
        let y = if self.y <= size.height {
            self.y
        } else {
            size.height
        };
        let room_x = size.width - x;
        let room_y = size.height - y;
        PhysicalRect {
            x,
            y,
            width: if self.width <= room_x {
                self.width
            } else {
                room_x
            },
            height: if self.height <= room_y {
                self.height
            } else {
                room_y
            },
        }
    }
}

impl Default for PhysicalRect {
    fn default() -> (r: Self)
        ensures
            r == (PhysicalRect { x: 0, y: 0, width: 0, height: 0 }),
    {
        PhysicalRect::zero()
    }
}

/// The generation that follows `g`: one more, wrapping, and never zero.
pub open spec fn next_generation(g: u64) -> u64 {
    if g == u64::MAX {
        1
    } else {
        (g + 1) as u64
    }
}

/// The viewport spanned by rounded physical edges, clipped to the surface.
pub open spec fn viewport_from_edges(
    left: u32,
    top: u32,
    right: u32,
    bottom: u32,
    size: PhysicalSize,
) -> PhysicalRect {
    PhysicalRect {
        x: left,
        y: top,
        width: saturating_sub(right, left),
        height: saturating_sub(bottom, top),
    }.spec_clipped_to(size)
}

/// The window's integer layout: its size, the generation that names the current
/// size, and the browser-reported viewport inside it.
pub struct Layout {
    generation: u64,
    size: PhysicalSize,
    viewport: PhysicalRect,
}

impl Layout {
    pub closed spec fn spec_generation(&self) -> u64 {
        self.generation
    }

    pub closed spec fn spec_size(&self) -> PhysicalSize {
        self.size
    }

    pub closed spec fn spec_viewport(&self) -> PhysicalRect {
        self.viewport
    }

    /// The viewport always lies inside the window, and generations are never zero.
    #[verifier::type_invariant]
    closed spec fn inv(self) -> bool {
        self.generation != 0 && rect_within(self.viewport, self.size)
    }

    /// A layout of generation one with an empty viewport.
    pub fn new(width: u32, height: u32) -> (l: Self)
        ensures
            l.spec_generation() == 1,
            l.spec_size() == (PhysicalSize { width, height }),
            l.spec_viewport() == (PhysicalRect { x: 0, y: 0, width: 0, height: 0 }),
    {
        Layout {
            generation: 1,
            size: PhysicalSize { width, height },
            viewport: PhysicalRect::zero(),
        }
    }

    /// The current generation.
    pub fn generation(&self) -> (g: u64)
        ensures
            g == self.spec_generation(),
            g != 0,
    {
        proof {
            use_type_invariant(&self);
        }
        self.generation
    }

    /// The window size.
    pub fn size(&self) -> (s: PhysicalSize)
        ensures
            s == self.spec_size(),
    {
        self.size
    }

    /// The current viewport.
    pub fn viewport(&self) -> (v: PhysicalRect)
        ensures
            v == self.spec_viewport(),
            rect_within(v, self.spec_size()),
    {
        proof {
            use_type_invariant(&self);
        }
        self.viewport
    }

    /// Applies a window resize. Nothing changes when the size is the same and the
    /// scale factor did not change (`same_scale`); otherwise the generation advances
    /// and the viewport is clipped to the new size. Returns whether anything changed.
    pub fn resize(&mut self, width: u32, height: u32, same_scale: bool) -> (changed: bool)
        ensures
            changed == !(old(self).spec_size() == (PhysicalSize { width, height }) && same_scale),
            !changed ==> final(self).spec_generation() == old(self).spec_generation()
                && final(self).spec_size() == old(self).spec_size()
                && final(self).spec_viewport() == old(self).spec_viewport(),
            changed ==> final(self).spec_generation() == next_generation(
                old(self).spec_generation(),
            ) && final(self).spec_size() == (PhysicalSize { width, height })
                && final(self).spec_viewport() == old(self).spec_viewport().spec_clipped_to(
                PhysicalSize { width, height },
            ),
    {
        if self.size.width == width && self.size.height == height && same_scale {
            return false;
        }
        let next = if self.generation == u64::MAX {
            1
        } else {
            self.generation + 1
        };
        let size = PhysicalSize { width, height };
        let viewport = self.viewport.clipped_to(size);
        *self = Layout { generation: next, size, viewport };
        true
    }

    /// Applies browser-reported viewport edges, already rounded to physical pixels,
    /// that were measured against window generation `reported`.
    pub fn apply_viewport_edges(
        &mut self,
        reported: u64,
        left: u32,
        top: u32,
        right: u32,
        bottom: u32,
    ) -> (r: Result<PhysicalRect, LayoutError>)
        ensures
            reported != old(self).spec_generation() ==> r == Err::<PhysicalRect, LayoutError>(
                LayoutError::StaleViewport { reported, current: old(self).spec_generation() },
            ) && final(self).spec_viewport() == old(self).spec_viewport(),
            reported == old(self).spec_generation() ==> r == Ok::<PhysicalRect, LayoutError>(
                viewport_from_edges(left, top, right, bottom, old(self).spec_size()),
            ) && final(self).spec_viewport() == viewport_from_edges(
                left,
                top,
                right,
                bottom,
                old(self).spec_size(),
            ),
            final(self).spec_generation() == old(self).spec_generation(),
            final(self).spec_size() == old(self).spec_size(),
    {
        proof {
            use_type_invariant(&*self);
        }
        if reported != self.generation {
            return Err(LayoutError::StaleViewport { reported, current: self.generation });
        }
        let width = if left <= right {
            right - left
        } else {
            0
        };
        let height = if top <= bottom {
            bottom - top
        } else {
            0
        };
        let viewport = (PhysicalRect { x: left, y: top, width, height }).clipped_to(self.size);
        *self = Layout { generation: self.generation, size: self.size, viewport };
        Ok(viewport)
    }
}

/// A report measured against an earlier window generation can never replace
/// the viewport after a real resize.
pub proof fn lemma_resize_invalidates_old_reports(g: u64)
    ensures
        next_generation(g) != g,
        next_generation(g) != 0,
{
}

/// Clipping is idempotent and keeps a rectangle inside the surface.
pub proof fn lemma_clip_within(r: PhysicalRect, size: PhysicalSize)
    ensures
        rect_within(r.spec_clipped_to(size), size),
        r.spec_clipped_to(size).spec_clipped_to(size) == r.spec_clipped_to(size),
        rect_within(r, size) ==> r.spec_clipped_to(size) == r,
{
}

} // verus!
