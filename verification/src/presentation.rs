//! The sole desktop presenter's decisions: which browser frames it installs,
//! when it redraws, what it does with each answer of the swapchain, and what it
//! reports after presenting. The GPU work itself stays with the caller.
use vstd::prelude::*;
use crate::damage::{marked, Damage, DamageParts};
use crate::geometry::{rect_within, PhysicalRect, PhysicalSize};

verus! {

/// How the canvas view follows a newly shown page.
#[derive(Clone, Copy, Debug, PartialEq, Eq, Structural)]
pub enum ViewDisposition {
    Preserve,
    Fit,
}

/// What one present did, and whether another is due.
#[derive(Clone, Copy, Debug, PartialEq, Eq, Structural)]
pub struct PresentOutcome {
    pub presented: bool,
    pub needs_redraw: bool,
}

impl Default for PresentOutcome {
    fn default() -> (o: Self)
        ensures
            o == (PresentOutcome { presented: false, needs_redraw: false }),
    {
        PresentOutcome { presented: false, needs_redraw: false }
    }
}

/// Why the presenter could not be created or could not present.
#[derive(Clone, Debug, PartialEq, Eq)]
pub enum PresenterError {
    Surface(String),
    NoAdapter(String),
    NoSurfaceFormat,
    NoAlphaMode,
    NoPresentMode,
    Canvas(String),
    SurfaceValidation,
}

impl PresenterError {
    /// The message shown for the error.
    pub fn message(&self) -> (m: String)
        ensures
            self matches PresenterError::Surface(d) ==> m@ == "failed to create WGPU surface: "@ + d@,
            self matches PresenterError::NoAdapter(d) ==> m@ == "no WGPU adapter supports the surface: "@
                + d@,
            self is NoSurfaceFormat ==> m@ == "surface exposes no texture format"@,
            self is NoAlphaMode ==> m@ == "surface exposes no alpha mode"@,
            self is NoPresentMode ==> m@ == "surface exposes no present mode"@,
            self matches PresenterError::Canvas(d) ==> m@ == "canvas failed: "@ + d@,
            self is SurfaceValidation ==> m@ == "surface returned a validation error"@,
    {
        match self {
            PresenterError::Surface(d) => {
                let mut m = "failed to create WGPU surface: ".to_owned();
                m.append(d.as_str());
                m
            },
            PresenterError::NoAdapter(d) => {
                let mut m = "no WGPU adapter supports the surface: ".to_owned();
                m.append(d.as_str());
                m
            },
            PresenterError::NoSurfaceFormat => "surface exposes no texture format".to_owned(),
            PresenterError::NoAlphaMode => "surface exposes no alpha mode".to_owned(),
            PresenterError::NoPresentMode => "surface exposes no present mode".to_owned(),
            PresenterError::Canvas(d) => {
                let mut m = "canvas failed: ".to_owned();
                m.append(d.as_str());
                m
            },
            PresenterError::SurfaceValidation => "surface returned a validation error".to_owned(),
        }
    }
}

/// What the swapchain answered when asked for the next texture.
#[derive(Clone, Copy, Debug, PartialEq, Eq, Structural)]
pub enum SurfaceTexture {
    Success,
    Suboptimal,
    Timeout,
    Occluded,
    Lost,
    Outdated,
    Validation,
}

/// What the presenter does with the swapchain's answer.
#[derive(Clone, Copy, Debug, PartialEq, Eq, Structural)]
pub enum AcquireStep {
    /// Nothing is drawn this time; the outcome is reported as is.
    Skip(PresentOutcome),
    /// The surface is configured again and nothing is drawn this time.
    Reconfigure(PresentOutcome),
    /// The picture is composed into the texture and presented.
    Render { suboptimal: bool },
}

/// What the presenter's decisions depend on.
pub struct PresenterView {
    pub surface_size: PhysicalSize,
    pub viewport: PhysicalRect,
    pub damage: DamageParts,
}

/// The surface has no pixel to draw.
pub open spec fn surface_empty(size: PhysicalSize) -> bool {
    size.width == 0 || size.height == 0
}

/// Some damage waits to be presented.
pub open spec fn damage_pending(d: DamageParts) -> bool {
    d.surface || d.canvas || d.ui
}

/// The presenter's surface size, viewport and damage.
pub struct PresenterState {
    surface_size: PhysicalSize,
    viewport: PhysicalRect,
    damage: Damage,
}

impl View for PresenterState {
    type V = PresenterView;

    closed spec fn view(&self) -> PresenterView {
        PresenterView { surface_size: self.surface_size, viewport: self.viewport, damage: self.damage@ }
    }
}

impl PresenterState {
    /// The viewport always lies inside the surface.
    #[verifier::type_invariant]
    closed spec fn inv(self) -> bool {
        rect_within(self.viewport, self.surface_size)
    }

    /// A presenter for a surface of `surface_size`: an empty viewport, and
    /// everything damaged so the first present draws it all.
    pub fn new(surface_size: PhysicalSize) -> (p: Self)
        ensures
            p@.surface_size == surface_size,
            p@.viewport == (PhysicalRect { x: 0, y: 0, width: 0, height: 0 }),
            p@.damage == (DamageParts { surface: true, canvas: true, ui: true }),
    {
        PresenterState { surface_size, viewport: PhysicalRect::zero(), damage: Damage::initial() }
    }

    /// The surface size.
    pub fn surface_size(&self) -> (s: PhysicalSize)
        ensures
            s == self@.surface_size,
    {
        self.surface_size
    }

    /// The viewport the canvas is drawn into.
    pub fn viewport(&self) -> (r: PhysicalRect)
        ensures
            r == self@.viewport,
            rect_within(r, self@.surface_size),
    {
        proof {
            use_type_invariant(self);
        }
        self.viewport
    }

    /// Moves the canvas viewport: it is clipped to the surface, and when it
    /// changes the canvas is damaged and `true` tells the caller to resize the
    /// canvas view.
    pub fn set_viewport(&mut self, viewport: PhysicalRect) -> (changed: bool)
        ensures
            final(self)@.surface_size == old(self)@.surface_size,
            final(self)@.viewport == viewport.spec_clipped_to(old(self)@.surface_size),
            changed == (viewport.spec_clipped_to(old(self)@.surface_size) != old(self)@.viewport),
            changed ==> final(self)@.damage == marked(old(self)@.damage, false, true, false),
            !changed ==> final(self)@.damage == old(self)@.damage,
    {
        proof {
            use_type_invariant(&*self);
        }
        let clipped = viewport.clipped_to(self.surface_size);
        if clipped != self.viewport {
            self.viewport = clipped;
            let mut damage = self.damage;
            damage.canvas();
            self.damage = damage;
            true
        } else {
            false
        }
    }

    /// Records that the canvas picture changed.
    pub fn canvas_changed(&mut self)
        ensures
            final(self)@.surface_size == old(self)@.surface_size,
            final(self)@.viewport == old(self)@.viewport,
            final(self)@.damage == marked(old(self)@.damage, false, true, false),
    {
        proof {
            use_type_invariant(&*self);
        }
        let mut damage = self.damage;
        damage.canvas();
        self.damage = damage;
    }

    /// Follows a window resize: the viewport is clipped to the new size and the
    /// surface is damaged. `true` tells the caller the size changed, so it resizes
    /// the canvas view and, for a non-empty surface, configures it again.
    pub fn resize(&mut self, size: PhysicalSize) -> (changed: bool)
        ensures
            changed == (size != old(self)@.surface_size),
            !changed ==> final(self)@ == old(self)@,
            changed ==> final(self)@.surface_size == size && final(self)@.viewport
                == old(self)@.viewport.spec_clipped_to(size) && final(self)@.damage == marked(
                old(self)@.damage,
                true,
                false,
                false,
            ),
    {
        proof {
            use_type_invariant(&*self);
        }
        if self.surface_size == size {
            return false;
        }
        let clipped = self.viewport.clipped_to(size);
        let mut damage = self.damage;
        damage.surface();
        *self = PresenterState { surface_size: size, viewport: clipped, damage };
        true
    }

    /// Records that the browser offered a new UI frame.
    pub fn offer_ui_frame(&mut self)
        ensures
            final(self)@.surface_size == old(self)@.surface_size,
            final(self)@.viewport == old(self)@.viewport,
            final(self)@.damage == marked(old(self)@.damage, false, false, true),
    {
        proof {
            use_type_invariant(&*self);
        }
        let mut damage = self.damage;
        damage.ui();
        self.damage = damage;
    }

    /// Whether an offered UI frame is installed: only one of the surface's size;
    /// a frame painted before a resize is dropped.
    pub fn accepts_ui_frame(&self, width: u32, height: u32) -> (b: bool)
        ensures
            b == (width == self@.surface_size.width && height == self@.surface_size.height),
    {
        width == self.surface_size.width && height == self.surface_size.height
    }

    /// Whether a present is due: damage waits, or the canvas itself asks for one.
    pub fn needs_redraw(&self, canvas_needs_redraw: bool) -> (b: bool)
        ensures
            b == (damage_pending(self@.damage) || canvas_needs_redraw),
    {
        self.damage.pending() || canvas_needs_redraw
    }

    /// Decides whether to draw at all: nothing is drawn on an empty surface or
    /// when no present is due, and the outcome then says whether one is due.
    pub fn skip_present(&self, canvas_needs_redraw: bool) -> (skip: Option<PresentOutcome>)
        ensures
            (surface_empty(self@.surface_size) || !(damage_pending(self@.damage) || canvas_needs_redraw))
                <==> skip is Some,
            skip matches Some(o) ==> o == (PresentOutcome {
                presented: false,
                needs_redraw: damage_pending(self@.damage) || canvas_needs_redraw,
            }),
    {
        let due = self.needs_redraw(canvas_needs_redraw);
        if self.surface_size.width == 0 || self.surface_size.height == 0 || !due {
            Some(PresentOutcome { presented: false, needs_redraw: due })
        } else {
            None
        }
    }

    /// Follows the swapchain's answer: a timeout or an occluded window draws
    /// nothing and asks for another present; a lost or outdated surface is
    /// configured again, damaged, and asks for another present; a validation
    /// error fails the present; a texture, suboptimal or not, is drawn into.
    pub fn texture_acquired(&mut self, texture: SurfaceTexture) -> (r: Result<AcquireStep, PresenterError>)
        ensures
            final(self)@.surface_size == old(self)@.surface_size,
            final(self)@.viewport == old(self)@.viewport,
            (texture is Lost || texture is Outdated) ==> final(self)@.damage == marked(
                old(self)@.damage,
                true,
                false,
                false,
            ) && r == Ok::<AcquireStep, PresenterError>(
                AcquireStep::Reconfigure(PresentOutcome { presented: false, needs_redraw: true }),
            ),
            !(texture is Lost || texture is Outdated) ==> final(self)@.damage == old(self)@.damage,
            (texture is Timeout || texture is Occluded) ==> r == Ok::<AcquireStep, PresenterError>(
                AcquireStep::Skip(PresentOutcome { presented: false, needs_redraw: true }),
            ),
            texture is Validation ==> r == Err::<AcquireStep, PresenterError>(
                PresenterError::SurfaceValidation,
            ),
            texture is Success ==> r == Ok::<AcquireStep, PresenterError>(
                AcquireStep::Render { suboptimal: false },
            ),
            texture is Suboptimal ==> r == Ok::<AcquireStep, PresenterError>(
                AcquireStep::Render { suboptimal: true },
            ),
    {
        proof {
            use_type_invariant(&*self);
        }
        match texture {
            SurfaceTexture::Success => Ok(AcquireStep::Render { suboptimal: false }),
            SurfaceTexture::Suboptimal => Ok(AcquireStep::Render { suboptimal: true }),
            SurfaceTexture::Timeout | SurfaceTexture::Occluded => Ok(
                AcquireStep::Skip(PresentOutcome { presented: false, needs_redraw: true }),
            ),
            SurfaceTexture::Lost | SurfaceTexture::Outdated => {
                let mut damage = self.damage;
                damage.surface();
                self.damage = damage;
                Ok(AcquireStep::Reconfigure(PresentOutcome { presented: false, needs_redraw: true }))
            },
            SurfaceTexture::Validation => Err(PresenterError::SurfaceValidation),
        }
    }

    /// Settles the damage once the picture was presented: everything presented
    /// is forgotten, the canvas is damaged again when its render asked for
    /// another frame, and the surface when it was suboptimal (the caller then
    /// configures it again). The outcome reports the present and whether
    /// another one is due, `canvas_needs_redraw` being the canvas's own wish.
    pub fn presented(
        &mut self,
        render_needs_redraw: bool,
        suboptimal: bool,
        canvas_needs_redraw: bool,
    ) -> (o: PresentOutcome)
        ensures
            final(self)@.surface_size == old(self)@.surface_size,
            final(self)@.viewport == old(self)@.viewport,
            final(self)@.damage == (DamageParts {
                surface: suboptimal,
                canvas: render_needs_redraw,
                ui: false,
            }),
            o == (PresentOutcome {
                presented: true,
                needs_redraw: damage_pending(final(self)@.damage) || canvas_needs_redraw,
            }),
    {
        proof {
            use_type_invariant(&*self);
        }
        let mut damage = self.damage;
        damage.clear_presented();
        if render_needs_redraw {
            damage.canvas();
        }
        if suboptimal {
            damage.surface();
        }
        self.damage = damage;
        PresentOutcome { presented: true, needs_redraw: self.needs_redraw(canvas_needs_redraw) }
    }
}

/// The kind of a graphics adapter.
#[derive(Clone, Copy, Debug, PartialEq, Eq, Structural)]
pub enum DeviceType {
    Other,
    IntegratedGpu,
    DiscreteGpu,
    VirtualGpu,
    Cpu,
}

/// The graphics API an adapter is driven through.
#[derive(Clone, Copy, Debug, PartialEq, Eq, Structural)]
pub enum GraphicsBackend {
    Noop,
    Vulkan,
    Metal,
    Dx12,
    Gl,
    BrowserWebGpu,
}

/// How much an adapter is preferred: its kind first (discrete, integrated,
/// virtual, other, CPU), then a modern API over OpenGL or none.
pub open spec fn spec_adapter_priority(device: DeviceType, backend: GraphicsBackend) -> (u8, u8) {
    (
        match device {
            DeviceType::DiscreteGpu => 4,
            DeviceType::IntegratedGpu => 3,
            DeviceType::VirtualGpu => 2,
            DeviceType::Other => 1,
            DeviceType::Cpu => 0,
        },
        match backend {
            GraphicsBackend::Vulkan | GraphicsBackend::Metal | GraphicsBackend::Dx12
            | GraphicsBackend::BrowserWebGpu => 1,
            GraphicsBackend::Gl | GraphicsBackend::Noop => 0,
        },
    )
}

/// How much an adapter is preferred.
pub fn adapter_priority(device: DeviceType, backend: GraphicsBackend) -> (p: (u8, u8))
    ensures
        p == spec_adapter_priority(device, backend),
{
    let d: u8 = match device {
        DeviceType::DiscreteGpu => 4,
        DeviceType::IntegratedGpu => 3,
        DeviceType::VirtualGpu => 2,
        DeviceType::Other => 1,
        DeviceType::Cpu => 0,
    };
    let b: u8 = match backend {
        GraphicsBackend::Vulkan | GraphicsBackend::Metal | GraphicsBackend::Dx12
        | GraphicsBackend::BrowserWebGpu => 1,
        GraphicsBackend::Gl | GraphicsBackend::Noop => 0,
    };
    (d, b)
}

/// Priority `a` is lower than priority `b`: by kind, then by API.
pub open spec fn priority_lt(a: (u8, u8), b: (u8, u8)) -> bool {
    a.0 < b.0 || (a.0 == b.0 && a.1 < b.1)
}

/// Adapters are preferred by kind whatever their API: a discrete GPU over an
/// integrated one, that over a virtual one, that over any other device, and a
/// CPU last; between adapters of one kind, Vulkan, Metal, DirectX 12 and
/// WebGPU come before OpenGL and no API, which rank alike.
pub proof fn lemma_adapter_preference(b1: GraphicsBackend, b2: GraphicsBackend, d: DeviceType)
    ensures
        priority_lt(spec_adapter_priority(DeviceType::IntegratedGpu, b1), spec_adapter_priority(DeviceType::DiscreteGpu, b2)),
        priority_lt(spec_adapter_priority(DeviceType::VirtualGpu, b1), spec_adapter_priority(DeviceType::IntegratedGpu, b2)),
        priority_lt(spec_adapter_priority(DeviceType::Other, b1), spec_adapter_priority(DeviceType::VirtualGpu, b2)),
        priority_lt(spec_adapter_priority(DeviceType::Cpu, b1), spec_adapter_priority(DeviceType::Other, b2)),
        priority_lt(spec_adapter_priority(d, GraphicsBackend::Gl), spec_adapter_priority(d, GraphicsBackend::Vulkan)),
        priority_lt(spec_adapter_priority(d, GraphicsBackend::Gl), spec_adapter_priority(d, GraphicsBackend::Metal)),
        priority_lt(spec_adapter_priority(d, GraphicsBackend::Gl), spec_adapter_priority(d, GraphicsBackend::Dx12)),
        priority_lt(spec_adapter_priority(d, GraphicsBackend::Gl), spec_adapter_priority(d, GraphicsBackend::BrowserWebGpu)),
        spec_adapter_priority(d, GraphicsBackend::Gl) == spec_adapter_priority(d, GraphicsBackend::Noop),
        spec_adapter_priority(d, GraphicsBackend::Vulkan) == spec_adapter_priority(d, GraphicsBackend::Metal),
        spec_adapter_priority(d, GraphicsBackend::Vulkan) == spec_adapter_priority(d, GraphicsBackend::Dx12),
        spec_adapter_priority(d, GraphicsBackend::Vulkan) == spec_adapter_priority(d, GraphicsBackend::BrowserWebGpu),
{
}

/// Adapter `i` is tried before adapter `j`: it has the higher priority, or the
/// same one and came first.
pub open spec fn tried_before(priorities: Seq<(u8, u8)>, i: int, j: int) -> bool {
    priority_lt(priorities[j], priorities[i]) || (priorities[i] == priorities[j] && i < j)
}

fn lower_priority(q: (u8, u8), p: (u8, u8)) -> (b: bool)
    ensures
        b == priority_lt(q, p),
{
    q.0 < p.0 || (q.0 == p.0 && q.1 < p.1)
}

/// The order in which adapters are tried: highest priority first, adapters of
/// equal priority in the order they were found.
pub fn adapter_order(priorities: &Vec<(u8, u8)>) -> (order: Vec<usize>)
    ensures
        order@.len() == priorities@.len(),
        forall|k: int| 0 <= k < order@.len() ==> #[trigger] order@[k] < priorities@.len(),
        forall|a: int, b: int|
            0 <= a < b < order@.len() ==> tried_before(
                priorities@,
                #[trigger] order@[a] as int,
                #[trigger] order@[b] as int,
            ),
{
    let mut order: Vec<usize> = Vec::new();
    let mut i: usize = 0;
    while i < priorities.len()
        invariant
            i <= priorities@.len(),
            order@.len() == i,
            forall|k: int| 0 <= k < order@.len() ==> #[trigger] order@[k] < i,
            forall|a: int, b: int|
                0 <= a < b < order@.len() ==> tried_before(
                    priorities@,
                    #[trigger] order@[a] as int,
                    #[trigger] order@[b] as int,
                ),
        decreases priorities.len() - i,
    {
        let p = priorities[i];
        let mut j: usize = order.len();
        while j > 0 && lower_priority(priorities[order[j - 1]], p)
            invariant
                j <= order@.len(),
                i < priorities@.len(),
                p == priorities@[i as int],
                forall|k: int| 0 <= k < order@.len() ==> #[trigger] order@[k] < i,
                forall|k: int|
                    j <= k < order@.len() ==> priority_lt(
                        priorities@[#[trigger] order@[k] as int],
                        p,
                    ),
            decreases j,
        {
            j = j - 1;
        }
        let ghost before = order@;
        order.insert(j, i);
        proof {
            assert(order@ == before.insert(j as int, i));
            assert forall|a: int, b: int| 0 <= a < b < order@.len() implies tried_before(
                priorities@,
                #[trigger] order@[a] as int,
                #[trigger] order@[b] as int,
            ) by {
                if b < j {
                    assert(order@[a] == before[a] && order@[b] == before[b]);
                } else if b == j {
                    assert(order@[a] == before[a]);
                    assert(tried_before(priorities@, before[j - 1] as int, i as int));
                    if a < j - 1 {
                        assert(tried_before(priorities@, before[a] as int, before[j - 1] as int));
                    }
                } else if a < j {
                    assert(order@[a] == before[a] && order@[b] == before[b - 1]);
                    assert(tried_before(priorities@, before[j - 1] as int, i as int));
                    assert(priority_lt(priorities@[before[b - 1] as int], p));
                    if a < j - 1 {
                        assert(tried_before(priorities@, before[a] as int, before[j - 1] as int));
                    }
                } else if a == j {
                    assert(order@[b] == before[b - 1]);
                    assert(priority_lt(priorities@[before[b - 1] as int], p));
                } else {
                    assert(order@[a] == before[a - 1] && order@[b] == before[b - 1]);
                }
            }
        }
        i = i + 1;
    }
    order
}

/// A change of any source makes a present due, whatever else is pending.
pub proof fn lemma_changes_make_present_due(d: DamageParts, surface: bool, canvas: bool, ui: bool)
    requires
        surface || canvas || ui,
    ensures
        damage_pending(marked(d, surface, canvas, ui)),
{
}

} // verus!
