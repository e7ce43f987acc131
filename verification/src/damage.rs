//! Which parts of the desktop picture changed since the last present.
use vstd::prelude::*;

verus! {

/// The damaged parts of the desktop picture.
#[derive(Clone, Copy, PartialEq, Eq, Structural)]
pub struct DamageParts {
    pub surface: bool,
    pub canvas: bool,
    pub ui: bool,
}

/// Damage waiting to be presented, one bit per source.
#[derive(Clone, Copy, Debug, PartialEq, Eq, Structural)]
pub struct Damage(u8);

/// Bit of a resized or lost window surface.
pub const SURFACE: u8 = 1;

/// Bit of a changed canvas picture.
pub const CANVAS: u8 = 2;

/// Bit of a changed browser UI frame.
pub const UI: u8 = 4;

impl View for Damage {
    type V = DamageParts;

    closed spec fn view(&self) -> DamageParts {
        DamageParts {
            surface: self.0 & SURFACE != 0,
            canvas: self.0 & CANVAS != 0,
            ui: self.0 & UI != 0,
        }
    }
}

impl Damage {
    /// Only the three known bits are ever set.
    #[verifier::type_invariant]
    pub closed spec fn wf(self) -> bool {
        self.0 < 8
    }

    /// Nothing to present.
    pub fn none() -> (d: Self)
        ensures
            d.wf(),
            d@ == (DamageParts { surface: false, canvas: false, ui: false }),
    {
        assert(0u8 & 1 == 0 && 0u8 & 2 == 0 && 0u8 & 4 == 0) by (bit_vector);
        Damage(0)
    }

    /// Everything needs presenting, as on the first frame.
    pub fn initial() -> (d: Self)
        ensures
            d.wf(),
            d@ == (DamageParts { surface: true, canvas: true, ui: true }),
    {
        let bits: u8 = SURFACE | CANVAS | UI;
        assert(bits == 7) by (bit_vector)
            requires
                bits == 1u8 | 2u8 | 4u8,
        ;
        assert(7u8 & 1 != 0 && 7u8 & 2 != 0 && 7u8 & 4 != 0) by (bit_vector);
        Damage(bits)
    }

    /// Records a surface change.
    pub fn surface(&mut self)
        ensures
            final(self).wf(),
            final(self)@ == marked(old(self)@, true, false, false),
    {
        proof {
            use_type_invariant(&*self);
        }
        let b = self.0;
        assert(b < 8 ==> (b | 1) < 8 && (b | 1) & 1 != 0 && ((b | 1) & 2 == b & 2) && ((b | 1) & 4
            == b & 4)) by (bit_vector);
        self.0 = b | SURFACE;
    }

    /// Records a canvas change.
    pub fn canvas(&mut self)
        ensures
            final(self).wf(),
            final(self)@ == marked(old(self)@, false, true, false),
    {
        proof {
            use_type_invariant(&*self);
        }
        let b = self.0;
        assert(b < 8 ==> (b | 2) < 8 && (b | 2) & 2 != 0 && ((b | 2) & 1 == b & 1) && ((b | 2) & 4
            == b & 4)) by (bit_vector);
        self.0 = b | CANVAS;
    }

    /// Records a UI change.
    pub fn ui(&mut self)
        ensures
            final(self).wf(),
            final(self)@ == marked(old(self)@, false, false, true),
    {
        proof {
            use_type_invariant(&*self);
        }
        let b = self.0;
        assert(b < 8 ==> (b | 4) < 8 && (b | 4) & 4 != 0 && ((b | 4) & 1 == b & 1) && ((b | 4) & 2
            == b & 2)) by (bit_vector);
        self.0 = b | UI;
    }

    /// Whether anything waits to be presented.
    pub fn pending(self) -> (p: bool)
        ensures
            p == (self@.surface || self@.canvas || self@.ui),
    {
        proof {
            use_type_invariant(&self);
        }
        let b = self.0;
        assert(b < 8 ==> (b != 0 <==> (b & 1 != 0 || b & 2 != 0 || b & 4 != 0))) by (bit_vector);
        b != 0
    }

    /// Forgets all damage once the picture was presented.
    pub fn clear_presented(&mut self)
        ensures
            final(self).wf(),
            final(self)@ == (DamageParts { surface: false, canvas: false, ui: false }),
    {
        assert(0u8 & 1 == 0 && 0u8 & 2 == 0 && 0u8 & 4 == 0) by (bit_vector);
        self.0 = 0;
    }
}

impl Default for Damage {
    fn default() -> (d: Self)
        ensures
            d.wf(),
            d@ == (DamageParts { surface: false, canvas: false, ui: false }),
    {
        Damage::none()
    }
}

/// The parts `d` would show after a mark of each named source.
pub open spec fn marked(d: DamageParts, surface: bool, canvas: bool, ui: bool) -> DamageParts {
    DamageParts { surface: d.surface || surface, canvas: d.canvas || canvas, ui: d.ui || ui }
}

/// Damage accumulates and coalesces: whatever was marked stays marked until the
/// next present, marking any source leaves something pending, and marks made
/// one after another amount to one mark of all their sources, in any order.
pub proof fn lemma_damage_accumulates(d: DamageParts, surface: bool, canvas: bool, ui: bool)
    ensures
        (surface || canvas || ui) ==> (marked(d, surface, canvas, ui).surface || marked(
            d,
            surface,
            canvas,
            ui,
        ).canvas || marked(d, surface, canvas, ui).ui),
        d.surface ==> marked(d, surface, canvas, ui).surface,
        d.canvas ==> marked(d, surface, canvas, ui).canvas,
        d.ui ==> marked(d, surface, canvas, ui).ui,
        marked(marked(d, surface, canvas, ui), surface, canvas, ui) == marked(d, surface, canvas, ui),
{
}

/// Two rounds of marks give the same damage in either order, and the same as
/// one round that marks the sources of both.
pub proof fn lemma_damage_coalesces(
    d: DamageParts,
    s1: bool,
    c1: bool,
    u1: bool,
    s2: bool,
    c2: bool,
    u2: bool,
)
    ensures
        marked(marked(d, s1, c1, u1), s2, c2, u2) == marked(marked(d, s2, c2, u2), s1, c1, u1),
        marked(marked(d, s1, c1, u1), s2, c2, u2) == marked(d, s1 || s2, c1 || c2, u1 || u2),
{
}

} // verus!
