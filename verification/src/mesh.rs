//! The surface classes that triangles and road paint are tagged with.
use vstd::prelude::*;

verus! {

/// What a piece of geometry is; the resolve step weighs and shades each
/// class differently.
#[derive(Clone, Copy, Debug, PartialEq, Eq, Structural)]
pub enum SurfaceKind {
    Generic,
    Ground,
    Road,
    RoadMarking,
    Guardrail,
    Vehicle,
    Checkpoint,
}

impl SurfaceKind {
    /// Surfaces a player must be able to see: the car, guardrails and
    /// checkpoint gates win a cell over broad background and keep a
    /// minimum ink level.
    pub open spec fn spec_important(self) -> bool {
        self == SurfaceKind::Vehicle || self == SurfaceKind::Guardrail || self
            == SurfaceKind::Checkpoint
    }

    /// Broad flat background: road and ground.
    pub open spec fn spec_calm(self) -> bool {
        self == SurfaceKind::Road || self == SurfaceKind::Ground
    }

    pub fn important(self) -> (important: bool)
        ensures
            important == self.spec_important(),
    {
        match self {
            SurfaceKind::Vehicle | SurfaceKind::Guardrail | SurfaceKind::Checkpoint => true,
            _ => false,
        }
    }

    pub fn calm(self) -> (calm: bool)
        ensures
            calm == self.spec_calm(),
    {
        match self {
            SurfaceKind::Road | SurfaceKind::Ground => true,
            _ => false,
        }
    }
}

} // verus!
