//! The termination logic of the recursive light-transport evaluation.
//!
//! Following a ray through the scene alternates two kinds of work: the
//! floating-point probing of the scene and the materials' scattering, which
//! the surrounding application owns, and the decision of how the light path
//! goes on. That decision is pure control: it depends only on the transport
//! budget left for the ray and on what the probe reported, and it is what
//! cuts every path off after finitely many bounces. It is verified here; the
//! application performs one probe per step and acts on the returned step.

use vstd::prelude::*;

verus! {

/// What probing the scene with one ray reported, stripped of its
/// floating-point payload (the hit record, the attenuation and the
/// scattered ray stay with the application).
#[derive(Clone, Copy, Debug, PartialEq, Eq, Structural)]
pub enum PathEvent {
    /// No primitive was hit: the ray escaped toward the sky.
    Miss,
    /// A primitive was hit and its material swallowed the ray.
    Absorbed,
    /// A primitive was hit and its material scattered the ray onward.
    Scattered,
}

/// How the light path goes on after one probe of the scene.
#[derive(Clone, Copy, Debug, PartialEq, Eq, Structural)]
pub enum PathStep {
    /// The path ends and contributes no light.
    EmitBlack,
    /// The path ends on the sky gradient.
    EmitSky,
    /// The path follows the scattered ray, with one bounce less to spend.
    Bounce { remaining: usize },
}

/// Decide how a light path goes on. With the transport budget exhausted the
/// path is cut off and contributes no light, whatever the probe reported —
/// even a miss against an empty scene. Otherwise a miss ends the path on the
/// sky, an absorbed ray ends it dark, and a scattered ray is followed with
/// the budget reduced by one, so the budget falls strictly at every bounce.
pub fn path_step(depth: usize, event: PathEvent) -> (step: PathStep)
    ensures
        depth == 0 ==> step == PathStep::EmitBlack,
        step == PathStep::EmitBlack <==> depth == 0 || event == PathEvent::Absorbed,
        step == PathStep::EmitSky <==> depth > 0 && event == PathEvent::Miss,
        step is Bounce <==> depth > 0 && event == PathEvent::Scattered,
        step is Bounce ==> step->remaining + 1 == depth,
{
    if depth == 0 {
        PathStep::EmitBlack
    } else {
        match event {
            PathEvent::Miss => PathStep::EmitSky,
            PathEvent::Absorbed => PathStep::EmitBlack,
            PathEvent::Scattered => PathStep::Bounce { remaining: depth - 1 },
        }
    }
}

} // verus!
