//! Control policy of the recursive path integrator.
//!
//! Tracing a ray either stops — the recursion budget is spent, the ray left
//! the scene, or it struck an emissive or debug surface — or scatters a new
//! ray one level deeper. Which of these happens depends only on the recursion
//! depth and on the variant of the struck material, never on the shading
//! arithmetic, so the decision is made here and proved; the caller carries
//! it out on its colors and vectors.

use vstd::prelude::*;

verus! {

/// The variants of surface material a ray can strike.
#[derive(Clone, Copy, Debug, PartialEq, Eq, Structural)]
pub enum MaterialKind {
    /// Matte surface; scatters into a random hemisphere direction.
    Diffuse,
    /// Mirror-like surface; scatters along the fuzzed reflection.
    Metal,
    /// Dielectric surface; scatters by reflection or refraction.
    Glass,
    /// Emissive surface; returns its own color and traces no further.
    Light,
    /// Debug surface; returns a color made from the surface normal.
    Normal,
}

/// What the integrator does with a ray at a given depth.
#[derive(Clone, Copy, Debug, PartialEq, Eq, Structural)]
pub enum TraceAction {
    /// The recursion budget is spent: the result is black, whatever was hit.
    Exhausted,
    /// Nothing was hit: the result is the background gradient.
    Background,
    /// An emissive surface was hit: the result is its color, with no
    /// recursive trace.
    Emit,
    /// A debug surface was hit: the result shows the surface normal, with no
    /// recursive trace.
    ShowNormal,
    /// A scattering surface was hit: trace one scattered ray at `next_depth`
    /// and modulate what it returns.
    Scatter { next_depth: u32 },
}

/// Whether a material scatters a new ray rather than ending the path.
pub open spec fn scatters(kind: MaterialKind) -> bool {
    match kind {
        MaterialKind::Diffuse => true,
        MaterialKind::Metal => true,
        MaterialKind::Glass => true,
        MaterialKind::Light => false,
        MaterialKind::Normal => false,
    }
}

/// The integrator's decision for a ray at `depth`, given the material variant
/// it hit, if any: stop at the depth cutoff, else shade a miss as background,
/// an emissive or debug hit without recursing, and a scattering hit by one
/// recursive trace at the next depth.
pub open spec fn decide(depth: u32, max_depth: u32, hit: Option<MaterialKind>) -> TraceAction {
    if depth >= max_depth {
        TraceAction::Exhausted
    } else {
        match hit {
            None => TraceAction::Background,
            Some(MaterialKind::Light) => TraceAction::Emit,
            Some(MaterialKind::Normal) => TraceAction::ShowNormal,
            Some(_) => TraceAction::Scatter { next_depth: (depth + 1) as u32 },
        }
    }
}

/// Decide what to do with a ray at `depth` that hit a surface of the given
/// material variant (`None` when it hit nothing).
pub fn integrator_step(depth: u32, max_depth: u32, hit: Option<MaterialKind>) -> (action:
    TraceAction)
    ensures
        action == decide(depth, max_depth, hit),
        action is Exhausted <==> depth >= max_depth,
        depth < max_depth ==> (action is Background <==> hit is None),
        depth < max_depth ==> (action is Scatter <==> (hit matches Some(k) && scatters(k))),
{
    if depth >= max_depth {
        TraceAction::Exhausted
    } else {
        match hit {
            None => TraceAction::Background,
            Some(MaterialKind::Light) => TraceAction::Emit,
            Some(MaterialKind::Normal) => TraceAction::ShowNormal,
            Some(MaterialKind::Diffuse) | Some(MaterialKind::Metal) | Some(MaterialKind::Glass) => {
                TraceAction::Scatter { next_depth: depth + 1 }
            },
        }
    }
}

/// Depth cutoff: at `max_depth` (or beyond) the integrator stops at once,
/// whatever the ray hit — the hard recursion bound, not a stochastic one.
pub proof fn lemma_depth_cutoff(depth: u32, max_depth: u32, hit: Option<MaterialKind>)
    requires
        depth >= max_depth,
    ensures
        decide(depth, max_depth, hit) == TraceAction::Exhausted,
{
}

/// An emissive surface short-circuits the recursion: below the depth cutoff a
/// hit on a light always emits and never scatters, so a path ends at the
/// first light it reaches.
pub proof fn lemma_light_short_circuits(depth: u32, max_depth: u32)
    requires
        depth < max_depth,
    ensures
        decide(depth, max_depth, Some(MaterialKind::Light)) == TraceAction::Emit,
        !(decide(depth, max_depth, Some(MaterialKind::Light)) is Scatter),
{
}

/// Termination of the recursion: every scatter step spends one unit of the
/// recursion budget `max_depth - depth`, and a spent budget never scatters,
/// so a trace started at `depth` recurses at most `max_depth - depth` times.
pub proof fn lemma_scatter_spends_budget(depth: u32, max_depth: u32, hit: Option<MaterialKind>)
    ensures
        decide(depth, max_depth, hit) matches TraceAction::Scatter { next_depth } ==> {
            &&& next_depth == depth + 1
            &&& next_depth <= max_depth
            &&& max_depth - next_depth < max_depth - depth
        },
        max_depth - depth == 0 ==> !(decide(depth, max_depth, hit) is Scatter),
{
}

} // verus!
