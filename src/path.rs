use vstd::prelude::*;

verus! {

/// Number of bounces after which a path is cut off and contributes black.
pub const MAX_DEPTH: u32 = 50;

/// What the integrator does with a path after asking the scene for the
/// nearest surface along its current ray.
#[derive(Clone, Copy, Debug, PartialEq, Eq, Structural)]
pub enum Bounce {
    /// The ray left the scene: the path ends with the sky color.
    Sky,
    /// The path ends black: it hit a surface after its last allowed bounce.
    Black,
    /// The hit surface's material is asked to scatter the ray.
    Scatter,
}

/// The decision taken at bounce `depth`, given whether the ray hit a surface.
pub open spec fn bounce_spec(depth: nat, hit: bool) -> Bounce {
    if !hit {
        Bounce::Sky
    } else if depth < MAX_DEPTH {
        Bounce::Scatter
    } else {
        Bounce::Black
    }
}

/// Decides how a path continues after its intersection query at bounce `depth`.
pub fn after_query(depth: u32, hit: bool) -> (r: Bounce)
    ensures
        r == bounce_spec(depth as nat, hit),
{
    if !hit {
        Bounce::Sky
    } else if depth < MAX_DEPTH {
        Bounce::Scatter
    } else {
        Bounce::Black
    }
}

/// Continues a path whose material was asked to scatter at bounce `depth`:
/// a scattered ray is followed at the next bounce, an absorbed one ends the path.
pub fn after_scatter(depth: u32, scattered: bool) -> (r: Option<u32>)
    requires
        depth < MAX_DEPTH,
    ensures
        scattered ==> r == Some((depth + 1) as u32),
        !scattered ==> r is None,
{
    if scattered {
        Some(depth + 1)
    } else {
        None
    }
}

} // verus!
