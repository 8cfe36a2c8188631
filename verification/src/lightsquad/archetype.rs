//! The archetype trait: what role a worker plays in the squad.
use vstd::prelude::*;
use crate::lightsquad::gate_dimension::GateDimension;

verus! {

/// Declares what role a worker plays in the squad. Implement it to define a
/// worker, gatekeeper or observer that the squad engine can route work to.
pub trait Archetype: Send + Sync {
    /// Human-readable name (e.g. `"my-security-worker"`).
    fn name(&self) -> &str;

    /// Domain this archetype operates in (e.g. `"security"`).
    fn domain(&self) -> &str;

    /// Brief description of what this archetype does.
    fn role(&self) -> &str;

    /// Quality gate dimensions this archetype is responsible for.
    fn gate_dimensions(&self) -> &[GateDimension];

    /// Optional personality tag; none unless the implementor gives one.
    fn personality(&self) -> (r: Option<&str>)
        default_ensures
            r is None,
    {
        None
    }
}

} // verus!
