//! Named collision-group membership masks for the physics backend's
//! interaction filters.

use vstd::prelude::*;

verus! {

/// The named collision groups: each selects a bit (or, for `Everything`,
/// every bit) of the backend's 32-bit group mask.
#[derive(Clone, Copy, PartialEq, Eq, Structural, Debug)]
pub enum NamedCollisionGroups {
    Everything,
    Terrain,
    Projectile,
    Npc,
}

impl NamedCollisionGroups {
    /// The group's bit mask.
    pub open spec fn spec_bits(self) -> u32 {
        match self {
            NamedCollisionGroups::Everything => 0xffff_ffffu32,
            NamedCollisionGroups::Terrain => 1u32,
            NamedCollisionGroups::Projectile => 2u32,
            NamedCollisionGroups::Npc => 4u32,
        }
    }

    /// The group's bit mask.
    pub fn bits(self) -> (r: u32)
        ensures
            r == self.spec_bits(),
    {
        match self {
            NamedCollisionGroups::Everything => 0xffff_ffff,
            NamedCollisionGroups::Terrain => 1,
            NamedCollisionGroups::Projectile => 2,
            NamedCollisionGroups::Npc => 4,
        }
    }
}

} // verus!
