//! The path integrator: how the colour of a ray is made up.

use crate::material::{Emission, Scatter};
use vstd::prelude::*;

verus! {

/// What a ray met at the nearest surface: what the surface emits, and the
/// scattered ray if the surface sends one on.
#[derive(Clone, Copy, Debug, PartialEq, Eq, Structural)]
pub struct Contact {
    pub emitted: Emission,
    pub scatter: Option<Scatter>,
}

/// The colour of a ray, as far as it is decided without arithmetic.
#[derive(Clone, Copy, Debug, PartialEq, Eq, Structural)]
pub enum RayColour {
    /// The path was cut off: black.
    Black,
    /// The ray met no surface: the colour of the sky in its direction.
    Sky,
    /// The ray ended at a surface: what the surface emits.
    Emitted { emitted: Emission },
    /// The ray was sent on: what the surface emits, plus the attenuation of
    /// `scatter` times the colour of its ray at `depth`.
    EmittedAndScattered { emitted: Emission, scatter: Scatter, depth: u32 },
}

/// The colour of a ray that may still take `depth` steps and that met `met`.
pub open spec fn colour_of(depth: u32, met: Option<Contact>) -> RayColour {
    if depth == 0 {
        RayColour::Black
    } else {
        match met {
            None => RayColour::Sky,
            Some(contact) => match contact.scatter {
                None => RayColour::Emitted { emitted: contact.emitted },
                Some(scatter) => RayColour::EmittedAndScattered {
                    emitted: contact.emitted,
                    scatter,
                    depth: (depth - 1) as u32,
                },
            },
        }
    }
}

/// Decides how the colour of a ray is made up. `cast` sends the ray into the
/// scene and says what it met.
///
/// At depth 0 the colour is black whatever the scene holds, and the ray is
/// not cast. Otherwise the ray is cast once, and a scattered ray is to be
/// followed at `depth - 1`: a path makes at most `depth` steps.
pub fn ray_colour<F: FnOnce() -> Option<Contact>>(depth: u32, cast: F) -> (colour: RayColour)
    requires
        cast.requires(()),
    ensures
        depth == 0 ==> colour == RayColour::Black,
        depth > 0 ==> exists|met: Option<Contact>|
            #[trigger] cast.ensures((), met) && colour == colour_of(depth, met),
        colour matches RayColour::EmittedAndScattered { depth: next, .. } ==> next < depth,
{
    if depth == 0 {
        return RayColour::Black;
    }
    let met = cast();
    let colour = match met {
        None => RayColour::Sky,
        Some(contact) => match contact.scatter {
            None => RayColour::Emitted { emitted: contact.emitted },
            Some(scatter) => RayColour::EmittedAndScattered {
                emitted: contact.emitted,
                scatter,
                depth: depth - 1,
            },
        },
    };
    assert(cast.ensures((), met) && colour == colour_of(depth, met));
    colour
}

} // verus!
