//! The shape of Morphic user-interface objects.
use vstd::prelude::*;

verus! {

/// A morph: it sits at an origin, belongs to an owner and holds submorphs.
pub trait Morph<Submorphs>: Sized {
    /// The morph that owns this one.
    type Owner;

    fn get_origin(&self) -> (i64, i64);

    fn set_origin(&mut self, v: (i64, i64));

    fn get_owner(&self) -> Self::Owner;

    fn add_morph(&mut self, m: Submorphs);

    fn remove_morph(&mut self, m: Submorphs);

    fn get_submorphs(&self) -> Vec<Submorphs>;
}

/// A morph with an extent.
pub trait BoundedMorph<Submorphs>: Morph<Submorphs> {
    fn get_extent(&self) -> (i64, i64);

    fn set_extent(&mut self, v: (i64, i64));
}

/// A bounded morph filled with a color.
pub trait RectangleLikeMorph<Submorphs, Color>: BoundedMorph<Submorphs> {
    fn get_color(&self) -> Color;

    fn set_color(&mut self, v: Color);
}

} // verus!
