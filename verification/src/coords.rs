//! The isometric-axis / orthogonal-axis transform pair, used when reasoning
//! about asset space. It is built from the same two axis directions as the
//! world/screen pair of [`crate::math`].

use crate::linear::Vec2;
use crate::math::{
    axes, axes_inverse, close, in_round_trip_range, lemma_screen_world_screen,
    lemma_world_screen_world, spec_screen_to_world, spec_world_to_screen,
};
use vstd::prelude::*;

verus! {

pub open spec fn spec_iso_to_d2(input: Vec2) -> Vec2 {
    spec_world_to_screen(input)
}

pub open spec fn spec_d2_to_iso(input: Vec2) -> Vec2 {
    spec_screen_to_world(input)
}

#[must_use]
pub fn d2_to_iso(input: Vec2) -> (r: Vec2)
    ensures
        r == spec_d2_to_iso(input),
{
    axes_inverse().mul_vec2(input)
}

#[must_use]
pub fn iso_to_d2(input: Vec2) -> (r: Vec2)
    ensures
        r == spec_iso_to_d2(input),
{
    axes().mul_vec2(input)
}

/// Taking a vector from isometric axes to orthogonal axes and back
/// reproduces it within one ten-thousandth, for every vector in the
/// round-trip range.
pub proof fn lemma_iso_d2_iso(v: Vec2)
    requires
        in_round_trip_range(v),
    ensures
        close(spec_d2_to_iso(spec_iso_to_d2(v)), v),
{
    lemma_world_screen_world(v);
}

/// Taking a vector from orthogonal axes to isometric axes and back
/// reproduces it within one ten-thousandth, for every vector in the
/// round-trip range.
pub proof fn lemma_d2_iso_d2(v: Vec2)
    requires
        in_round_trip_range(v),
    ensures
        close(spec_iso_to_d2(spec_d2_to_iso(v)), v),
{
    lemma_screen_world_screen(v);
}

} // verus!
