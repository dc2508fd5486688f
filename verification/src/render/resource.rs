//! Texture handles. The pixels live with the rasteriser; the scene keeps the
//! identifier under which the rasteriser knows a texture, and its native size.

use crate::linear::Vec2;
use vstd::prelude::*;

verus! {

/// A texture as the scene sees it.
#[derive(Clone, Copy, Debug, PartialEq, Eq, Structural)]
pub struct TextureWrapper {
    /// The rasteriser's name for the texture.
    pub id: u64,
    /// Width and height in pixels.
    pub size: Vec2,
}

pub type TextureResource = TextureWrapper;

pub fn create_texture_resource(id: u64, size: Vec2) -> (r: TextureResource)
    ensures
        r == (TextureWrapper { id, size }),
{
    TextureWrapper { id, size }
}

} // verus!
