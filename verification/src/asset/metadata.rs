//! Typed asset metadata: per orientation, the images of an asset with their
//! transforms and their collider and shadow primitives.

use crate::fixed::Fixed;
use crate::linear::Vec2;
use vstd::prelude::*;

verus! {

/// A point of asset space.
#[derive(Clone, Copy, Debug, PartialEq, Eq, Structural)]
pub struct Point {
    pub x: Fixed,
    pub y: Fixed,
}

impl Point {
    pub open spec fn spec_vec2(&self) -> Vec2 {
        Vec2 { x: self.x, y: self.y }
    }

    #[inline]
    pub fn vec2(&self) -> (r: Vec2)
        ensures
            r == self.spec_vec2(),
    {
        Vec2 { x: self.x, y: self.y }
    }
}

impl From<Point> for Vec2 {
    fn from(pt: Point) -> (r: Vec2) {
        pt.vec2()
    }
}

impl vstd::std_specs::convert::FromSpecImpl<Point> for Vec2 {
    open spec fn obeys_from_spec() -> bool {
        true
    }

    open spec fn from_spec(pt: Point) -> Vec2 {
        pt.spec_vec2()
    }
}

/// One of the four facings an asset may define geometry for.
#[derive(Clone, Copy, Debug, PartialEq, Eq, Structural, Hash)]
pub enum AssetOrientation {
    North,
    South,
    East,
    West,
}

#[derive(Clone, Copy, Debug, PartialEq, Eq, Structural)]
pub enum AssetImageType {
    Image,
}

#[derive(Clone, Copy, Debug, PartialEq, Eq, Structural)]
pub enum AssetPrimitiveType {
    Collider,
    Shadow,
}

#[derive(Clone, Copy, Debug, PartialEq, Eq, Structural)]
pub enum AssetShapeType {
    Rect,
}

/// Where an image sits relative to the object's root. `front_point` is used
/// for depth ordering only.
#[derive(Clone, Copy, Debug, PartialEq, Eq, Structural)]
pub struct AssetTransform {
    pub position: Point,
    pub scale: Point,
    pub front_point: Point,
}

#[derive(Clone, Copy, Debug, PartialEq, Eq, Structural)]
pub struct AssetPrimitiveShape {
    pub position: Point,
    pub scale: Point,
    pub shape: AssetShapeType,
}

/// A collider or a shadow attached to an image. A collider carries its full
/// height.
#[derive(Clone, Copy, Debug, PartialEq, Eq, Structural)]
pub struct AssetPrimitive {
    pub ty: AssetPrimitiveType,
    pub shape: AssetPrimitiveShape,
    pub shadow_type: Option<AssetShapeType>,
    pub height: Option<Fixed>,
}

impl AssetPrimitive {
    /// A collider has a height.
    pub open spec fn wf(&self) -> bool {
        self.ty == AssetPrimitiveType::Collider ==> self.height is Some
    }
}

/// A primitive under its identifier.
#[derive(Clone, Debug)]
pub struct AssetPrimitiveEntry {
    pub id: String,
    pub primitive: AssetPrimitive,
}

#[derive(Clone, Debug)]
pub struct AssetImageData {
    pub ty: AssetImageType,
    pub url: String,
    pub transform: AssetTransform,
    pub primitives: Vec<AssetPrimitiveEntry>,
}

/// An image under its identifier.
#[derive(Clone, Debug)]
pub struct AssetImageEntry {
    pub id: String,
    pub data: AssetImageData,
}

#[derive(Clone, Debug)]
pub struct AssetOrientationData {
    pub images: Vec<AssetImageEntry>,
}

/// The data of one orientation.
#[derive(Clone, Debug)]
pub struct AssetOrientationEntry {
    pub orientation: AssetOrientation,
    pub data: AssetOrientationData,
}

#[derive(Clone, Debug)]
pub struct AssetMetadata {
    pub name: String,
    pub orientations: Vec<AssetOrientationEntry>,
}

/// What went wrong when an asset was asked for something it does not hold.
#[derive(Clone, Debug)]
pub enum AssetError {
    /// The asset has no data for the orientation.
    UnsupportedOrientation { asset: String, orientation: AssetOrientation },
    /// The asset has no texture under the image identifier.
    MissingResource { name: String },
    /// The asset is not well formed, or its textures do not match its
    /// images.
    Malformed { asset: String },
}

/// The primitives of type `ty` among `entries`, in their order.
pub open spec fn primitives_of_type(
    entries: Seq<AssetPrimitiveEntry>,
    ty: AssetPrimitiveType,
) -> Seq<AssetPrimitive>
    decreases entries.len(),
{
    if entries.len() == 0 {
        Seq::empty()
    } else if entries.last().primitive.ty == ty {
        primitives_of_type(entries.drop_last(), ty).push(entries.last().primitive)
    } else {
        primitives_of_type(entries.drop_last(), ty)
    }
}

/// Every primitive that `primitives_of_type` selects is one of the entries
/// and has the type asked for, and the selection is as long as the number of
/// entries at most.
pub proof fn lemma_primitives_of_type(entries: Seq<AssetPrimitiveEntry>, ty: AssetPrimitiveType)
    ensures
        primitives_of_type(entries, ty).len() <= entries.len(),
        forall|k: int|
            0 <= k < primitives_of_type(entries, ty).len() ==> {
                &&& (#[trigger] primitives_of_type(entries, ty)[k]).ty == ty
                &&& exists|j: int|
                    0 <= j < entries.len() && entries[j].primitive == primitives_of_type(
                        entries,
                        ty,
                    )[k]
            },
        forall|j: int|
            0 <= j < entries.len() && (#[trigger] entries[j]).primitive.ty == ty
                ==> primitives_of_type(entries, ty).contains(entries[j].primitive),
    decreases entries.len(),
{
    if entries.len() > 0 {
        let rest = entries.drop_last();
        lemma_primitives_of_type(rest, ty);
        let sel = primitives_of_type(entries, ty);
        let sel_rest = primitives_of_type(rest, ty);
        assert forall|k: int| 0 <= k < sel.len() implies {
            &&& (#[trigger] sel[k]).ty == ty
            &&& exists|j: int| 0 <= j < entries.len() && entries[j].primitive == sel[k]
        } by {
            if k < sel_rest.len() {
                let j = choose|j: int| 0 <= j < rest.len() && rest[j].primitive == sel_rest[k];
                assert(entries[j].primitive == sel[k]);
            } else {
                assert(entries[entries.len() - 1].primitive == sel[k]);
            }
        }
        assert forall|j: int|
            0 <= j < entries.len() && (#[trigger] entries[j]).primitive.ty == ty implies sel.contains(
            entries[j].primitive,
        ) by {
            if j < rest.len() {
                assert(rest[j] == entries[j]);
                let k = choose|k: int| 0 <= k < sel_rest.len() && sel_rest[k] == rest[j].primitive;
                assert(sel[k] == entries[j].primitive);
            } else {
                assert(sel[sel.len() - 1] == entries[j].primitive);
            }
        }
    }
}

impl AssetImageData {
    /// No two primitives share an identifier, and every collider has a height.
    pub open spec fn wf(&self) -> bool {
        &&& forall|i: int, j: int|
            0 <= i < j < self.primitives@.len() ==> self.primitives@[i].id@ != self.primitives@[j].id@
        &&& forall|i: int|
            0 <= i < self.primitives@.len() ==> (#[trigger] self.primitives@[i]).primitive.wf()
    }

    /// Whether the image is well formed.
    pub fn is_well_formed(&self) -> (r: bool)
        ensures
            r == self.wf(),
    {
        let n: usize = self.primitives.len();
        let mut j: usize = 0;
        while j < n
            invariant
                n == self.primitives@.len(),
                j <= n,
                forall|a: int, b: int|
                    0 <= a < b < j ==> self.primitives@[a].id@ != self.primitives@[b].id@,
                forall|a: int| 0 <= a < j ==> (#[trigger] self.primitives@[a]).primitive.wf(),
            decreases n - j,
        {
            let entry = &self.primitives[j];
            if entry.primitive.ty == AssetPrimitiveType::Collider && entry.primitive.height.is_none() {
                return false;
            }
            let mut i: usize = 0;
            while i < j
                invariant
                    n == self.primitives@.len(),
                    j < n,
                    i <= j,
                    *entry == self.primitives@[j as int],
                    forall|a: int| 0 <= a < i ==> self.primitives@[a].id@ != self.primitives@[j as int].id@,
                decreases j - i,
            {
                if self.primitives[i].id == entry.id {
                    return false;
                }
                i += 1;
            }
            j += 1;
        }
        true
    }

    /// The primitives of type `ty`, in their order, or `None` when the image
    /// has none of that type.
    pub open spec fn spec_get_primitives(&self, ty: AssetPrimitiveType) -> Option<
        Seq<AssetPrimitive>,
    > {
        let selected = primitives_of_type(self.primitives@, ty);
        if selected.len() > 0 {
            Some(selected)
        } else {
            None
        }
    }

    pub fn get_primitives(&self, ty: AssetPrimitiveType) -> (r: Option<Vec<AssetPrimitive>>)
        ensures
            r is Some == self.spec_get_primitives(ty) is Some,
            r is Some ==> r->0@ == self.spec_get_primitives(ty)->0,
    {
        let mut result: Vec<AssetPrimitive> = Vec::new();
        let n: usize = self.primitives.len();
        let mut i: usize = 0;
        while i < n
            invariant
                n == self.primitives@.len(),
                i <= n,
                result@ == primitives_of_type(self.primitives@.take(i as int), ty),
            decreases n - i,
        {
            proof {
                let next = self.primitives@.take(i as int + 1);
                assert(next.drop_last() == self.primitives@.take(i as int));
                assert(next.last() == self.primitives@[i as int]);
            }
            let entry = &self.primitives[i];
            if entry.primitive.ty == ty {
                result.push(entry.primitive);
            }
            i += 1;
        }
        proof {
            assert(self.primitives@.take(n as int) == self.primitives@);
        }
        if result.len() > 0 {
            Some(result)
        } else {
            None
        }
    }
}

impl AssetOrientationData {
    /// No two images share an identifier, and every image is well formed.
    pub open spec fn wf(&self) -> bool {
        &&& forall|i: int, j: int|
            0 <= i < j < self.images@.len() ==> self.images@[i].id@ != self.images@[j].id@
        &&& forall|i: int| 0 <= i < self.images@.len() ==> (#[trigger] self.images@[i]).data.wf()
    }

    /// Whether the data of the orientation is well formed.
    pub fn is_well_formed(&self) -> (r: bool)
        ensures
            r == self.wf(),
    {
        let n: usize = self.images.len();
        let mut j: usize = 0;
        while j < n
            invariant
                n == self.images@.len(),
                j <= n,
                forall|a: int, b: int| 0 <= a < b < j ==> self.images@[a].id@ != self.images@[b].id@,
                forall|a: int| 0 <= a < j ==> (#[trigger] self.images@[a]).data.wf(),
            decreases n - j,
        {
            let entry = &self.images[j];
            if !entry.data.is_well_formed() {
                return false;
            }
            let mut i: usize = 0;
            while i < j
                invariant
                    n == self.images@.len(),
                    j < n,
                    i <= j,
                    *entry == self.images@[j as int],
                    forall|a: int| 0 <= a < i ==> self.images@[a].id@ != self.images@[j as int].id@,
                decreases j - i,
            {
                if self.images[i].id == entry.id {
                    return false;
                }
                i += 1;
            }
            j += 1;
        }
        true
    }
}

/// The position of the first entry for `orientation`, or the number of
/// entries when there is none.
pub open spec fn orientation_index(
    entries: Seq<AssetOrientationEntry>,
    orientation: AssetOrientation,
) -> int
    decreases entries.len(),
{
    if entries.len() == 0 {
        0
    } else if entries.first().orientation == orientation {
        0
    } else {
        1 + orientation_index(entries.drop_first(), orientation)
    }
}

impl AssetMetadata {
    /// Every orientation occurs once at most, and its data is well formed.
    pub open spec fn wf(&self) -> bool {
        &&& forall|i: int, j: int|
            0 <= i < j < self.orientations@.len() ==> self.orientations@[i].orientation
                != self.orientations@[j].orientation
        &&& forall|i: int|
            0 <= i < self.orientations@.len() ==> (#[trigger] self.orientations@[i]).data.wf()
    }

    /// Whether the metadata is well formed.
    pub fn is_well_formed(&self) -> (r: bool)
        ensures
            r == self.wf(),
    {
        let n: usize = self.orientations.len();
        let mut j: usize = 0;
        while j < n
            invariant
                n == self.orientations@.len(),
                j <= n,
                forall|a: int, b: int|
                    0 <= a < b < j ==> self.orientations@[a].orientation
                        != self.orientations@[b].orientation,
                forall|a: int| 0 <= a < j ==> (#[trigger] self.orientations@[a]).data.wf(),
            decreases n - j,
        {
            let entry = &self.orientations[j];
            if !entry.data.is_well_formed() {
                return false;
            }
            let mut i: usize = 0;
            while i < j
                invariant
                    n == self.orientations@.len(),
                    j < n,
                    i <= j,
                    *entry == self.orientations@[j as int],
                    forall|a: int|
                        0 <= a < i ==> self.orientations@[a].orientation
                            != self.orientations@[j as int].orientation,
                decreases j - i,
            {
                if self.orientations[i].orientation == entry.orientation {
                    return false;
                }
                i += 1;
            }
            j += 1;
        }
        true
    }

    /// Whether the asset has data for `orientation`.
    pub open spec fn supports(&self, orientation: AssetOrientation) -> bool {
        exists|i: int|
            0 <= i < self.orientations@.len() && (#[trigger] self.orientations@[i]).orientation
                == orientation
    }

    /// The data for `orientation`: that of the first entry with it.
    pub open spec fn spec_orientation_data(
        &self,
        orientation: AssetOrientation,
    ) -> AssetOrientationData
        recommends
            self.supports(orientation),
    {
        self.orientations@[orientation_index(self.orientations@, orientation)].data
    }

    pub fn get_orientation(&self, orientation: AssetOrientation) -> (r: Result<
        &AssetOrientationData,
        AssetError,
    >)
        ensures
            r is Ok == self.supports(orientation),
            r is Ok ==> *r->Ok_0 == self.spec_orientation_data(orientation),
            r is Ok ==> 0 <= orientation_index(self.orientations@, orientation)
                < self.orientations@.len(),
            r is Ok && self.wf() ==> r->Ok_0.wf(),
            r is Err ==> r->Err_0 == (AssetError::UnsupportedOrientation {
                asset: self.name,
                orientation,
            }),
    {
        let n: usize = self.orientations.len();
        let mut i: usize = 0;
        proof {
            assert(self.orientations@.skip(0) == self.orientations@);
        }
        while i < n
            invariant
                n == self.orientations@.len(),
                i <= n,
                forall|k: int| 0 <= k < i ==> (#[trigger] self.orientations@[k]).orientation != orientation,
                orientation_index(self.orientations@, orientation) == i + orientation_index(
                    self.orientations@.skip(i as int),
                    orientation,
                ),
            decreases n - i,
        {
            proof {
                let rest = self.orientations@.skip(i as int);
                assert(rest.first() == self.orientations@[i as int]);
                assert(rest.drop_first() == self.orientations@.skip(i as int + 1));
            }
            if self.orientations[i].orientation == orientation {
                return Ok(&self.orientations[i].data);
            }
            i += 1;
        }
        Err(AssetError::UnsupportedOrientation { asset: self.name.clone(), orientation })
    }
}

} // verus!
