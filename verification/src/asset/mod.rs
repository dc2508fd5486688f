//! Assets: metadata plus the textures its images resolve to.

pub mod loader;
pub mod metadata;

use crate::asset::metadata::{AssetError, AssetMetadata};
use crate::render::resource::TextureResource;
use vstd::prelude::*;

verus! {

/// A texture under the identifier of the image it belongs to.
#[derive(Clone, Debug)]
pub struct AssetResourceEntry {
    pub id: String,
    pub texture: TextureResource,
}

pub type AssetResourceList = Vec<AssetResourceEntry>;

pub struct Asset {
    pub metadata: AssetMetadata,
    pub resources: AssetResourceList,
}

/// The position of the first entry under `name`, or the number of entries
/// when there is none.
pub open spec fn resource_index(entries: Seq<AssetResourceEntry>, name: Seq<char>) -> int
    decreases entries.len(),
{
    if entries.len() == 0 {
        0
    } else if entries.first().id@ == name {
        0
    } else {
        1 + resource_index(entries.drop_first(), name)
    }
}

impl Asset {
    /// The metadata is well formed and no two textures share an identifier.
    pub open spec fn wf(&self) -> bool {
        &&& self.metadata.wf()
        &&& forall|i: int, j: int|
            0 <= i < j < self.resources@.len() ==> self.resources@[i].id@ != self.resources@[j].id@
    }

    /// Whether the asset is well formed.
    pub fn is_well_formed(&self) -> (r: bool)
        ensures
            r == self.wf(),
    {
        if !self.metadata.is_well_formed() {
            return false;
        }
        let n: usize = self.resources.len();
        let mut j: usize = 0;
        while j < n
            invariant
                n == self.resources@.len(),
                j <= n,
                self.metadata.wf(),
                forall|a: int, b: int|
                    0 <= a < b < j ==> self.resources@[a].id@ != self.resources@[b].id@,
            decreases n - j,
        {
            let entry = &self.resources[j];
            let mut i: usize = 0;
            while i < j
                invariant
                    n == self.resources@.len(),
                    j < n,
                    i <= j,
                    *entry == self.resources@[j as int],
                    forall|a: int| 0 <= a < i ==> self.resources@[a].id@ != self.resources@[j as int].id@,
                decreases j - i,
            {
                if self.resources[i].id == entry.id {
                    return false;
                }
                i += 1;
            }
            j += 1;
        }
        true
    }

    /// Whether the asset holds a texture under `name`.
    pub open spec fn has_resource(&self, name: Seq<char>) -> bool {
        exists|i: int| 0 <= i < self.resources@.len() && (#[trigger] self.resources@[i]).id@ == name
    }

    /// The texture under `name`: that of the first entry with it.
    pub open spec fn spec_texture_resource(&self, name: Seq<char>) -> TextureResource
        recommends
            self.has_resource(name),
    {
        self.resources@[resource_index(self.resources@, name)].texture
    }

    pub fn get_texture_resource(&self, name: &String) -> (r: Result<TextureResource, AssetError>)
        ensures
            r is Ok == self.has_resource(name@),
            r is Ok ==> r->Ok_0 == self.spec_texture_resource(name@),
            r is Ok ==> 0 <= resource_index(self.resources@, name@) < self.resources@.len(),
            r is Err ==> r->Err_0 == (AssetError::MissingResource { name: *name }),
    {
        let n: usize = self.resources.len();
        let mut i: usize = 0;
        proof {
            assert(self.resources@.skip(0) == self.resources@);
        }
        while i < n
            invariant
                n == self.resources@.len(),
                i <= n,
                forall|k: int| 0 <= k < i ==> (#[trigger] self.resources@[k]).id@ != name@,
                resource_index(self.resources@, name@) == i + resource_index(
                    self.resources@.skip(i as int),
                    name@,
                ),
            decreases n - i,
        {
            proof {
                let rest = self.resources@.skip(i as int);
                assert(rest.first() == self.resources@[i as int]);
                assert(rest.drop_first() == self.resources@.skip(i as int + 1));
            }
            if self.resources[i].id == *name {
                return Ok(self.resources[i].texture);
            }
            i += 1;
        }
        Err(AssetError::MissingResource { name: name.clone() })
    }
}

} // verus!
