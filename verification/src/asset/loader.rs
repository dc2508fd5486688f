//! What loading an asset computes: where the texture behind a URL is kept
//! once it has been fetched, and which textures an asset needs.

use crate::asset::metadata::{AssetError, AssetImageEntry, AssetMetadata, AssetOrientationEntry};
use crate::asset::{Asset, AssetResourceEntry, AssetResourceList};
use crate::render::resource::TextureResource;
use sha2::{Digest, Sha256};
use vstd::prelude::*;
use vstd::string::{StringExecFns, StringSliceAdditionalSpecFns};

verus! {

/// The SHA-256 digest of a byte string.
pub uninterp spec fn sha256_digest(data: Seq<u8>) -> Seq<u8>;

/// Calls `Sha256::new().chain_update(data).finalize()` of the crate `sha2`
/// and copies the digest out. Taken on trust: the result is the SHA-256
/// digest of `data`, which is 32 bytes long.
#[verifier::external_body]
fn sha256(data: &[u8]) -> (digest: Vec<u8>)
    ensures
        digest@ == sha256_digest(data@),
        digest@.len() == 32,
{
    Sha256::new().chain_update(data).finalize().to_vec()
}

/// The lower-case hexadecimal digit for a value below 16.
pub open spec fn spec_hex_digit(d: int) -> char {
    if d < 10 {
        (0x30 + d) as char
    } else {
        (0x61 + d - 10) as char
    }
}

/// Two lower-case hexadecimal digits for each byte, the high one first.
pub open spec fn spec_hex(bytes: Seq<u8>) -> Seq<char>
    decreases bytes.len(),
{
    if bytes.len() == 0 {
        Seq::empty()
    } else {
        spec_hex(bytes.drop_last()).push(spec_hex_digit(bytes.last() as int / 16)).push(
            spec_hex_digit(bytes.last() as int % 16),
        )
    }
}

/// The file in which the data with the given digest is kept: `.cache/`, the
/// digest in hexadecimal, `.png`.
pub open spec fn spec_cache_file(digest: Seq<u8>) -> Seq<char> {
    seq!['.', 'c', 'a', 'c', 'h', 'e', '/'] + spec_hex(digest) + seq!['.', 'p', 'n', 'g']
}

fn hex_digit(d: u8) -> (r: &'static str)
    requires
        d < 16,
    ensures
        r@ == seq![spec_hex_digit(d as int)],
{
    proof {
        reveal_strlit("0");
        reveal_strlit("1");
        reveal_strlit("2");
        reveal_strlit("3");
        reveal_strlit("4");
        reveal_strlit("5");
        reveal_strlit("6");
        reveal_strlit("7");
        reveal_strlit("8");
        reveal_strlit("9");
        reveal_strlit("a");
        reveal_strlit("b");
        reveal_strlit("c");
        reveal_strlit("d");
        reveal_strlit("e");
        reveal_strlit("f");
    }
    let r = match d {
        0 => "0",
        1 => "1",
        2 => "2",
        3 => "3",
        4 => "4",
        5 => "5",
        6 => "6",
        7 => "7",
        8 => "8",
        9 => "9",
        10 => "a",
        11 => "b",
        12 => "c",
        13 => "d",
        14 => "e",
        _ => "f",
    };
    proof {
        assert(r@ =~= seq![spec_hex_digit(d as int)]);
    }
    r
}

/// The name of the cache file for data with the given digest.
pub fn cache_file_for_digest(digest: &Vec<u8>) -> (r: String)
    ensures
        r@ == spec_cache_file(digest@),
{
    proof {
        reveal_strlit(".cache/");
        reveal_strlit(".png");
    }
    let mut name = String::from_str(".cache/");
    let n: usize = digest.len();
    let mut i: usize = 0;
    proof {
        assert(digest@.take(0) == Seq::<u8>::empty());
        assert(name@ =~= seq!['.', 'c', 'a', 'c', 'h', 'e', '/'] + spec_hex(digest@.take(0)));
    }
    while i < n
        invariant
            n == digest@.len(),
            i <= n,
            name@ == seq!['.', 'c', 'a', 'c', 'h', 'e', '/'] + spec_hex(digest@.take(i as int)),
        decreases n - i,
    {
        let byte: u8 = digest[i];
        let high: u8 = byte >> 4;
        let low: u8 = byte & 15;
        proof {
            assert(high == byte / 16 && low == byte % 16) by (bit_vector)
                requires
                    high == byte >> 4,
                    low == byte & 15,
            ;
            let next = digest@.take(i as int + 1);
            assert(next.drop_last() == digest@.take(i as int));
            assert(next.last() == byte);
        }
        name.append(hex_digit(high));
        name.append(hex_digit(low));
        proof {
            assert(name@ =~= seq!['.', 'c', 'a', 'c', 'h', 'e', '/'] + spec_hex(
                digest@.take(i as int + 1),
            ));
        }
        i += 1;
    }
    proof {
        assert(digest@.take(n as int) == digest@);
    }
    name.append(".png");
    proof {
        assert(name@ =~= spec_cache_file(digest@));
    }
    name
}

/// The name of the file in which the data behind `url` is kept once it has
/// been fetched: the cache file for the SHA-256 digest of the URL.
pub fn cache_file_name(url: &str) -> (r: String)
    ensures
        r@ == spec_cache_file(sha256_digest(url.spec_bytes())),
{
    let digest = sha256(url.as_bytes());
    cache_file_for_digest(&digest)
}

/// A texture that an asset needs: the image it belongs to and where its
/// data comes from.
#[derive(Clone, Debug)]
pub struct TextureSource {
    pub image_id: String,
    pub url: String,
}

/// The sources of `images`, in their order.
pub open spec fn spec_image_sources(images: Seq<AssetImageEntry>) -> Seq<TextureSource> {
    Seq::new(images.len(), |i: int| TextureSource { image_id: images[i].id, url: images[i].data.url })
}

/// The sources of all images of `orientations`, orientation by orientation.
pub open spec fn spec_texture_sources(orientations: Seq<AssetOrientationEntry>) -> Seq<
    TextureSource,
>
    decreases orientations.len(),
{
    if orientations.len() == 0 {
        Seq::empty()
    } else {
        spec_texture_sources(orientations.drop_last()) + spec_image_sources(
            orientations.last().data.images@,
        )
    }
}

/// Lists the textures that the asset needs, one for each image of each
/// orientation.
pub fn texture_sources(asset: &AssetMetadata) -> (r: Vec<TextureSource>)
    ensures
        r@ == spec_texture_sources(asset.orientations@),
{
    let mut sources: Vec<TextureSource> = Vec::new();
    let n: usize = asset.orientations.len();
    let mut i: usize = 0;
    proof {
        assert(asset.orientations@.take(0) == Seq::<AssetOrientationEntry>::empty());
    }
    while i < n
        invariant
            n == asset.orientations@.len(),
            i <= n,
            sources@ == spec_texture_sources(asset.orientations@.take(i as int)),
        decreases n - i,
    {
        let images = &asset.orientations[i].data.images;
        let ghost before = sources@;
        let m: usize = images.len();
        let mut k: usize = 0;
        proof {
            let next = asset.orientations@.take(i as int + 1);
            assert(next.drop_last() == asset.orientations@.take(i as int));
            assert(next.last() == asset.orientations@[i as int]);
        }
        while k < m
            invariant
                m == images@.len(),
                k <= m,
                sources@.len() == before.len() + k,
                forall|j: int| 0 <= j < before.len() ==> sources@[j] == before[j],
                forall|j: int|
                    0 <= j < k ==> sources@[before.len() + j] == spec_image_sources(images@)[j],
            decreases m - k,
        {
            sources.push(
                TextureSource { image_id: images[k].id.clone(), url: images[k].data.url.clone() },
            );
            k += 1;
        }
        proof {
            assert(sources@ =~= before + spec_image_sources(images@));
        }
        i += 1;
    }
    proof {
        assert(asset.orientations@.take(n as int) == asset.orientations@);
    }
    sources
}

/// The texture of each source under the identifier of the source's image.
pub open spec fn spec_resources(
    sources: Seq<TextureSource>,
    textures: Seq<TextureResource>,
) -> Seq<AssetResourceEntry> {
    Seq::new(
        sources.len(),
        |i: int| AssetResourceEntry { id: sources[i].image_id, texture: textures[i] },
    )
}

/// The asset that `metadata` and the textures of its images make up.
/// `textures` holds one texture for each source that `texture_sources`
/// lists, in the same order.
///
/// Fails when the number of textures is not that of the sources, or when
/// what they make up is not well formed.
pub fn load_asset(metadata: AssetMetadata, textures: &Vec<TextureResource>) -> (r: Result<
    Asset,
    AssetError,
>)
    ensures
        r is Ok ==> {
            &&& r->Ok_0.wf()
            &&& r->Ok_0.metadata == metadata
            &&& r->Ok_0.resources@ == spec_resources(
                spec_texture_sources(metadata.orientations@),
                textures@,
            )
        },
        r is Ok == {
            let sources = spec_texture_sources(metadata.orientations@);
            &&& textures@.len() == sources.len()
            &&& metadata.wf()
            &&& forall|i: int, j: int|
                0 <= i < j < sources.len() ==> sources[i].image_id@ != sources[j].image_id@
        },
        r is Err ==> r->Err_0 == (AssetError::Malformed { asset: metadata.name }),
{
    let sources = texture_sources(&metadata);
    if sources.len() != textures.len() {
        return Err(AssetError::Malformed { asset: metadata.name.clone() });
    }
    let mut resources: AssetResourceList = Vec::new();
    let n: usize = sources.len();
    let mut i: usize = 0;
    while i < n
        invariant
            n == sources@.len(),
            n == textures@.len(),
            i <= n,
            resources@.len() == i,
            forall|k: int|
                0 <= k < i ==> resources@[k] == spec_resources(sources@, textures@)[k],
        decreases n - i,
    {
        resources.push(AssetResourceEntry { id: sources[i].image_id.clone(), texture: textures[i] });
        i += 1;
    }
    proof {
        assert(resources@ =~= spec_resources(sources@, textures@));
    }
    let name = metadata.name.clone();
    let asset = Asset { metadata, resources };
    proof {
        let ids = sources@;
        assert forall|a: int, b: int| 0 <= a < b < n implies (asset.resources@[a].id@
            != asset.resources@[b].id@) == (ids[a].image_id@ != ids[b].image_id@) by {
            assert(asset.resources@[a] == spec_resources(ids, textures@)[a]);
            assert(asset.resources@[b] == spec_resources(ids, textures@)[b]);
        }
    }
    if asset.is_well_formed() {
        Ok(asset)
    } else {
        Err(AssetError::Malformed { asset: name })
    }
}

} // verus!
