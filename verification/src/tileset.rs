//! The parts of the tileset manifest that hold no coordinates.

use vstd::prelude::*;
use vstd::string::StringExecFns;

verus! {

/// What a tile shows: the model file, by a path relative to the manifest.
pub struct Content {
    /// Path of the model file.
    pub uri: String,
}

/// The manifest's description of itself.
pub struct Asset {
    /// The axis that points up in the models.
    pub gltf_up_axis: String,
    /// The version of the tileset format.
    pub version: String,
}

impl Content {
    /// The content of the single tile: the model file beside the manifest.
    pub fn model() -> (content: Content)
        ensures
            content.uri@ == "0.b3dm"@,
    {
        Content { uri: String::from_str("0.b3dm") }
    }
}

impl Asset {
    /// The asset entry of a manifest whose models have the z axis up.
    pub fn z_up() -> (asset: Asset)
        ensures
            asset.gltf_up_axis@ == "Z"@,
            asset.version@ == "1.0"@,
    {
        Asset { gltf_up_axis: String::from_str("Z"), version: String::from_str("1.0") }
    }
}

/// `low` is the least of `samples`, or zero where there is none.
pub open spec fn is_lowest(samples: Seq<i32>, low: int) -> bool {
    if samples.len() == 0 {
        low == 0
    } else {
        &&& forall|i: int| 0 <= i < samples.len() ==> low <= #[trigger] samples[i]
        &&& exists|i: int| 0 <= i < samples.len() && #[trigger] samples[i] == low
    }
}

/// The ground level of a tile: the least of the ground elevations sampled
/// under its features, or zero where none was sampled.
pub fn lowest_elevation(samples: &Vec<i32>) -> (low: i32)
    ensures
        is_lowest(samples@, low as int),
{
    let mut bottom_h: i32 = 0;
    let mut first = true;
    let mut i: usize = 0;
    while i < samples.len()
        invariant
            i <= samples@.len(),
            first <==> i == 0,
            first ==> bottom_h == 0,
            forall|j: int| 0 <= j < i ==> bottom_h <= #[trigger] samples@[j],
            !first ==> exists|j: int| 0 <= j < i && #[trigger] samples@[j] == bottom_h,
        decreases samples@.len() - i,
    {
        let temp_h = samples[i];
        if first {
            bottom_h = temp_h;
            first = false;
        } else if temp_h < bottom_h {
            bottom_h = temp_h;
        }
        i += 1;
    }
    bottom_h
}

} // verus!
