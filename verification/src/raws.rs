//! The read-only material and biome catalog.
//!
//! Generation reads two things from the catalog: each material's layer
//! classification (soil, sand, sedimentary, igneous) and name, and each
//! biome's soil-ratio percentage. The catalog is an explicit context object,
//! built once from already-parsed definitions and passed by reference into
//! the components that need it.

use vstd::prelude::*;

verus! {

/// Layer classification of one material.
#[derive(Clone, Copy, PartialEq, Eq, Structural, Debug)]
pub enum MaterialLayer {
    Soil,
    Sand,
    Sedimentary,
    Igneous,
}

/// One material definition: a stable name and its layer classification.
pub struct MaterialDef {
    pub name: String,
    pub layer: MaterialLayer,
}

/// The material catalog, indexed by stable material index.
pub struct Materials {
    pub materials: Vec<MaterialDef>,
}

/// Soil composition of one biome: the percentage of surface rolls that
/// come out as soil rather than sand.
pub struct Soils {
    pub soil: u32,
}

/// One biome definition.
pub struct BiomeType {
    pub soils: Soils,
}

/// The biome catalog, indexed by stable biome index.
pub struct Biomes {
    pub areas: Vec<BiomeType>,
}

/// The raw-data catalog: materials and biomes.
pub struct Raws {
    pub biomes: Biomes,
    pub materials: Materials,
}

impl Raws {
    /// An empty catalog, holding no materials and no biomes.
    pub fn new() -> (r: Raws)
        ensures
            r.materials.materials@.len() == 0,
            r.biomes.areas@.len() == 0,
    {
        Raws { biomes: Biomes { areas: Vec::new() }, materials: Materials { materials: Vec::new() } }
    }
}

/// Builds the catalog from already-parsed material and biome definitions.
pub fn load_raws(materials: Vec<MaterialDef>, biomes: Vec<BiomeType>) -> (r: Raws)
    ensures
        r.materials.materials == materials,
        r.biomes.areas == biomes,
{
    Raws { biomes: Biomes { areas: biomes }, materials: Materials { materials } }
}

/// Looks a material up by name; `Some` holds the first index whose
/// definition carries that name, `None` means the tag is absent.
pub fn get_material_by_tag(raws: &Raws, name: &str) -> (r: Option<usize>)
    ensures
        match r {
            Some(i) => {
                &&& i < raws.materials.materials@.len()
                &&& raws.materials.materials@[i as int].name@ == name@
                &&& forall|j: int|
                    0 <= j < i ==> raws.materials.materials@[j].name@ != name@
            },
            None => forall|j: int|
                0 <= j < raws.materials.materials@.len()
                    ==> #[trigger] raws.materials.materials@[j].name@ != name@,
        },
{
    let key = String::from_str(name);
    let n = raws.materials.materials.len();
    let mut i: usize = 0;
    while i < n
        invariant
            n == raws.materials.materials@.len(),
            i <= n,
            key@ == name@,
            forall|j: int| 0 <= j < i ==> #[trigger] raws.materials.materials@[j].name@ != name@,
        decreases n - i,
    {
        if raws.materials.materials[i].name == key {
            return Some(i);
        }
        i = i + 1;
    }
    None
}

/// The material indices whose layer is `layer`, in increasing order:
/// every listed index has that layer, and every index with that layer
/// is listed.
pub open spec fn layer_indices_ok(mats: Seq<MaterialDef>, layer: MaterialLayer, r: Seq<usize>) -> bool {
    &&& forall|k: int|
        0 <= k < r.len() ==> #[trigger] r[k] < mats.len() && mats[r[k] as int].layer == layer
    &&& forall|k1: int, k2: int| 0 <= k1 < k2 < r.len() ==> r[k1] < r[k2]
    &&& forall|i: int|
        0 <= i < mats.len() && (#[trigger] mats[i].layer) == layer ==> r.contains(i as usize)
}

/// Collects the indices of the materials classified under `layer`.
pub fn get_strata_indices(raws: &Raws, layer: MaterialLayer) -> (r: Vec<usize>)
    ensures
        layer_indices_ok(raws.materials.materials@, layer, r@),
{
    let mats = &raws.materials.materials;
    let n = mats.len();
    let mut out: Vec<usize> = Vec::new();
    let mut i: usize = 0;
    while i < n
        invariant
            n == mats@.len(),
            i <= n,
            forall|k: int|
                0 <= k < out@.len() ==> #[trigger] out@[k] < i && mats@[out@[k] as int].layer == layer,
            forall|k1: int, k2: int| 0 <= k1 < k2 < out@.len() ==> out@[k1] < out@[k2],
            forall|j: int|
                0 <= j < i && (#[trigger] mats@[j].layer) == layer ==> out@.contains(j as usize),
        decreases n - i,
    {
        if mats[i].layer == layer {
            let ghost prev = out@;
            out.push(i);
            proof {
                assert(out@[out@.len() - 1] == i);
                assert(out@.contains(i));
                assert forall|j: int|
                    0 <= j < i && (#[trigger] mats@[j].layer) == layer implies out@.contains(
                    j as usize,
                ) by {
                    let k = choose|k: int| 0 <= k < prev.len() && prev[k] == j as usize;
                    assert(out@[k] == j as usize);
                }
            }
        }
        i = i + 1;
    }
    out
}

/// In a strictly increasing index list, each entry is at least its
/// position.
proof fn lemma_increasing_ge_index(r: Seq<usize>, k: int)
    requires
        forall|k1: int, k2: int| 0 <= k1 < k2 < r.len() ==> r[k1] < r[k2],
        0 <= k < r.len(),
    ensures
        r[k] >= k,
    decreases k,
{
    if k > 0 {
        lemma_increasing_ge_index(r, k - 1);
    }
}

/// A layer's index list is no longer than the catalog it indexes.
pub proof fn lemma_layer_indices_len(mats: Seq<MaterialDef>, layer: MaterialLayer, r: Seq<usize>)
    requires
        layer_indices_ok(mats, layer, r),
    ensures
        r.len() <= mats.len(),
{
    if r.len() > mats.len() {
        lemma_increasing_ge_index(r, mats.len() as int);
    }
}

/// The per-layer material index lists that strata building draws from.
pub struct StrataMaterials {
    pub soils: Vec<usize>,
    pub sand: Vec<usize>,
    pub sedimentary: Vec<usize>,
    pub igneous: Vec<usize>,
}

/// The four layer lists each hold exactly the material indices of their
/// layer, in increasing order.
pub open spec fn strata_materials_ok(mats: Seq<MaterialDef>, sm: StrataMaterials) -> bool {
    &&& layer_indices_ok(mats, MaterialLayer::Soil, sm.soils@)
    &&& layer_indices_ok(mats, MaterialLayer::Sand, sm.sand@)
    &&& layer_indices_ok(mats, MaterialLayer::Sedimentary, sm.sedimentary@)
    &&& layer_indices_ok(mats, MaterialLayer::Igneous, sm.igneous@)
}

impl StrataMaterials {
    /// Partitions the material catalog into the four layer lists.
    pub fn read(raws: &Raws) -> (r: StrataMaterials)
        ensures
            strata_materials_ok(raws.materials.materials@, r),
    {
        StrataMaterials {
            soils: get_strata_indices(raws, MaterialLayer::Soil),
            sand: get_strata_indices(raws, MaterialLayer::Sand),
            sedimentary: get_strata_indices(raws, MaterialLayer::Sedimentary),
            igneous: get_strata_indices(raws, MaterialLayer::Igneous),
        }
    }
}

} // verus!
