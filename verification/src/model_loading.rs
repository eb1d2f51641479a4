use vstd::prelude::*;

use crate::buffers_pool::BufferCopy;
use crate::materials::MaterialType;
use crate::text::{bytes_contain, spec_contains};
use vstd::string::StringSliceAdditionalSpecFns;

verus! {

/// One mesh to spawn below a node of the flattened hierarchy; `uploads_mesh`
/// says whether this is the first use of the mesh, whose buffers are then
/// built and uploaded, or a later one that reuses them.
#[derive(Clone, Copy, PartialEq, Eq, Structural, Debug)]
pub struct MeshInstancePlan {
    pub node_index: usize,
    pub mesh_index: usize,
    pub uploads_mesh: bool,
}

/// Every (node, mesh) pair, node by node and mesh by mesh.
pub open spec fn mesh_pairs(node_meshes: Seq<Seq<usize>>) -> Seq<(usize, usize)>
    decreases node_meshes.len(),
{
    if node_meshes.len() == 0 {
        Seq::empty()
    } else {
        let i = node_meshes.len() - 1;
        mesh_pairs(node_meshes.drop_last()) + Seq::new(node_meshes[i].len(), |k: int| (i as usize, node_meshes[i][k]))
    }
}

/// No earlier pair uses the mesh of pair `t`.
pub open spec fn first_use(pairs: Seq<(usize, usize)>, t: int) -> bool {
    forall|s: int| 0 <= s < t ==> pairs[s].1 != pairs[t].1
}

pub open spec fn plans_of(pairs: Seq<(usize, usize)>) -> Seq<MeshInstancePlan> {
    Seq::new(
        pairs.len(),
        |t: int| MeshInstancePlan { node_index: pairs[t].0, mesh_index: pairs[t].1, uploads_mesh: first_use(pairs, t) },
    )
}

pub open spec fn meshes_view(node_meshes: &Vec<Vec<usize>>) -> Seq<Seq<usize>> {
    Seq::new(node_meshes@.len(), |i: int| node_meshes@[i]@)
}

proof fn lemma_plans_push(pairs: Seq<(usize, usize)>, p: (usize, usize))
    ensures
        plans_of(pairs.push(p)) == plans_of(pairs).push(MeshInstancePlan {
            node_index: p.0,
            mesh_index: p.1,
            uploads_mesh: first_use(pairs.push(p), pairs.len() as int),
        }),
{
    let a = plans_of(pairs.push(p));
    let b = plans_of(pairs).push(MeshInstancePlan {
        node_index: p.0,
        mesh_index: p.1,
        uploads_mesh: first_use(pairs.push(p), pairs.len() as int),
    });
    assert forall|t: int| 0 <= t < pairs.len() implies first_use(pairs.push(p), t) == first_use(pairs, t) by {
        assert forall|s: int| 0 <= s < t implies pairs.push(p)[s] == pairs[s] by {}
    }
    assert(a =~= b);
}

/// Lists the meshes to spawn for the nodes of the flattened hierarchy, node by
/// node and mesh by mesh, marking the first use of each mesh.
pub fn plan_mesh_instances(node_meshes: &Vec<Vec<usize>>, mesh_count: usize) -> (plans: Vec<MeshInstancePlan>)
    requires
        forall|i: int, k: int|
            0 <= i < node_meshes@.len() && 0 <= k < node_meshes@[i]@.len() ==> #[trigger] node_meshes@[i]@[k] < mesh_count,
    ensures
        plans@ == plans_of(mesh_pairs(meshes_view(node_meshes))),
{
    let ghost all = meshes_view(node_meshes);
    let mut seen: Vec<bool> = Vec::new();
    let mut m: usize = 0;
    while m < mesh_count
        invariant
            m <= mesh_count,
            seen@.len() == m,
            forall|j: int| 0 <= j < m ==> !(#[trigger] seen@[j]),
        decreases mesh_count - m,
    {
        seen.push(false);
        m = m + 1;
    }
    let mut plans: Vec<MeshInstancePlan> = Vec::new();
    let ghost mut pairs: Seq<(usize, usize)> = Seq::empty();
    let mut i: usize = 0;
    while i < node_meshes.len()
        invariant
            all == meshes_view(node_meshes),
            i <= node_meshes@.len(),
            seen@.len() == mesh_count,
            forall|ii: int, k: int|
                0 <= ii < node_meshes@.len() && 0 <= k < node_meshes@[ii]@.len() ==> #[trigger] node_meshes@[ii]@[k] < mesh_count,
            pairs == mesh_pairs(all.subrange(0, i as int)),
            plans@ == plans_of(pairs),
            forall|j: int| 0 <= j < mesh_count ==> (#[trigger] seen@[j] <==> exists|s: int| 0 <= s < pairs.len() && pairs[s].1 == j),
        decreases node_meshes@.len() - i,
    {
        let meshes = &node_meshes[i];
        let ghost base = pairs;
        let mut k: usize = 0;
        while k < meshes.len()
            invariant
                meshes@ == all[i as int],
                all == meshes_view(node_meshes),
                i < node_meshes@.len(),
                k <= meshes@.len(),
                seen@.len() == mesh_count,
                forall|kk: int| 0 <= kk < meshes@.len() ==> #[trigger] meshes@[kk] < mesh_count,
                pairs == base + Seq::new(k as nat, |kk: int| (i, meshes@[kk])),
                plans@ == plans_of(pairs),
                forall|j: int| 0 <= j < mesh_count ==> (#[trigger] seen@[j] <==> exists|s: int| 0 <= s < pairs.len() && pairs[s].1 == j),
            decreases meshes@.len() - k,
        {
            let mesh_index = meshes[k];
            let uploads_mesh = !seen[mesh_index];
            proof {
                let p = (i, mesh_index);
                lemma_plans_push(pairs, p);
                if uploads_mesh {
                    assert forall|s: int| 0 <= s < pairs.len() implies (#[trigger] pairs.push(p)[s]).1 != pairs.push(p)[pairs.len() as int].1 by {
                        assert(pairs.push(p)[s] == pairs[s]);
                    }
                } else {
                    let s = choose|s: int| 0 <= s < pairs.len() && pairs[s].1 == mesh_index;
                    assert(pairs.push(p)[s].1 == pairs.push(p)[pairs.len() as int].1);
                }
            }
            plans.push(MeshInstancePlan { node_index: i, mesh_index, uploads_mesh });
            seen.set(mesh_index, true);
            proof {
                let p = (i, mesh_index);
                let old_pairs = pairs;
                pairs = pairs.push(p);
                assert forall|j: int| 0 <= j < mesh_count implies (#[trigger] seen@[j] <==> exists|s: int| 0 <= s < pairs.len() && pairs[s].1 == j) by {
                    if j == mesh_index as int {
                        assert(pairs[old_pairs.len() as int].1 == j);
                    } else {
                        if exists|s: int| 0 <= s < old_pairs.len() && old_pairs[s].1 == j {
                            let s = choose|s: int| 0 <= s < old_pairs.len() && old_pairs[s].1 == j;
                            assert(pairs[s] == old_pairs[s]);
                        }
                        if exists|s: int| 0 <= s < pairs.len() && pairs[s].1 == j {
                            let s = choose|s: int| 0 <= s < pairs.len() && pairs[s].1 == j;
                            assert(s < old_pairs.len());
                            assert(pairs[s] == old_pairs[s]);
                        }
                    }
                }
                assert(pairs =~= base + Seq::new((k + 1) as nat, |kk: int| (i, meshes@[kk])));
            }
            k = k + 1;
        }
        proof {
            let next = all.subrange(0, i + 1);
            assert(next.drop_last() =~= all.subrange(0, i as int));
            assert(next[i as int] == meshes@);
            assert(pairs =~= mesh_pairs(next));
        }
        i = i + 1;
    }
    assert(all.subrange(0, all.len() as int) =~= all);
    plans
}

/// Some plan at or before `t` uploads the mesh that plan `t` uses.
pub open spec fn uploaded_by(pairs: Seq<(usize, usize)>, t: int) -> bool {
    exists|s: int| 0 <= s <= t && (#[trigger] plans_of(pairs)[s]).uploads_mesh
        && plans_of(pairs)[s].mesh_index == plans_of(pairs)[t].mesh_index
}

/// Every mesh that is used is uploaded exactly once: the first plan that uses
/// it uploads it, and no two uploading plans share a mesh.
pub proof fn law_each_mesh_uploaded_once(pairs: Seq<(usize, usize)>)
    ensures
        forall|t1: int, t2: int|
            0 <= t1 < pairs.len() && 0 <= t2 < pairs.len() && (#[trigger] plans_of(pairs)[t1]).uploads_mesh
                && (#[trigger] plans_of(pairs)[t2]).uploads_mesh && plans_of(pairs)[t1].mesh_index
                == plans_of(pairs)[t2].mesh_index ==> t1 == t2,
        forall|t: int| 0 <= t < pairs.len() ==> #[trigger] uploaded_by(pairs, t),
{
    let plans = plans_of(pairs);
    assert forall|t1: int, t2: int|
        0 <= t1 < pairs.len() && 0 <= t2 < pairs.len() && (#[trigger] plans[t1]).uploads_mesh
            && (#[trigger] plans[t2]).uploads_mesh && plans[t1].mesh_index == plans[t2].mesh_index implies t1 == t2 by {
        if t1 < t2 {
            assert(first_use(pairs, t2));
            assert(pairs[t1].1 != pairs[t2].1);
        } else if t2 < t1 {
            assert(first_use(pairs, t1));
            assert(pairs[t2].1 != pairs[t1].1);
        }
    }
    assert forall|t: int| 0 <= t < pairs.len() implies #[trigger] uploaded_by(pairs, t) by {
        let s = lemma_least_use(pairs, t);
        assert(first_use(pairs, s));
        assert(plans_of(pairs)[s].uploads_mesh && plans_of(pairs)[s].mesh_index == plans_of(pairs)[t].mesh_index);
    }
}

proof fn lemma_least_use(pairs: Seq<(usize, usize)>, t: int) -> (s: int)
    requires
        0 <= t < pairs.len(),
    ensures
        0 <= s <= t,
        pairs[s].1 == pairs[t].1,
        forall|e: int| 0 <= e < s ==> pairs[e].1 != pairs[t].1,
    decreases t,
{
    if exists|e: int| 0 <= e < t && pairs[e].1 == pairs[t].1 {
        let e = choose|e: int| 0 <= e < t && pairs[e].1 == pairs[t].1;
        lemma_least_use(pairs, e)
    } else {
        t
    }
}

/// Entry `t` names a texture that no earlier entry names.
pub open spec fn first_texture_use(textures: Seq<Option<usize>>, t: int) -> bool {
    &&& textures[t] is Some
    &&& forall|s: int| 0 <= s < t ==> textures[s] != textures[t]
}

/// For each entry, whether its texture is created, uploaded and bound there.
pub open spec fn texture_uploads_of(textures: Seq<Option<usize>>) -> Seq<bool> {
    Seq::new(textures.len(), |t: int| first_texture_use(textures, t))
}

/// Given the base-color texture each mesh instance uses, in the order the
/// instances are spawned (`None` for a material without one), marks the
/// instances whose texture is created, uploaded and bound: the first use of
/// each texture index.
pub fn plan_texture_uploads(textures: &Vec<Option<usize>>, texture_count: usize) -> (uploads: Vec<bool>)
    requires
        forall|t: int| 0 <= t < textures@.len() && (#[trigger] textures@[t]) is Some ==> textures@[t].unwrap() < texture_count,
    ensures
        uploads@ == texture_uploads_of(textures@),
{
    let mut seen: Vec<bool> = Vec::new();
    let mut m: usize = 0;
    while m < texture_count
        invariant
            m <= texture_count,
            seen@.len() == m,
            forall|j: int| 0 <= j < m ==> !(#[trigger] seen@[j]),
        decreases texture_count - m,
    {
        seen.push(false);
        m = m + 1;
    }
    let mut uploads: Vec<bool> = Vec::new();
    let mut t: usize = 0;
    while t < textures.len()
        invariant
            t <= textures@.len(),
            seen@.len() == texture_count,
            forall|u: int| 0 <= u < textures@.len() && (#[trigger] textures@[u]) is Some ==> textures@[u].unwrap() < texture_count,
            uploads@ == texture_uploads_of(textures@.subrange(0, t as int)),
            forall|j: int| 0 <= j < texture_count ==> (#[trigger] seen@[j] <==> exists|s: int| 0 <= s < t && textures@[s] == Some(j as usize)),
        decreases textures@.len() - t,
    {
        let ghost prefix = textures@.subrange(0, t as int);
        let ghost next = textures@.subrange(0, t + 1);
        let uploads_here = match textures[t] {
            Some(index) => !seen[index],
            None => false,
        };
        proof {
            assert(next[t as int] == textures@[t as int]);
            if uploads_here {
                let index = textures@[t as int].unwrap();
                assert forall|s: int| 0 <= s < t implies next[s] != next[t as int] by {
                    assert(next[s] == textures@[s]);
                    if textures@[s] == Some(index) {
                        assert(seen@[index as int]);
                    }
                }
            } else if textures@[t as int] is Some {
                let index = textures@[t as int].unwrap();
                assert(seen@[index as int]);
                let s = choose|s: int| 0 <= s < t && textures@[s] == Some(index);
                assert(next[s] == next[t as int]);
            }
            assert(first_texture_use(next, t as int) == uploads_here);
            assert forall|u: int| 0 <= u < t implies first_texture_use(next, u) == first_texture_use(prefix, u) by {
                assert(next[u] == prefix[u]);
                assert forall|s: int| 0 <= s < u implies next[s] == prefix[s] by {}
            }
        }
        uploads.push(uploads_here);
        match textures[t] {
            Some(index) => {
                seen.set(index, true);
            },
            None => {},
        }
        proof {
            assert(uploads@ =~= texture_uploads_of(next));
            assert forall|j: int| 0 <= j < texture_count implies (#[trigger] seen@[j] <==> exists|s: int| 0 <= s < t + 1 && textures@[s] == Some(j as usize)) by {
                if textures@[t as int] == Some(j as usize) {
                    assert(textures@[t as int] == Some(j as usize));
                }
            }
        }
        t = t + 1;
    }
    assert(textures@.subrange(0, textures@.len() as int) =~= textures@);
    uploads
}

/// Every texture that is used is created, uploaded and bound exactly once:
/// the first entry that names it does so, and no two uploading entries name
/// the same texture.
pub proof fn law_each_texture_uploaded_once(textures: Seq<Option<usize>>)
    ensures
        forall|t1: int, t2: int|
            0 <= t1 < textures.len() && 0 <= t2 < textures.len() && #[trigger] texture_uploads_of(textures)[t1]
                && #[trigger] texture_uploads_of(textures)[t2] && textures[t1] == textures[t2] ==> t1 == t2,
        forall|t: int|
            0 <= t < textures.len() && (#[trigger] textures[t]) is Some ==> exists|s: int|
                0 <= s <= t && texture_uploads_of(textures)[s] && textures[s] == textures[t],
{
    let uploads = texture_uploads_of(textures);
    assert forall|t1: int, t2: int|
        0 <= t1 < textures.len() && 0 <= t2 < textures.len() && #[trigger] uploads[t1] && #[trigger] uploads[t2]
            && textures[t1] == textures[t2] implies t1 == t2 by {
        if t1 < t2 {
            assert(first_texture_use(textures, t2));
        } else if t2 < t1 {
            assert(first_texture_use(textures, t1));
        }
    }
    assert forall|t: int| 0 <= t < textures.len() && (#[trigger] textures[t]) is Some implies exists|s: int|
        0 <= s <= t && uploads[s] && textures[s] == textures[t] by {
        let s = lemma_least_texture_use(textures, t);
        assert(first_texture_use(textures, s));
        assert(uploads[s]);
    }
}

proof fn lemma_least_texture_use(textures: Seq<Option<usize>>, t: int) -> (s: int)
    requires
        0 <= t < textures.len(),
    ensures
        0 <= s <= t,
        textures[s] == textures[t],
        forall|e: int| 0 <= e < s ==> textures[e] != textures[t],
    decreases t,
{
    if exists|e: int| 0 <= e < t && textures[e] == textures[t] {
        let e = choose|e: int| 0 <= e < t && textures[e] == textures[t];
        lemma_least_texture_use(textures, e)
    } else {
        t
    }
}

/// Where the mesh object of the `i`-th uploaded mesh is copied to, and the
/// device address it then has.
#[derive(Clone, Copy, PartialEq, Eq, Structural, Debug)]
pub struct MeshObjectPlacement {
    pub region: BufferCopy,
    pub device_address: u64,
}

/// The mesh objects of `count` uploaded meshes lie one after another, at the
/// same offsets in the staged array and in the mesh objects buffer that
/// starts at `base_device_address`.
pub fn mesh_object_placements(count: usize, mesh_object_size: usize, base_device_address: u64) -> (placements: Vec<MeshObjectPlacement>)
    requires
        count > 0 ==> (count - 1) * mesh_object_size <= usize::MAX,
        count > 0 ==> base_device_address + (count - 1) * mesh_object_size <= u64::MAX,
    ensures
        placements@.len() == count,
        forall|i: int| 0 <= i < count ==> {
            &&& (#[trigger] placements@[i]).region.src_offset == i * mesh_object_size
            &&& placements@[i].region.dst_offset == i * mesh_object_size
            &&& placements@[i].region.size == mesh_object_size
            &&& placements@[i].device_address == base_device_address + i * mesh_object_size
        },
{
    let mut placements: Vec<MeshObjectPlacement> = Vec::new();
    let mut i: usize = 0;
    while i < count
        invariant
            i <= count,
            count > 0 ==> (count - 1) * mesh_object_size <= usize::MAX,
            count > 0 ==> base_device_address + (count - 1) * mesh_object_size <= u64::MAX,
            placements@.len() == i,
            forall|j: int| 0 <= j < i ==> {
                &&& (#[trigger] placements@[j]).region.src_offset == j * mesh_object_size
                &&& placements@[j].region.dst_offset == j * mesh_object_size
                &&& placements@[j].region.size == mesh_object_size
                &&& placements@[j].device_address == base_device_address + j * mesh_object_size
            },
        decreases count - i,
    {
        proof {
            assert(i * mesh_object_size <= (count - 1) * mesh_object_size) by (nonlinear_arith)
                requires i <= count - 1;
        }
        let offset = i * mesh_object_size;
        let region = BufferCopy { src_offset: offset as u64, dst_offset: offset as u64, size: mesh_object_size as u64 };
        placements.push(MeshObjectPlacement { region, device_address: base_device_address + offset as u64 });
        i = i + 1;
    }
    placements
}

/// Bytes of the alpha mode that marks a blended material.
pub open spec fn blend_marker() -> Seq<u8> {
    seq![66u8, 76u8, 69u8, 78u8, 68u8]
}

/// A material whose alpha mode mentions `BLEND` is transparent; any other is
/// opaque.
pub fn material_type_from_alpha_mode(alpha_mode: &str) -> (t: MaterialType)
    ensures
        t == (if spec_contains(alpha_mode.spec_bytes(), blend_marker()) {
            MaterialType::Transparent
        } else {
            MaterialType::Opaque
        }),
{
    let marker: [u8; 5] = [66u8, 76u8, 69u8, 78u8, 68u8];
    assert(marker@ =~= blend_marker());
    if bytes_contain(alpha_mode.as_bytes(), marker.as_slice()) {
        MaterialType::Transparent
    } else {
        MaterialType::Opaque
    }
}

} // verus!

verus! {

/// Whether every byte is an ASCII decimal digit.
pub open spec fn all_digits(d: Seq<u8>) -> bool {
    forall|i: int| 0 <= i < d.len() ==> 48 <= #[trigger] d[i] <= 57
}

/// The number that a string of decimal digits spells.
pub open spec fn digits_value(d: Seq<u8>) -> int
    decreases d.len(),
{
    if d.len() == 0 {
        0
    } else {
        digits_value(d.drop_last()) * 10 + (d.last() - 48)
    }
}

/// The value of `r` read as an unsigned decimal number that fits in `usize`:
/// an optional `+`, then at least one digit.
pub open spec fn spec_parse_usize(r: Seq<u8>) -> Option<usize> {
    let d = if r.len() > 0 && r[0] == 43 { r.drop_first() } else { r };
    if d.len() > 0 && all_digits(d) && digits_value(d) <= usize::MAX {
        Some(digits_value(d) as usize)
    } else {
        None
    }
}

/// The index named by an embedded texture path such as `*3`: the number that
/// follows the path's first character.
pub open spec fn spec_embedded_texture_index(b: Seq<u8>) -> Option<usize> {
    if b.len() >= 1 && (b.len() == 1 || !(128 <= b[1] < 192)) {
        spec_parse_usize(b.subrange(1, b.len() as int))
    } else {
        None
    }
}

proof fn lemma_digits_value_grows(d: Seq<u8>, k: int)
    requires
        0 <= k <= d.len(),
        all_digits(d),
    ensures
        digits_value(d.subrange(0, k)) <= digits_value(d),
        0 <= digits_value(d.subrange(0, k)),
    decreases d.len() - k,
{
    lemma_digits_value_nonneg(d.subrange(0, k));
    if k < d.len() {
        lemma_digits_value_grows(d, k + 1);
        let s = d.subrange(0, k + 1);
        assert(s.drop_last() =~= d.subrange(0, k));
        assert(digits_value(s) == digits_value(d.subrange(0, k)) * 10 + (s.last() - 48));
    } else {
        assert(d.subrange(0, k) =~= d);
    }
}

proof fn lemma_digits_value_nonneg(d: Seq<u8>)
    requires
        all_digits(d),
    ensures
        0 <= digits_value(d),
    decreases d.len(),
{
    if d.len() > 0 {
        lemma_digits_value_nonneg(d.drop_last());
    }
}

/// Reads the bytes of `b` from position `start` on as an unsigned decimal number, when it is one that
/// fits in `usize`.
fn parse_digits(b: &[u8], start: usize) -> (r: Option<usize>)
    requires
        start <= b@.len(),
    ensures
        r == (if b@.len() > start && all_digits(b@.subrange(start as int, b@.len() as int))
            && digits_value(b@.subrange(start as int, b@.len() as int)) <= usize::MAX {
            Some(digits_value(b@.subrange(start as int, b@.len() as int)) as usize)
        } else {
            None
        }),
{
    let ghost d = b@.subrange(start as int, b@.len() as int);
    if start == b.len() {
        return None;
    }
    let mut value: usize = 0;
    let mut i: usize = start;
    while i < b.len()
        invariant
            start <= i <= b@.len(),
            d == b@.subrange(start as int, b@.len() as int),
            all_digits(d.subrange(0, i - start)),
            value == digits_value(d.subrange(0, i - start)),
        decreases b@.len() - i,
    {
        let c = b[i];
        if c < 48u8 || c > 57u8 {
            assert(d[i - start] == c);
            return None;
        }
        let ghost prefix = d.subrange(0, i - start);
        let ghost next = d.subrange(0, i - start + 1);
        proof {
            assert(next.drop_last() =~= prefix);
            assert(next.last() == c);
            assert(next =~= b@.subrange(start as int, i as int + 1));
            assert forall|j: int| 0 <= j < next.len() implies 48 <= #[trigger] next[j] <= 57 by {
                if j < prefix.len() {
                    assert(next[j] == prefix[j]);
                }
            }
        }
        let digit = (c - 48u8) as usize;
        assert(digits_value(next) == value * 10 + digit);
        match value.checked_mul(10) {
            Some(tens) => match tens.checked_add(digit) {
                Some(v) => {
                    value = v;
                },
                None => {
                    proof { self::lemma_overflow_persists(b@, start as int, i as int + 1); }
                    return None;
                },
            },
            None => {
                proof { self::lemma_overflow_persists(b@, start as int, i as int + 1); }
                return None;
            },
        }
        i = i + 1;
        assert(all_digits(d.subrange(0, i - start)));
    }
    assert(d.subrange(0, (b@.len() - start) as int) =~= d);
    Some(value)
}

/// Once a prefix of the digits spells more than `usize::MAX`, so does the
/// whole string, or it holds a byte that is no digit.
proof fn lemma_overflow_persists(b: Seq<u8>, start: int, end: int)
    requires
        0 <= start < end <= b.len(),
        all_digits(b.subrange(start, end)),
        digits_value(b.subrange(start, end)) > usize::MAX,
    ensures
        !(all_digits(b.subrange(start, b.len() as int)) && digits_value(b.subrange(start, b.len() as int)) <= usize::MAX),
{
    let d = b.subrange(start, b.len() as int);
    if all_digits(d) {
        lemma_digits_value_grows(d, end - start);
        assert(d.subrange(0, end - start) =~= b.subrange(start, end));
    }
}

/// The index named by an embedded texture path such as `*3`, or nothing when
/// the path does not have that form.
pub fn embedded_texture_index(path: &str) -> (r: Option<usize>)
    ensures
        r == spec_embedded_texture_index(path.spec_bytes()),
{
    let b = path.as_bytes();
    if b.len() == 0 {
        return None;
    }
    if b.len() > 1 && b[1] >= 128u8 && b[1] < 192u8 {
        return None;
    }
    let ghost r = b@.subrange(1, b@.len() as int);
    if b.len() > 1 && b[1] == 43u8 {
        proof {
            assert(r.drop_first() =~= b@.subrange(2, b@.len() as int));
        }
        parse_digits(b, 2)
    } else {
        parse_digits(b, 1)
    }
}

} // verus!
