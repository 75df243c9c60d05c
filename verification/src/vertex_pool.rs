//! Bookkeeping of the shared vertex pool: which vertex and index ranges each mesh slice
//! occupies, which slice slots are taken, and the material indices submitted per instance.
//!
//! The GPU buffers the pool describes are owned by the caller; this module decides where data
//! goes and what is uploaded.
use crate::linear_block_allocator::{
    allocate_post, disjoint, free_post, has_fit, lemma_allocate_compact, lemma_allocate_sound,
    lemma_free_compact, lemma_free_start_not_used, lemma_free_undoes_allocate, AllocatorModel, LinearBlockAllocation, LinearBlockAllocator,
};
use std::sync::Arc;
use vstd::prelude::*;

verus! {

/// Number of vertices the pool can hold.
pub const MAX_VERTEX_POOL_VERTICES: u64 = 1024 * 1024 * 32;

/// Number of indices the pool can hold.
pub const MAX_VERTEX_POOL_INDICES: u64 = 1024 * 1024 * 256;

/// Number of mesh slices the pool can describe at once.
pub const MAX_VERTEX_POOL_SLICES: usize = 1024 * 8;

/// Number of material slots every submitted instance occupies.
pub const MAX_MATERIALS_PER_INSTANCE: usize = 8 * 10;

/// Number of dynamic instances that can be submitted in one frame.
pub const MAX_DYNAMIC_INSTANCES: usize = 1024 * 16;

/// Number of static instances that can be submitted.
pub const MAX_STATIC_INSTANCES: usize = 1024 * 256;

/// A material as the GPU sees it: its index in the material pool.
#[derive(Debug, Clone)]
pub struct GpuMaterial {
    pub material_idx: u32,
}

/// The vertex and index ranges one mesh occupies in the pool.
#[derive(Debug, Clone, Copy, PartialEq, Eq, Structural)]
pub struct VertexPoolSlice {
    first_vertex: u32,
    num_vertices: u32,
    first_index: u32,
    num_indices: u32,
}

impl VertexPoolSlice {
    /// The first vertex of the slice in the vertex buffer.
    pub closed spec fn spec_first_vertex(self) -> u32 {
        self.first_vertex
    }

    /// The number of vertices of the slice.
    pub closed spec fn spec_num_vertices(self) -> u32 {
        self.num_vertices
    }

    /// The first index of the slice in the index buffer.
    pub closed spec fn spec_first_index(self) -> u32 {
        self.first_index
    }

    /// The number of indices of the slice.
    pub closed spec fn spec_num_indices(self) -> u32 {
        self.num_indices
    }

    /// A slice holds a mesh exactly when it holds at least one vertex.
    pub open spec fn spec_is_allocated(self) -> bool {
        self.spec_num_vertices() > 0
    }

    /// A slice holding the given ranges.
    fn new(first_vertex: u32, num_vertices: u32, first_index: u32, num_indices: u32) -> (r: Self)
        ensures
            r.spec_first_vertex() == first_vertex,
            r.spec_num_vertices() == num_vertices,
            r.spec_first_index() == first_index,
            r.spec_num_indices() == num_indices,
    {
        Self { first_vertex, num_vertices, first_index, num_indices }
    }

    /// The slice of an empty slot: every field is zero.
    pub open spec fn is_zeroed(self) -> bool {
        &&& self.spec_first_vertex() == 0
        &&& self.spec_num_vertices() == 0
        &&& self.spec_first_index() == 0
        &&& self.spec_num_indices() == 0
    }

    /// The slice of an empty slot.
    fn new_unallocated() -> (r: Self)
        ensures
            r.is_zeroed(),
    {
        Self { first_vertex: 0, num_vertices: 0, first_index: 0, num_indices: 0 }
    }

    /// Whether the slice holds a mesh.
    fn is_allocated(&self) -> (b: bool)
        ensures
            b == self.spec_is_allocated(),
    {
        self.num_vertices > 0
    }

    /// The first vertex of the slice.
    pub fn first_vertex(&self) -> (r: u32)
        ensures
            r == self.spec_first_vertex(),
    {
        self.first_vertex
    }

    /// The number of vertices of the slice.
    pub fn num_vertices(&self) -> (r: u32)
        ensures
            r == self.spec_num_vertices(),
    {
        self.num_vertices
    }

    /// The first index of the slice.
    pub fn first_index(&self) -> (r: u32)
        ensures
            r == self.spec_first_index(),
    {
        self.first_index
    }

    /// The number of indices of the slice.
    pub fn num_indices(&self) -> (r: u32)
        ensures
            r == self.spec_num_indices(),
    {
        self.num_indices
    }
}

/// Where one mesh was placed: its vertex range, its index range and its slice slot.
#[derive(Debug, Clone)]
pub struct VertexPoolAlloc {
    pub vertex_alloc: LinearBlockAllocation,
    pub index_alloc: LinearBlockAllocation,
    pub index: u32,
}

/// The slot of the first slice in `slices` that holds no mesh.
pub open spec fn is_first_free_slot(slices: Seq<VertexPoolSlice>, i: int) -> bool {
    &&& 0 <= i < slices.len()
    &&& !slices[i].spec_is_allocated()
    &&& forall|j: int| 0 <= j < i ==> (#[trigger] slices[j]).spec_is_allocated()
}

/// Some slice in `slices` holds no mesh.
pub open spec fn has_free_slot(slices: Seq<VertexPoolSlice>) -> bool {
    exists|i: int| 0 <= i < slices.len() && !(#[trigger] slices[i]).spec_is_allocated()
}

/// The material slots one submitted instance fills: its materials' indices, then zeros up to
/// `MAX_MATERIALS_PER_INSTANCE`.
pub open spec fn instance_material_slots(materials: Seq<Arc<GpuMaterial>>) -> Seq<u32> {
    materials.map_values(|m: Arc<GpuMaterial>| m.material_idx) + Seq::new(
        (MAX_MATERIALS_PER_INSTANCE - materials.len()) as nat,
        |i: int| 0u32,
    )
}

/// What `allocate(num_vertices, num_indices)` does to the pool `old`, giving `r` and `new`:
/// the first free slot is taken, both allocators allocate first-fit, the slot records the two
/// starts and counts, and nothing else changes.
pub open spec fn allocate_mesh_post(
    old: VertexPool,
    num_vertices: u32,
    num_indices: u32,
    r: VertexPoolAlloc,
    new: VertexPool,
) -> bool {
    let i = r.index as int;
    &&& is_first_free_slot(old.spec_slices(), i)
    &&& allocate_post(old.spec_vertices(), num_vertices as u64, Some(r.vertex_alloc), new.spec_vertices())
    &&& allocate_post(old.spec_indices(), num_indices as u64, Some(r.index_alloc), new.spec_indices())
    &&& new.spec_slices().len() == old.spec_slices().len()
    &&& forall|j: int|
        0 <= j < old.spec_slices().len() && j != i ==> #[trigger] new.spec_slices()[j]
            == old.spec_slices()[j]
    &&& new.spec_slices()[i].spec_first_vertex() == r.vertex_alloc.start as u32
    &&& new.spec_slices()[i].spec_num_vertices() == num_vertices
    &&& new.spec_slices()[i].spec_first_index() == r.index_alloc.start as u32
    &&& new.spec_slices()[i].spec_num_indices() == num_indices
    &&& new.spec_dynamic_instance_count() == old.spec_dynamic_instance_count()
    &&& new.spec_static_material_indices() == old.spec_static_material_indices()
    &&& new.spec_dynamic_material_indices() == old.spec_dynamic_material_indices()
    &&& new.spec_frame_idx() == old.spec_frame_idx()
}

/// What `free(a)` does to the pool `old`, giving `new`: both ranges go back to their
/// allocators, the slot's vertex count becomes zero, and nothing else changes.
pub open spec fn free_mesh_post(old: VertexPool, a: VertexPoolAlloc, new: VertexPool) -> bool {
    let i = a.index as int;
    &&& free_post(old.spec_vertices(), a.vertex_alloc, new.spec_vertices())
    &&& free_post(old.spec_indices(), a.index_alloc, new.spec_indices())
    &&& new.spec_slices().len() == old.spec_slices().len()
    &&& forall|j: int|
        0 <= j < old.spec_slices().len() && j != i ==> #[trigger] new.spec_slices()[j]
            == old.spec_slices()[j]
    &&& new.spec_slices()[i].spec_num_vertices() == 0
    &&& new.spec_slices()[i].spec_first_vertex() == old.spec_slices()[i].spec_first_vertex()
    &&& new.spec_slices()[i].spec_first_index() == old.spec_slices()[i].spec_first_index()
    &&& new.spec_slices()[i].spec_num_indices() == old.spec_slices()[i].spec_num_indices()
    &&& new.spec_dynamic_instance_count() == old.spec_dynamic_instance_count()
    &&& new.spec_static_material_indices() == old.spec_static_material_indices()
    &&& new.spec_dynamic_material_indices() == old.spec_dynamic_material_indices()
    &&& new.spec_frame_idx() == old.spec_frame_idx()
}

/// After a mesh is freed its slot is free again, so the next placement takes that slot or a
/// lower one.
pub proof fn lemma_freed_slot_is_reused(p0: VertexPool, a: VertexPoolAlloc, p1: VertexPool)
    requires
        a.index < p0.spec_slices().len(),
        free_mesh_post(p0, a, p1),
    ensures
        has_free_slot(p1.spec_slices()),
        forall|i: int| #[trigger] is_first_free_slot(p1.spec_slices(), i) ==> i <= a.index,
{
    let k = a.index as int;
    assert(!p1.spec_slices()[k].spec_is_allocated());
    assert forall|i: int| #[trigger] is_first_free_slot(p1.spec_slices(), i) implies i <= a.index by {
        if i > k {
            assert(p1.spec_slices()[k].spec_is_allocated());
        }
    }
}

/// Placing a mesh in a pool whose allocators are compact and freeing it right away
/// gives back the same free vertex and index regions and leaves its slot free again, so the next
/// placement takes that slot or a lower one.
pub proof fn lemma_pool_free_undoes_allocate(
    p0: VertexPool,
    num_vertices: u32,
    num_indices: u32,
    a: VertexPoolAlloc,
    p1: VertexPool,
    p2: VertexPool,
)
    requires
        p0.spec_vertices().compact(),
        p0.spec_indices().compact(),
        allocate_mesh_post(p0, num_vertices, num_indices, a, p1),
        free_mesh_post(p1, a, p2),
    ensures
        p2.spec_vertices().free == p0.spec_vertices().free,
        p2.spec_indices().free == p0.spec_indices().free,
        p2.spec_vertices().used == p0.spec_vertices().used.remove(a.vertex_alloc.start),
        p2.spec_indices().used == p0.spec_indices().used.remove(a.index_alloc.start),
        !p2.spec_slices()[a.index as int].spec_is_allocated(),
        p2.spec_slices().len() == p0.spec_slices().len(),
        forall|j: int|
            0 <= j < p0.spec_slices().len() && j != a.index ==> #[trigger] p2.spec_slices()[j]
                == p0.spec_slices()[j],
        forall|i: int| #[trigger] is_first_free_slot(p2.spec_slices(), i) ==> i <= a.index,
        (forall|k: u64| #[trigger] p0.spec_vertices().used.contains_key(k) ==> p0.spec_vertices().used[k] > 0)
            ==> p2.spec_vertices().used == p0.spec_vertices().used,
        (forall|k: u64| #[trigger] p0.spec_indices().used.contains_key(k) ==> p0.spec_indices().used[k] > 0)
            ==> p2.spec_indices().used == p0.spec_indices().used,
{
    lemma_freed_slot_is_reused(p1, a, p2);
    if forall|k: u64| #[trigger] p0.spec_vertices().used.contains_key(k) ==> p0.spec_vertices().used[k] > 0 {
        lemma_free_start_not_used(p0.spec_vertices(), a.vertex_alloc.start);
        assert(p0.spec_vertices().used.remove(a.vertex_alloc.start) =~= p0.spec_vertices().used);
    }
    if forall|k: u64| #[trigger] p0.spec_indices().used.contains_key(k) ==> p0.spec_indices().used[k] > 0 {
        lemma_free_start_not_used(p0.spec_indices(), a.index_alloc.start);
        assert(p0.spec_indices().used.remove(a.index_alloc.start) =~= p0.spec_indices().used);
    }
    lemma_free_undoes_allocate(p0.spec_vertices(), num_vertices as u64, a.vertex_alloc, p1.spec_vertices(), p2.spec_vertices());
    lemma_free_undoes_allocate(p0.spec_indices(), num_indices as u64, a.index_alloc, p1.spec_indices(), p2.spec_indices());
}

/// Slot `i` of `p`, if it holds a mesh, is recorded in the allocators: its vertex range as a
/// used vertex region, and its index range, when not empty, as a used index region.
pub open spec fn slot_recorded(p: VertexPool, i: int) -> bool {
    let s = p.spec_slices()[i];
    s.spec_is_allocated() ==> {
        &&& p.spec_vertices().used.contains_key(s.spec_first_vertex() as u64)
        &&& p.spec_vertices().used[s.spec_first_vertex() as u64] == s.spec_num_vertices()
        &&& s.spec_num_indices() > 0 ==> {
            &&& p.spec_indices().used.contains_key(s.spec_first_index() as u64)
            &&& p.spec_indices().used[s.spec_first_index() as u64] == s.spec_num_indices()
        }
    }
}

/// Both allocators are compact over their full sizes, every mesh slot is recorded in them, and
/// no two meshes share a first vertex or, when they have indices, a first index.
pub open spec fn pool_sound(p: VertexPool) -> bool {
    &&& p.spec_vertices().compact()
    &&& p.spec_indices().compact()
    &&& p.spec_vertices().total_size == MAX_VERTEX_POOL_VERTICES
    &&& p.spec_indices().total_size == MAX_VERTEX_POOL_INDICES
    &&& forall|i: int| 0 <= i < p.spec_slices().len() ==> #[trigger] slot_recorded(p, i)
    &&& forall|i: int, j: int|
        0 <= i < p.spec_slices().len() && 0 <= j < p.spec_slices().len() && i != j
            && (#[trigger] p.spec_slices()[i]).spec_is_allocated()
            && (#[trigger] p.spec_slices()[j]).spec_is_allocated() ==> {
            &&& p.spec_slices()[i].spec_first_vertex() != p.spec_slices()[j].spec_first_vertex()
            &&& p.spec_slices()[i].spec_num_indices() > 0 && p.spec_slices()[j].spec_num_indices()
                > 0 ==> p.spec_slices()[i].spec_first_index()
                != p.spec_slices()[j].spec_first_index()
        }
}

/// `a` is where the mesh in its slot lies: the slot holds a mesh, and its first vertex,
/// vertex count, first index and index count are `a`'s.
pub open spec fn alloc_matches(p: VertexPool, a: VertexPoolAlloc) -> bool {
    let s = p.spec_slices()[a.index as int];
    &&& a.index < p.spec_slices().len()
    &&& s.spec_is_allocated()
    &&& a.vertex_alloc.start == s.spec_first_vertex() as u64
    &&& a.vertex_alloc.end == a.vertex_alloc.start + s.spec_num_vertices()
    &&& a.index_alloc.start == s.spec_first_index() as u64
    &&& a.index_alloc.end == a.index_alloc.start + s.spec_num_indices()
}

/// In a sound pool, two different meshes never share a vertex, nor, when both have indices,
/// an index.
pub proof fn lemma_meshes_disjoint(p: VertexPool, i: int, j: int)
    requires
        pool_sound(p),
        0 <= i < p.spec_slices().len(),
        0 <= j < p.spec_slices().len(),
        i != j,
        p.spec_slices()[i].spec_is_allocated(),
        p.spec_slices()[j].spec_is_allocated(),
    ensures
        disjoint(
            p.spec_slices()[i].spec_first_vertex() as u64,
            p.spec_slices()[i].spec_num_vertices() as u64,
            p.spec_slices()[j].spec_first_vertex() as u64,
            p.spec_slices()[j].spec_num_vertices() as u64,
        ),
        disjoint(
            p.spec_slices()[i].spec_first_index() as u64,
            p.spec_slices()[i].spec_num_indices() as u64,
            p.spec_slices()[j].spec_first_index() as u64,
            p.spec_slices()[j].spec_num_indices() as u64,
        ),
{
    assert(slot_recorded(p, i));
    assert(slot_recorded(p, j));
    let si = p.spec_slices()[i];
    let sj = p.spec_slices()[j];
    assert(si.spec_first_vertex() != sj.spec_first_vertex());
    if si.spec_num_indices() > 0 && sj.spec_num_indices() > 0 {
        assert(si.spec_first_index() != sj.spec_first_index());
    }
}

/// Pool soundness depends only on the allocators and the slices.
proof fn lemma_pool_sound_same_placement(p0: VertexPool, p1: VertexPool)
    requires
        pool_sound(p0),
        p1.spec_vertices() == p0.spec_vertices(),
        p1.spec_indices() == p0.spec_indices(),
        p1.spec_slices() == p0.spec_slices(),
    ensures
        pool_sound(p1),
{
    assert forall|j: int| 0 <= j < p1.spec_slices().len() implies #[trigger] slot_recorded(p1, j) by {
        assert(slot_recorded(p0, j));
    }
}

/// Placing a mesh keeps a sound pool sound, and the placement returned is where the mesh lies.
pub proof fn lemma_allocate_keeps_pool_sound(
    p0: VertexPool,
    num_vertices: u32,
    num_indices: u32,
    r: VertexPoolAlloc,
    p1: VertexPool,
)
    requires
        pool_sound(p0),
        allocate_mesh_post(p0, num_vertices, num_indices, r, p1),
    ensures
        pool_sound(p1),
        num_vertices > 0 ==> alloc_matches(p1, r),
{
    let v0 = p0.spec_vertices();
    let i0 = p0.spec_indices();
    let vs = r.vertex_alloc.start;
    let is = r.index_alloc.start;
    let k = r.index as int;
    lemma_allocate_compact(v0, num_vertices as u64, Some(r.vertex_alloc), p1.spec_vertices());
    lemma_allocate_compact(i0, num_indices as u64, Some(r.index_alloc), p1.spec_indices());
    lemma_allocate_sound(v0, num_vertices as u64, Some(r.vertex_alloc), p1.spec_vertices());
    lemma_allocate_sound(i0, num_indices as u64, Some(r.index_alloc), p1.spec_indices());
    assert(v0.free.contains_key(vs));
    assert(i0.free.contains_key(is));
    assert(vs + v0.free[vs] <= MAX_VERTEX_POOL_VERTICES);
    assert(is + i0.free[is] <= MAX_VERTEX_POOL_INDICES);
    assert((vs as u32) as u64 == vs);
    assert((is as u32) as u64 == is);
    assert forall|j: int|
        0 <= j < p0.spec_slices().len() && j != k && (#[trigger] p0.spec_slices()[j]).spec_is_allocated()
        implies p0.spec_slices()[j].spec_first_vertex() as u64 != vs && (
            p0.spec_slices()[j].spec_num_indices() > 0 ==> p0.spec_slices()[j].spec_first_index() as u64
            != is) by {
        assert(slot_recorded(p0, j));
        let sj = p0.spec_slices()[j];
        assert(disjoint(vs, v0.free[vs], sj.spec_first_vertex() as u64, v0.used[sj.spec_first_vertex() as u64]));
        if sj.spec_num_indices() > 0 {
            assert(disjoint(is, i0.free[is], sj.spec_first_index() as u64, i0.used[sj.spec_first_index() as u64]));
        }
    }
    assert forall|j: int| 0 <= j < p1.spec_slices().len() implies #[trigger] slot_recorded(p1, j) by {
        if j != k {
            assert(slot_recorded(p0, j));
            assert(p1.spec_slices()[j] == p0.spec_slices()[j]);
        }
    }
    assert forall|a: int, b: int|
        0 <= a < p1.spec_slices().len() && 0 <= b < p1.spec_slices().len() && a != b
            && (#[trigger] p1.spec_slices()[a]).spec_is_allocated()
            && (#[trigger] p1.spec_slices()[b]).spec_is_allocated() implies {
            &&& p1.spec_slices()[a].spec_first_vertex() != p1.spec_slices()[b].spec_first_vertex()
            &&& p1.spec_slices()[a].spec_num_indices() > 0 && p1.spec_slices()[b].spec_num_indices()
                > 0 ==> p1.spec_slices()[a].spec_first_index()
                != p1.spec_slices()[b].spec_first_index()
        } by {
        if a != k && b != k {
            assert(p1.spec_slices()[a] == p0.spec_slices()[a]);
            assert(p1.spec_slices()[b] == p0.spec_slices()[b]);
        } else if a == k {
            assert(p1.spec_slices()[b] == p0.spec_slices()[b]);
        } else {
            assert(p1.spec_slices()[a] == p0.spec_slices()[a]);
        }
    }
}

/// Freeing the mesh of a slot, with vertices and indices, keeps a sound pool sound.
pub proof fn lemma_free_keeps_pool_sound(p0: VertexPool, a: VertexPoolAlloc, p1: VertexPool)
    requires
        pool_sound(p0),
        alloc_matches(p0, a),
        a.index_alloc.start < a.index_alloc.end,
        free_mesh_post(p0, a, p1),
    ensures
        pool_sound(p1),
{
    let v0 = p0.spec_vertices();
    let i0 = p0.spec_indices();
    let k = a.index as int;
    assert(slot_recorded(p0, k));
    lemma_free_compact(v0, a.vertex_alloc, p1.spec_vertices());
    lemma_free_compact(i0, a.index_alloc, p1.spec_indices());
    assert forall|j: int| 0 <= j < p1.spec_slices().len() implies #[trigger] slot_recorded(p1, j) by {
        if j != k {
            assert(slot_recorded(p0, j));
            assert(p1.spec_slices()[j] == p0.spec_slices()[j]);
            if p0.spec_slices()[j].spec_is_allocated() {
                assert(p0.spec_slices()[j].spec_first_vertex() != p0.spec_slices()[k].spec_first_vertex());
            }
        }
    }
    assert forall|x: int, y: int|
        0 <= x < p1.spec_slices().len() && 0 <= y < p1.spec_slices().len() && x != y
            && (#[trigger] p1.spec_slices()[x]).spec_is_allocated()
            && (#[trigger] p1.spec_slices()[y]).spec_is_allocated() implies {
            &&& p1.spec_slices()[x].spec_first_vertex() != p1.spec_slices()[y].spec_first_vertex()
            &&& p1.spec_slices()[x].spec_num_indices() > 0 && p1.spec_slices()[y].spec_num_indices()
                > 0 ==> p1.spec_slices()[x].spec_first_index()
                != p1.spec_slices()[y].spec_first_index()
        } by {
        assert(p1.spec_slices()[x] == p0.spec_slices()[x]);
        assert(p1.spec_slices()[y] == p0.spec_slices()[y]);
    }
}

/// The placement state of the shared vertex pool.
pub struct VertexPool {
    vertex_allocator: LinearBlockAllocator,
    index_allocator: LinearBlockAllocator,
    slices: Vec<VertexPoolSlice>,
    dynamic_instance_count: usize,
    static_material_indices: Vec<u32>,
    dynamic_material_indices: Vec<u32>,
    frame_idx: u32,
}

impl VertexPool {
    /// The vertex allocator's state.
    pub closed spec fn spec_vertices(&self) -> AllocatorModel {
        self.vertex_allocator@
    }

    /// The index allocator's state.
    pub closed spec fn spec_indices(&self) -> AllocatorModel {
        self.index_allocator@
    }

    /// Every slice slot.
    pub closed spec fn spec_slices(&self) -> Seq<VertexPoolSlice> {
        self.slices@
    }

    /// Dynamic instances submitted this frame.
    pub closed spec fn spec_dynamic_instance_count(&self) -> nat {
        self.dynamic_instance_count as nat
    }

    /// Material slots of this frame's static instances.
    pub closed spec fn spec_static_material_indices(&self) -> Seq<u32> {
        self.static_material_indices@
    }

    /// Material slots of this frame's dynamic instances.
    pub closed spec fn spec_dynamic_material_indices(&self) -> Seq<u32> {
        self.dynamic_material_indices@
    }

    /// Frames ended so far, wrapping.
    pub closed spec fn spec_frame_idx(&self) -> u32 {
        self.frame_idx
    }

    /// Both allocators keep their invariant, every slice slot exists, and fewer than
    /// `MAX_DYNAMIC_INSTANCES` dynamic instances were submitted this frame.
    pub closed spec fn wf(&self) -> bool {
        &&& self.vertex_allocator.wf()
        &&& self.index_allocator.wf()
        &&& self.slices@.len() == MAX_VERTEX_POOL_SLICES
        &&& self.dynamic_instance_count < MAX_DYNAMIC_INSTANCES
    }

    /// An empty pool: all vertices and indices free, every slice slot unallocated.
    pub fn new() -> (r: Self)
        ensures
            r.wf(),
            r.spec_vertices().total_size == MAX_VERTEX_POOL_VERTICES,
            r.spec_vertices().free == map![0u64 => MAX_VERTEX_POOL_VERTICES],
            r.spec_vertices().used == Map::<u64, u64>::empty(),
            r.spec_vertices().compact(),
            r.spec_indices().compact(),
            pool_sound(r),
            r.spec_indices().total_size == MAX_VERTEX_POOL_INDICES,
            r.spec_indices().free == map![0u64 => MAX_VERTEX_POOL_INDICES],
            r.spec_indices().used == Map::<u64, u64>::empty(),
            r.spec_slices().len() == MAX_VERTEX_POOL_SLICES,
            forall|i: int|
                0 <= i < MAX_VERTEX_POOL_SLICES ==> (#[trigger] r.spec_slices()[i]).is_zeroed(),
            r.spec_dynamic_instance_count() == 0,
            r.spec_static_material_indices() == Seq::<u32>::empty(),
            r.spec_dynamic_material_indices() == Seq::<u32>::empty(),
            r.spec_frame_idx() == 0,
    {
        let vertex_allocator = LinearBlockAllocator::new(MAX_VERTEX_POOL_VERTICES);
        let index_allocator = LinearBlockAllocator::new(MAX_VERTEX_POOL_INDICES);
        let mut slices: Vec<VertexPoolSlice> = Vec::new();
        while slices.len() < MAX_VERTEX_POOL_SLICES
            invariant
                slices.len() <= MAX_VERTEX_POOL_SLICES,
                forall|i: int|
                    0 <= i < slices.len() ==> (#[trigger] slices@[i]).is_zeroed(),
            decreases MAX_VERTEX_POOL_SLICES - slices.len(),
        {
            slices.push(VertexPoolSlice::new_unallocated());
        }
        Self {
            vertex_allocator,
            index_allocator,
            slices,
            dynamic_instance_count: 0,
            static_material_indices: Vec::new(),
            dynamic_material_indices: Vec::new(),
            frame_idx: 0,
        }
    }

    /// The slot of the first slice that holds no mesh, if any.
    pub fn first_available_slice_idx(&self) -> (r: Option<usize>)
        ensures
            match r {
                Some(i) => is_first_free_slot(self.spec_slices(), i as int),
                None => !has_free_slot(self.spec_slices()),
            },
    {
        let mut i: usize = 0;
        while i < self.slices.len()
            invariant
                i <= self.slices@.len(),
                forall|j: int| 0 <= j < i ==> (#[trigger] self.slices@[j]).spec_is_allocated(),
            decreases self.slices@.len() - i,
        {
            if !self.slices[i].is_allocated() {
                return Some(i);
            }
            i += 1;
        }
        None
    }

    /// Whether `allocate(num_vertices, num_indices)` can proceed: a slice slot is free and both
    /// the vertex and the index allocator have a region that large.
    pub fn can_alloc(&self, num_vertices: u32, num_indices: u32) -> (b: bool)
        ensures
            b == (has_free_slot(self.spec_slices()) && has_fit(self.spec_vertices().free, num_vertices as u64)
                && has_fit(self.spec_indices().free, num_indices as u64)),
    {
        self.first_available_slice_idx().is_some() && self.vertex_allocator.has_room(num_vertices as u64)
            && self.index_allocator.has_room(num_indices as u64)
    }

    /// Places a mesh of `num_vertices` vertices and `num_indices` indices: takes the first free
    /// slice slot and first-fit ranges from the vertex and the index allocator, and records them
    /// in that slot.
    pub fn allocate(&mut self, num_vertices: u32, num_indices: u32) -> (r: VertexPoolAlloc)
        requires
            old(self).wf(),
            has_free_slot(old(self).spec_slices()),
            has_fit(old(self).spec_vertices().free, num_vertices as u64),
            has_fit(old(self).spec_indices().free, num_indices as u64),
        ensures
            final(self).wf(),
            allocate_mesh_post(*old(self), num_vertices, num_indices, r, *final(self)),
            r.index < MAX_VERTEX_POOL_SLICES,
            r.vertex_alloc.start <= r.vertex_alloc.end,
            final(self).spec_vertices().used.contains_key(r.vertex_alloc.start),
            r.index_alloc.start <= r.index_alloc.end,
            final(self).spec_indices().used.contains_key(r.index_alloc.start),
            pool_sound(*old(self)) ==> pool_sound(*final(self)),
            pool_sound(*old(self)) && num_vertices > 0 ==> alloc_matches(*final(self), r),
    {
        let slice_idx = match self.first_available_slice_idx() {
            Some(i) => i,
            None => {
                proof {
                    let w = choose|i: int|
                        0 <= i < self.slices@.len() && !(#[trigger] self.slices@[i]).spec_is_allocated();
                    assert(self.slices@[w].spec_is_allocated());
                }
                0
            },
        };
        let vertex_alloc = match self.vertex_allocator.allocate(num_vertices as u64) {
            Some(a) => a,
            None => LinearBlockAllocation { start: 0, end: 0 },
        };
        let index_alloc = match self.index_allocator.allocate(num_indices as u64) {
            Some(a) => a,
            None => LinearBlockAllocation { start: 0, end: 0 },
        };
        let slice = VertexPoolSlice::new(
            vertex_alloc.start as u32,
            num_vertices,
            index_alloc.start as u32,
            num_indices,
        );
        self.slices.set(slice_idx, slice);
        let r = VertexPoolAlloc { vertex_alloc, index_alloc, index: slice_idx as u32 };
        proof {
            if pool_sound(*old(self)) {
                lemma_allocate_keeps_pool_sound(*old(self), num_vertices, num_indices, r, *self);
            }
        }
        r
    }

    /// Whether `free(alloc)` can proceed: both ranges are recorded as allocated, neither ends
    /// before it starts, and the slot exists.
    pub fn can_free(&self, alloc: &VertexPoolAlloc) -> (b: bool)
        ensures
            b == (alloc.vertex_alloc.start <= alloc.vertex_alloc.end
                && self.spec_vertices().used.contains_key(alloc.vertex_alloc.start)
                && alloc.index_alloc.start <= alloc.index_alloc.end
                && self.spec_indices().used.contains_key(alloc.index_alloc.start)
                && alloc.index < MAX_VERTEX_POOL_SLICES),
    {
        alloc.vertex_alloc.start <= alloc.vertex_alloc.end && self.vertex_allocator.is_allocated(
            alloc.vertex_alloc.start,
        ) && alloc.index_alloc.start <= alloc.index_alloc.end && self.index_allocator.is_allocated(
            alloc.index_alloc.start,
        ) && (alloc.index as usize) < MAX_VERTEX_POOL_SLICES
    }

    /// Returns a mesh's vertex and index ranges to their allocators and empties its slot.
    pub fn free(&mut self, alloc: &VertexPoolAlloc)
        requires
            old(self).wf(),
            alloc.vertex_alloc.start <= alloc.vertex_alloc.end,
            old(self).spec_vertices().used.contains_key(alloc.vertex_alloc.start),
            alloc.index_alloc.start <= alloc.index_alloc.end,
            old(self).spec_indices().used.contains_key(alloc.index_alloc.start),
            alloc.index < MAX_VERTEX_POOL_SLICES,
        ensures
            final(self).wf(),
            free_mesh_post(*old(self), *alloc, *final(self)),
            pool_sound(*old(self)) && alloc_matches(*old(self), *alloc) && alloc.index_alloc.start
                < alloc.index_alloc.end ==> pool_sound(*final(self)),
    {
        self.vertex_allocator.free(alloc.vertex_alloc);
        self.index_allocator.free(alloc.index_alloc);
        let i = alloc.index as usize;
        let old_slice = self.slices[i];
        let slice = VertexPoolSlice::new(old_slice.first_vertex, 0, old_slice.first_index, old_slice.num_indices);
        self.slices.set(i, slice);
        proof {
            if pool_sound(*old(self)) && alloc_matches(*old(self), *alloc) && alloc.index_alloc.start
                < alloc.index_alloc.end {
                lemma_free_keeps_pool_sound(*old(self), *alloc, *self);
            }
        }
    }

    /// Records the material slots of one submitted instance: static instances fill the static
    /// slot list, dynamic ones the dynamic list and count one more dynamic instance.
    pub fn submit_slice_instance(&mut self, is_static: bool, materials: &[Arc<GpuMaterial>])
        requires
            old(self).wf(),
            materials@.len() < MAX_MATERIALS_PER_INSTANCE,
            !is_static ==> old(self).spec_dynamic_instance_count() + 1 < MAX_DYNAMIC_INSTANCES,
        ensures
            final(self).wf(),
            pool_sound(*old(self)) ==> pool_sound(*final(self)),
            final(self).spec_vertices() == old(self).spec_vertices(),
            final(self).spec_indices() == old(self).spec_indices(),
            final(self).spec_slices() == old(self).spec_slices(),
            final(self).spec_frame_idx() == old(self).spec_frame_idx(),
            is_static ==> {
                &&& final(self).spec_static_material_indices() == old(self).spec_static_material_indices()
                    + instance_material_slots(materials@)
                &&& final(self).spec_dynamic_material_indices() == old(self).spec_dynamic_material_indices()
                &&& final(self).spec_dynamic_instance_count() == old(self).spec_dynamic_instance_count()
            },
            !is_static ==> {
                &&& final(self).spec_dynamic_material_indices() == old(self).spec_dynamic_material_indices()
                    + instance_material_slots(materials@)
                &&& final(self).spec_static_material_indices() == old(self).spec_static_material_indices()
                &&& final(self).spec_dynamic_instance_count() == old(self).spec_dynamic_instance_count() + 1
            },
    {
        let mut slots: Vec<u32> = Vec::new();
        let mut i: usize = 0;
        while i < materials.len()
            invariant
                i <= materials@.len(),
                slots@ == materials@.subrange(0, i as int).map_values(|m: Arc<GpuMaterial>| m.material_idx),
            decreases materials@.len() - i,
        {
            slots.push(materials[i].material_idx);
            i += 1;
            proof {
                assert(materials@.subrange(0, i as int) == materials@.subrange(0, i - 1).push(materials@[i - 1]));
            }
        }
        let mut pad: usize = 0;
        let pad_len = MAX_MATERIALS_PER_INSTANCE - materials.len();
        while pad < pad_len
            invariant
                pad <= pad_len,
                pad_len == MAX_MATERIALS_PER_INSTANCE - materials@.len(),
                slots@ == materials@.map_values(|m: Arc<GpuMaterial>| m.material_idx) + Seq::new(
                    pad as nat,
                    |j: int| 0u32,
                ),
            decreases pad_len - pad,
        {
            slots.push(0);
            pad += 1;
            proof {
                assert(slots@ =~= materials@.map_values(|m: Arc<GpuMaterial>| m.material_idx) + Seq::new(
                    pad as nat,
                    |j: int| 0u32,
                ));
            }
        }
        proof {
            assert(materials@.subrange(0, materials@.len() as int) == materials@);
        }
        if is_static {
            self.static_material_indices.append(&mut slots);
        } else {
            self.dynamic_instance_count = self.dynamic_instance_count + 1;
            self.dynamic_material_indices.append(&mut slots);
        }
        proof {
            if pool_sound(*old(self)) {
                lemma_pool_sound_same_placement(*old(self), *self);
            }
        }
    }

    /// Forgets what was submitted this frame and moves on to the next frame.
    pub fn end_frame(&mut self)
        requires
            old(self).wf(),
        ensures
            final(self).wf(),
            pool_sound(*old(self)) ==> pool_sound(*final(self)),
            final(self).spec_vertices() == old(self).spec_vertices(),
            final(self).spec_indices() == old(self).spec_indices(),
            final(self).spec_slices() == old(self).spec_slices(),
            final(self).spec_dynamic_instance_count() == 0,
            final(self).spec_static_material_indices() == Seq::<u32>::empty(),
            final(self).spec_dynamic_material_indices() == Seq::<u32>::empty(),
            final(self).spec_frame_idx() == old(self).spec_frame_idx().wrapping_add(1),
    {
        self.dynamic_instance_count = 0;
        self.static_material_indices.clear();
        self.dynamic_material_indices.clear();
        self.frame_idx = self.frame_idx.wrapping_add(1);
        proof {
            if pool_sound(*old(self)) {
                lemma_pool_sound_same_placement(*old(self), *self);
            }
        }
    }

    /// Byte offsets at which a mesh's vertices, indices and triangle material indices are
    /// written, for vertices of `vertex_stride` bytes and 4-byte indices.
    pub fn write_offsets(&self, alloc: &VertexPoolAlloc, vertex_stride: u64) -> (r: (u64, u64, u64))
        requires
            self.wf(),
            alloc.index < MAX_VERTEX_POOL_SLICES,
            vertex_stride <= u32::MAX,
        ensures
            r.0 == self.spec_slices()[alloc.index as int].spec_first_vertex() * vertex_stride,
            r.1 == self.spec_slices()[alloc.index as int].spec_first_index() * 4,
            r.2 == self.spec_slices()[alloc.index as int].spec_first_index() / 3 * 4,
    {
        let slice = &self.slices[alloc.index as usize];
        let first_vertex = slice.first_vertex as u64;
        assert(first_vertex * vertex_stride <= u32::MAX as u64 * u32::MAX as u64) by (nonlinear_arith)
            requires first_vertex <= u32::MAX, vertex_stride <= u32::MAX;
        let vertex_offset = first_vertex * vertex_stride;
        let index_offset = slice.first_index as u64 * 4;
        let triangle_offset = (slice.first_index / 3) as u64 * 4;
        (vertex_offset, index_offset, triangle_offset)
    }

    /// Every slice slot, as uploaded to the GPU.
    pub fn slices(&self) -> (r: &Vec<VertexPoolSlice>)
        ensures
            r@ == self.spec_slices(),
    {
        &self.slices
    }

    /// The material slots of this frame's static instances, as uploaded to the GPU.
    pub fn static_material_indices(&self) -> (r: &Vec<u32>)
        ensures
            r@ == self.spec_static_material_indices(),
    {
        &self.static_material_indices
    }

    /// The material slots of this frame's dynamic instances, as uploaded to the GPU.
    pub fn dynamic_material_indices(&self) -> (r: &Vec<u32>)
        ensures
            r@ == self.spec_dynamic_material_indices(),
    {
        &self.dynamic_material_indices
    }

    /// How many dynamic instances were submitted this frame.
    pub fn dynamic_instance_count(&self) -> (r: usize)
        ensures
            r == self.spec_dynamic_instance_count(),
    {
        self.dynamic_instance_count
    }
}

} // verus!
