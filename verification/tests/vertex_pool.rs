use std::sync::Arc;
use terrarium::vertex_pool::{
    GpuMaterial, VertexPool, MAX_MATERIALS_PER_INSTANCE, MAX_VERTEX_POOL_SLICES,
    MAX_VERTEX_POOL_VERTICES,
};

#[test]
fn new_pool_is_empty() {
    let pool = VertexPool::new();
    assert_eq!(pool.slices().len(), MAX_VERTEX_POOL_SLICES);
    assert!(pool.slices().iter().all(|s| s.num_vertices() == 0));
    assert_eq!(pool.first_available_slice_idx(), Some(0));
    assert_eq!(pool.dynamic_instance_count(), 0);
    assert!(pool.static_material_indices().is_empty());
}

#[test]
fn allocate_places_meshes_one_after_another() {
    let mut pool = VertexPool::new();
    let a = pool.allocate(3, 6);
    assert_eq!(a.index, 0);
    assert_eq!((a.vertex_alloc.start, a.vertex_alloc.end), (0, 3));
    assert_eq!((a.index_alloc.start, a.index_alloc.end), (0, 6));
    let b = pool.allocate(4, 9);
    assert_eq!(b.index, 1);
    assert_eq!((b.vertex_alloc.start, b.vertex_alloc.end), (3, 7));
    assert_eq!((b.index_alloc.start, b.index_alloc.end), (6, 15));
    let s = pool.slices()[1];
    assert_eq!(
        (s.first_vertex(), s.num_vertices(), s.first_index(), s.num_indices()),
        (3, 4, 6, 9)
    );
}

#[test]
fn free_empties_the_slot_and_returns_the_ranges() {
    let mut pool = VertexPool::new();
    let a = pool.allocate(3, 6);
    let _b = pool.allocate(4, 9);
    pool.free(&a);
    assert_eq!(pool.slices()[0].num_vertices(), 0);
    assert_eq!(pool.slices()[0].num_indices(), 6);
    assert_eq!(pool.first_available_slice_idx(), Some(0));
    let c = pool.allocate(2, 3);
    assert_eq!(c.index, 0);
    assert_eq!((c.vertex_alloc.start, c.vertex_alloc.end), (0, 2));
    assert_eq!((c.index_alloc.start, c.index_alloc.end), (0, 3));
}

#[test]
fn pool_free_undoes_allocate() {
    let mut pool = VertexPool::new();
    let a = pool.allocate(10, 30);
    pool.free(&a);
    assert!(pool.can_alloc(MAX_VERTEX_POOL_VERTICES as u32, 1));
    let b = pool.allocate(MAX_VERTEX_POOL_VERTICES as u32, 1);
    assert_eq!(b.vertex_alloc.start, 0);
}

#[test]
fn can_alloc_reports_missing_room() {
    let pool = VertexPool::new();
    assert!(pool.can_alloc(1, 1));
    assert!(!pool.can_alloc(u32::MAX, 1));
}

#[test]
fn submitted_instances_fill_material_slots() {
    let mut pool = VertexPool::new();
    let materials = vec![
        Arc::new(GpuMaterial { material_idx: 7 }),
        Arc::new(GpuMaterial { material_idx: 9 }),
    ];
    pool.submit_slice_instance(true, &materials);
    let s = pool.static_material_indices();
    assert_eq!(s.len(), MAX_MATERIALS_PER_INSTANCE);
    assert_eq!(&s[..3], &[7, 9, 0]);
    assert!(s[2..].iter().all(|&m| m == 0));
    assert_eq!(pool.dynamic_instance_count(), 0);

    pool.submit_slice_instance(false, &materials[..1]);
    pool.submit_slice_instance(false, &[]);
    let d = pool.dynamic_material_indices();
    assert_eq!(d.len(), 2 * MAX_MATERIALS_PER_INSTANCE);
    assert_eq!(d[0], 7);
    assert_eq!(d[1], 0);
    assert_eq!(pool.dynamic_instance_count(), 2);

    pool.end_frame();
    assert!(pool.static_material_indices().is_empty());
    assert!(pool.dynamic_material_indices().is_empty());
    assert_eq!(pool.dynamic_instance_count(), 0);
}

#[test]
fn write_offsets_are_in_bytes() {
    let mut pool = VertexPool::new();
    let _a = pool.allocate(5, 7);
    let b = pool.allocate(3, 6);
    assert_eq!(pool.write_offsets(&b, 32), (5 * 32, 7 * 4, 7 / 3 * 4));
}

#[test]
fn can_free_only_live_meshes() {
    let mut pool = VertexPool::new();
    let a = pool.allocate(3, 6);
    assert!(pool.can_free(&a));
    pool.free(&a);
    assert!(!pool.can_free(&a));
}

#[test]
fn live_meshes_never_share_vertices() {
    let mut pool = VertexPool::new();
    let a = pool.allocate(10, 30);
    let b = pool.allocate(20, 60);
    let c = pool.allocate(5, 15);
    pool.free(&b);
    let d = pool.allocate(7, 21);
    let e = pool.allocate(13, 39);
    let live = [&a, &c, &d, &e];
    for (i, x) in live.iter().enumerate() {
        for y in live.iter().skip(i + 1) {
            let v = x.vertex_alloc.end <= y.vertex_alloc.start || y.vertex_alloc.end <= x.vertex_alloc.start;
            let ix = x.index_alloc.end <= y.index_alloc.start || y.index_alloc.end <= x.index_alloc.start;
            assert!(v && ix);
            assert_ne!(x.index, y.index);
        }
    }
    assert_eq!((d.vertex_alloc.start, d.vertex_alloc.end), (10, 17));
    assert_eq!((e.vertex_alloc.start, e.vertex_alloc.end), (17, 30));
}
