use radiant_rs::backend::{blit_coords, index_buffer_data, needs_index_buffer_update, VertexBufferCache, MAX_BUFFERS};

#[test]
fn index_data_for_two_quads() {
    assert_eq!(index_buffer_data(2), vec![0, 1, 2, 1, 3, 2, 4, 5, 6, 5, 7, 6]);
    assert_eq!(index_buffer_data(0), Vec::<u32>::new());
    assert_eq!(index_buffer_data(512).len(), 3072);
}

#[test]
fn index_buffer_update_decision() {
    assert!(needs_index_buffer_update(2, 11));
    assert!(!needs_index_buffer_update(2, 12));
    assert!(!needs_index_buffer_update(0, 0));
}

#[test]
fn blit_coordinates_flip_vertically() {
    let (source, target) = blit_coords(((10, 20), (30, 40)), 100, ((1, 2), (3, 4)), 50);
    assert_eq!(source, (10, 40, 30, 40));
    assert_eq!(target, (1, 44, 3, 4));
    let (source, _) = blit_coords(((-1, 90), (5, 20)), 100, ((0, 0), (1, 1)), 1);
    assert_eq!(source, (u32::MAX, (-10i32) as u32, 5, 20));
}

#[test]
fn vertex_cache_reuses_fitting_buffers() {
    let mut cache = VertexBufferCache::new();
    assert_eq!(cache.select_vertex_buffer(0, 100), (0, true));
    assert_eq!(cache.select_vertex_buffer(1, 100), (1, true));
    assert_eq!(cache.select_vertex_buffer(0, 50), (0, false));
    assert_eq!(cache.slots()[0].age, 0);
    assert_eq!(cache.slots()[1].age, 1);
    assert_eq!(cache.select_vertex_buffer(0, 200), (2, true));
    assert_eq!(cache.slots()[2].capacity, 200);
}

#[test]
fn vertex_cache_replaces_oldest_when_full() {
    let mut cache = VertexBufferCache::new();
    for i in 0..MAX_BUFFERS {
        assert_eq!(cache.select_vertex_buffer(i, 10), (i, true));
    }
    // slot 0 is the oldest now
    assert_eq!(cache.select_vertex_buffer(99, 10), (0, true));
    assert_eq!(cache.slots()[0].hint, 99);
    // refresh slots 1 and 2 so that slot 3 is the oldest
    assert_eq!(cache.select_vertex_buffer(1, 5), (1, false));
    assert_eq!(cache.select_vertex_buffer(2, 5), (2, false));
    assert_eq!(cache.select_vertex_buffer(77, 10), (3, true));
    assert_eq!(cache.slots().len(), MAX_BUFFERS);
}

#[test]
fn vertex_cache_prefers_the_last_of_equally_old() {
    let mut cache = VertexBufferCache::new();
    for i in 0..MAX_BUFFERS {
        cache.select_vertex_buffer(i, 10);
    }
    // make all ages equal by touching nothing else: ages are 9,8,...,0 now
    for i in (0..MAX_BUFFERS).rev() {
        cache.select_vertex_buffer(i, 1);
    }
    let ages: Vec<usize> = cache.slots().iter().map(|s| s.age).collect();
    assert_eq!(ages, vec![0, 1, 2, 3, 4, 5, 6, 7, 8, 9]);
    assert_eq!(cache.select_vertex_buffer(50, 10), (9, true));
}
