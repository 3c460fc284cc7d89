use three_rs::batched::{
    indirect_texture_side, matrices_texture_side, BatchedMesh, GeometryShape, Index, SubDraw,
};

fn indexed(vertex_count: usize, index: &[u32]) -> GeometryShape {
    GeometryShape { vertex_count, index: Some(index.to_vec()) }
}

fn plain(vertex_count: usize) -> GeometryShape {
    GeometryShape { vertex_count, index: None }
}

#[test]
fn texture_sides_are_the_smallest_squares_that_fit() {
    assert_eq!(indirect_texture_side(0), 1);
    assert_eq!(indirect_texture_side(1), 1);
    assert_eq!(indirect_texture_side(2), 2);
    assert_eq!(indirect_texture_side(4), 2);
    assert_eq!(indirect_texture_side(5), 3);
    assert_eq!(indirect_texture_side(1000), 32);
    assert_eq!(matrices_texture_side(0), 4);
    assert_eq!(matrices_texture_side(4), 4);
    assert_eq!(matrices_texture_side(5), 8);
    assert_eq!(matrices_texture_side(16), 8);
    assert_eq!(matrices_texture_side(17), 12);
}

#[test]
fn a_new_batch_is_empty_and_stale() {
    let batch = BatchedMesh::new(5, 100, 300);
    assert_eq!(batch.max_instance_count(), 5);
    assert_eq!(batch.instance_count(), 0);
    assert_eq!(batch.multi_draw_count(), 0);
    assert!(batch.per_object_frustum_culled);
    assert!(batch.sort_objects);
    assert!(batch.index().is_none());
    assert_eq!(batch.indirect_prefix(9), vec![0; 9]);
    assert_eq!(batch.geometry_range_at(0), None);
}

#[test]
fn geometries_are_packed_back_to_back() {
    let mut batch = BatchedMesh::new(4, 100, 100);
    let first = batch.add_geometry(&indexed(3, &[0, 1, 2]));
    let second = batch.add_geometry(&indexed(4, &[0, 1, 2, 2, 3, 0]));
    assert_eq!((first, second), (0, 1));

    let a = batch.geometry_range_at(first).unwrap();
    assert_eq!((a.vertex_start, a.reserved_vertex_count, a.vertex_count), (0, 3, 3));
    assert_eq!((a.index_start, a.reserved_index_count, a.index_count), (0, 3, 3));
    assert_eq!((a.start, a.count), (0, 3));

    let b = batch.geometry_range_at(second).unwrap();
    assert_eq!((b.vertex_start, b.reserved_vertex_count), (3, 4));
    assert_eq!((b.index_start, b.reserved_index_count), (3, 6));
    assert_eq!((b.start, b.count), (3, 6));
    assert_eq!(batch.geometry_range_at(2), None);

    match batch.index() {
        Some(Index::U16(values)) => {
            assert_eq!(values.len(), 100);
            assert_eq!(&values[..9], &[0, 1, 2, 3, 4, 5, 5, 6, 3]);
            assert!(values[9..].iter().all(|&v| v == 0));
        }
        other => panic!("expected a 16-bit index, got {:?}", other),
    }
}

#[test]
fn a_smaller_geometry_pads_its_reservation_with_its_first_vertex() {
    let mut batch = BatchedMesh::new(2, 20, 20);
    batch.add_geometry(&indexed(2, &[0, 1, 1, 0]));
    let id = batch.add_geometry(&indexed(4, &[0, 1, 2, 3, 2, 1]));
    assert_eq!(batch.set_geometry_at(id, &indexed(3, &[2, 1, 0])), id);

    let info = batch.geometry_range_at(id).unwrap();
    assert_eq!((info.vertex_start, info.vertex_count, info.reserved_vertex_count), (2, 3, 4));
    assert_eq!((info.index_start, info.index_count, info.reserved_index_count), (4, 3, 6));
    assert_eq!((info.start, info.count), (4, 3));
    match batch.index() {
        Some(Index::U16(values)) => assert_eq!(&values[..10], &[0, 1, 1, 0, 4, 3, 2, 2, 2, 2]),
        other => panic!("expected a 16-bit index, got {:?}", other),
    }
}

#[test]
fn many_vertices_need_a_wide_index() {
    let mut batch = BatchedMesh::new(1, 70_000, 6);
    batch.add_geometry(&indexed(3, &[0, 1, 2]));
    batch.add_geometry(&indexed(3, &[2, 1, 0]));
    match batch.index() {
        Some(Index::U32(values)) => assert_eq!(values, &vec![0, 1, 2, 5, 4, 3]),
        other => panic!("expected a 32-bit index, got {:?}", other),
    }
}

#[test]
fn the_unsorted_list_keeps_instance_order_and_drops_the_culled() {
    let mut batch = BatchedMesh::new(4, 100, 100);
    batch.sort_objects = false;
    let g0 = batch.add_geometry(&indexed(3, &[0, 1, 2]));
    let g1 = batch.add_geometry(&indexed(4, &[0, 1, 2, 0, 2, 3]));
    assert_eq!(batch.add_instance(g1), 0);
    assert_eq!(batch.add_instance(g0), 1);
    assert_eq!(batch.add_instance(g1), 2);
    assert_eq!(batch.instance_count(), 3);

    batch.on_before_render(&[false, true, false], &[]);
    assert_eq!(batch.multi_draw_count(), 2);
    assert_eq!(
        batch.sub_draws(),
        vec![
            SubDraw { first_index: 3, index_count: 6, first_instance: 0 },
            SubDraw { first_index: 3, index_count: 6, first_instance: 1 },
        ]
    );
    assert_eq!(batch.indirect_prefix(2), vec![0, 2]);
}

#[test]
fn the_sorted_list_follows_the_given_order() {
    let mut batch = BatchedMesh::new(3, 100, 100);
    let g0 = batch.add_geometry(&indexed(3, &[0, 1, 2]));
    let g1 = batch.add_geometry(&indexed(4, &[0, 1, 2, 0, 2, 3]));
    batch.add_instance(g0);
    batch.add_instance(g1);
    batch.add_instance(g0);

    // Nothing culled; the depth sort put instance 2 first, then 0, then 1.
    batch.on_before_render(&[false, false, false], &[2, 0, 1]);
    assert_eq!(batch.indirect_prefix(3), vec![2, 0, 1]);
    assert_eq!(
        batch.sub_draws(),
        vec![
            SubDraw { first_index: 0, index_count: 3, first_instance: 0 },
            SubDraw { first_index: 0, index_count: 3, first_instance: 1 },
            SubDraw { first_index: 3, index_count: 6, first_instance: 2 },
        ]
    );
}

#[test]
fn a_list_left_alone_is_kept() {
    let mut batch = BatchedMesh::new(3, 10, 10);
    let g = batch.add_geometry(&indexed(3, &[0, 1, 2]));
    batch.add_instance(g);
    batch.add_instance(g);
    batch.per_object_frustum_culled = false;
    batch.sort_objects = false;
    batch.on_before_render(&[false, false], &[]);
    assert_eq!(batch.multi_draw_count(), 2);
    // Nothing changed since, and neither a cull nor a sort runs: the list
    // stands even though the flags now cull an instance.
    batch.on_before_render(&[true, true], &[]);
    assert_eq!(batch.multi_draw_count(), 2);
    // A new instance makes the list stale again; with neither a cull nor a
    // sort running, the rebuilt list drops no instance whatever the flags.
    batch.add_instance(g);
    batch.on_before_render(&[true, false, true], &[]);
    assert_eq!(batch.multi_draw_count(), 3);
    assert_eq!(batch.indirect_prefix(3), vec![0, 1, 2]);
}

#[test]
fn a_plain_batch_draws_vertex_ranges() {
    let mut batch = BatchedMesh::new(2, 50, 0);
    batch.sort_objects = false;
    let g0 = batch.add_geometry(&plain(6));
    let g1 = batch.add_geometry(&plain(9));
    let info = batch.geometry_range_at(g1).unwrap();
    assert_eq!((info.vertex_start, info.index_start, info.start, info.count), (6, -1, 6, 9));
    batch.add_instance(g1);
    batch.add_instance(g0);
    batch.on_before_render(&[false, false], &[]);
    assert_eq!(
        batch.sub_draws(),
        vec![
            SubDraw { first_index: 6, index_count: 9, first_instance: 0 },
            SubDraw { first_index: 0, index_count: 6, first_instance: 1 },
        ]
    );
    assert!(batch.index().is_none());
}

#[test]
fn reservations_of_two_geometries_do_not_overlap() {
    let mut batch = BatchedMesh::new(1, 30, 30);
    let shapes = [indexed(3, &[0, 1, 2]), indexed(5, &[0, 1, 2, 3, 4, 0]), indexed(2, &[1, 0])];
    let ids: Vec<usize> = shapes.iter().map(|s| batch.add_geometry(s)).collect();
    for pair in ids.windows(2) {
        let a = batch.geometry_range_at(pair[0]).unwrap();
        let b = batch.geometry_range_at(pair[1]).unwrap();
        assert!(a.vertex_start + a.reserved_vertex_count <= b.vertex_start);
        assert!(a.index_start + a.reserved_index_count as isize <= b.index_start);
    }
}

#[test]
fn each_survivor_is_drawn_once() {
    let mut batch = BatchedMesh::new(6, 10, 10);
    let g = batch.add_geometry(&indexed(3, &[0, 1, 2]));
    for _ in 0..6 {
        batch.add_instance(g);
    }
    let culled = [true, false, false, true, false, false];
    batch.on_before_render(&culled, &[3, 1, 0, 2]);
    let mut drawn = batch.indirect_prefix(batch.multi_draw_count());
    assert_eq!(drawn, vec![5, 2, 1, 4]);
    drawn.sort();
    assert_eq!(drawn, vec![1, 2, 4, 5]);
}

#[test]
fn each_geometry_starts_after_everything_added_before() {
    let mut batch = BatchedMesh::new(1, 40, 40);
    let counts = [(3, vec![0, 1, 2]), (4, vec![0, 1, 2, 2, 3, 0]), (5, vec![4, 3, 2])];
    let mut vertices = 0;
    let mut indices = 0;
    for (vertex_count, index) in counts.iter() {
        let id = batch.add_geometry(&indexed(*vertex_count, index));
        let range = batch.geometry_range_at(id).unwrap();
        assert_eq!(range.vertex_start, vertices);
        assert_eq!(range.index_start, indices as isize);
        vertices += range.reserved_vertex_count;
        indices += range.reserved_index_count;
    }
}

#[test]
fn the_depth_sort_is_nearest_first_or_farthest_first_and_stable() {
    assert_eq!(three_rs::batched::depth_order(&[5, -2, 5, 0], false), vec![1, 3, 0, 2]);
    assert_eq!(three_rs::batched::depth_order(&[5, -2, 5, 0], true), vec![0, 2, 3, 1]);
    assert_eq!(three_rs::batched::depth_order(&[], false), Vec::<usize>::new());
}
