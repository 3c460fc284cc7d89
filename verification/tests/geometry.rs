use three_rs::geometry::{
    first_upload_writes, AttributeState, GeometryRecord, IndexFormat, Primitive, RefreshPlan, SlotRefresh, UploadedSlot,
};
use three_rs::info::Topology;

fn attribute(version: u32, count: u32) -> AttributeState {
    AttributeState { version, count, byte_len: count as u64 * 12 }
}

#[test]
fn a_first_upload_records_each_buffer_at_its_version() {
    let record = GeometryRecord::upload(Some(attribute(2, 24)), None, Some(attribute(0, 24)));
    assert_eq!(record.position, UploadedSlot { buffer_size: Some(288), version: 2 });
    assert_eq!(record.normal, UploadedSlot { buffer_size: None, version: 0 });
    assert_eq!(record.uv.buffer_size, Some(288));
    assert_eq!(record.vertex_count, 24);
    assert_eq!(GeometryRecord::upload(None, None, None).vertex_count, 0);
}

#[test]
fn a_first_upload_writes_one_buffer_per_attribute_and_the_index() {
    let a = Some(attribute(0, 3));
    assert_eq!(first_upload_writes(a, a, a, 0, true), 4);
    assert_eq!(first_upload_writes(a, None, None, 2, false), 3);
    assert_eq!(first_upload_writes(None, None, None, 0, false), 0);
}

#[test]
fn a_moved_vertex_costs_one_buffer_written_in_place() {
    let mut record = GeometryRecord::upload(Some(attribute(0, 24)), Some(attribute(0, 24)), None);
    let plan = record.refresh(Some(attribute(1, 24)), Some(attribute(0, 24)), None);
    assert_eq!(plan, RefreshPlan {
        position: SlotRefresh::WriteInPlace,
        normal: SlotRefresh::Keep,
        uv: SlotRefresh::Keep,
    });
    assert_eq!(plan.buffers_written(), 1);
    assert_eq!(record.position.version, 1);
}

#[test]
fn a_new_length_reallocates_and_sets_the_vertex_count() {
    let mut record = GeometryRecord::upload(Some(attribute(0, 24)), None, None);
    let plan = record.refresh(Some(attribute(1, 36)), None, None);
    assert_eq!(plan.position, SlotRefresh::Reallocate);
    assert_eq!(record.position.buffer_size, Some(432));
    assert_eq!(record.vertex_count, 36);
}

#[test]
fn an_attribute_added_after_the_upload_is_not_written() {
    let mut record = GeometryRecord::upload(Some(attribute(0, 24)), None, None);
    let plan = record.refresh(Some(attribute(0, 24)), Some(attribute(3, 24)), None);
    assert_eq!(plan.buffers_written(), 0);
    assert_eq!(record.normal, UploadedSlot { buffer_size: None, version: 0 });
}

#[test]
fn an_unchanged_geometry_writes_nothing_the_second_time() {
    let attributes = (Some(attribute(4, 24)), Some(attribute(2, 24)), Some(attribute(0, 24)));
    let mut record = GeometryRecord::upload(Some(attribute(0, 24)), Some(attribute(0, 24)), Some(attribute(0, 24)));
    let first = record.refresh(attributes.0, attributes.1, attributes.2);
    assert_eq!(first.buffers_written(), 2);
    let second = record.refresh(attributes.0, attributes.1, attributes.2);
    assert_eq!(second.buffers_written(), 0);
}

#[test]
fn an_object_kind_picks_its_topology() {
    assert_eq!(Primitive::of(true, false, false, None).topology, Topology::PointList);
    assert_eq!(Primitive::of(false, true, true, None).topology, Topology::LineList);
    assert_eq!(Primitive::of(false, true, false, None).topology, Topology::LineStrip);
    assert_eq!(Primitive::of(false, false, false, Some(IndexFormat::Uint16)), Primitive::triangles());
}

#[test]
fn only_an_indexed_line_strip_gets_a_strip_index_format() {
    assert_eq!(
        Primitive::of(false, true, false, Some(IndexFormat::Uint32)).strip_index_format,
        Some(IndexFormat::Uint32)
    );
    assert_eq!(Primitive::of(false, true, true, Some(IndexFormat::Uint16)).strip_index_format, None);
    assert_eq!(Primitive::of(false, false, false, Some(IndexFormat::Uint16)).strip_index_format, None);
    assert_eq!(Primitive::of(false, true, false, None).strip_index_format, None);
}

#[test]
fn a_draw_range_is_clamped_to_what_the_geometry_has() {
    assert_eq!(three_rs::geometry::draw_span(36, 0, None), (0, 36));
    assert_eq!(three_rs::geometry::draw_span(36, 6, Some(12)), (6, 12));
    assert_eq!(three_rs::geometry::draw_span(36, 30, Some(12)), (30, 6));
    assert_eq!(three_rs::geometry::draw_span(36, 40, Some(12)), (36, 0));
    assert_eq!(three_rs::geometry::draw_span(0, 0, None), (0, 0));
}
