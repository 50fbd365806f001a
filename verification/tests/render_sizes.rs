use gcode_viewer::gcode_render::{
    geometry_buffer_sizes, GCodeRenderData, GeometryBufferSizes, Point, SegmentRange,
};

fn point(x: f32) -> Point<f32> {
    Point { p: [x, 0.0, 0.0], _padding: 0.0 }
}

#[test]
fn empty_render_data_needs_empty_buffers() {
    let data: GCodeRenderData<f32> = GCodeRenderData::default();
    assert!(data.points.is_empty());
    assert!(data.segment_ranges.is_empty());
    assert_eq!(data.vertex_count, 0);
    assert_eq!(data.index_count, 0);
    assert_eq!(
        geometry_buffer_sizes(&data),
        GeometryBufferSizes {
            points: 0,
            ranges: 0,
            vertices: 0,
            indices: 0,
            point_count: 0,
            range_count: 0,
            index_count: 0,
        }
    );
}

#[test]
fn buffer_sizes_follow_record_sizes() {
    let data = GCodeRenderData {
        points: vec![point(1.0), point(2.0), point(3.0)],
        segment_ranges: vec![SegmentRange { start_vertex: 0, end_vertex: 0, start_index: 0 }; 2],
        vertex_count: 12,
        index_count: 6,
    };
    let sizes = geometry_buffer_sizes(&data);
    assert_eq!(sizes.points, 48);
    assert_eq!(sizes.ranges, 24);
    assert_eq!(sizes.vertices, 336);
    assert_eq!(sizes.indices, 24);
    assert_eq!(sizes.point_count, 3);
    assert_eq!(sizes.range_count, 2);
    assert_eq!(sizes.index_count, 6);
}

#[test]
fn record_sizes_match_the_gpu_layout() {
    assert_eq!(std::mem::size_of::<SegmentRange>() as u64, gcode_viewer::gcode_render::SEGMENT_RANGE_BYTES);
    assert_eq!(std::mem::size_of::<Point<f32>>() as u64, gcode_viewer::gcode_render::POINT_BYTES);
}

#[test]
fn large_counters_do_not_overflow_byte_sizes() {
    let data: GCodeRenderData<f32> = GCodeRenderData {
        points: Vec::new(),
        segment_ranges: Vec::new(),
        vertex_count: u32::MAX,
        index_count: u32::MAX,
    };
    let sizes = geometry_buffer_sizes(&data);
    assert_eq!(sizes.vertices, 28 * u32::MAX as u64);
    assert_eq!(sizes.indices, 4 * u32::MAX as u64);
    assert_eq!(sizes.index_count, u32::MAX);
}

#[test]
fn segment_range_default_is_zero() {
    assert_eq!(SegmentRange::default(), SegmentRange { start_vertex: 0, end_vertex: 0, start_index: 0 });
}
