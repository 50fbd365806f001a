//! The geometry that the parser hands to the renderer, and the byte sizes of
//! the GPU buffers that hold it.

use vstd::prelude::*;

verus! {

/// A run of toolpath vertices drawn as one connected line strip.
///
/// `start_vertex` and `end_vertex` are point indices; `start_index` is the
/// first entry of the index buffer that belongs to the run.
#[derive(Clone, Copy, Debug, PartialEq, Eq, Structural)]
pub struct SegmentRange {
    pub start_vertex: u32,
    pub end_vertex: u32,
    pub start_index: u32,
}

impl SegmentRange {
    /// The range that starts at vertex 0 and index 0 and is still empty.
    pub open spec fn zero() -> SegmentRange {
        SegmentRange { start_vertex: 0, end_vertex: 0, start_index: 0 }
    }
}

impl Default for SegmentRange {
    fn default() -> (r: SegmentRange)
        ensures
            r == SegmentRange::zero(),
    {
        SegmentRange { start_vertex: 0, end_vertex: 0, start_index: 0 }
    }
}

/// A toolpath point: its position in render space and one word of padding
/// that keeps the record four coordinates wide.
#[derive(Clone, Copy, Debug)]
pub struct Point<V> {
    pub p: [V; 3],
    pub _padding: V,
}

/// Everything the renderer needs to draw a loaded toolpath.
pub struct GCodeRenderData<V> {
    pub points: Vec<Point<V>>,
    pub segment_ranges: Vec<SegmentRange>,
    pub vertex_count: u32,
    pub index_count: u32,
}

impl<V> GCodeRenderData<V> {
    /// No points, no segments, no vertices and no indices.
    pub open spec fn is_empty(&self) -> bool {
        &&& self.points@.len() == 0
        &&& self.segment_ranges@.len() == 0
        &&& self.vertex_count == 0
        &&& self.index_count == 0
    }

    /// Render data that holds nothing.
    pub fn default() -> (r: Self)
        ensures
            r.is_empty(),
    {
        GCodeRenderData {
            points: Vec::new(),
            segment_ranges: Vec::new(),
            vertex_count: 0,
            index_count: 0,
        }
    }
}

/// Bytes of one point record in the point buffer: three 32-bit coordinates
/// and a 32-bit pad.
pub const POINT_BYTES: u64 = 16;

/// Bytes of one segment record in the range buffer: three 32-bit counters.
pub const SEGMENT_RANGE_BYTES: u64 = 12;

/// Bytes of one generated vertex: a 32-bit position triple, a 32-bit
/// distance and a 32-bit normal triple.
pub const VERTEX_BYTES: u64 = 28;

/// Bytes of one entry of the index buffer.
pub const INDEX_BYTES: u64 = 4;

/// The sizes of the buffers that hold a toolpath's geometry on the GPU, and
/// the counts handed to the quad generator and to the draw call.
#[derive(Clone, Copy, Debug, PartialEq, Eq, Structural)]
pub struct GeometryBufferSizes {
    /// Bytes of the point buffer.
    pub points: u64,
    /// Bytes of the segment range buffer.
    pub ranges: u64,
    /// Bytes of the vertex buffer the quad generator fills.
    pub vertices: u64,
    /// Bytes of the index buffer the quad generator fills.
    pub indices: u64,
    /// Number of points, as the quad generator reads it (truncated to 32 bits).
    pub point_count: u32,
    /// Number of segments, as the quad generator reads it (truncated to 32 bits).
    pub range_count: u32,
    /// Number of indices to draw.
    pub index_count: u32,
}

/// The buffer sizes and counts for `render_data`. The byte sizes are computed
/// in `usize`, so each must fit there.
pub fn geometry_buffer_sizes<V>(render_data: &GCodeRenderData<V>) -> (g: GeometryBufferSizes)
    requires
        render_data.points@.len() * POINT_BYTES <= usize::MAX,
        render_data.segment_ranges@.len() * SEGMENT_RANGE_BYTES <= usize::MAX,
        render_data.vertex_count * VERTEX_BYTES <= usize::MAX,
        render_data.index_count * INDEX_BYTES <= usize::MAX,
    ensures
        g.points == render_data.points@.len() * POINT_BYTES,
        g.ranges == render_data.segment_ranges@.len() * SEGMENT_RANGE_BYTES,
        g.vertices == render_data.vertex_count * VERTEX_BYTES,
        g.indices == render_data.index_count * INDEX_BYTES,
        g.point_count == render_data.points@.len() as u32,
        g.range_count == render_data.segment_ranges@.len() as u32,
        g.index_count == render_data.index_count,
{
    let point_len = render_data.points.len();
    let range_len = render_data.segment_ranges.len();
    let vertex_count = render_data.vertex_count as usize;
    let index_count = render_data.index_count as usize;
    let point_bytes: usize = 16;
    let range_bytes: usize = 12;
    let vertex_bytes: usize = 28;
    let index_bytes: usize = 4;
    assert(point_bytes == POINT_BYTES && range_bytes == SEGMENT_RANGE_BYTES);
    assert(vertex_bytes == VERTEX_BYTES && index_bytes == INDEX_BYTES);
    GeometryBufferSizes {
        points: (point_len * point_bytes) as u64,
        ranges: (range_len * range_bytes) as u64,
        vertices: (vertex_bytes * vertex_count) as u64,
        indices: (index_bytes * index_count) as u64,
        point_count: #[verifier::truncate] (point_len as u32),
        range_count: #[verifier::truncate] (range_len as u32),
        index_count: render_data.index_count,
    }
}

} // verus!
