//! What the renderer keeps of a geometry it has uploaded, buffers aside, and
//! what it decides when it meets that geometry again: which of the position,
//! normal and uv buffers to write anew, in place or in a new buffer; the
//! primitive state an object's kind gives its draws; and the part of a
//! geometry a draw covers.

use vstd::prelude::*;

use crate::info::Topology;

verus! {

/// What the renderer reads of one geometry attribute.
#[derive(Clone, Copy, Debug, PartialEq, Eq, Structural)]
pub struct AttributeState {
    /// `attribute.version`, bumped by each `needsUpdate`.
    pub version: u32,
    /// `attribute.count`.
    pub count: u32,
    /// How many bytes its upload takes.
    pub byte_len: u64,
}

/// One of the uploaded attribute buffers: its size, if it has one, and the
/// attribute version it was written at.
#[derive(Clone, Copy, Debug, PartialEq, Eq, Structural)]
pub struct UploadedSlot {
    /// The buffer's size in bytes; `None` where the attribute had no buffer.
    pub buffer_size: Option<u64>,
    /// The version the buffer holds.
    pub version: u32,
}

/// What the renderer keeps of an uploaded geometry, its GPU buffers aside.
#[derive(Clone, Copy, Debug, PartialEq, Eq, Structural)]
pub struct GeometryRecord {
    /// The position buffer.
    pub position: UploadedSlot,
    /// The normal buffer.
    pub normal: UploadedSlot,
    /// The uv buffer.
    pub uv: UploadedSlot,
    /// The vertex count, the position attribute's count (0 without one).
    pub vertex_count: u32,
}

/// What becomes of one attribute buffer when the geometry is met again.
#[derive(Clone, Copy, Debug, PartialEq, Eq, Structural)]
pub enum SlotRefresh {
    /// Left as it is.
    Keep,
    /// Written again in the buffer it has, which has the right size.
    WriteInPlace,
    /// Written into a new buffer of the new size.
    Reallocate,
}

/// What a refresh does to each of the three buffers.
#[derive(Clone, Copy, Debug, PartialEq, Eq, Structural)]
pub struct RefreshPlan {
    /// The position buffer.
    pub position: SlotRefresh,
    /// The normal buffer.
    pub normal: SlotRefresh,
    /// The uv buffer.
    pub uv: SlotRefresh,
}

/// The width of a geometry's index entries.
#[derive(Clone, Copy, Debug, PartialEq, Eq, Structural)]
pub enum IndexFormat {
    Uint16,
    Uint32,
}

/// The two parts of a pipeline's primitive state that come from the object
/// drawn rather than from its material.
#[derive(Clone, Copy, Debug, PartialEq, Eq, Structural)]
pub struct Primitive {
    /// How the vertices assemble.
    pub topology: Topology,
    /// The index format, set only for an indexed line strip.
    pub strip_index_format: Option<IndexFormat>,
}

/// The topology an object draws with: points, then line segments, then a
/// line strip, else triangles.
pub open spec fn topology_of(is_points: bool, is_line: bool, is_line_segments: bool) -> Topology {
    if is_points {
        Topology::PointList
    } else if is_line_segments {
        Topology::LineList
    } else if is_line {
        Topology::LineStrip
    } else {
        Topology::TriangleList
    }
}

impl Primitive {
    /// What everything that is not a scene object draws with (backgrounds,
    /// full-screen quads, shadow passes): a triangle list.
    pub fn triangles() -> (primitive: Self)
        ensures
            primitive == (Primitive { topology: Topology::TriangleList, strip_index_format: None }),
    {
        Primitive { topology: Topology::TriangleList, strip_index_format: None }
    }

    /// The primitive state of an object with the given kind flags whose
    /// geometry has the given index: the topology by [`topology_of`], and
    /// the index format only for an indexed line that is not line segments.
    pub fn of(is_points: bool, is_line: bool, is_line_segments: bool, index: Option<IndexFormat>) -> (primitive: Self)
        ensures
            primitive.topology == topology_of(is_points, is_line, is_line_segments),
            primitive.strip_index_format == (if is_line && !is_line_segments {
                index
            } else {
                None
            }),
    {
        let topology = if is_points {
            Topology::PointList
        } else if is_line_segments {
            Topology::LineList
        } else if is_line {
            Topology::LineStrip
        } else {
            Topology::TriangleList
        };
        let strip_index_format = if is_line && !is_line_segments {
            index
        } else {
            None
        };
        Primitive { topology, strip_index_format }
    }
}

/// Points draw as points whatever else the object is; a line's segments as
/// separate lines and any other line as one strip; everything else as
/// triangles. Only a line strip drawn from an index names an index format,
/// and it is the index's own.
pub proof fn each_kind_draws_its_own_primitive(is_points: bool, is_line: bool, is_line_segments: bool, index: Option<IndexFormat>)
    ensures
        is_points ==> topology_of(is_points, is_line, is_line_segments) == Topology::PointList,
        !is_points && is_line_segments ==> topology_of(is_points, is_line, is_line_segments) == Topology::LineList,
        !is_points && !is_line_segments && is_line ==> topology_of(is_points, is_line, is_line_segments)
            == Topology::LineStrip,
        (topology_of(is_points, is_line, is_line_segments) == Topology::TriangleList) == (!is_points && !is_line
            && !is_line_segments),
        topology_of(is_points, is_line, is_line_segments) != Topology::TriangleStrip,
{
}

/// The buffer an attribute gets at the first upload.
pub open spec fn first_slot(attribute: Option<AttributeState>) -> UploadedSlot {
    match attribute {
        Some(a) => UploadedSlot { buffer_size: Some(a.byte_len), version: a.version },
        None => UploadedSlot { buffer_size: None, version: 0 },
    }
}

/// What a refresh does to a buffer: nothing for an attribute the geometry no
/// longer has, one whose version has not moved, or one that had no buffer
/// at the first upload (the layout was fixed then); otherwise it is written
/// again, in place when the size is the same.
pub open spec fn slot_refresh(slot: UploadedSlot, attribute: Option<AttributeState>) -> SlotRefresh {
    match attribute {
        None => SlotRefresh::Keep,
        Some(a) => if a.version == slot.version {
            SlotRefresh::Keep
        } else {
            match slot.buffer_size {
                None => SlotRefresh::Keep,
                Some(size) => if size == a.byte_len {
                    SlotRefresh::WriteInPlace
                } else {
                    SlotRefresh::Reallocate
                },
            }
        },
    }
}

/// The buffer after a refresh: a written one holds the attribute's bytes at
/// its version.
pub open spec fn refreshed_slot(slot: UploadedSlot, attribute: Option<AttributeState>) -> UploadedSlot {
    match attribute {
        Some(a) => if slot_refresh(slot, attribute) is Keep {
            slot
        } else {
            UploadedSlot { buffer_size: Some(a.byte_len), version: a.version }
        },
        None => slot,
    }
}

/// How many buffers a plan writes.
pub open spec fn writes(plan: RefreshPlan) -> int {
    (if plan.position is Keep { 0int } else { 1int }) + (if plan.normal is Keep { 0int } else { 1int }) + (
    if plan.uv is Keep {
        0int
    } else {
        1int
    })
}

fn refresh_slot(slot: &mut UploadedSlot, attribute: Option<AttributeState>) -> (refresh: SlotRefresh)
    ensures
        refresh == slot_refresh(*old(slot), attribute),
        *final(slot) == refreshed_slot(*old(slot), attribute),
{
    match attribute {
        None => SlotRefresh::Keep,
        Some(a) => {
            if a.version == slot.version {
                return SlotRefresh::Keep;
            }
            let refresh = match slot.buffer_size {
                None => SlotRefresh::Keep,
                Some(size) => if size == a.byte_len {
                    SlotRefresh::WriteInPlace
                } else {
                    SlotRefresh::Reallocate
                },
            };
            if let SlotRefresh::Keep = refresh {
            } else {
                *slot = UploadedSlot { buffer_size: Some(a.byte_len), version: a.version };
            }
            refresh
        },
    }
}

impl GeometryRecord {
    /// The record of a first upload: a buffer for each attribute the
    /// geometry has, at its version (0 for one it lacks), and the position
    /// attribute's count as the vertex count.
    pub fn upload(
        position: Option<AttributeState>,
        normal: Option<AttributeState>,
        uv: Option<AttributeState>,
    ) -> (record: Self)
        ensures
            record.position == first_slot(position),
            record.normal == first_slot(normal),
            record.uv == first_slot(uv),
            record.vertex_count == match position {
                Some(a) => a.count,
                None => 0,
            },
    {
        let slot = |attribute: Option<AttributeState>| -> (slot: UploadedSlot)
            ensures
                slot == first_slot(attribute),
            {
                match attribute {
                    Some(a) => UploadedSlot { buffer_size: Some(a.byte_len), version: a.version },
                    None => UploadedSlot { buffer_size: None, version: 0 },
                }
            };
        GeometryRecord {
            position: slot(position),
            normal: slot(normal),
            uv: slot(uv),
            vertex_count: match position {
                Some(a) => a.count,
                None => 0,
            },
        }
    }

    /// Meets the geometry again with its attributes as they are now: decides
    /// for each buffer whether it is kept, written in place or written anew,
    /// and records the versions written; a rewritten position buffer also
    /// sets the vertex count.
    pub fn refresh(
        &mut self,
        position: Option<AttributeState>,
        normal: Option<AttributeState>,
        uv: Option<AttributeState>,
    ) -> (plan: RefreshPlan)
        ensures
            plan.position == slot_refresh(old(self).position, position),
            plan.normal == slot_refresh(old(self).normal, normal),
            plan.uv == slot_refresh(old(self).uv, uv),
            final(self).position == refreshed_slot(old(self).position, position),
            final(self).normal == refreshed_slot(old(self).normal, normal),
            final(self).uv == refreshed_slot(old(self).uv, uv),
            final(self).vertex_count == match position {
                Some(a) => if plan.position is Keep {
                    old(self).vertex_count
                } else {
                    a.count
                },
                None => old(self).vertex_count,
            },
    {
        let position_refresh = refresh_slot(&mut self.position, position);
        let normal_refresh = refresh_slot(&mut self.normal, normal);
        let uv_refresh = refresh_slot(&mut self.uv, uv);
        if let Some(a) = position {
            if let SlotRefresh::Keep = position_refresh {
            } else {
                self.vertex_count = a.count;
            }
        }
        RefreshPlan { position: position_refresh, normal: normal_refresh, uv: uv_refresh }
    }
}

impl RefreshPlan {
    /// How many buffers the plan writes: one for each buffer not kept.
    pub fn buffers_written(&self) -> (count: u64)
        ensures
            count == writes(*self),
    {
        let mut count: u64 = 0;
        if !matches!(self.position, SlotRefresh::Keep) {
            count = count + 1;
        }
        if !matches!(self.normal, SlotRefresh::Keep) {
            count = count + 1;
        }
        if !matches!(self.uv, SlotRefresh::Keep) {
            count = count + 1;
        }
        count
    }
}

/// How many buffers a first upload writes: one per attribute it has, the
/// other attributes included, and one for the index.
pub open spec fn upload_writes(
    position: Option<AttributeState>,
    normal: Option<AttributeState>,
    uv: Option<AttributeState>,
    others: u64,
    indexed: bool,
) -> int {
    (if position is Some { 1int } else { 0int }) + (if normal is Some { 1int } else { 0int }) + (if uv is Some {
        1int
    } else {
        0int
    }) + (if indexed { 1int } else { 0int }) + others
}

/// The buffers a first upload writes (see [`upload_writes`]).
pub fn first_upload_writes(
    position: Option<AttributeState>,
    normal: Option<AttributeState>,
    uv: Option<AttributeState>,
    others: u64,
    indexed: bool,
) -> (count: u64)
    requires
        others <= u64::MAX - 4,
    ensures
        count == upload_writes(position, normal, uv, others, indexed),
{
    let mut count: u64 = others;
    if position.is_some() {
        count = count + 1;
    }
    if normal.is_some() {
        count = count + 1;
    }
    if uv.is_some() {
        count = count + 1;
    }
    if indexed {
        count = count + 1;
    }
    count
}

/// The part of a geometry a draw covers: `available` elements (its index
/// count, or its vertex count without an index), from the draw range's
/// `start` for its `count` (to the end without one), both clamped to what
/// is there. Returns the first element and how many are drawn.
pub fn draw_span(available: u32, start: u32, count: Option<u32>) -> (span: (u32, u32))
    ensures
        span.0 == (if start <= available { start } else { available }),
        span.1 == match count {
            Some(c) => if c <= available - span.0 {
                c as int
            } else {
                available - span.0
            },
            None => available - span.0,
        },
        span.0 + span.1 <= available,
{
    let first = if start <= available {
        start
    } else {
        available
    };
    let rest = available - first;
    let elements = match count {
        Some(c) => if c <= rest {
            c
        } else {
            rest
        },
        None => rest,
    };
    (first, elements)
}

/// Meeting a geometry again with nothing changed writes nothing: a refresh
/// with the attributes of the first upload, or with those of the last
/// refresh, keeps every buffer.
pub proof fn an_unchanged_geometry_is_not_written_again(
    record: GeometryRecord,
    position: Option<AttributeState>,
    normal: Option<AttributeState>,
    uv: Option<AttributeState>,
)
    ensures
        slot_refresh(first_slot(position), position) is Keep,
        slot_refresh(first_slot(normal), normal) is Keep,
        slot_refresh(first_slot(uv), uv) is Keep,
        slot_refresh(refreshed_slot(record.position, position), position) is Keep,
        slot_refresh(refreshed_slot(record.normal, normal), normal) is Keep,
        slot_refresh(refreshed_slot(record.uv, uv), uv) is Keep,
{
}

/// A buffer is written again exactly when its attribute's version moved and
/// it had a buffer; it is reallocated exactly when the size changed too.
pub proof fn only_a_moved_version_is_written(slot: UploadedSlot, a: AttributeState)
    ensures
        !(slot_refresh(slot, Some(a)) is Keep) <==> (a.version != slot.version && slot.buffer_size is Some),
        slot_refresh(slot, Some(a)) is Reallocate <==> (a.version != slot.version && slot.buffer_size is Some
            && slot.buffer_size.unwrap() != a.byte_len),
{
}

} // verus!
