//! A batched mesh's bookkeeping: many geometries packed back to back into one
//! shared vertex range and one shared index buffer, instances that each draw
//! one of them, and the per-frame draw list with one indexed sub-draw per
//! instance that survived the cull. Vertex attributes, instance matrices and
//! colours are floats and live beside this state; the frustum cull and the
//! depth sort are decided from them, and handed in here as flags and an order.

use vstd::prelude::*;

verus! {

/// The most instances a batch can hold: its matrices texture keeps four RGBA
/// float texels per instance on a square whose side is a multiple of four,
/// and the texture's channel count has to fit in a `u32`.
pub const MAX_INSTANCES: usize = 16382 * 16382;

/// One geometry's place in the shared buffers.
#[derive(Clone, Copy, Debug, PartialEq, Eq)]
pub struct GeometryInfo {
    pub vertex_start: usize,
    pub vertex_count: usize,
    pub reserved_vertex_count: usize,
    /// `-1` when the batch geometry is not indexed.
    pub index_start: isize,
    pub index_count: usize,
    pub reserved_index_count: usize,
    /// The draw range: the index range for an indexed batch, the vertex range
    /// otherwise.
    pub start: usize,
    pub count: usize,
    pub active: bool,
}

/// One instance: whether it is drawn, and which geometry it draws.
#[derive(Clone, Copy, Debug, PartialEq, Eq)]
pub struct InstanceInfo {
    pub visible: bool,
    pub active: bool,
    pub geometry_index: usize,
}

/// One indexed draw issued for the batch.
#[derive(Clone, Copy, Debug, PartialEq, Eq)]
pub struct SubDraw {
    pub first_index: u32,
    pub index_count: u32,
    /// The draw's ordinal in the frame's list, which the shader maps back to
    /// an instance through the indirect table.
    pub first_instance: u32,
}

/// The shared index buffer: 16-bit while every vertex can be addressed by
/// 16 bits, 32-bit beyond.
#[derive(Clone, Debug, PartialEq, Eq)]
pub enum Index {
    U16(Vec<u16>),
    U32(Vec<u32>),
}

impl Index {
    pub open spec fn len(&self) -> nat {
        match self {
            Index::U16(values) => values@.len(),
            Index::U32(values) => values@.len(),
        }
    }

    /// Entry `i`, as an integer.
    pub open spec fn at(&self, i: int) -> int {
        match self {
            Index::U16(values) => values@[i] as int,
            Index::U32(values) => values@[i] as int,
        }
    }

    pub open spec fn is_wide(&self) -> bool {
        self is U32
    }

    /// The bytes of one entry.
    pub open spec fn bytes_per_element(&self) -> nat {
        match self {
            Index::U16(_) => 2,
            Index::U32(_) => 4,
        }
    }
}

/// What the batch reads of a geometry it packs: how many vertices its
/// position attribute has, and its index, if it has one.
#[derive(Clone, Debug, PartialEq, Eq)]
pub struct GeometryShape {
    pub vertex_count: usize,
    pub index: Option<Vec<u32>>,
}

/// Whether `side` is the side of the smallest square with at least `count`
/// texels, and at least one: `ceil( sqrt( count ) )`, and 1 for none.
pub open spec fn square_side(side: int, count: int) -> bool {
    &&& side >= 1
    &&& side * side >= count
    &&& side == 1 || (side - 1) * (side - 1) < count
}

/// The side of the indirect (and colours) texture for `count` instances.
pub fn indirect_texture_side(count: usize) -> (side: u32)
    requires
        count <= MAX_INSTANCES,
    ensures
        square_side(side as int, count as int),
        side <= 16382,
{
    let target = count as u64;
    let mut side: u64 = 1;
    while side * side < target
        invariant
            1 <= side <= 16382,
            side * side <= 16382 * 16382,
            target == count,
            count <= MAX_INSTANCES,
            side == 1 || (side - 1) * (side - 1) < target,
        decreases target - side,
    {
        proof {
            assert(side * side >= side) by (nonlinear_arith)
                requires side >= 1;
            if side >= 16382 {
                assert(side * side >= 16382 * 16382) by (nonlinear_arith)
                    requires side >= 16382;
            }
            assert((side + 1) * (side + 1) <= 16382 * 16382) by (nonlinear_arith)
                requires side + 1 <= 16382;
        }
        side = side + 1;
    }
    side as u32
}

/// The side of the matrices texture for `count` instances: one matrix is
/// four texels, and the side is the smallest multiple of four (at least four)
/// whose square holds them all, so a matrix never straddles two rows.
pub fn matrices_texture_side(count: usize) -> (side: u32)
    requires
        count <= MAX_INSTANCES,
    ensures
        side >= 4,
        side % 4 == 0,
        side * side >= 4 * count,
        side == 4 || (side - 4) * (side - 4) < 4 * count,
        side as int * side as int * 4 <= u32::MAX,
{
    let target = 4 * count as u64;
    let mut side: u64 = 4;
    while side * side < target
        invariant
            4 <= side <= 32764,
            side * side <= 32764 * 32764,
            side % 4 == 0,
            target == 4 * count,
            count <= MAX_INSTANCES,
            side == 4 || (side - 4) * (side - 4) < target,
        decreases target - side,
    {
        proof {
            assert(side * side >= side) by (nonlinear_arith)
                requires side >= 1;
            if side >= 32764 {
                assert(side * side >= 32764 * 32764) by (nonlinear_arith)
                    requires side >= 32764;
            }
            assert((side + 4) * (side + 4) <= 32764 * 32764) by (nonlinear_arith)
                requires side + 4 <= 32764;
        }
        side = side + 4;
    }
    proof {
        assert(side * side <= 32764 * 32764) by (nonlinear_arith)
            requires side <= 32764;
    }
    side as u32
}

/// Whether `infos` are packed back to back from 0: each geometry's vertex
/// range starts where the previous one's reservation ends, and likewise its
/// index range when the batch is indexed (`-1` and nothing reserved when it
/// is not). `next_vertex` and `next_index` are where the next one goes.
pub open spec fn packed(infos: Seq<GeometryInfo>, indexed: bool, next_vertex: int, next_index: int) -> bool {
    &&& infos.len() == 0 ==> next_vertex == 0 && next_index == 0
    &&& infos.len() > 0 ==> {
        &&& infos[0].vertex_start == 0
        &&& indexed ==> infos[0].index_start == 0
        &&& next_vertex == infos.last().vertex_start + infos.last().reserved_vertex_count
        &&& next_index == if indexed {
            infos.last().index_start + infos.last().reserved_index_count
        } else {
            0
        }
    }
    &&& forall|g: int|
        0 <= g < infos.len() - 1 ==> {
            &&& #[trigger] infos[g + 1].vertex_start == infos[g].vertex_start + infos[g].reserved_vertex_count
            &&& indexed ==> infos[g + 1].index_start == infos[g].index_start + infos[g].reserved_index_count
        }
}

/// Whether one geometry's draw range is what its last upload left: the
/// index range for an indexed batch, the vertex range otherwise, each inside
/// its reservation.
pub open spec fn placed(info: GeometryInfo, indexed: bool) -> bool {
    &&& info.active
    &&& info.vertex_count <= info.reserved_vertex_count
    &&& if indexed {
        &&& info.index_start >= 0
        &&& info.start == info.index_start
        &&& info.count == info.index_count
        &&& info.index_count <= info.reserved_index_count
    } else {
        &&& info.index_start == -1
        &&& info.reserved_index_count == 0
        &&& info.index_count == 0
        &&& info.start == info.vertex_start
        &&& info.count == info.vertex_count
    }
}

/// The bytes of one index element as the draw list counts them: 2 or 4 for
/// an indexed batch, 1 (vertices) otherwise.
pub open spec fn element_bytes(index: Option<Index>) -> nat {
    match index {
        Some(index) => index.bytes_per_element(),
        None => 1,
    }
}

/// How many of `instances` are active.
pub open spec fn active_count(instances: Seq<InstanceInfo>) -> nat
    decreases instances.len(),
{
    if instances.len() == 0 {
        0
    } else {
        active_count(instances.drop_last()) + if instances.last().active {
            1nat
        } else {
            0nat
        }
    }
}

/// What entry `i` of a geometry's reserved index range holds once the
/// geometry is written at `vertex_start`: its own index `i` offset by
/// `vertex_start`, and `vertex_start` itself in the reserved tail past its
/// indices; cut to 16 bits in a narrow buffer.
pub open spec fn written_index(source: Seq<u32>, vertex_start: int, i: int, wide: bool) -> int {
    let value = vertex_start + if i < source.len() {
        source[i] as int
    } else {
        0
    };
    if wide {
        value
    } else {
        value % 65536
    }
}

/// Whether `after` is `before` with `reserved` entries from `start` written
/// for a geometry with `source` indices at `vertex_start`, and nothing else
/// changed.
pub open spec fn index_written(
    before: Index,
    after: Index,
    start: int,
    reserved: int,
    source: Seq<u32>,
    vertex_start: int,
) -> bool {
    &&& after.len() == before.len()
    &&& after.is_wide() == before.is_wide()
    &&& forall|j: int|
        0 <= j < after.len() ==> #[trigger] after.at(j) == if start <= j < start + reserved {
            written_index(source, vertex_start, j - start, after.is_wide())
        } else {
            before.at(j)
        }
}

/// A freshly laid out shared index buffer: `count` zeros, 32-bit when more
/// than 65535 vertices have to be addressed.
pub open spec fn fresh_index(index: Index, count: int, max_vertex_count: int) -> bool {
    &&& index.len() == count
    &&& index.is_wide() == (max_vertex_count > 65535)
    &&& forall|j: int| 0 <= j < count ==> #[trigger] index.at(j) == 0
}

/// Whether every index of `source`, offset by `vertex_start`, still fits in
/// 32 bits.
pub open spec fn offsets_fit(source: Seq<u32>, vertex_start: int) -> bool {
    forall|i: int| 0 <= i < source.len() ==> vertex_start + #[trigger] source[i] <= u32::MAX
}

/// Writes a geometry's indices into a 16-bit buffer.
fn write_narrow(values: &mut Vec<u16>, start: usize, reserved: usize, source: &[u32], vertex_start: u32)
    requires
        start + reserved <= old(values)@.len(),
        source@.len() <= reserved,
        offsets_fit(source@, vertex_start as int),
    ensures
        index_written(
            Index::U16(*old(values)),
            Index::U16(*final(values)),
            start as int,
            reserved as int,
            source@,
            vertex_start as int,
        ),
{
    let ghost before = *values;
    let len: usize = values.len();
    let mut i: usize = 0;
    while i < reserved
        invariant
            start + reserved <= values@.len(),
            values@.len() == len,
            values@.len() == before@.len(),
            source@.len() <= reserved,
            offsets_fit(source@, vertex_start as int),
            i <= reserved,
            forall|j: int|
                0 <= j < values@.len() ==> #[trigger] values@[j] as int == if start <= j < start + i {
                    written_index(source@, vertex_start as int, j - start, false)
                } else {
                    before@[j] as int
                },
        decreases reserved - i,
    {
        let offset: u32 = if i < source.len() {
            source[i]
        } else {
            0
        };
        let value: u32 = vertex_start + offset;
        let narrow: u16 = value as u16;
        assert(narrow as int == value as int % 65536) by (bit_vector)
            requires narrow == value as u16;
        values.set(start + i, narrow);
        i = i + 1;
    }
}

/// Writes a geometry's indices into a 32-bit buffer.
fn write_wide(values: &mut Vec<u32>, start: usize, reserved: usize, source: &[u32], vertex_start: u32)
    requires
        start + reserved <= old(values)@.len(),
        source@.len() <= reserved,
        offsets_fit(source@, vertex_start as int),
    ensures
        index_written(
            Index::U32(*old(values)),
            Index::U32(*final(values)),
            start as int,
            reserved as int,
            source@,
            vertex_start as int,
        ),
{
    let ghost before = *values;
    let len: usize = values.len();
    let mut i: usize = 0;
    while i < reserved
        invariant
            start + reserved <= values@.len(),
            values@.len() == len,
            values@.len() == before@.len(),
            source@.len() <= reserved,
            offsets_fit(source@, vertex_start as int),
            i <= reserved,
            forall|j: int|
                0 <= j < values@.len() ==> #[trigger] values@[j] as int == if start <= j < start + i {
                    written_index(source@, vertex_start as int, j - start, true)
                } else {
                    before@[j] as int
                },
        decreases reserved - i,
    {
        let offset: u32 = if i < source.len() {
            source[i]
        } else {
            0
        };
        values.set(start + i, vertex_start + offset);
        i = i + 1;
    }
}

/// The indices of `shape`, none when it is not indexed.
pub open spec fn source_indices(shape: GeometryShape) -> Seq<u32> {
    match shape.index {
        Some(values) => values@,
        None => Seq::empty(),
    }
}

/// Geometry `info` once `shape` is written into its reservation: its vertex
/// count, and a draw range over its indices when the batch is indexed, over
/// its vertices otherwise.
pub open spec fn uploaded(info: GeometryInfo, shape: GeometryShape) -> GeometryInfo {
    if shape.index is Some {
        GeometryInfo {
            vertex_count: shape.vertex_count,
            index_count: source_indices(shape).len() as usize,
            start: info.index_start as usize,
            count: source_indices(shape).len() as usize,
            ..info
        }
    } else {
        GeometryInfo {
            vertex_count: shape.vertex_count,
            start: info.vertex_start,
            count: shape.vertex_count,
            ..info
        }
    }
}

/// Whether `shape` fits the reservation of `info` in a batch that is
/// `indexed` or not: the same kind of geometry, and no more vertices or
/// indices than were reserved.
pub open spec fn fits(info: GeometryInfo, shape: GeometryShape, indexed: bool) -> bool {
    &&& (shape.index is Some) == indexed
    &&& shape.vertex_count <= info.reserved_vertex_count
    &&& source_indices(shape).len() <= info.reserved_index_count
}

/// A `count`-entry buffer of zeros.
fn zeros16(count: usize) -> (values: Vec<u16>)
    ensures
        values@.len() == count,
        forall|j: int| 0 <= j < count ==> values@[j] == 0,
{
    let mut values: Vec<u16> = Vec::new();
    while values.len() < count
        invariant
            values@.len() <= count,
            forall|j: int| 0 <= j < values@.len() ==> values@[j] == 0,
        decreases count - values@.len(),
    {
        values.push(0);
    }
    values
}

/// A `count`-entry buffer of zeros.
fn zeros32(count: usize) -> (values: Vec<u32>)
    ensures
        values@.len() == count,
        forall|j: int| 0 <= j < count ==> values@[j] == 0,
{
    let mut values: Vec<u32> = Vec::new();
    while values.len() < count
        invariant
            values@.len() <= count,
            forall|j: int| 0 <= j < values@.len() ==> values@[j] == 0,
        decreases count - values@.len(),
    {
        values.push(0);
    }
    values
}

/// In a packed batch, each geometry's reservation ends no later than where
/// the next geometry would go.
proof fn lemma_reservation_inside(infos: Seq<GeometryInfo>, g: int, next_vertex: int, next_index: int)
    requires
        0 <= g < infos.len(),
        packed(infos, true, next_vertex, next_index) || packed(infos, false, next_vertex, next_index),
    ensures
        infos[g].vertex_start + infos[g].reserved_vertex_count <= next_vertex,
        packed(infos, true, next_vertex, next_index) ==> infos[g].index_start + infos[g].reserved_index_count
            <= next_index,
    decreases infos.len() - g,
{
    if g < infos.len() - 1 {
        lemma_reservation_inside(infos, g + 1, next_vertex, next_index);
        assert(infos[g + 1].vertex_start == infos[g].vertex_start + infos[g].reserved_vertex_count);
    }
}

/// The first `n` instances that survive the frame, in instance order: the
/// visible, active ones that were not culled.
pub open spec fn kept(instances: Seq<InstanceInfo>, culled: Seq<bool>, n: int) -> Seq<usize>
    decreases n,
{
    if n <= 0 {
        Seq::empty()
    } else if instances[n - 1].visible && instances[n - 1].active && !culled[n - 1] {
        kept(instances, culled, n - 1).push((n - 1) as usize)
    } else {
        kept(instances, culled, n - 1)
    }
}

/// The flags a draw-list build applies: `culled` where a cull or a sort
/// runs, and none at all where neither does.
pub open spec fn applied(culled: Seq<bool>, applies: bool) -> Seq<bool> {
    Seq::new(culled.len(), |i: int| applies && culled[i])
}

/// Whether `order` lists each of `0..n` exactly once.
pub open spec fn is_order(order: Seq<usize>, n: int) -> bool {
    &&& order.len() == n
    &&& forall|k: int| 0 <= k < n ==> #[trigger] order[k] < n
    &&& forall|j: int, k: int| 0 <= j < n && 0 <= k < n && j != k ==> order[j] != order[k]
}

/// Whether instance `a` is drawn before instance `b` by the depth sort:
/// nearer first (farther first when `transparent`), and of two at the same
/// depth the earlier instance first.
pub open spec fn depth_sorted_before(depths: Seq<i64>, a: int, b: int, transparent: bool) -> bool {
    ||| (if transparent {
        depths[a] > depths[b]
    } else {
        depths[a] < depths[b]
    })
    ||| depths[a] == depths[b] && a < b
}

/// Whether a depth `a` is drawn strictly before a depth `b`.
fn strictly_before(a: i64, b: i64, transparent: bool) -> (before: bool)
    ensures
        before == (if transparent {
            a > b
        } else {
            a < b
        }),
{
    if transparent {
        a > b
    } else {
        a < b
    }
}

/// The order the depth sort puts the surviving instances in, given the
/// rank of each one's depth along the view direction: every position
/// once, nearest first for opaque materials and farthest first for
/// transparent ones, ties in their own order.
pub fn depth_order(depths: &[i64], transparent: bool) -> (order: Vec<usize>)
    ensures
        is_order(order@, depths@.len() as int),
        forall|j: int, k: int|
            0 <= j < k < order@.len() ==> depth_sorted_before(
                depths@,
                #[trigger] order@[j] as int,
                #[trigger] order@[k] as int,
                transparent,
            ),
{
    let n = depths.len();
    let mut order: Vec<usize> = Vec::new();
    let mut i: usize = 0;
    while i < n
        invariant
            n == depths@.len(),
            i <= n,
            is_order(order@, i as int),
            forall|j: int, k: int|
                0 <= j < k < order@.len() ==> depth_sorted_before(
                    depths@,
                    #[trigger] order@[j] as int,
                    #[trigger] order@[k] as int,
                    transparent,
                ),
        decreases n - i,
    {
        let mut pos: usize = order.len();
        while pos > 0 && strictly_before(depths[i], depths[order[pos - 1]], transparent)
            invariant
                pos <= order@.len(),
                i < n,
                n == depths@.len(),
                is_order(order@, i as int),
                forall|k: int|
                    pos <= k < order@.len() ==> (if transparent {
                        depths@[i as int] > depths@[#[trigger] order@[k] as int]
                    } else {
                        depths@[i as int] < depths@[order@[k] as int]
                    }),
            decreases pos,
        {
            pos = pos - 1;
        }
        let ghost old_order = order@;
        proof {
            assert forall|k: int| 0 <= k < pos implies depth_sorted_before(depths@, #[trigger] old_order[k] as int, i as int, transparent) by {
                assert(old_order[k] < i);
                if k < pos - 1 {
                    assert(depth_sorted_before(depths@, old_order[k] as int, old_order[pos - 1] as int, transparent));
                }
            }
        }
        order.insert(pos, i);
        proof {
            let p = pos as int;
            let s = order@;
            old_order.insert_ensures(p, i);
            assert forall|k: int| 0 <= k < s.len() implies (k < p ==> s[k] == old_order[k]) && (k == p ==> s[k] == i) && (k
                > p ==> s[k] == old_order[k - 1]) by {
                if k > p {
                    assert(s[(k - 1) + 1] == old_order[k - 1]);
                }
            }
            assert forall|k: int| 0 <= k < i + 1 implies #[trigger] s[k] < i + 1 by {
                if k > p {
                    assert(old_order[k - 1] < i);
                } else if k < p {
                    assert(old_order[k] < i);
                }
            }
            assert forall|a: int, b: int| 0 <= a < i + 1 && 0 <= b < i + 1 && a != b implies s[a] != s[b] by {
                let a0 = if a < p { a } else { a - 1 };
                let b0 = if b < p { b } else { b - 1 };
                if a != p && b != p {
                    assert(old_order[a0] != old_order[b0]);
                } else if a == p {
                    assert(old_order[b0] < i);
                } else {
                    assert(old_order[a0] < i);
                }
            }
            assert forall|a: int, b: int|
                0 <= a < b < s.len() implies depth_sorted_before(depths@, #[trigger] s[a] as int, #[trigger] s[b] as int, transparent) by {
                if b < p {
                    assert(depth_sorted_before(depths@, old_order[a] as int, old_order[b] as int, transparent));
                } else if b == p {
                    assert(depth_sorted_before(depths@, old_order[a] as int, i as int, transparent));
                } else if a == p {
                    assert(if transparent {
                        depths@[i as int] > depths@[old_order[b - 1] as int]
                    } else {
                        depths@[i as int] < depths@[old_order[b - 1] as int]
                    });
                } else if a < p {
                    assert(depth_sorted_before(depths@, old_order[a] as int, old_order[b - 1] as int, transparent));
                } else {
                    assert(depth_sorted_before(depths@, old_order[a - 1] as int, old_order[b - 1] as int, transparent));
                }
            }
        }
        i = i + 1;
    }
    order
}

/// The draw list's instances: the surviving instances `kept`, rearranged by
/// `order` when the list is sorted.
pub open spec fn drawn(kept: Seq<usize>, order: Seq<usize>, sorted: bool) -> Seq<usize> {
    if sorted {
        Seq::new(order.len(), |k: int| kept[order[k] as int])
    } else {
        kept
    }
}

/// The surviving instances are distinct, in increasing order, and exactly
/// the visible, active, unculled ones among the first `n`.
proof fn lemma_kept(instances: Seq<InstanceInfo>, culled: Seq<bool>, n: int)
    requires
        0 <= n <= instances.len(),
        n <= culled.len(),
        n <= usize::MAX,
    ensures
        kept(instances, culled, n).len() <= n,
        forall|k: int|
            0 <= k < kept(instances, culled, n).len() ==> #[trigger] kept(instances, culled, n)[k] < n,
        forall|j: int, k: int|
            0 <= j < k < kept(instances, culled, n).len() ==> kept(instances, culled, n)[j] < kept(
                instances,
                culled,
                n,
            )[k],
        forall|i: int|
            0 <= i < n ==> (#[trigger] kept(instances, culled, n).contains(i as usize) <==> (
            instances[i].visible && instances[i].active && !culled[i])),
    decreases n,
{
    if n > 0 {
        lemma_kept(instances, culled, n - 1);
        let before = kept(instances, culled, n - 1);
        let after = kept(instances, culled, n);
        assert forall|j: int, k: int| 0 <= j < k < after.len() implies after[j] < after[k] by {
            if k == before.len() {
                assert(after[j] == before[j]);
            } else {
                assert(after[j] == before[j] && after[k] == before[k]);
            }
        }
        let keep = instances[n - 1].visible && instances[n - 1].active && !culled[n - 1];
        assert forall|i: int| 0 <= i < n implies (#[trigger] after.contains(i as usize) <==> (
        instances[i].visible && instances[i].active && !culled[i])) by {
            if i < n - 1 {
                assert(before.contains(i as usize) <==> (instances[i].visible && instances[i].active
                    && !culled[i]));
            }
            if keep {
                assert(after == before.push((n - 1) as usize));
                assert(after[before.len() as int] == (n - 1) as usize);
                if i < n - 1 {
                    if after.contains(i as usize) {
                        let k = choose|k: int| 0 <= k < after.len() && after[k] == i as usize;
                        assert(k < before.len());
                        assert(before[k] == i as usize);
                        assert(before.contains(i as usize));
                    }
                    if before.contains(i as usize) {
                        let k = choose|k: int| 0 <= k < before.len() && before[k] == i as usize;
                        assert(after[k] == i as usize);
                        assert(after.contains(i as usize));
                    }
                } else {
                    assert(after.contains(i as usize));
                }
            } else {
                assert(after == before);
                if i == n - 1 && before.contains(i as usize) {
                    let k = choose|k: int| 0 <= k < before.len() && before[k] == i as usize;
                    assert(before[k] < n - 1);
                }
            }
        }
    }
}

/// Whether entry `m` of a draw list under construction is the draw range of
/// the geometry of the `m`-th drawn instance, and the indirect table maps it
/// back to that instance.
spec fn entry_matches(
    infos: Seq<GeometryInfo>,
    instances: Seq<InstanceInfo>,
    list: Seq<usize>,
    starts: Seq<u64>,
    counts: Seq<usize>,
    indirect: Seq<u32>,
    bytes: int,
    m: int,
) -> bool {
    let range = infos[instances[list[m] as int].geometry_index as int];
    &&& starts[m] == range.start * bytes
    &&& starts[m] as int / bytes == range.start
    &&& starts[m] as int % bytes == 0
    &&& range.start <= u32::MAX
    &&& counts[m] == range.count
    &&& range.count <= u32::MAX
    &&& indirect[m] == list[m]
}

/// A batched mesh's ranges, instances and draw list.
pub struct BatchedMesh {
    /// Whether each instance is tested against the frustum before it is drawn.
    pub per_object_frustum_culled: bool,
    /// Whether the draw list is sorted by depth.
    pub sort_objects: bool,
    instance_info: Vec<InstanceInfo>,
    geometry_info: Vec<GeometryInfo>,
    next_index_start: usize,
    next_vertex_start: usize,
    visibility_changed: bool,
    geometry_initialized: bool,
    index: Option<Index>,
    max_instance_count: usize,
    max_vertex_count: usize,
    max_index_count: usize,
    /// Each draw's first element, in bytes.
    multi_draw_starts: Vec<u64>,
    multi_draw_counts: Vec<usize>,
    multi_draw_bytes_per_element: usize,
    /// The draw-ordinal to instance table the shader reads, a square texture
    /// of `indirect_side` texels a side.
    indirect: Vec<u32>,
    indirect_side: u32,
}

impl BatchedMesh {
    /// Whether each instance is tested against the frustum.
    pub closed spec fn culls(&self) -> bool {
        self.per_object_frustum_culled
    }

    /// Whether the draw list is sorted by depth.
    pub closed spec fn sorts(&self) -> bool {
        self.sort_objects
    }

    pub closed spec fn instances(&self) -> Seq<InstanceInfo> {
        self.instance_info@
    }

    pub closed spec fn geometries(&self) -> Seq<GeometryInfo> {
        self.geometry_info@
    }

    pub closed spec fn max_instances(&self) -> nat {
        self.max_instance_count as nat
    }

    pub closed spec fn max_vertices(&self) -> nat {
        self.max_vertex_count as nat
    }

    pub closed spec fn max_indices(&self) -> nat {
        self.max_index_count as nat
    }

    /// Where the next geometry's vertices go.
    pub closed spec fn next_vertex(&self) -> nat {
        self.next_vertex_start as nat
    }

    /// Where the next geometry's indices go.
    pub closed spec fn next_index(&self) -> nat {
        self.next_index_start as nat
    }

    /// The shared index buffer, once the first geometry decided there is one.
    pub closed spec fn index_buffer(&self) -> Option<Index> {
        self.index
    }

    /// Whether the first geometry has laid out the shared buffers.
    pub closed spec fn initialized(&self) -> bool {
        self.geometry_initialized
    }

    /// Whether the draw list is stale: an instance or a geometry changed
    /// since it was built.
    pub closed spec fn stale(&self) -> bool {
        self.visibility_changed
    }

    /// The draw list's length.
    pub closed spec fn draw_count(&self) -> nat {
        self.multi_draw_starts@.len()
    }

    /// Draw `k`'s first element, in bytes.
    pub closed spec fn draw_start_bytes(&self, k: int) -> nat {
        self.multi_draw_starts@[k] as nat
    }

    /// Draw `k`'s element count.
    pub closed spec fn draw_length(&self, k: int) -> nat {
        self.multi_draw_counts@[k] as nat
    }

    /// The bytes per element the draw list was built with.
    pub closed spec fn draw_element_bytes(&self) -> nat {
        self.multi_draw_bytes_per_element as nat
    }

    /// The indirect table.
    pub closed spec fn indirect_table(&self) -> Seq<u32> {
        self.indirect@
    }

    /// The batch's invariant: the limits fit the GPU's 32-bit counts, every
    /// geometry is packed and placed inside the buffers, every instance
    /// draws an existing geometry, and the draw list addresses elements the
    /// GPU can count.
    pub closed spec fn wf(&self) -> bool {
        let indexed = self.index is Some;
        &&& self.max_instance_count <= MAX_INSTANCES
        &&& self.max_vertex_count <= u32::MAX
        &&& self.max_index_count <= u32::MAX
        &&& self.max_index_count <= isize::MAX
        &&& self.instance_info@.len() <= self.max_instance_count
        &&& forall|i: int|
            0 <= i < self.instance_info@.len() ==> (#[trigger] self.instance_info@[i]).geometry_index
                < self.geometry_info@.len()
        &&& self.geometry_initialized == (self.geometry_info@.len() > 0)
        &&& !self.geometry_initialized ==> self.index is None
        &&& self.index matches Some(index) ==> {
            &&& index.len() == self.max_index_count
            &&& index.is_wide() == (self.max_vertex_count > 65535)
        }
        &&& packed(self.geometry_info@, indexed, self.next_vertex_start as int, self.next_index_start as int)
        &&& forall|g: int| 0 <= g < self.geometry_info@.len() ==> placed(#[trigger] self.geometry_info@[g], indexed)
        &&& self.next_vertex_start <= self.max_vertex_count
        &&& self.next_index_start <= self.max_index_count
        &&& self.multi_draw_counts@.len() == self.multi_draw_starts@.len()
        &&& self.multi_draw_starts@.len() <= self.max_instance_count
        &&& self.multi_draw_bytes_per_element == 1 || self.multi_draw_bytes_per_element == 2
            || self.multi_draw_bytes_per_element == 4
        &&& forall|k: int|
            0 <= k < self.multi_draw_starts@.len() ==> {
                &&& #[trigger] self.multi_draw_starts@[k] as int % self.multi_draw_bytes_per_element as int == 0
                &&& self.multi_draw_starts@[k] as int / self.multi_draw_bytes_per_element as int <= u32::MAX
                &&& self.multi_draw_counts@[k] <= u32::MAX
            }
        &&& square_side(self.indirect_side as int, self.max_instance_count as int)
        &&& self.indirect@.len() == self.indirect_side as int * self.indirect_side as int
    }
}

impl BatchedMesh {
    /// An empty batch with room for `max_instance_count` instances,
    /// `max_vertex_count` vertices and `max_index_count` indices, culled per
    /// instance and sorted, with a stale draw list and a zeroed indirect
    /// table.
    pub fn new(max_instance_count: usize, max_vertex_count: usize, max_index_count: usize) -> (batch: Self)
        requires
            max_instance_count <= MAX_INSTANCES,
            max_vertex_count <= u32::MAX,
            max_index_count <= u32::MAX,
            max_index_count <= isize::MAX,
        ensures
            batch.wf(),
            batch.culls(),
            batch.sorts(),
            batch.instances() == Seq::<InstanceInfo>::empty(),
            batch.geometries() == Seq::<GeometryInfo>::empty(),
            batch.max_instances() == max_instance_count,
            batch.max_vertices() == max_vertex_count,
            batch.max_indices() == max_index_count,
            batch.next_vertex() == 0,
            batch.next_index() == 0,
            batch.index_buffer() is None,
            !batch.initialized(),
            batch.stale(),
            batch.draw_count() == 0,
            batch.draw_element_bytes() == 1,
            exists|side: int|
                square_side(side, max_instance_count as int) && batch.indirect_table().len() == side * side,
            forall|k: int| 0 <= k < batch.indirect_table().len() ==> batch.indirect_table()[k] == 0,
    {
        let side = indirect_texture_side(max_instance_count);
        proof {
            assert(side * side <= 16382 * 16382) by (nonlinear_arith)
                requires side <= 16382, side >= 1;
        }
        let texels: usize = side as usize * side as usize;
        let mut indirect: Vec<u32> = Vec::new();
        while indirect.len() < texels
            invariant
                indirect@.len() <= texels,
                forall|k: int| 0 <= k < indirect@.len() ==> indirect@[k] == 0,
            decreases texels - indirect@.len(),
        {
            indirect.push(0);
        }
        BatchedMesh {
            per_object_frustum_culled: true,
            sort_objects: true,
            instance_info: Vec::new(),
            geometry_info: Vec::new(),
            next_index_start: 0,
            next_vertex_start: 0,
            visibility_changed: true,
            geometry_initialized: false,
            index: None,
            max_instance_count,
            max_vertex_count,
            max_index_count,
            multi_draw_starts: Vec::new(),
            multi_draw_counts: Vec::new(),
            multi_draw_bytes_per_element: 1,
            indirect,
            indirect_side: side,
        }
    }

    pub fn max_instance_count(&self) -> (count: usize)
        ensures
            count == self.max_instances(),
    {
        self.max_instance_count
    }

    /// How many instances are active.
    pub fn instance_count(&self) -> (count: usize)
        requires
            self.wf(),
        ensures
            count == active_count(self.instances()),
    {
        let mut count: usize = 0;
        let mut i: usize = 0;
        while i < self.instance_info.len()
            invariant
                i <= self.instance_info@.len(),
                count == active_count(self.instance_info@.take(i as int)),
                count <= i,
            decreases self.instance_info@.len() - i,
        {
            assert(self.instance_info@.take(i as int + 1).drop_last() == self.instance_info@.take(i as int));
            if self.instance_info[i].active {
                count = count + 1;
            }
            i = i + 1;
        }
        assert(self.instance_info@.take(i as int) == self.instance_info@);
        count
    }

    /// The range geometry `geometry_id` owns in the shared buffers, if it is
    /// an active geometry of the batch.
    pub fn geometry_range_at(&self, geometry_id: usize) -> (info: Option<GeometryInfo>)
        ensures
            info == if geometry_id < self.geometries().len() && self.geometries()[geometry_id as int].active {
                Some(self.geometries()[geometry_id as int])
            } else {
                None
            },
    {
        if geometry_id < self.geometry_info.len() && self.geometry_info[geometry_id].active {
            Some(self.geometry_info[geometry_id])
        } else {
            None
        }
    }

    /// A new visible instance of geometry `geometry_id`; returns its id. The
    /// draw list goes stale.
    pub fn add_instance(&mut self, geometry_id: usize) -> (instance_id: usize)
        requires
            old(self).wf(),
            old(self).instances().len() < old(self).max_instances(),
            geometry_id < old(self).geometries().len(),
        ensures
            final(self).wf(),
            instance_id == old(self).instances().len(),
            final(self).instances() == old(self).instances().push(
                InstanceInfo { visible: true, active: true, geometry_index: geometry_id },
            ),
            final(self).stale(),
            final(self).geometries() == old(self).geometries(),
            final(self).index_buffer() == old(self).index_buffer(),
            final(self).max_instances() == old(self).max_instances(),
            final(self).max_vertices() == old(self).max_vertices(),
            final(self).max_indices() == old(self).max_indices(),
            final(self).next_vertex() == old(self).next_vertex(),
            final(self).next_index() == old(self).next_index(),
            final(self).initialized() == old(self).initialized(),
            final(self).indirect_table() == old(self).indirect_table(),
            final(self).culls() == old(self).culls(),
            final(self).sorts() == old(self).sorts(),
    {
        let instance_id = self.instance_info.len();
        self.instance_info.push(InstanceInfo { visible: true, active: true, geometry_index: geometry_id });
        self.visibility_changed = true;
        instance_id
    }

    /// The shared index buffer, once the first (indexed) geometry laid it
    /// out.
    pub fn index(&self) -> (index: Option<&Index>)
        ensures
            index == match self.index_buffer() {
                Some(buffer) => Some(&buffer),
                None => None::<&Index>,
            },
    {
        self.index.as_ref()
    }

    /// The draw list's length after the last frame.
    pub fn multi_draw_count(&self) -> (count: usize)
        requires
            self.wf(),
        ensures
            count == self.draw_count(),
    {
        self.multi_draw_starts.len()
    }

    /// The first `n` entries of the indirect table.
    pub fn indirect_prefix(&self, n: usize) -> (prefix: Vec<u32>)
        requires
            n <= self.indirect_table().len(),
        ensures
            prefix@ == self.indirect_table().take(n as int),
    {
        let mut prefix: Vec<u32> = Vec::new();
        let mut i: usize = 0;
        while i < n
            invariant
                i <= n,
                n <= self.indirect@.len(),
                prefix@ == self.indirect@.take(i as int),
            decreases n - i,
        {
            prefix.push(self.indirect[i]);
            i = i + 1;
        }
        prefix
    }
}

impl BatchedMesh {
    /// Writes `shape` into the reservation of geometry `geometry_id`: its
    /// indices (offset by its first vertex) into the shared index buffer, and
    /// its draw range into its entry.
    fn write_geometry(&mut self, geometry_id: usize, shape: &GeometryShape)
        requires
            geometry_id < old(self).geometry_info@.len(),
            fits(old(self).geometry_info@[geometry_id as int], *shape, old(self).index is Some),
            old(self).index is Some ==> {
                let info = old(self).geometry_info@[geometry_id as int];
                &&& info.index_start >= 0
                &&& info.index_start + info.reserved_index_count <= old(self).index->0.len()
                &&& info.vertex_start <= u32::MAX
                &&& offsets_fit(source_indices(*shape), info.vertex_start as int)
            },
        ensures
            final(self).geometry_info@ == old(self).geometry_info@.update(
                geometry_id as int,
                uploaded(old(self).geometry_info@[geometry_id as int], *shape),
            ),
            old(self).index matches Some(before) ==> {
                let info = old(self).geometry_info@[geometry_id as int];
                &&& final(self).index matches Some(after)
                &&& index_written(
                    before,
                    after,
                    info.index_start as int,
                    info.reserved_index_count as int,
                    source_indices(*shape),
                    info.vertex_start as int,
                )
            },
            old(self).index is None ==> final(self).index is None,
            final(self).instance_info == old(self).instance_info,
            final(self).next_index_start == old(self).next_index_start,
            final(self).next_vertex_start == old(self).next_vertex_start,
            final(self).visibility_changed == old(self).visibility_changed,
            final(self).geometry_initialized == old(self).geometry_initialized,
            final(self).max_instance_count == old(self).max_instance_count,
            final(self).max_vertex_count == old(self).max_vertex_count,
            final(self).max_index_count == old(self).max_index_count,
            final(self).multi_draw_starts == old(self).multi_draw_starts,
            final(self).multi_draw_counts == old(self).multi_draw_counts,
            final(self).multi_draw_bytes_per_element == old(self).multi_draw_bytes_per_element,
            final(self).indirect == old(self).indirect,
            final(self).indirect_side == old(self).indirect_side,
            final(self).per_object_frustum_culled == old(self).per_object_frustum_culled,
            final(self).sort_objects == old(self).sort_objects,
    {
        let info = self.geometry_info[geometry_id];
        let vertex_start = info.vertex_start;
        let vertex_count = shape.vertex_count;
        let mut updated = info;
        updated.vertex_count = vertex_count;
        match &shape.index {
            Some(source) => {
                let index_start = info.index_start as usize;
                match self.index.take() {
                    Some(Index::U16(mut values)) => {
                        write_narrow(
                            &mut values,
                            index_start,
                            info.reserved_index_count,
                            source.as_slice(),
                            vertex_start as u32,
                        );
                        self.index = Some(Index::U16(values));
                    },
                    Some(Index::U32(mut values)) => {
                        write_wide(
                            &mut values,
                            index_start,
                            info.reserved_index_count,
                            source.as_slice(),
                            vertex_start as u32,
                        );
                        self.index = Some(Index::U32(values));
                    },
                    None => {},
                }
                updated.index_count = source.len();
                updated.start = index_start;
                updated.count = source.len();
            },
            None => {
                updated.start = vertex_start;
                updated.count = vertex_count;
            },
        }
        self.geometry_info.set(geometry_id, updated);
    }
}

impl BatchedMesh {
    /// Replaces geometry `geometry_id` with `geometry`, which has to fit the
    /// space reserved for it: its indices, offset by its first vertex, go
    /// into its index range and the rest of the range points at its first
    /// vertex; its draw range becomes its new indices (or vertices). The draw
    /// list goes stale. Returns `geometry_id`.
    pub fn set_geometry_at(&mut self, geometry_id: usize, geometry: &GeometryShape) -> (id: usize)
        requires
            old(self).wf(),
            geometry_id < old(self).geometries().len(),
            fits(old(self).geometries()[geometry_id as int], *geometry, old(self).index_buffer() is Some),
            offsets_fit(source_indices(*geometry), old(self).geometries()[geometry_id as int].vertex_start as int),
        ensures
            final(self).wf(),
            id == geometry_id,
            final(self).geometries() == old(self).geometries().update(
                geometry_id as int,
                uploaded(old(self).geometries()[geometry_id as int], *geometry),
            ),
            old(self).index_buffer() matches Some(before) ==> {
                let info = old(self).geometries()[geometry_id as int];
                &&& final(self).index_buffer() matches Some(after)
                &&& index_written(
                    before,
                    after,
                    info.index_start as int,
                    info.reserved_index_count as int,
                    source_indices(*geometry),
                    info.vertex_start as int,
                )
            },
            old(self).index_buffer() is None ==> final(self).index_buffer() is None,
            final(self).stale(),
            final(self).instances() == old(self).instances(),
            final(self).next_vertex() == old(self).next_vertex(),
            final(self).next_index() == old(self).next_index(),
            final(self).initialized() == old(self).initialized(),
            final(self).max_instances() == old(self).max_instances(),
            final(self).max_vertices() == old(self).max_vertices(),
            final(self).max_indices() == old(self).max_indices(),
            final(self).indirect_table() == old(self).indirect_table(),
            final(self).culls() == old(self).culls(),
            final(self).sorts() == old(self).sorts(),
    {
        proof {
            let info = self.geometry_info@[geometry_id as int];
            assert(placed(info, self.index is Some));
            lemma_reservation_inside(
                self.geometry_info@,
                geometry_id as int,
                self.next_vertex_start as int,
                self.next_index_start as int,
            );
        }
        self.write_geometry(geometry_id, geometry);
        self.visibility_changed = true;
        proof {
            let before = old(self).geometry_info@;
            let after = self.geometry_info@;
            assert forall|g: int| 0 <= g < after.len() implies {
                &&& after[g].vertex_start == before[g].vertex_start
                &&& after[g].reserved_vertex_count == before[g].reserved_vertex_count
                &&& after[g].index_start == before[g].index_start
                &&& after[g].reserved_index_count == before[g].reserved_index_count
            } by {}
            assert(packed(after, self.index is Some, self.next_vertex_start as int, self.next_index_start as int));
        }
        geometry_id
    }
}

impl BatchedMesh {
    /// Packs `geometry` after the last geometry, reserving exactly its own
    /// vertices and indices, and writes it there. The first geometry lays
    /// out the shared index buffer: zeros, 32-bit when more than 65535
    /// vertices can be addressed, and none at all when it is not indexed;
    /// every later geometry must be indexed alike. The draw list goes stale.
    /// Returns the new geometry's id.
    pub fn add_geometry(&mut self, geometry: &GeometryShape) -> (id: usize)
        requires
            old(self).wf(),
            old(self).initialized() ==> (geometry.index is Some) == (old(self).index_buffer() is Some),
            old(self).next_vertex() + geometry.vertex_count <= old(self).max_vertices(),
            geometry.index is Some ==> old(self).next_index() + source_indices(*geometry).len()
                <= old(self).max_indices(),
            offsets_fit(source_indices(*geometry), old(self).next_vertex() as int),
        ensures
            final(self).wf(),
            id == old(self).geometries().len(),
            final(self).geometries() == old(self).geometries().push(
                GeometryInfo {
                    vertex_start: old(self).next_vertex() as usize,
                    vertex_count: geometry.vertex_count,
                    reserved_vertex_count: geometry.vertex_count,
                    index_start: if geometry.index is Some {
                        old(self).next_index() as isize
                    } else {
                        -1isize
                    },
                    index_count: source_indices(*geometry).len() as usize,
                    reserved_index_count: source_indices(*geometry).len() as usize,
                    start: if geometry.index is Some {
                        old(self).next_index() as usize
                    } else {
                        old(self).next_vertex() as usize
                    },
                    count: if geometry.index is Some {
                        source_indices(*geometry).len() as usize
                    } else {
                        geometry.vertex_count
                    },
                    active: true,
                },
            ),
            final(self).next_vertex() == old(self).next_vertex() + geometry.vertex_count,
            final(self).next_index() == old(self).next_index() + source_indices(*geometry).len(),
            final(self).initialized(),
            (geometry.index is Some) == (final(self).index_buffer() is Some),
            final(self).index_buffer() matches Some(after) ==> {
                &&& old(self).index_buffer() matches Some(before) ==> index_written(
                    before,
                    after,
                    old(self).next_index() as int,
                    source_indices(*geometry).len() as int,
                    source_indices(*geometry),
                    old(self).next_vertex() as int,
                )
                &&& old(self).index_buffer() is None ==> exists|fresh: Index|
                    fresh_index(fresh, old(self).max_indices() as int, old(self).max_vertices() as int)
                        && index_written(
                        fresh,
                        after,
                        old(self).next_index() as int,
                        source_indices(*geometry).len() as int,
                        source_indices(*geometry),
                        old(self).next_vertex() as int,
                    )
            },
            final(self).stale(),
            final(self).instances() == old(self).instances(),
            final(self).max_instances() == old(self).max_instances(),
            final(self).max_vertices() == old(self).max_vertices(),
            final(self).max_indices() == old(self).max_indices(),
            final(self).indirect_table() == old(self).indirect_table(),
            final(self).culls() == old(self).culls(),
            final(self).sorts() == old(self).sorts(),
    {
        if !self.geometry_initialized {
            if geometry.index.is_some() {
                if self.max_vertex_count > 65535 {
                    self.index = Some(Index::U32(zeros32(self.max_index_count)));
                } else {
                    self.index = Some(Index::U16(zeros16(self.max_index_count)));
                }
            }
            self.geometry_initialized = true;
        }
        let ghost laid_out = self.index;
        let reserved_vertex_count = geometry.vertex_count;
        let reserved_index_count = match &geometry.index {
            Some(source) => source.len(),
            None => 0,
        };
        let info = GeometryInfo {
            vertex_start: self.next_vertex_start,
            vertex_count: 0,
            reserved_vertex_count,
            index_start: if geometry.index.is_some() {
                self.next_index_start as isize
            } else {
                -1
            },
            index_count: 0,
            reserved_index_count,
            start: 0,
            count: 0,
            active: true,
        };
        let geometry_id = self.geometry_info.len();
        self.geometry_info.push(info);
        self.write_geometry(geometry_id, geometry);
        let written = self.geometry_info[geometry_id];
        let index_start: usize = if written.index_start > 0 {
            written.index_start as usize
        } else {
            0
        };
        self.next_index_start = index_start + written.reserved_index_count;
        self.next_vertex_start = written.vertex_start + written.reserved_vertex_count;
        self.visibility_changed = true;
        proof {
            let before = old(self).geometry_info@;
            let after = self.geometry_info@;
            let indexed = self.index is Some;
            assert(after.len() == before.len() + 1);
            assert forall|g: int| 0 <= g < before.len() implies after[g] == before[g] by {}
            if before.len() > 0 {
                lemma_reservation_inside(
                    before,
                    before.len() - 1,
                    old(self).next_vertex_start as int,
                    old(self).next_index_start as int,
                );
            }
            assert forall|g: int| 0 <= g < after.len() implies placed(#[trigger] after[g], indexed) by {
                if g < before.len() {
                    assert(after[g] == before[g]);
                }
            }
            assert(packed(after, indexed, self.next_vertex_start as int, self.next_index_start as int));
            if indexed && old(self).index is None {
                assert(fresh_index(laid_out->0, self.max_index_count as int, self.max_vertex_count as int));
            }
        }
        geometry_id
    }
}

/// Whether `after` is `before` with the frame's draw list built for the
/// cull flags `culled` and the depth order `order`: one draw per drawn
/// instance, over the draw range of its geometry with the start counted in
/// bytes of an index element, the indirect table mapping each draw back to
/// its instance and keeping what it held beyond the list, the list fresh,
/// and nothing else changed.
pub open spec fn draw_list_built(before: BatchedMesh, after: BatchedMesh, culled: Seq<bool>, order: Seq<usize>) -> bool {
    let list = drawn(
        kept(before.instances(), applied(culled, before.culls() || before.sorts()), before.instances().len() as int),
        order,
        before.sorts(),
    );
    let bytes = element_bytes(before.index_buffer());
    &&& !after.stale()
    &&& after.draw_count() == list.len()
    &&& after.draw_element_bytes() == bytes
    &&& forall|k: int|
        0 <= k < list.len() ==> {
            let range = before.geometries()[before.instances()[list[k] as int].geometry_index as int];
            &&& #[trigger] after.draw_start_bytes(k) == range.start * bytes
            &&& after.draw_start_bytes(k) / bytes == range.start
            &&& after.draw_length(k) == range.count
            &&& after.indirect_table()[k] == list[k]
        }
    &&& after.indirect_table().len() == before.indirect_table().len()
    &&& forall|j: int|
        list.len() <= j < after.indirect_table().len()
            ==> #[trigger] after.indirect_table()[j] == before.indirect_table()[j]
    &&& after.instances() == before.instances()
    &&& after.geometries() == before.geometries()
    &&& after.index_buffer() == before.index_buffer()
    &&& after.next_vertex() == before.next_vertex()
    &&& after.next_index() == before.next_index()
    &&& after.initialized() == before.initialized()
    &&& after.max_instances() == before.max_instances()
    &&& after.max_vertices() == before.max_vertices()
    &&& after.max_indices() == before.max_indices()
    &&& after.culls() == before.culls()
    &&& after.sorts() == before.sorts()
}

impl BatchedMesh {
    /// Builds the frame's draw list, unless nothing changed and neither the
    /// cull nor the sort can change it. The drawn instances are the visible,
    /// active ones that `culled` does not drop, in instance order, or in
    /// `order` (a rearrangement of them, from the depth sort) when the list
    /// is sorted. `culled` holds one flag per instance: with the cull on,
    /// whether its bounding sphere misses the frustum; when sorting, also
    /// whether it has no bounding sphere to sort by. With neither a cull nor
    /// a sort running the flags are not read and no instance is dropped. Draw `k` covers the draw range of its instance's geometry,
    /// its start counted in bytes of an index element, and the indirect
    /// table maps `k` back to the instance; the table keeps what it held
    /// beyond the list.
    #[verifier::spinoff_prover]
    pub fn on_before_render(&mut self, culled: &[bool], order: &[usize])
        requires
            old(self).wf(),
            culled@.len() == old(self).instances().len(),
            old(self).sorts() ==> is_order(
                order@,
                kept(
                    old(self).instances(),
                    applied(culled@, old(self).culls() || old(self).sorts()),
                    old(self).instances().len() as int,
                ).len() as int,
            ),
        ensures
            final(self).wf(),
            !old(self).stale() && !old(self).culls() && !old(self).sorts() ==> *final(self) == *old(self),
            old(self).stale() || old(self).culls() || old(self).sorts() ==> draw_list_built(
                *old(self),
                *final(self),
                culled@,
                order@,
            ),
    {
        if !self.visibility_changed && !self.per_object_frustum_culled && !self.sort_objects {
            return;
        }
        let bytes_per_element: usize = match &self.index {
            Some(Index::U16(_)) => 2,
            Some(Index::U32(_)) => 4,
            None => 1,
        };
        let n = self.instance_info.len();
        let applies = self.per_object_frustum_culled || self.sort_objects;
        let ghost flags = applied(culled@, applies);
        let mut survivors: Vec<usize> = Vec::new();
        let mut i: usize = 0;
        while i < n
            invariant
                n == self.instance_info@.len(),
                culled@.len() == n,
                i <= n,
                flags == applied(culled@, applies),
                survivors@ == kept(self.instance_info@, flags, i as int),
            decreases n - i,
        {
            let info = self.instance_info[i];
            if info.visible && info.active && !(applies && culled[i]) {
                survivors.push(i);
            }
            i = i + 1;
        }
        proof {
            lemma_kept(self.instance_info@, flags, n as int);
        }
        let ghost list = drawn(survivors@, order@, self.sort_objects);
        let count = if self.sort_objects {
            order.len()
        } else {
            survivors.len()
        };
        let mut indirect: Vec<u32> = Vec::new();
        std::mem::swap(&mut indirect, &mut self.indirect);
        let mut starts: Vec<u64> = Vec::new();
        let mut counts: Vec<usize> = Vec::new();
        let mut k: usize = 0;
        while k < count
            invariant
                self.wf_except_draws(),
                n == self.instance_info@.len(),
                survivors@ == kept(self.instance_info@, flags, n as int),
                forall|m: int| 0 <= m < survivors@.len() ==> #[trigger] survivors@[m] < n,
                survivors@.len() <= n,
                self.sort_objects ==> is_order(order@, survivors@.len() as int),
                count == list.len(),
                list == drawn(survivors@, order@, self.sort_objects),
                bytes_per_element == element_bytes(self.index),
                k <= count,
                count <= n,
                indirect@.len() == self.indirect_side as int * self.indirect_side as int,
                starts@.len() == k,
                counts@.len() == k,
                forall|m: int|
                    0 <= m < k ==> #[trigger] entry_matches(
                        self.geometry_info@,
                        self.instance_info@,
                        list,
                        starts@,
                        counts@,
                        indirect@,
                        bytes_per_element as int,
                        m,
                    ),
                forall|j: int| k <= j < indirect@.len() ==> #[trigger] indirect@[j] == old(self).indirect@[j],
            decreases count - k,
        {
            let instance = if self.sort_objects {
                survivors[order[k]]
            } else {
                survivors[k]
            };
            let range = self.geometry_info[self.instance_info[instance].geometry_index];
            proof {
                self.lemma_range_fits(self.instance_info@[instance as int].geometry_index as int);
                assert(range.start as u64 * bytes_per_element as u64 <= u32::MAX * 4) by (nonlinear_arith)
                    requires range.start <= u32::MAX, bytes_per_element <= 4;
                vstd::arithmetic::div_mod::lemma_div_multiples_vanish(range.start as int, bytes_per_element as int);
                vstd::arithmetic::div_mod::lemma_mod_multiples_basic(range.start as int, bytes_per_element as int);
                assert(bytes_per_element as int * range.start as int == range.start as int * bytes_per_element as int) by (nonlinear_arith);
            }
            assert(instance == list[k as int]);
            let ghost (starts_before, counts_before, indirect_before) = (starts@, counts@, indirect@);
            starts.push(range.start as u64 * bytes_per_element as u64);
            counts.push(range.count);
            indirect.set(k, instance as u32);
            proof {
                assert(instance < n && n <= MAX_INSTANCES);
                assert(indirect@[k as int] == list[k as int]);
                assert(entry_matches(
                    self.geometry_info@,
                    self.instance_info@,
                    list,
                    starts@,
                    counts@,
                    indirect@,
                    bytes_per_element as int,
                    k as int,
                ));
                assert forall|m: int| 0 <= m < k implies #[trigger] entry_matches(
                    self.geometry_info@,
                    self.instance_info@,
                    list,
                    starts@,
                    counts@,
                    indirect@,
                    bytes_per_element as int,
                    m,
                ) by {
                    assert(entry_matches(
                        self.geometry_info@,
                        self.instance_info@,
                        list,
                        starts_before,
                        counts_before,
                        indirect_before,
                        bytes_per_element as int,
                        m,
                    ));
                    assert(starts@[m] == starts_before[m] && counts@[m] == counts_before[m] && indirect@[m]
                        == indirect_before[m]);
                }
            }
            k = k + 1;
        }
        self.indirect = indirect;
        self.multi_draw_starts = starts;
        self.multi_draw_counts = counts;
        self.multi_draw_bytes_per_element = bytes_per_element;
        self.visibility_changed = false;
        proof {
            assert forall|m: int| 0 <= m < count implies {
                let range = self.geometry_info@[self.instance_info@[list[m] as int].geometry_index as int];
                &&& #[trigger] self.multi_draw_starts@[m] == range.start * bytes_per_element
                &&& self.multi_draw_starts@[m] as int / bytes_per_element as int == range.start
                &&& self.multi_draw_starts@[m] as int % bytes_per_element as int == 0
                &&& range.start <= u32::MAX
                &&& self.multi_draw_counts@[m] == range.count
                &&& range.count <= u32::MAX
                &&& self.indirect@[m] == list[m]
            } by {
                assert(entry_matches(
                    self.geometry_info@,
                    self.instance_info@,
                    list,
                    self.multi_draw_starts@,
                    self.multi_draw_counts@,
                    self.indirect@,
                    bytes_per_element as int,
                    m,
                ));
            }
            assert(self.indirect@.len() == old(self).indirect@.len());
            assert(forall|j: int| count <= j < self.indirect@.len() ==> #[trigger] self.indirect@[j] == old(self).indirect@[j]);
            assert(self.instance_info@ == old(self).instance_info@);
            assert(self.geometry_info@ == old(self).geometry_info@);
            assert(self.index == old(self).index);
            assert(draw_list_built(*old(self), *self, culled@, order@));
            assert(self.multi_draw_starts@.len() == count && count <= n && n <= self.max_instance_count);
            assert(self.wf());
        }
    }

    /// The invariant's part that does not concern the draw list.
    closed spec fn wf_except_draws(&self) -> bool {
        let indexed = self.index is Some;
        &&& self.max_instance_count <= MAX_INSTANCES
        &&& self.max_vertex_count <= u32::MAX
        &&& self.max_index_count <= u32::MAX
        &&& self.max_index_count <= isize::MAX
        &&& self.instance_info@.len() <= self.max_instance_count
        &&& forall|i: int|
            0 <= i < self.instance_info@.len() ==> (#[trigger] self.instance_info@[i]).geometry_index
                < self.geometry_info@.len()
        &&& self.geometry_initialized == (self.geometry_info@.len() > 0)
        &&& !self.geometry_initialized ==> self.index is None
        &&& self.index matches Some(index) ==> {
            &&& index.len() == self.max_index_count
            &&& index.is_wide() == (self.max_vertex_count > 65535)
        }
        &&& packed(self.geometry_info@, indexed, self.next_vertex_start as int, self.next_index_start as int)
        &&& forall|g: int| 0 <= g < self.geometry_info@.len() ==> placed(#[trigger] self.geometry_info@[g], indexed)
        &&& self.next_vertex_start <= self.max_vertex_count
        &&& self.next_index_start <= self.max_index_count
        &&& square_side(self.indirect_side as int, self.max_instance_count as int)
    }

    /// Every geometry's draw range starts and counts within 32 bits.
    proof fn lemma_range_fits(&self, g: int)
        requires
            self.wf_except_draws(),
            0 <= g < self.geometry_info@.len(),
        ensures
            self.geometry_info@[g].start <= u32::MAX,
            self.geometry_info@[g].count <= u32::MAX,
    {
        lemma_reservation_inside(self.geometry_info@, g, self.next_vertex_start as int, self.next_index_start as int);
    }
}

impl BatchedMesh {
    /// The indexed draws issued for the last frame's list: draw `k` starts at
    /// its byte offset divided back into elements, covers its count, and is
    /// instance `k` of the draw, which the indirect table maps to the
    /// instance it stands for.
    pub fn sub_draws(&self) -> (draws: Vec<SubDraw>)
        requires
            self.wf(),
        ensures
            draws@.len() == self.draw_count(),
            forall|k: int|
                0 <= k < draws@.len() ==> #[trigger] draws@[k] == (SubDraw {
                    first_index: (self.draw_start_bytes(k) / self.draw_element_bytes()) as u32,
                    index_count: self.draw_length(k) as u32,
                    first_instance: k as u32,
                }),
    {
        let bytes = self.multi_draw_bytes_per_element as u64;
        let count = self.multi_draw_starts.len();
        let mut draws: Vec<SubDraw> = Vec::new();
        let mut k: usize = 0;
        while k < count
            invariant
                self.wf(),
                count == self.multi_draw_starts@.len(),
                bytes == self.multi_draw_bytes_per_element,
                k <= count,
                draws@.len() == k,
                forall|m: int|
                    0 <= m < k ==> #[trigger] draws@[m] == (SubDraw {
                        first_index: (self.draw_start_bytes(m) / self.draw_element_bytes()) as u32,
                        index_count: self.draw_length(m) as u32,
                        first_instance: m as u32,
                    }),
            decreases count - k,
        {
            let first_index = (self.multi_draw_starts[k] / bytes) as u32;
            let index_count = self.multi_draw_counts[k] as u32;
            draws.push(SubDraw { first_index, index_count, first_instance: k as u32 });
            k = k + 1;
        }
        draws
    }
}

/// The vertices reserved by the first `k` geometries.
pub open spec fn vertices_reserved_before(infos: Seq<GeometryInfo>, k: int) -> int
    decreases k,
{
    if k <= 0 {
        0
    } else {
        vertices_reserved_before(infos, k - 1) + infos[k - 1].reserved_vertex_count
    }
}

/// The indices reserved by the first `k` geometries.
pub open spec fn indices_reserved_before(infos: Seq<GeometryInfo>, k: int) -> int
    decreases k,
{
    if k <= 0 {
        0
    } else {
        indices_reserved_before(infos, k - 1) + infos[k - 1].reserved_index_count
    }
}

/// Geometries are packed back to back: each one's vertices (and, in an
/// indexed batch, its indices) start where the reservations of all the
/// geometries added before it end, and the next geometry goes after all of
/// them.
pub proof fn a_geometry_starts_after_everything_added_before(batch: BatchedMesh, k: int)
    requires
        batch.wf(),
        0 <= k < batch.geometries().len(),
    ensures
        batch.geometries()[k].vertex_start == vertices_reserved_before(batch.geometries(), k),
        batch.index_buffer() is Some ==> batch.geometries()[k].index_start == indices_reserved_before(
            batch.geometries(),
            k,
        ),
        batch.next_vertex() == vertices_reserved_before(batch.geometries(), batch.geometries().len() as int),
        batch.index_buffer() is Some ==> batch.next_index() == indices_reserved_before(
            batch.geometries(),
            batch.geometries().len() as int,
        ),
{
    let infos = batch.geometry_info@;
    let indexed = batch.index is Some;
    lemma_starts(infos, indexed, batch.next_vertex_start as int, batch.next_index_start as int, k);
    lemma_starts(infos, indexed, batch.next_vertex_start as int, batch.next_index_start as int, infos.len() - 1);
}

/// In packed ranges, geometry `k` starts after the reservations of all
/// geometries before it.
proof fn lemma_starts(infos: Seq<GeometryInfo>, indexed: bool, next_vertex: int, next_index: int, k: int)
    requires
        packed(infos, indexed, next_vertex, next_index),
        0 <= k < infos.len(),
    ensures
        infos[k].vertex_start == vertices_reserved_before(infos, k),
        indexed ==> infos[k].index_start == indices_reserved_before(infos, k),
    decreases k,
{
    if k > 0 {
        lemma_starts(infos, indexed, next_vertex, next_index, k - 1);
        assert(infos[(k - 1) + 1].vertex_start == infos[k - 1].vertex_start + infos[k - 1].reserved_vertex_count);
    }
}

/// Geometries never share space: of two geometries of a batch, the earlier
/// one's reserved vertices (and, in an indexed batch, its reserved indices)
/// end where the later one's may begin at the soonest, and every reservation
/// lies inside the shared buffers.
pub proof fn reservations_never_overlap(batch: BatchedMesh, first: int, second: int)
    requires
        batch.wf(),
        0 <= first < second < batch.geometries().len(),
    ensures
        batch.geometries()[first].vertex_start + batch.geometries()[first].reserved_vertex_count
            <= batch.geometries()[second].vertex_start,
        batch.index_buffer() is Some ==> batch.geometries()[first].index_start
            + batch.geometries()[first].reserved_index_count <= batch.geometries()[second].index_start,
        batch.geometries()[second].vertex_start + batch.geometries()[second].reserved_vertex_count
            <= batch.max_vertices(),
        batch.index_buffer() is Some ==> batch.geometries()[second].index_start
            + batch.geometries()[second].reserved_index_count <= batch.max_indices(),
    decreases second - first,
{
    let infos = batch.geometry_info@;
    lemma_reservation_inside(infos, second, batch.next_vertex_start as int, batch.next_index_start as int);
    assert(infos[first + 1].vertex_start == infos[first].vertex_start + infos[first].reserved_vertex_count);
    if first + 1 < second {
        reservations_never_overlap(batch, first + 1, second);
    }
}

/// Every instance that survives the cull is drawn exactly once, sorted or
/// not, and nothing else is drawn.
pub proof fn each_survivor_is_drawn_once(
    instances: Seq<InstanceInfo>,
    culled: Seq<bool>,
    order: Seq<usize>,
    sorted: bool,
)
    requires
        culled.len() == instances.len(),
        instances.len() <= usize::MAX,
        sorted ==> is_order(order, kept(instances, culled, instances.len() as int).len() as int),
    ensures
        ({
            let list = drawn(kept(instances, culled, instances.len() as int), order, sorted);
            &&& forall|j: int, k: int| 0 <= j < list.len() && 0 <= k < list.len() && j != k ==> list[j] != list[k]
            &&& forall|i: int|
                0 <= i < instances.len() ==> (#[trigger] list.contains(i as usize) <==> (
                instances[i].visible && instances[i].active && !culled[i]))
        }),
{
    let n = instances.len() as int;
    let survivors = kept(instances, culled, n);
    lemma_kept(instances, culled, n);
    let list = drawn(survivors, order, sorted);
    assert forall|j: int, k: int| 0 <= j < list.len() && 0 <= k < list.len() && j != k implies list[j] != list[k] by {
        if sorted {
            assert(order[j] != order[k]);
            if order[j] < order[k] {
                assert(survivors[order[j] as int] < survivors[order[k] as int]);
            } else {
                assert(survivors[order[k] as int] < survivors[order[j] as int]);
            }
        } else {
            if j < k {
                assert(survivors[j] < survivors[k]);
            } else {
                assert(survivors[k] < survivors[j]);
            }
        }
    }
    assert forall|i: int| 0 <= i < n implies (#[trigger] list.contains(i as usize) <==> (
    instances[i].visible && instances[i].active && !culled[i])) by {
        assert(survivors.contains(i as usize) <==> (instances[i].visible && instances[i].active && !culled[i]));
        if sorted {
            if list.contains(i as usize) {
                let k = choose|k: int| 0 <= k < list.len() && list[k] == i as usize;
                assert(survivors[order[k] as int] == i as usize);
                assert(survivors.contains(i as usize));
            }
            if survivors.contains(i as usize) {
                let p = choose|p: int| 0 <= p < survivors.len() && survivors[p] == i as usize;
                assert(exists|k: int| 0 <= k < order.len() && order[k] == p) by {
                    lemma_order_is_onto(order, survivors.len() as int, p);
                }
                let k = choose|k: int| 0 <= k < order.len() && order[k] == p;
                assert(list[k] == i as usize);
            }
        }
    }
}

/// With neither a cull nor a sort running, a rebuilt draw list drops no
/// instance: it holds every visible, active instance, once each, in
/// instance order, whatever the cull flags say.
pub proof fn without_a_cull_or_sort_nothing_is_dropped(instances: Seq<InstanceInfo>, culled: Seq<bool>, order: Seq<usize>)
    requires
        culled.len() == instances.len(),
        instances.len() <= usize::MAX,
    ensures
        ({
            let list = drawn(kept(instances, applied(culled, false), instances.len() as int), order, false);
            &&& forall|j: int, k: int| 0 <= j < k < list.len() ==> list[j] < list[k]
            &&& forall|i: int|
                0 <= i < instances.len() ==> (#[trigger] list.contains(i as usize) <==> (instances[i].visible
                    && instances[i].active))
        }),
{
    let flags = applied(culled, false);
    lemma_kept(instances, flags, instances.len() as int);
    each_survivor_is_drawn_once(instances, flags, order, false);
    assert forall|i: int| 0 <= i < instances.len() implies !flags[i] by {}
}

/// An order of `0..n` reaches every position.
proof fn lemma_order_is_onto(order: Seq<usize>, n: int, p: int)
    requires
        is_order(order, n),
        0 <= p < n,
    ensures
        exists|k: int| 0 <= k < order.len() && order[k] == p,
{
    let reached = Set::new(|q: int| exists|k: int| 0 <= k < n && order[k] == q);
    let images = order.map_values(|v: usize| v as int).to_set();
    assert(images =~= reached) by {
        assert forall|q: int| reached.contains(q) implies images.contains(q) by {
            let k = choose|k: int| 0 <= k < n && order[k] == q;
            assert(order.map_values(|v: usize| v as int)[k] == q);
        }
    }
    let mapped = order.map_values(|v: usize| v as int);
    assert(mapped.no_duplicates()) by {
        assert forall|a: int, b: int| 0 <= a < mapped.len() && 0 <= b < mapped.len() && a != b implies mapped[a] != mapped[b] by {
            assert(order[a] != order[b]);
        }
    }
    mapped.unique_seq_to_set();
    let range = Set::new(|q: int| 0 <= q < n);
    assert(images.subset_of(range)) by {
        assert forall|q: int| images.contains(q) implies range.contains(q) by {
            let k = choose|k: int| 0 <= k < mapped.len() && mapped[k] == q;
            assert(order[k] < n);
        }
    }
    vstd::set_lib::lemma_int_range(0, n);
    assert(range =~= vstd::set_lib::set_int_range(0, n));
    vstd::set_lib::lemma_subset_equality(images, range);
    assert(range.contains(p));
}

/// Once a geometry is written, each entry of its reserved index range points
/// at one of its own vertices: its indices (each naming one of its
/// `vertex_count` vertices) are moved to its first vertex, and the tail
/// past them points at that first vertex.
pub proof fn written_indices_stay_in_their_geometry(
    source: Seq<u32>,
    vertex_start: int,
    vertex_count: int,
    i: int,
    wide: bool,
)
    requires
        vertex_start >= 0,
        vertex_count >= 1,
        forall|k: int| 0 <= k < source.len() ==> #[trigger] source[k] < vertex_count,
        !wide ==> vertex_start + vertex_count <= 65536,
        i >= 0,
    ensures
        vertex_start <= written_index(source, vertex_start, i, wide) < vertex_start + vertex_count,
{
    if i < source.len() {
        assert(source[i] < vertex_count);
    }
    let value = vertex_start + if i < source.len() {
        source[i] as int
    } else {
        0
    };
    if !wide {
        vstd::arithmetic::div_mod::lemma_small_mod(value as nat, 65536);
    }
}

} // verus!
